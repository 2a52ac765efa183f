use color_picker::libs::color_transform::hex_color::Hex;
use color_picker::libs::color_validate::{is_valid_cmyk, is_valid_hex, is_valid_hsv, is_valid_rgb};
use regex::Regex;

fn last_captures(pattern: &Regex, text: &str, count: usize) -> Option<Vec<u32>> {
    let mut last = None;
    for cap in pattern.captures_iter(text) {
        let mut values = Vec::new();
        for i in 1..=count {
            values.push(cap[i].parse::<u32>().unwrap());
        }
        last = Some(values);
    }
    last
}

fn within(values: Option<Vec<u32>>, bounds: &[u32]) -> bool {
    match values {
        Some(v) => v.iter().zip(bounds.iter()).all(|(x, max)| x <= max),
        None => false,
    }
}

fn numbers() -> Vec<&'static str> {
    vec!["0", "7", "00", "100", "101", "255", "256", "360", "361", "999", "1000", ""]
}

#[test]
fn rgb_agrees_with_the_pattern() {
    let pattern = Regex::new(r"^(\d{1,3}),\s*(\d{1,3}),\s*(\d{1,3})$").unwrap();
    let gaps = vec![",", ", ", ",  \t", " ,", ";", ",,", ""];
    let ends = vec!["", " ", "x", "\n"];
    let mut count = 0;
    for a in numbers() {
        for b in numbers() {
            for c in numbers() {
                for g1 in gaps.iter() {
                    for g2 in gaps.iter() {
                        for start in ends.iter() {
                            for end in ends.iter() {
                                let text = format!("{}{}{}{}{}{}{}", start, a, g1, b, g2, c, end);
                                let expected = within(
                                    last_captures(&pattern, &text, 3),
                                    &[255, 255, 255],
                                );
                                assert_eq!(is_valid_rgb(&text), expected, "{:?}", text);
                                count += 1;
                            }
                        }
                    }
                }
            }
        }
    }
    assert!(count > 100_000);
}

#[test]
fn cmyk_agrees_with_the_pattern() {
    let pattern =
        Regex::new(r"^(\d{1,3})%,\s*(\d{1,3})%,\s*(\d{1,3})%,\s*(\d{1,3})%$").unwrap();
    let values = vec!["0", "50", "100", "101", "1000", ""];
    let gaps = vec!["%,", "%, ", "%,\t ", ",", "% ,", "%"];
    let ends = vec!["%", "", "% ", "%%"];
    for a in values.iter() {
        for b in values.iter() {
            for c in values.iter() {
                for d in values.iter() {
                    for g1 in gaps.iter() {
                        for g2 in gaps.iter() {
                            for end in ends.iter() {
                                let text =
                                    format!("{}{}{}{}{}%, {}{}", a, g1, b, g2, c, d, end);
                                let expected = within(
                                    last_captures(&pattern, &text, 4),
                                    &[100, 100, 100, 100],
                                );
                                assert_eq!(is_valid_cmyk(&text), expected, "{:?}", text);
                            }
                        }
                    }
                }
            }
        }
    }
}

#[test]
fn hsv_agrees_with_the_pattern() {
    let pattern = Regex::new(r"(\d{1,3})°,\s*(\d{1,3})%,\s*(\d{1,3})%").unwrap();
    let hues = vec!["0", "360", "361", "1360", "12345", ""];
    let shares = vec!["0", "100", "101", "0100", ""];
    let starts = vec!["", " ", "9", "1°,1%,1%", "999°,1%,1% "];
    let ends = vec!["", "%", " 2°,2%,2%", "400°,1%,1%", "5°,5%,"];
    let gaps = vec![",", ", ", " ,", ",\u{a0}"];
    for h in hues.iter() {
        for s in shares.iter() {
            for v in shares.iter() {
                for g1 in gaps.iter() {
                    for g2 in gaps.iter() {
                        for start in starts.iter() {
                            for end in ends.iter() {
                                let text =
                                    format!("{}{}°{}{}%{}{}%{}", start, h, g1, s, g2, v, end);
                                let expected = within(
                                    last_captures(&pattern, &text, 3),
                                    &[360, 100, 100],
                                );
                                assert_eq!(is_valid_hsv(&text), expected, "{:?}", text);
                            }
                        }
                    }
                }
            }
        }
    }
}

#[test]
fn hex_agrees_with_the_patterns() {
    let short = Regex::new(r"^#?(?P<r>[\dA-Fa-f])(?P<g>[\dA-Fa-f])(?P<b>[\dA-Fa-f])$").unwrap();
    let long = Regex::new(r"^#?([\dA-Fa-f]{2})([\dA-Fa-f]{2})([\dA-Fa-f]{2})$").unwrap();
    let letters = vec!["", "0", "9", "a", "F", "g", "G", "#", " ", "/", ":", "@", "`"];
    let mut texts = vec![String::new()];
    for _ in 0..4 {
        let mut longer = Vec::new();
        for t in texts.iter() {
            for l in letters.iter() {
                longer.push(format!("{}{}", t, l));
            }
        }
        texts = longer;
    }
    for t in texts.iter() {
        for tail in vec!["", "0", "aB", "fff", "#12", "1234"] {
            let text = format!("{}{}", t, tail);
            let expected = short.is_match(&text) || long.is_match(&text);
            assert_eq!(is_valid_hex(&text), expected, "{:?}", text);
            if short.is_match(&text) || !long.is_match(&text) || text.starts_with('#') {
                let mut written = if short.is_match(&text) {
                    short.replace_all(&text, "#$r$r$g$g$b$b").to_string()
                } else {
                    text.clone()
                };
                written.make_ascii_lowercase();
                assert_eq!(Hex::new(text.clone()).to_string(), written, "{:?}", text);
            }
        }
    }
}
