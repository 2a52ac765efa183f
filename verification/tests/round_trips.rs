use color_picker::libs::color_transform::cmyk_color::CMYK;
use color_picker::libs::color_transform::hsv_color::HSV;
use color_picker::libs::color_transform::rgb_color::RGB;
use color_picker::libs::color_transform::Color;
use color_picker::libs::fraction::Fraction;

fn channels(r: u32, g: u32, b: u32) -> RGB {
    RGB::new(format!("{}, {}, {}", r, g, b)).unwrap()
}

fn apart(a: &RGB, b: &RGB) -> u32 {
    let d = |x: u32, y: u32| if x > y { x - y } else { y - x };
    d(a.get_red(), b.get_red())
        .max(d(a.get_green(), b.get_green()))
        .max(d(a.get_blue(), b.get_blue()))
}

#[test]
fn through_hue_saturation_and_value_and_back() {
    let rgb = channels(12, 34, 56);
    assert_eq!(RGB::from_hsv(&HSV::from_rgb(&rgb)).to_string(), "12, 34, 56");
    let rgb = channels(200, 100, 50);
    assert_eq!(RGB::from_hsv(&HSV::from_rgb(&rgb)).to_string(), "200, 100, 50");
}

#[test]
fn rounding_the_hue_may_move_the_third_channel_by_two() {
    let rgb = channels(0, 2, 210);
    assert_eq!(RGB::from_hsv(&HSV::from_rgb(&rgb)).to_string(), "0, 4, 210");
    let rgb = channels(190, 8, 0);
    assert_eq!(RGB::from_hsv(&HSV::from_rgb(&rgb)).to_string(), "190, 10, 0");
}

#[test]
fn through_hue_saturation_and_value_no_channel_moves_by_more_than_two() {
    for r in (0..=255u32).step_by(5) {
        for g in (0..=255u32).step_by(3) {
            for b in (0..=255u32).step_by(7) {
                let rgb = channels(r, g, b);
                let back = RGB::from_hsv(&HSV::from_rgb(&rgb));
                let spread = r.max(g).max(b) - r.min(g).min(b);
                let limit = if spread <= 180 { 1 } else { 2 };
                assert!(apart(&rgb, &back) <= limit, "{} {} {}", r, g, b);
            }
        }
    }
}

#[test]
fn through_the_inks_and_back() {
    let rgb = channels(12, 34, 56);
    assert_eq!(RGB::from_cmyk(&CMYK::from_rgb(&rgb)).to_string(), "12, 34, 56");
    let rgb = channels(18, 52, 86);
    assert_eq!(RGB::from_cmyk(&CMYK::from_rgb(&rgb)).to_string(), "18, 52, 87");
}

#[test]
fn rounding_the_inks_may_move_a_channel_by_two() {
    let rgb = channels(0, 64, 65);
    assert_eq!(RGB::from_cmyk(&CMYK::from_rgb(&rgb)).to_string(), "0, 62, 64");
}

#[test]
fn through_the_inks_no_channel_moves_by_more_than_two() {
    for r in (0..=255u32).step_by(5) {
        for g in (0..=255u32).step_by(3) {
            for b in (0..=255u32).step_by(7) {
                let rgb = channels(r, g, b);
                let back = RGB::from_cmyk(&CMYK::from_rgb(&rgb));
                let limit = if r.max(g).max(b) == 255 { 1 } else { 2 };
                assert!(apart(&rgb, &back) <= limit, "{} {} {}", r, g, b);
            }
        }
    }
}

#[test]
fn what_a_colour_writes_reads_back_to_the_same_text() {
    let colors = vec![
        Color::from_rgb(String::from("12, 34, 56")).unwrap(),
        Color::from_rgb(String::from("999, 999, 999")).unwrap(),
        Color::from_hex(String::from("AbC")).unwrap(),
        Color::from_cmyk(String::from("999%, 0%, 7%, 100%")).unwrap(),
        Color::from_hsv(String::from("999°, 999%, 999%")).unwrap(),
        Color::from_hsl(String::from("0°, 0%, 0%")).unwrap(),
        Color::from_hsv_values(
            Fraction::new(719, 2).unwrap(),
            Fraction::new(1, 3).unwrap(),
            Fraction::new(199, 2).unwrap(),
        )
        .unwrap(),
    ];
    for c in colors.iter() {
        assert_eq!(Color::from_hex(c.hex_value()).unwrap().hex_value(), c.hex_value());
        assert_eq!(Color::from_rgb(c.rgb_value()).unwrap().rgb_value(), c.rgb_value());
        assert_eq!(Color::from_cmyk(c.cmyk_value()).unwrap().cmyk_value(), c.cmyk_value());
        assert_eq!(Color::from_hsv(c.hsv_value()).unwrap().hsv_value(), c.hsv_value());
        assert_eq!(Color::from_hsl(c.hsl_value()).unwrap().hsl_value(), c.hsl_value());
    }
}

#[test]
fn every_colour_of_a_sample_reads_back_to_the_same_text() {
    for r in (0..=255u32).step_by(17) {
        for g in (0..=255u32).step_by(15) {
            for b in (0..=255u32).step_by(51) {
                let c = Color::from_rgb(format!("{}, {}, {}", r, g, b)).unwrap();
                assert_eq!(Color::from_hex(c.hex_value()).unwrap().hex_value(), c.hex_value());
                assert_eq!(Color::from_hex(c.hex_value()).unwrap().rgb_value(), c.rgb_value());
                assert_eq!(Color::from_rgb(c.rgb_value()).unwrap().rgb_value(), c.rgb_value());
                assert_eq!(Color::from_cmyk(c.cmyk_value()).unwrap().cmyk_value(), c.cmyk_value());
                assert_eq!(Color::from_hsv(c.hsv_value()).unwrap().hsv_value(), c.hsv_value());
                assert_eq!(Color::from_hsl(c.hsl_value()).unwrap().hsl_value(), c.hsl_value());
            }
        }
    }
}
