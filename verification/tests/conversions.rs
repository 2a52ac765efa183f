use color_picker::libs::color_transform::cmyk_color::CMYK;
use color_picker::libs::color_transform::hsl_color::HSL;
use color_picker::libs::color_transform::hsv_color::HSV;
use color_picker::libs::color_transform::rgb_color::RGB;
use color_picker::libs::color_transform::Color;
use color_picker::libs::fraction::Fraction;

fn whole(n: u32) -> Fraction {
    Fraction::from_integer(n)
}

fn all_values(color: &Color) -> (String, String, String, String, String) {
    (
        color.hex_value(),
        color.rgb_value(),
        color.hsv_value(),
        color.cmyk_value(),
        color.hsl_value(),
    )
}

fn five(hex: &str, rgb: &str, hsv: &str, cmyk: &str, hsl: &str) -> (String, String, String, String, String) {
    (
        String::from(hex),
        String::from(rgb),
        String::from(hsv),
        String::from(cmyk),
        String::from(hsl),
    )
}

#[test]
fn a_colour_from_channels_holds_all_five() {
    let color = Color::from_rgb(String::from("12, 34, 56")).unwrap();
    assert_eq!(
        all_values(&color),
        five("#0c2238", "12, 34, 56", "210°, 79%, 22%", "79%, 39%, 0%, 78%", "210°, 65%, 13%")
    );
}

#[test]
fn a_colour_from_hex_holds_all_five() {
    let color = Color::from_hex(String::from("#C86432")).unwrap();
    assert_eq!(
        all_values(&color),
        five("#c86432", "200, 100, 50", "20°, 75%, 78%", "0%, 50%, 75%, 22%", "20°, 60%, 49%")
    );
}

#[test]
fn a_colour_from_hue_saturation_and_value_holds_all_five() {
    let color = Color::from_hsv(String::from("200°, 30%, 70%")).unwrap();
    assert_eq!(
        all_values(&color),
        five("#7da1b3", "125, 161, 179", "200°, 30%, 70%", "30%, 10%, 0%, 30%", "200°, 26%, 60%")
    );
}

#[test]
fn a_colour_from_inks_holds_all_five() {
    let color = Color::from_cmyk(String::from("25%, 0%, 0%, 60%")).unwrap();
    assert_eq!(
        all_values(&color),
        five("#4d6666", "77, 102, 102", "180°, 25%, 40%", "25%, 0%, 0%, 60%", "180°, 14%, 35%")
    );
}

#[test]
fn a_colour_from_hue_saturation_and_lightness_holds_all_five() {
    let color = Color::from_hsl(String::from("45°, 30%, 80%")).unwrap();
    assert_eq!(
        all_values(&color),
        five("#dbd4bd", "219, 212, 189", "45°, 14%, 86%", "0%, 3%, 14%, 14%", "45°, 30%, 80%")
    );
}

#[test]
fn saturation_and_value_of_channels_are_not_rounded() {
    let hsv = HSV::from_rgb(&RGB::new(String::from("12, 34, 56")).unwrap());
    assert_eq!(hsv.get_hue(), whole(210));
    assert_eq!(hsv.get_saturation(), Fraction::new(4400, 56).unwrap());
    assert_eq!(hsv.get_value(), Fraction::new(5600, 255).unwrap());
    let color = Color::from_rgb(String::from("1, 2, 3")).unwrap();
    assert_eq!(color.get_hue(), whole(210));
    assert_eq!(color.get_saturation(), Fraction::new(200, 3).unwrap());
    assert_eq!(color.get_value(), Fraction::new(300, 255).unwrap());
}

#[test]
fn the_hue_follows_the_brightest_channel() {
    let hue = |text: &str| HSV::from_rgb(&RGB::new(String::from(text)).unwrap()).get_hue().round();
    assert_eq!(hue("255, 0, 0"), 0);
    assert_eq!(hue("255, 255, 0"), 60);
    assert_eq!(hue("0, 255, 0"), 120);
    assert_eq!(hue("0, 255, 255"), 180);
    assert_eq!(hue("0, 0, 255"), 240);
    assert_eq!(hue("255, 0, 255"), 300);
    assert_eq!(hue("255, 0, 1"), 0);
    assert_eq!(hue("255, 0, 3"), 359);
    assert_eq!(hue("190, 8, 0"), 3);
    assert_eq!(hue("7, 7, 7"), 0);
}

#[test]
fn each_sector_of_the_wheel_orders_the_channels() {
    let rgb = |h: u32| {
        RGB::from_hsv(&HSV::from_values(whole(h), whole(100), whole(100)).unwrap()).to_string()
    };
    assert_eq!(rgb(30), "255, 128, 0");
    assert_eq!(rgb(90), "128, 255, 0");
    assert_eq!(rgb(150), "0, 255, 128");
    assert_eq!(rgb(210), "0, 128, 255");
    assert_eq!(rgb(270), "128, 0, 255");
    assert_eq!(rgb(330), "255, 0, 128");
}

#[test]
fn a_hue_with_a_fraction_is_used_as_it_is() {
    let hsv = HSV::from_values(Fraction::new(61, 2).unwrap(), whole(100), whole(100)).unwrap();
    assert_eq!(RGB::from_hsv(&hsv).to_string(), "255, 130, 0");
    assert_eq!(hsv.to_string(), "31°, 100%, 100%");
    let hsl = HSL::from_hsv(&hsv);
    assert_eq!(hsl.get_hue(), Fraction::new(61, 2).unwrap());
    assert_eq!(hsl.to_string(), "31°, 100%, 50%");
}

#[test]
fn a_tie_rounds_up() {
    let color = Color::from_hsv(String::from("0°, 60%, 25%")).unwrap();
    assert_eq!(color.rgb_value(), "64, 26, 26");
    let color = Color::from_cmyk(String::from("25%, 50%, 0%, 60%")).unwrap();
    assert_eq!(color.rgb_value(), "77, 51, 102");
}

#[test]
fn black_needs_no_coloured_ink() {
    let color = Color::from_rgb(String::from("0, 0, 0")).unwrap();
    assert_eq!(
        all_values(&color),
        five("#000000", "0, 0, 0", "0°, 0%, 0%", "0%, 0%, 0%, 100%", "0°, 0%, 0%")
    );
}

#[test]
fn white_has_full_lightness_and_no_saturation() {
    let color = Color::from_hex(String::from("fff")).unwrap();
    assert_eq!(
        all_values(&color),
        five("#ffffff", "255, 255, 255", "0°, 0%, 100%", "0%, 0%, 0%, 0%", "0°, 0%, 100%")
    );
}

#[test]
fn no_lightness_gives_no_saturation() {
    let hsv = HSV::from_hsl(&HSL::new(String::from("120°, 0%, 0%")).unwrap());
    assert_eq!(hsv.to_string(), "120°, 0%, 0%");
    let color = Color::from_hsl(String::from("120°, 80%, 0%")).unwrap();
    assert_eq!(color.hsv_value(), "120°, 0%, 0%");
    assert_eq!(color.rgb_value(), "0, 0, 0");
}

#[test]
fn no_value_passes_the_saturation_on() {
    let hsv = HSV::from_values(whole(10), Fraction::new(85, 2).unwrap(), whole(0)).unwrap();
    assert_eq!(HSL::from_hsv(&hsv).to_string(), "10°, 43%, 0%");
}

#[test]
fn lightness_decides_how_saturation_is_scaled() {
    let to_hsv = |text: &str| HSV::from_hsl(&HSL::new(String::from(text)).unwrap()).to_string();
    assert_eq!(to_hsv("0°, 100%, 50%"), "0°, 100%, 100%");
    assert_eq!(to_hsv("120°, 100%, 25%"), "120°, 100%, 50%");
    assert_eq!(to_hsv("210°, 65%, 13%"), "210°, 79%, 21%");
    assert_eq!(to_hsv("10°, 100%, 100%"), "10°, 0%, 100%");
    assert_eq!(to_hsv("300°, 50%, 20%"), "300°, 67%, 30%");
    let to_hsl = |text: &str| HSL::from_hsv(&HSV::new(String::from(text)).unwrap()).to_string();
    assert_eq!(to_hsl("250°, 100%, 50%"), "250°, 100%, 25%");
    assert_eq!(to_hsl("120°, 50%, 50%"), "120°, 33%, 38%");
    assert_eq!(to_hsl("359°, 1%, 99%"), "359°, 33%, 99%");
    assert_eq!(to_hsl("45°, 0%, 80%"), "45°, 0%, 80%");
}

#[test]
fn inks_of_channels_are_shares_of_the_brightest() {
    let inks = |text: &str| CMYK::from_rgb(&RGB::new(String::from(text)).unwrap()).to_string();
    assert_eq!(inks("255, 0, 0"), "0%, 100%, 100%, 0%");
    assert_eq!(inks("18, 52, 86"), "79%, 40%, 0%, 66%");
    assert_eq!(inks("128, 128, 128"), "0%, 0%, 0%, 50%");
    assert_eq!(inks("0, 64, 65"), "100%, 2%, 0%, 75%");
    let channels = |text: &str| RGB::from_cmyk(&CMYK::new(String::from(text)).unwrap()).to_string();
    assert_eq!(channels("0%, 0%, 0%, 0%"), "255, 255, 255");
    assert_eq!(channels("0%, 0%, 0%, 100%"), "0, 0, 0");
    assert_eq!(channels("100%, 100%, 100%, 0%"), "0, 0, 0");
    assert_eq!(channels("100%, 2%, 0%, 75%"), "0, 62, 64");
}

#[test]
fn numbers_above_their_range_count_as_the_largest() {
    let color = Color::from_rgb(String::from("999, 0, 300")).unwrap();
    assert_eq!(
        all_values(&color),
        five("#ff00ff", "999, 0, 300", "300°, 100%, 100%", "0%, 100%, 0%, 0%", "300°, 100%, 50%")
    );
    let color = Color::from_cmyk(String::from("150%, 0%, 0%, 0%")).unwrap();
    assert_eq!(color.rgb_value(), "0, 255, 255");
    assert_eq!(color.cmyk_value(), "150%, 0%, 0%, 0%");
    let color = Color::from_cmyk(String::from("200%, 200%, 200%, 200%")).unwrap();
    assert_eq!(color.rgb_value(), "0, 0, 0");
    let color = Color::from_hsl(String::from("999°, 999%, 999%")).unwrap();
    assert_eq!(color.hsv_value(), "999°, 0%, 100%");
    assert_eq!(color.rgb_value(), "255, 255, 255");
}

#[test]
fn a_hue_above_a_full_turn_goes_round_again() {
    let color = Color::from_hsv(String::from("720°, 100%, 100%")).unwrap();
    assert_eq!(color.rgb_value(), "255, 0, 0");
    assert_eq!(color.hsv_value(), "720°, 100%, 100%");
    let color = Color::from_hsv(String::from("999°, 999%, 999%")).unwrap();
    assert_eq!(color.rgb_value(), "166, 0, 255");
    let far = Color::from_hsv(String::from("610°, 40%, 90%")).unwrap();
    let near = Color::from_hsv(String::from("250°, 40%, 90%")).unwrap();
    assert_eq!(far.rgb_value(), near.rgb_value());
}

#[test]
fn a_hue_of_360_is_a_hue_of_0() {
    assert_eq!(
        Color::from_hsv_values(whole(360), whole(100), whole(100)).unwrap().rgb_value(),
        "255, 0, 0"
    );
    for s in 0..=100u32 {
        for v in 0..=100u32 {
            let full = Color::from_hsv_values(whole(360), whole(s), whole(v)).unwrap();
            let none = Color::from_hsv_values(whole(0), whole(s), whole(v)).unwrap();
            assert_eq!(full.rgb_value(), none.rgb_value());
        }
    }
}

#[test]
fn without_saturation_the_channels_are_equal() {
    let color = Color::from_hsv(String::from("45°, 0%, 80%")).unwrap();
    assert_eq!(color.rgb_value(), "204, 204, 204");
    for h in (0..=360u32).step_by(7) {
        for v in 0..=100u32 {
            let hsv = HSV::from_values(whole(h), whole(0), whole(v)).unwrap();
            let rgb = RGB::from_hsv(&hsv);
            assert_eq!(rgb.get_red(), rgb.get_green());
            assert_eq!(rgb.get_green(), rgb.get_blue());
        }
    }
}
