use color_picker::libs::color_transform::cmyk_color::CMYK;
use color_picker::libs::color_transform::hex_color::Hex;
use color_picker::libs::color_transform::hsl_color::HSL;
use color_picker::libs::color_transform::hsv_color::HSV;
use color_picker::libs::color_transform::rgb_color::RGB;
use color_picker::libs::color_transform::{top_right_corner, Color, ParseError};
use color_picker::libs::fraction::Fraction;

fn whole(n: u32) -> Fraction {
    Fraction::from_integer(n)
}

#[test]
fn malformed_text_is_an_error() {
    assert_eq!(Color::from_rgb(String::from("red")).err(), Some(ParseError::Malformed));
    assert_eq!(Color::from_rgb(String::from("1, 2")).err(), Some(ParseError::Malformed));
    assert_eq!(Color::from_hex(String::from("#12345")).err(), Some(ParseError::Malformed));
    assert_eq!(Color::from_cmyk(String::from("1, 2, 3, 4")).err(), Some(ParseError::Malformed));
    assert_eq!(Color::from_hsv(String::from("1, 2%, 3%")).err(), Some(ParseError::Malformed));
    assert_eq!(Color::from_hsl(String::from("")).err(), Some(ParseError::Malformed));
}

#[test]
fn digits_that_are_not_ascii_are_malformed() {
    assert_eq!(
        Color::from_rgb(String::from("\u{663}, \u{663}, \u{663}")).err(),
        Some(ParseError::Malformed)
    );
    assert_eq!(
        Color::from_hsv(String::from("\u{ff11}°, 2%, 3%")).err(),
        Some(ParseError::Malformed)
    );
    assert_eq!(
        Color::from_rgb(String::from("1, 2\u{663}, 3")).err(),
        Some(ParseError::Malformed)
    );
    assert_eq!(
        Color::from_cmyk(String::from("1%, 2%, 3%, 4\u{663}%")).err(),
        Some(ParseError::Malformed)
    );
    assert_eq!(
        Color::from_hsl(String::from("1°, 2%, \u{663}%")).err(),
        Some(ParseError::Malformed)
    );
    assert_eq!(
        Color::from_hex(String::from("#1234\u{663}6")).err(),
        Some(ParseError::Malformed)
    );
}

#[test]
fn a_saturation_or_value_out_of_range_is_an_error() {
    assert_eq!(
        Color::from_hsv_values(whole(0), whole(101), whole(0)).err(),
        Some(ParseError::OutOfRange)
    );
    assert_eq!(
        Color::from_hsv_values(whole(0), whole(0), Fraction::new(1001, 10).unwrap()).err(),
        Some(ParseError::OutOfRange)
    );
    assert_eq!(
        HSV::from_values(whole(40), whole(1), whole(200)).err(),
        Some(ParseError::OutOfRange)
    );
}

#[test]
fn a_hue_from_numbers_wraps_at_360() {
    let color = Color::from_hsv_values(whole(360), whole(100), whole(100)).unwrap();
    assert_eq!(color.get_hue(), whole(0));
    assert_eq!(color.get_saturation(), whole(100));
    assert_eq!(color.get_value(), whole(100));
    assert_eq!(color.hsv_value(), "0°, 100%, 100%");
    assert_eq!(color.hsl_value(), "0°, 100%, 50%");
    assert_eq!(color.rgb_value(), "255, 0, 0");

    let color = Color::from_hsv_values(whole(361), whole(50), whole(50)).unwrap();
    assert_eq!(color.get_hue(), whole(1));
    let hsv = HSV::from_values(whole(400), whole(1), whole(1)).unwrap();
    assert_eq!(hsv.get_hue(), whole(40));
    let hsv = HSV::from_values(whole(4_294_967_295), whole(1), whole(1)).unwrap();
    assert_eq!(hsv.get_hue(), whole(255));
    let hsv = HSV::from_values(Fraction::new(721, 2).unwrap(), whole(1), whole(1)).unwrap();
    assert_eq!(hsv.get_hue(), Fraction::new(1, 2).unwrap());
    let hsv = HSV::from_values(Fraction::new(719, 2).unwrap(), whole(1), whole(1)).unwrap();
    assert_eq!(hsv.get_hue(), Fraction::new(719, 2).unwrap());
    assert_eq!(hsv.to_string(), "360°, 1%, 1%");
}

#[test]
fn numbers_on_the_bounds_are_accepted() {
    let color = Color::from_hsv_values(whole(359), whole(100), whole(100)).unwrap();
    assert_eq!(color.hsv_value(), "359°, 100%, 100%");
    let color = Color::from_hsv_values(whole(0), whole(0), whole(0)).unwrap();
    assert_eq!(color.hsv_value(), "0°, 0%, 0%");
}

#[test]
fn a_fraction_wraps_at_a_turn() {
    assert_eq!(whole(360).wrapped(360), whole(0));
    assert_eq!(whole(725).wrapped(360), whole(5));
    assert_eq!(Fraction::new(7, 2).unwrap().wrapped(3), Fraction::new(1, 2).unwrap());
    assert_eq!(whole(7).wrapped(0), whole(7));
    assert_eq!(
        Fraction::new(4_294_967_295, 4_294_967_295).unwrap().wrapped(4_294_967_295),
        Fraction::new(4_294_967_295, 4_294_967_295).unwrap()
    );
}

#[test]
fn text_keeps_a_hue_of_360() {
    let color = Color::from_hsv(String::from("360°, 100%, 100%")).unwrap();
    assert_eq!(color.get_hue(), whole(360));
    assert_eq!(color.hsv_value(), "360°, 100%, 100%");
    assert_eq!(color.rgb_value(), "255, 0, 0");
}

#[test]
fn the_corner_of_the_pallet_has_the_hue_at_full_strength() {
    let color = Color::from_hsv(String::from("250°, 10%, 50%")).unwrap();
    assert_eq!(top_right_corner(&color), "rgb(43, 0, 255)");
    let color = Color::from_rgb(String::from("128, 128, 128")).unwrap();
    assert_eq!(top_right_corner(&color), "rgb(255, 0, 0)");
    let color = Color::from_hsv(String::from("999°, 0%, 0%")).unwrap();
    assert_eq!(top_right_corner(&color), "rgb(166, 0, 255)");
    let color = Color::from_hsl(String::from("360°, 50%, 50%")).unwrap();
    assert_eq!(top_right_corner(&color), "rgb(255, 0, 0)");
}

#[test]
fn a_fraction_needs_a_denominator() {
    assert!(Fraction::new(1, 0).is_none());
    assert!(Fraction::new(0, 0).is_none());
    let half = Fraction::new(1, 2).unwrap();
    assert_eq!(half.numerator(), 1);
    assert_eq!(half.denominator(), 2);
    assert_eq!(whole(7).numerator(), 7);
    assert_eq!(whole(7).denominator(), 1);
}

#[test]
fn a_fraction_rounds_to_the_nearest_and_halves_up() {
    assert_eq!(Fraction::new(1, 2).unwrap().round(), 1);
    assert_eq!(Fraction::new(5, 2).unwrap().round(), 3);
    assert_eq!(Fraction::new(1, 3).unwrap().round(), 0);
    assert_eq!(Fraction::new(2, 3).unwrap().round(), 1);
    assert_eq!(Fraction::new(149, 100).unwrap().round(), 1);
    assert_eq!(Fraction::new(4_294_967_295, 1).unwrap().round(), 4_294_967_295);
    assert_eq!(Fraction::new(4_294_967_295, 4_294_967_295).unwrap().round(), 1);
    assert_eq!(Fraction::new(4_294_967_294, 4_294_967_295).unwrap().round(), 1);
}

#[test]
fn a_fraction_compares_with_whole_numbers() {
    assert!(Fraction::new(200, 2).unwrap().at_most(100));
    assert!(!Fraction::new(201, 2).unwrap().at_most(100));
    assert_eq!(Fraction::new(201, 2).unwrap().capped(100), whole(100));
    assert_eq!(Fraction::new(199, 2).unwrap().capped(100), Fraction::new(199, 2).unwrap());
}

#[test]
fn text_is_read_as_it_stands() {
    let rgb = RGB::new(String::from("999,  0,010")).unwrap();
    assert_eq!((rgb.get_red(), rgb.get_green(), rgb.get_blue()), (999, 0, 10));
    let cmyk = CMYK::new(String::from("1%,22%,\t333%,04%")).unwrap();
    assert_eq!(
        (cmyk.get_cyan(), cmyk.get_magenta(), cmyk.get_yellow(), cmyk.get_black()),
        (1, 22, 333, 4)
    );
    let hsv = HSV::new(String::from("720°, 5%, 999%")).unwrap();
    assert_eq!((hsv.get_hue(), hsv.get_saturation(), hsv.get_value()), (whole(720), whole(5), whole(999)));
    let hsl = HSL::new(String::from("x 1°,2%,3% y")).unwrap();
    assert_eq!((hsl.get_hue(), hsl.get_saturation(), hsl.get_lightness()), (whole(1), 2, 3));
}

#[test]
fn the_last_match_is_the_one_that_is_read() {
    let hsv = HSV::new(String::from("1°,2%,3% 4°,5%,6%")).unwrap();
    assert_eq!(hsv.to_string(), "4°, 5%, 6%");
    let hsl = HSL::new(String::from("12345°,5%,6%")).unwrap();
    assert_eq!(hsl.to_string(), "345°, 5%, 6%");
}

#[test]
fn hex_keeps_the_text_and_writes_it_in_canonical_form() {
    let hex = Hex::new(String::from("#AbC"));
    assert_eq!(hex.get_value(), "#AbC");
    assert_eq!(hex.to_string(), "#aabbcc");
    assert_eq!(Hex::new(String::from("ABC")).to_string(), "#aabbcc");
    assert_eq!(Hex::new(String::from("#A1B2C3")).to_string(), "#a1b2c3");
    assert_eq!(Hex::new(String::from("A1B2C3")).to_string(), "#a1b2c3");
    assert_eq!(Hex::new(String::from("No Colour")).to_string(), "no colour");
    assert_eq!(Hex::new(String::from("")).to_string(), "");
}

#[test]
fn hex_part_has_two_digits_at_least() {
    assert_eq!(Hex::value_to_hex_part(0), "00");
    assert_eq!(Hex::value_to_hex_part(10), "0A");
    assert_eq!(Hex::value_to_hex_part(15), "0F");
    assert_eq!(Hex::value_to_hex_part(16), "10");
    assert_eq!(Hex::value_to_hex_part(255), "FF");
    assert_eq!(Hex::value_to_hex_part(256), "100");
    assert_eq!(Hex::value_to_hex_part(i32::MAX), "7FFFFFFF");
    assert_eq!(Hex::value_to_hex_part(-1), "FFFFFFFF");
    assert_eq!(Hex::value_to_hex_part(i32::MIN), "80000000");
}

#[test]
fn hex_of_channels_is_in_upper_case_until_written() {
    let rgb = RGB::new(String::from("12, 34, 255")).unwrap();
    let hex = Hex::from_rgb(&rgb);
    assert_eq!(hex.get_value(), "#0C22FF");
    assert_eq!(hex.to_string(), "#0c22ff");
}

#[test]
fn the_short_form_doubles_each_digit() {
    let color = Color::from_hex(String::from("#abc")).unwrap();
    assert_eq!(color.hex_value(), "#aabbcc");
    assert_eq!(color.rgb_value(), "170, 187, 204");
    let rgb = RGB::from_hex(&Hex::new(String::from("F08"))).unwrap();
    assert_eq!(rgb.to_string(), "255, 0, 136");
    assert_eq!(
        RGB::from_hex(&Hex::new(String::from("F0"))).err(),
        Some(ParseError::Malformed)
    );
}

#[test]
fn the_colour_string_wraps_the_channels() {
    let rgb = RGB::new(String::from("1,2,3")).unwrap();
    assert_eq!(rgb.to_color_string(), "rgb(1, 2, 3)");
    assert_eq!(rgb.to_string(), "1, 2, 3");
}
