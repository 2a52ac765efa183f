//! Whether a text may be handed to the constructor of its format: it follows
//! the format's grammar, and each number lies in its documented range.

use crate::constants::{MAX_CMYK, MAX_H, MAX_RGB, MAX_SVL};
use crate::libs::color_transform::cmyk_color::{scan_cmyk, CmykModel};
use crate::libs::color_transform::hex_color::{check_hex, is_hex_text};
use crate::libs::color_transform::hsv_color::{scan_degrees, HsvModel};
use crate::libs::color_transform::rgb_color::{scan_rgb, RgbModel};
use crate::libs::text::chars_of;
use vstd::prelude::*;

verus! {

/// `s` is three or six hexadecimal digits, with or without a `#` before
/// them.
pub open spec fn valid_hex_text(s: Seq<char>) -> bool {
    is_hex_text(s)
}

/// `s` denotes three channels, each from 0 to 255.
pub open spec fn valid_rgb_text(s: Seq<char>) -> bool {
    match RgbModel::parse(s) {
        Some(rgb) => rgb.in_range(),
        None => false,
    }
}

/// `s` denotes four shares of ink, each from 0 to 100.
pub open spec fn valid_cmyk_text(s: Seq<char>) -> bool {
    match CmykModel::parse(s) {
        Some(cmyk) => cmyk.in_range(),
        None => false,
    }
}

/// `s` denotes a hue from 0 to 360 and two more numbers from 0 to 100: a
/// saturation and a value, or a saturation and a lightness.
pub open spec fn valid_hsv_text(s: Seq<char>) -> bool {
    match HsvModel::parse(s) {
        Some(hsv) => hsv.within_bounds(),
        None => false,
    }
}

/// Whether `hex` is a colour in hexadecimal.
pub fn is_valid_hex(hex: &str) -> (valid: bool)
    ensures
        valid == valid_hex_text(hex@),
{
    let s = chars_of(hex);
    check_hex(&s)
}

/// Whether `rgb` is the text of three channels in range.
pub fn is_valid_rgb(rgb: &str) -> (valid: bool)
    ensures
        valid == valid_rgb_text(rgb@),
{
    match scan_rgb(rgb) {
        Some((red, green, blue)) => red <= MAX_RGB && green <= MAX_RGB && blue <= MAX_RGB,
        None => false,
    }
}

/// Whether `cmyk` is the text of four shares of ink in range.
pub fn is_valid_cmyk(cmyk: &str) -> (valid: bool)
    ensures
        valid == valid_cmyk_text(cmyk@),
{
    match scan_cmyk(cmyk) {
        Some((cyan, magenta, yellow, black)) => cyan <= MAX_CMYK && magenta <= MAX_CMYK && yellow
            <= MAX_CMYK && black <= MAX_CMYK,
        None => false,
    }
}

/// Whether `hsv` holds the text of a hue and two shares in range. The same
/// holds of hue, saturation and lightness, which are written alike.
pub fn is_valid_hsv(hsv: &str) -> (valid: bool)
    ensures
        valid == valid_hsv_text(hsv@),
{
    match scan_degrees(hsv) {
        Some((hue, saturation, value)) => hue <= MAX_H && saturation <= MAX_SVL && value
            <= MAX_SVL,
        None => false,
    }
}

} // verus!
