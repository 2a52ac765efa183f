//! The words that the colour picker shows.

use vstd::prelude::*;

verus! {

/// The title of the picker and the names of the five representations.
pub struct Texts<'a> {
    pub title: &'a str,
    pub cmyk: &'a str,
    pub hex: &'a str,
    pub hsl: &'a str,
    pub hsv: &'a str,
    pub rgb: &'a str,
}

/// The words in English.
pub fn texts() -> (t: Texts<'static>)
    ensures
        t.title@ == "Color picker"@,
        t.cmyk@ == "CMYK"@,
        t.hex@ == "HEX"@,
        t.hsl@ == "HSL"@,
        t.hsv@ == "HSV"@,
        t.rgb@ == "RGB"@,
{
    Texts { title: "Color picker", cmyk: "CMYK", hex: "HEX", hsl: "HSL", hsv: "HSV", rgb: "RGB" }
}

} // verus!
