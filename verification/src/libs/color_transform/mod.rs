//! Colours in five representations, and the conversions between them.

use crate::constants::MAX_SVL;
use crate::libs::fraction::{Fraction, Ratio};
use laws::lemma_hue_wrapped;
use cmyk_color::{CmykModel, CMYK};
use hex_color::{hex_of_rgb, hex_text, is_hex_text, lemma_hex_of_rgb, rgb_of_hex, Hex};
use hsl_color::{HslModel, HSL};
use hsv_color::{HsvModel, HSV};
use rgb_color::{RgbModel, RGB};
use vstd::prelude::*;

pub mod cmyk_color;
pub mod hex_color;
pub mod hsl_color;
pub mod hsv_color;
pub mod laws;
pub mod rgb_color;
pub mod round_trip;

verus! {

/// Why a colour could not be built.
#[derive(Clone, Copy, Debug, PartialEq, Eq)]
pub enum ParseError {
    /// The text does not follow the grammar of its format.
    Malformed,
    /// A number lies outside the documented range of its component.
    OutOfRange,
}

/// A colour as mathematics sees it: the same colour in five representations.
pub struct ColorModel {
    pub hex: Seq<char>,
    pub hsv: HsvModel,
    pub rgb: RgbModel,
    pub cmyk: CmykModel,
    pub hsl: HslModel,
}

impl ColorModel {
    /// Every representation can be written in its text format: the
    /// hexadecimal one is a colour in hexadecimal, and each number of the
    /// others needs at most three digits.
    pub open spec fn wf(self) -> bool {
        &&& is_hex_text(self.hex)
        &&& self.hsv.fits_text()
        &&& self.rgb.fits_text()
        &&& self.cmyk.fits_text()
        &&& self.hsl.fits_text()
    }

    /// The colour with the given hue, saturation and value: the channels
    /// derive from these, the hexadecimal form and the inks from the
    /// channels, hue, saturation and lightness from hue, saturation and
    /// value.
    pub open spec fn of_hsv(hsv: HsvModel) -> ColorModel {
        let rgb = RgbModel::from_hsv(hsv);
        ColorModel {
            hex: hex_of_rgb(rgb),
            hsv,
            rgb,
            cmyk: CmykModel::from_rgb(rgb),
            hsl: HslModel::from_hsv(hsv),
        }
    }

    /// The colour with the given channels: the hexadecimal form, the inks,
    /// and hue, saturation and value derive from the channels, hue,
    /// saturation and lightness from hue, saturation and value.
    pub open spec fn of_rgb(rgb: RgbModel) -> ColorModel {
        let hsv = HsvModel::from_rgb(rgb);
        ColorModel {
            hex: hex_of_rgb(rgb),
            hsv,
            rgb,
            cmyk: CmykModel::from_rgb(rgb),
            hsl: HslModel::from_hsv(hsv),
        }
    }

    /// The colour that the given text in hexadecimal denotes: the channels
    /// derive from the text, and the rest from the channels as in `of_rgb`.
    /// The text is kept as it is.
    pub open spec fn of_hex(hex: Seq<char>) -> ColorModel {
        let rgb = rgb_of_hex(hex);
        let hsv = HsvModel::from_rgb(rgb);
        ColorModel { hex, hsv, rgb, cmyk: CmykModel::from_rgb(rgb), hsl: HslModel::from_hsv(hsv) }
    }

    /// The colour that the given inks print: the channels derive from the
    /// inks, the hexadecimal form and hue, saturation and value from the
    /// channels, hue, saturation and lightness from hue, saturation and
    /// value.
    pub open spec fn of_cmyk(cmyk: CmykModel) -> ColorModel {
        let rgb = RgbModel::from_cmyk(cmyk);
        let hsv = HsvModel::from_rgb(rgb);
        ColorModel { hex: hex_of_rgb(rgb), hsv, rgb, cmyk, hsl: HslModel::from_hsv(hsv) }
    }

    /// The colour with the given hue, saturation and lightness: hue,
    /// saturation and value derive from these, the channels from hue,
    /// saturation and value, the hexadecimal form and the inks from the
    /// channels.
    pub open spec fn of_hsl(hsl: HslModel) -> ColorModel {
        let hsv = HsvModel::from_hsl(hsl);
        let rgb = RgbModel::from_hsv(hsv);
        ColorModel { hex: hex_of_rgb(rgb), hsv, rgb, cmyk: CmykModel::from_rgb(rgb), hsl }
    }

    /// The colour that a text in hexadecimal denotes, if it denotes one.
    pub open spec fn from_hex(value: Seq<char>) -> Option<ColorModel> {
        if is_hex_text(value) {
            Some(ColorModel::of_hex(value))
        } else {
            None
        }
    }

    /// The colour that a text of three channels denotes, if it denotes one.
    pub open spec fn from_rgb(value: Seq<char>) -> Option<ColorModel> {
        match RgbModel::parse(value) {
            Some(rgb) => Some(ColorModel::of_rgb(rgb)),
            None => None,
        }
    }

    /// The colour that a text of four inks denotes, if it denotes one.
    pub open spec fn from_cmyk(value: Seq<char>) -> Option<ColorModel> {
        match CmykModel::parse(value) {
            Some(cmyk) => Some(ColorModel::of_cmyk(cmyk)),
            None => None,
        }
    }

    /// The colour that a text of hue, saturation and value denotes, if it
    /// denotes one.
    pub open spec fn from_hsv(value: Seq<char>) -> Option<ColorModel> {
        match HsvModel::parse(value) {
            Some(hsv) => Some(ColorModel::of_hsv(hsv)),
            None => None,
        }
    }

    /// The colour that a text of hue, saturation and lightness denotes, if
    /// it denotes one.
    pub open spec fn from_hsl(value: Seq<char>) -> Option<ColorModel> {
        match HslModel::parse(value) {
            Some(hsl) => Some(ColorModel::of_hsl(hsl)),
            None => None,
        }
    }

    /// The colour of three numbers for hue, saturation and value, if
    /// saturation and value lie in their documented range. The hue wraps at
    /// 360: see `HsvModel::from_values`.
    pub open spec fn from_hsv_values(h: Ratio, s: Ratio, v: Ratio) -> Option<ColorModel> {
        match HsvModel::from_values(h, s, v) {
            Some(hsv) => Some(ColorModel::of_hsv(hsv)),
            None => None,
        }
    }
}

/// One colour in five representations, all of them always present. It is
/// built from one of them and never changes.
#[derive(Debug, PartialEq, Eq)]
pub struct Color {
    hex: Hex,
    hsv: HSV,
    rgb: RGB,
    cmyk: CMYK,
    hsl: HSL,
}

impl View for Color {
    type V = ColorModel;

    closed spec fn view(&self) -> ColorModel {
        ColorModel {
            hex: self.hex@,
            hsv: self.hsv@,
            rgb: self.rgb@,
            cmyk: self.cmyk@,
            hsl: self.hsl@,
        }
    }
}

impl Color {
    #[verifier::type_invariant]
    pub open spec fn inv(self) -> bool {
        self@.wf()
    }

    /// The colour with the given hue, saturation and value.
    fn with_hsv(hsv: HSV) -> (color: Color)
        ensures
            color@ == ColorModel::of_hsv(hsv@),
            color@.wf(),
    {
        let rgb = RGB::from_hsv(&hsv);
        let hex = Hex::from_rgb(&rgb);
        let cmyk = CMYK::from_rgb(&rgb);
        let hsl = HSL::from_hsv(&hsv);
        proof {
            lemma_hex_of_rgb(rgb@);
            use_type_invariant(hsv);
            use_type_invariant(hsl);
            use_type_invariant(rgb);
            use_type_invariant(cmyk);
        }
        Color { hex, hsv, rgb, cmyk, hsl }
    }

    /// The colour with the given channels, whose text in hexadecimal is
    /// `hex`.
    fn with_rgb(hex: Hex, rgb: RGB) -> (color: Color)
        requires
            is_hex_text(hex@),
        ensures
            color@.hex == hex@,
            color@.rgb == rgb@,
            color@.hsv == HsvModel::from_rgb(rgb@),
            color@.cmyk == CmykModel::from_rgb(rgb@),
            color@.hsl == HslModel::from_hsv(HsvModel::from_rgb(rgb@)),
            color@.wf(),
    {
        let hsv = HSV::from_rgb(&rgb);
        let cmyk = CMYK::from_rgb(&rgb);
        let hsl = HSL::from_hsv(&hsv);
        proof {
            use_type_invariant(rgb);
            use_type_invariant(hsl);
            use_type_invariant(hsv);
            use_type_invariant(cmyk);
        }
        Color { hex, hsv, rgb, cmyk, hsl }
    }

    /// The colour of three numbers for hue, saturation and value. It is owed
    /// where saturation and value lie in their documented range, from 0 to
    /// 100. The hue wraps at 360, so that the colour's hue lies from 0 to
    /// below 360: a hue of 360 is a hue of 0.
    pub fn from_hsv_values(h: Fraction, s: Fraction, v: Fraction) -> (r: Result<Color, ParseError>)
        ensures
            match r {
                Ok(color) => {
                    &&& ColorModel::from_hsv_values(h@, s@, v@) == Some(color@)
                    &&& color@.wf()
                    &&& color@.hsv.in_range()
                    &&& color@.hsv.saturation == s@
                    &&& color@.hsv.value == v@
                    &&& h@.den == 1 ==> color@.hsv.hue == Ratio::whole(h@.num % 360)
                },
                Err(e) => ColorModel::from_hsv_values(h@, s@, v@) is None && e
                    == ParseError::OutOfRange,
            },
    {
        match HSV::from_values(h, s, v) {
            Ok(hsv) => Ok(Color::with_hsv(hsv)),
            Err(e) => Err(e),
        }
    }

    /// The colour that a text in hexadecimal denotes.
    pub fn from_hex(value: String) -> (r: Result<Color, ParseError>)
        ensures
            match r {
                Ok(color) => ColorModel::from_hex(value@) == Some(color@) && color@.wf(),
                Err(e) => ColorModel::from_hex(value@) is None && e == ParseError::Malformed,
            },
    {
        let hex = Hex::new(value);
        match RGB::from_hex(&hex) {
            Ok(rgb) => Ok(Color::with_rgb(hex, rgb)),
            Err(e) => Err(e),
        }
    }

    /// The colour that a text of three channels denotes.
    pub fn from_rgb(value: String) -> (r: Result<Color, ParseError>)
        ensures
            match r {
                Ok(color) => ColorModel::from_rgb(value@) == Some(color@) && color@.wf(),
                Err(e) => ColorModel::from_rgb(value@) is None && e == ParseError::Malformed,
            },
    {
        match RGB::new(value) {
            Ok(rgb) => {
                let hex = Hex::from_rgb(&rgb);
                proof {
                    lemma_hex_of_rgb(rgb@);
                }
                Ok(Color::with_rgb(hex, rgb))
            },
            Err(e) => Err(e),
        }
    }

    /// The colour that a text of four inks denotes.
    pub fn from_cmyk(value: String) -> (r: Result<Color, ParseError>)
        ensures
            match r {
                Ok(color) => ColorModel::from_cmyk(value@) == Some(color@) && color@.wf(),
                Err(e) => ColorModel::from_cmyk(value@) is None && e == ParseError::Malformed,
            },
    {
        match CMYK::new(value) {
            Ok(cmyk) => {
                let rgb = RGB::from_cmyk(&cmyk);
                let hex = Hex::from_rgb(&rgb);
                let hsv = HSV::from_rgb(&rgb);
                let hsl = HSL::from_hsv(&hsv);
                proof {
                    lemma_hex_of_rgb(rgb@);
                    use_type_invariant(cmyk);
                    use_type_invariant(hsl);
                    use_type_invariant(hsv);
                    use_type_invariant(rgb);
                }
                Ok(Color { hex, hsv, rgb, cmyk, hsl })
            },
            Err(e) => Err(e),
        }
    }

    /// The colour that a text of hue, saturation and value denotes. The
    /// numbers are kept as the text gives them, a hue of 360 or more too;
    /// the conversions take such a hue round the wheel.
    pub fn from_hsv(value: String) -> (r: Result<Color, ParseError>)
        ensures
            match r {
                Ok(color) => ColorModel::from_hsv(value@) == Some(color@) && color@.wf(),
                Err(e) => ColorModel::from_hsv(value@) is None && e == ParseError::Malformed,
            },
    {
        match HSV::new(value) {
            Ok(hsv) => Ok(Color::with_hsv(hsv)),
            Err(e) => Err(e),
        }
    }

    /// The colour that a text of hue, saturation and lightness denotes. The
    /// numbers are kept as the text gives them, a hue of 360 or more too;
    /// the conversions take such a hue round the wheel.
    pub fn from_hsl(value: String) -> (r: Result<Color, ParseError>)
        ensures
            match r {
                Ok(color) => ColorModel::from_hsl(value@) == Some(color@) && color@.wf(),
                Err(e) => ColorModel::from_hsl(value@) is None && e == ParseError::Malformed,
            },
    {
        match HSL::new(value) {
            Ok(hsl) => {
                let hsv = HSV::from_hsl(&hsl);
                let rgb = RGB::from_hsv(&hsv);
                let hex = Hex::from_rgb(&rgb);
                let cmyk = CMYK::from_rgb(&rgb);
                proof {
                    lemma_hex_of_rgb(rgb@);
                    use_type_invariant(hsl);
                    use_type_invariant(hsv);
                    use_type_invariant(rgb);
                    use_type_invariant(cmyk);
                }
                Ok(Color { hex, hsv, rgb, cmyk, hsl })
            },
            Err(e) => Err(e),
        }
    }

    pub fn get_hue(&self) -> (hue: Fraction)
        ensures
            hue@ == self@.hsv.hue,
    {
        self.hsv.get_hue()
    }

    pub fn get_saturation(&self) -> (saturation: Fraction)
        ensures
            saturation@ == self@.hsv.saturation,
    {
        self.hsv.get_saturation()
    }

    pub fn get_value(&self) -> (value: Fraction)
        ensures
            value@ == self@.hsv.value,
    {
        self.hsv.get_value()
    }

    /// The colour in hexadecimal, in canonical form.
    pub fn hex_value(&self) -> (s: String)
        ensures
            s@ == hex_text(self@.hex),
    {
        self.hex.to_string()
    }

    /// The channels in their text format.
    pub fn rgb_value(&self) -> (s: String)
        ensures
            s@ == self@.rgb.text(),
    {
        self.rgb.to_string()
    }

    /// The inks in their text format.
    pub fn cmyk_value(&self) -> (s: String)
        ensures
            s@ == self@.cmyk.text(),
    {
        self.cmyk.to_string()
    }

    /// Hue, saturation and lightness in their text format.
    pub fn hsl_value(&self) -> (s: String)
        ensures
            s@ == self@.hsl.text(),
    {
        self.hsl.to_string()
    }

    /// Hue, saturation and value in their text format.
    pub fn hsv_value(&self) -> (s: String)
        ensures
            s@ == self@.hsv.text(),
    {
        self.hsv.to_string()
    }
}

/// The colour of the corner of the pallet where saturation and value are
/// full: the channels of the given colour's hue at a saturation and a value
/// of 100, written inside `rgb(` and `)`.
pub fn top_right_corner(color: &Color) -> (s: String)
    ensures
        s@ == RgbModel::from_hsv(
            HsvModel {
                hue: color@.hsv.hue,
                saturation: Ratio::whole(100),
                value: Ratio::whole(100),
            },
        ).color_text(),
{
    let full = Fraction::from_integer(MAX_SVL);
    proof {
        use_type_invariant(color);
        lemma_hue_wrapped(
            HsvModel {
                hue: color@.hsv.hue,
                saturation: Ratio::whole(100),
                value: Ratio::whole(100),
            },
        );
    }
    match HSV::from_values(color.get_hue(), full, full) {
        Ok(corner) => RGB::from_hsv(&corner).to_color_string(),
        // A saturation and a value of 100 are in range: this arm is proved
        // never to be taken.
        Err(_) => String::new(),
    }
}

} // verus!
