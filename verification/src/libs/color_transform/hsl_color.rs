//! Hue, saturation and lightness: always derived from hue, saturation and
//! value, or read from text.

use crate::constants::{DEGREE, MAX_H, MAX_SVL, MAX_TEXT, MIN_HSV};
use crate::libs::arith::{max_int, min_int, round_div, round_within};
use crate::libs::color_transform::hsv_color::{parse_degrees, scan_degrees, HsvModel, HSV};
use crate::libs::color_transform::ParseError;
use crate::libs::fraction::{Fraction, Ratio};
use crate::libs::text::{decimal_text, push_all, push_decimal, string_of};
use vstd::prelude::*;

verus! {

/// Hue, saturation and lightness as mathematics sees them.
pub struct HslModel {
    pub hue: Ratio,
    pub saturation: int,
    pub lightness: int,
}

impl HslModel {
    /// The hue is a non-negative number.
    pub open spec fn wf(self) -> bool {
        self.hue.wf()
    }

    /// Every component lies in its documented range: the hue from 0 to
    /// below 360, saturation and lightness from 0 to 100.
    pub open spec fn in_range(self) -> bool {
        &&& self.wf()
        &&& self.hue.below(MAX_H as int)
        &&& MIN_HSV <= self.saturation <= MAX_SVL
        &&& MIN_HSV <= self.lightness <= MAX_SVL
    }

    /// Every component lies within the bounds that text may have: these are
    /// the documented ranges and, for the hue, 360 itself, which text may
    /// give for the full turn.
    pub open spec fn within_bounds(self) -> bool {
        &&& self.wf()
        &&& self.hue.at_most(MAX_H as int)
        &&& MIN_HSV <= self.saturation <= MAX_SVL
        &&& MIN_HSV <= self.lightness <= MAX_SVL
    }

    /// Every component, the hue rounded, can be written with three digits.
    pub open spec fn fits_text(self) -> bool {
        &&& self.wf()
        &&& self.hue.at_most(MAX_TEXT as int)
        &&& 0 <= self.saturation <= MAX_TEXT
        &&& 0 <= self.lightness <= MAX_TEXT
    }

    /// Saturation and lightness brought into their documented range; the hue
    /// as it is.
    pub open spec fn clamped(self) -> HslModel {
        HslModel {
            hue: self.hue,
            saturation: max_int(0, min_int(self.saturation, MAX_SVL as int)),
            lightness: max_int(0, min_int(self.lightness, MAX_SVL as int)),
        }
    }

    /// Hue, saturation and lightness of the given hue, saturation and value.
    /// With `s` and `v` the saturation and value as shares of one, the
    /// lightness is `(2 - s) * v / 2`. The saturation is `s` itself where
    /// the lightness is 0, and 0 where the lightness is 1; else it is
    /// `s * v` over twice the lightness where the lightness is below one
    /// half, and over twice what the lightness lacks of 1 elsewhere. Both
    /// are in percent, rounded. The hue stays as it is. A saturation or
    /// value above 100 percent counts as 100.
    pub open spec fn from_hsv(hsv: HsvModel) -> HslModel {
        let s = hsv.saturation.capped(100);
        let v = hsv.value.capped(100);
        // The lightness as a share of one is `light / whole`, and `s * v`
        // is `2 * chroma / whole`.
        let light = (200 * s.den - s.num) * v.num;
        let whole = 20000 * (s.den * v.den);
        let chroma = s.num * v.num;
        HslModel {
            hue: hsv.hue,
            saturation: if light == 0 {
                round_div(s.num, s.den)
            } else if light == whole {
                0
            } else if 2 * light < whole {
                round_div(100 * chroma, light)
            } else {
                round_div(100 * chroma, whole - light)
            },
            lightness: round_div(100 * light, whole),
        }
    }

    /// The text format: the three components in decimal, the hue rounded; a
    /// degree sign behind the hue, a percent sign behind the others, with a
    /// comma and a space between them.
    pub open spec fn text(self) -> Seq<char> {
        decimal_text(self.hue.rounded() as nat) + seq![DEGREE, ',', ' '] + decimal_text(
            self.saturation as nat,
        ) + seq!['%', ',', ' '] + decimal_text(self.lightness as nat) + seq!['%']
    }

    /// What a text denotes: see `parse_degrees`.
    pub open spec fn parse(s: Seq<char>) -> Option<HslModel> {
        match parse_degrees(s) {
            Some(values) => Some(
                HslModel {
                    hue: Ratio::whole(values[0] as int),
                    saturation: values[1] as int,
                    lightness: values[2] as int,
                },
            ),
            None => None,
        }
    }
}

/// Hue, saturation and lightness. Each is at most 999, the largest number
/// that the text format holds; a conversion yields a saturation and lightness
/// of at most 100.
#[derive(Clone, Copy, Debug, PartialEq, Eq)]
pub struct HSL {
    hue: Fraction,
    saturation: u32,
    lightness: u32,
}

impl View for HSL {
    type V = HslModel;

    closed spec fn view(&self) -> HslModel {
        HslModel {
            hue: self.hue@,
            saturation: self.saturation as int,
            lightness: self.lightness as int,
        }
    }
}

impl HSL {
    #[verifier::type_invariant]
    pub open spec fn inv(self) -> bool {
        self@.fits_text()
    }

    /// Reads the text format.
    pub fn new(hsl: String) -> (r: Result<HSL, ParseError>)
        ensures
            match r {
                Ok(made) => HslModel::parse(hsl@) == Some(made@),
                Err(e) => HslModel::parse(hsl@) is None && e == ParseError::Malformed,
            },
    {
        match scan_degrees(hsl.as_str()) {
            Some((hue, saturation, lightness)) => Ok(
                HSL { hue: Fraction::from_integer(hue), saturation, lightness },
            ),
            None => Err(ParseError::Malformed),
        }
    }

    /// Hue, saturation and lightness of the given hue, saturation and value.
    pub fn from_hsv(hsv: &HSV) -> (hsl: HSL)
        ensures
            hsl@ == HslModel::from_hsv(hsv@),
            0 <= hsl@.saturation <= MAX_SVL,
            0 <= hsl@.lightness <= MAX_SVL,
    {
        proof {
            use_type_invariant(hsv);
        }
        let hue = hsv.get_hue();
        let s = hsv.get_saturation().capped(MAX_SVL);
        let v = hsv.get_value().capped(MAX_SVL);
        let sn = s.numerator() as u128;
        let sd = s.denominator() as u128;
        let vn = v.numerator() as u128;
        let vd = v.denominator() as u128;
        proof {
            assert(sn <= 100 * sd && vn <= 100 * vd);
            assert(sd * vd <= 0xffff_ffff * 0xffff_ffff && sd * vd >= 1) by (nonlinear_arith)
                requires
                    1 <= sd <= 0xffff_ffff,
                    1 <= vd <= 0xffff_ffff,
            ;
            assert((200 * sd - sn) * vn <= 20000 * (sd * vd) && sn * vn <= (200 * sd - sn) * vn
                && 200 * (sd * vn) <= 20000 * (sd * vd) && (200 * sd - sn) * vn == 200 * (sd * vn)
                - sn * vn && sn * vn >= 0) by (nonlinear_arith)
                requires
                    0 <= sn <= 100 * sd,
                    0 <= vn <= 100 * vd,
                    1 <= sd,
                    1 <= vd,
            ;
        }
        let light: u128 = (200 * sd - sn) * vn;
        let whole: u128 = 20000 * (sd * vd);
        let chroma: u128 = sn * vn;
        let saturation = if light == 0 {
            round_within(sn, sd, Ghost(100))
        } else if light == whole {
            0
        } else if 2 * light < whole {
            round_within(100 * chroma, light, Ghost(100))
        } else {
            round_within(100 * chroma, whole - light, Ghost(100))
        };
        let lightness = round_within(100 * light, whole, Ghost(100));
        HSL { hue, saturation, lightness }
    }

    pub fn get_hue(&self) -> (hue: Fraction)
        ensures
            hue@ == self@.hue,
    {
        self.hue
    }

    pub fn get_saturation(&self) -> (saturation: u32)
        ensures
            saturation == self@.saturation,
    {
        self.saturation
    }

    pub fn get_lightness(&self) -> (lightness: u32)
        ensures
            lightness == self@.lightness,
    {
        self.lightness
    }

    /// Writes the text format.
    pub fn to_string(&self) -> (s: String)
        ensures
            s@ == self@.text(),
    {
        let mut out: Vec<char> = Vec::new();
        let degrees: Vec<char> = vec![DEGREE, ',', ' '];
        let percent: Vec<char> = vec!['%', ',', ' '];
        push_decimal(&mut out, self.hue.round());
        push_all(&mut out, &degrees);
        push_decimal(&mut out, self.saturation);
        push_all(&mut out, &percent);
        push_decimal(&mut out, self.lightness);
        out.push('%');
        assert(out@ =~= self@.text());
        string_of(&out)
    }
}

} // verus!
