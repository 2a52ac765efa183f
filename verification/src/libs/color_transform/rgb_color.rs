//! Red, green and blue channels.

use crate::constants::{MAX_CMYK, MAX_RGB, MAX_SVL, MAX_TEXT, MIN_RGB};
use crate::libs::arith::{max_int, min_int, min_u32, round_div, round_within};
use crate::libs::color_transform::cmyk_color::{CmykModel, CMYK};
use crate::libs::color_transform::hex_color::{
    channels_of, check_hex, is_hex_text, rgb_of_hex, Hex,
};
use crate::libs::color_transform::hsv_color::{HsvModel, HSV};
use crate::libs::color_transform::ParseError;
use crate::libs::fraction::{Fraction, Ratio};
use crate::libs::grammar::{scan_three, whole_match};
use crate::libs::text::{chars_of, decimal_text, push_all, push_decimal, string_of};
use vstd::prelude::*;

verus! {

/// Three channels as mathematics sees them.
pub struct RgbModel {
    pub red: int,
    pub green: int,
    pub blue: int,
}

/// The marks behind the three numbers of the text format: a comma, a comma,
/// and nothing.
pub open spec fn rgb_marks() -> Seq<Seq<char>> {
    seq![seq![','], seq![','], Seq::empty()]
}

/// A channel of the colour with saturation `s` and value `v`, both in
/// percent: with them as shares of one and `w / wd` a weight from 0 to 1,
/// it is `v * (1 - s * w / wd)` of 255, rounded.
pub open spec fn shade(s: Ratio, v: Ratio, w: int, wd: int) -> int {
    round_div(255 * (v.num * (100 * (s.den * wd) - s.num * w)), 10000 * (v.den * (s.den * wd)))
}

impl RgbModel {
    /// Every channel lies in its documented range, 0 to 255.
    pub open spec fn in_range(self) -> bool {
        &&& MIN_RGB <= self.red <= MAX_RGB
        &&& MIN_RGB <= self.green <= MAX_RGB
        &&& MIN_RGB <= self.blue <= MAX_RGB
    }

    /// Every channel can be written with three digits.
    pub open spec fn fits_text(self) -> bool {
        &&& 0 <= self.red <= MAX_TEXT
        &&& 0 <= self.green <= MAX_TEXT
        &&& 0 <= self.blue <= MAX_TEXT
    }

    /// The channels, each brought into its documented range.
    pub open spec fn clamped(self) -> RgbModel {
        RgbModel {
            red: max_int(0, min_int(self.red, MAX_RGB as int)),
            green: max_int(0, min_int(self.green, MAX_RGB as int)),
            blue: max_int(0, min_int(self.blue, MAX_RGB as int)),
        }
    }

    /// The largest channel.
    pub open spec fn highest(self) -> int {
        max_int(self.red, max_int(self.green, self.blue))
    }

    /// The smallest channel.
    pub open spec fn lowest(self) -> int {
        min_int(self.red, min_int(self.green, self.blue))
    }

    /// The text format: the three channels in decimal, with a comma and a
    /// space between them.
    pub open spec fn text(self) -> Seq<char> {
        decimal_text(self.red as nat) + seq![',', ' '] + decimal_text(self.green as nat) + seq![
            ',',
            ' ',
        ] + decimal_text(self.blue as nat)
    }

    /// The text format inside `rgb(` and `)`.
    pub open spec fn color_text(self) -> Seq<char> {
        seq!['r', 'g', 'b', '('] + self.text() + seq![')']
    }

    /// The channels that a mix of inks shows: each is the share that its ink
    /// leaves, times the share that black leaves, of 255, rounded. A share
    /// of ink above 100 counts as 100.
    pub open spec fn from_cmyk(cmyk: CmykModel) -> RgbModel {
        let c = cmyk.clamped();
        RgbModel {
            red: round_div(255 * ((100 - c.cyan) * (100 - c.black)), 10000),
            green: round_div(255 * ((100 - c.magenta) * (100 - c.black)), 10000),
            blue: round_div(255 * ((100 - c.yellow) * (100 - c.black)), 10000),
        }
    }

    /// The channels of the colour with the given hue, saturation and value.
    /// The colour wheel has six sectors of 60 degrees; the hue picks one of
    /// them and a share `f` of the way through it. The brightest channel has
    /// weight 0, the darkest weight 1, and the third one weight `f` where it
    /// falls through the sector and `1 - f` where it rises (see `shade`).
    /// In the first sector red is brightest and green rises, in the second
    /// green is brightest and red falls, and so on round the wheel; a hue of
    /// a full turn or more goes round again. Without saturation all three
    /// channels are the brightest one. A saturation or value above 100
    /// counts as 100.
    pub open spec fn from_hsv(hsv: HsvModel) -> RgbModel {
        let s = hsv.saturation.capped(100);
        let v = hsv.value.capped(100);
        let turn = 60 * hsv.hue.den;
        let sector = (hsv.hue.num / turn) % 6;
        let f = hsv.hue.num % turn;
        let top = shade(s, v, 0, turn);
        let low = shade(s, v, turn, turn);
        let falling = shade(s, v, f, turn);
        let rising = shade(s, v, turn - f, turn);
        if s.is_zero() {
            RgbModel { red: top, green: top, blue: top }
        } else if sector == 0 {
            RgbModel { red: top, green: rising, blue: low }
        } else if sector == 1 {
            RgbModel { red: falling, green: top, blue: low }
        } else if sector == 2 {
            RgbModel { red: low, green: top, blue: rising }
        } else if sector == 3 {
            RgbModel { red: low, green: falling, blue: top }
        } else if sector == 4 {
            RgbModel { red: rising, green: low, blue: top }
        } else {
            RgbModel { red: top, green: low, blue: falling }
        }
    }

    /// The channels that a text in hexadecimal denotes, where it is a colour
    /// in hexadecimal.
    pub open spec fn from_hex(s: Seq<char>) -> Option<RgbModel> {
        if is_hex_text(s) {
            Some(rgb_of_hex(s))
        } else {
            None
        }
    }

    /// What a text denotes: it is, from its first to its last character, three
    /// numbers of one to three digits, a comma behind the first and the
    /// second, with optional white space behind each comma. The numbers are
    /// taken as they stand.
    pub open spec fn parse(s: Seq<char>) -> Option<RgbModel> {
        match whole_match(s, rgb_marks()) {
            Some(values) => Some(
                RgbModel { red: values[0] as int, green: values[1] as int, blue: values[2] as int },
            ),
            None => None,
        }
    }
}

/// Reads three channels in the text format.
pub(crate) fn scan_rgb(text: &str) -> (r: Option<(u32, u32, u32)>)
    ensures
        match r {
            Some((red, green, blue)) => RgbModel::parse(text@) == Some(
                RgbModel { red: red as int, green: green as int, blue: blue as int },
            ) && red <= MAX_TEXT && green <= MAX_TEXT && blue <= MAX_TEXT,
            None => RgbModel::parse(text@) is None,
        },
{
    let s = chars_of(text);
    let comma: Vec<char> = vec![','];
    let nothing: Vec<char> = Vec::new();
    assert(comma@ =~= seq![',']);
    assert(nothing@ =~= Seq::<char>::empty());
    assert(seq![comma@, comma@, nothing@] =~= rgb_marks());
    match scan_three(&s, 0, &comma, &comma, &nothing) {
        Some((channels, end)) => {
            if end == s.len() {
                Some(channels)
            } else {
                None
            }
        },
        None => None,
    }
}

/// Red, green and blue channels. Each is at most 999, the largest number that
/// the text format holds; a conversion yields channels of at most 255.
#[derive(Clone, Copy, Debug, PartialEq, Eq)]
pub struct RGB {
    red: u32,
    green: u32,
    blue: u32,
}

impl View for RGB {
    type V = RgbModel;

    closed spec fn view(&self) -> RgbModel {
        RgbModel { red: self.red as int, green: self.green as int, blue: self.blue as int }
    }
}

impl RGB {
    #[verifier::type_invariant]
    pub open spec fn inv(self) -> bool {
        self@.fits_text()
    }

    /// Reads the text format.
    pub fn new(value: String) -> (r: Result<RGB, ParseError>)
        ensures
            match r {
                Ok(rgb) => RgbModel::parse(value@) == Some(rgb@),
                Err(e) => RgbModel::parse(value@) is None && e == ParseError::Malformed,
            },
    {
        match scan_rgb(value.as_str()) {
            Some((red, green, blue)) => Ok(RGB { red, green, blue }),
            None => Err(ParseError::Malformed),
        }
    }

    /// The channel that the share `ink` of an ink and the share `black` of
    /// black leave.
    fn channel_of_inks(ink: u32, black: u32) -> (channel: u32)
        requires
            ink <= 100,
            black <= 100,
        ensures
            channel == round_div(255 * ((100 - ink) * (100 - black)), 10000),
            channel <= 255,
    {
        assert((100 - ink) * (100 - black) <= 10000) by (nonlinear_arith)
            requires
                0 <= ink <= 100,
                0 <= black <= 100,
        ;
        let left: u128 = (100 - ink) as u128 * (100 - black) as u128;
        round_within(255 * left, 10000, Ghost(255))
    }

    /// The channels that a mix of inks shows.
    pub fn from_cmyk(cmyk: &CMYK) -> (rgb: RGB)
        ensures
            rgb@ == RgbModel::from_cmyk(cmyk@),
            rgb@.in_range(),
    {
        let cyan = min_u32(cmyk.get_cyan(), MAX_CMYK);
        let magenta = min_u32(cmyk.get_magenta(), MAX_CMYK);
        let yellow = min_u32(cmyk.get_yellow(), MAX_CMYK);
        let black = min_u32(cmyk.get_black(), MAX_CMYK);
        RGB {
            red: RGB::channel_of_inks(cyan, black),
            green: RGB::channel_of_inks(magenta, black),
            blue: RGB::channel_of_inks(yellow, black),
        }
    }

    /// A channel of the colour with saturation `s` and value `v`, for the
    /// weight `w / wd`.
    fn shade_of(s: Fraction, v: Fraction, w: u64, wd: u64) -> (channel: u32)
        requires
            s@.at_most(100),
            v@.at_most(100),
            w <= wd,
            0 < wd <= 60 * 0xffff_ffff,
        ensures
            channel == shade(s@, v@, w as int, wd as int),
            channel <= 255,
    {
        proof {
            use_type_invariant(s);
            use_type_invariant(v);
        }
        let sn = s.numerator() as u128;
        let sd = s.denominator() as u128;
        let vn = v.numerator() as u128;
        let vd = v.denominator() as u128;
        let w = w as u128;
        let wd = wd as u128;
        proof {
            assert(1 <= sd * wd <= 0xffff_ffff * (60 * 0xffff_ffff)) by (nonlinear_arith)
                requires
                    1 <= sd <= 0xffff_ffff,
                    1 <= wd <= 60 * 0xffff_ffff,
            ;
            assert(sn * w <= 100 * (sd * wd)) by (nonlinear_arith)
                requires
                    0 <= sn <= 100 * sd,
                    0 <= w <= wd,
            ;
        }
        let base: u128 = sd * wd;
        let rest: u128 = 100 * base - sn * w;
        proof {
            assert(vn * rest <= 0xffff_ffff * (100 * (0xffff_ffff * (60 * 0xffff_ffff))))
                by (nonlinear_arith)
                requires
                    0 <= vn <= 0xffff_ffff,
                    0 <= rest <= 100 * (0xffff_ffff * (60 * 0xffff_ffff)),
            ;
            assert(1 <= vd * base <= 0xffff_ffff * (0xffff_ffff * (60 * 0xffff_ffff)))
                by (nonlinear_arith)
                requires
                    1 <= vd <= 0xffff_ffff,
                    1 <= base <= 0xffff_ffff * (60 * 0xffff_ffff),
            ;
            assert(255 * (vn * rest) <= 255 * (10000 * (vd * base))) by (nonlinear_arith)
                requires
                    0 <= vn <= 100 * vd,
                    0 <= rest <= 100 * base,
            ;
        }
        round_within(255 * (vn * rest), 10000 * (vd * base), Ghost(255))
    }

    /// The channels of the colour with the given hue, saturation and value.
    pub fn from_hsv(hsv: &HSV) -> (rgb: RGB)
        ensures
            rgb@ == RgbModel::from_hsv(hsv@),
            rgb@.in_range(),
    {
        let hue = hsv.get_hue();
        let s = hsv.get_saturation().capped(MAX_SVL);
        let v = hsv.get_value().capped(MAX_SVL);
        let turn: u64 = 60 * hue.denominator() as u64;
        let sector = (hue.numerator() as u64 / turn) % 6;
        let f = hue.numerator() as u64 % turn;
        let top = RGB::shade_of(s, v, 0, turn);
        if s.numerator() == 0 {
            return RGB { red: top, green: top, blue: top };
        }
        let low = RGB::shade_of(s, v, turn, turn);
        if sector == 0 {
            RGB { red: top, green: RGB::shade_of(s, v, turn - f, turn), blue: low }
        } else if sector == 1 {
            RGB { red: RGB::shade_of(s, v, f, turn), green: top, blue: low }
        } else if sector == 2 {
            RGB { red: low, green: top, blue: RGB::shade_of(s, v, turn - f, turn) }
        } else if sector == 3 {
            RGB { red: low, green: RGB::shade_of(s, v, f, turn), blue: top }
        } else if sector == 4 {
            RGB { red: RGB::shade_of(s, v, turn - f, turn), green: low, blue: top }
        } else {
            RGB { red: top, green: low, blue: RGB::shade_of(s, v, f, turn) }
        }
    }

    /// The channels that a colour in hexadecimal denotes.
    pub fn from_hex(hex: &Hex) -> (r: Result<RGB, ParseError>)
        ensures
            match r {
                Ok(rgb) => RgbModel::from_hex(hex@) == Some(rgb@) && rgb@.in_range(),
                Err(e) => RgbModel::from_hex(hex@) is None && e == ParseError::Malformed,
            },
    {
        let value = hex.get_value();
        let s = chars_of(value.as_str());
        if !check_hex(&s) {
            return Err(ParseError::Malformed);
        }
        let (red, green, blue) = channels_of(&s);
        Ok(RGB { red, green, blue })
    }

    pub fn get_red(&self) -> (red: u32)
        ensures
            red == self@.red,
    {
        self.red
    }

    pub fn get_green(&self) -> (green: u32)
        ensures
            green == self@.green,
    {
        self.green
    }

    pub fn get_blue(&self) -> (blue: u32)
        ensures
            blue == self@.blue,
    {
        self.blue
    }

    /// Writes the text format.
    pub fn to_string(&self) -> (s: String)
        ensures
            s@ == self@.text(),
    {
        let mut out: Vec<char> = Vec::new();
        let gap: Vec<char> = vec![',', ' '];
        push_decimal(&mut out, self.red);
        push_all(&mut out, &gap);
        push_decimal(&mut out, self.green);
        push_all(&mut out, &gap);
        push_decimal(&mut out, self.blue);
        assert(out@ =~= self@.text());
        string_of(&out)
    }

    /// Writes the text format inside `rgb(` and `)`.
    pub fn to_color_string(&self) -> (s: String)
        ensures
            s@ == self@.color_text(),
    {
        let mut out: Vec<char> = vec!['r', 'g', 'b', '('];
        let gap: Vec<char> = vec![',', ' '];
        push_decimal(&mut out, self.red);
        push_all(&mut out, &gap);
        push_decimal(&mut out, self.green);
        push_all(&mut out, &gap);
        push_decimal(&mut out, self.blue);
        out.push(')');
        assert(out@ =~= self@.color_text());
        string_of(&out)
    }
}

} // verus!
