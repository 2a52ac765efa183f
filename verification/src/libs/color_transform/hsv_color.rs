//! Hue, saturation and value: the representation that the others turn on.

use crate::constants::{DEGREE, MAX_H, MAX_RGB, MAX_SVL, MAX_TEXT};
use crate::libs::arith::{max_u32, min_u32, round_div, round_within};
use crate::libs::color_transform::hsl_color::{HslModel, HSL};
use crate::libs::color_transform::rgb_color::{RgbModel, RGB};
use crate::libs::color_transform::ParseError;
use crate::libs::fraction::{lemma_wrapped_below, lemma_wrapped_whole, Fraction, Ratio};
use crate::libs::grammar::{find_last_three, last_match};
use crate::libs::text::{chars_of, decimal_text, push_all, push_decimal, string_of};
use vstd::prelude::*;

verus! {

/// Hue, saturation and value as mathematics sees them.
pub struct HsvModel {
    pub hue: Ratio,
    pub saturation: Ratio,
    pub value: Ratio,
}

/// The marks behind the three numbers of the text format that hue,
/// saturation and value share with hue, saturation and lightness: a degree
/// sign and a comma, a percent sign and a comma, a percent sign.
pub open spec fn degree_marks() -> Seq<Seq<char>> {
    seq![seq![DEGREE, ','], seq!['%', ','], seq!['%']]
}

/// The three numbers that a text of that format denotes. The text may hold
/// more than the three numbers with their marks, before and behind them;
/// where it holds them more than once, the last place that a search from
/// left to right finds is the one that counts. The numbers are taken as they
/// stand.
pub open spec fn parse_degrees(s: Seq<char>) -> Option<Seq<nat>> {
    last_match(s, 0, degree_marks())
}

/// The hue, in whole degrees and before it is reduced to less than a full
/// turn, of channels whose brightest stands at `base` degrees on the colour
/// wheel: `next` and `prev` are the channels that follow and precede it
/// there, and `spread` is what the darkest channel lacks of the brightest.
/// The brightest channel's place is moved by up to 60 degrees towards the
/// brighter of its neighbours, and rounded.
pub open spec fn turn_of(base: int, next: int, prev: int, spread: int) -> int {
    round_div(60 * (next - prev) + base * spread, spread)
}

/// The hue of the given channels, in whole degrees from 0 to 359: red stands
/// at 0 (and 360), green at 120 and blue at 240 degrees. Where two channels
/// are brightest, red counts before green and green before blue. Grey has
/// hue 0.
pub open spec fn hue_of(rgb: RgbModel) -> int {
    let top = rgb.highest();
    let spread = top - rgb.lowest();
    if spread == 0 {
        0
    } else if top == rgb.red {
        turn_of(360, rgb.green, rgb.blue, spread) % 360
    } else if top == rgb.green {
        turn_of(120, rgb.blue, rgb.red, spread) % 360
    } else {
        turn_of(240, rgb.red, rgb.green, spread) % 360
    }
}

impl HsvModel {
    /// The three components are non-negative numbers.
    pub open spec fn wf(self) -> bool {
        self.hue.wf() && self.saturation.wf() && self.value.wf()
    }

    /// Every component lies in its documented range: the hue from 0 to
    /// below 360, saturation and value from 0 to 100.
    pub open spec fn in_range(self) -> bool {
        &&& self.wf()
        &&& self.hue.below(MAX_H as int)
        &&& self.saturation.at_most(MAX_SVL as int)
        &&& self.value.at_most(MAX_SVL as int)
    }

    /// Every component lies within the bounds that text may have: these are
    /// the documented ranges and, for the hue, 360 itself, which text may
    /// give for the full turn.
    pub open spec fn within_bounds(self) -> bool {
        &&& self.wf()
        &&& self.hue.at_most(MAX_H as int)
        &&& self.saturation.at_most(MAX_SVL as int)
        &&& self.value.at_most(MAX_SVL as int)
    }

    /// Hue, saturation and value from three numbers, where saturation and
    /// value lie in their documented range. The hue wraps: whole turns of
    /// 360 degrees are taken away from it, so that a hue of 360 is a hue of
    /// 0. Saturation and value stay as they are.
    pub open spec fn from_values(h: Ratio, s: Ratio, v: Ratio) -> Option<HsvModel> {
        if s.at_most(MAX_SVL as int) && v.at_most(MAX_SVL as int) {
            Some(HsvModel { hue: h.wrapped(MAX_H as int), saturation: s, value: v })
        } else {
            None
        }
    }

    /// Every component, rounded, can be written with three digits.
    pub open spec fn fits_text(self) -> bool {
        &&& self.wf()
        &&& self.hue.at_most(MAX_TEXT as int)
        &&& self.saturation.at_most(MAX_TEXT as int)
        &&& self.value.at_most(MAX_TEXT as int)
    }

    /// Hue, saturation and value of the given channels. The saturation is
    /// what the darkest channel lacks of the brightest, in percent of the
    /// brightest (0 for black); the value is the brightest channel in percent
    /// of 255. Neither is rounded. A channel above 255 counts as 255.
    pub open spec fn from_rgb(rgb: RgbModel) -> HsvModel {
        let c = rgb.clamped();
        let top = c.highest();
        let spread = top - c.lowest();
        HsvModel {
            hue: Ratio::whole(hue_of(c)),
            saturation: if top == 0 {
                Ratio::whole(0)
            } else {
                Ratio { num: 100 * spread, den: top }
            },
            value: Ratio { num: 100 * top, den: 255 },
        }
    }

    /// Hue, saturation and value of the given hue, saturation and lightness.
    /// With the lightness doubled and the saturation scaled by what the
    /// doubled lightness has reached of, or has left to, 100 percent, the
    /// value is half their sum and the saturation is the scaled saturation
    /// in percent of that half; both are rounded. Where the sum is zero the
    /// saturation is 0. The hue stays as it is. A saturation or lightness
    /// above 100 counts as 100.
    pub open spec fn from_hsl(hsl: HslModel) -> HsvModel {
        let c = hsl.clamped();
        let span = 2 * c.lightness;
        let reach = if span <= 100 {
            span
        } else {
            200 - span
        };
        let spread = c.saturation * reach;
        let total = 100 * span + spread;
        HsvModel {
            hue: hsl.hue,
            saturation: Ratio::whole(
                if total == 0 {
                    0
                } else {
                    round_div(200 * spread, total)
                },
            ),
            value: Ratio::whole(round_div(total, 200)),
        }
    }

    /// The text format: the three components, rounded, in decimal; a degree
    /// sign behind the hue, a percent sign behind the others, with a comma
    /// and a space between them.
    pub open spec fn text(self) -> Seq<char> {
        decimal_text(self.hue.rounded() as nat) + seq![DEGREE, ',', ' '] + decimal_text(
            self.saturation.rounded() as nat,
        ) + seq!['%', ',', ' '] + decimal_text(self.value.rounded() as nat) + seq!['%']
    }

    /// What a text denotes: see `parse_degrees`.
    pub open spec fn parse(s: Seq<char>) -> Option<HsvModel> {
        match parse_degrees(s) {
            Some(values) => Some(
                HsvModel {
                    hue: Ratio::whole(values[0] as int),
                    saturation: Ratio::whole(values[1] as int),
                    value: Ratio::whole(values[2] as int),
                },
            ),
            None => None,
        }
    }
}

/// Reads three numbers in the format that hue, saturation and value share
/// with hue, saturation and lightness.
pub(crate) fn scan_degrees(text: &str) -> (r: Option<(u32, u32, u32)>)
    ensures
        match r {
            Some((a, b, c)) => parse_degrees(text@) == Some(seq![a as nat, b as nat, c as nat])
                && a <= MAX_TEXT && b <= MAX_TEXT && c <= MAX_TEXT,
            None => parse_degrees(text@) is None,
        },
{
    let s = chars_of(text);
    let first: Vec<char> = vec![DEGREE, ','];
    let second: Vec<char> = vec!['%', ','];
    let third: Vec<char> = vec!['%'];
    proof {
        assert(first@ =~= seq![DEGREE, ',']);
        assert(second@ =~= seq!['%', ',']);
        assert(third@ =~= seq!['%']);
        assert(seq![first@, second@, third@] =~= degree_marks());
    }
    find_last_three(&s, &first, &second, &third)
}

/// Hue, saturation and value. Each is at most 999, the largest number that
/// the text format holds, and text is kept as it stands. What is built from
/// numbers or from channels has a hue below 360 and a saturation and value
/// of at most 100; what is built from hue, saturation and lightness keeps
/// their hue.
#[derive(Clone, Copy, Debug, PartialEq, Eq)]
pub struct HSV {
    hue: Fraction,
    saturation: Fraction,
    value: Fraction,
}

impl View for HSV {
    type V = HsvModel;

    closed spec fn view(&self) -> HsvModel {
        HsvModel { hue: self.hue@, saturation: self.saturation@, value: self.value@ }
    }
}

impl HSV {
    #[verifier::type_invariant]
    pub open spec fn inv(self) -> bool {
        self@.fits_text()
    }

    /// Reads the text format.
    pub fn new(hsv: String) -> (r: Result<HSV, ParseError>)
        ensures
            match r {
                Ok(made) => HsvModel::parse(hsv@) == Some(made@),
                Err(e) => HsvModel::parse(hsv@) is None && e == ParseError::Malformed,
            },
    {
        match scan_degrees(hsv.as_str()) {
            Some((hue, saturation, value)) => Ok(
                HSV {
                    hue: Fraction::from_integer(hue),
                    saturation: Fraction::from_integer(saturation),
                    value: Fraction::from_integer(value),
                },
            ),
            None => Err(ParseError::Malformed),
        }
    }

    /// Hue, saturation and value from numbers. The hue wraps at 360, so that
    /// what is built has a hue below 360; a saturation or a value above 100
    /// is an error.
    pub fn from_values(h: Fraction, s: Fraction, v: Fraction) -> (r: Result<HSV, ParseError>)
        ensures
            match r {
                Ok(made) => {
                    &&& HsvModel::from_values(h@, s@, v@) == Some(made@)
                    &&& made@.in_range()
                    &&& h@.den == 1 ==> made@.hue == Ratio::whole(h@.num % 360)
                },
                Err(e) => HsvModel::from_values(h@, s@, v@) is None && e
                    == ParseError::OutOfRange,
            },
    {
        proof {
            use_type_invariant(h);
            use_type_invariant(s);
            use_type_invariant(v);
            lemma_wrapped_below(h@, MAX_H as int);
            if h@.den == 1 {
                lemma_wrapped_whole(h@.num, MAX_H as int);
            }
        }
        if s.at_most(MAX_SVL) && v.at_most(MAX_SVL) {
            Ok(HSV { hue: h.wrapped(MAX_H), saturation: s, value: v })
        } else {
            Err(ParseError::OutOfRange)
        }
    }

    /// The hue, before it is reduced to less than a full turn, where the
    /// brightest channel stands at `base` degrees and `next` and `prev` are
    /// the channels that follow and precede it on the colour wheel.
    fn turn_from(base: u32, next: u32, prev: u32, spread: u32) -> (hue: u32)
        requires
            0 < spread <= 255,
            next <= 255,
            prev <= 255,
            next - prev <= spread,
            prev - next <= spread,
            120 <= base <= 360,
        ensures
            hue == turn_of(base as int, next as int, prev as int, spread as int) % 360,
            hue < 360,
    {
        assert(base * spread <= 360 * spread && base * spread >= 120 * spread) by (nonlinear_arith)
            requires
                120 <= base <= 360,
                0 < spread,
        ;
        let n: u128 = (base as u128 * spread as u128 + 60 * next as u128) - 60 * prev as u128;
        assert(n <= 420 * spread);
        let turned = round_within(n, spread as u128, Ghost(420));
        turned % 360
    }

    /// Hue, saturation and value of the given channels.
    pub fn from_rgb(rgb: &RGB) -> (hsv: HSV)
        ensures
            hsv@ == HsvModel::from_rgb(rgb@),
            hsv@.in_range(),
    {
        let red = min_u32(rgb.get_red(), MAX_RGB);
        let green = min_u32(rgb.get_green(), MAX_RGB);
        let blue = min_u32(rgb.get_blue(), MAX_RGB);
        let top = max_u32(red, max_u32(green, blue));
        let low = min_u32(red, min_u32(green, blue));
        let spread = top - low;
        let hue = if spread == 0 {
            0
        } else if top == red {
            HSV::turn_from(360, green, blue, spread)
        } else if top == green {
            HSV::turn_from(120, blue, red, spread)
        } else {
            HSV::turn_from(240, red, green, spread)
        };
        let saturation = if top == 0 {
            Fraction::from_integer(0)
        } else {
            Fraction::ratio(100 * spread, top)
        };
        let value = Fraction::ratio(100 * top, 255);
        HSV { hue: Fraction::from_integer(hue), saturation, value }
    }

    /// Hue, saturation and value of the given hue, saturation and lightness.
    pub fn from_hsl(hsl: &HSL) -> (hsv: HSV)
        ensures
            hsv@ == HsvModel::from_hsl(hsl@),
            hsv@.saturation.at_most(MAX_SVL as int),
            hsv@.value.at_most(MAX_SVL as int),
    {
        let hue = hsl.get_hue();
        proof {
            use_type_invariant(hsl);
        }
        let saturation = min_u32(hsl.get_saturation(), MAX_SVL);
        let lightness = min_u32(hsl.get_lightness(), MAX_SVL);
        let span = 2 * lightness;
        let reach = if span <= 100 {
            span
        } else {
            200 - span
        };
        assert(saturation * reach <= 100 * reach) by (nonlinear_arith)
            requires
                saturation <= 100,
                0 <= reach,
        ;
        let spread = saturation * reach;
        let total = 100 * span + spread;
        let s = if total == 0 {
            0
        } else {
            round_within(200 * spread as u128, total as u128, Ghost(100))
        };
        let v = round_within(total as u128, 200, Ghost(100));
        HSV { hue, saturation: Fraction::from_integer(s), value: Fraction::from_integer(v) }
    }

    pub fn get_hue(&self) -> (hue: Fraction)
        ensures
            hue@ == self@.hue,
    {
        self.hue
    }

    pub fn get_saturation(&self) -> (saturation: Fraction)
        ensures
            saturation@ == self@.saturation,
    {
        self.saturation
    }

    pub fn get_value(&self) -> (value: Fraction)
        ensures
            value@ == self@.value,
    {
        self.value
    }

    /// Writes the text format.
    pub fn to_string(&self) -> (s: String)
        ensures
            s@ == self@.text(),
    {
        let mut out: Vec<char> = Vec::new();
        let degrees: Vec<char> = vec![DEGREE, ',', ' '];
        let percent: Vec<char> = vec!['%', ',', ' '];
        push_decimal(&mut out, self.hue.round());
        push_all(&mut out, &degrees);
        push_decimal(&mut out, self.saturation.round());
        push_all(&mut out, &percent);
        push_decimal(&mut out, self.value.round());
        out.push('%');
        assert(out@ =~= self@.text());
        string_of(&out)
    }
}

} // verus!
