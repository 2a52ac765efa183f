//! Shares of the four printing inks, in percent.

use crate::constants::{MAX_CMYK, MAX_RGB, MAX_TEXT, MIN_CMYK};
use crate::libs::arith::{max_int, max_u32, min_int, min_u32, round_div, round_within};
use crate::libs::color_transform::rgb_color::{RgbModel, RGB};
use crate::libs::color_transform::ParseError;
use crate::libs::grammar::{fields_at, scan_field, scan_three, whole_match};
use crate::libs::text::{
    chars_of, count_spaces, decimal_text, push_all, push_decimal, string_of,
};
use vstd::prelude::*;

verus! {

/// Four shares of ink as mathematics sees them.
pub struct CmykModel {
    pub cyan: int,
    pub magenta: int,
    pub yellow: int,
    pub black: int,
}

/// The marks behind the four numbers of the text format: a percent sign and
/// a comma behind each but the last, a percent sign behind the last.
pub open spec fn cmyk_marks() -> Seq<Seq<char>> {
    seq![seq!['%', ','], seq!['%', ','], seq!['%', ','], seq!['%']]
}

impl CmykModel {
    /// Every share lies in its documented range, 0 to 100.
    pub open spec fn in_range(self) -> bool {
        &&& MIN_CMYK <= self.cyan <= MAX_CMYK
        &&& MIN_CMYK <= self.magenta <= MAX_CMYK
        &&& MIN_CMYK <= self.yellow <= MAX_CMYK
        &&& MIN_CMYK <= self.black <= MAX_CMYK
    }

    /// Every share can be written with three digits.
    pub open spec fn fits_text(self) -> bool {
        &&& 0 <= self.cyan <= MAX_TEXT
        &&& 0 <= self.magenta <= MAX_TEXT
        &&& 0 <= self.yellow <= MAX_TEXT
        &&& 0 <= self.black <= MAX_TEXT
    }

    /// The shares, each brought into its documented range.
    pub open spec fn clamped(self) -> CmykModel {
        CmykModel {
            cyan: max_int(0, min_int(self.cyan, MAX_CMYK as int)),
            magenta: max_int(0, min_int(self.magenta, MAX_CMYK as int)),
            yellow: max_int(0, min_int(self.yellow, MAX_CMYK as int)),
            black: max_int(0, min_int(self.black, MAX_CMYK as int)),
        }
    }

    /// The inks that print the given channels. Black covers what the
    /// brightest channel leaves of 255; each other ink covers what its
    /// channel leaves of the brightest one. All are in percent, rounded. For
    /// pure black, where there is no brightest channel to compare with, the
    /// three coloured inks are 0. A channel above 255 counts as 255.
    pub open spec fn from_rgb(rgb: RgbModel) -> CmykModel {
        let c = rgb.clamped();
        let top = c.highest();
        if top == 0 {
            CmykModel { cyan: 0, magenta: 0, yellow: 0, black: 100 }
        } else {
            CmykModel {
                cyan: round_div(100 * (top - c.red), top),
                magenta: round_div(100 * (top - c.green), top),
                yellow: round_div(100 * (top - c.blue), top),
                black: round_div(100 * (255 - top), 255),
            }
        }
    }

    /// The text format: the four shares in decimal, each with a percent sign,
    /// with a comma and a space between them.
    pub open spec fn text(self) -> Seq<char> {
        decimal_text(self.cyan as nat) + seq!['%', ',', ' '] + decimal_text(self.magenta as nat)
            + seq!['%', ',', ' '] + decimal_text(self.yellow as nat) + seq!['%', ',', ' ']
            + decimal_text(self.black as nat) + seq!['%']
    }

    /// What a text denotes: it is, from its first to its last character, four
    /// numbers of one to three digits, each with a percent sign, a comma
    /// behind each but the last, with optional white space behind each comma.
    /// The numbers are taken as they stand.
    pub open spec fn parse(s: Seq<char>) -> Option<CmykModel> {
        match whole_match(s, cmyk_marks()) {
            Some(values) => Some(
                CmykModel {
                    cyan: values[0] as int,
                    magenta: values[1] as int,
                    yellow: values[2] as int,
                    black: values[3] as int,
                },
            ),
            None => None,
        }
    }
}

/// Reads four shares of ink in the text format.
pub(crate) fn scan_cmyk(text: &str) -> (r: Option<(u32, u32, u32, u32)>)
    ensures
        match r {
            Some((cyan, magenta, yellow, black)) => CmykModel::parse(text@) == Some(
                CmykModel {
                    cyan: cyan as int,
                    magenta: magenta as int,
                    yellow: yellow as int,
                    black: black as int,
                },
            ) && cyan <= MAX_TEXT && magenta <= MAX_TEXT && yellow <= MAX_TEXT && black
                <= MAX_TEXT,
            None => CmykModel::parse(text@) is None,
        },
{
    let s = chars_of(text);
    let between: Vec<char> = vec!['%', ','];
    let last: Vec<char> = vec!['%'];
    proof {
        reveal_with_fuel(fields_at, 2);
        assert(between@ =~= seq!['%', ',']);
        assert(last@ =~= seq!['%']);
        assert(cmyk_marks().drop_first() =~= seq![between@, between@, last@]);
        assert(cmyk_marks()[0] == between@);
    }
    let (cyan, after) = match scan_field(&s, 0, &between) {
        Some(found) => found,
        None => {
            return None;
        },
    };
    let next = after + count_spaces(&s, after);
    match scan_three(&s, next, &between, &between, &last) {
        Some(((magenta, yellow, black), end)) => {
            proof {
                assert(seq![cyan as nat] + seq![magenta as nat, yellow as nat, black as nat]
                    =~= seq![cyan as nat, magenta as nat, yellow as nat, black as nat]);
            }
            if end == s.len() {
                Some((cyan, magenta, yellow, black))
            } else {
                None
            }
        },
        None => None,
    }
}

/// Shares of cyan, magenta, yellow and black ink, in percent. Each is at most
/// 999, the largest number that the text format holds; a conversion yields
/// shares of at most 100.
#[derive(Clone, Copy, Debug, PartialEq, Eq)]
pub struct CMYK {
    black: u32,
    cyan: u32,
    magenta: u32,
    yellow: u32,
}

impl View for CMYK {
    type V = CmykModel;

    closed spec fn view(&self) -> CmykModel {
        CmykModel {
            cyan: self.cyan as int,
            magenta: self.magenta as int,
            yellow: self.yellow as int,
            black: self.black as int,
        }
    }
}

impl CMYK {
    #[verifier::type_invariant]
    pub open spec fn inv(self) -> bool {
        self@.fits_text()
    }

    /// Reads the text format.
    pub fn new(value: String) -> (r: Result<CMYK, ParseError>)
        ensures
            match r {
                Ok(cmyk) => CmykModel::parse(value@) == Some(cmyk@),
                Err(e) => CmykModel::parse(value@) is None && e == ParseError::Malformed,
            },
    {
        match scan_cmyk(value.as_str()) {
            Some((cyan, magenta, yellow, black)) => Ok(CMYK { black, cyan, magenta, yellow }),
            None => Err(ParseError::Malformed),
        }
    }

    /// The share of ink, in percent and rounded, that covers what `channel`
    /// leaves of `top`.
    fn ink_share(top: u32, channel: u32) -> (share: u32)
        requires
            0 < top,
            channel <= top <= 255,
        ensures
            share == round_div(100 * (top - channel), top as int),
            share <= 100,
    {
        let gap: u128 = (top - channel) as u128;
        assert(100 * gap <= 100 * top) by (nonlinear_arith)
            requires
                gap <= top,
        ;
        round_within(100 * gap, top as u128, Ghost(100))
    }

    /// The inks that print the given channels.
    pub fn from_rgb(rgb: &RGB) -> (cmyk: CMYK)
        ensures
            cmyk@ == CmykModel::from_rgb(rgb@),
            cmyk@.in_range(),
    {
        let red = min_u32(rgb.get_red(), MAX_RGB);
        let green = min_u32(rgb.get_green(), MAX_RGB);
        let blue = min_u32(rgb.get_blue(), MAX_RGB);
        let top = max_u32(red, max_u32(green, blue));
        if top == 0 {
            CMYK { black: 100, cyan: 0, magenta: 0, yellow: 0 }
        } else {
            let black = round_within(100 * (255 - top) as u128, 255, Ghost(100));
            CMYK {
                black,
                cyan: CMYK::ink_share(top, red),
                magenta: CMYK::ink_share(top, green),
                yellow: CMYK::ink_share(top, blue),
            }
        }
    }

    pub fn get_cyan(&self) -> (cyan: u32)
        ensures
            cyan == self@.cyan,
    {
        self.cyan
    }

    pub fn get_magenta(&self) -> (magenta: u32)
        ensures
            magenta == self@.magenta,
    {
        self.magenta
    }

    pub fn get_yellow(&self) -> (yellow: u32)
        ensures
            yellow == self@.yellow,
    {
        self.yellow
    }

    pub fn get_black(&self) -> (black: u32)
        ensures
            black == self@.black,
    {
        self.black
    }

    /// Writes the text format.
    pub fn to_string(&self) -> (s: String)
        ensures
            s@ == self@.text(),
    {
        let mut out: Vec<char> = Vec::new();
        let gap: Vec<char> = vec!['%', ',', ' '];
        push_decimal(&mut out, self.cyan);
        push_all(&mut out, &gap);
        push_decimal(&mut out, self.magenta);
        push_all(&mut out, &gap);
        push_decimal(&mut out, self.yellow);
        push_all(&mut out, &gap);
        push_decimal(&mut out, self.black);
        out.push('%');
        assert(out@ =~= self@.text());
        string_of(&out)
    }
}

} // verus!
