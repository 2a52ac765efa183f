//! Colours as six hexadecimal digits.

use crate::constants::MAX_RGB;
use crate::libs::arith::min_u32;
use crate::libs::color_transform::rgb_color::{RgbModel, RGB};
use crate::libs::text::{chars_of, string_of};
use vstd::prelude::*;
use vstd::string::StringExecFns;

verus! {

/// `c` is a hexadecimal digit, in either case.
pub open spec fn is_hex_digit(c: char) -> bool {
    '0' <= c <= '9' || 'a' <= c <= 'f' || 'A' <= c <= 'F'
}

/// The value of the hexadecimal digit `c`.
pub open spec fn hex_digit_value(c: char) -> int
    recommends
        is_hex_digit(c),
{
    if '0' <= c <= '9' {
        c as u32 - 48
    } else if 'a' <= c <= 'f' {
        c as u32 - 87
    } else {
        c as u32 - 55
    }
}

/// The hexadecimal digit of value `d`, a letter in upper case.
pub open spec fn upper_hex_char(d: int) -> char
    recommends
        0 <= d < 16,
{
    if d < 10 {
        ((48 + d) as u8) as char
    } else {
        ((55 + d) as u8) as char
    }
}

/// `c` in lower case where it is one of the letters `A` to `Z`, else `c`.
pub open spec fn lower_char(c: char) -> char {
    if 'A' <= c <= 'Z' {
        ((c as u8) + 32) as char
    } else {
        c
    }
}

/// `s` with each of the letters `A` to `Z` in lower case.
pub open spec fn lower_text(s: Seq<char>) -> Seq<char> {
    Seq::new(s.len(), |i: int| lower_char(s[i]))
}

/// `n` in hexadecimal, letters in upper case, without leading zeros.
pub open spec fn upper_hex_text(n: nat) -> Seq<char>
    decreases n,
{
    if n < 16 {
        seq![upper_hex_char(n as int)]
    } else {
        upper_hex_text(n / 16).push(upper_hex_char((n % 16) as int))
    }
}

/// A 32-bit number in hexadecimal, letters in upper case, with at least two
/// digits. A negative number is written as the unsigned number with the same
/// 32 bits.
pub open spec fn hex_part(value: int) -> Seq<char> {
    let n = if value < 0 {
        value + 0x1_0000_0000
    } else {
        value
    };
    let digits = upper_hex_text(n as nat);
    if digits.len() == 1 {
        seq!['0'] + digits
    } else {
        digits
    }
}

/// `s` without the `#` that it may begin with.
pub open spec fn bare(s: Seq<char>) -> Seq<char> {
    if s.len() > 0 && s[0] == '#' {
        s.drop_first()
    } else {
        s
    }
}

/// Every character of `s` is a hexadecimal digit.
pub open spec fn all_hex(s: Seq<char>) -> bool {
    forall|i: int| 0 <= i < s.len() ==> is_hex_digit(#[trigger] s[i])
}

/// `s` is three hexadecimal digits, with or without a `#` before them.
pub open spec fn is_short_hex(s: Seq<char>) -> bool {
    bare(s).len() == 3 && all_hex(bare(s))
}

/// `s` is six hexadecimal digits, with or without a `#` before them.
pub open spec fn is_long_hex(s: Seq<char>) -> bool {
    bare(s).len() == 6 && all_hex(bare(s))
}

/// `s` is a colour in hexadecimal, in the short or the long form.
pub open spec fn is_hex_text(s: Seq<char>) -> bool {
    is_short_hex(s) || is_long_hex(s)
}

/// The six digits that a colour in hexadecimal stands for: those of the long
/// form as they are, those of the short form each written twice.
pub open spec fn six_digits(s: Seq<char>) -> Seq<char>
    recommends
        is_hex_text(s),
{
    let b = bare(s);
    if b.len() == 3 {
        seq![b[0], b[0], b[1], b[1], b[2], b[2]]
    } else {
        b
    }
}

/// The canonical form of a text: for a colour in hexadecimal a `#` and its
/// six digits in lower case; any other text with its letters in lower case.
pub open spec fn hex_text(s: Seq<char>) -> Seq<char> {
    if is_hex_text(s) {
        seq!['#'] + lower_text(six_digits(s))
    } else {
        lower_text(s)
    }
}

/// The text that `Hex::from_rgb` holds for the given channels: a `#` and two
/// hexadecimal digits for each channel, letters in upper case. A channel
/// above 255 counts as 255.
pub open spec fn hex_of_rgb(rgb: RgbModel) -> Seq<char> {
    let c = rgb.clamped();
    seq!['#'] + hex_part(c.red) + hex_part(c.green) + hex_part(c.blue)
}

/// The channels that a colour in hexadecimal denotes: two digits for each.
pub open spec fn rgb_of_hex(s: Seq<char>) -> RgbModel
    recommends
        is_hex_text(s),
{
    let d = six_digits(s);
    RgbModel {
        red: 16 * hex_digit_value(d[0]) + hex_digit_value(d[1]),
        green: 16 * hex_digit_value(d[2]) + hex_digit_value(d[3]),
        blue: 16 * hex_digit_value(d[4]) + hex_digit_value(d[5]),
    }
}

/// A channel is written with exactly two digits.
pub proof fn lemma_hex_part_of_channel(v: int)
    requires
        0 <= v <= 255,
    ensures
        hex_part(v) == seq![upper_hex_char(v / 16), upper_hex_char(v % 16)],
{
    reveal_with_fuel(upper_hex_text, 2);
    if v < 16 {
        assert(hex_part(v) =~= seq![upper_hex_char(v / 16), upper_hex_char(v % 16)]);
    } else {
        assert(hex_part(v) =~= seq![upper_hex_char(v / 16), upper_hex_char(v % 16)]);
    }
}

/// What `Hex::from_rgb` holds is a colour in hexadecimal, in the long form
/// with its `#`.
pub proof fn lemma_hex_of_rgb(rgb: RgbModel)
    ensures
        is_long_hex(hex_of_rgb(rgb)),
        hex_of_rgb(rgb).len() == 7,
        hex_of_rgb(rgb)[0] == '#',
{
    let c = rgb.clamped();
    lemma_hex_part_of_channel(c.red);
    lemma_hex_part_of_channel(c.green);
    lemma_hex_part_of_channel(c.blue);
    let s = hex_of_rgb(rgb);
    let digits = seq![
        upper_hex_char(c.red / 16),
        upper_hex_char(c.red % 16),
        upper_hex_char(c.green / 16),
        upper_hex_char(c.green % 16),
        upper_hex_char(c.blue / 16),
        upper_hex_char(c.blue % 16),
    ];
    assert(s =~= seq!['#'] + digits);
    assert(bare(s) =~= digits);
    assert forall|i: int| 0 <= i < digits.len() implies is_hex_digit(#[trigger] digits[i]) by {
        lemma_upper_hex_char(c.red / 16);
        lemma_upper_hex_char(c.red % 16);
        lemma_upper_hex_char(c.green / 16);
        lemma_upper_hex_char(c.green % 16);
        lemma_upper_hex_char(c.blue / 16);
        lemma_upper_hex_char(c.blue % 16);
    }
}

/// A hexadecimal digit in upper case is a hexadecimal digit, and has the
/// value that it was made from.
pub proof fn lemma_upper_hex_char(d: int)
    requires
        0 <= d < 16,
    ensures
        is_hex_digit(upper_hex_char(d)),
        hex_digit_value(upper_hex_char(d)) == d,
        hex_digit_value(lower_char(upper_hex_char(d))) == d,
        is_hex_digit(lower_char(upper_hex_char(d))),
{
}

/// Whether `c` is a hexadecimal digit.
pub(crate) fn char_is_hex_digit(c: char) -> (b: bool)
    ensures
        b == is_hex_digit(c),
{
    (c >= '0' && c <= '9') || (c >= 'a' && c <= 'f') || (c >= 'A' && c <= 'F')
}

/// The value of a hexadecimal digit.
pub(crate) fn value_of_hex_digit(c: char) -> (v: u32)
    requires
        is_hex_digit(c),
    ensures
        v == hex_digit_value(c),
        v < 16,
{
    if c >= '0' && c <= '9' {
        c as u32 - 48
    } else if c >= 'a' && c <= 'f' {
        c as u32 - 87
    } else {
        c as u32 - 55
    }
}

/// `c` in lower case where it is one of the letters `A` to `Z`.
pub(crate) fn char_to_lower(c: char) -> (r: char)
    ensures
        r == lower_char(c),
{
    if c >= 'A' && c <= 'Z' {
        ((c as u8) + 32) as char
    } else {
        c
    }
}

/// Appends `n` in hexadecimal, letters in upper case, to `out`.
pub(crate) fn push_upper_hex(out: &mut Vec<char>, n: u32)
    ensures
        final(out)@ == old(out)@ + upper_hex_text(n as nat),
    decreases n,
{
    if n >= 16 {
        push_upper_hex(out, n / 16);
    }
    let d: u8 = (n % 16) as u8;
    let c = if d < 10 {
        (48 + d) as char
    } else {
        (55 + d) as char
    };
    out.push(c);
    proof {
        assert(final(out)@ =~= old(out)@ + upper_hex_text(n as nat));
    }
}

/// A colour as text in hexadecimal. It holds the text as it was given, valid
/// or not, and writes it in canonical form.
#[derive(Debug, PartialEq, Eq)]
pub struct Hex {
    value: String,
}

impl View for Hex {
    type V = Seq<char>;

    closed spec fn view(&self) -> Seq<char> {
        self.value@
    }
}

impl Hex {
    /// Holds the given text as it is.
    pub fn new(value: String) -> (hex: Hex)
        ensures
            hex@ == value@,
    {
        Hex { value }
    }

    /// A number in hexadecimal, letters in upper case, with at least two
    /// digits.
    pub fn value_to_hex_part(value: i32) -> (part: String)
        ensures
            part@ == hex_part(value as int),
    {
        let n: u32 = if value >= 0 {
            value as u32
        } else {
            ((value - i32::MIN) as u32) + 0x8000_0000u32
        };
        let mut digits: Vec<char> = Vec::new();
        push_upper_hex(&mut digits, n);
        if digits.len() == 1 {
            let mut padded: Vec<char> = vec!['0'];
            padded.push(digits[0]);
            assert(padded@ =~= seq!['0'] + digits@);
            string_of(&padded)
        } else {
            assert(digits@ =~= upper_hex_text(n as nat));
            string_of(&digits)
        }
    }

    /// The colour of the given channels.
    pub fn from_rgb(rgb: &RGB) -> (hex: Hex)
        ensures
            hex@ == hex_of_rgb(rgb@),
    {
        let r_part = Hex::value_to_hex_part(min_u32(rgb.get_red(), MAX_RGB) as i32);
        let g_part = Hex::value_to_hex_part(min_u32(rgb.get_green(), MAX_RGB) as i32);
        let b_part = Hex::value_to_hex_part(min_u32(rgb.get_blue(), MAX_RGB) as i32);
        let mut value = String::from_str("#");
        proof {
            reveal_strlit("#");
            assert(value@ =~= seq!['#']);
        }
        value.append(r_part.as_str());
        value.append(g_part.as_str());
        value.append(b_part.as_str());
        Hex { value }
    }

    /// The text as it was given.
    pub fn get_value(&self) -> (value: String)
        ensures
            value@ == self@,
    {
        self.value.clone()
    }

    /// The text in canonical form.
    pub fn to_string(&self) -> (s: String)
        ensures
            s@ == hex_text(self@),
    {
        let chars = chars_of(self.value.as_str());
        let out = canonical(&chars);
        string_of(&out)
    }
}

/// Where the digits of `s` start if `s` is a colour in hexadecimal.
pub(crate) fn digits_start(s: &Vec<char>) -> (start: usize)
    ensures
        start <= s.len(),
        bare(s@) == s@.subrange(start as int, s.len() as int),
        start <= 1,
{
    if s.len() > 0 && s[0] == '#' {
        1
    } else {
        assert(s@.subrange(0, s.len() as int) =~= s@);
        0
    }
}

/// Whether every character of `s` from `start` on is a hexadecimal digit.
pub(crate) fn all_hex_from(s: &Vec<char>, start: usize) -> (b: bool)
    requires
        start <= s.len(),
    ensures
        b == all_hex(s@.subrange(start as int, s.len() as int)),
{
    let ghost tail = s@.subrange(start as int, s.len() as int);
    let mut i: usize = start;
    while i < s.len()
        invariant
            start <= i <= s.len(),
            tail == s@.subrange(start as int, s.len() as int),
            forall|j: int| 0 <= j < i - start ==> is_hex_digit(#[trigger] tail[j]),
        decreases s.len() - i,
    {
        if !char_is_hex_digit(s[i]) {
            assert(!is_hex_digit(tail[i - start]));
            return false;
        }
        i += 1;
    }
    true
}

/// Whether `s` is a colour in hexadecimal.
pub(crate) fn check_hex(s: &Vec<char>) -> (b: bool)
    ensures
        b == is_hex_text(s@),
{
    let start = digits_start(s);
    let n = s.len() - start;
    (n == 3 || n == 6) && all_hex_from(s, start)
}

/// The three channels that a colour in hexadecimal denotes.
pub(crate) fn channels_of(s: &Vec<char>) -> (channels: (u32, u32, u32))
    requires
        is_hex_text(s@),
    ensures
        rgb_of_hex(s@) == (RgbModel {
            red: channels.0 as int,
            green: channels.1 as int,
            blue: channels.2 as int,
        }),
        channels.0 <= MAX_RGB,
        channels.1 <= MAX_RGB,
        channels.2 <= MAX_RGB,
{
    let start = digits_start(s);
    let ghost b = bare(s@);
    if s.len() - start == 3 {
        assert(is_hex_digit(b[0]) && is_hex_digit(b[1]) && is_hex_digit(b[2]));
        let r = value_of_hex_digit(s[start]);
        let g = value_of_hex_digit(s[start + 1]);
        let b = value_of_hex_digit(s[start + 2]);
        (16 * r + r, 16 * g + g, 16 * b + b)
    } else {
        assert(is_hex_digit(b[0]) && is_hex_digit(b[1]) && is_hex_digit(b[2]) && is_hex_digit(
            b[3],
        ) && is_hex_digit(b[4]) && is_hex_digit(b[5]));
        let r = 16 * value_of_hex_digit(s[start]) + value_of_hex_digit(s[start + 1]);
        let g = 16 * value_of_hex_digit(s[start + 2]) + value_of_hex_digit(s[start + 3]);
        let b = 16 * value_of_hex_digit(s[start + 4]) + value_of_hex_digit(s[start + 5]);
        (r, g, b)
    }
}

/// The canonical form of a text.
pub(crate) fn canonical(s: &Vec<char>) -> (out: Vec<char>)
    ensures
        out@ == hex_text(s@),
{
    let start = digits_start(s);
    let mut out: Vec<char> = Vec::new();
    if check_hex(s) {
        let ghost b = bare(s@);
        out.push('#');
        let twice = s.len() - start == 3;
        let mut i: usize = start;
        while i < s.len()
            invariant
                start <= i <= s.len(),
                b == s@.subrange(start as int, s.len() as int),
                twice == (b.len() == 3),
                out.len() == 1 + (if twice {
                    2 * (i - start)
                } else {
                    i - start
                }),
                out@[0] == '#',
                forall|j: int|
                    0 <= j < i - start ==> if twice {
                        out@[1 + 2 * j] == lower_char(b[j]) && out@[2 + 2 * j] == lower_char(b[j])
                    } else {
                        out@[1 + j] == lower_char(#[trigger] b[j])
                    },
            decreases s.len() - i,
        {
            let c = char_to_lower(s[i]);
            assert(b[i - start] == s@[i as int]);
            out.push(c);
            if twice {
                out.push(c);
            }
            i += 1;
        }
        assert(out@ =~= hex_text(s@));
        out
    } else {
        let mut i: usize = 0;
        while i < s.len()
            invariant
                i <= s.len(),
                out.len() == i,
                forall|j: int| 0 <= j < i ==> out@[j] == lower_char(#[trigger] s@[j]),
            decreases s.len() - i,
        {
            out.push(char_to_lower(s[i]));
            i += 1;
        }
        assert(out@ =~= hex_text(s@));
        out
    }
}

} // verus!
