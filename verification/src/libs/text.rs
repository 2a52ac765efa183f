//! Characters and decimal numbers in text: what the colour formats are
//! written with and scanned by.

use vstd::prelude::*;

verus! {

/// `c` is one of the ten decimal digits `0` to `9`.
pub open spec fn is_digit(c: char) -> bool {
    '0' <= c <= '9'
}

/// The value of the decimal digit `c`.
pub open spec fn digit_of(c: char) -> nat
    recommends
        is_digit(c),
{
    (c as u32 - 48) as nat
}

/// The decimal digit whose value is `d`.
pub open spec fn digit_char(d: nat) -> char
    recommends
        d < 10,
{
    ((48 + d) as u8) as char
}

/// `c` is white space, as Unicode defines it (`White_Space`): the space,
/// tab, line feed and the like, the no-break space, and the spaces of other
/// widths.
pub open spec fn is_space(c: char) -> bool {
    ||| '\u{9}' <= c <= '\u{d}'
    ||| c == ' '
    ||| c == '\u{85}'
    ||| c == '\u{a0}'
    ||| c == '\u{1680}'
    ||| '\u{2000}' <= c <= '\u{200a}'
    ||| c == '\u{2028}'
    ||| c == '\u{2029}'
    ||| c == '\u{202f}'
    ||| c == '\u{205f}'
    ||| c == '\u{3000}'
}

/// How many decimal digits stand in `s` from index `i` on without a break.
pub open spec fn digits_len(s: Seq<char>, i: int) -> nat
    decreases s.len() - i,
{
    if 0 <= i < s.len() && is_digit(s[i]) {
        1 + digits_len(s, i + 1)
    } else {
        0
    }
}

/// How many white-space characters stand in `s` from index `i` on without a
/// break.
pub open spec fn spaces_len(s: Seq<char>, i: int) -> nat
    decreases s.len() - i,
{
    if 0 <= i < s.len() && is_space(s[i]) {
        1 + spaces_len(s, i + 1)
    } else {
        0
    }
}

/// The number that the `n` decimal digits of `s` from index `i` on denote.
pub open spec fn digits_value(s: Seq<char>, i: int, n: nat) -> nat
    decreases n,
{
    if n == 0 {
        0
    } else {
        10 * digits_value(s, i, (n - 1) as nat) + digit_of(s[i + n - 1])
    }
}

/// `n` written in decimal, without leading zeros.
pub open spec fn decimal_text(n: nat) -> Seq<char>
    decreases n,
{
    if n < 10 {
        seq![digit_char(n)]
    } else {
        decimal_text(n / 10).push(digit_char(n % 10))
    }
}

/// `s` holds `mark` from index `i` on.
pub open spec fn has_at(s: Seq<char>, i: int, mark: Seq<char>) -> bool {
    0 <= i && i + mark.len() <= s.len() && s.subrange(i, i + mark.len()) == mark
}

/// A run of digits ends inside the text, and all before its end are digits.
pub proof fn lemma_digits_len_bounds(s: Seq<char>, i: int)
    requires
        0 <= i <= s.len(),
    ensures
        i + digits_len(s, i) <= s.len(),
        forall|j: int| i <= j < i + digits_len(s, i) ==> is_digit(#[trigger] s[j]),
        i + digits_len(s, i) < s.len() ==> !is_digit(s[i + digits_len(s, i)]),
    decreases s.len() - i,
{
    if i < s.len() && is_digit(s[i]) {
        lemma_digits_len_bounds(s, i + 1);
    }
}

/// A run of white space ends inside the text, and all before its end is
/// white space.
pub proof fn lemma_spaces_len_bounds(s: Seq<char>, i: int)
    requires
        0 <= i <= s.len(),
    ensures
        i + spaces_len(s, i) <= s.len(),
        forall|j: int| i <= j < i + spaces_len(s, i) ==> is_space(#[trigger] s[j]),
    decreases s.len() - i,
{
    if i < s.len() && is_space(s[i]) {
        lemma_spaces_len_bounds(s, i + 1);
    }
}

/// Up to three digits denote a number below a thousand.
pub proof fn lemma_digits_value_bound(s: Seq<char>, i: int, n: nat)
    requires
        0 <= i,
        i + n <= s.len(),
        n <= 3,
        forall|j: int| i <= j < i + n ==> is_digit(#[trigger] s[j]),
    ensures
        n == 0 ==> digits_value(s, i, n) == 0,
        n == 1 ==> digits_value(s, i, n) <= 9,
        n == 2 ==> digits_value(s, i, n) <= 99,
        n == 3 ==> digits_value(s, i, n) <= 999,
    decreases n,
{
    if n > 0 {
        lemma_digits_value_bound(s, i, (n - 1) as nat);
        assert(is_digit(s[i + n - 1]));
    }
}

/// A stretch of digits that ends at the end of the text or before another
/// character is a whole run of digits.
pub proof fn lemma_digits_len_exact(s: Seq<char>, i: int, k: nat)
    requires
        0 <= i,
        i + k <= s.len(),
        forall|j: int| i <= j < i + k ==> is_digit(#[trigger] s[j]),
        i + k == s.len() || !is_digit(s[i + k]),
    ensures
        digits_len(s, i) == k,
    decreases k,
{
    if k > 0 {
        assert(is_digit(s[i]));
        lemma_digits_len_exact(s, i + 1, (k - 1) as nat);
    }
}

/// One space before another character is a whole run of white space.
pub proof fn lemma_single_space(s: Seq<char>, i: int)
    requires
        0 <= i,
        i + 1 < s.len(),
        s[i] == ' ',
        !is_space(s[i + 1]),
    ensures
        spaces_len(s, i) == 1,
{
    reveal_with_fuel(spaces_len, 2);
}

/// What digits denote depends on the digits alone, not on where they stand.
pub proof fn lemma_digits_value_window(s: Seq<char>, i: int, k: nat, t: Seq<char>)
    requires
        0 <= i,
        i + k <= s.len(),
        s.subrange(i, i + k) == t,
    ensures
        digits_value(s, i, k) == digits_value(t, 0, k),
    decreases k,
{
    if k > 0 {
        let shorter = (k - 1) as nat;
        assert(s.subrange(i, i + shorter) =~= t.subrange(0, shorter as int));
        lemma_digits_value_window(s, i, shorter, t.subrange(0, shorter as int));
        lemma_digits_value_window(t, 0, shorter, t.subrange(0, shorter as int));
        assert(t[k - 1] == s[i + k - 1]);
    }
}

/// A number below a thousand is written with one to three digits, and these
/// denote the number.
pub proof fn lemma_decimal_text(n: nat)
    requires
        n <= 999,
    ensures
        1 <= decimal_text(n).len() <= 3,
        forall|j: int| 0 <= j < decimal_text(n).len() ==> is_digit(#[trigger] decimal_text(n)[j]),
        digits_value(decimal_text(n), 0, decimal_text(n).len()) == n,
        !is_space(decimal_text(n)[0]),
{
    reveal_with_fuel(decimal_text, 3);
    reveal_with_fuel(digits_value, 4);
    let d = decimal_text(n);
    if n < 10 {
        assert(d =~= seq![digit_char(n)]);
    } else if n < 100 {
        assert(d =~= seq![digit_char(n / 10), digit_char(n % 10)]);
    } else {
        assert(d =~= seq![digit_char(n / 100), digit_char((n / 10) % 10), digit_char(n % 10)]);
    }
}

/// The characters of a string, in order.
pub(crate) fn chars_of(s: &str) -> (v: Vec<char>)
    ensures
        v@ == s@,
{
    let mut v: Vec<char> = Vec::new();
    for c in iter: s.chars()
        invariant
            iter.seq() == s@,
            v.len() == iter.index(),
            forall|j: int| 0 <= j < v.len() ==> v[j] == iter.seq()[j],
    {
        v.push(c);
    }
    assert(v@ =~= s@);
    v
}

/// `String::push`: the string grows by the one character `c` at its end.
#[verifier::external_body]
fn push_char(s: &mut String, c: char)
    ensures
        final(s)@ == old(s)@.push(c),
{
    s.push(c);
}

/// The string made of the given characters, in order.
pub(crate) fn string_of(chars: &Vec<char>) -> (s: String)
    ensures
        s@ == chars@,
{
    let mut s = String::new();
    let mut i: usize = 0;
    while i < chars.len()
        invariant
            i <= chars.len(),
            s@ == chars@.subrange(0, i as int),
        decreases chars.len() - i,
    {
        push_char(&mut s, chars[i]);
        i += 1;
        assert(s@ =~= chars@.subrange(0, i as int));
    }
    assert(s@ =~= chars@);
    s
}

/// Whether `c` is a decimal digit.
pub(crate) fn char_is_digit(c: char) -> (b: bool)
    ensures
        b == is_digit(c),
{
    c >= '0' && c <= '9'
}

/// Whether `c` is white space.
pub(crate) fn char_is_space(c: char) -> (b: bool)
    ensures
        b == is_space(c),
{
    (c >= '\u{9}' && c <= '\u{d}') || c == ' ' || c == '\u{85}' || c == '\u{a0}' || c == '\u{1680}'
        || (c >= '\u{2000}' && c <= '\u{200a}') || c == '\u{2028}' || c == '\u{2029}' || c
        == '\u{202f}' || c == '\u{205f}' || c == '\u{3000}'
}

/// The length of the run of digits that starts at `i`.
pub(crate) fn count_digits(s: &Vec<char>, i: usize) -> (n: usize)
    requires
        i <= s.len(),
    ensures
        n == digits_len(s@, i as int),
        i + n <= s.len(),
{
    let mut j: usize = i;
    while j < s.len() && char_is_digit(s[j])
        invariant
            i <= j <= s.len(),
            digits_len(s@, i as int) == (j - i) + digits_len(s@, j as int),
        decreases s.len() - j,
    {
        j += 1;
    }
    j - i
}

/// The length of the run of white space that starts at `i`.
pub(crate) fn count_spaces(s: &Vec<char>, i: usize) -> (n: usize)
    requires
        i <= s.len(),
    ensures
        n == spaces_len(s@, i as int),
        i + n <= s.len(),
{
    let mut j: usize = i;
    while j < s.len() && char_is_space(s[j])
        invariant
            i <= j <= s.len(),
            spaces_len(s@, i as int) == (j - i) + spaces_len(s@, j as int),
        decreases s.len() - j,
    {
        j += 1;
    }
    j - i
}

/// The number that the `n` digits from index `i` on denote, for up to three
/// digits.
pub(crate) fn read_digits(s: &Vec<char>, i: usize, n: usize) -> (value: u32)
    requires
        i + n <= s.len(),
        n <= 3,
        forall|j: int| i <= j < i + n ==> is_digit(#[trigger] s@[j]),
    ensures
        value == digits_value(s@, i as int, n as nat),
        value <= 999,
{
    let mut value: u32 = 0;
    let mut k: usize = 0;
    while k < n
        invariant
            k <= n <= 3,
            i + n <= s.len(),
            forall|j: int| i <= j < i + n ==> is_digit(#[trigger] s@[j]),
            value == digits_value(s@, i as int, k as nat),
            value <= 999,
        decreases n - k,
    {
        let c = s[i + k];
        assert(is_digit(s@[i + k]));
        proof {
            lemma_digits_value_bound(s@, i as int, k as nat);
            lemma_digits_value_bound(s@, i as int, (k + 1) as nat);
        }
        value = 10 * value + (c as u32 - 48);
        k += 1;
    }
    value
}

/// Whether `s` holds `mark` from index `i` on.
pub(crate) fn holds_at(s: &Vec<char>, i: usize, mark: &Vec<char>) -> (b: bool)
    requires
        i <= s.len(),
    ensures
        b == has_at(s@, i as int, mark@),
{
    if mark.len() > s.len() - i {
        return false;
    }
    let mut k: usize = 0;
    while k < mark.len()
        invariant
            k <= mark.len(),
            i + mark.len() <= s.len(),
            forall|j: int| 0 <= j < k ==> s@[i + j] == mark@[j],
        decreases mark.len() - k,
    {
        if s[i + k] != mark[k] {
            proof {
                let sub = s@.subrange(i as int, i + mark.len());
                assert(sub[k as int] == s@[i + k]);
            }
            return false;
        }
        k += 1;
    }
    assert(s@.subrange(i as int, i + mark.len()) =~= mark@);
    true
}

/// Appends `n` in decimal to `out`.
pub(crate) fn push_decimal(out: &mut Vec<char>, n: u32)
    ensures
        final(out)@ == old(out)@ + decimal_text(n as nat),
    decreases n,
{
    if n >= 10 {
        push_decimal(out, n / 10);
    }
    let d: u8 = (n % 10) as u8;
    out.push((48 + d) as char);
    proof {
        if n >= 10 {
            assert(final(out)@ =~= old(out)@ + decimal_text(n as nat));
        } else {
            assert(final(out)@ =~= old(out)@ + decimal_text(n as nat));
        }
    }
}

/// Appends the characters of `mark` to `out`.
pub(crate) fn push_all(out: &mut Vec<char>, mark: &Vec<char>)
    ensures
        final(out)@ == old(out)@ + mark@,
{
    let mut k: usize = 0;
    while k < mark.len()
        invariant
            k <= mark.len(),
            out@ == old(out)@ + mark@.subrange(0, k as int),
        decreases mark.len() - k,
    {
        out.push(mark[k]);
        k += 1;
        assert(out@ =~= old(out)@ + mark@.subrange(0, k as int));
    }
    assert(mark@.subrange(0, mark@.len() as int) =~= mark@);
}

} // verus!
