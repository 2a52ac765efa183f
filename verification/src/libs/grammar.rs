//! The shape that the decimal colour formats share: numbers of one to three
//! digits, each followed by its mark, with optional white space before every
//! number but the first.

use crate::libs::text::{
    count_digits, count_spaces, decimal_text, digits_len, digits_value, has_at, holds_at,
    is_digit, lemma_decimal_text, lemma_digits_len_bounds, lemma_digits_len_exact,
    lemma_digits_value_window, lemma_single_space, lemma_spaces_len_bounds, read_digits,
    is_space, spaces_len,
};
use vstd::prelude::*;

verus! {

/// A number of one to three digits that starts at index `i` of `s` and is
/// followed by `mark`: its value, and the index behind the mark. A run of
/// four or more digits is no number.
pub open spec fn field_at(s: Seq<char>, i: int, mark: Seq<char>) -> Option<(nat, int)> {
    let n = digits_len(s, i);
    if 0 <= i && 1 <= n <= 3 && has_at(s, i + n, mark) {
        Some((digits_value(s, i, n), i + n + mark.len()))
    } else {
        None
    }
}

/// One number for each of `marks`, from index `i` of `s` on: the values, and
/// the index behind the last mark. White space may stand between a mark and
/// the number that follows it.
pub open spec fn fields_at(s: Seq<char>, i: int, marks: Seq<Seq<char>>) -> Option<(Seq<nat>, int)>
    decreases marks.len(),
{
    if marks.len() == 0 {
        Some((Seq::empty(), i))
    } else {
        match field_at(s, i, marks[0]) {
            None => None,
            Some((value, after)) => {
                let rest = marks.drop_first();
                let next = if rest.len() == 0 {
                    after
                } else {
                    after + spaces_len(s, after)
                };
                match fields_at(s, next, rest) {
                    None => None,
                    Some((values, end)) => Some((seq![value] + values, end)),
                }
            },
        }
    }
}

/// The numbers of `s` where the whole of `s` is one number for each of
/// `marks`.
pub open spec fn whole_match(s: Seq<char>, marks: Seq<Seq<char>>) -> Option<Seq<nat>> {
    match fields_at(s, 0, marks) {
        Some((values, end)) => if end == s.len() {
            Some(values)
        } else {
            None
        },
        None => None,
    }
}

/// The leftmost place at or behind `from` where `s` holds one number for each
/// of `marks`: the values, and the index behind the last mark.
pub open spec fn first_match(s: Seq<char>, from: int, marks: Seq<Seq<char>>) -> Option<
    (Seq<nat>, int),
>
    decreases s.len() - from,
{
    if from < 0 || from >= s.len() {
        None
    } else {
        match fields_at(s, from, marks) {
            Some(found) => Some(found),
            None => first_match(s, from + 1, marks),
        }
    }
}

/// The numbers of the last of the matches that a search from `from` finds
/// when it goes on behind each match for the next one.
pub open spec fn last_match(s: Seq<char>, from: int, marks: Seq<Seq<char>>) -> Option<Seq<nat>>
    decreases s.len() - from,
{
    match first_match(s, from, marks) {
        None => None,
        Some((values, end)) => {
            if from < end <= s.len() {
                match last_match(s, end, marks) {
                    Some(later) => Some(later),
                    None => Some(values),
                }
            } else {
                Some(values)
            }
        },
    }
}

/// The text that holds each of `values` in decimal, followed by its mark,
/// with one space before every number but the first.
pub open spec fn join_fields(values: Seq<nat>, marks: Seq<Seq<char>>) -> Seq<char>
    decreases marks.len(),
{
    if marks.len() == 0 {
        Seq::empty()
    } else if marks.len() == 1 {
        decimal_text(values[0]) + marks[0]
    } else {
        decimal_text(values[0]) + marks[0] + seq![' '] + join_fields(
            values.drop_first(),
            marks.drop_first(),
        )
    }
}

/// The marks tell where a number ends: none begins with a digit, and only
/// the last may be empty.
pub open spec fn marks_delimit(marks: Seq<Seq<char>>) -> bool {
    forall|k: int|
        0 <= k < marks.len() ==> {
            &&& (#[trigger] marks[k]).len() > 0 ==> !is_digit(marks[k][0])
            &&& k + 1 < marks.len() ==> marks[k].len() > 0
        }
}

/// Reading what `join_fields` wrote gives the numbers back.
pub proof fn lemma_fields_of_join(s: Seq<char>, i: int, values: Seq<nat>, marks: Seq<Seq<char>>)
    requires
        0 <= i <= s.len(),
        values.len() == marks.len(),
        forall|k: int| 0 <= k < values.len() ==> #[trigger] values[k] <= 999,
        marks_delimit(marks),
        s.subrange(i, s.len() as int) == join_fields(values, marks),
    ensures
        fields_at(s, i, marks) == Some((values, s.len() as int)),
    decreases marks.len(),
{
    let tail = s.subrange(i, s.len() as int);
    if marks.len() == 0 {
        assert(tail.len() == 0);
        assert(values =~= Seq::<nat>::empty());
    } else {
        let d = decimal_text(values[0]);
        let m = marks[0];
        let k = d.len();
        lemma_decimal_text(values[0]);
        assert(marks[0].len() > 0 ==> !is_digit(marks[0][0]));
        let rest_marks = marks.drop_first();
        let rest_values = values.drop_first();
        let rest = if marks.len() == 1 {
            Seq::<char>::empty()
        } else {
            seq![' '] + join_fields(rest_values, rest_marks)
        };
        assert(tail =~= d + m + rest);
        assert(tail.len() == k + m.len() + rest.len());
        assert forall|j: int| i <= j < i + k implies is_digit(#[trigger] s[j]) by {
            assert(s[j] == tail[j - i]);
            assert(tail[j - i] == d[j - i]);
        }
        if i + k < s.len() {
            assert(s[i + k] == tail[k as int]);
            if m.len() > 0 {
                assert(tail[k as int] == m[0]);
            } else {
                assert(marks.len() > 1);
                assert(marks[0].len() > 0);
            }
        }
        lemma_digits_len_exact(s, i, k);
        assert(s.subrange(i, i + k) =~= d);
        lemma_digits_value_window(s, i, k, d);
        assert(s.subrange(i + k, i + k + m.len()) =~= m) by {
            assert forall|j: int| 0 <= j < m.len() implies s.subrange(i + k, i + k + m.len())[j]
                == m[j] by {
                assert(s[i + k + j] == tail[k + j]);
                assert((d + m)[k + j] == m[j]);
            }
        }
        let after = i + k + m.len();
        assert(field_at(s, i, m) == Some((values[0], after)));
        assert(marks_delimit(rest_marks)) by {
            assert forall|j: int| 0 <= j < rest_marks.len() implies {
                &&& (#[trigger] rest_marks[j]).len() > 0 ==> !is_digit(rest_marks[j][0])
                &&& j + 1 < rest_marks.len() ==> rest_marks[j].len() > 0
            } by {
                assert(rest_marks[j] == marks[j + 1]);
            }
        }
        assert forall|j: int| 0 <= j < rest_values.len() implies #[trigger] rest_values[j]
            <= 999 by {
            assert(rest_values[j] == values[j + 1]);
        }
        if marks.len() == 1 {
            assert(rest_marks.len() == 0);
            assert(after == s.len());
            assert(fields_at(s, after, rest_marks) == Some((Seq::<nat>::empty(), after)));
            assert(seq![values[0]] + Seq::<nat>::empty() =~= values);
        } else {
            let next_text = join_fields(rest_values, rest_marks);
            let next_d = decimal_text(rest_values[0]);
            lemma_decimal_text(rest_values[0]);
            assert(next_text.len() >= next_d.len() && next_text[0] == next_d[0]) by {
                if rest_marks.len() == 1 {
                    assert(next_text == next_d + rest_marks[0]);
                } else {
                    assert(next_text == next_d + rest_marks[0] + seq![' '] + join_fields(
                        rest_values.drop_first(),
                        rest_marks.drop_first(),
                    ));
                }
            }
            assert(s[after] == tail[after - i]);
            assert(tail[after - i] == ' ');
            assert(s[after + 1] == tail[after + 1 - i]);
            assert(tail[after + 1 - i] == next_text[0]);
            lemma_single_space(s, after);
            assert(s.subrange(after + 1, s.len() as int) =~= next_text) by {
                let head = d + m + seq![' '];
                assert(tail =~= head + next_text);
                assert(head.len() == after + 1 - i);
                assert forall|j: int| 0 <= j < next_text.len() implies s.subrange(
                    after + 1,
                    s.len() as int,
                )[j] == next_text[j] by {
                    assert(s[after + 1 + j] == tail[after + 1 - i + j]);
                    assert((head + next_text)[head.len() + j] == next_text[j]);
                }
            }
            lemma_fields_of_join(s, after + 1, rest_values, rest_marks);
            assert(seq![values[0]] + rest_values =~= values);
        }
    }
}

/// Where the whole of a text is one match, the search finds that match and
/// no other.
pub proof fn lemma_last_of_whole(s: Seq<char>, values: Seq<nat>, marks: Seq<Seq<char>>)
    requires
        s.len() > 0,
        fields_at(s, 0, marks) == Some((values, s.len() as int)),
    ensures
        last_match(s, 0, marks) == Some(values),
{
    assert(first_match(s, 0, marks) == Some((values, s.len() as int)));
    assert(first_match(s, s.len() as int, marks) is None);
    assert(last_match(s, s.len() as int, marks) is None);
}

/// `c` is a character of one of `marks`.
pub open spec fn in_marks(marks: Seq<Seq<char>>, c: char) -> bool {
    exists|k: int, m: int|
        0 <= k < marks.len() && 0 <= m < marks[k].len() && #[trigger] marks[k][m] == c
}

/// What `fields_at` accepts is made of nothing but digits from `0` to `9`,
/// white space and the characters of the marks, from its start to its end;
/// it ends inside the text and behind its start.
pub proof fn lemma_fields_alphabet(s: Seq<char>, i: int, marks: Seq<Seq<char>>)
    requires
        0 <= i <= s.len(),
        fields_at(s, i, marks) is Some,
    ensures
        match fields_at(s, i, marks) {
            Some((values, end)) => {
                &&& i <= end <= s.len()
                &&& marks.len() > 0 ==> i < end
                &&& values.len() == marks.len()
                &&& forall|j: int|
                    i <= j < end ==> is_digit(#[trigger] s[j]) || is_space(s[j]) || in_marks(
                        marks,
                        s[j],
                    )
            },
            None => true,
        },
    decreases marks.len(),
{
    if marks.len() > 0 {
        let n = digits_len(s, i);
        let mark = marks[0];
        let after = i + n + mark.len();
        let rest = marks.drop_first();
        let next = if rest.len() == 0 {
            after
        } else {
            after + spaces_len(s, after)
        };
        lemma_digits_len_bounds(s, i);
        lemma_spaces_len_bounds(s, after);
        lemma_fields_alphabet(s, next, rest);
        let end = match fields_at(s, next, rest) {
            Some((values, end)) => end,
            None => next,
        };
        assert forall|j: int| i <= j < end implies is_digit(#[trigger] s[j]) || is_space(s[j])
            || in_marks(marks, s[j]) by {
            if j < i + n {
            } else if j < after {
                let m = j - (i + n);
                assert(s.subrange(i + n, after)[m] == s[j]);
                assert(marks[0][m] == s[j]);
            } else if j < next {
            } else {
                if in_marks(rest, s[j]) {
                    let (k, m) = choose|k: int, m: int|
                        0 <= k < rest.len() && 0 <= m < rest[k].len() && #[trigger] rest[k][m]
                            == s[j];
                    assert(marks[k + 1][m] == s[j]);
                }
            }
        }
    }
}

/// The numbers of the match at the place `i` of `s`, if there is one.
pub open spec fn match_at(s: Seq<char>, i: int, marks: Seq<Seq<char>>) -> Option<Seq<nat>> {
    match fields_at(s, i, marks) {
        Some((values, end)) => Some(values),
        None => None,
    }
}

/// What a search finds is a match at some place of the text, at or behind
/// the place where the search began.
pub proof fn lemma_last_match_is_match(s: Seq<char>, from: int, marks: Seq<Seq<char>>)
    requires
        0 <= from,
        last_match(s, from, marks) is Some,
    ensures
        exists|i: int|
            from <= i < s.len() && #[trigger] match_at(s, i, marks) == last_match(s, from, marks),
    decreases s.len() - from,
{
    lemma_first_match_is_match(s, from, marks);
    let first = choose|i: int|
        from <= i < s.len() && (#[trigger] fields_at(s, i, marks)) == first_match(s, from, marks);
    match first_match(s, from, marks) {
        Some((values, end)) => {
            if from < end <= s.len() && last_match(s, end, marks) is Some {
                lemma_last_match_is_match(s, end, marks);
                let later = choose|i: int|
                    end <= i < s.len() && #[trigger] match_at(s, i, marks) == last_match(
                        s,
                        end,
                        marks,
                    );
                assert(match_at(s, later, marks) == last_match(s, from, marks));
            } else {
                assert(match_at(s, first, marks) == last_match(s, from, marks));
            }
        },
        None => {},
    }
}

/// What the first step of a search finds is a match at some place of the
/// text, at or behind the place where the search began.
pub proof fn lemma_first_match_is_match(s: Seq<char>, from: int, marks: Seq<Seq<char>>)
    requires
        0 <= from,
        first_match(s, from, marks) is Some,
    ensures
        exists|i: int|
            from <= i < s.len() && (#[trigger] fields_at(s, i, marks)) == first_match(
                s,
                from,
                marks,
            ),
    decreases s.len() - from,
{
    if fields_at(s, from, marks) is None {
        lemma_first_match_is_match(s, from + 1, marks);
    }
}

/// A number of one to three digits at `i`, followed by `mark`.
pub(crate) fn scan_field(s: &Vec<char>, i: usize, mark: &Vec<char>) -> (r: Option<(u32, usize)>)
    requires
        i <= s.len(),
    ensures
        match r {
            Some((value, next)) => field_at(s@, i as int, mark@) == Some(
                (value as nat, next as int),
            ) && value <= 999 && i < next <= s.len(),
            None => field_at(s@, i as int, mark@) is None,
        },
{
    let n = count_digits(s, i);
    if n < 1 || n > 3 {
        return None;
    }
    if !holds_at(s, i + n, mark) {
        return None;
    }
    proof {
        lemma_digits_len_bounds(s@, i as int);
    }
    let value = read_digits(s, i, n);
    Some((value, i + n + mark.len()))
}

/// Three numbers from `i` on, followed by the marks `m0`, `m1` and `m2`.
pub(crate) fn scan_three(s: &Vec<char>, i: usize, m0: &Vec<char>, m1: &Vec<char>, m2: &Vec<char>) -> (r:
    Option<((u32, u32, u32), usize)>)
    requires
        i <= s.len(),
    ensures
        match r {
            Some(((a, b, c), end)) => fields_at(s@, i as int, seq![m0@, m1@, m2@]) == Some(
                (seq![a as nat, b as nat, c as nat], end as int),
            ) && a <= 999 && b <= 999 && c <= 999 && i < end <= s.len(),
            None => fields_at(s@, i as int, seq![m0@, m1@, m2@]) is None,
        },
{
    let ghost marks = seq![m0@, m1@, m2@];
    let ghost rest1 = seq![m1@, m2@];
    let ghost rest2 = seq![m2@];
    proof {
        reveal_with_fuel(fields_at, 4);
        assert(marks.drop_first() =~= rest1);
        assert(rest1.drop_first() =~= rest2);
        assert(rest2.drop_first() =~= Seq::<Seq<char>>::empty());
    }
    let (a, after_a) = match scan_field(s, i, m0) {
        Some(found) => found,
        None => {
            return None;
        },
    };
    let start_b = after_a + count_spaces(s, after_a);
    let (b, after_b) = match scan_field(s, start_b, m1) {
        Some(found) => found,
        None => {
            return None;
        },
    };
    let start_c = after_b + count_spaces(s, after_b);
    let (c, end) = match scan_field(s, start_c, m2) {
        Some(found) => found,
        None => {
            return None;
        },
    };
    proof {
        assert(seq![c as nat] + Seq::<nat>::empty() =~= seq![c as nat]);
        assert(seq![b as nat] + seq![c as nat] =~= seq![b as nat, c as nat]);
        assert(seq![a as nat] + seq![b as nat, c as nat] =~= seq![a as nat, b as nat, c as nat]);
    }
    Some(((a, b, c), end))
}

/// The three numbers of the last match that a search through the whole of `s`
/// finds, each match followed by the marks `m0`, `m1` and `m2`.
pub(crate) fn find_last_three(s: &Vec<char>, m0: &Vec<char>, m1: &Vec<char>, m2: &Vec<char>) -> (r:
    Option<(u32, u32, u32)>)
    ensures
        match r {
            Some((a, b, c)) => last_match(s@, 0, seq![m0@, m1@, m2@]) == Some(
                seq![a as nat, b as nat, c as nat],
            ) && a <= 999 && b <= 999 && c <= 999,
            None => last_match(s@, 0, seq![m0@, m1@, m2@]) is None,
        },
{
    let ghost marks = seq![m0@, m1@, m2@];
    let mut best: Option<(u32, u32, u32)> = None;
    let mut from: usize = 0;
    let mut i: usize = 0;
    while i < s.len()
        invariant
            from <= i <= s.len(),
            marks == seq![m0@, m1@, m2@],
            first_match(s@, from as int, marks) == first_match(s@, i as int, marks),
            match best {
                Some((a, b, c)) => a <= 999 && b <= 999 && c <= 999,
                None => true,
            },
            last_match(s@, 0, marks) == match last_match(s@, from as int, marks) {
                Some(later) => Some(later),
                None => match best {
                    Some((a, b, c)) => Some(seq![a as nat, b as nat, c as nat]),
                    None => None,
                },
            },
        decreases s.len() - i,
    {
        match scan_three(s, i, m0, m1, m2) {
            Some((values, end)) => {
                best = Some(values);
                from = end;
                i = end;
            },
            None => {
                i += 1;
            },
        }
    }
    best
}

} // verus!
