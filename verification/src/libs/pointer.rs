//! From the pointer's place on a widget to a component of a colour: how far
//! along the widget the pointer stands, or how far it was dragged, as a share
//! of the component's range.

use crate::libs::arith::{max_int, min_int, round_div, round_ratio};
use vstd::prelude::*;

verus! {

/// The integer nearest to `n / d`, for `d > 0`; a tie goes away from zero.
pub open spec fn round_away(n: int, d: int) -> int {
    if n >= 0 {
        round_div(n, d)
    } else {
        -round_div(-n, d)
    }
}

/// By how much of a range from 0 to `max` a step of `offset` along a widget
/// of length `length` moves, rounded. A widget of no length has no steps:
/// see `share_at` and `share_moved`.
pub open spec fn step_of(offset: int, length: int, max: int) -> int
    recommends
        length != 0,
{
    if length > 0 {
        round_away(offset * max, length)
    } else {
        round_away(-(offset * max), -length)
    }
}

/// The component, from 0 to `max`, that a pointer at `offset` from the start
/// of a widget of length `length` picks: the same share of `max` as `offset`
/// is of `length`, rounded, and `max` or 0 where that lies beyond them. On a
/// widget of no length, a pointer past its start picks `max`, and any
/// other picks 0.
pub open spec fn share_at(offset: int, length: int, max: int) -> int {
    if length == 0 {
        if offset > 0 {
            max
        } else {
            0
        }
    } else {
        max_int(0, min_int(step_of(offset, length, max), max))
    }
}

/// The component, from 0 to `max`, that a drag by `diff` along a widget of
/// length `length` makes of the component `start`: `start` moved by the
/// same share of `max` as `diff` is of `length`, rounded, and `max` or 0
/// where that lies beyond them. On a widget of no length, a drag forwards
/// gives `max`, and any other gives 0.
pub open spec fn share_moved(start: int, diff: int, length: int, max: int) -> int {
    if length == 0 {
        if diff > 0 {
            max
        } else {
            0
        }
    } else {
        max_int(0, min_int(start + step_of(diff, length, max), max))
    }
}

/// The component, from 0 to `max`, that a pointer picks on a widget whose
/// range runs against the direction in which places are counted, as the
/// value does on the pallet, where places are counted downwards: what
/// `share_at` leaves of `max`.
pub open spec fn share_left_at(offset: int, length: int, max: int) -> int {
    max - share_at(offset, length, max)
}

/// The component, from 0 to `max`, that a drag makes of the component
/// `start` on such a widget: a drag by `diff` moves it as a drag by `-diff`
/// does in `share_moved`.
pub open spec fn share_moved_back(start: int, diff: int, length: int, max: int) -> int {
    share_moved(start, -diff, length, max)
}

/// Computes `step_of`.
fn step(offset: i64, length: i32, max: u32) -> (r: i128)
    requires
        length != 0,
        -0x1_0000_0000 <= offset <= 0x1_0000_0000,
    ensures
        r == step_of(offset as int, length as int, max as int),
        -0x1_0000_0000_0000_0000 <= r <= 0x1_0000_0000_0000_0000,
{
    assert(-0x1_0000_0000_0000_0000 <= offset * max <= 0x1_0000_0000_0000_0000)
        by (nonlinear_arith)
        requires
            -0x1_0000_0000 <= offset <= 0x1_0000_0000,
            0 <= max <= 0xffff_ffff,
    ;
    let product: i128 = offset as i128 * max as i128;
    let (n, d): (i128, i128) = if length > 0 {
        (product, length as i128)
    } else {
        (-product, -(length as i128))
    };
    if n >= 0 {
        round_ratio(n as u128, d as u128) as i128
    } else {
        -(round_ratio((-n) as u128, d as u128) as i128)
    }
}

/// The component that a pointer at the place `place` picks on a widget
/// that starts at the place `left` and has the length `length`.
pub fn pointer_share(left: i32, place: i32, length: i32, max: u32) -> (share: u32)
    ensures
        share == share_at(place - left, length as int, max as int),
        share <= max,
{
    let offset: i64 = place as i64 - left as i64;
    if length == 0 {
        if offset > 0 {
            max
        } else {
            0
        }
    } else {
        let r = step(offset, length, max);
        if r <= 0 {
            0
        } else if r >= max as i128 {
            max
        } else {
            r as u32
        }
    }
}

/// The component that a drag from the place `from` to the place `to` along
/// a widget of length `length` makes of the component `start`.
pub fn dragged_share(start: u32, from: i32, to: i32, length: i32, max: u32) -> (share: u32)
    ensures
        share == share_moved(start as int, to - from, length as int, max as int),
        share <= max,
{
    let diff: i64 = to as i64 - from as i64;
    if length == 0 {
        if diff > 0 {
            max
        } else {
            0
        }
    } else {
        let r = start as i128 + step(diff, length, max);
        if r <= 0 {
            0
        } else if r >= max as i128 {
            max
        } else {
            r as u32
        }
    }
}

/// The component that a pointer at the place `place` picks on a widget
/// that starts at the place `top` and has the length `length`, where the
/// range runs against the places.
pub fn pointer_share_left(top: i32, place: i32, length: i32, max: u32) -> (share: u32)
    ensures
        share == share_left_at(place - top, length as int, max as int),
        share <= max,
{
    max - pointer_share(top, place, length, max)
}

/// The component that a drag from the place `from` to the place `to` makes
/// of the component `start` where the range runs against the places.
pub fn dragged_share_back(start: u32, from: i32, to: i32, length: i32, max: u32) -> (share: u32)
    ensures
        share == share_moved_back(start as int, to - from, length as int, max as int),
        share <= max,
{
    dragged_share(start, to, from, length, max)
}

} // verus!
