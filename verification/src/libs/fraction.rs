//! Exact non-negative fractions: the number type of the components that a
//! conversion leaves unrounded.

use crate::libs::arith::{lemma_round_div_range, round_div, round_ratio};
use vstd::arithmetic::div_mod::{lemma_div_pos_is_pos, lemma_fundamental_div_mod, lemma_mod_bound};
use vstd::prelude::*;

verus! {

/// A fraction as mathematics sees it: a numerator over a denominator.
pub struct Ratio {
    pub num: int,
    pub den: int,
}

impl Ratio {
    /// The fraction denotes a non-negative number.
    pub open spec fn wf(self) -> bool {
        0 <= self.num && 0 < self.den
    }

    /// The whole number `n`.
    pub open spec fn whole(n: int) -> Ratio {
        Ratio { num: n, den: 1 }
    }

    /// The fraction is zero.
    pub open spec fn is_zero(self) -> bool {
        self.num == 0
    }

    /// The fraction is not larger than the whole number `n`.
    pub open spec fn at_most(self, n: int) -> bool {
        self.num <= n * self.den
    }

    /// The fraction is smaller than the whole number `n`.
    pub open spec fn below(self, n: int) -> bool {
        self.num < n * self.den
    }

    /// What is left of the fraction when every whole `turn` in it is taken
    /// away: the fraction modulo `turn`. A `turn` of 0 takes nothing away.
    pub open spec fn wrapped(self, turn: int) -> Ratio {
        if turn > 0 {
            Ratio { num: self.num % (turn * self.den), den: self.den }
        } else {
            self
        }
    }

    /// The nearest whole number, a tie going up.
    pub open spec fn rounded(self) -> int {
        round_div(self.num, self.den)
    }

    /// The fraction itself where it is at most `n`, else `n`.
    pub open spec fn capped(self, n: int) -> Ratio {
        if self.at_most(n) {
            self
        } else {
            Ratio::whole(n)
        }
    }
}

/// Rounding a fraction that is at most `n` gives at most `n`.
pub proof fn lemma_rounded_at_most(q: Ratio, n: int)
    requires
        q.wf(),
        q.at_most(n),
    ensures
        0 <= q.rounded() <= n,
{
    lemma_round_div_range(q.num, q.den, 0, n);
}

/// What is left after taking the whole turns away is a fraction below one
/// turn.
pub proof fn lemma_wrapped_below(q: Ratio, turn: int)
    requires
        q.wf(),
        turn > 0,
    ensures
        q.wrapped(turn).wf(),
        q.wrapped(turn).below(turn),
        q.wrapped(turn).num <= q.num,
{
    let m = turn * q.den;
    assert(m > 0) by (nonlinear_arith)
        requires
            m == turn * q.den,
            turn > 0,
            q.den > 0,
    ;
    lemma_mod_bound(q.num, m);
    lemma_fundamental_div_mod(q.num, m);
    assert(m * (q.num / m) >= 0) by (nonlinear_arith)
        requires
            m > 0,
            q.num / m >= 0,
    ;
    lemma_div_pos_is_pos(q.num, m);
}

/// Of a whole number, what is left after taking the whole turns away is the
/// whole number modulo the turn.
pub proof fn lemma_wrapped_whole(n: int, turn: int)
    requires
        turn > 0,
    ensures
        Ratio::whole(n).wrapped(turn) == Ratio::whole(n % turn),
{
    assert(turn * 1 == turn);
}

/// An exact non-negative fraction with 32-bit numerator and denominator.
/// The denominator is never zero.
#[derive(Clone, Copy, Debug, PartialEq, Eq)]
pub struct Fraction {
    num: u32,
    den: u32,
}

impl View for Fraction {
    type V = Ratio;

    closed spec fn view(&self) -> Ratio {
        Ratio { num: self.num as int, den: self.den as int }
    }
}

impl Fraction {
    #[verifier::type_invariant]
    pub open spec fn inv(self) -> bool {
        0 <= self@.num <= u32::MAX && 0 < self@.den <= u32::MAX
    }

    /// The fraction `num / den`, unless `den` is zero.
    pub fn new(num: u32, den: u32) -> (f: Option<Fraction>)
        ensures
            f is Some <==> den != 0,
            f is Some ==> f->0@ == (Ratio { num: num as int, den: den as int }),
    {
        if den == 0 {
            None
        } else {
            Some(Fraction { num, den })
        }
    }

    /// The fraction `num / den` for a denominator known not to be zero.
    pub(crate) fn ratio(num: u32, den: u32) -> (f: Fraction)
        requires
            den != 0,
        ensures
            f@ == (Ratio { num: num as int, den: den as int }),
    {
        Fraction { num, den }
    }

    /// The whole number `n` as a fraction.
    pub fn from_integer(n: u32) -> (f: Fraction)
        ensures
            f@ == Ratio::whole(n as int),
    {
        Fraction { num: n, den: 1 }
    }

    pub fn numerator(&self) -> (n: u32)
        ensures
            n == self@.num,
    {
        self.num
    }

    pub fn denominator(&self) -> (n: u32)
        ensures
            n == self@.den,
            n > 0,
    {
        proof {
            use_type_invariant(self);
        }
        self.den
    }

    /// Whether the fraction is at most the whole number `n`.
    pub fn at_most(&self, n: u32) -> (b: bool)
        ensures
            b == self@.at_most(n as int),
    {
        proof {
            assert(n * self.den <= u64::MAX) by (nonlinear_arith)
                requires
                    n <= u32::MAX,
                    self.den <= u32::MAX,
            ;
        }
        self.num as u64 <= n as u64 * self.den as u64
    }

    /// The fraction itself where it is at most `n`, else `n`.
    pub fn capped(&self, n: u32) -> (f: Fraction)
        ensures
            f@ == self@.capped(n as int),
    {
        if self.at_most(n) {
            *self
        } else {
            Fraction::from_integer(n)
        }
    }

    /// What is left of the fraction when every whole `turn` in it is taken
    /// away.
    pub fn wrapped(&self, turn: u32) -> (f: Fraction)
        ensures
            f@ == self@.wrapped(turn as int),
            turn > 0 && self@.den == 1 ==> f@ == Ratio::whole(self@.num % (turn as int)),
            turn > 0 ==> f@.below(turn as int),
    {
        proof {
            use_type_invariant(self);
            if turn > 0 && self@.den == 1 {
                lemma_wrapped_whole(self@.num, turn as int);
            }
        }
        if turn == 0 {
            return *self;
        }
        assert(0 < turn * self.den <= 0xffff_ffff * 0xffff_ffff) by (nonlinear_arith)
            requires
                0 < turn <= 0xffff_ffff,
                0 < self.den <= 0xffff_ffff,
        ;
        let m: u64 = turn as u64 * self.den as u64;
        let rest: u64 = self.num as u64 % m;
        proof {
            lemma_wrapped_below(self@, turn as int);
        }
        Fraction { num: rest as u32, den: self.den }
    }

    /// The nearest whole number, a tie going up.
    pub fn round(&self) -> (r: u32)
        ensures
            r == self@.rounded(),
    {
        proof {
            use_type_invariant(self);
        }
        let r = round_ratio(self.num as u128, self.den as u128);
        r as u32
    }
}

} // verus!
