//! Exact fractions, as they arise where a line between grid points meets a
//! grid line.

use vstd::prelude::*;

verus! {

/// A quotient of two integers: the mathematical value of a [`Fraction`].
pub struct Ratio {
    pub num: int,
    pub den: int,
}

impl Ratio {
    /// The ratio `k / 1`.
    pub open spec fn whole(k: int) -> Ratio {
        Ratio { num: k, den: 1 }
    }

    /// For a positive denominator: the value is at least `k`.
    pub open spec fn at_least(self, k: int) -> bool {
        self.num >= k * self.den
    }

    /// For a positive denominator: the value is at most `k`.
    pub open spec fn at_most(self, k: int) -> bool {
        self.num <= k * self.den
    }

    /// For a positive denominator: the value equals `k`.
    pub open spec fn is_whole(self, k: int) -> bool {
        self.num == k * self.den
    }

    /// For a positive denominator: `lo <= value <= hi`.
    pub open spec fn within(self, lo: int, hi: int) -> bool {
        self.at_least(lo) && self.at_most(hi)
    }
}

/// A fraction with a positive denominator. It is kept as computed and is in
/// general not in lowest terms; `==` compares numerators and denominators,
/// so that `1 / 2` and `2 / 4` are different fractions of one value.
#[derive(Clone, Copy, Debug, PartialEq, Eq, Structural)]
pub struct Fraction {
    num: i128,
    den: i64,
}

impl View for Fraction {
    type V = Ratio;

    closed spec fn view(&self) -> Ratio {
        Ratio { num: self.num as int, den: self.den as int }
    }
}

impl Fraction {
    #[verifier::type_invariant]
    spec fn positive_denominator(self) -> bool {
        self.den > 0
    }

    /// The fraction `num / den`; `None` unless `den` is positive.
    pub fn new(num: i128, den: i64) -> (r: Option<Fraction>)
        ensures
            r.is_some() <==> den > 0,
            r matches Some(f) ==> f@ == (Ratio { num: num as int, den: den as int }),
    {
        if den > 0 {
            Some(Fraction { num, den })
        } else {
            None
        }
    }

    /// The fraction `num / den` for a denominator known to be positive.
    pub(crate) fn ratio(num: i128, den: i64) -> (f: Fraction)
        requires
            den > 0,
        ensures
            f@ == (Ratio { num: num as int, den: den as int }),
    {
        Fraction { num, den }
    }

    /// The whole number `k` as a fraction.
    pub fn whole(k: i32) -> (f: Fraction)
        ensures
            f@ == Ratio::whole(k as int),
    {
        Fraction { num: k as i128, den: 1 }
    }

    /// The numerator.
    pub fn numerator(&self) -> (n: i128)
        ensures
            n == self@.num,
    {
        self.num
    }

    /// The denominator, which is positive.
    pub fn denominator(&self) -> (d: i64)
        ensures
            d == self@.den,
            d > 0,
    {
        proof {
            use_type_invariant(self);
        }
        self.den
    }

    /// Whether the value is at least `k`.
    pub fn at_least(&self, k: i32) -> (b: bool)
        ensures
            b == self@.at_least(k as int),
    {
        proof {
            use_type_invariant(self);
            lemma_scaled_bound(k as int, self.den as int);
        }
        self.num >= (k as i128) * (self.den as i128)
    }

    /// Whether the value is at most `k`.
    pub fn at_most(&self, k: i32) -> (b: bool)
        ensures
            b == self@.at_most(k as int),
    {
        proof {
            use_type_invariant(self);
            lemma_scaled_bound(k as int, self.den as int);
        }
        self.num <= (k as i128) * (self.den as i128)
    }

    /// Whether the value lies in the closed interval from `lo` to `hi`.
    pub fn within(&self, lo: i32, hi: i32) -> (b: bool)
        ensures
            b == self@.within(lo as int, hi as int),
    {
        self.at_least(lo) && self.at_most(hi)
    }
}

/// A 32-bit number times a positive 64-bit number fits in 128 bits.
proof fn lemma_scaled_bound(k: int, d: int)
    by (nonlinear_arith)
    requires
        -0x8000_0000 <= k < 0x8000_0000,
        0 < d < 0x8000_0000_0000_0000,
    ensures
        -0x4000_0000_0000_0000_0000_0000 <= k * d <= 0x4000_0000_0000_0000_0000_0000,
{
}

} // verus!
