//! Exact rational numbers, used for every length that is not a whole
//! number of pixels: scaled draw sizes, letterbox offsets and logical
//! coordinates.
//!
//! A `Rat` is a plain numerator/denominator pair with a positive
//! denominator. Nothing here reduces fractions; equality of values is
//! stated by cross-multiplication (`eq_frac`), which is exact.

use vstd::prelude::*;

verus! {

/// A rational number `num / den` with `den > 0`. Not kept in lowest
/// terms; two `Rat`s denote the same value exactly when `eq_frac` says so.
#[derive(Clone, Copy, Debug)]
pub struct Rat {
    pub num: i128,
    pub den: i128,
}

impl Rat {
    /// Well-formedness: the denominator is positive.
    pub open spec fn wf(self) -> bool {
        self.den > 0
    }

    /// The value of `self` is exactly the fraction `n / d`.
    pub open spec fn eq_frac(self, n: int, d: int) -> bool {
        d > 0 && self.num * d == n * self.den
    }

    /// The value of `self` is a whole number `n`.
    pub open spec fn is_int(self, n: int) -> bool {
        self.eq_frac(n, 1)
    }

    /// Builds the rational `num / den`.
    pub fn new(num: i128, den: i128) -> (r: Rat)
        requires
            den > 0,
        ensures
            r.num == num,
            r.den == den,
            r.wf(),
    {
        Rat { num, den }
    }

    /// Builds the whole number `n`.
    pub fn from_int(n: i128) -> (r: Rat)
        ensures
            r.num == n,
            r.den == 1,
            r.wf(),
            r.is_int(n as int),
    {
        Rat { num: n, den: 1 }
    }
}

} // verus!
