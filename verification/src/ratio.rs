//! Exact fractions, in which averages and proportions are kept.

use vstd::prelude::*;

verus! {

/// The fraction `num / den`, kept as it was formed and never reduced.
///
/// Two ratios are equal when their numerators and their denominators are
/// equal, so `1/2` and `2/4` are different ratios of the same value.
#[derive(Debug, Clone, Copy, PartialEq, Eq, Structural)]
pub struct Ratio {
    pub num: i128,
    pub den: u64,
}

impl Ratio {
    /// Whether the ratio has a value, that is a denominator other than zero.
    pub open spec fn is_defined(self) -> bool {
        self.den > 0
    }

    /// The ratio `0/1`.
    pub fn zero() -> (r: Ratio)
        ensures
            r == (Ratio { num: 0, den: 1 }),
    {
        Ratio { num: 0, den: 1 }
    }

    /// The ratio `1/1`.
    pub fn one() -> (r: Ratio)
        ensures
            r == (Ratio { num: 1, den: 1 }),
    {
        Ratio { num: 1, den: 1 }
    }
}

} // verus!
