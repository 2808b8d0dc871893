use vstd::prelude::*;

verus! {

/// Scores, weights and thresholds are fractions counted in millionths:
/// `SCALE` stands for `1.0`.
pub const SCALE: i64 = 1_000_000;

/// A fractional number as it arrives from a caller, counted in millionths, or one of the
/// values that have no finite reading.
#[derive(Clone, Copy, Debug, PartialEq, Eq, Structural)]
pub enum Fraction {
    Finite(i64),
    /// Not a number: it compares neither below, equal to, nor above anything.
    NaN,
    /// Positive infinity: above every finite value.
    PosInf,
    /// Negative infinity: below every finite value.
    NegInf,
}

impl Fraction {
    pub open spec fn finite_spec(&self) -> bool {
        self is Finite
    }

    /// Whether the value is a finite number.
    #[verifier::when_used_as_spec(finite_spec)]
    pub fn is_finite(&self) -> (r: bool)
        ensures
            r == self.finite_spec(),
    {
        match self {
            Fraction::Finite(_) => true,
            _ => false,
        }
    }

    /// Whether `self <= x` holds, compared as floating-point numbers are: false for NaN.
    pub open spec fn at_most(self, x: int) -> bool {
        match self {
            Fraction::Finite(v) => v <= x,
            Fraction::NaN => false,
            Fraction::PosInf => false,
            Fraction::NegInf => true,
        }
    }

    /// Whether `self > x` holds, compared as floating-point numbers are: false for NaN.
    pub open spec fn above(self, x: int) -> bool {
        match self {
            Fraction::Finite(v) => v > x,
            Fraction::NaN => false,
            Fraction::PosInf => true,
            Fraction::NegInf => false,
        }
    }

    /// Whether `self <= x` holds, compared as floating-point numbers are.
    pub fn is_at_most(&self, x: i64) -> (r: bool)
        ensures
            r == self.at_most(x as int),
    {
        match self {
            Fraction::Finite(v) => *v <= x,
            Fraction::NaN => false,
            Fraction::PosInf => false,
            Fraction::NegInf => true,
        }
    }

    /// Whether `self > x` holds, compared as floating-point numbers are.
    pub fn is_above(&self, x: i64) -> (r: bool)
        ensures
            r == self.above(x as int),
    {
        match self {
            Fraction::Finite(v) => *v > x,
            Fraction::NaN => false,
            Fraction::PosInf => true,
            Fraction::NegInf => false,
        }
    }

    /// Whether the value is finite and lies in `[0.0, 1.0]`.
    pub open spec fn in_unit_range(self) -> bool {
        self matches Fraction::Finite(v) && 0 <= v <= SCALE
    }

    /// Whether the value is finite and not negative.
    pub open spec fn non_negative(self) -> bool {
        self matches Fraction::Finite(v) && 0 <= v
    }
}

/// `v` clamped to `[0.0, 1.0]`.
pub open spec fn clamp_unit(v: int) -> int {
    if v < 0 {
        0
    } else if v > SCALE {
        SCALE as int
    } else {
        v
    }
}

/// `v` clamped to `[0.0, 1.0]`.
pub fn clamp_to_unit(v: i64) -> (r: i64)
    ensures
        r == clamp_unit(v as int),
        0 <= r <= SCALE,
{
    if v < 0 {
        0
    } else if v > SCALE {
        SCALE
    } else {
        v
    }
}

} // verus!
