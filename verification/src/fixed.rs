//! Saturating fixed-point scalars.
//!
//! Every quantity the toolkit trains on — inputs, weights, biases,
//! errors, learning rates — is an [`Fx`]: a signed 64-bit count of units
//! of `1/FRAC`. Addition, subtraction and negation saturate at the
//! symmetric bound `±i64::MAX`; multiplication rescales by `FRAC` with
//! truncation toward zero, then saturates. Each operation's result is
//! pinned exactly by a spec function over the raw integer values.

use vstd::prelude::*;

verus! {

/// Number of raw units in 1.0: an [`Fx`] counts units of `1/FRAC`.
pub const FRAC: i64 = 1048576;

/// The raw representation of one half (`FRAC / 2`).
pub const HALF: i64 = 524288;

/// Magnitude of an integer.
pub open spec fn mag(x: int) -> int {
    if x >= 0 {
        x
    } else {
        -x
    }
}

/// Saturation to the symmetric raw range `[-i64::MAX, i64::MAX]`.
pub open spec fn clamp_raw(x: int) -> int {
    if x > i64::MAX as int {
        i64::MAX as int
    } else if x < -(i64::MAX as int) {
        -(i64::MAX as int)
    } else {
        x
    }
}

/// Division truncating toward zero, for a positive divisor.
pub open spec fn tdiv(p: int, d: int) -> int
    recommends
        d > 0,
{
    if p >= 0 {
        p / d
    } else {
        -((-p) / d)
    }
}

/// Raw result of saturating addition.
pub open spec fn add_raw(a: int, b: int) -> int {
    clamp_raw(a + b)
}

/// Raw result of saturating subtraction.
pub open spec fn sub_raw(a: int, b: int) -> int {
    clamp_raw(a - b)
}

/// Raw result of fixed-point multiplication: rescale by `FRAC`,
/// truncating toward zero, then saturate.
pub open spec fn mul_raw(a: int, b: int) -> int {
    clamp_raw(tdiv(a * b, FRAC as int))
}

/// Raw result of dividing by a positive count (used to average a
/// gradient over a batch): truncation toward zero, no rescaling.
pub open spec fn div_count_raw(a: int, n: int) -> int
    recommends
        n > 0,
{
    tdiv(a, n)
}

/// A fixed-point scalar: `raw` counts units of `1/FRAC`.
#[derive(Clone, Copy, PartialEq, Eq, Structural, Debug)]
pub struct Fx {
    pub raw: i64,
}

/// Narrow a wide intermediate back to a raw value, saturating at
/// `±i64::MAX`.
fn sat_narrow(x: i128) -> (r: i64)
    ensures
        r as int == clamp_raw(x as int),
{
    if x > i64::MAX as i128 {
        i64::MAX
    } else if x < -(i64::MAX as i128) {
        -i64::MAX
    } else {
        x as i64
    }
}

/// Magnitude of a raw value, as an unsigned word.
pub(crate) fn abs_to_u64(a: i64) -> (r: u64)
    ensures
        r as int == mag(a as int),
{
    if a >= 0 {
        a as u64
    } else {
        (-(a as i128)) as u64
    }
}

impl Fx {
    /// The additive identity.
    pub fn zero() -> (r: Fx)
        ensures
            r.raw == 0,
    {
        Fx { raw: 0 }
    }

    /// Saturating addition.
    pub fn add(self, other: Fx) -> (r: Fx)
        ensures
            r.raw as int == add_raw(self.raw as int, other.raw as int),
    {
        Fx { raw: sat_narrow(self.raw as i128 + other.raw as i128) }
    }

    /// Saturating subtraction.
    pub fn sub(self, other: Fx) -> (r: Fx)
        ensures
            r.raw as int == sub_raw(self.raw as int, other.raw as int),
    {
        Fx { raw: sat_narrow(self.raw as i128 - other.raw as i128) }
    }

    /// Saturating negation.
    pub fn neg(self) -> (r: Fx)
        ensures
            r.raw as int == clamp_raw(-(self.raw as int)),
    {
        Fx { raw: sat_narrow(-(self.raw as i128)) }
    }

    /// Fixed-point multiplication: rescale by `FRAC`, truncating toward
    /// zero, then saturate.
    pub fn mul(self, other: Fx) -> (r: Fx)
        ensures
            r.raw as int == mul_raw(self.raw as int, other.raw as int),
    {
        let ghost a = self.raw as int;
        let ghost b = other.raw as int;
        let negs: bool = (self.raw < 0) != (other.raw < 0);
        let ma = abs_to_u64(self.raw);
        let mb = abs_to_u64(other.raw);
        proof {
            assert(mag(a) * mag(b) == mag(a * b)) by (nonlinear_arith);
            assert(mag(a) <= 0x8000_0000_0000_0000int && mag(b) <= 0x8000_0000_0000_0000int);
            assert(mag(a) * mag(b) <= 0x8000_0000_0000_0000int * 0x8000_0000_0000_0000int)
                by (nonlinear_arith)
                requires
                    0 <= mag(a) <= 0x8000_0000_0000_0000int,
                    0 <= mag(b) <= 0x8000_0000_0000_0000int,
            ;
        }
        let m: u128 = (ma as u128) * (mb as u128);
        let q: u128 = m / (FRAC as u128);
        proof {
            assert(q as int == mag(a * b) / (FRAC as int));
            assert(q <= m);
            assert(a >= 0 && b >= 0 ==> a * b >= 0) by (nonlinear_arith);
            assert(a < 0 && b < 0 ==> a * b > 0) by (nonlinear_arith);
            assert(a < 0 && b >= 0 ==> a * b <= 0) by (nonlinear_arith);
            assert(a >= 0 && b < 0 ==> a * b <= 0) by (nonlinear_arith);
        }
        if negs {
            proof {
                assert(a * b <= 0);
                assert(a * b == 0 ==> mag(a * b) == 0);
                assert(tdiv(a * b, FRAC as int) == -(q as int));
            }
            Fx { raw: sat_narrow(-(q as i128)) }
        } else {
            proof {
                assert(a * b >= 0);
                assert(tdiv(a * b, FRAC as int) == q as int);
            }
            Fx { raw: sat_narrow(q as i128) }
        }
    }

    /// Division by a positive count, truncating toward zero.
    pub fn div_count(self, n: usize) -> (r: Fx)
        requires
            n >= 1,
        ensures
            r.raw as int == div_count_raw(self.raw as int, n as int),
    {
        let ghost a = self.raw as int;
        let m: u64 = abs_to_u64(self.raw) / (n as u64);
        proof {
            assert(m as int == mag(a) / (n as int));
            assert(mag(a) / (n as int) <= mag(a)) by (nonlinear_arith)
                requires
                    n as int >= 1,
                    mag(a) >= 0,
            ;
        }
        if self.raw < 0 {
            Fx { raw: (-(m as i128)) as i64 }
        } else {
            Fx { raw: m as i64 }
        }
    }
}

} // verus!
