//! Fixed-point scalars: the numeric type of the value lattice.
//!
//! A `Scalar` stores `bits` and denotes the rational `bits / SCALE`.  All
//! lattice arithmetic (channel conversion, blending, interpolation) is exact
//! integer arithmetic over `bits`, with division truncating toward zero, and
//! conversion to a byte channel truncating (never rounding) and saturating to
//! `0..=255`.
use vstd::prelude::*;

verus! {

/// Denominator of the fixed-point representation: `2^32`.
pub const SCALE: i64 = 0x1_0000_0000;

/// A fixed-point number `bits / SCALE`.
#[derive(Debug, Clone, Copy, PartialEq, Eq, Structural)]
pub struct Scalar {
    pub bits: i64,
}

/// Truncating division (toward zero) for a positive divisor.
pub open spec fn tdiv(a: int, b: int) -> int {
    if a >= 0 {
        a / b
    } else {
        -((-a) / b)
    }
}

/// The byte channel a unit-interval scalar maps to: `bits * 255 / SCALE`,
/// truncated, saturated to `0..=255`.
pub open spec fn spec_unit_byte(bits: int) -> int {
    if bits <= 0 {
        0
    } else if (bits * 255) / (SCALE as int) >= 255 {
        255
    } else {
        (bits * 255) / (SCALE as int)
    }
}

/// The unit-interval scalar a byte channel maps to: `c * SCALE / 255`.
pub open spec fn spec_channel_pct(c: int) -> int {
    (c * SCALE as int) / 255
}

impl Scalar {
    /// The scalar denoting zero.
    pub fn zero() -> (r: Scalar)
        ensures
            r.bits == 0,
    {
        Scalar { bits: 0 }
    }

    /// The scalar denoting one.
    pub fn one() -> (r: Scalar)
        ensures
            r.bits == SCALE,
    {
        Scalar { bits: SCALE }
    }

    /// The scalar denoting the integer `v`.
    pub fn from_int(v: i64) -> (r: Scalar)
        requires
            -0x8000_0000 <= v <= 0x7FFF_FFFF,
        ensures
            r.bits == v * SCALE,
    {
        Scalar { bits: v * SCALE }
    }

    /// The scalar denoting `num / den`, truncated toward zero at the
    /// fixed-point precision.
    pub fn from_ratio(num: i64, den: i64) -> (r: Scalar)
        requires
            den > 0,
            -0x8000_0000 * (den as int) <= num < 0x8000_0000 * (den as int),
        ensures
            r.bits == tdiv(num * SCALE, den as int),
    {
        if num >= 0 {
            proof {
                assert(num * SCALE <= 0x7FFF_FFFF_FFFF_FFFF * 0x1_0000_0000int) by (nonlinear_arith)
                    requires
                        0 <= num <= 0x7FFF_FFFF_FFFF_FFFF,
                ;
                assert((num * SCALE) / (den as int) < 0x8000_0000 * SCALE) by (nonlinear_arith)
                    requires
                        den > 0,
                        num < 0x8000_0000 * den,
                        num >= 0,
                ;
            }
            let q: u128 = ((num as u128) * (SCALE as u128)) / (den as u128);
            Scalar { bits: q as i64 }
        } else {
            let n: u128 = (-(num as i128)) as u128;
            proof {
                assert((-num) * SCALE <= 0x8000_0000_0000_0000 * 0x1_0000_0000int) by (nonlinear_arith)
                    requires
                        -0x8000_0000_0000_0000 <= num < 0,
                ;
                assert(((-num) * SCALE) / (den as int) <= 0x8000_0000 * SCALE) by (nonlinear_arith)
                    requires
                        den > 0,
                        -0x8000_0000 * den <= num < 0,
                ;
            }
            let q: u128 = (n * (SCALE as u128)) / (den as u128);
            let neg: i128 = -(q as i128);
            Scalar { bits: neg as i64 }
        }
    }

    /// The byte channel this scalar maps to, truncating and saturating.
    pub fn unit_byte(self) -> (r: u8)
        ensures
            r == spec_unit_byte(self.bits as int),
    {
        if self.bits <= 0 {
            0
        } else {
            let q: u128 = ((self.bits as u128) * 255) / (SCALE as u128);
            if q >= 255 {
                255
            } else {
                q as u8
            }
        }
    }

    /// The unit-interval scalar a byte channel maps to.
    pub fn from_channel(c: u8) -> (r: Scalar)
        ensures
            r.bits == spec_channel_pct(c as int),
            0 <= r.bits <= SCALE,
    {
        proof {
            assert((c as u64) * (SCALE as u64) <= 255 * 0x1_0000_0000u64) by (nonlinear_arith)
                requires
                    0 <= c <= 255,
            ;
        }
        let q: u64 = ((c as u64) * (SCALE as u64)) / 255;
        proof {
            assert((c as int * SCALE) / 255 <= SCALE) by (nonlinear_arith)
                requires
                    0 <= c <= 255,
            ;
        }
        Scalar { bits: q as i64 }
    }
}

} // verus!
