//! The noise source: a deterministic pseudo-random scalar field
//! parameterized by a seed, an offset and a per-axis scale, evaluated as a
//! pure function of the extent-normalized position.  The field is value
//! noise: a seeded integer hash assigns each lattice corner a scalar in
//! `[-1, 1]`, and positions between corners interpolate trilinearly, all in
//! fixed point.
use vstd::prelude::*;

use crate::coordinate::Coordinate;
use crate::input_output_value::InputOutputValue;
use crate::node::{NamedValues, NodeError, SpaceInfo};
use crate::scalar::{tdiv, Scalar, SCALE};

verus! {

#[derive(Debug)]
pub struct Noise {
    seed: u32,
    offset: Coordinate,
    scale: Coordinate,
    pub space_info: SpaceInfo,
}

/// Saturation to the fixed-point carrier's range: the deterministic guard
/// where a normalized coordinate exceeds what the representation holds.
pub open spec fn sat64(v: int) -> int {
    if v < i64::MIN {
        i64::MIN as int
    } else if v > i64::MAX {
        i64::MAX as int
    } else {
        v
    }
}

/// One normalized noise coordinate: the position divided by the extent span
/// `d`, shifted by the offset and stretched by the scale, truncating toward
/// zero at each fixed-point step.
pub open spec fn spec_noise_coord(pos: int, d: int, off: int, scale: int) -> int {
    let base = sat64(tdiv(pos, d) + off);
    sat64(tdiv(base * scale, SCALE as int))
}

/// The extent span a dimension is normalized by: one less than the extent,
/// guarded to stay positive on degenerate extents.
pub open spec fn spec_span(extent: int) -> int {
    if extent <= 1 {
        1
    } else {
        extent - 1
    }
}

/// The seeded avalanche hash that assigns every lattice corner its value:
/// a pure function of the seed and the corner.
#[verifier::opaque]
pub open spec fn spec_cell_hash(seed: u32, xi: i64, yi: i64, zi: i64) -> u64 {
    let h0 = (seed as u64).wrapping_mul(0x9E3779B97F4A7C15u64);
    let h1 = (h0 ^ (xi as u64)).wrapping_mul(0xBF58476D1CE4E5B9u64);
    let h2 = (h1 ^ (yi as u64)).wrapping_mul(0x94D049BB133111EBu64);
    let h3 = (h2 ^ (zi as u64)).wrapping_mul(0xD6E8FEB86659FD93u64);
    h3 ^ (h3 >> 32u64)
}

/// The corner's scalar: the hash folded into `[-1, 1]` in fixed point.
#[verifier::opaque]
pub open spec fn spec_corner_value(seed: u32, xi: i64, yi: i64, zi: i64) -> int {
    (spec_cell_hash(seed, xi, yi, zi) % 0x2_0000_0001u64) - SCALE
}

/// Linear interpolation from `a` to `b` by the fixed-point fraction `t`,
/// truncating toward zero.
#[verifier::opaque]
pub open spec fn spec_lerp(a: int, b: int, t: int) -> int {
    a + tdiv((b - a) * t, SCALE as int)
}

/// The lattice cell a coordinate falls in (its floor), and the fixed-point
/// fraction into the cell.
pub open spec fn spec_cell_of(v: int) -> int {
    if v >= 0 {
        v / (SCALE as int)
    } else {
        -((-v + SCALE - 1) / (SCALE as int))
    }
}

pub open spec fn spec_frac_of(v: int) -> int {
    v - spec_cell_of(v) * SCALE
}

/// The field's value at a normalized fixed-point position: the trilinear
/// blend of the eight surrounding corner values.
pub open spec fn spec_noise_value(seed: u32, x: int, y: int, z: int) -> int {
    spec_trilinear(
        seed,
        spec_cell_of(x),
        spec_cell_of(y),
        spec_cell_of(z),
        spec_frac_of(x),
        spec_frac_of(y),
        spec_frac_of(z),
    )
}

/// The trilinear blend of the eight corner values around a cell.
pub open spec fn spec_trilinear(
    seed: u32,
    xi: int,
    yi: int,
    zi: int,
    fx: int,
    fy: int,
    fz: int,
) -> int {
    let c000 = spec_corner_value(seed, xi as i64, yi as i64, zi as i64);
    let c100 = spec_corner_value(seed, (xi + 1) as i64, yi as i64, zi as i64);
    let c010 = spec_corner_value(seed, xi as i64, (yi + 1) as i64, zi as i64);
    let c110 = spec_corner_value(seed, (xi + 1) as i64, (yi + 1) as i64, zi as i64);
    let c001 = spec_corner_value(seed, xi as i64, yi as i64, (zi + 1) as i64);
    let c101 = spec_corner_value(seed, (xi + 1) as i64, yi as i64, (zi + 1) as i64);
    let c011 = spec_corner_value(seed, xi as i64, (yi + 1) as i64, (zi + 1) as i64);
    let c111 = spec_corner_value(seed, (xi + 1) as i64, (yi + 1) as i64, (zi + 1) as i64);
    let x00 = spec_lerp(c000, c100, fx);
    let x10 = spec_lerp(c010, c110, fx);
    let x01 = spec_lerp(c001, c101, fx);
    let x11 = spec_lerp(c011, c111, fx);
    let y0 = spec_lerp(x00, x10, fy);
    let y1 = spec_lerp(x01, x11, fy);
    spec_lerp(y0, y1, fz)
}

/// What the noise node yields: a bare scalar, the field sampled at the
/// normalized position, whatever the inputs.
pub open spec fn spec_noise_generate(
    seed: u32,
    offset: Coordinate,
    scale: Coordinate,
    position: Coordinate,
    size: (u32, u32),
) -> Result<InputOutputValue, crate::node::NodeErrorView> {
    let nx = spec_noise_coord(
        position.x.bits as int,
        spec_span(size.0 as int),
        offset.x.bits as int,
        scale.x.bits as int,
    );
    let ny = spec_noise_coord(
        position.y.bits as int,
        spec_span(size.1 as int),
        offset.y.bits as int,
        scale.y.bits as int,
    );
    let nz = spec_noise_coord(position.z.bits as int, 1, offset.z.bits as int, scale.z.bits as int);
    Ok(InputOutputValue::Float(Scalar { bits: spec_noise_value(seed, nx, ny, nz) as i64 }))
}

/// One normalized noise coordinate, executably.
fn noise_coord(pos: i64, d: i64, off: i64, scale: i64) -> (r: i64)
    requires
        d >= 1,
    ensures
        r == spec_noise_coord(pos as int, d as int, off as int, scale as int),
{
    let q: i128 = if pos >= 0 {
        (((pos as u128) / (d as u128)) as i128)
    } else {
        -((((-(pos as i128)) as u128) / (d as u128)) as i128)
    };
    let base: i128 = q + off as i128;
    let s1: i128 = if base > i64::MAX as i128 {
        i64::MAX as i128
    } else if base < i64::MIN as i128 {
        i64::MIN as i128
    } else {
        base
    };
    proof {
        assert(s1 as int * scale <= 0x8000_0000_0000_0000 * 0x8000_0000_0000_0000int && s1 as int
            * scale >= -(0x8000_0000_0000_0000 * 0x8000_0000_0000_0000int)) by (nonlinear_arith)
            requires
                -0x8000_0000_0000_0000 <= s1 <= 0x8000_0000_0000_0000,
                -0x8000_0000_0000_0000 <= scale <= 0x8000_0000_0000_0000,
        ;
    }
    let prod: i128 = s1 * (scale as i128);
    let n: i128 = if prod >= 0 {
        (((prod as u128) / (SCALE as u128)) as i128)
    } else {
        -((((-prod) as u128) / (SCALE as u128)) as i128)
    };
    if n > i64::MAX as i128 {
        i64::MAX
    } else if n < i64::MIN as i128 {
        i64::MIN
    } else {
        n as i64
    }
}

/// The corner hash, executably.
fn cell_hash(seed: u32, xi: i64, yi: i64, zi: i64) -> (r: u64)
    ensures
        r == spec_cell_hash(seed, xi, yi, zi),
{
    proof {
        reveal(spec_cell_hash);
    }
    let h0 = (seed as u64).wrapping_mul(0x9E3779B97F4A7C15u64);
    let h1 = (h0 ^ (xi as u64)).wrapping_mul(0xBF58476D1CE4E5B9u64);
    let h2 = (h1 ^ (yi as u64)).wrapping_mul(0x94D049BB133111EBu64);
    let h3 = (h2 ^ (zi as u64)).wrapping_mul(0xD6E8FEB86659FD93u64);
    h3 ^ (h3 >> 32u64)
}

/// The corner's scalar, executably.
fn corner_value(seed: u32, xi: i64, yi: i64, zi: i64) -> (r: i64)
    ensures
        r == spec_corner_value(seed, xi, yi, zi),
        -SCALE <= r <= SCALE,
{
    proof {
        reveal(spec_corner_value);
    }
    let h = cell_hash(seed, xi, yi, zi);
    ((h % 0x2_0000_0001u64) as i64) - SCALE
}

/// Linear interpolation, executably, with coarse bounds that let the three
/// interpolation stages chain without overflow.
fn lerp(a: i64, b: i64, t: i64) -> (r: i64)
    requires
        -32 * SCALE <= a <= 32 * SCALE,
        -32 * SCALE <= b <= 32 * SCALE,
        0 <= t < SCALE,
    ensures
        r == spec_lerp(a as int, b as int, t as int),
        a <= r <= b || b <= r <= a,
{
    proof {
        reveal(spec_lerp);
    }
    let d: i128 = (b as i128) - (a as i128);
    proof {
        if d >= 0 {
            assert(0 <= d as int * t <= d * (SCALE as int) && (d * t) / (SCALE as int) <= d
                && (d * t) / (SCALE as int) >= 0) by (nonlinear_arith)
                requires
                    0 <= d,
                    0 <= t < SCALE,
                    SCALE == 0x1_0000_0000,
            ;
        } else {
            assert(0 <= (-d) as int * t <= (-d) * (SCALE as int) && ((-d) * t) / (SCALE as int)
                <= -d && ((-d) * t) / (SCALE as int) >= 0) by (nonlinear_arith)
                requires
                    d < 0,
                    0 <= t < SCALE,
                    SCALE == 0x1_0000_0000,
            ;
        }
    }
    proof {
        assert(d as int * t <= 64 * (SCALE as int) * SCALE && d as int * t >= -(64 * (
        SCALE as int) * SCALE)) by (nonlinear_arith)
            requires
                -64 * SCALE <= d <= 64 * SCALE,
                0 <= t < SCALE,
                SCALE == 0x1_0000_0000,
        ;
    }
    let num: i128 = d * (t as i128);
    let step: i128 = if num >= 0 {
        (((num as u128) / (SCALE as u128)) as i128)
    } else {
        -((((-num) as u128) / (SCALE as u128)) as i128)
    };
    proof {
        assert((-(d * (t as int))) == (-d) * (t as int)) by (nonlinear_arith);
        if d >= 0 {
            assert(0 <= step <= d);
        } else {
            assert(d <= step <= 0);
        }
    }
    (a as i128 + step) as i64
}

/// The cell index and fraction of a coordinate, executably.
fn cell_of(v: i64) -> (r: (i64, i64))
    ensures
        r.0 == spec_cell_of(v as int),
        r.1 == spec_frac_of(v as int),
        0 <= r.1 < SCALE,
        -0x8000_0001 <= r.0 <= 0x8000_0000,
{
    if v >= 0 {
        let q = ((v as u64) / (SCALE as u64)) as i64;
        proof {
            assert(v as int / (SCALE as int) * SCALE <= v as int && v as int - v as int / (
            SCALE as int) * SCALE < SCALE && v as int / (SCALE as int) <= 0x8000_0000)
                by (nonlinear_arith)
                requires
                    0 <= v <= 0x7FFF_FFFF_FFFF_FFFF,
                    SCALE == 0x1_0000_0000,
            ;
        }
        (q, v - q * SCALE)
    } else {
        let m: u128 = ((-(v as i128)) as u128 + (SCALE as u128) - 1) / (SCALE as u128);
        proof {
            assert((-(v as int) + SCALE - 1) / (SCALE as int) <= 0x8000_0001 && (-(v as int)
                + SCALE - 1) / (SCALE as int) >= 0) by (nonlinear_arith)
                requires
                    -0x8000_0000_0000_0000 <= v < 0,
                    SCALE == 0x1_0000_0000,
            ;
            assert(v as int - (-((-(v as int) + SCALE - 1) / (SCALE as int))) * SCALE < SCALE
                && v as int - (-((-(v as int) + SCALE - 1) / (SCALE as int))) * SCALE >= 0)
                by (nonlinear_arith)
                requires
                    -0x8000_0000_0000_0000 <= v < 0,
                    SCALE == 0x1_0000_0000,
            ;
        }
        let q: i64 = (-(m as i128)) as i64;
        let frac: i64 = ((v as i128) - (q as i128) * (SCALE as i128)) as i64;
        (q, frac)
    }
}

/// The field's value, executably.
fn noise_value(seed: u32, x: i64, y: i64, z: i64) -> (r: i64)
    ensures
        r == spec_noise_value(seed, x as int, y as int, z as int),
{
    let (xi, fx) = cell_of(x);
    let (yi, fy) = cell_of(y);
    let (zi, fz) = cell_of(z);
    trilinear(seed, xi, yi, zi, fx, fy, fz)
}

/// The trilinear blend, executably.
#[verifier::rlimit(100)]
fn trilinear(seed: u32, xi: i64, yi: i64, zi: i64, fx: i64, fy: i64, fz: i64) -> (r: i64)
    requires
        -0x8000_0001 <= xi <= 0x8000_0000,
        -0x8000_0001 <= yi <= 0x8000_0000,
        -0x8000_0001 <= zi <= 0x8000_0000,
        0 <= fx < SCALE,
        0 <= fy < SCALE,
        0 <= fz < SCALE,
    ensures
        r == spec_trilinear(seed, xi as int, yi as int, zi as int, fx as int, fy as int, fz as int),
{
    let c000 = corner_value(seed, xi, yi, zi);
    let c100 = corner_value(seed, xi + 1, yi, zi);
    let c010 = corner_value(seed, xi, yi + 1, zi);
    let c110 = corner_value(seed, xi + 1, yi + 1, zi);
    let c001 = corner_value(seed, xi, yi, zi + 1);
    let c101 = corner_value(seed, xi + 1, yi, zi + 1);
    let c011 = corner_value(seed, xi, yi + 1, zi + 1);
    let c111 = corner_value(seed, xi + 1, yi + 1, zi + 1);
    let x00 = lerp(c000, c100, fx);
    let x10 = lerp(c010, c110, fx);
    let x01 = lerp(c001, c101, fx);
    let x11 = lerp(c011, c111, fx);
    let y0 = lerp(x00, x10, fy);
    let y1 = lerp(x01, x11, fy);
    lerp(y0, y1, fz)
}

impl Noise {
    pub fn new(seed: u32) -> (r: Noise)
        ensures
            r.spec_seed() == seed,
            r.spec_offset().x.bits == 0 && r.spec_offset().y.bits == 0 && r.spec_offset().z.bits
                == 0,
            r.spec_scale().x.bits == SCALE && r.spec_scale().y.bits == SCALE
                && r.spec_scale().z.bits == SCALE,
    {
        let mut space_info = SpaceInfo::new();
        space_info.size = (250, 50);
        Noise {
            seed,
            offset: Coordinate::new(Scalar::zero(), Scalar::zero(), Scalar::zero()),
            scale: Coordinate::new(Scalar::one(), Scalar::one(), Scalar::one()),
            space_info,
        }
    }

    pub closed spec fn spec_seed(&self) -> u32 {
        self.seed
    }

    pub closed spec fn spec_offset(&self) -> Coordinate {
        self.offset
    }

    pub closed spec fn spec_scale(&self) -> Coordinate {
        self.scale
    }

    pub fn set_offset(&mut self, offset: Coordinate)
        ensures
            final(self).spec_offset() == offset,
            final(self).spec_scale() == old(self).spec_scale(),
            final(self).spec_seed() == old(self).spec_seed(),
    {
        self.offset = offset;
    }

    pub fn set_scale(&mut self, scale: Coordinate)
        ensures
            final(self).spec_scale() == scale,
            final(self).spec_offset() == old(self).spec_offset(),
            final(self).spec_seed() == old(self).spec_seed(),
    {
        self.scale = scale;
    }

    /// Samples the field at the extent-normalized position; ignores inputs.
    pub fn generate(
        &self,
        position: &Coordinate,
        size: (u32, u32),
        _input: &NamedValues,
    ) -> (r: Result<InputOutputValue, NodeError>)
        ensures
            crate::node::result_view(r) == spec_noise_generate(
                self.spec_seed(),
                self.spec_offset(),
                self.spec_scale(),
                *position,
                size,
            ),
    {
        let dx: i64 = if size.0 <= 1 {
            1
        } else {
            (size.0 - 1) as i64
        };
        let dy: i64 = if size.1 <= 1 {
            1
        } else {
            (size.1 - 1) as i64
        };
        let nx = noise_coord(position.x().bits, dx, self.offset.x.bits, self.scale.x.bits);
        let ny = noise_coord(position.y().bits, dy, self.offset.y.bits, self.scale.y.bits);
        let nz = noise_coord(position.z().bits, 1, self.offset.z.bits, self.scale.z.bits);
        let bits = noise_value(self.seed, nx, ny, nz);
        Ok(InputOutputValue::Float(Scalar { bits }))
    }

    /// The presentation metadata.
    pub fn space_info(&self) -> &SpaceInfo {
        &self.space_info
    }


    /// Moves the node on the editor canvas; evaluation data is unaffected.
    pub fn set_position(&mut self, x: i64, y: i64)
        ensures
            final(self).spec_seed() == old(self).spec_seed(),
            final(self).spec_offset() == old(self).spec_offset(),
            final(self).spec_scale() == old(self).spec_scale(),
    {
        self.space_info.position = (x, y);
    }

    /// Renames the node's editor label; evaluation data is unaffected.
    pub fn set_name(&mut self, name: String)
        ensures
            final(self).spec_seed() == old(self).spec_seed(),
            final(self).spec_offset() == old(self).spec_offset(),
            final(self).spec_scale() == old(self).spec_scale(),
    {
        self.space_info.name = name;
    }
}

} // verus!
