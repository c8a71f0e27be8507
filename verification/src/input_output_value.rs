//! The value lattice: the closed set of shapes a node may produce, with a
//! total conversion to the canonical pixel form.
//!
//! Conversion is never partial.  `Nothing` maps to the zero pixel, a bare
//! scalar promotes to a gray pixel with full alpha, 3-component arrays imply
//! full alpha, and scalar channels convert to bytes by truncation (never
//! rounding), saturating to `0..=255`.
use vstd::prelude::*;

use crate::pixel::Pixel;
use crate::scalar::{Scalar, spec_unit_byte, spec_channel_pct, SCALE};

verus! {

/// A value produced or consumed by a node.
#[derive(Debug, Clone, Copy, PartialEq, Eq, Structural)]
pub enum InputOutputValue {
    Nothing,
    Float(Scalar),
    Pixel(Pixel),
    U8X3Array(u8, u8, u8),
    U8X4Array(u8, u8, u8, u8),
    F64X3Array(Scalar, Scalar, Scalar),
    F64X4Array(Scalar, Scalar, Scalar, Scalar),
}

/// The canonical pixel form of a lattice value; total over every variant.
pub open spec fn spec_to_pixel(v: InputOutputValue) -> Pixel {
    match v {
        InputOutputValue::Nothing => Pixel { r: 0, g: 0, b: 0, a: 0 },
        InputOutputValue::Float(s) => Pixel {
            r: spec_unit_byte(s.bits as int) as u8,
            g: spec_unit_byte(s.bits as int) as u8,
            b: spec_unit_byte(s.bits as int) as u8,
            a: 255,
        },
        InputOutputValue::Pixel(p) => p,
        InputOutputValue::U8X3Array(r, g, b) => Pixel { r, g, b, a: 255 },
        InputOutputValue::U8X4Array(r, g, b, a) => Pixel { r, g, b, a },
        InputOutputValue::F64X3Array(r, g, b) => Pixel {
            r: spec_unit_byte(r.bits as int) as u8,
            g: spec_unit_byte(g.bits as int) as u8,
            b: spec_unit_byte(b.bits as int) as u8,
            a: 255,
        },
        InputOutputValue::F64X4Array(r, g, b, a) => Pixel {
            r: spec_unit_byte(r.bits as int) as u8,
            g: spec_unit_byte(g.bits as int) as u8,
            b: spec_unit_byte(b.bits as int) as u8,
            a: spec_unit_byte(a.bits as int) as u8,
        },
    }
}

impl InputOutputValue {
    /// Converts to the canonical pixel form.  Total: defined for every
    /// variant, and the identity on values that already are pixels.
    pub fn to_common_ground(&self) -> (p: Pixel)
        ensures
            p == spec_to_pixel(*self),
            self is Pixel ==> p == self->Pixel_0,
    {
        match self {
            InputOutputValue::Nothing => Pixel::zero(),
            InputOutputValue::Float(s) => {
                let c = s.unit_byte();
                Pixel { r: c, g: c, b: c, a: 255 }
            },
            InputOutputValue::Pixel(p) => *p,
            InputOutputValue::U8X3Array(r, g, b) => Pixel { r: *r, g: *g, b: *b, a: 255 },
            InputOutputValue::U8X4Array(r, g, b, a) => Pixel { r: *r, g: *g, b: *b, a: *a },
            InputOutputValue::F64X3Array(r, g, b) => Pixel {
                r: r.unit_byte(),
                g: g.unit_byte(),
                b: b.unit_byte(),
                a: 255,
            },
            InputOutputValue::F64X4Array(r, g, b, a) => Pixel {
                r: r.unit_byte(),
                g: g.unit_byte(),
                b: b.unit_byte(),
                a: a.unit_byte(),
            },
        }
    }

    /// The red channel of the canonical form, as a unit-interval scalar.
    pub fn r_percentage(&self) -> (s: Scalar)
        ensures
            s.bits == spec_channel_pct(spec_to_pixel(*self).r as int),
            0 <= s.bits <= SCALE,
    {
        Scalar::from_channel(self.to_common_ground().r)
    }

    /// The green channel of the canonical form, as a unit-interval scalar.
    pub fn g_percentage(&self) -> (s: Scalar)
        ensures
            s.bits == spec_channel_pct(spec_to_pixel(*self).g as int),
            0 <= s.bits <= SCALE,
    {
        Scalar::from_channel(self.to_common_ground().g)
    }

    /// The blue channel of the canonical form, as a unit-interval scalar.
    pub fn b_percentage(&self) -> (s: Scalar)
        ensures
            s.bits == spec_channel_pct(spec_to_pixel(*self).b as int),
            0 <= s.bits <= SCALE,
    {
        Scalar::from_channel(self.to_common_ground().b)
    }

    /// The alpha channel of the canonical form, as a unit-interval scalar.
    pub fn a_percentage(&self) -> (s: Scalar)
        ensures
            s.bits == spec_channel_pct(spec_to_pixel(*self).a as int),
            0 <= s.bits <= SCALE,
    {
        Scalar::from_channel(self.to_common_ground().a)
    }
}

/// Lattice totality: converting a value that already is a pixel returns that
/// pixel unchanged, so `Pixel -> Pixel` through the canonical form is the
/// identity.
pub proof fn lemma_to_pixel_roundtrip(p: Pixel)
    ensures
        spec_to_pixel(InputOutputValue::Pixel(p)) == p,
{
}

} // verus!
