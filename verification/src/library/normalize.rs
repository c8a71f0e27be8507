//! Channel normalization: scales each canonical channel by `255 / channel`,
//! divides by the node's factor, clamps to the unit interval and converts
//! back to a byte.
use vstd::prelude::*;

use crate::coordinate::Coordinate;
use crate::input_output_value::{spec_to_pixel, InputOutputValue};
use crate::node::{NamedValues, NameView, NodeError, NodeErrorView, SpaceInfo};
use crate::pixel::Pixel;
use crate::scalar::{Scalar, SCALE};

verus! {

#[derive(Debug)]
pub struct Normalize {
    value: Scalar,
    pub space_info: SpaceInfo,
}

/// The factor actually stored: clamped to the unit interval, with the
/// smallest positive fixed-point increment as the lower guard against a
/// vanishing divisor.
pub open spec fn spec_norm_factor(bits: int) -> int {
    if bits < 1 {
        1
    } else if bits > SCALE {
        SCALE as int
    } else {
        bits
    }
}

/// One normalized channel: `255/c` scaled by the factor, clamped to the
/// unit interval, then converted to a byte; a zero channel saturates to 255.
pub open spec fn spec_norm_channel(c: int, v: int) -> int {
    if c == 0 {
        255
    } else {
        let q = (255 * SCALE as int) / c;
        let q2 = (q * SCALE as int) / v;
        let m = if q2 > SCALE as int {
            SCALE as int
        } else {
            q2
        };
        (m * 255) / (SCALE as int)
    }
}

/// What normalization yields: with exactly one input, the channel-wise
/// normalization of its canonical pixel; otherwise the input-arity
/// configuration error.
pub open spec fn spec_normalize_generate(
    factor: int,
    inputs: Map<NameView, InputOutputValue>,
) -> Result<InputOutputValue, NodeErrorView> {
    if inputs.dom().len() != 1 {
        Err(NodeErrorView::WrongInputCount(1, inputs.dom().len() as int))
    } else {
        let p = spec_to_pixel(inputs[inputs.dom().choose()]);
        Ok(
            InputOutputValue::Pixel(
                Pixel {
                    r: spec_norm_channel(p.r as int, factor) as u8,
                    g: spec_norm_channel(p.g as int, factor) as u8,
                    b: spec_norm_channel(p.b as int, factor) as u8,
                    a: spec_norm_channel(p.a as int, factor) as u8,
                },
            ),
        )
    }
}

/// One normalized channel, executably.
fn norm_channel(c: u8, v: Scalar) -> (r: u8)
    requires
        1 <= v.bits <= SCALE,
    ensures
        r == spec_norm_channel(c as int, v.bits as int),
{
    if c == 0 {
        255
    } else {
        let q: u128 = (255u128 * (SCALE as u128)) / (c as u128);
        let q2: u128 = (q * (SCALE as u128)) / (v.bits as u128);
        let m: u128 = if q2 > SCALE as u128 {
            SCALE as u128
        } else {
            q2
        };
        proof {
            assert((m as int * 255) / (SCALE as int) <= 255) by (nonlinear_arith)
                requires
                    0 <= m <= SCALE,
                    SCALE == 0x1_0000_0000,
            ;
        }
        ((m * 255) / (SCALE as u128)) as u8
    }
}

impl Normalize {
    pub fn new(value: Scalar) -> (r: Normalize)
        ensures
            r.spec_factor() == spec_norm_factor(value.bits as int),
    {
        let clamped = if value.bits < 1 {
            1
        } else if value.bits > SCALE {
            SCALE
        } else {
            value.bits
        };
        Normalize { value: Scalar { bits: clamped }, space_info: SpaceInfo::new() }
    }

    pub closed spec fn spec_factor(&self) -> int {
        self.value.bits as int
    }

    /// The stored factor always lies in the unit interval.
    #[verifier::type_invariant]
    pub closed spec fn wf(&self) -> bool {
        1 <= self.value.bits <= SCALE
    }

    /// Normalizes the single input's canonical channels.
    pub fn generate(
        &self,
        _position: &Coordinate,
        _size: (u32, u32),
        input: &NamedValues,
    ) -> (r: Result<InputOutputValue, NodeError>)
        requires
            input.wf(),
        ensures
            crate::node::result_view(r) == spec_normalize_generate(self.spec_factor(), input@),
    {
        proof {
            use_type_invariant(self);
        }
        let n = input.len();
        match input.single() {
            Some(vin) => {
                let p = vin.to_common_ground();
                Ok(
                    InputOutputValue::Pixel(
                        Pixel {
                            r: norm_channel(p.r, self.value),
                            g: norm_channel(p.g, self.value),
                            b: norm_channel(p.b, self.value),
                            a: norm_channel(p.a, self.value),
                        },
                    ),
                )
            },
            None => Err(NodeError::WrongInputCount { expected: 1, got: n }),
        }
    }

    /// The presentation metadata.
    pub fn space_info(&self) -> &SpaceInfo {
        &self.space_info
    }


    /// Moves the node on the editor canvas; evaluation data is unaffected.
    pub fn set_position(&mut self, x: i64, y: i64)
        ensures
            final(self).spec_factor() == old(self).spec_factor(),
    {
        proof {
            use_type_invariant(&*self);
        }
        self.space_info.position = (x, y);
    }

    /// Renames the node's editor label; evaluation data is unaffected.
    pub fn set_name(&mut self, name: String)
        ensures
            final(self).spec_factor() == old(self).spec_factor(),
    {
        proof {
            use_type_invariant(&*self);
        }
        self.space_info.name = name;
    }
}

} // verus!
