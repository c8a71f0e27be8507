//! Linear blend: requires exactly the three named operands `input1`,
//! `input2` and `value`, and mixes the two operands channel by channel with
//! `c = a*t + b*(1-t)`, `t` drawn per channel from the scalar-like factor.
use vstd::prelude::*;
use vstd::string::*;

use crate::coordinate::Coordinate;
use crate::input_output_value::{spec_to_pixel, InputOutputValue};
use crate::node::{NamedValues, NameView, InputName, NodeError, NodeErrorView, SpaceInfo};
use crate::scalar::{Scalar, SCALE};

verus! {

#[derive(Debug)]
pub struct Mix {
    pub space_info: SpaceInfo,
}

/// One blended channel: `a*t + b*(1-t)` over the fixed-point factor,
/// truncated toward zero and saturated to a byte, exactly as the lattice's
/// float-to-byte conversion does.
pub open spec fn spec_mix_channel(a: int, b: int, t: int) -> int {
    let num = a * t + b * (SCALE - t);
    if num <= 0 {
        0
    } else if num / (SCALE as int) >= 255 {
        255
    } else {
        num / (SCALE as int)
    }
}

/// The per-channel factors a scalar-like value provides: a bare scalar
/// applies to all four channels; 3-scalar values leave alpha at one; other
/// variants are not factors.
pub open spec fn spec_mix_factors(v: InputOutputValue) -> Option<(int, int, int, int)> {
    match v {
        InputOutputValue::Float(s) => Some(
            (s.bits as int, s.bits as int, s.bits as int, s.bits as int),
        ),
        InputOutputValue::F64X3Array(a, b, c) => Some(
            (a.bits as int, b.bits as int, c.bits as int, SCALE as int),
        ),
        InputOutputValue::F64X4Array(a, b, c, d) => Some(
            (a.bits as int, b.bits as int, c.bits as int, d.bits as int),
        ),
        _ => None,
    }
}

/// What blending yields: with exactly `input1`, `input2` and `value` bound
/// and a scalar-like factor, the channel-wise blend of the operands'
/// canonical pixels; otherwise the configuration error naming what is
/// missing or wrong.
pub open spec fn spec_mix_generate(inputs: Map<NameView, InputOutputValue>) -> Result<
    InputOutputValue,
    NodeErrorView,
> {
    let k1 = NameView::Named("input1"@);
    let k2 = NameView::Named("input2"@);
    let kv = NameView::Named("value"@);
    if inputs.dom().len() != 3 {
        Err(NodeErrorView::WrongInputCount(3, inputs.dom().len() as int))
    } else if !inputs.dom().contains(k1) {
        Err(NodeErrorView::MissingInput("input1"@))
    } else if !inputs.dom().contains(k2) {
        Err(NodeErrorView::MissingInput("input2"@))
    } else if !inputs.dom().contains(kv) {
        Err(NodeErrorView::MissingInput("value"@))
    } else {
        match spec_mix_factors(inputs[kv]) {
            None => Err(NodeErrorView::InvalidFactor),
            Some((tr, tg, tb, ta)) => {
                let a = spec_to_pixel(inputs[k1]);
                let b = spec_to_pixel(inputs[k2]);
                Ok(
                    InputOutputValue::Pixel(
                        crate::pixel::Pixel {
                            r: spec_mix_channel(a.r as int, b.r as int, tr) as u8,
                            g: spec_mix_channel(a.g as int, b.g as int, tg) as u8,
                            b: spec_mix_channel(a.b as int, b.b as int, tb) as u8,
                            a: spec_mix_channel(a.a as int, b.a as int, ta) as u8,
                        },
                    ),
                )
            },
        }
    }
}

/// One blended channel, executably.
fn mix_channel(a: u8, b: u8, t: Scalar) -> (r: u8)
    ensures
        r == spec_mix_channel(a as int, b as int, t.bits as int),
{
    proof {
        assert(a as int * t.bits <= 255 * 0x8000_0000_0000_0000int && a as int * t.bits >= -(255
            * 0x8000_0000_0000_0000int) && b as int * (SCALE - t.bits) <= 255
            * 0x1_8000_0000_0000_0000int && b as int * (SCALE - t.bits) >= -(255
            * 0x8000_0000_0000_0000int)) by (nonlinear_arith)
            requires
                0 <= a <= 255,
                0 <= b <= 255,
                -0x8000_0000_0000_0000 <= t.bits <= 0x7FFF_FFFF_FFFF_FFFF,
                SCALE == 0x1_0000_0000,
        ;
    }
    let num: i128 = (a as i128) * (t.bits as i128) + (b as i128) * (SCALE as i128 - t.bits as i128);
    if num <= 0 {
        0
    } else {
        let q: u128 = (num as u128) / (SCALE as u128);
        if q >= 255 {
            255
        } else {
            q as u8
        }
    }
}

impl Mix {
    pub fn new() -> (r: Mix) {
        Mix { space_info: SpaceInfo::new() }
    }

    /// Blends `input1` toward `input2` by the factor named `value`.
    pub fn generate(
        &self,
        _position: &Coordinate,
        _size: (u32, u32),
        input: &NamedValues,
    ) -> (r: Result<InputOutputValue, NodeError>)
        requires
            input.wf(),
        ensures
            crate::node::result_view(r) == spec_mix_generate(input@),
    {
        let n = input.len();
        if n != 3 {
            return Err(NodeError::WrongInputCount { expected: 3, got: n });
        }
        let name1 = InputName::Named(String::from_str("input1"));
        let name2 = InputName::Named(String::from_str("input2"));
        let namev = InputName::Named(String::from_str("value"));
        let v1 = match input.get(&name1) {
            Some(v) => v,
            None => {
                return Err(NodeError::MissingInput(String::from_str("input1")));
            },
        };
        let v2 = match input.get(&name2) {
            Some(v) => v,
            None => {
                return Err(NodeError::MissingInput(String::from_str("input2")));
            },
        };
        let vf = match input.get(&namev) {
            Some(v) => v,
            None => {
                return Err(NodeError::MissingInput(String::from_str("value")));
            },
        };
        let one = Scalar { bits: SCALE };
        let (tr, tg, tb, ta) = match vf {
            InputOutputValue::Float(s) => (s, s, s, s),
            InputOutputValue::F64X3Array(a, b, c) => (a, b, c, one),
            InputOutputValue::F64X4Array(a, b, c, d) => (a, b, c, d),
            _ => {
                return Err(NodeError::InvalidFactor);
            },
        };
        let a = v1.to_common_ground();
        let b = v2.to_common_ground();
        Ok(
            InputOutputValue::Pixel(
                crate::pixel::Pixel {
                    r: mix_channel(a.r, b.r, tr),
                    g: mix_channel(a.g, b.g, tg),
                    b: mix_channel(a.b, b.b, tb),
                    a: mix_channel(a.a, b.a, ta),
                },
            ),
        )
    }

    /// The presentation metadata.
    pub fn space_info(&self) -> &SpaceInfo {
        &self.space_info
    }

    /// Moves the node on the editor canvas; evaluation data is unaffected.
    pub fn set_position(&mut self, x: i64, y: i64)
        ensures
            final(self).space_info.position.0 == x && final(self).space_info.position.1 == y,
    {
        self.space_info.position = (x, y);
    }

    /// Renames the node's editor label; evaluation data is unaffected.
    pub fn set_name(&mut self, name: String) {
        self.space_info.name = name;
    }
}

} // verus!
