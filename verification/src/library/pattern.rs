//! A checkerboard: passes the single input's color through on half the
//! integer positions and yields black on the other half.
use vstd::prelude::*;

use crate::coordinate::Coordinate;
use crate::input_output_value::{spec_to_pixel, InputOutputValue};
use crate::node::{NamedValues, NameView, NodeError, NodeErrorView, SpaceInfo};
use crate::pixel::Pixel;
use crate::scalar::SCALE;

verus! {

#[derive(Debug)]
pub struct Pattern {
    pub space_info: SpaceInfo,
}

/// The whole-number part of a coordinate component, truncated toward zero
/// and floored at zero, as discrete addressing does.
pub open spec fn spec_cell_index(bits: int) -> int {
    if bits <= 0 {
        0
    } else {
        bits / (SCALE as int)
    }
}

/// What the checkerboard yields: with exactly one input, black where the
/// cell parities agree and the input's color elsewhere; otherwise the
/// input-arity configuration error.
pub open spec fn spec_pattern_generate(
    position: Coordinate,
    inputs: Map<NameView, InputOutputValue>,
) -> Result<InputOutputValue, NodeErrorView> {
    if inputs.dom().len() != 1 {
        Err(NodeErrorView::WrongInputCount(1, inputs.dom().len() as int))
    } else {
        let p = spec_to_pixel(inputs[inputs.dom().choose()]);
        let xi = spec_cell_index(position.x.bits as int);
        let yi = spec_cell_index(position.y.bits as int);
        if xi % 2 == yi % 2 {
            Ok(InputOutputValue::Pixel(Pixel { r: 0, g: 0, b: 0, a: 255 }))
        } else {
            Ok(InputOutputValue::Pixel(Pixel { r: p.r, g: p.g, b: p.b, a: 255 }))
        }
    }
}

impl Pattern {
    pub fn new() -> (r: Pattern) {
        Pattern { space_info: SpaceInfo::new() }
    }

    /// Checkers the single input by the parity of the position's cell.
    pub fn generate(
        &self,
        position: &Coordinate,
        _size: (u32, u32),
        input: &NamedValues,
    ) -> (r: Result<InputOutputValue, NodeError>)
        requires
            input.wf(),
        ensures
            crate::node::result_view(r) == spec_pattern_generate(*position, input@),
    {
        let n = input.len();
        match input.single() {
            Some(v) => {
                let p = v.to_common_ground();
                let xb = position.x().bits;
                let yb = position.y().bits;
                let xi: u64 = if xb <= 0 {
                    0
                } else {
                    (xb as u64) / (SCALE as u64)
                };
                let yi: u64 = if yb <= 0 {
                    0
                } else {
                    (yb as u64) / (SCALE as u64)
                };
                if xi % 2 == yi % 2 {
                    Ok(InputOutputValue::Pixel(Pixel { r: 0, g: 0, b: 0, a: 255 }))
                } else {
                    Ok(InputOutputValue::Pixel(Pixel { r: p.r, g: p.g, b: p.b, a: 255 }))
                }
            },
            None => Err(NodeError::WrongInputCount { expected: 1, got: n }),
        }
    }

    /// The presentation metadata.
    pub fn space_info(&self) -> &SpaceInfo {
        &self.space_info
    }

    /// Moves the node on the editor canvas; evaluation data is unaffected.
    pub fn set_position(&mut self, x: i64, y: i64)
        ensures
            final(self).space_info.position.0 == x && final(self).space_info.position.1 == y,
    {
        self.space_info.position = (x, y);
    }

    /// Renames the node's editor label; evaluation data is unaffected.
    pub fn set_name(&mut self, name: String) {
        self.space_info.name = name;
    }
}

} // verus!
