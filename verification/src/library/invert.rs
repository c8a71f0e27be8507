//! Color inversion: requires exactly one input and returns `1 - percentage`
//! per channel, alpha included.
use vstd::prelude::*;

use crate::coordinate::Coordinate;
use crate::input_output_value::{spec_to_pixel, InputOutputValue};
use crate::node::{NamedValues, NameView, NodeError, NodeErrorView, SpaceInfo};
use crate::scalar::{spec_channel_pct, Scalar, SCALE};

verus! {

#[derive(Debug)]
pub struct Invert {
    pub space_info: SpaceInfo,
}

/// One inverted channel: the unit-interval complement of the channel's
/// percentage.
pub open spec fn spec_invert_channel(c: int) -> int {
    SCALE - spec_channel_pct(c)
}

/// What inversion yields on a mapping of named inputs: with exactly one
/// input, the channel-wise complement as a 4-scalar value; otherwise the
/// input-arity configuration error.
pub open spec fn spec_invert_generate(inputs: Map<NameView, InputOutputValue>) -> Result<
    InputOutputValue,
    NodeErrorView,
> {
    if inputs.dom().len() != 1 {
        Err(NodeErrorView::WrongInputCount(1, inputs.dom().len() as int))
    } else {
        let p = spec_to_pixel(inputs[inputs.dom().choose()]);
        Ok(
            InputOutputValue::F64X4Array(
                Scalar { bits: spec_invert_channel(p.r as int) as i64 },
                Scalar { bits: spec_invert_channel(p.g as int) as i64 },
                Scalar { bits: spec_invert_channel(p.b as int) as i64 },
                Scalar { bits: spec_invert_channel(p.a as int) as i64 },
            ),
        )
    }
}

impl Invert {
    pub fn new() -> (r: Invert) {
        Invert { space_info: SpaceInfo::new() }
    }

    /// Inverts the single input's canonical channels.
    pub fn generate(
        &self,
        _position: &Coordinate,
        _size: (u32, u32),
        input: &NamedValues,
    ) -> (r: Result<InputOutputValue, NodeError>)
        requires
            input.wf(),
        ensures
            crate::node::result_view(r) == spec_invert_generate(input@),
    {
        let n = input.len();
        match input.single() {
            Some(v) => {
                let rp = v.r_percentage();
                let gp = v.g_percentage();
                let bp = v.b_percentage();
                let ap = v.a_percentage();
                Ok(
                    InputOutputValue::F64X4Array(
                        Scalar { bits: SCALE - rp.bits },
                        Scalar { bits: SCALE - gp.bits },
                        Scalar { bits: SCALE - bp.bits },
                        Scalar { bits: SCALE - ap.bits },
                    ),
                )
            },
            None => Err(NodeError::WrongInputCount { expected: 1, got: n }),
        }
    }

    /// The presentation metadata.
    pub fn space_info(&self) -> &SpaceInfo {
        &self.space_info
    }

    /// Moves the node on the editor canvas; evaluation data is unaffected.
    pub fn set_position(&mut self, x: i64, y: i64)
        ensures
            final(self).space_info.position.0 == x && final(self).space_info.position.1 == y,
    {
        self.space_info.position = (x, y);
    }

    /// Renames the node's editor label; evaluation data is unaffected.
    pub fn set_name(&mut self, name: String) {
        self.space_info.name = name;
    }
}

} // verus!
