//! The sink: the single distinguished terminal node.  The driver treats
//! reaching it as loop termination, so its own generation is never
//! semantically meaningful; it deterministically yields `Nothing`.
use vstd::prelude::*;

use crate::coordinate::Coordinate;
use crate::input_output_value::InputOutputValue;
use crate::node::{NamedValues, NodeError, SpaceInfo};
use crate::pixel::Pixel;

verus! {

#[derive(Debug)]
pub struct Output {
    pub space_info: SpaceInfo,
}

impl Output {
    pub fn new() -> (r: Output)
        ensures
            r.space_info.size.0 == 220 && r.space_info.size.1 == 235,
    {
        let mut space_info = SpaceInfo::new();
        space_info.color = Pixel { r: 166, g: 166, b: 166, a: 255 };
        space_info.size = (220, 235);
        Output { space_info }
    }

    /// Never consulted by the driver, which short-circuits at the sink.
    pub fn generate(
        &self,
        _position: &Coordinate,
        _size: (u32, u32),
        _input: &NamedValues,
    ) -> (r: Result<InputOutputValue, NodeError>)
        ensures
            r == Ok::<InputOutputValue, NodeError>(InputOutputValue::Nothing),
    {
        Ok(InputOutputValue::Nothing)
    }

    /// The presentation metadata.
    pub fn space_info(&self) -> &SpaceInfo {
        &self.space_info
    }

    /// Moves the node on the editor canvas; evaluation data is unaffected.
    pub fn set_position(&mut self, x: i64, y: i64)
        ensures
            final(self).space_info.position.0 == x && final(self).space_info.position.1 == y,
    {
        self.space_info.position = (x, y);
    }

    /// Renames the node's editor label; evaluation data is unaffected.
    pub fn set_name(&mut self, name: String) {
        self.space_info.name = name;
    }
}

} // verus!
