//! A fixed-color node: ignores position and inputs, always returns its color
//! as a pixel value.
use vstd::prelude::*;

use crate::coordinate::Coordinate;
use crate::input_output_value::InputOutputValue;
use crate::node::{NamedValues, NodeError, SpaceInfo};
use crate::pixel::Pixel;

verus! {

#[derive(Debug)]
pub struct BlankColor {
    pub color: Pixel,
    pub space_info: SpaceInfo,
}

impl BlankColor {
    pub fn new(color: Pixel) -> (r: BlankColor)
        ensures
            r.color == color,
    {
        BlankColor { color, space_info: SpaceInfo::new() }
    }

    /// Returns the stored color, whatever the position, extent and inputs.
    pub fn generate(
        &self,
        _position: &Coordinate,
        _size: (u32, u32),
        _input: &NamedValues,
    ) -> (r: Result<InputOutputValue, NodeError>)
        ensures
            r == Ok::<InputOutputValue, NodeError>(InputOutputValue::Pixel(self.color)),
    {
        Ok(InputOutputValue::Pixel(self.color))
    }

    /// The presentation metadata.
    pub fn space_info(&self) -> &SpaceInfo {
        &self.space_info
    }


    /// Moves the node on the editor canvas; evaluation data is unaffected.
    pub fn set_position(&mut self, x: i64, y: i64)
        ensures
            final(self).color == old(self).color,
            final(self).space_info.position.0 == x && final(self).space_info.position.1 == y,
    {
        self.space_info.position = (x, y);
    }

    /// Renames the node's editor label; evaluation data is unaffected.
    pub fn set_name(&mut self, name: String)
        ensures
            final(self).color == old(self).color,
    {
        self.space_info.name = name;
    }
}

} // verus!
