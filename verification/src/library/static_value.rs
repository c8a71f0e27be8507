//! A constant node: ignores position and inputs, always returns the value it
//! was built with.
use vstd::prelude::*;

use crate::coordinate::Coordinate;
use crate::input_output_value::InputOutputValue;
use crate::node::{NamedValues, NodeError, SpaceInfo};

verus! {

#[derive(Debug)]
pub struct StaticValue {
    value: InputOutputValue,
    pub space_info: SpaceInfo,
}

impl StaticValue {
    pub fn new(value: InputOutputValue) -> (r: StaticValue)
        ensures
            r.spec_value() == value,
    {
        StaticValue { value, space_info: SpaceInfo::new() }
    }

    pub closed spec fn spec_value(&self) -> InputOutputValue {
        self.value
    }

    /// Returns the stored value, whatever the position, extent and inputs.
    pub fn generate(
        &self,
        _position: &Coordinate,
        _size: (u32, u32),
        _input: &NamedValues,
    ) -> (r: Result<InputOutputValue, NodeError>)
        ensures
            r == Ok::<InputOutputValue, NodeError>(self.spec_value()),
    {
        Ok(self.value)
    }

    /// The presentation metadata.
    pub fn space_info(&self) -> &SpaceInfo {
        &self.space_info
    }


    /// Moves the node on the editor canvas; evaluation data is unaffected.
    pub fn set_position(&mut self, x: i64, y: i64)
        ensures
            final(self).spec_value() == old(self).spec_value(),
    {
        self.space_info.position = (x, y);
    }

    /// Renames the node's editor label; evaluation data is unaffected.
    pub fn set_name(&mut self, name: String)
        ensures
            final(self).spec_value() == old(self).spec_value(),
    {
        self.space_info.name = name;
    }
}

} // verus!
