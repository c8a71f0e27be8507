//! The polymorphic node: the closed set of node kinds the generator can
//! own, with one evaluation specification covering them all.
use vstd::prelude::*;

use crate::coordinate::Coordinate;
use crate::input_output_value::InputOutputValue;
use crate::library::blank_color::BlankColor;
use crate::library::invert::{spec_invert_generate, Invert};
use crate::library::mix::{spec_mix_generate, Mix};
use crate::library::noise::{spec_noise_generate, Noise};
use crate::library::normalize::{spec_normalize_generate, Normalize};
use crate::library::output::Output;
use crate::library::pattern::{spec_pattern_generate, Pattern};
use crate::library::remap::{spec_remap_generate, Remap};
use crate::library::static_value::StaticValue;
use crate::node::{NamedValues, NameView, NodeError, NodeErrorView, SpaceInfo};
use crate::pixel::Pixel;
use crate::scalar::Scalar;

verus! {

/// A unit of computation the graph can own.
#[derive(Debug)]
pub enum Node {
    StaticValue(StaticValue),
    BlankColor(BlankColor),
    Mix(Mix),
    Invert(Invert),
    Remap(Remap),
    Noise(Noise),
    Pattern(Pattern),
    Normalize(Normalize),
    Output(Output),
}

/// The mathematical form of a node: exactly the data its evaluation
/// depends on.
pub enum NodeData {
    StaticValue(InputOutputValue),
    BlankColor(Pixel),
    Mix,
    Invert,
    Remap(Seq<(InputOutputValue, Scalar)>),
    Noise(u32, Coordinate, Coordinate),
    Pattern,
    Normalize(int),
    Output,
}

impl View for Node {
    type V = NodeData;

    open spec fn view(&self) -> NodeData {
        match self {
            Node::StaticValue(n) => NodeData::StaticValue(n.spec_value()),
            Node::BlankColor(n) => NodeData::BlankColor(n.color),
            Node::Mix(_) => NodeData::Mix,
            Node::Invert(_) => NodeData::Invert,
            Node::Remap(n) => NodeData::Remap(n.spec_steps()),
            Node::Noise(n) => NodeData::Noise(n.spec_seed(), n.spec_offset(), n.spec_scale()),
            Node::Pattern(_) => NodeData::Pattern,
            Node::Normalize(n) => NodeData::Normalize(n.spec_factor()),
            Node::Output(_) => NodeData::Output,
        }
    }
}

/// What evaluating a node yields, for every node kind: a pure function of
/// the node's data, the position, the extent and the named inputs.
#[verifier::opaque]
pub open spec fn spec_node_generate(
    n: NodeData,
    position: Coordinate,
    size: (u32, u32),
    inputs: Map<NameView, InputOutputValue>,
) -> Result<InputOutputValue, NodeErrorView> {
    match n {
        NodeData::StaticValue(v) => Ok(v),
        NodeData::BlankColor(c) => Ok(InputOutputValue::Pixel(c)),
        NodeData::Mix => spec_mix_generate(inputs),
        NodeData::Invert => spec_invert_generate(inputs),
        NodeData::Remap(steps) => spec_remap_generate(steps, inputs),
        NodeData::Noise(seed, offset, scale) => spec_noise_generate(
            seed,
            offset,
            scale,
            position,
            size,
        ),
        NodeData::Pattern => spec_pattern_generate(position, inputs),
        NodeData::Normalize(factor) => spec_normalize_generate(factor, inputs),
        NodeData::Output => Ok(InputOutputValue::Nothing),
    }
}

impl Node {
    /// Evaluates the node: produce a value from the position, the
    /// evaluation extent and the named input values.
    pub fn generate(
        &self,
        position: &Coordinate,
        size: (u32, u32),
        input: &NamedValues,
    ) -> (r: Result<InputOutputValue, NodeError>)
        requires
            input.wf(),
        ensures
            crate::node::result_view(r) == spec_node_generate(self@, *position, size, input@),
    {
        proof {
            reveal(spec_node_generate);
        }
        match self {
            Node::StaticValue(n) => n.generate(position, size, input),
            Node::BlankColor(n) => n.generate(position, size, input),
            Node::Mix(n) => n.generate(position, size, input),
            Node::Invert(n) => n.generate(position, size, input),
            Node::Remap(n) => n.generate(position, size, input),
            Node::Noise(n) => n.generate(position, size, input),
            Node::Pattern(n) => n.generate(position, size, input),
            Node::Normalize(n) => n.generate(position, size, input),
            Node::Output(n) => n.generate(position, size, input),
        }
    }

    /// Whether this node is the graph's sink.
    pub fn is_output(&self) -> (r: bool)
        ensures
            r == (self@ is Output),
    {
        match self {
            Node::Output(_) => true,
            _ => false,
        }
    }

    /// The presentation metadata, for the editor layer.
    pub fn space_info(&self) -> &SpaceInfo {
        match self {
            Node::StaticValue(n) => n.space_info(),
            Node::BlankColor(n) => n.space_info(),
            Node::Mix(n) => n.space_info(),
            Node::Invert(n) => n.space_info(),
            Node::Remap(n) => n.space_info(),
            Node::Noise(n) => n.space_info(),
            Node::Pattern(n) => n.space_info(),
            Node::Normalize(n) => n.space_info(),
            Node::Output(n) => n.space_info(),
        }
    }

    /// Moves the node on the editor canvas; its evaluation data is
    /// untouched.
    pub fn set_position(&mut self, x: i64, y: i64)
        ensures
            final(self)@ == old(self)@,
    {
        match self {
            Node::StaticValue(n) => n.set_position(x, y),
            Node::BlankColor(n) => n.set_position(x, y),
            Node::Mix(n) => n.set_position(x, y),
            Node::Invert(n) => n.set_position(x, y),
            Node::Remap(n) => n.set_position(x, y),
            Node::Noise(n) => n.set_position(x, y),
            Node::Pattern(n) => n.set_position(x, y),
            Node::Normalize(n) => n.set_position(x, y),
            Node::Output(n) => n.set_position(x, y),
        }
    }

    /// Renames the node's editor label; its evaluation data is untouched.
    pub fn set_name(&mut self, name: String)
        ensures
            final(self)@ == old(self)@,
    {
        match self {
            Node::StaticValue(n) => n.set_name(name),
            Node::BlankColor(n) => n.set_name(name),
            Node::Mix(n) => n.set_name(name),
            Node::Invert(n) => n.set_name(name),
            Node::Remap(n) => n.set_name(name),
            Node::Noise(n) => n.set_name(name),
            Node::Pattern(n) => n.set_name(name),
            Node::Normalize(n) => n.set_name(name),
            Node::Output(n) => n.set_name(name),
        }
    }
}

} // verus!
