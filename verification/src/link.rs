//! A directed, optionally named edge from a producer node to a consumer
//! node; self-loops are excluded.
use vstd::prelude::*;

verus! {

#[derive(Debug, Clone, Copy, PartialEq, Eq, Structural)]
pub struct Link {
    pub input_node: usize,
    pub output_node: usize,
}

impl Link {
    pub fn new(input_node: usize, output_node: usize) -> (r: Link)
        requires
            input_node != output_node,
        ensures
            r == (Link { input_node, output_node }),
    {
        Link { input_node, output_node }
    }
}

} // verus!
