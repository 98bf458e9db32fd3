//! A live link between two nodes.
use vstd::prelude::*;

verus! {

/// A PipeWire link from the monitor/output ports of one node to the input
/// ports of another; `id` is the link's global id.
#[derive(Debug, Clone, Copy, PartialEq, Eq, Structural)]
pub struct Link {
    pub id: u64,
    pub output_node_id: u64,
    pub input_node_id: u64,
}

impl Link {
    pub fn new(id: u64, output_node_id: u64, input_node_id: u64) -> (r: Link)
        ensures
            r == (Link { id, output_node_id, input_node_id }),
    {
        Link { id, output_node_id, input_node_id }
    }
}

} // verus!
