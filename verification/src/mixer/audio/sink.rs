//! A virtual sink node created by the mixer.
use vstd::prelude::*;

use crate::mixer::ids::new_id;

verus! {

/// A virtual sink: a fresh id of its own, and the platform's id for the node
/// (0 when there is no live node).
#[derive(Debug, Clone, Copy, PartialEq, Eq, Structural)]
pub struct Sink {
    pub id: u128,
    pub external_id: u64,
}

impl Sink {
    /// A sink with a fresh random id for the node `external_id`.
    pub fn new(external_id: u64) -> (r: Sink)
        ensures
            r.external_id == external_id,
            r.id != 0,
    {
        let id = new_id();
        proof {
            crate::mixer::ids::lemma_new_id_nonzero(id);
        }
        Sink { id, external_id }
    }
}

} // verus!
