//! A channel with its sends to buses, in the first form of the mixer's
//! model. Volumes are the bits of `f32` values.
use vstd::prelude::*;

use crate::mixer::ids::new_id;

verus! {

/// A send of a channel to a bus.
#[derive(Debug, Clone, Copy, PartialEq, Eq, Structural)]
pub struct Send {
    pub bus_id: u128,
    pub volume: u32,
    pub muted: bool,
}

impl Send {
    pub fn new(bus_id: u128, volume: u32, muted: bool) -> (r: Send)
        ensures
            r == (Send { bus_id, volume, muted }),
    {
        Send { bus_id, volume, muted }
    }
}

/// A channel: a fresh id, a name and its sends.
#[derive(Debug, Clone)]
pub struct Channel {
    pub id: u128,
    pub name: String,
    pub sends: Vec<Send>,
}

impl Channel {
    /// A channel with a fresh random id.
    pub fn new(name: String, sends: Vec<Send>) -> (r: Channel)
        ensures
            r.name == name,
            r.sends == sends,
    {
        Channel { id: new_id(), name, sends }
    }
}

} // verus!
