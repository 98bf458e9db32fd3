//! An output bus of the mixer window. Volumes are the bits of `f32`
//! values.
use vstd::prelude::*;

use crate::audio::channel::DEFAULT_SEND_VOLUME_BITS;

verus! {

#[derive(Debug, Clone)]
pub struct Bus {
    pub id: String,
    pub volume: u32,
    pub muted: bool,
}

impl Bus {
    /// A bus named `bus_name` at volume 0.8, unmuted.
    pub fn new(bus_name: String) -> (r: Bus)
        ensures
            r.id == bus_name,
            r.volume == DEFAULT_SEND_VOLUME_BITS,
            !r.muted,
    {
        Bus { id: bus_name, volume: DEFAULT_SEND_VOLUME_BITS, muted: false }
    }
}

} // verus!
