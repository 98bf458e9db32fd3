//! Output buses (monitor and stream) that the channels mix into.
use vstd::prelude::*;

use super::channels::DEFAULT_LEVEL_BITS;
use crate::mixer::audio::link::Link;
use crate::mixer::audio::sink::Sink;
use crate::mixer::ids::new_id;

verus! {

/// A mix bus. `volume` holds the bits of an `f32` level.
#[derive(Debug, Clone)]
pub struct Bus {
    pub id: u128,
    pub name: String,
    pub volume: u32,
    pub muted: bool,
    /// The live sink node of the bus (not saved).
    pub sink: Sink,
    /// The link from the bus's sink to a physical output (not saved).
    pub output_link: Option<Link>,
}

impl Bus {
    /// A new bus at level 0.8, unmuted, with a fresh random id.
    pub fn new(name: String, sink: Sink) -> (r: Bus)
        ensures
            r.name == name,
            r.volume == DEFAULT_LEVEL_BITS,
            !r.muted,
            r.sink == sink,
            r.output_link is None,
            r.id != 0,
    {
        let id = new_id();
        proof {
            crate::mixer::ids::lemma_new_id_nonzero(id);
        }
        Bus { id, name, volume: DEFAULT_LEVEL_BITS, muted: false, sink, output_link: None }
    }

    /// A copy equal to `self`.
    pub fn duplicate(&self) -> (r: Bus)
        ensures
            r == *self,
    {
        Bus {
            id: self.id,
            name: self.name.clone(),
            volume: self.volume,
            muted: self.muted,
            sink: self.sink,
            output_link: self.output_link,
        }
    }
}

} // verus!
