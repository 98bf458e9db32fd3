//! The mixer window's saved configuration: its channel strips. Reading and
//! writing the file is the application's business.
use std::collections::HashMap;
use vstd::prelude::*;
use vstd::std_specs::iter::IteratorSpec;

use crate::audio::channel::{BusOptions, Channel, DEFAULT_SEND_VOLUME_BITS};
use crate::shell::icon::Icon;

verus! {

broadcast use vstd::std_specs::hash::group_hash_axioms;

/// Whether `c` is one of the channels of `table`.
pub open spec fn in_table(table: Map<u128, Channel>, c: Channel) -> bool {
    exists|k: u128| #[trigger] table.contains_key(k) && table[k] == c
}

#[derive(Debug, Clone)]
pub struct Config {
    pub channels: Vec<Channel>,
}

impl Config {
    /// The first configuration: one `Microphone` channel with the
    /// microphone icon (see `Channel::new`).
    pub fn new() -> (r: Config)
        ensures
            r.channels@.len() == 1,
            r.channels@[0].channel_name@ == "Microphone"@,
            r.channels@[0].icon == Icon::Microphone,
            r.channels@[0].monitor_bus_options == BusOptions::new_spec(DEFAULT_SEND_VOLUME_BITS, false),
            r.channels@[0].stream_bus_options == BusOptions::new_spec(DEFAULT_SEND_VOLUME_BITS, false),
    {
        let mut channels: Vec<Channel> = Vec::new();
        channels.push(Channel::new("Microphone".to_string(), Icon::Microphone));
        Config { channels }
    }

    /// Replaces the channels by those of a table, each once, in no
    /// particular order (what saving the window's channels does first).
    pub fn set_channels(&mut self, channels: &HashMap<u128, Channel>)
        ensures
            final(self).channels@.len() == channels@.len(),
            forall|i: int| 0 <= i < final(self).channels@.len() ==> in_table(channels@, #[trigger] final(self).channels@[i]),
            forall|k: u128|
                #[trigger] channels@.contains_key(k) ==> exists|i: int|
                    0 <= i < final(self).channels@.len() && final(self).channels@[i] == channels@[k],
    {
        let mut out: Vec<Channel> = Vec::new();
        let ghost keys = vstd::std_specs::hash::spec_keys_iter(channels).remaining();
        // `src[i]`: the key whose channel `out[i]` is.
        let ghost mut src: Seq<u128> = Seq::empty();
        for k in it: channels.keys()
            invariant
                it.seq() == keys,
                keys.no_duplicates(),
                keys.unref().to_set() == channels@.dom(),
                src == keys.unref().take(it.index()),
                out@.len() == src.len(),
                forall|i: int| 0 <= i < out@.len() ==> channels@.contains_key(#[trigger] src[i]) && channels@[src[i]] == out@[i],
        {
            assert(keys.unref().take(it.index() + 1) == keys.unref().take(it.index()).push(*k));
            assert(channels@.contains_key(*k)) by {
                assert(keys.unref().to_set().contains(keys.unref()[it.index()]));
            }
            match channels.get(k) {
                Some(c) => {
                    out.push(c.duplicate());
                },
                None => {},
            }
            proof {
                src = src.push(*k);
            }
        }
        self.channels = out;
        proof {
            assert(keys.unref().take(keys.len() as int) =~= keys.unref());
            assert(src == keys.unref());
            keys.unref().unique_seq_to_set();
            assert forall|i: int| 0 <= i < self.channels@.len() implies in_table(channels@, #[trigger] self.channels@[i]) by {
                assert(channels@.contains_key(src[i]));
            }
            assert forall|k: u128| #[trigger] channels@.contains_key(k) implies exists|i: int|
                0 <= i < self.channels@.len() && self.channels@[i] == channels@[k] by {
                assert(keys.unref().to_set().contains(k));
                let i = choose|i: int| 0 <= i < src.len() && src[i] == k;
                assert(self.channels@[i] == channels@[src[i]]);
            }
        }
    }
}

} // verus!
