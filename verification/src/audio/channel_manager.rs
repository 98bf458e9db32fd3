//! The channel strips of the mixer window, by id.
use std::collections::HashMap;
use vstd::prelude::*;

use crate::audio::audio_manager::ChannelBus;
use crate::audio::channel::{BusOptions, Channel, DEFAULT_SEND_VOLUME_BITS};
use crate::shell::icon::Icon;

verus! {

broadcast use vstd::std_specs::hash::group_hash_axioms;

/// `c` with the options of send `bus` replaced by `o`.
pub open spec fn with_send(c: Channel, bus: ChannelBus, o: BusOptions) -> Channel {
    match bus {
        ChannelBus::Monitor => Channel { monitor_bus_options: o, ..c },
        ChannelBus::Stream => Channel { stream_bus_options: o, ..c },
    }
}

/// The options of send `bus` of `c`.
pub open spec fn send_of(c: Channel, bus: ChannelBus) -> BusOptions {
    match bus {
        ChannelBus::Monitor => c.monitor_bus_options,
        ChannelBus::Stream => c.stream_bus_options,
    }
}

#[derive(Debug)]
pub struct ChannelManager {
    channels: HashMap<u128, Channel>,
}

impl View for ChannelManager {
    type V = Map<u128, Channel>;

    closed spec fn view(&self) -> Map<u128, Channel> {
        self.channels@
    }
}

impl ChannelManager {
    /// No channels.
    pub fn new() -> (r: ChannelManager)
        ensures
            r@ == Map::<u128, Channel>::empty(),
    {
        ChannelManager { channels: HashMap::new() }
    }

    /// Adds a channel named `name` with the speaker icon (see
    /// `Channel::new`); gives its id.
    pub fn add_channel(&mut self, name: &str) -> (r: u128)
        ensures
            final(self)@ == old(self)@.insert(r, final(self)@[r]),
            final(self)@[r].id == r,
            final(self)@[r].channel_name@ == name@,
            final(self)@[r].icon == Icon::Speaker,
            final(self)@[r].monitor_bus_options == BusOptions::new_spec(DEFAULT_SEND_VOLUME_BITS, false),
            final(self)@[r].stream_bus_options == BusOptions::new_spec(DEFAULT_SEND_VOLUME_BITS, false),
    {
        let channel = Channel::new(name.to_string(), Icon::Speaker);
        let id = channel.id;
        self.channels.insert(id, channel);
        id
    }

    /// Changes send `bus` of channel `uuid` by `f`; nothing when there is
    /// no such channel.
    fn update_send(&mut self, uuid: u128, bus: ChannelBus, volume: Option<u32>)
        ensures
            old(self)@.contains_key(uuid) ==> final(self)@ == old(self)@.insert(
                uuid,
                with_send(
                    old(self)@[uuid],
                    bus,
                    match volume {
                        Some(v) => BusOptions { volume: v, ..send_of(old(self)@[uuid], bus) },
                        None => BusOptions { muted: !send_of(old(self)@[uuid], bus).muted, ..send_of(old(self)@[uuid], bus) },
                    },
                ),
            ),
            !old(self)@.contains_key(uuid) ==> final(self)@ == old(self)@,
    {
        match self.channels.remove(&uuid) {
            Some(mut channel) => {
                match bus {
                    ChannelBus::Monitor => match volume {
                        Some(v) => channel.monitor_bus_options.volume = v,
                        None => channel.monitor_bus_options.muted = !channel.monitor_bus_options.muted,
                    },
                    ChannelBus::Stream => match volume {
                        Some(v) => channel.stream_bus_options.volume = v,
                        None => channel.stream_bus_options.muted = !channel.stream_bus_options.muted,
                    },
                }
                self.channels.insert(uuid, channel);
                assert(self@ =~= old(self)@.insert(uuid, self@[uuid]));
            },
            None => {
                assert(self@ =~= old(self)@);
            },
        }
    }

    /// Flips the mute of send `bus` of channel `uuid`; nothing when there
    /// is no such channel.
    pub fn toggle_mute(&mut self, uuid: u128, bus: ChannelBus)
        ensures
            old(self)@.contains_key(uuid) ==> final(self)@ == old(self)@.insert(
                uuid,
                with_send(
                    old(self)@[uuid],
                    bus,
                    BusOptions { muted: !send_of(old(self)@[uuid], bus).muted, ..send_of(old(self)@[uuid], bus) },
                ),
            ),
            !old(self)@.contains_key(uuid) ==> final(self)@ == old(self)@,
    {
        self.update_send(uuid, bus, None);
    }

    /// Sets the volume (bits of an `f32`) of send `bus` of channel `uuid`;
    /// nothing when there is no such channel.
    pub fn update_volume(&mut self, uuid: u128, volume: u32, bus: ChannelBus)
        ensures
            old(self)@.contains_key(uuid) ==> final(self)@ == old(self)@.insert(
                uuid,
                with_send(old(self)@[uuid], bus, BusOptions { volume, ..send_of(old(self)@[uuid], bus) }),
            ),
            !old(self)@.contains_key(uuid) ==> final(self)@ == old(self)@,
    {
        self.update_send(uuid, bus, Some(volume));
    }

    /// The channels, by id.
    pub fn get_channels(&self) -> (r: &HashMap<u128, Channel>)
        ensures
            r@ == self@,
    {
        &self.channels
    }
}

/// Toggling a send's mute twice gives the channel back as it was.
pub proof fn law_toggle_mute_twice(c: Channel, bus: ChannelBus)
    ensures
        ({
            let once = with_send(c, bus, BusOptions { muted: !send_of(c, bus).muted, ..send_of(c, bus) });
            with_send(once, bus, BusOptions { muted: !send_of(once, bus).muted, ..send_of(once, bus) })
        }) == c,
{
}

} // verus!
