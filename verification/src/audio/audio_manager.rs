//! The mixer window's audio state: its channel strips and its two output
//! buses. The platform backend that reports nodes is held by the
//! application.
use vstd::prelude::*;

use crate::audio::bus::Bus;
use crate::audio::channel::{BusOptions, DEFAULT_SEND_VOLUME_BITS};
use crate::audio::channel_manager::{send_of, with_send, ChannelManager};
use crate::audio::channel::Channel;
use crate::shell::icon::Icon;
use std::collections::HashMap;

verus! {

/// The two sends of a channel.
#[derive(Debug, Clone, Copy, PartialEq, Eq, Hash, Structural)]
pub enum ChannelBus {
    Monitor,
    Stream,
}

#[derive(Debug)]
pub struct AudioManager {
    channel_manager: ChannelManager,
    monitor_bus: Bus,
    stream_bus: Bus,
}

impl AudioManager {
    /// The channels, by id.
    pub closed spec fn channels(&self) -> Map<u128, Channel> {
        self.channel_manager@
    }

    /// The bus of a send.
    pub closed spec fn bus(&self, which: ChannelBus) -> Bus {
        match which {
            ChannelBus::Monitor => self.monitor_bus,
            ChannelBus::Stream => self.stream_bus,
        }
    }

    /// No channels; a `Monitor` and a `Stream` bus at volume 0.8, unmuted.
    pub fn new() -> (r: AudioManager)
        ensures
            r.channels() == Map::<u128, Channel>::empty(),
            r.bus(ChannelBus::Monitor).id@ == "Monitor"@,
            r.bus(ChannelBus::Stream).id@ == "Stream"@,
            r.bus(ChannelBus::Monitor).volume == DEFAULT_SEND_VOLUME_BITS && !r.bus(ChannelBus::Monitor).muted,
            r.bus(ChannelBus::Stream).volume == DEFAULT_SEND_VOLUME_BITS && !r.bus(ChannelBus::Stream).muted,
    {
        AudioManager {
            channel_manager: ChannelManager::new(),
            monitor_bus: Bus::new("Monitor".to_string()),
            stream_bus: Bus::new("Stream".to_string()),
        }
    }

    /// Adds a channel (see `ChannelManager::add_channel`); gives its id.
    pub fn add_channel(&mut self, name: &str) -> (r: u128)
        ensures
            final(self).channels() == old(self).channels().insert(r, final(self).channels()[r]),
            final(self).channels()[r].id == r,
            final(self).channels()[r].channel_name@ == name@,
            final(self).channels()[r].icon == Icon::Speaker,
            final(self).channels()[r].monitor_bus_options == BusOptions::new_spec(DEFAULT_SEND_VOLUME_BITS, false),
            final(self).channels()[r].stream_bus_options == BusOptions::new_spec(DEFAULT_SEND_VOLUME_BITS, false),
            final(self).bus(ChannelBus::Monitor) == old(self).bus(ChannelBus::Monitor),
            final(self).bus(ChannelBus::Stream) == old(self).bus(ChannelBus::Stream),
    {
        self.channel_manager.add_channel(name)
    }

    /// Sets a send's volume (see `ChannelManager::update_volume`).
    pub fn update_volume(&mut self, uuid: u128, volume: u32, bus: ChannelBus)
        ensures
            old(self).channels().contains_key(uuid) ==> final(self).channels() == old(self).channels().insert(
                uuid,
                with_send(
                    old(self).channels()[uuid],
                    bus,
                    BusOptions { volume, ..send_of(old(self).channels()[uuid], bus) },
                ),
            ),
            !old(self).channels().contains_key(uuid) ==> final(self).channels() == old(self).channels(),
            final(self).bus(ChannelBus::Monitor) == old(self).bus(ChannelBus::Monitor),
            final(self).bus(ChannelBus::Stream) == old(self).bus(ChannelBus::Stream),
    {
        self.channel_manager.update_volume(uuid, volume, bus);
    }

    /// Flips a send's mute (see `ChannelManager::toggle_mute`).
    pub fn toggle_mute(&mut self, uuid: u128, bus: ChannelBus)
        ensures
            old(self).channels().contains_key(uuid) ==> final(self).channels() == old(self).channels().insert(
                uuid,
                with_send(
                    old(self).channels()[uuid],
                    bus,
                    BusOptions {
                        muted: !send_of(old(self).channels()[uuid], bus).muted,
                        ..send_of(old(self).channels()[uuid], bus)
                    },
                ),
            ),
            !old(self).channels().contains_key(uuid) ==> final(self).channels() == old(self).channels(),
            final(self).bus(ChannelBus::Monitor) == old(self).bus(ChannelBus::Monitor),
            final(self).bus(ChannelBus::Stream) == old(self).bus(ChannelBus::Stream),
    {
        self.channel_manager.toggle_mute(uuid, bus);
    }

    /// The channels, by id.
    pub fn get_channels(&self) -> (r: &HashMap<u128, Channel>)
        ensures
            r@ == self.channels(),
    {
        self.channel_manager.get_channels()
    }

    /// The buses: the stream bus, then the monitor bus.
    pub fn get_busses(&self) -> (r: Vec<(ChannelBus, &Bus)>)
        ensures
            r@ == seq![
                (ChannelBus::Stream, &self.bus(ChannelBus::Stream)),
                (ChannelBus::Monitor, &self.bus(ChannelBus::Monitor)),
            ],
    {
        let mut r: Vec<(ChannelBus, &Bus)> = Vec::new();
        r.push((ChannelBus::Stream, &self.stream_bus));
        r.push((ChannelBus::Monitor, &self.monitor_bus));
        r
    }
}

} // verus!
