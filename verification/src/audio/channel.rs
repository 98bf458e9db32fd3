//! A channel strip of the mixer window: its id, icon, name, and the
//! settings of its monitor and stream sends. Levels are the bits of `f32`
//! values (`f32::to_bits`).
use vstd::prelude::*;

use crate::mixer::ids::new_id;
use crate::shell::icon::Icon;

verus! {

/// Bits of the `f32` value 0.8, a new send's volume.
pub const DEFAULT_SEND_VOLUME_BITS: u32 = 0x3f4c_cccd;

/// The settings of one send of a channel: volume, mute, and the last
/// measured level.
#[derive(Debug, Clone, Copy, PartialEq, Eq, Structural)]
pub struct BusOptions {
    pub volume: u32,
    pub muted: bool,
    pub level: u32,
}

impl BusOptions {
    /// A send with this volume and mute, and no level measured yet (0.0).
    pub fn new(volume: u32, muted: bool) -> (r: BusOptions)
        ensures
            r == (BusOptions { volume, muted, level: 0 }),
    {
        BusOptions { volume, muted, level: 0 }
    }
}

/// A channel strip.
#[derive(Debug, Clone)]
pub struct Channel {
    pub id: u128,
    pub icon: Icon,
    pub channel_name: String,
    pub monitor_bus_options: BusOptions,
    pub stream_bus_options: BusOptions,
}

impl Channel {
    /// A new channel with a fresh random id, both sends at volume 0.8 and
    /// unmuted.
    pub fn new(channel_name: String, icon: Icon) -> (r: Channel)
        ensures
            r.channel_name == channel_name,
            r.icon == icon,
            r.monitor_bus_options == BusOptions::new_spec(DEFAULT_SEND_VOLUME_BITS, false),
            r.stream_bus_options == BusOptions::new_spec(DEFAULT_SEND_VOLUME_BITS, false),
    {
        Channel {
            id: new_id(),
            channel_name,
            icon,
            monitor_bus_options: BusOptions::new(DEFAULT_SEND_VOLUME_BITS, false),
            stream_bus_options: BusOptions::new(DEFAULT_SEND_VOLUME_BITS, false),
        }
    }

    /// The channel as loaded from the configuration: id, name, icon, and
    /// send volumes and mutes are kept; no level is measured yet.
    pub fn from_config(channel: &Channel) -> (r: Channel)
        ensures
            r.id == channel.id,
            r.channel_name@ == channel.channel_name@,
            r.icon == channel.icon,
            r.monitor_bus_options == BusOptions::new_spec(
                channel.monitor_bus_options.volume,
                channel.monitor_bus_options.muted,
            ),
            r.stream_bus_options == BusOptions::new_spec(
                channel.stream_bus_options.volume,
                channel.stream_bus_options.muted,
            ),
    {
        Channel {
            id: channel.id,
            channel_name: channel.channel_name.clone(),
            icon: channel.icon,
            monitor_bus_options: BusOptions::new(
                channel.monitor_bus_options.volume,
                channel.monitor_bus_options.muted,
            ),
            stream_bus_options: BusOptions::new(channel.stream_bus_options.volume, channel.stream_bus_options.muted),
        }
    }
}

impl Channel {
    /// A copy equal to `self`.
    pub fn duplicate(&self) -> (r: Channel)
        ensures
            r == *self,
    {
        Channel {
            id: self.id,
            icon: self.icon,
            channel_name: self.channel_name.clone(),
            monitor_bus_options: self.monitor_bus_options,
            stream_bus_options: self.stream_bus_options,
        }
    }
}

impl BusOptions {
    pub open spec fn new_spec(volume: u32, muted: bool) -> BusOptions {
        BusOptions { volume, muted, level: 0 }
    }
}

/// What the new-channel dialog edits.
#[derive(Debug, Clone)]
pub struct NewChannelData {
    pub name: String,
}

impl Default for NewChannelData {
    /// The dialog's data when it opens: an empty name.
    fn default() -> (r: NewChannelData)
        ensures
            r.name@ == Seq::<char>::empty(),
    {
        NewChannelData { name: String::new() }
    }
}

} // verus!
