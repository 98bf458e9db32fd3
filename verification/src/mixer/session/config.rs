//! What the engine saves, and the saved file's shape.
use std::collections::HashMap;
use vstd::prelude::*;

use super::bus::Bus;
use super::channels::Channel;

verus! {

/// The data the engine hands over for saving.
#[derive(Debug, Clone)]
pub struct SavePayload {
    pub channels: HashMap<u128, Channel>,
    pub buses: HashMap<u128, Bus>,
    pub channel_order: Vec<u128>,
}

/// The saved file's structure: the same shape as `SavePayload`, kept apart
/// so the file format can diverge later.
#[derive(Debug, Clone)]
pub struct Config {
    pub channels: HashMap<u128, Channel>,
    pub buses: HashMap<u128, Bus>,
    pub channel_order: Vec<u128>,
}

impl Config {
    pub fn from_payload(payload: SavePayload) -> (r: Config)
        ensures
            r.channels@ == payload.channels@,
            r.buses@ == payload.buses@,
            r.channel_order@ == payload.channel_order@,
    {
        Config { channels: payload.channels, buses: payload.buses, channel_order: payload.channel_order }
    }
}

} // verus!
