//! Input channels: each has a virtual sink and sends into the buses.
use vstd::prelude::*;

use crate::mixer::audio::link::Link;
use crate::mixer::audio::sink::Sink;
use crate::mixer::ids::new_id;

verus! {

/// The bits of the `f32` value 0.8, the default send and bus level.
pub const DEFAULT_LEVEL_BITS: u32 = 0x3f4c_cccd;

/// An input channel. Levels are the bit patterns of `f32` values.
#[derive(Debug, Clone)]
pub struct Channel {
    pub id: u128,
    pub name: String,
    pub sends: Vec<Send>,
    pub connections: Vec<Connection>,
    /// The live sink node of the channel (not saved).
    pub virtual_sink: Sink,
    /// The link from a physical source into the channel's sink (not saved).
    pub input_link: Option<Link>,
    /// One link per bus that the channel feeds (not saved).
    pub bus_links: Vec<Link>,
}

/// How much of a channel goes to one bus.
#[derive(Debug, Clone, Copy, PartialEq, Eq, Structural)]
pub struct Send {
    pub bus_id: u128,
    /// Bits of the `f32` level.
    pub volume: u32,
    pub muted: bool,
}

/// An application process routed into a channel.
#[derive(Debug, Clone)]
pub struct Connection {
    pub process_id: u32,
    pub process_name: String,
}

impl Send {
    pub fn new(bus_id: u128, volume: u32, muted: bool) -> (r: Send)
        ensures
            r == (Send { bus_id, volume, muted }),
    {
        Send { bus_id, volume, muted }
    }
}

impl Connection {
    pub fn new(process_id: u32, process_name: String) -> (r: Connection)
        ensures
            r.process_id == process_id,
            r.process_name == process_name,
    {
        Connection { process_id, process_name }
    }

    /// A copy equal to `self`.
    pub fn duplicate(&self) -> (r: Connection)
        ensures
            r == *self,
    {
        Connection { process_id: self.process_id, process_name: self.process_name.clone() }
    }
}

/// A copy of a list of sends.
pub fn copy_sends(v: &Vec<Send>) -> (r: Vec<Send>)
    ensures
        r@ == v@,
{
    let mut out: Vec<Send> = Vec::new();
    let mut i: usize = 0;
    while i < v.len()
        invariant
            i <= v.len(),
            out@ == v@.take(i as int),
        decreases v.len() - i,
    {
        out.push(v[i]);
        i += 1;
        assert(out@ =~= v@.take(i as int));
    }
    assert(v@.take(v.len() as int) =~= v@);
    out
}

/// A copy of a list of links.
pub fn copy_links(v: &Vec<Link>) -> (r: Vec<Link>)
    ensures
        r@ == v@,
{
    let mut out: Vec<Link> = Vec::new();
    let mut i: usize = 0;
    while i < v.len()
        invariant
            i <= v.len(),
            out@ == v@.take(i as int),
        decreases v.len() - i,
    {
        out.push(v[i]);
        i += 1;
        assert(out@ =~= v@.take(i as int));
    }
    assert(v@.take(v.len() as int) =~= v@);
    out
}

/// A copy of a list of connections.
pub fn copy_connections(v: &Vec<Connection>) -> (r: Vec<Connection>)
    ensures
        r@ == v@,
{
    let mut out: Vec<Connection> = Vec::new();
    let mut i: usize = 0;
    while i < v.len()
        invariant
            i <= v.len(),
            out@ == v@.take(i as int),
        decreases v.len() - i,
    {
        out.push(v[i].duplicate());
        i += 1;
        assert(out@ =~= v@.take(i as int));
    }
    assert(v@.take(v.len() as int) =~= v@);
    out
}

impl Channel {
    /// A new channel with a fresh random id, no connections and no links.
    pub fn new(name: String, sends: Vec<Send>, virtual_sink: Sink) -> (r: Channel)
        ensures
            r.name == name,
            r.sends == sends,
            r.connections@.len() == 0,
            r.virtual_sink == virtual_sink,
            r.input_link is None,
            r.bus_links@.len() == 0,
            r.id != 0,
    {
        let id = new_id();
        proof {
            crate::mixer::ids::lemma_new_id_nonzero(id);
        }
        Channel {
            id,
            name,
            sends,
            connections: Vec::new(),
            virtual_sink,
            input_link: None,
            bus_links: Vec::new(),
        }
    }

    /// A copy equal to `self`.
    pub fn duplicate(&self) -> (r: Channel)
        ensures
            r.id == self.id,
            r.name == self.name,
            r.sends@ == self.sends@,
            r.connections@ == self.connections@,
            r.virtual_sink == self.virtual_sink,
            r.input_link == self.input_link,
            r.bus_links@ == self.bus_links@,
    {
        Channel {
            id: self.id,
            name: self.name.clone(),
            sends: copy_sends(&self.sends),
            connections: copy_connections(&self.connections),
            virtual_sink: self.virtual_sink,
            input_link: self.input_link,
            bus_links: copy_links(&self.bus_links),
        }
    }
}

} // verus!
