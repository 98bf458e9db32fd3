//! The virtual sinks created for channels, by channel id. Creating the
//! PipeWire object is left to the application, which records the node it
//! got here.
use vstd::prelude::*;

use crate::names::NameMap;

verus! {

/// A created sink: its node id and node name.
#[derive(Debug)]
pub struct SinkInfo {
    pub node_id: u32,
    pub node_name: String,
}

impl View for SinkInfo {
    type V = (u32, Seq<char>);

    open spec fn view(&self) -> (u32, Seq<char>) {
        (self.node_id, self.node_name@)
    }
}

/// The node name of a channel's sink: `amplitude_channel_<channel id>`.
pub fn sink_node_name(channel_id: &str) -> (r: String)
    ensures
        r@ == "amplitude_channel_"@ + channel_id@,
{
    String::from_str("amplitude_channel_").concat(channel_id)
}

/// The sinks created for channels.
#[derive(Debug)]
pub struct PwSinkManager {
    sinks: NameMap<SinkInfo>,
}

impl PwSinkManager {
    /// The node id and node name of each channel's sink, by channel id.
    pub closed spec fn sinks(&self) -> Map<Seq<char>, (u32, Seq<char>)> {
        self.sinks@
    }

    pub closed spec fn wf(&self) -> bool {
        self.sinks.wf()
    }

    /// No sinks yet.
    pub fn new() -> (r: PwSinkManager)
        ensures
            r.wf(),
            r.sinks() == Map::<Seq<char>, (u32, Seq<char>)>::empty(),
    {
        PwSinkManager { sinks: NameMap::new() }
    }

    /// Records the sink created for a channel (replacing an earlier one)
    /// and gives its node id.
    pub fn record_virtual_sink(&mut self, channel_id: String, node_name: String, node_id: u32) -> (r: u32)
        requires
            old(self).wf(),
        ensures
            final(self).wf(),
            final(self).sinks() == old(self).sinks().insert(channel_id@, (node_id, node_name@)),
            r == node_id,
    {
        self.sinks.insert(channel_id, SinkInfo { node_id, node_name });
        node_id
    }

    /// The node id and node name of a channel's sink.
    pub fn get_sink(&self, channel_id: &str) -> (r: Option<(u32, &str)>)
        requires
            self.wf(),
        ensures
            match r {
                Some((id, name)) => self.sinks().contains_key(channel_id@) && self.sinks()[channel_id@] == (id, name@),
                None => !self.sinks().contains_key(channel_id@),
            },
    {
        match self.sinks.get(channel_id) {
            Some(info) => Some((info.node_id, info.node_name.as_str())),
            None => None,
        }
    }
}

} // verus!
