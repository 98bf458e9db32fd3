//! Events that the PipeWire thread reports, and the graph objects they carry.
use vstd::prelude::*;

verus! {

/// What happened on the audio graph. Peak levels are carried as the bit
/// patterns of their `f32` values (`f32::to_bits`).
#[derive(Debug, Clone)]
pub enum AudioEvent {
    NodeAdded(NodeInfo),
    NodeRemoved { id: u32 },
    NodeChanged(NodeInfo),
    PortAdded(PortInfo),
    PortRemoved { id: u32, node_id: u32 },
    LinkAdded(LinkInfo),
    LinkRemoved { id: u32 },
    ConnectionChanged,
    Ready,
    Error(String),
    /// A virtual sink created by the mixer was discovered.
    VirtualSinkDiscovered(VirtualSinkInfo),
    /// A channel sink created by the mixer was discovered.
    ChannelSinkDiscovered { name: String, id: u32 },
    /// Which of the two bus sinks exist (the answer to `CheckVirtualSinks`).
    VirtualSinksStatus {
        monitor_exists: bool,
        stream_exists: bool,
        monitor_id: Option<u32>,
        stream_id: Option<u32>,
    },
    /// Peak level of a node, for level meters.
    PeakLevel { node_id: u32, left: u32, right: u32 },
    /// Peak level of a channel, for channel level meters.
    ChannelPeakLevel { channel_name: String, left: u32, right: u32 },
}

/// An audio node of the graph.
#[derive(Debug, Clone)]
pub struct NodeInfo {
    pub id: u32,
    pub name: String,
    pub description: Option<String>,
    pub application_name: Option<String>,
    pub media_class: String,
    pub node_type: NodeType,
}

/// The role of a node.
#[derive(Debug, Clone, Copy, PartialEq, Eq, Structural)]
pub enum NodeType {
    ApplicationOutput,
    ApplicationInput,
    SinkDevice,
    SourceDevice,
    Virtual,
    Unknown,
}

/// A port of a node.
#[derive(Debug, Clone)]
pub struct PortInfo {
    pub id: u32,
    pub node_id: u32,
    pub name: String,
    pub direction: PortDirection,
    pub channel: Option<String>,
}

#[derive(Debug, Clone, Copy, PartialEq, Eq, Structural)]
pub enum PortDirection {
    Input,
    Output,
}

/// A link between two ports.
#[derive(Debug, Clone, Copy, PartialEq, Eq, Structural)]
pub struct LinkInfo {
    pub id: u32,
    pub output_port: u32,
    pub input_port: u32,
    pub output_node: u32,
    pub input_node: u32,
}

/// A virtual sink created by the mixer.
#[derive(Debug, Clone)]
pub struct VirtualSinkInfo {
    pub id: u32,
    pub name: String,
    pub description: Option<String>,
}

/// A copy of an optional string that is equal to it.
pub fn copy_opt_string(s: &Option<String>) -> (r: Option<String>)
    ensures
        r == *s,
{
    match s {
        Some(v) => Some(v.clone()),
        None => None,
    }
}

impl NodeInfo {
    /// A copy equal to `self`.
    pub fn duplicate(&self) -> (r: NodeInfo)
        ensures
            r == *self,
    {
        NodeInfo {
            id: self.id,
            name: self.name.clone(),
            description: copy_opt_string(&self.description),
            application_name: copy_opt_string(&self.application_name),
            media_class: self.media_class.clone(),
            node_type: self.node_type,
        }
    }
}

impl PortInfo {
    /// A copy equal to `self`.
    pub fn duplicate(&self) -> (r: PortInfo)
        ensures
            r == *self,
    {
        PortInfo {
            id: self.id,
            node_id: self.node_id,
            name: self.name.clone(),
            direction: self.direction,
            channel: copy_opt_string(&self.channel),
        }
    }
}

impl VirtualSinkInfo {
    /// A copy equal to `self`.
    pub fn duplicate(&self) -> (r: VirtualSinkInfo)
        ensures
            r == *self,
    {
        VirtualSinkInfo {
            id: self.id,
            name: self.name.clone(),
            description: copy_opt_string(&self.description),
        }
    }
}

} // verus!
