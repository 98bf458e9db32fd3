//! The bookkeeping of the PipeWire thread: the graph it has seen, the
//! virtual sinks it knows, and what each command asks of PipeWire. The
//! thread itself, and the PipeWire calls, live in the application; it hands
//! this state each registry change and each command, and performs the
//! actions and sends the events that come back.
use std::collections::HashMap;
use vstd::prelude::*;
use vstd::std_specs::iter::IteratorSpec;

use crate::audio::events::{copy_opt_string, AudioEvent, LinkInfo, NodeInfo, NodeType, PortDirection, PortInfo, VirtualSinkInfo};
use crate::names::NameMap;
use crate::seqs::{seq_without, vec_without};
use crate::pipewire::global::{Global, ObjectKind};
use crate::strings::{
    contains, get_prop, has_infix, has_prefix, lookup, opt_view, parse_u32, parse_u32_spec, starts_with, str_eq, to_owned,
};

verus! {

broadcast use vstd::std_specs::hash::group_hash_axioms;

/// Node name of the virtual sink that feeds the monitor mix.
pub const MONITOR_SINK_NAME: &'static str = "amplitude-monitor";

/// Node name of the virtual sink that feeds the stream mix.
pub const STREAM_SINK_NAME: &'static str = "amplitude-stream";

/// Prefix of the node names of channel sinks.
pub const CHANNEL_SINK_PREFIX: &'static str = "amplitude-channel-";

/// What the application asks of the PipeWire thread. Volumes are the bits
/// of `f32` values (`f32::to_bits`).
#[derive(Debug, Clone)]
pub enum PipeWireCommand {
    CreateLink { output_port: u32, input_port: u32 },
    DestroyLink { link_id: u32 },
    /// Destroy all links originating from a node's output ports.
    DestroyLinksFromNode { node_id: u32 },
    CreateVirtualSink { name: String, description: String },
    CheckVirtualSinks,
    /// Route an application's output to a virtual sink.
    RouteAppToSink { app_node_id: u32, sink_node_id: u32 },
    /// Connect a virtual sink's monitor to the default output device.
    ConnectSinkToOutput { sink_node_id: u32 },
    /// Connect a channel sink to both the monitor and the stream sink.
    ConnectChannelToOutputs { channel_sink_id: u32, monitor_sink_id: u32, stream_sink_id: u32 },
    /// Find and store the default output device.
    FindDefaultOutput,
    /// Set the volume of a channel sink (0.0 to 1.0, as `f32` bits).
    SetChannelVolume { channel_name: String, volume: u32 },
    /// Mute or unmute a channel sink.
    SetChannelMuted { channel_name: String, muted: bool },
    /// Route an application to a channel sink by channel name.
    RouteAppToChannelByName { app_node_id: u32, channel_name: String },
    /// Route an application to both the monitor and the stream sink.
    RouteAppToVirtualSinks { app_node_id: u32 },
    Shutdown,
}

/// What the PipeWire thread must do for a command.
#[derive(Debug, Clone)]
pub enum PwAction {
    /// Create a lingering link from an output port to an input port.
    CreateLink { output_port: u32, input_port: u32 },
    /// Create a null audio sink with this node name and description.
    CreateNullSink { name: String, description: String },
    /// Report an event to the application.
    Emit(AudioEvent),
}

/// The ids listed under `k`, none when there is no entry.
pub open spec fn list_of(m: Map<u32, Vec<u32>>, k: u32) -> Seq<u32> {
    if m.contains_key(k) {
        m[k]@
    } else {
        Seq::empty()
    }
}

/// The ports among `ids` that are known and go in direction `dir`, in
/// the order of `ids`.
pub open spec fn listed_ports(ids: Seq<u32>, ports: Map<u32, PortInfo>, dir: PortDirection) -> Seq<PortInfo>
    decreases ids.len(),
{
    if ids.len() == 0 {
        Seq::empty()
    } else {
        let rest = listed_ports(ids.drop_last(), ports, dir);
        if ports.contains_key(ids.last()) && ports[ids.last()].direction == dir {
            rest.push(ports[ids.last()])
        } else {
            rest
        }
    }
}

/// The ports of `s`, read through the references.
pub open spec fn derefs(s: Seq<&PortInfo>) -> Seq<PortInfo> {
    s.map_values(|p: &PortInfo| *p)
}

/// Whether two ports may be linked: they carry the same audio channel, or
/// one of them carries none.
pub open spec fn channels_match(a: Option<String>, b: Option<String>) -> bool {
    match (a, b) {
        (Some(x), Some(y)) => x@ == y@,
        _ => true,
    }
}

/// The first port of `dst` whose channel matches that of `p`.
pub open spec fn first_match(p: PortInfo, dst: Seq<PortInfo>) -> Option<int>
    decreases dst.len(),
{
    if dst.len() == 0 {
        None
    } else {
        match first_match(p, dst.drop_last()) {
            Some(j) => Some(j),
            None => if channels_match(p.channel, dst.last().channel) {
                Some(dst.len() - 1)
            } else {
                None
            },
        }
    }
}

/// The links that connect `src` to `dst`: each source port, in order, to
/// the first destination port whose channel matches; a source port with no
/// such destination gets no link.
pub open spec fn port_pairs(src: Seq<PortInfo>, dst: Seq<PortInfo>) -> Seq<(u32, u32)>
    decreases src.len(),
{
    if src.len() == 0 {
        Seq::empty()
    } else {
        let rest = port_pairs(src.drop_last(), dst);
        match first_match(src.last(), dst) {
            Some(j) => rest.push((src.last().id, dst[j].id)),
            None => rest,
        }
    }
}

/// The link ids listed under each of `ports`, one port after the other.
pub open spec fn links_of_ports(ports: Seq<PortInfo>, port_links: Map<u32, Vec<u32>>) -> Seq<u32>
    decreases ports.len(),
{
    if ports.len() == 0 {
        Seq::empty()
    } else {
        links_of_ports(ports.drop_last(), port_links) + list_of(port_links, ports.last().id)
    }
}

/// The node type that a media class names.
pub open spec fn node_type_of(media_class: Seq<char>) -> NodeType {
    if media_class == "Stream/Output/Audio"@ {
        NodeType::ApplicationOutput
    } else if media_class == "Stream/Input/Audio"@ {
        NodeType::ApplicationInput
    } else if media_class == "Audio/Sink"@ {
        NodeType::SinkDevice
    } else if media_class == "Audio/Source"@ {
        NodeType::SourceDevice
    } else if media_class == "Audio/Sink/Virtual"@ || media_class == "Audio/Source/Virtual"@ {
        NodeType::Virtual
    } else {
        NodeType::Unknown
    }
}

/// Classifies a node by its media class.
pub fn classify_node(media_class: &str) -> (r: NodeType)
    ensures
        r == node_type_of(media_class@),
{
    proof {
        reveal_strlit("Stream/Output/Audio");
        reveal_strlit("Stream/Input/Audio");
        reveal_strlit("Audio/Sink");
        reveal_strlit("Audio/Source");
        reveal_strlit("Audio/Sink/Virtual");
        reveal_strlit("Audio/Source/Virtual");
    }
    if str_eq(media_class, "Stream/Output/Audio") {
        NodeType::ApplicationOutput
    } else if str_eq(media_class, "Stream/Input/Audio") {
        NodeType::ApplicationInput
    } else if str_eq(media_class, "Audio/Sink") {
        NodeType::SinkDevice
    } else if str_eq(media_class, "Audio/Source") {
        NodeType::SourceDevice
    } else if str_eq(media_class, "Audio/Sink/Virtual") || str_eq(media_class, "Audio/Source/Virtual") {
        NodeType::Virtual
    } else {
        NodeType::Unknown
    }
}

/// Whether two optional channel names allow a link (see `channels_match`).
fn channels_agree(a: &Option<String>, b: &Option<String>) -> (r: bool)
    ensures
        r == channels_match(*a, *b),
{
    match (a, b) {
        (Some(x), Some(y)) => str_eq(x.as_str(), y.as_str()),
        _ => true,
    }
}

/// The links from `src` to `dst`: for each source port, in order, one link
/// to the first destination port whose channel matches.
pub fn pair_ports(src: &Vec<&PortInfo>, dst: &Vec<&PortInfo>) -> (r: Vec<(u32, u32)>)
    ensures
        r@ == port_pairs(derefs(src@), derefs(dst@)),
{
    let ghost s = derefs(src@);
    let ghost d = derefs(dst@);
    let mut out: Vec<(u32, u32)> = Vec::new();
    let mut i: usize = 0;
    while i < src.len()
        invariant
            i <= src.len(),
            s == derefs(src@),
            d == derefs(dst@),
            out@ == port_pairs(s.take(i as int), d),
        decreases src.len() - i,
    {
        assert(s.take(i as int + 1).drop_last() =~= s.take(i as int));
        assert(s.take(i as int + 1).last() == *src@[i as int]);
        let mut j: usize = 0;
        let mut found: Option<usize> = None;
        while j < dst.len()
            invariant_except_break
                j <= dst.len(),
                found is None,
                first_match(*src@[i as int], d.take(j as int)) is None,
            invariant
                i < src.len(),
                d == derefs(dst@),
            ensures
                match found {
                    Some(k) => k < dst.len() && first_match(*src@[i as int], d) == Some(k as int),
                    None => first_match(*src@[i as int], d.take(dst.len() as int)) is None,
                },
            decreases dst.len() - j,
        {
            assert(d.take(j as int + 1).drop_last() =~= d.take(j as int));
            if channels_agree(&src[i].channel, &dst[j].channel) {
                found = Some(j);
                proof {
                    lemma_first_match_prefix(*src@[i as int], d, j as int);
                }
                break;
            }
            j += 1;
        }
        proof {
            if found is None {
                assert(d.take(dst.len() as int) =~= d);
            }
        }
        match found {
            Some(k) => {
                out.push((src[i].id, dst[k].id));
            },
            None => {},
        }
        i += 1;
    }
    assert(s.take(src.len() as int) =~= s);
    out
}

/// When no earlier port of `d` matches and the port at `j` does, the first
/// match is at `j`.
proof fn lemma_first_match_prefix(p: PortInfo, d: Seq<PortInfo>, j: int)
    requires
        0 <= j < d.len(),
        first_match(p, d.take(j)) is None,
        channels_match(p.channel, d[j].channel),
    ensures
        first_match(p, d) == Some(j),
    decreases d.len(),
{
    if j < d.len() - 1 {
        assert(d.drop_last().take(j) =~= d.take(j));
        lemma_first_match_prefix(p, d.drop_last(), j);
    } else {
        assert(d.drop_last() =~= d.take(j));
    }
}

/// The node name of a channel's sink.
pub fn channel_sink_name(channel_name: &str) -> (r: String)
    ensures
        r@ == CHANNEL_SINK_PREFIX@ + channel_name@,
{
    String::from_str(CHANNEL_SINK_PREFIX).concat(channel_name)
}

/// The command that creates a channel's sink: named after the channel
/// (see `channel_sink_name`) and described as `Amplitude Channel: <name>`.
pub fn create_channel_sink_command(channel_name: &str) -> (r: PipeWireCommand)
    ensures
        r matches PipeWireCommand::CreateVirtualSink { name, description } && name@ == CHANNEL_SINK_PREFIX@
            + channel_name@ && description@ == "Amplitude Channel: "@ + channel_name@,
{
    let name = channel_sink_name(channel_name);
    let description = String::from_str("Amplitude Channel: ").concat(channel_name);
    PipeWireCommand::CreateVirtualSink { name, description }
}

/// The text of property `key`, or `default` when it is missing.
pub open spec fn prop_or(props: Map<String, String>, key: Seq<char>, default: Seq<char>) -> Seq<char> {
    match lookup(props, key) {
        Some(v) => v,
        None => default,
    }
}

/// The number that property `key` holds, 0 when it is missing or is not a
/// `u32` numeral.
pub open spec fn prop_u32(props: Map<String, String>, key: Seq<char>) -> u32 {
    match lookup(props, key) {
        Some(v) => match parse_u32_spec(v) {
            Some(n) => n,
            None => 0,
        },
        None => 0,
    }
}

/// Whether a node name is one of the mixer's own sinks.
pub open spec fn is_mixer_sink(name: Seq<char>) -> bool {
    name == MONITOR_SINK_NAME@ || name == STREAM_SINK_NAME@ || has_prefix(name, CHANNEL_SINK_PREFIX@)
}

/// Whether `n` is the node that a registry global with `id` and `props`
/// describes.
pub open spec fn describes_node(n: NodeInfo, id: u32, props: Map<String, String>) -> bool {
    &&& n.id == id
    &&& n.name@ == prop_or(props, "node.name"@, "Unknown"@)
    &&& opt_view(n.description) == lookup(props, "node.description"@)
    &&& opt_view(n.application_name) == lookup(props, "application.name"@)
    &&& n.media_class@ == prop_or(props, "media.class"@, ""@)
    &&& n.node_type == node_type_of(n.media_class@)
}

/// The direction that a port's properties give, if they give one.
pub open spec fn port_direction_of(props: Map<String, String>) -> Option<PortDirection> {
    match lookup(props, "port.direction"@) {
        Some(d) => if d == "in"@ {
            Some(PortDirection::Input)
        } else if d == "out"@ {
            Some(PortDirection::Output)
        } else {
            None
        },
        None => None,
    }
}

/// Whether `p` is the port that a registry global with `id` and `props`
/// describes.
pub open spec fn describes_port(p: PortInfo, id: u32, props: Map<String, String>) -> bool {
    &&& p.id == id
    &&& p.name@ == prop_or(props, "port.name"@, "Unknown"@)
    &&& p.node_id == prop_u32(props, "node.id"@)
    &&& port_direction_of(props) == Some(p.direction)
    &&& opt_view(p.channel) == lookup(props, "audio.channel"@)
}

/// The link that a registry global with `id` and `props` describes.
pub open spec fn link_of(id: u32, props: Map<String, String>) -> LinkInfo {
    LinkInfo {
        id,
        output_port: prop_u32(props, "link.output.port"@),
        input_port: prop_u32(props, "link.input.port"@),
        output_node: prop_u32(props, "link.output.node"@),
        input_node: prop_u32(props, "link.input.node"@),
    }
}

/// The link actions for `pairs`, in order.
pub open spec fn link_actions(pairs: Seq<(u32, u32)>) -> Seq<PwAction> {
    pairs.map_values(|p: (u32, u32)| PwAction::CreateLink { output_port: p.0, input_port: p.1 })
}

/// The ports of `s` that look like monitor outputs: named with `monitor`,
/// or going out.
pub open spec fn monitor_side(s: Seq<PortInfo>) -> Seq<PortInfo>
    decreases s.len(),
{
    if s.len() == 0 {
        s
    } else if has_infix(s.last().name@, "monitor"@) || s.last().direction == PortDirection::Output {
        monitor_side(s.drop_last()).push(s.last())
    } else {
        monitor_side(s.drop_last())
    }
}

/// Every port that `listed_ports` gives goes in the direction asked for.
pub proof fn lemma_listed_direction(ids: Seq<u32>, ports: Map<u32, PortInfo>, dir: PortDirection)
    ensures
        forall|i: int|
            0 <= i < listed_ports(ids, ports, dir).len() ==> (#[trigger] listed_ports(ids, ports, dir)[i]).direction
                == dir,
    decreases ids.len(),
{
    if ids.len() > 0 {
        lemma_listed_direction(ids.drop_last(), ports, dir);
    }
}

/// On output ports, `monitor_side` keeps everything.
pub proof fn lemma_monitor_side_outputs(s: Seq<PortInfo>)
    requires
        forall|i: int| 0 <= i < s.len() ==> (#[trigger] s[i]).direction == PortDirection::Output,
    ensures
        monitor_side(s) == s,
    decreases s.len(),
{
    if s.len() > 0 {
        lemma_monitor_side_outputs(s.drop_last());
        assert(s.drop_last().push(s.last()) =~= s);
    }
}

/// Appends a link action for each pair, in order.
fn push_links(out: &mut Vec<PwAction>, pairs: &Vec<(u32, u32)>)
    ensures
        final(out)@ == old(out)@ + link_actions(pairs@),
{
    let mut i: usize = 0;
    while i < pairs.len()
        invariant
            i <= pairs.len(),
            out@ == old(out)@ + link_actions(pairs@.take(i as int)),
        decreases pairs.len() - i,
    {
        let (o, n) = pairs[i];
        out.push(PwAction::CreateLink { output_port: o, input_port: n });
        assert(link_actions(pairs@.take(i as int + 1)) =~= link_actions(pairs@.take(i as int)).push(
            PwAction::CreateLink { output_port: o, input_port: n },
        ));
        i += 1;
    }
    assert(pairs@.take(pairs.len() as int) =~= pairs@);
}

/// The ports of `ports` that look like monitor outputs (see
/// `monitor_side`), in order.
fn keep_monitor_side<'a>(ports: &Vec<&'a PortInfo>) -> (r: Vec<&'a PortInfo>)
    ensures
        derefs(r@) == monitor_side(derefs(ports@)),
{
    proof {
        reveal_strlit("monitor");
    }
    let ghost s = derefs(ports@);
    let mut out: Vec<&'a PortInfo> = Vec::new();
    let mut i: usize = 0;
    while i < ports.len()
        invariant
            i <= ports.len(),
            s == derefs(ports@),
            derefs(out@) == monitor_side(s.take(i as int)),
        decreases ports.len() - i,
    {
        assert(s.take(i as int + 1).drop_last() =~= s.take(i as int));
        let p = ports[i];
        if contains(p.name.as_str(), "monitor") || p.direction == PortDirection::Output {
            out.push(p);
            assert(derefs(out@) =~= monitor_side(s.take(i as int)).push(*p));
        }
        i += 1;
    }
    assert(s.take(ports.len() as int) =~= s);
    out
}

/// Whether `n` may serve as the default output: a sink device that is not
/// one of the virtual sinks found and not a null sink, and, when `hardware`,
/// an ALSA output.
pub open spec fn output_candidate(n: NodeInfo, sinks: Map<Seq<char>, u32>, hardware: bool) -> bool {
    &&& n.node_type == NodeType::SinkDevice
    &&& !sinks.contains_key(n.name@)
    &&& !has_infix(n.name@, "null-sink"@)
    &&& hardware ==> has_prefix(n.name@, "alsa_output"@)
}

/// The number that property `key` holds, 0 when it is missing or is not a
/// `u32` numeral.
fn prop_number(props: &HashMap<String, String>, key: &str) -> (r: u32)
    ensures
        r == prop_u32(props@, key@),
{
    match get_prop(props, key) {
        Some(v) => match parse_u32(v.as_str()) {
            Some(n) => n,
            None => 0,
        },
        None => 0,
    }
}

/// Appends `v` to the list under `k`, creating the entry.
fn push_to_list(m: &mut HashMap<u32, Vec<u32>>, k: u32, v: u32)
    ensures
        final(m)@ == old(m)@.insert(k, final(m)@[k]),
        final(m)@[k]@ == list_of(old(m)@, k).push(v),
{
    let mut list = match m.remove(&k) {
        Some(l) => l,
        None => Vec::new(),
    };
    list.push(v);
    m.insert(k, list);
    assert(m@ =~= old(m)@.insert(k, m@[k]));
}

/// Takes every `v` out of the list under `k`, if there is one.
fn remove_from_list(m: &mut HashMap<u32, Vec<u32>>, k: u32, v: u32)
    ensures
        old(m)@.contains_key(k) ==> final(m)@ == old(m)@.insert(k, final(m)@[k]) && final(m)@[k]@ == seq_without(
            old(m)@[k]@,
            v,
        ),
        !old(m)@.contains_key(k) ==> final(m)@ == old(m)@,
{
    match m.remove(&k) {
        Some(list) => {
            let kept = vec_without(&list, v);
            m.insert(k, kept);
            assert(m@ =~= old(m)@.insert(k, m@[k]));
        },
        None => {},
    }
}

/// What the PipeWire thread knows of the graph.
#[derive(Debug)]
pub struct PipeWireState {
    pub nodes: HashMap<u32, NodeInfo>,
    pub ports: HashMap<u32, PortInfo>,
    /// The port ids of each node, in the order they appeared.
    pub node_ports: HashMap<u32, Vec<u32>>,
    pub links: HashMap<u32, LinkInfo>,
    /// The ids of the links that leave each output port.
    pub port_links: HashMap<u32, Vec<u32>>,
    /// The node id of each virtual sink found, by node name; its names are
    /// the virtual sinks found.
    pub virtual_sink_ids: NameMap<u32>,
    /// The default output device.
    pub default_output_id: Option<u32>,
}

impl PipeWireState {
    /// The name map holds one entry per name, and each node is filed under
    /// its own id.
    pub open spec fn wf(&self) -> bool {
        &&& self.virtual_sink_ids.wf()
        &&& forall|k: u32| #[trigger] self.nodes@.contains_key(k) ==> self.nodes@[k].id == k
    }

    /// Everything but the virtual sinks and the default output is as in `o`.
    pub open spec fn same_graph(&self, o: &PipeWireState) -> bool {
        &&& self.nodes@ == o.nodes@
        &&& self.ports@ == o.ports@
        &&& self.node_ports@ == o.node_ports@
        &&& self.links@ == o.links@
        &&& self.port_links@ == o.port_links@
    }

    /// The output (or input) ports of a node, in the order they appeared.
    pub open spec fn spec_ports(&self, node_id: u32, dir: PortDirection) -> Seq<PortInfo> {
        listed_ports(list_of(self.node_ports@, node_id), self.ports@, dir)
    }

    /// An empty graph.
    pub fn new() -> (r: PipeWireState)
        ensures
            r.wf(),
            r.nodes@.is_empty() && r.ports@.is_empty() && r.node_ports@.is_empty(),
            r.links@.is_empty() && r.port_links@.is_empty(),
            r.virtual_sink_ids@.is_empty(),
            r.default_output_id is None,
    {
        PipeWireState {
            nodes: HashMap::new(),
            ports: HashMap::new(),
            node_ports: HashMap::new(),
            links: HashMap::new(),
            port_links: HashMap::new(),
            virtual_sink_ids: NameMap::new(),
            default_output_id: None,
        }
    }

    /// Notes a virtual sink and its node id.
    pub fn register_virtual_sink(&mut self, name: &str, node_id: u32)
        requires
            old(self).wf(),
        ensures
            final(self).wf(),
            final(self).virtual_sink_ids@ == old(self).virtual_sink_ids@.insert(name@, node_id),
            final(self).same_graph(old(self)),
            final(self).default_output_id == old(self).default_output_id,
    {
        self.virtual_sink_ids.insert(to_owned(name), node_id);
    }

    /// Whether a virtual sink with this name was found.
    pub fn has_virtual_sink(&self, name: &str) -> (r: bool)
        requires
            self.wf(),
        ensures
            r == self.virtual_sink_ids@.contains_key(name@),
    {
        self.virtual_sink_ids.contains_key(name)
    }

    /// Records a port under its node.
    pub fn add_port(&mut self, port: PortInfo)
        requires
            old(self).wf(),
        ensures
            final(self).wf(),
            final(self).ports@ == old(self).ports@.insert(port.id, port),
            final(self).node_ports@ == old(self).node_ports@.insert(port.node_id, final(self).node_ports@[port.node_id]),
            final(self).node_ports@[port.node_id]@ == list_of(old(self).node_ports@, port.node_id).push(port.id),
            final(self).nodes@ == old(self).nodes@,
            final(self).links@ == old(self).links@,
            final(self).port_links@ == old(self).port_links@,
            final(self).virtual_sink_ids@ == old(self).virtual_sink_ids@,
            final(self).default_output_id == old(self).default_output_id,
    {
        push_to_list(&mut self.node_ports, port.node_id, port.id);
        self.ports.insert(port.id, port);
    }

    /// Forgets a port, taking it out of its node's list; gives the port.
    pub fn remove_port(&mut self, port_id: u32) -> (r: Option<PortInfo>)
        requires
            old(self).wf(),
        ensures
            final(self).wf(),
            final(self).nodes@ == old(self).nodes@,
            final(self).links@ == old(self).links@,
            final(self).port_links@ == old(self).port_links@,
            final(self).virtual_sink_ids@ == old(self).virtual_sink_ids@,
            final(self).default_output_id == old(self).default_output_id,
            match r {
                Some(p) => {
                    &&& old(self).ports@.contains_key(port_id)
                    &&& p == old(self).ports@[port_id]
                    &&& final(self).ports@ == old(self).ports@.remove(port_id)
                    &&& old(self).node_ports@.contains_key(p.node_id) ==> {
                        &&& final(self).node_ports@ == old(self).node_ports@.insert(
                            p.node_id,
                            final(self).node_ports@[p.node_id],
                        )
                        &&& final(self).node_ports@[p.node_id]@ == seq_without(
                            old(self).node_ports@[p.node_id]@,
                            port_id,
                        )
                    }
                    &&& !old(self).node_ports@.contains_key(p.node_id) ==> final(self).node_ports@
                        == old(self).node_ports@
                },
                None => {
                    &&& !old(self).ports@.contains_key(port_id)
                    &&& final(self).ports@ == old(self).ports@
                    &&& final(self).node_ports@ == old(self).node_ports@
                },
            },
    {
        match self.ports.remove(&port_id) {
            Some(port) => {
                remove_from_list(&mut self.node_ports, port.node_id, port_id);
                Some(port)
            },
            None => None,
        }
    }

    /// The ports of a node that go in direction `dir`, in the order they
    /// appeared.
    pub fn get_ports(&self, node_id: u32, dir: PortDirection) -> (r: Vec<&PortInfo>)
        ensures
            derefs(r@) == self.spec_ports(node_id, dir),
    {
        let ghost ids = list_of(self.node_ports@, node_id);
        let mut out: Vec<&PortInfo> = Vec::new();
        match self.node_ports.get(&node_id) {
            Some(list) => {
                let mut i: usize = 0;
                while i < list.len()
                    invariant
                        i <= list.len(),
                        ids == list@,
                        derefs(out@) == listed_ports(ids.take(i as int), self.ports@, dir),
                    decreases list.len() - i,
                {
                    assert(ids.take(i as int + 1).drop_last() =~= ids.take(i as int));
                    let id = list[i];
                    match self.ports.get(&id) {
                        Some(p) => {
                            if p.direction == dir {
                                out.push(p);
                                assert(derefs(out@) =~= listed_ports(ids.take(i as int), self.ports@, dir).push(*p));
                            }
                        },
                        None => {},
                    }
                    i += 1;
                }
                assert(ids.take(list.len() as int) =~= ids);
            },
            None => {
                assert(derefs(out@) =~= Seq::<PortInfo>::empty());
            },
        }
        out
    }

    /// The output ports of a node.
    pub fn get_output_ports(&self, node_id: u32) -> (r: Vec<&PortInfo>)
        ensures
            derefs(r@) == self.spec_ports(node_id, PortDirection::Output),
    {
        self.get_ports(node_id, PortDirection::Output)
    }

    /// The input ports of a node.
    pub fn get_input_ports(&self, node_id: u32) -> (r: Vec<&PortInfo>)
        ensures
            derefs(r@) == self.spec_ports(node_id, PortDirection::Input),
    {
        self.get_ports(node_id, PortDirection::Input)
    }

    /// Records a link under its output port.
    pub fn add_link(&mut self, link: LinkInfo)
        requires
            old(self).wf(),
        ensures
            final(self).wf(),
            final(self).links@ == old(self).links@.insert(link.id, link),
            final(self).port_links@ == old(self).port_links@.insert(link.output_port, final(self).port_links@[link.output_port]),
            final(self).port_links@[link.output_port]@ == list_of(old(self).port_links@, link.output_port).push(link.id),
            final(self).nodes@ == old(self).nodes@,
            final(self).ports@ == old(self).ports@,
            final(self).node_ports@ == old(self).node_ports@,
            final(self).virtual_sink_ids@ == old(self).virtual_sink_ids@,
            final(self).default_output_id == old(self).default_output_id,
    {
        push_to_list(&mut self.port_links, link.output_port, link.id);
        self.links.insert(link.id, link);
    }

    /// Forgets a link, taking it out of its output port's list; gives the
    /// link.
    pub fn remove_link(&mut self, link_id: u32) -> (r: Option<LinkInfo>)
        requires
            old(self).wf(),
        ensures
            final(self).wf(),
            final(self).nodes@ == old(self).nodes@,
            final(self).ports@ == old(self).ports@,
            final(self).node_ports@ == old(self).node_ports@,
            final(self).virtual_sink_ids@ == old(self).virtual_sink_ids@,
            final(self).default_output_id == old(self).default_output_id,
            match r {
                Some(l) => {
                    &&& old(self).links@.contains_key(link_id)
                    &&& l == old(self).links@[link_id]
                    &&& final(self).links@ == old(self).links@.remove(link_id)
                    &&& old(self).port_links@.contains_key(l.output_port) ==> {
                        &&& final(self).port_links@ == old(self).port_links@.insert(
                            l.output_port,
                            final(self).port_links@[l.output_port],
                        )
                        &&& final(self).port_links@[l.output_port]@ == seq_without(
                            old(self).port_links@[l.output_port]@,
                            link_id,
                        )
                    }
                    &&& !old(self).port_links@.contains_key(l.output_port) ==> final(self).port_links@
                        == old(self).port_links@
                },
                None => {
                    &&& !old(self).links@.contains_key(link_id)
                    &&& final(self).links@ == old(self).links@
                    &&& final(self).port_links@ == old(self).port_links@
                },
            },
    {
        match self.links.remove(&link_id) {
            Some(link) => {
                remove_from_list(&mut self.port_links, link.output_port, link_id);
                Some(link)
            },
            None => None,
        }
    }

    /// The ids of the links that leave the output ports of a node, port by
    /// port.
    pub fn get_links_from_node(&self, node_id: u32) -> (r: Vec<u32>)
        ensures
            r@ == links_of_ports(self.spec_ports(node_id, PortDirection::Output), self.port_links@),
    {
        let ports = self.get_output_ports(node_id);
        let ghost ps = derefs(ports@);
        let mut out: Vec<u32> = Vec::new();
        let mut i: usize = 0;
        while i < ports.len()
            invariant
                i <= ports.len(),
                ps == derefs(ports@),
                out@ == links_of_ports(ps.take(i as int), self.port_links@),
            decreases ports.len() - i,
        {
            assert(ps.take(i as int + 1).drop_last() =~= ps.take(i as int));
            let pid = ports[i].id;
            match self.port_links.get(&pid) {
                Some(list) => {
                    let mut j: usize = 0;
                    let ghost before = out@;
                    while j < list.len()
                        invariant
                            j <= list.len(),
                            out@ == before + list@.take(j as int),
                        decreases list.len() - j,
                    {
                        out.push(list[j]);
                        assert(list@.take(j as int + 1) =~= list@.take(j as int).push(list[j as int]));
                        j += 1;
                    }
                    assert(list@.take(list.len() as int) =~= list@);
                },
                None => {
                    assert(out@ =~= out@ + Seq::<u32>::empty());
                },
            }
            i += 1;
        }
        assert(ps.take(ports.len() as int) =~= ps);
        out
    }

    /// The ids of the known nodes, each once, in no particular order.
    pub fn node_ids(&self) -> (r: Vec<u32>)
        ensures
            r@.no_duplicates(),
            r@.to_set() == self.nodes@.dom(),
    {
        let mut out: Vec<u32> = Vec::new();
        let ghost keys = vstd::std_specs::hash::spec_keys_iter(&self.nodes).remaining();
        for k in it: self.nodes.keys()
            invariant
                it.seq() == keys,
                keys.no_duplicates(),
                keys.unref().to_set() == self.nodes@.dom(),
                out@ == keys.unref().take(it.index()),
        {
            assert(keys.unref().take(it.index() + 1) == keys.unref().take(it.index()).push(*k));
            out.push(*k);
        }
        assert(keys.unref().take(keys.len() as int) =~= keys.unref());
        assert(out@.no_duplicates()) by {
            assert forall|i: int, j: int| 0 <= i < out@.len() && 0 <= j < out@.len() && i != j implies out@[i]
                != out@[j] by {
                assert(out@[i] == *keys[i]);
                assert(out@[j] == *keys[j]);
            }
        }
        out
    }

    /// The first node among `ids` that is a usable output device (and a
    /// hardware one when `hardware`), by position in `ids`.
    fn first_output(&self, ids: &Vec<u32>, hardware: bool) -> (r: Option<u32>)
        requires
            self.wf(),
            forall|i: int| 0 <= i < ids@.len() ==> self.nodes@.contains_key(#[trigger] ids@[i]),
        ensures
            match r {
                Some(id) => self.nodes@.contains_key(id) && output_candidate(
                    self.nodes@[id],
                    self.virtual_sink_ids@,
                    hardware,
                ),
                None => forall|i: int|
                    0 <= i < ids@.len() ==> !output_candidate(
                        #[trigger] self.nodes@[ids@[i]],
                        self.virtual_sink_ids@,
                        hardware,
                    ),
            },
    {
        proof {
            reveal_strlit("null-sink");
            reveal_strlit("alsa_output");
        }
        let mut i: usize = 0;
        while i < ids.len()
            invariant
                i <= ids.len(),
                self.wf(),
                forall|j: int| 0 <= j < ids@.len() ==> self.nodes@.contains_key(#[trigger] ids@[j]),
                forall|j: int|
                    0 <= j < i ==> !output_candidate(
                        #[trigger] self.nodes@[ids@[j]],
                        self.virtual_sink_ids@,
                        hardware,
                    ),
            decreases ids.len() - i,
        {
            match self.nodes.get(&ids[i]) {
                Some(node) => {
                    if node.node_type == NodeType::SinkDevice && !self.virtual_sink_ids.contains_key(node.name.as_str())
                        && !contains(node.name.as_str(), "null-sink") && (!hardware || starts_with(
                        node.name.as_str(),
                        "alsa_output",
                    )) {
                        return Some(node.id);
                    }
                },
                None => {},
            }
            i += 1;
        }
        None
    }

    /// Picks the default output device: a hardware output (`alsa_output…`)
    /// if there is one, else any usable output device; nothing changes when
    /// there is none. Usable means a sink device that is neither one of the
    /// mixer's virtual sinks nor a null sink. Which one is picked among
    /// several does not depend on anything the mixer controls.
    pub fn find_default_output(&mut self)
        requires
            old(self).wf(),
        ensures
            final(self).wf(),
            final(self).same_graph(old(self)),
            final(self).virtual_sink_ids@ == old(self).virtual_sink_ids@,
            (exists|k: u32| #[trigger] old(self).nodes@.contains_key(k) && output_candidate(
                old(self).nodes@[k],
                old(self).virtual_sink_ids@,
                true,
            )) ==> (final(self).default_output_id matches Some(id) && old(self).nodes@.contains_key(id)
                && output_candidate(old(self).nodes@[id], old(self).virtual_sink_ids@, true)),
            (exists|k: u32| #[trigger] old(self).nodes@.contains_key(k) && output_candidate(
                old(self).nodes@[k],
                old(self).virtual_sink_ids@,
                false,
            )) ==> (final(self).default_output_id matches Some(id) && old(self).nodes@.contains_key(id)
                && output_candidate(old(self).nodes@[id], old(self).virtual_sink_ids@, false)),
            !(exists|k: u32| #[trigger] old(self).nodes@.contains_key(k) && output_candidate(
                old(self).nodes@[k],
                old(self).virtual_sink_ids@,
                false,
            )) ==> final(self).default_output_id == old(self).default_output_id,
    {
        let ids = self.node_ids();
        proof {
            assert forall|i: int| 0 <= i < ids@.len() implies self.nodes@.contains_key(#[trigger] ids@[i]) by {
                assert(ids@.to_set().contains(ids@[i]));
            }
        }
        match self.first_output(&ids, true) {
            Some(id) => {
                self.default_output_id = Some(id);
                return;
            },
            None => {},
        }
        proof {
            assert forall|k: u32| #[trigger] self.nodes@.contains_key(k) implies !output_candidate(
                self.nodes@[k],
                self.virtual_sink_ids@,
                true,
            ) by {
                assert(ids@.to_set().contains(k));
                let i = choose|i: int| 0 <= i < ids@.len() && ids@[i] == k;
                assert(self.nodes@[ids@[i]] == self.nodes@[k]);
            }
        }
        match self.first_output(&ids, false) {
            Some(id) => {
                self.default_output_id = Some(id);
            },
            None => {
                proof {
                    assert forall|k: u32| #[trigger] self.nodes@.contains_key(k) implies !output_candidate(
                        self.nodes@[k],
                        self.virtual_sink_ids@,
                        false,
                    ) by {
                        assert(ids@.to_set().contains(k));
                        let i = choose|i: int| 0 <= i < ids@.len() && ids@[i] == k;
                        assert(self.nodes@[ids@[i]] == self.nodes@[k]);
                    }
                }
            },
        }
    }

    /// The link actions that route the output ports of `src` to the input
    /// ports of `dst`.
    pub open spec fn routed(&self, src: u32, dst: u32) -> Seq<PwAction> {
        link_actions(port_pairs(self.spec_ports(src, PortDirection::Output), self.spec_ports(dst, PortDirection::Input)))
    }

    /// The id of the virtual sink named `name`, if it was found.
    pub open spec fn sink_id(&self, name: Seq<char>) -> Option<u32> {
        if self.virtual_sink_ids@.contains_key(name) {
            Some(self.virtual_sink_ids@[name])
        } else {
            None
        }
    }

    /// The links from the output ports of `src` to the input ports of `dst`.
    fn route(&self, src: u32, dst: u32, out: &mut Vec<PwAction>)
        ensures
            final(out)@ == old(out)@ + self.routed(src, dst),
    {
        let from = self.get_output_ports(src);
        let to = self.get_input_ports(dst);
        let pairs = pair_ports(&from, &to);
        push_links(out, &pairs);
    }

    /// The links from the monitor outputs of `src` to the input ports of
    /// `dst`; on output ports that is the same as `route`.
    fn route_monitor(&self, src: u32, dst: u32, out: &mut Vec<PwAction>)
        ensures
            final(out)@ == old(out)@ + self.routed(src, dst),
    {
        let outputs = self.get_output_ports(src);
        let from = keep_monitor_side(&outputs);
        proof {
            lemma_listed_direction(list_of(self.node_ports@, src), self.ports@, PortDirection::Output);
            lemma_monitor_side_outputs(derefs(outputs@));
        }
        let to = self.get_input_ports(dst);
        let pairs = pair_ports(&from, &to);
        push_links(out, &pairs);
    }

    /// The id of the virtual sink named `name`, if it was found.
    fn lookup_sink(&self, name: &str) -> (r: Option<u32>)
        requires
            self.wf(),
        ensures
            r == self.sink_id(name@),
    {
        match self.virtual_sink_ids.get(name) {
            Some(id) => Some(*id),
            None => None,
        }
    }

    /// What a command asks of PipeWire, as actions to perform in order.
    /// Only `FindDefaultOutput` changes the state. Commands that PipeWire
    /// has no call for here (destroying links, levels, mutes, shutting
    /// down) ask for nothing.
    pub fn handle_command(&mut self, cmd: PipeWireCommand) -> (r: Vec<PwAction>)
        requires
            old(self).wf(),
        ensures
            final(self).wf(),
            !(cmd is FindDefaultOutput) ==> *final(self) == *old(self),
            match cmd {
                PipeWireCommand::CreateLink { output_port, input_port } => r@ == seq![
                    PwAction::CreateLink { output_port, input_port },
                ],
                PipeWireCommand::CreateVirtualSink { name, description } => r@ == if old(
                    self,
                ).virtual_sink_ids@.contains_key(name@) {
                    Seq::<PwAction>::empty()
                } else {
                    seq![PwAction::CreateNullSink { name, description }]
                },
                PipeWireCommand::CheckVirtualSinks => r@ == seq![
                    PwAction::Emit(
                        AudioEvent::VirtualSinksStatus {
                            monitor_exists: old(self).virtual_sink_ids@.contains_key(MONITOR_SINK_NAME@),
                            stream_exists: old(self).virtual_sink_ids@.contains_key(STREAM_SINK_NAME@),
                            monitor_id: old(self).sink_id(MONITOR_SINK_NAME@),
                            stream_id: old(self).sink_id(STREAM_SINK_NAME@),
                        },
                    ),
                ],
                PipeWireCommand::RouteAppToSink { app_node_id, sink_node_id } => r@ == old(self).routed(
                    app_node_id,
                    sink_node_id,
                ),
                PipeWireCommand::ConnectSinkToOutput { sink_node_id } => r@ == match old(self).default_output_id {
                    Some(o) => old(self).routed(sink_node_id, o),
                    None => Seq::<PwAction>::empty(),
                },
                PipeWireCommand::ConnectChannelToOutputs { channel_sink_id, monitor_sink_id, stream_sink_id } => r@
                    == old(self).routed(channel_sink_id, monitor_sink_id) + old(self).routed(
                    channel_sink_id,
                    stream_sink_id,
                ),
                PipeWireCommand::FindDefaultOutput => {
                    &&& r@.len() == 0
                    &&& final(self).same_graph(old(self))
                    &&& final(self).virtual_sink_ids@ == old(self).virtual_sink_ids@
                    &&& (exists|k: u32| #[trigger] old(self).nodes@.contains_key(k) && output_candidate(
                        old(self).nodes@[k],
                        old(self).virtual_sink_ids@,
                        true,
                    )) ==> (final(self).default_output_id matches Some(id) && old(self).nodes@.contains_key(id)
                        && output_candidate(old(self).nodes@[id], old(self).virtual_sink_ids@, true))
                    &&& (exists|k: u32| #[trigger] old(self).nodes@.contains_key(k) && output_candidate(
                        old(self).nodes@[k],
                        old(self).virtual_sink_ids@,
                        false,
                    )) ==> (final(self).default_output_id matches Some(id) && old(self).nodes@.contains_key(id)
                        && output_candidate(old(self).nodes@[id], old(self).virtual_sink_ids@, false))
                    &&& !(exists|k: u32| #[trigger] old(self).nodes@.contains_key(k) && output_candidate(
                        old(self).nodes@[k],
                        old(self).virtual_sink_ids@,
                        false,
                    )) ==> final(self).default_output_id == old(self).default_output_id
                },
                PipeWireCommand::RouteAppToChannelByName { app_node_id, channel_name } => r@ == match old(
                    self,
                ).sink_id(CHANNEL_SINK_PREFIX@ + channel_name@) {
                    Some(sink) => old(self).routed(app_node_id, sink),
                    None => Seq::<PwAction>::empty(),
                },
                PipeWireCommand::RouteAppToVirtualSinks { app_node_id } => r@ == match old(self).sink_id(
                    MONITOR_SINK_NAME@,
                ) {
                    Some(m) => old(self).routed(app_node_id, m),
                    None => Seq::<PwAction>::empty(),
                } + match old(self).sink_id(STREAM_SINK_NAME@) {
                    Some(s) => old(self).routed(app_node_id, s),
                    None => Seq::<PwAction>::empty(),
                },
                _ => r@.len() == 0,
            },
    {
        let mut out: Vec<PwAction> = Vec::new();
        match cmd {
            PipeWireCommand::CreateLink { output_port, input_port } => {
                out.push(PwAction::CreateLink { output_port, input_port });
            },
            PipeWireCommand::CreateVirtualSink { name, description } => {
                if !self.has_virtual_sink(name.as_str()) {
                    out.push(PwAction::CreateNullSink { name, description });
                }
            },
            PipeWireCommand::CheckVirtualSinks => {
                let monitor_exists = self.has_virtual_sink(MONITOR_SINK_NAME);
                let stream_exists = self.has_virtual_sink(STREAM_SINK_NAME);
                let monitor_id = self.lookup_sink(MONITOR_SINK_NAME);
                let stream_id = self.lookup_sink(STREAM_SINK_NAME);
                out.push(
                    PwAction::Emit(AudioEvent::VirtualSinksStatus { monitor_exists, stream_exists, monitor_id, stream_id }),
                );
            },
            PipeWireCommand::RouteAppToSink { app_node_id, sink_node_id } => {
                self.route(app_node_id, sink_node_id, &mut out);
            },
            PipeWireCommand::ConnectSinkToOutput { sink_node_id } => {
                match self.default_output_id {
                    Some(output_id) => {
                        self.route_monitor(sink_node_id, output_id, &mut out);
                    },
                    None => {},
                }
            },
            PipeWireCommand::ConnectChannelToOutputs { channel_sink_id, monitor_sink_id, stream_sink_id } => {
                self.route_monitor(channel_sink_id, monitor_sink_id, &mut out);
                self.route_monitor(channel_sink_id, stream_sink_id, &mut out);
            },
            PipeWireCommand::FindDefaultOutput => {
                self.find_default_output();
            },
            PipeWireCommand::RouteAppToChannelByName { app_node_id, channel_name } => {
                let sink_name = channel_sink_name(channel_name.as_str());
                match self.lookup_sink(sink_name.as_str()) {
                    Some(sink) => {
                        self.route(app_node_id, sink, &mut out);
                    },
                    None => {},
                }
            },
            PipeWireCommand::RouteAppToVirtualSinks { app_node_id } => {
                match self.lookup_sink(MONITOR_SINK_NAME) {
                    Some(m) => {
                        self.route(app_node_id, m, &mut out);
                    },
                    None => {},
                }
                match self.lookup_sink(STREAM_SINK_NAME) {
                    Some(st) => {
                        self.route(app_node_id, st, &mut out);
                    },
                    None => {},
                }
            },
            _ => {},
        }
        out
    }

    /// `self` is `o` with the node that `id` and `props` describe added
    /// (and, for one of the mixer's sinks, noted as a virtual sink);
    /// `events` is what is reported. Nodes of unknown type are ignored.
    pub open spec fn node_added(&self, o: &PipeWireState, id: u32, props: Map<String, String>, events: Seq<AudioEvent>) -> bool {
        if node_type_of(prop_or(props, "media.class"@, ""@)) == NodeType::Unknown {
            *self == *o && events.len() == 0
        } else {
            let n = self.nodes@[id];
            &&& describes_node(n, id, props)
            &&& self.nodes@ == o.nodes@.insert(id, n)
            &&& self.ports@ == o.ports@
            &&& self.node_ports@ == o.node_ports@
            &&& self.links@ == o.links@
            &&& self.port_links@ == o.port_links@
            &&& self.default_output_id == o.default_output_id
            &&& events.len() > 0
            &&& events.last() == AudioEvent::NodeAdded(n)
            &&& if is_mixer_sink(n.name@) {
                &&& events.len() == 2
                &&& events[0] == AudioEvent::VirtualSinkDiscovered(
                    VirtualSinkInfo { id, name: n.name, description: n.description },
                )
                &&& self.virtual_sink_ids@ == o.virtual_sink_ids@.insert(n.name@, id)
            } else {
                &&& events.len() == 1
                &&& self.virtual_sink_ids@ == o.virtual_sink_ids@
            }
        }
    }

    /// `self` is `o` with the port that `id` and `props` describe added
    /// under its node; `events` is what is reported. Ports without a known
    /// direction are ignored.
    pub open spec fn port_added(&self, o: &PipeWireState, id: u32, props: Map<String, String>, events: Seq<AudioEvent>) -> bool {
        if port_direction_of(props) is None {
            *self == *o && events.len() == 0
        } else {
            let p = self.ports@[id];
            &&& describes_port(p, id, props)
            &&& self.ports@ == o.ports@.insert(id, p)
            &&& self.node_ports@ == o.node_ports@.insert(p.node_id, self.node_ports@[p.node_id])
            &&& self.node_ports@[p.node_id]@ == list_of(o.node_ports@, p.node_id).push(id)
            &&& self.nodes@ == o.nodes@
            &&& self.links@ == o.links@
            &&& self.port_links@ == o.port_links@
            &&& self.virtual_sink_ids@ == o.virtual_sink_ids@
            &&& self.default_output_id == o.default_output_id
            &&& events == seq![AudioEvent::PortAdded(p)]
        }
    }

    /// `self` is `o` with the link that `id` and `props` describe added
    /// under its output port; `events` is what is reported.
    pub open spec fn link_added(&self, o: &PipeWireState, id: u32, props: Map<String, String>, events: Seq<AudioEvent>) -> bool {
        let l = link_of(id, props);
        &&& self.links@ == o.links@.insert(id, l)
        &&& self.port_links@ == o.port_links@.insert(l.output_port, self.port_links@[l.output_port])
        &&& self.port_links@[l.output_port]@ == list_of(o.port_links@, l.output_port).push(id)
        &&& self.nodes@ == o.nodes@
        &&& self.ports@ == o.ports@
        &&& self.node_ports@ == o.node_ports@
        &&& self.virtual_sink_ids@ == o.virtual_sink_ids@
        &&& self.default_output_id == o.default_output_id
        &&& events == seq![AudioEvent::LinkAdded(l)]
    }

    /// `self` is `o` once the object `id` went away: a node takes its ports
    /// with it; otherwise a port or a link leaves its list. `events` is what
    /// is reported; an unknown id changes nothing.
    pub open spec fn global_removed(&self, o: &PipeWireState, id: u32, events: Seq<AudioEvent>) -> bool {
        if o.nodes@.contains_key(id) {
            &&& self.nodes@ == o.nodes@.remove(id)
            &&& self.node_ports@ == o.node_ports@.remove(id)
            &&& self.ports@ == o.ports@.remove_keys(list_of(o.node_ports@, id).to_set())
            &&& self.links@ == o.links@
            &&& self.port_links@ == o.port_links@
            &&& self.virtual_sink_ids@ == o.virtual_sink_ids@
            &&& self.default_output_id == o.default_output_id
            &&& events == seq![AudioEvent::NodeRemoved { id }]
        } else if o.ports@.contains_key(id) {
            let nid = o.ports@[id].node_id;
            &&& self.ports@ == o.ports@.remove(id)
            &&& self.node_ports@ == if o.node_ports@.contains_key(nid) {
                o.node_ports@.insert(nid, self.node_ports@[nid])
            } else {
                o.node_ports@
            }
            &&& o.node_ports@.contains_key(nid) ==> self.node_ports@[nid]@ == seq_without(o.node_ports@[nid]@, id)
            &&& self.nodes@ == o.nodes@
            &&& self.links@ == o.links@
            &&& self.port_links@ == o.port_links@
            &&& self.virtual_sink_ids@ == o.virtual_sink_ids@
            &&& self.default_output_id == o.default_output_id
            &&& events == seq![AudioEvent::PortRemoved { id, node_id: nid }]
        } else if o.links@.contains_key(id) {
            let out = o.links@[id].output_port;
            &&& self.links@ == o.links@.remove(id)
            &&& self.port_links@ == if o.port_links@.contains_key(out) {
                o.port_links@.insert(out, self.port_links@[out])
            } else {
                o.port_links@
            }
            &&& o.port_links@.contains_key(out) ==> self.port_links@[out]@ == seq_without(o.port_links@[out]@, id)
            &&& self.nodes@ == o.nodes@
            &&& self.ports@ == o.ports@
            &&& self.node_ports@ == o.node_ports@
            &&& self.virtual_sink_ids@ == o.virtual_sink_ids@
            &&& self.default_output_id == o.default_output_id
            &&& events == seq![AudioEvent::LinkRemoved { id }]
        } else {
            &&& self.same_graph(o)
            &&& self.virtual_sink_ids@ == o.virtual_sink_ids@
            &&& self.default_output_id == o.default_output_id
            &&& events.len() == 0
        }
    }

    /// Takes in a node that the registry announced.
    pub fn handle_node_added(&mut self, id: u32, props: &HashMap<String, String>) -> (r: Vec<AudioEvent>)
        requires
            old(self).wf(),
        ensures
            final(self).wf(),
            final(self).node_added(old(self), id, props@, r@),
    {
        let name = match get_prop(props, "node.name") {
            Some(v) => v,
            None => to_owned("Unknown"),
        };
        let description = get_prop(props, "node.description");
        let application_name = get_prop(props, "application.name");
        let media_class = match get_prop(props, "media.class") {
            Some(v) => v,
            None => to_owned(""),
        };
        let node_type = classify_node(media_class.as_str());
        let mut events: Vec<AudioEvent> = Vec::new();
        if node_type == NodeType::Unknown {
            return events;
        }
        let ours = str_eq(name.as_str(), MONITOR_SINK_NAME) || str_eq(name.as_str(), STREAM_SINK_NAME) || starts_with(
            name.as_str(),
            CHANNEL_SINK_PREFIX,
        );
        let node_info = NodeInfo { id, name, description, application_name, media_class, node_type };
        if ours {
            self.register_virtual_sink(node_info.name.as_str(), id);
            events.push(
                AudioEvent::VirtualSinkDiscovered(
                    VirtualSinkInfo {
                        id,
                        name: node_info.name.clone(),
                        description: copy_opt_string(&node_info.description),
                    },
                ),
            );
        }
        self.nodes.insert(id, node_info.duplicate());
        events.push(AudioEvent::NodeAdded(node_info));
        events
    }

    /// Takes in a port that the registry announced.
    pub fn handle_port_added(&mut self, id: u32, props: &HashMap<String, String>) -> (r: Vec<AudioEvent>)
        requires
            old(self).wf(),
        ensures
            final(self).wf(),
            final(self).port_added(old(self), id, props@, r@),
    {
        let mut events: Vec<AudioEvent> = Vec::new();
        let name = match get_prop(props, "port.name") {
            Some(v) => v,
            None => to_owned("Unknown"),
        };
        let node_id = prop_number(props, "node.id");
        let direction = match get_prop(props, "port.direction") {
            Some(d) => {
                if str_eq(d.as_str(), "in") {
                    PortDirection::Input
                } else if str_eq(d.as_str(), "out") {
                    PortDirection::Output
                } else {
                    return events;
                }
            },
            None => {
                return events;
            },
        };
        let channel = get_prop(props, "audio.channel");
        let port_info = PortInfo { id, node_id, name, direction, channel };
        self.add_port(port_info.duplicate());
        events.push(AudioEvent::PortAdded(port_info));
        events
    }

    /// Takes in a link that the registry announced.
    pub fn handle_link_added(&mut self, id: u32, props: &HashMap<String, String>) -> (r: Vec<AudioEvent>)
        requires
            old(self).wf(),
        ensures
            final(self).wf(),
            final(self).link_added(old(self), id, props@, r@),
    {
        let output_port = prop_number(props, "link.output.port");
        let input_port = prop_number(props, "link.input.port");
        let output_node = prop_number(props, "link.output.node");
        let input_node = prop_number(props, "link.input.node");
        let link_info = LinkInfo { id, output_port, input_port, output_node, input_node };
        self.add_link(link_info);
        let mut events: Vec<AudioEvent> = Vec::new();
        events.push(AudioEvent::LinkAdded(link_info));
        events
    }

    /// Takes in an object that the registry announced: nodes, ports and
    /// links are recorded; anything else, or an object without properties,
    /// is ignored.
    pub fn handle_global_added(&mut self, global: &Global) -> (r: Vec<AudioEvent>)
        requires
            old(self).wf(),
        ensures
            final(self).wf(),
            match global.props {
                Some(props) => match global.kind {
                    ObjectKind::Node => final(self).node_added(old(self), global.id, props@, r@),
                    ObjectKind::Port => final(self).port_added(old(self), global.id, props@, r@),
                    ObjectKind::Link => final(self).link_added(old(self), global.id, props@, r@),
                    ObjectKind::Other => *final(self) == *old(self) && r@.len() == 0,
                },
                None => *final(self) == *old(self) && r@.len() == 0,
            },
    {
        match &global.props {
            Some(props) => match global.kind {
                ObjectKind::Node => self.handle_node_added(global.id, props),
                ObjectKind::Port => self.handle_port_added(global.id, props),
                ObjectKind::Link => self.handle_link_added(global.id, props),
                ObjectKind::Other => Vec::new(),
            },
            None => Vec::new(),
        }
    }

    /// Takes in the removal of a registry object.
    pub fn handle_global_removed(&mut self, id: u32) -> (r: Vec<AudioEvent>)
        requires
            old(self).wf(),
        ensures
            final(self).wf(),
            final(self).global_removed(old(self), id, r@),
    {
        let mut events: Vec<AudioEvent> = Vec::new();
        match self.nodes.remove(&id) {
            Some(_node) => {
                match self.node_ports.remove(&id) {
                    Some(port_ids) => {
                        let mut i: usize = 0;
                        while i < port_ids.len()
                            invariant
                                i <= port_ids.len(),
                                self.ports@ == old(self).ports@.remove_keys(port_ids@.take(i as int).to_set()),
                                self.nodes@ == old(self).nodes@.remove(id),
                                self.node_ports@ == old(self).node_ports@.remove(id),
                                self.links@ == old(self).links@,
                                self.port_links@ == old(self).port_links@,
                                self.virtual_sink_ids == old(self).virtual_sink_ids,
                                self.default_output_id == old(self).default_output_id,
                            decreases port_ids.len() - i,
                        {
                            self.ports.remove(&port_ids[i]);
                            proof {
                                assert(port_ids@.take(i as int + 1) =~= port_ids@.take(i as int).push(port_ids@[i as int]));
                                port_ids@.take(i as int).lemma_push_to_set_commute(port_ids@[i as int]);
                            }
                            assert(self.ports@ =~= old(self).ports@.remove_keys(port_ids@.take(i as int + 1).to_set()));
                            i += 1;
                        }
                        assert(port_ids@.take(port_ids.len() as int) =~= port_ids@);
                    },
                    None => {
                        assert(self.ports@ =~= old(self).ports@.remove_keys(Seq::<u32>::empty().to_set()));
                    },
                }
                events.push(AudioEvent::NodeRemoved { id });
                assert(events@ =~= seq![AudioEvent::NodeRemoved { id }]);
                return events;
            },
            None => {
                assert(self.nodes@ =~= old(self).nodes@);
            },
        }
        match self.remove_port(id) {
            Some(port) => {
                events.push(AudioEvent::PortRemoved { id, node_id: port.node_id });
                assert(events@ =~= seq![AudioEvent::PortRemoved { id, node_id: port.node_id }]);
                return events;
            },
            None => {},
        }
        match self.remove_link(id) {
            Some(_link) => {
                events.push(AudioEvent::LinkRemoved { id });
                assert(events@ =~= seq![AudioEvent::LinkRemoved { id }]);
            },
            None => {},
        }
        events
    }
}

/// Whether `pair` links one of `src` to one of `dst` with matching
/// channels.
pub open spec fn joins_matching(src: Seq<PortInfo>, dst: Seq<PortInfo>, pair: (u32, u32)) -> bool {
    exists|i: int, j: int|
        0 <= i < src.len() && 0 <= j < dst.len() && pair == (#[trigger] src[i].id, #[trigger] dst[j].id) && channels_match(
            src[i].channel,
            dst[j].channel,
        )
}

/// Each link that routing plans goes from one of the source ports to one
/// of the destination ports, and their channels match; no source port gets
/// more than one link.
pub proof fn law_planned_links_match_channels(src: Seq<PortInfo>, dst: Seq<PortInfo>)
    ensures
        port_pairs(src, dst).len() <= src.len(),
        forall|k: int| 0 <= k < port_pairs(src, dst).len() ==> joins_matching(src, dst, #[trigger] port_pairs(src, dst)[k]),
    decreases src.len(),
{
    if src.len() > 0 {
        law_planned_links_match_channels(src.drop_last(), dst);
        let rest = port_pairs(src.drop_last(), dst);
        lemma_first_match_is_match(src.last(), dst);
        assert forall|k: int| 0 <= k < port_pairs(src, dst).len() implies joins_matching(
            src,
            dst,
            #[trigger] port_pairs(src, dst)[k],
        ) by {
            if k < rest.len() {
                assert(port_pairs(src, dst)[k] == rest[k]);
                assert(joins_matching(src.drop_last(), dst, rest[k]));
                let (i, j) = choose|i: int, j: int|
                    0 <= i < src.drop_last().len() && 0 <= j < dst.len() && rest[k] == (
                        #[trigger] src.drop_last()[i].id,
                        #[trigger] dst[j].id,
                    ) && channels_match(src.drop_last()[i].channel, dst[j].channel);
                assert(src[i] == src.drop_last()[i]);
                assert(rest[k] == (src[i].id, dst[j].id));
            } else {
                let j = first_match(src.last(), dst)->0;
                let i = src.len() - 1;
                assert(port_pairs(src, dst)[k] == (src[i].id, dst[j].id));
            }
        }
    }
}

/// The first match is a destination port whose channel matches.
pub proof fn lemma_first_match_is_match(p: PortInfo, dst: Seq<PortInfo>)
    ensures
        first_match(p, dst) matches Some(j) ==> 0 <= j < dst.len() && channels_match(p.channel, dst[j].channel),
    decreases dst.len(),
{
    if dst.len() > 0 {
        lemma_first_match_is_match(p, dst.drop_last());
    }
}

/// When a node goes away, none of its ports stays known.
pub proof fn law_removed_node_takes_its_ports(before: PipeWireState, after: PipeWireState, id: u32, events: Seq<AudioEvent>)
    requires
        before.nodes@.contains_key(id),
        after.global_removed(&before, id, events),
    ensures
        !after.nodes@.contains_key(id),
        forall|i: int|
            0 <= i < list_of(before.node_ports@, id).len() ==> !after.ports@.contains_key(
                #[trigger] list_of(before.node_ports@, id)[i],
            ),
        events == seq![AudioEvent::NodeRemoved { id }],
{
    assert forall|i: int| 0 <= i < list_of(before.node_ports@, id).len() implies !after.ports@.contains_key(
        #[trigger] list_of(before.node_ports@, id)[i],
    ) by {
        assert(list_of(before.node_ports@, id).to_set().contains(list_of(before.node_ports@, id)[i]));
    }
}

/// A port announced and then taken away is no longer known, and the
/// removal reports the node it belonged to.
pub proof fn law_port_added_then_removed(
    s0: PipeWireState,
    s1: PipeWireState,
    s2: PipeWireState,
    id: u32,
    props: Map<String, String>,
    added: Seq<AudioEvent>,
    removed: Seq<AudioEvent>,
)
    requires
        !s0.nodes@.contains_key(id),
        port_direction_of(props) is Some,
        s1.port_added(&s0, id, props, added),
        s2.global_removed(&s1, id, removed),
    ensures
        !s2.ports@.contains_key(id),
        removed == seq![AudioEvent::PortRemoved { id, node_id: prop_u32(props, "node.id"@) }],
{
}

/// Law: a node of a known type that the registry announces under one of
/// the mixer's own sink names (`amplitude-monitor`, `amplitude-stream`, or a
/// name beginning with `amplitude-channel-`) is reported first as a
/// discovered virtual sink with its id and name, and is recorded under its
/// name with that id, so that it is found by name afterwards; a node under
/// any other name is not recorded.
pub proof fn law_mixer_sinks_are_discovered(
    s: PipeWireState,
    o: PipeWireState,
    id: u32,
    props: Map<String, String>,
    events: Seq<AudioEvent>,
)
    requires
        s.node_added(&o, id, props, events),
        node_type_of(prop_or(props, "media.class"@, ""@)) != NodeType::Unknown,
    ensures
        ({
            let name = prop_or(props, "node.name"@, "Unknown"@);
            &&& (name == "amplitude-monitor"@ || name == "amplitude-stream"@ || has_prefix(name, "amplitude-channel-"@))
                ==> {
                &&& events[0] matches AudioEvent::VirtualSinkDiscovered(info) && info.id == id && info.name@ == name
                &&& s.virtual_sink_ids@.contains_key(name)
                &&& s.virtual_sink_ids@[name] == id
            }
            &&& !(name == "amplitude-monitor"@ || name == "amplitude-stream"@ || has_prefix(name, "amplitude-channel-"@))
                ==> s.virtual_sink_ids@ == o.virtual_sink_ids@
        }),
{
}

} // verus!
