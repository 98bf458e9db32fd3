//! The decisions of the audio manager: which virtual sinks exist, which
//! channel sinks still wait to be created or wired, and which commands each
//! event calls for. The application runs the loop: it receives each event,
//! hands it to the node manager and to `AudioManager::handle_event`, and
//! sends the commands and broadcasts the events that come back.
use vstd::prelude::*;
use vstd::string::StrSliceExecFns;

use crate::audio::client::{
    channel_sink_name, create_channel_sink_command, PipeWireCommand, CHANNEL_SINK_PREFIX, MONITOR_SINK_NAME,
    STREAM_SINK_NAME,
};
use crate::audio::events::{AudioEvent, PortInfo};
use crate::audio::nodes::{port_ids, ports_of, with_direction, NodeManager};
use crate::audio::events::PortDirection;
use crate::names::NameMap;
use crate::seqs::{contains_u32, lemma_seq_without_members, seq_without};
use crate::strings::{has_prefix, starts_with, str_eq, to_owned};

verus! {

/// What the application must do after an event: send a command to the
/// PipeWire thread, or broadcast an event to the subscribers.
#[derive(Debug, Clone)]
pub enum ManagerAction {
    Send(PipeWireCommand),
    Broadcast(AudioEvent),
}

/// The abstract state of the audio manager.
pub struct ManagerState {
    /// Node id of the monitor sink, once known.
    pub monitor: Option<u32>,
    /// Node id of the stream sink, once known.
    pub stream: Option<u32>,
    /// Node id of each channel's sink, by channel name.
    pub channel_sinks: Map<Seq<char>, u32>,
    /// Channels whose sink was asked for and not yet discovered.
    pub pending_sinks: Seq<Seq<char>>,
    /// Channel sinks still to be wired to the monitor and stream sinks.
    pub pending_connections: Seq<u32>,
    /// Channels whose sinks are created once PipeWire is ready.
    pub startup: Seq<Seq<char>>,
}

/// The texts of a list of strings.
pub open spec fn texts(s: Seq<String>) -> Seq<Seq<char>> {
    s.map_values(|x: String| x@)
}

/// Whether `cmd` asks for the sink of channel `channel`.
pub open spec fn creates_channel_sink(cmd: PipeWireCommand, channel: Seq<char>) -> bool {
    cmd matches PipeWireCommand::CreateVirtualSink { name, description } && name@ == CHANNEL_SINK_PREFIX@ + channel
        && description@ == "Amplitude Channel: "@ + channel
}

/// Whether `cmd` asks for the virtual sink `name` with `description`.
pub open spec fn creates_sink(cmd: PipeWireCommand, name: Seq<char>, description: Seq<char>) -> bool {
    cmd matches PipeWireCommand::CreateVirtualSink { name: n, description: d } && n@ == name && d@ == description
}

/// The channels of `names`, in order, whose sink is not known yet: those a
/// sink is asked for.
pub open spec fn sinks_to_request(known: Map<Seq<char>, u32>, names: Seq<Seq<char>>) -> Seq<Seq<char>>
    decreases names.len(),
{
    if names.len() == 0 {
        Seq::empty()
    } else if known.contains_key(names.last()) {
        sinks_to_request(known, names.drop_last())
    } else {
        sinks_to_request(known, names.drop_last()).push(names.last())
    }
}

/// The list of channels waiting for their sink after asking for the sinks
/// of `names`: each channel without a known sink is added once.
pub open spec fn pending_after(pending: Seq<Seq<char>>, known: Map<Seq<char>, u32>, names: Seq<Seq<char>>) -> Seq<
    Seq<char>,
>
    decreases names.len(),
{
    if names.len() == 0 {
        pending
    } else {
        let before = pending_after(pending, known, names.drop_last());
        if known.contains_key(names.last()) || before.contains(names.last()) {
            before
        } else {
            before.push(names.last())
        }
    }
}

/// The commands that wire each of `ids`, in order, to the monitor and
/// stream sinks.
pub open spec fn connect_commands(ids: Seq<u32>, monitor: u32, stream: u32) -> Seq<PipeWireCommand> {
    ids.map_values(
        |id: u32|
            PipeWireCommand::ConnectChannelToOutputs {
                channel_sink_id: id,
                monitor_sink_id: monitor,
                stream_sink_id: stream,
            },
    )
}

/// `pending` with each of `ids` not in it yet appended, in order.
pub open spec fn add_missing(pending: Seq<u32>, ids: Seq<u32>) -> Seq<u32>
    decreases ids.len(),
{
    if ids.len() == 0 {
        pending
    } else {
        let before = add_missing(pending, ids.drop_last());
        if before.contains(ids.last()) {
            before
        } else {
            before.push(ids.last())
        }
    }
}

/// The commands an action list sends, in order.
pub open spec fn sends(cmds: Seq<PipeWireCommand>) -> Seq<ManagerAction> {
    cmds.map_values(|c: PipeWireCommand| ManagerAction::Send(c))
}

/// Whether two ports carry the same channel; two ports without one count
/// as the same.
pub open spec fn same_channel(a: Option<String>, b: Option<String>) -> bool {
    match (a, b) {
        (Some(x), Some(y)) => x@ == y@,
        (None, None) => true,
        _ => false,
    }
}

/// The links from port `p` to every port of `dst` with the same channel,
/// in order.
pub open spec fn links_from(p: PortInfo, dst: Seq<PortInfo>) -> Seq<(u32, u32)>
    decreases dst.len(),
{
    if dst.len() == 0 {
        Seq::empty()
    } else if same_channel(p.channel, dst.last().channel) {
        links_from(p, dst.drop_last()).push((p.id, dst.last().id))
    } else {
        links_from(p, dst.drop_last())
    }
}

/// The links from each port of `src`, in order, to every port of `dst`
/// with the same channel.
pub open spec fn equal_channel_links(src: Seq<PortInfo>, dst: Seq<PortInfo>) -> Seq<(u32, u32)>
    decreases src.len(),
{
    if src.len() == 0 {
        Seq::empty()
    } else {
        equal_channel_links(src.drop_last(), dst) + links_from(src.last(), dst)
    }
}

/// The commands that create the links of `pairs`, in order.
pub open spec fn link_commands(pairs: Seq<(u32, u32)>) -> Seq<PipeWireCommand> {
    pairs.map_values(|p: (u32, u32)| PipeWireCommand::CreateLink { output_port: p.0, input_port: p.1 })
}

/// What trying to wire the waiting channel sinks gives: with both bus sinks
/// known, every waiting sink is sent to be wired and none waits any more;
/// otherwise nothing happens.
pub open spec fn tried(s: ManagerState) -> (ManagerState, Seq<PipeWireCommand>) {
    match (s.monitor, s.stream) {
        (Some(m), Some(st)) => (
            ManagerState { pending_connections: Seq::empty(), ..s },
            connect_commands(s.pending_connections, m, st),
        ),
        _ => (s, Seq::empty()),
    }
}

/// Whether `all` is `pending` followed by each sink id of `sinks` that is
/// not in `pending`, each once, in some order.
pub open spec fn extended_with_sinks(pending: Seq<u32>, sinks: Map<Seq<char>, u32>, all: Seq<u32>) -> bool {
    &&& all.len() >= pending.len()
    &&& all.take(pending.len() as int) == pending
    &&& forall|n: Seq<char>| #[trigger] sinks.contains_key(n) ==> all.contains(sinks[n])
    &&& forall|i: int|
        pending.len() <= i < all.len() ==> !pending.contains(#[trigger] all[i]) && exists|n: Seq<char>|
            sinks.contains_key(n) && sinks[n] == all[i]
    &&& forall|i: int, j: int| pending.len() <= i < j < all.len() ==> all[i] != all[j]
}

/// `after` and `cmds` are what wiring every known channel sink gives: with
/// both bus sinks known, every channel sink joins the waiting list (once)
/// and the whole list is sent to be wired; otherwise nothing happens.
pub open spec fn sinks_connected(before: ManagerState, after: ManagerState, cmds: Seq<PipeWireCommand>) -> bool {
    match (before.monitor, before.stream) {
        (Some(m), Some(st)) => exists|all: Seq<u32>|
            extended_with_sinks(before.pending_connections, before.channel_sinks, all) && after == ManagerState {
                pending_connections: Seq::empty(),
                ..before
            } && cmds == connect_commands(all, m, st),
        _ => after == before && cmds.len() == 0,
    }
}

/// The audio manager's bookkeeping of virtual sinks.
#[derive(Debug)]
pub struct AudioManager {
    monitor_sink_id: Option<u32>,
    stream_sink_id: Option<u32>,
    channel_sink_ids: NameMap<u32>,
    pending_channel_sinks: Vec<String>,
    pending_channel_connections: Vec<u32>,
    startup_channels: Vec<String>,
}

impl View for AudioManager {
    type V = ManagerState;

    closed spec fn view(&self) -> ManagerState {
        ManagerState {
            monitor: self.monitor_sink_id,
            stream: self.stream_sink_id,
            channel_sinks: self.channel_sink_ids@,
            pending_sinks: texts(self.pending_channel_sinks@),
            pending_connections: self.pending_channel_connections@,
            startup: texts(self.startup_channels@),
        }
    }
}

impl AudioManager {
    pub closed spec fn wf(&self) -> bool {
        self.channel_sink_ids.wf()
    }

    /// Nothing known yet.
    pub fn new() -> (r: AudioManager)
        ensures
            r.wf(),
            r@.monitor is None && r@.stream is None,
            r@.channel_sinks == Map::<Seq<char>, u32>::empty(),
            r@.pending_sinks.len() == 0 && r@.pending_connections.len() == 0 && r@.startup.len() == 0,
    {
        AudioManager {
            monitor_sink_id: None,
            stream_sink_id: None,
            channel_sink_ids: NameMap::new(),
            pending_channel_sinks: Vec::new(),
            pending_channel_connections: Vec::new(),
            startup_channels: Vec::new(),
        }
    }

    /// The commands that create the monitor and stream sinks (PipeWire
    /// skips those that exist).
    pub fn ensure_virtual_sinks(&self) -> (r: Vec<PipeWireCommand>)
        ensures
            r@.len() == 2,
            creates_sink(r@[0], MONITOR_SINK_NAME@, "Amplitude Monitor Output"@),
            creates_sink(r@[1], STREAM_SINK_NAME@, "Amplitude Stream Output"@),
    {
        let mut r: Vec<PipeWireCommand> = Vec::new();
        r.push(
            PipeWireCommand::CreateVirtualSink {
                name: to_owned(MONITOR_SINK_NAME),
                description: to_owned("Amplitude Monitor Output"),
            },
        );
        r.push(
            PipeWireCommand::CreateVirtualSink {
                name: to_owned(STREAM_SINK_NAME),
                description: to_owned("Amplitude Stream Output"),
            },
        );
        r
    }

    /// The node id of the monitor sink.
    pub fn monitor_sink_id(&self) -> (r: Option<u32>)
        ensures
            r == self@.monitor,
    {
        self.monitor_sink_id
    }

    /// The node id of the stream sink.
    pub fn stream_sink_id(&self) -> (r: Option<u32>)
        ensures
            r == self@.stream,
    {
        self.stream_sink_id
    }

    /// The node id of a channel's sink.
    pub fn get_channel_sink_id(&self, channel_name: &str) -> (r: Option<u32>)
        requires
            self.wf(),
        ensures
            r == if self@.channel_sinks.contains_key(channel_name@) {
                Some(self@.channel_sinks[channel_name@])
            } else {
                None
            },
    {
        match self.channel_sink_ids.get(channel_name) {
            Some(id) => Some(*id),
            None => None,
        }
    }

    /// Whether a channel waits for its sink.
    fn is_pending_sink(&self, channel_name: &str) -> (r: bool)
        ensures
            r == self@.pending_sinks.contains(channel_name@),
    {
        let mut i: usize = 0;
        while i < self.pending_channel_sinks.len()
            invariant
                i <= self.pending_channel_sinks.len(),
                forall|j: int| 0 <= j < i ==> (#[trigger] self.pending_channel_sinks@[j])@ != channel_name@,
            decreases self.pending_channel_sinks.len() - i,
        {
            if str_eq(self.pending_channel_sinks[i].as_str(), channel_name) {
                assert(texts(self.pending_channel_sinks@)[i as int] == channel_name@);
                return true;
            }
            i += 1;
        }
        proof {
            if self@.pending_sinks.contains(channel_name@) {
                let j = choose|j: int| 0 <= j < self@.pending_sinks.len() && self@.pending_sinks[j] == channel_name@;
                assert(self.pending_channel_sinks@[j]@ == channel_name@);
            }
        }
        false
    }

    /// Asks for a channel's sink unless it is known; the channel then waits
    /// for it (once).
    pub fn create_channel_sink(&mut self, channel_name: &str) -> (r: Option<PipeWireCommand>)
        requires
            old(self).wf(),
        ensures
            final(self).wf(),
            final(self)@ == (ManagerState {
                pending_sinks: if old(self)@.channel_sinks.contains_key(channel_name@) || old(
                    self,
                )@.pending_sinks.contains(channel_name@) {
                    old(self)@.pending_sinks
                } else {
                    old(self)@.pending_sinks.push(channel_name@)
                },
                ..old(self)@
            }),
            old(self)@.channel_sinks.contains_key(channel_name@) ==> r is None,
            !old(self)@.channel_sinks.contains_key(channel_name@) ==> (r matches Some(c) && creates_channel_sink(
                c,
                channel_name@,
            )),
    {
        if self.channel_sink_ids.contains_key(channel_name) {
            return None;
        }
        if !self.is_pending_sink(channel_name) {
            self.pending_channel_sinks.push(to_owned(channel_name));
            assert(texts(self.pending_channel_sinks@) =~= old(self)@.pending_sinks.push(channel_name@));
        }
        Some(create_channel_sink_command(channel_name))
    }

    /// Asks for the sinks of several channels, in order (see
    /// `create_channel_sink`).
    pub fn create_channel_sinks(&mut self, channel_names: &Vec<String>) -> (r: Vec<PipeWireCommand>)
        requires
            old(self).wf(),
        ensures
            final(self).wf(),
            final(self)@ == (ManagerState {
                pending_sinks: pending_after(
                    old(self)@.pending_sinks,
                    old(self)@.channel_sinks,
                    texts(channel_names@),
                ),
                ..old(self)@
            }),
            r@.len() == sinks_to_request(old(self)@.channel_sinks, texts(channel_names@)).len(),
            forall|i: int|
                0 <= i < r@.len() ==> creates_channel_sink(
                    #[trigger] r@[i],
                    sinks_to_request(old(self)@.channel_sinks, texts(channel_names@))[i],
                ),
    {
        let ghost names = texts(channel_names@);
        let mut out: Vec<PipeWireCommand> = Vec::new();
        let mut i: usize = 0;
        while i < channel_names.len()
            invariant
                i <= channel_names.len(),
                names == texts(channel_names@),
                self.wf(),
                self@ == (ManagerState {
                    pending_sinks: pending_after(old(self)@.pending_sinks, old(self)@.channel_sinks, names.take(i as int)),
                    ..old(self)@
                }),
                out@.len() == sinks_to_request(old(self)@.channel_sinks, names.take(i as int)).len(),
                forall|k: int|
                    0 <= k < out@.len() ==> creates_channel_sink(
                        #[trigger] out@[k],
                        sinks_to_request(old(self)@.channel_sinks, names.take(i as int))[k],
                    ),
            decreases channel_names.len() - i,
        {
            assert(names.take(i as int + 1).drop_last() =~= names.take(i as int));
            assert(names.take(i as int + 1).last() == channel_names@[i as int]@);
            let ghost before = self@;
            match self.create_channel_sink(channel_names[i].as_str()) {
                Some(c) => {
                    out.push(c);
                },
                None => {},
            }
            i += 1;
        }
        assert(names.take(channel_names.len() as int) =~= names);
        out
    }

    /// Sets the channels whose sinks are asked for once PipeWire is ready.
    pub fn set_startup_channels(&mut self, channels: Vec<String>)
        ensures
            final(self).wf() == old(self).wf(),
            final(self)@ == (ManagerState { startup: texts(channels@), ..old(self)@ }),
    {
        self.startup_channels = channels;
    }

    /// The command that asks for a channel's sink, whatever is known.
    pub fn request_channel_sink(&self, channel_name: &str) -> (r: PipeWireCommand)
        ensures
            creates_channel_sink(r, channel_name@),
    {
        create_channel_sink_command(channel_name)
    }

    /// The command that routes an application to a channel's sink.
    pub fn request_route_to_channel(&self, app_node_id: u32, channel_name: &str) -> (r: PipeWireCommand)
        ensures
            r matches PipeWireCommand::RouteAppToChannelByName { app_node_id: a, channel_name: c } && a == app_node_id
                && c@ == channel_name@,
    {
        PipeWireCommand::RouteAppToChannelByName { app_node_id, channel_name: to_owned(channel_name) }
    }

    /// The command that routes an application to the monitor and stream
    /// sinks.
    pub fn request_route_to_virtual_sinks(&self, app_node_id: u32) -> (r: PipeWireCommand)
        ensures
            r == (PipeWireCommand::RouteAppToVirtualSinks { app_node_id }),
    {
        PipeWireCommand::RouteAppToVirtualSinks { app_node_id }
    }

    /// The commands that link each output port of an application to every
    /// input port of a sink that carries the same channel.
    pub fn route_to_sink(&self, nm: &NodeManager, app_node_id: u32, sink_node_id: u32) -> (r: Vec<PipeWireCommand>)
        ensures
            r@ == link_commands(
                equal_channel_links(
                    with_direction(ports_of(port_ids(nm@, app_node_id), nm@.ports), PortDirection::Output),
                    with_direction(ports_of(port_ids(nm@, sink_node_id), nm@.ports), PortDirection::Input),
                ),
            ),
    {
        let app_ports = nm.get_output_ports(app_node_id);
        let sink_ports = nm.get_input_ports(sink_node_id);
        let ghost src = app_ports@.map_values(|p: &PortInfo| *p);
        let ghost dst = sink_ports@.map_values(|p: &PortInfo| *p);
        let mut out: Vec<PipeWireCommand> = Vec::new();
        let mut i: usize = 0;
        while i < app_ports.len()
            invariant
                i <= app_ports.len(),
                src == app_ports@.map_values(|p: &PortInfo| *p),
                dst == sink_ports@.map_values(|p: &PortInfo| *p),
                out@ == link_commands(equal_channel_links(src.take(i as int), dst)),
            decreases app_ports.len() - i,
        {
            assert(src.take(i as int + 1).drop_last() =~= src.take(i as int));
            let ghost before = out@;
            let mut j: usize = 0;
            while j < sink_ports.len()
                invariant
                    i < app_ports.len(),
                    j <= sink_ports.len(),
                    dst == sink_ports@.map_values(|p: &PortInfo| *p),
                    out@ == before + link_commands(links_from(*app_ports@[i as int], dst.take(j as int))),
                decreases sink_ports.len() - j,
            {
                assert(dst.take(j as int + 1).drop_last() =~= dst.take(j as int));
                let same = match (&app_ports[i].channel, &sink_ports[j].channel) {
                    (Some(a), Some(b)) => str_eq(a.as_str(), b.as_str()),
                    (None, None) => true,
                    _ => false,
                };
                if same {
                    out.push(PipeWireCommand::CreateLink { output_port: app_ports[i].id, input_port: sink_ports[j].id });
                    assert(link_commands(links_from(*app_ports@[i as int], dst.take(j as int + 1))) =~= link_commands(
                        links_from(*app_ports@[i as int], dst.take(j as int)),
                    ).push(PipeWireCommand::CreateLink { output_port: app_ports@[i as int].id, input_port: sink_ports@[j as int].id }));
                }
                j += 1;
            }
            assert(dst.take(sink_ports.len() as int) =~= dst);
            assert(link_commands(equal_channel_links(src.take(i as int + 1), dst)) =~= link_commands(
                equal_channel_links(src.take(i as int), dst),
            ) + link_commands(links_from(*app_ports@[i as int], dst)));
            i += 1;
        }
        assert(src.take(app_ports.len() as int) =~= src);
        out
    }

    /// The commands that route an application to the monitor sink and to
    /// the stream sink, each when it is known.
    pub fn route_to_virtual_sinks(&self, app_node_id: u32) -> (r: Vec<PipeWireCommand>)
        ensures
            r@ == match self@.monitor {
                Some(m) => seq![PipeWireCommand::RouteAppToSink { app_node_id, sink_node_id: m }],
                None => Seq::<PipeWireCommand>::empty(),
            } + match self@.stream {
                Some(st) => seq![PipeWireCommand::RouteAppToSink { app_node_id, sink_node_id: st }],
                None => Seq::<PipeWireCommand>::empty(),
            },
    {
        let mut r: Vec<PipeWireCommand> = Vec::new();
        match self.monitor_sink_id {
            Some(m) => r.push(PipeWireCommand::RouteAppToSink { app_node_id, sink_node_id: m }),
            None => {},
        }
        let ghost first = r@;
        match self.stream_sink_id {
            Some(st) => r.push(PipeWireCommand::RouteAppToSink { app_node_id, sink_node_id: st }),
            None => {},
        }
        assert(r@ =~= first + match self@.stream {
            Some(st) => seq![PipeWireCommand::RouteAppToSink { app_node_id, sink_node_id: st }],
            None => Seq::<PipeWireCommand>::empty(),
        });
        r
    }

    /// The command that routes an application to the monitor sink; an error
    /// when that sink is not known.
    pub fn route_to_monitor(&self, app_node_id: u32) -> (r: Result<PipeWireCommand, String>)
        ensures
            match self@.monitor {
                Some(m) => r == Ok::<PipeWireCommand, String>(
                    PipeWireCommand::RouteAppToSink { app_node_id, sink_node_id: m },
                ),
                None => r matches Err(e) && e@ == "Monitor sink not available"@,
            },
    {
        match self.monitor_sink_id {
            Some(m) => Ok(PipeWireCommand::RouteAppToSink { app_node_id, sink_node_id: m }),
            None => Err(to_owned("Monitor sink not available")),
        }
    }

    /// The command that routes an application to the stream sink; an error
    /// when that sink is not known.
    pub fn route_to_stream(&self, app_node_id: u32) -> (r: Result<PipeWireCommand, String>)
        ensures
            match self@.stream {
                Some(st) => r == Ok::<PipeWireCommand, String>(
                    PipeWireCommand::RouteAppToSink { app_node_id, sink_node_id: st },
                ),
                None => r matches Err(e) && e@ == "Stream sink not available"@,
            },
    {
        match self.stream_sink_id {
            Some(st) => Ok(PipeWireCommand::RouteAppToSink { app_node_id, sink_node_id: st }),
            None => Err(to_owned("Stream sink not available")),
        }
    }

    /// The command that sets a channel's volume (bits of an `f32`).
    pub fn set_channel_volume(&self, channel_name: &str, volume: u32) -> (r: PipeWireCommand)
        ensures
            r matches PipeWireCommand::SetChannelVolume { channel_name: c, volume: v } && c@ == channel_name@ && v
                == volume,
    {
        PipeWireCommand::SetChannelVolume { channel_name: to_owned(channel_name), volume }
    }

    /// The command that mutes or unmutes a channel.
    pub fn set_channel_muted(&self, channel_name: &str, muted: bool) -> (r: PipeWireCommand)
        ensures
            r matches PipeWireCommand::SetChannelMuted { channel_name: c, muted: m } && c@ == channel_name@ && m
                == muted,
    {
        PipeWireCommand::SetChannelMuted { channel_name: to_owned(channel_name), muted }
    }

    /// Routes an application to a channel's sink: its links go first, then
    /// it is routed to the sink. When the channel's sink is not known only
    /// the links go, and the error says so.
    pub fn route_app_to_channel(&self, app_node_id: u32, channel_name: &str) -> (r: (Vec<PipeWireCommand>, Result<(), String>))
        requires
            self.wf(),
        ensures
            r.0@.len() >= 1,
            r.0@[0] == (PipeWireCommand::DestroyLinksFromNode { node_id: app_node_id }),
            self@.channel_sinks.contains_key(channel_name@) ==> r.1 is Ok && r.0@ == seq![
                PipeWireCommand::DestroyLinksFromNode { node_id: app_node_id },
                PipeWireCommand::RouteAppToSink { app_node_id, sink_node_id: self@.channel_sinks[channel_name@] },
            ],
            !self@.channel_sinks.contains_key(channel_name@) ==> r.0@.len() == 1,
            !self@.channel_sinks.contains_key(channel_name@) ==> (r.1 matches Err(e) && e@ == "Channel sink for '"@
                + channel_name@ + "' not found"@),
    {
        let mut cmds: Vec<PipeWireCommand> = Vec::new();
        cmds.push(PipeWireCommand::DestroyLinksFromNode { node_id: app_node_id });
        match self.channel_sink_ids.get(channel_name) {
            Some(id) => {
                cmds.push(PipeWireCommand::RouteAppToSink { app_node_id, sink_node_id: *id });
                (cmds, Ok(()))
            },
            None => {
                proof {
                    reveal_strlit("Channel sink for '");
                    reveal_strlit("' not found");
                }
                let msg = String::from_str("Channel sink for '").concat(channel_name).concat("' not found");
                (cmds, Err(msg))
            },
        }
    }

    /// The command that wires a channel sink to the bus sinks that are
    /// known: both, or the one known in both places, or none.
    pub fn connect_channel_sink_to_outputs(&self, channel_sink_id: u32) -> (r: Option<PipeWireCommand>)
        ensures
            r == match (self@.monitor, self@.stream) {
                (Some(m), Some(st)) => Some(
                    PipeWireCommand::ConnectChannelToOutputs {
                        channel_sink_id,
                        monitor_sink_id: m,
                        stream_sink_id: st,
                    },
                ),
                (Some(m), None) => Some(
                    PipeWireCommand::ConnectChannelToOutputs { channel_sink_id, monitor_sink_id: m, stream_sink_id: m },
                ),
                (None, Some(st)) => Some(
                    PipeWireCommand::ConnectChannelToOutputs {
                        channel_sink_id,
                        monitor_sink_id: st,
                        stream_sink_id: st,
                    },
                ),
                (None, None) => None::<PipeWireCommand>,
            },
    {
        match (self.monitor_sink_id, self.stream_sink_id) {
            (Some(m), Some(st)) => Some(
                PipeWireCommand::ConnectChannelToOutputs { channel_sink_id, monitor_sink_id: m, stream_sink_id: st },
            ),
            (Some(m), None) => Some(
                PipeWireCommand::ConnectChannelToOutputs { channel_sink_id, monitor_sink_id: m, stream_sink_id: m },
            ),
            (None, Some(st)) => Some(
                PipeWireCommand::ConnectChannelToOutputs { channel_sink_id, monitor_sink_id: st, stream_sink_id: st },
            ),
            (None, None) => None,
        }
    }

    /// Sends every waiting channel sink to be wired, once both bus sinks
    /// are known (see `tried`).
    pub fn try_connect_pending_channels(&mut self) -> (r: Vec<PipeWireCommand>)
        requires
            old(self).wf(),
        ensures
            final(self).wf(),
            (final(self)@, r@) == tried(old(self)@),
    {
        let (monitor_id, stream_id) = match (self.monitor_sink_id, self.stream_sink_id) {
            (Some(m), Some(st)) => (m, st),
            _ => {
                return Vec::new();
            },
        };
        let mut out: Vec<PipeWireCommand> = Vec::new();
        let mut i: usize = 0;
        while i < self.pending_channel_connections.len()
            invariant
                i <= self.pending_channel_connections.len(),
                out@ == connect_commands(self.pending_channel_connections@.take(i as int), monitor_id, stream_id),
            decreases self.pending_channel_connections.len() - i,
        {
            out.push(
                PipeWireCommand::ConnectChannelToOutputs {
                    channel_sink_id: self.pending_channel_connections[i],
                    monitor_sink_id: monitor_id,
                    stream_sink_id: stream_id,
                },
            );
            assert(self.pending_channel_connections@.take(i as int + 1) =~= self.pending_channel_connections@.take(
                i as int,
            ).push(self.pending_channel_connections@[i as int]));
            i += 1;
        }
        assert(self.pending_channel_connections@.take(self.pending_channel_connections.len() as int)
            =~= self.pending_channel_connections@);
        self.pending_channel_connections = Vec::new();
        assert(self@.pending_connections =~= Seq::<u32>::empty());
        out
    }

    /// Once both bus sinks are known, puts every channel sink on the waiting
    /// list (once) and sends the list to be wired (see `sinks_connected`).
    pub fn connect_pending_channel_sinks(&mut self) -> (r: Vec<PipeWireCommand>)
        requires
            old(self).wf(),
        ensures
            final(self).wf(),
            sinks_connected(old(self)@, final(self)@, r@),
    {
        if self.monitor_sink_id.is_none() || self.stream_sink_id.is_none() {
            return Vec::new();
        }
        let names = self.channel_sink_ids.names();
        let ghost start = self.pending_channel_connections@;
        let mut i: usize = 0;
        while i < names.len()
            invariant
                i <= names.len(),
                self.wf(),
                self@.monitor == old(self)@.monitor,
                self@.stream == old(self)@.stream,
                self@.channel_sinks == old(self)@.channel_sinks,
                self@.pending_sinks == old(self)@.pending_sinks,
                self@.startup == old(self)@.startup,
                start == old(self)@.pending_connections,
                forall|a: int, b: int| 0 <= a < names@.len() && 0 <= b < names@.len() && a != b ==> (#[trigger] names@[a])@ != (#[trigger] names@[b])@,
                forall|a: int| 0 <= a < names@.len() ==> self@.channel_sinks.contains_key(#[trigger] names@[a]@),
                forall|n: Seq<char>| #[trigger] self@.channel_sinks.contains_key(n) ==> exists|a: int| 0 <= a < names@.len() && names@[a]@ == n,
                self@.pending_connections.len() >= start.len(),
                self@.pending_connections.take(start.len() as int) == start,
                forall|a: int| 0 <= a < i ==> self@.pending_connections.contains(self@.channel_sinks[(#[trigger] names@[a])@]),
                forall|k: int|
                    start.len() <= k < self@.pending_connections.len() ==> !start.contains(#[trigger] self@.pending_connections[k])
                        && exists|n: Seq<char>| self@.channel_sinks.contains_key(n) && self@.channel_sinks[n] == self@.pending_connections[k],
                forall|k: int, l: int| start.len() <= k < l < self@.pending_connections.len() ==> self@.pending_connections[k] != self@.pending_connections[l],
            decreases names.len() - i,
        {
            let id = match self.channel_sink_ids.get(names[i].as_str()) {
                Some(v) => *v,
                None => {
                    i += 1;
                    continue;
                },
            };
            if !contains_u32(&self.pending_channel_connections, id) {
                let ghost before = self@.pending_connections;
                self.pending_channel_connections.push(id);
                proof {
                    assert(self@.pending_connections.take(start.len() as int) =~= before.take(start.len() as int));
                    assert(self@.pending_connections.contains(id)) by {
                        assert(self@.pending_connections[before.len() as int] == id);
                    }
                    assert forall|a: int| 0 <= a < i implies self@.pending_connections.contains(self@.channel_sinks[(#[trigger] names@[a])@]) by {
                        let w = choose|w: int| 0 <= w < before.len() && before[w] == self@.channel_sinks[names@[a]@];
                        assert(self@.pending_connections[w] == before[w]);
                    }
                    assert(!start.contains(id)) by {
                        if start.contains(id) {
                            let w = choose|w: int| 0 <= w < start.len() && start[w] == id;
                            assert(before.take(start.len() as int)[w] == id);
                            assert(before[w] == id);
                        }
                    }
                    let nm = names@[i as int]@;
                    assert forall|k: int| start.len() <= k < self@.pending_connections.len() implies !start.contains(
                        #[trigger] self@.pending_connections[k],
                    ) && exists|n: Seq<char>| self@.channel_sinks.contains_key(n) && self@.channel_sinks[n]
                        == self@.pending_connections[k] by {
                        if k < before.len() {
                            assert(self@.pending_connections[k] == before[k]);
                        } else {
                            assert(self@.channel_sinks.contains_key(nm) && self@.channel_sinks[nm] == self@.pending_connections[k]);
                        }
                    }
                    assert forall|k: int, l: int| start.len() <= k < l < self@.pending_connections.len() implies self@.pending_connections[k] != self@.pending_connections[l] by {
                        if l == before.len() {
                            assert(before[k] == self@.pending_connections[k]);
                            assert(before.contains(before[k]));
                        } else {
                            assert(before[k] == self@.pending_connections[k]);
                            assert(before[l] == self@.pending_connections[l]);
                        }
                    }
                }
            }
            i += 1;
        }
        proof {
            assert(extended_with_sinks(start, old(self)@.channel_sinks, self@.pending_connections)) by {
                assert forall|n: Seq<char>| #[trigger] old(self)@.channel_sinks.contains_key(n) implies self@.pending_connections.contains(old(self)@.channel_sinks[n]) by {
                    let a = choose|a: int| 0 <= a < names@.len() && names@[a]@ == n;
                    assert(self@.pending_connections.contains(self@.channel_sinks[names@[a]@]));
                }
            }
        }
        self.try_connect_pending_channels()
    }

    /// A command that wires channel sink `channel_sink_id` could not be
    /// sent: the sink waits to be wired again (once).
    pub fn requeue_connection(&mut self, channel_sink_id: u32)
        requires
            old(self).wf(),
        ensures
            final(self).wf(),
            final(self)@ == (ManagerState {
                pending_connections: if old(self)@.pending_connections.contains(channel_sink_id) {
                    old(self)@.pending_connections
                } else {
                    old(self)@.pending_connections.push(channel_sink_id)
                },
                ..old(self)@
            }),
    {
        if !contains_u32(&self.pending_channel_connections, channel_sink_id) {
            self.pending_channel_connections.push(channel_sink_id);
        }
    }

    /// Takes a channel off the list of channels waiting for their sink.
    fn drop_pending_sink(&mut self, channel_name: &str)
        requires
            old(self).wf(),
        ensures
            final(self).wf(),
            final(self)@ == (ManagerState {
                pending_sinks: seq_without(old(self)@.pending_sinks, channel_name@),
                ..old(self)@
            }),
    {
        let mut kept: Vec<String> = Vec::new();
        let mut i: usize = 0;
        while i < self.pending_channel_sinks.len()
            invariant
                i <= self.pending_channel_sinks.len(),
                self.pending_channel_sinks@ == old(self).pending_channel_sinks@,
                texts(kept@) == seq_without(texts(self.pending_channel_sinks@.take(i as int)), channel_name@),
            decreases self.pending_channel_sinks.len() - i,
        {
            assert(texts(self.pending_channel_sinks@.take(i as int + 1)).drop_last() =~= texts(
                self.pending_channel_sinks@.take(i as int),
            ));
            if !str_eq(self.pending_channel_sinks[i].as_str(), channel_name) {
                let ghost before = kept@;
                kept.push(self.pending_channel_sinks[i].clone());
                assert(texts(kept@) =~= texts(before).push(self.pending_channel_sinks@[i as int]@));
            }
            i += 1;
        }
        assert(self.pending_channel_sinks@.take(self.pending_channel_sinks.len() as int) =~= self.pending_channel_sinks@);
        self.pending_channel_sinks = kept;
    }

    /// Appends the sends of `cmds` to `out`.
    fn send_all(out: &mut Vec<ManagerAction>, cmds: Vec<PipeWireCommand>)
        ensures
            final(out)@ == old(out)@ + sends(cmds@),
    {
        let mut cmds = cmds;
        let ghost all = cmds@;
        let mut i: usize = 0;
        let n = cmds.len();
        while i < n
            invariant
                i <= n,
                n == all.len(),
                cmds@ == all.subrange(i as int, n as int),
                out@ == old(out)@ + sends(all.take(i as int)),
            decreases n - i,
        {
            let c = cmds.remove(0);
            out.push(ManagerAction::Send(c));
            assert(sends(all.take(i as int + 1)) =~= sends(all.take(i as int)).push(ManagerAction::Send(c)));
            i += 1;
            assert(cmds@ =~= all.subrange(i as int, n as int));
        }
        assert(all.take(n as int) =~= all);
    }

    /// What an event from the PipeWire thread calls for. On `Ready`: the
    /// bus sinks, the default output, and the sinks of the startup channels
    /// are asked for. When the monitor or stream sink shows up, its id is
    /// kept (the monitor is wired to the default output) and, once both are
    /// known, every channel sink is wired to them. When a channel sink shows
    /// up, it is kept under its channel, stops waiting for creation, waits
    /// to be wired, the waiting sinks are wired if both bus sinks are known,
    /// and its discovery is broadcast. A status report sets the bus sink
    /// ids it carries. A port of a channel sink that waits to be wired
    /// retries the wiring. Nothing else calls for anything. A wiring command
    /// is taken as delivered; one that could not be sent goes back through
    /// `requeue_connection`.
    pub fn handle_event(&mut self, event: &AudioEvent) -> (r: Vec<ManagerAction>)
        requires
            old(self).wf(),
        ensures
            final(self).wf(),
            match *event {
                AudioEvent::Ready => {
                    let wanted = sinks_to_request(old(self)@.channel_sinks, old(self)@.startup);
                    &&& r@.len() == 3 + wanted.len()
                    &&& r@[0] matches ManagerAction::Send(c) && creates_sink(
                        c,
                        MONITOR_SINK_NAME@,
                        "Amplitude Monitor Output"@,
                    )
                    &&& r@[1] matches ManagerAction::Send(c) && creates_sink(
                        c,
                        STREAM_SINK_NAME@,
                        "Amplitude Stream Output"@,
                    )
                    &&& r@[2] == ManagerAction::Send(PipeWireCommand::FindDefaultOutput)
                    &&& forall|i: int|
                        0 <= i < wanted.len() ==> (#[trigger] r@[3 + i] matches ManagerAction::Send(c)
                            && creates_channel_sink(c, wanted[i]))
                    &&& final(self)@ == (ManagerState {
                        startup: Seq::empty(),
                        pending_sinks: pending_after(
                            old(self)@.pending_sinks,
                            old(self)@.channel_sinks,
                            old(self)@.startup,
                        ),
                        ..old(self)@
                    })
                },
                AudioEvent::VirtualSinkDiscovered(info) => if info.name@ == MONITOR_SINK_NAME@ {
                    exists|cmds: Seq<PipeWireCommand>|
                        r@ == seq![ManagerAction::Send(PipeWireCommand::ConnectSinkToOutput { sink_node_id: info.id })]
                            + sends(cmds) && sinks_connected(
                            ManagerState { monitor: Some(info.id), ..old(self)@ },
                            final(self)@,
                            cmds,
                        )
                } else if info.name@ == STREAM_SINK_NAME@ {
                    exists|cmds: Seq<PipeWireCommand>|
                        r@ == sends(cmds) && sinks_connected(
                            ManagerState { stream: Some(info.id), ..old(self)@ },
                            final(self)@,
                            cmds,
                        )
                } else if has_prefix(info.name@, CHANNEL_SINK_PREFIX@) {
                    let channel = info.name@.subrange(CHANNEL_SINK_PREFIX@.len() as int, info.name@.len() as int);
                    let s1 = ManagerState {
                        channel_sinks: old(self)@.channel_sinks.insert(channel, info.id),
                        pending_sinks: seq_without(old(self)@.pending_sinks, channel),
                        pending_connections: if old(self)@.pending_connections.contains(info.id) {
                            old(self)@.pending_connections
                        } else {
                            old(self)@.pending_connections.push(info.id)
                        },
                        ..old(self)@
                    };
                    &&& final(self)@ == tried(s1).0
                    &&& r@.len() > 0
                    &&& r@.drop_last() == sends(tried(s1).1)
                    &&& r@.last() matches ManagerAction::Broadcast(AudioEvent::ChannelSinkDiscovered { name, id })
                        && name@ == channel && id == info.id
                } else {
                    final(self)@ == old(self)@ && r@.len() == 0
                },
                AudioEvent::VirtualSinksStatus { monitor_id, stream_id, .. } => {
                    &&& final(self)@ == (ManagerState {
                        monitor: if monitor_id is Some {
                            monitor_id
                        } else {
                            old(self)@.monitor
                        },
                        stream: if stream_id is Some {
                            stream_id
                        } else {
                            old(self)@.stream
                        },
                        ..old(self)@
                    })
                    &&& r@.len() == 0
                },
                AudioEvent::PortAdded(port) => if old(self)@.pending_connections.contains(port.node_id) {
                    final(self)@ == tried(old(self)@).0 && r@ == sends(tried(old(self)@).1)
                } else {
                    final(self)@ == old(self)@ && r@.len() == 0
                },
                _ => final(self)@ == old(self)@ && r@.len() == 0,
            },
    {
        let mut out: Vec<ManagerAction> = Vec::new();
        match event {
            AudioEvent::Ready => {
                let sinks = self.ensure_virtual_sinks();
                Self::send_all(&mut out, sinks);
                out.push(ManagerAction::Send(PipeWireCommand::FindDefaultOutput));
                let mut channels: Vec<String> = Vec::new();
                std::mem::swap(&mut channels, &mut self.startup_channels);
                let ghost mid = self@;
                assert(mid.startup =~= Seq::<Seq<char>>::empty());
                let cmds = self.create_channel_sinks(&channels);
                let ghost before = out@;
                Self::send_all(&mut out, cmds);
                proof {
                    let wanted = sinks_to_request(old(self)@.channel_sinks, old(self)@.startup);
                    assert forall|i: int| 0 <= i < wanted.len() implies (#[trigger] out@[3 + i] matches ManagerAction::Send(c)
                        && creates_channel_sink(c, wanted[i])) by {
                        assert(out@[3 + i] == sends(cmds@)[i]);
                    }
                }
            },
            AudioEvent::VirtualSinkDiscovered(sink_info) => {
                if str_eq(sink_info.name.as_str(), MONITOR_SINK_NAME) {
                    self.monitor_sink_id = Some(sink_info.id);
                    out.push(ManagerAction::Send(PipeWireCommand::ConnectSinkToOutput { sink_node_id: sink_info.id }));
                    let ghost s1 = self@;
                    let cmds = self.connect_pending_channel_sinks();
                    let ghost c = cmds@;
                    Self::send_all(&mut out, cmds);
                    assert(sinks_connected(s1, self@, c));
                } else if str_eq(sink_info.name.as_str(), STREAM_SINK_NAME) {
                    self.stream_sink_id = Some(sink_info.id);
                    let ghost s1 = self@;
                    let cmds = self.connect_pending_channel_sinks();
                    let ghost c = cmds@;
                    Self::send_all(&mut out, cmds);
                    assert(out@ =~= sends(c));
                    assert(sinks_connected(s1, self@, c));
                } else if starts_with(sink_info.name.as_str(), CHANNEL_SINK_PREFIX) {
                    let name_str = sink_info.name.as_str();
                    let channel_name = to_owned(
                        name_str.substring_char(CHANNEL_SINK_PREFIX.unicode_len(), name_str.unicode_len()),
                    );
                    self.channel_sink_ids.insert(channel_name.clone(), sink_info.id);
                    self.drop_pending_sink(channel_name.as_str());
                    if !contains_u32(&self.pending_channel_connections, sink_info.id) {
                        self.pending_channel_connections.push(sink_info.id);
                    }
                    let cmds = self.try_connect_pending_channels();
                    Self::send_all(&mut out, cmds);
                    let ghost sent = out@;
                    out.push(
                        ManagerAction::Broadcast(
                            AudioEvent::ChannelSinkDiscovered { name: channel_name, id: sink_info.id },
                        ),
                    );
                    assert(out@.drop_last() =~= sent);
                }
            },
            AudioEvent::VirtualSinksStatus { monitor_id, stream_id, .. } => {
                match monitor_id {
                    Some(id) => {
                        self.monitor_sink_id = Some(*id);
                    },
                    None => {},
                }
                match stream_id {
                    Some(id) => {
                        self.stream_sink_id = Some(*id);
                    },
                    None => {},
                }
            },
            AudioEvent::PortAdded(port_info) => {
                if contains_u32(&self.pending_channel_connections, port_info.node_id) {
                    let cmds = self.try_connect_pending_channels();
                    Self::send_all(&mut out, cmds);
                    assert(out@ =~= sends(tried(old(self)@).1));
                }
            },
            _ => {},
        }
        out
    }
}

/// Once both bus sinks are known, trying the waiting channel sinks sends
/// each of them to be wired to both, and none waits any more.
pub proof fn law_waiting_sinks_are_wired(s: ManagerState, id: u32)
    requires
        s.monitor is Some,
        s.stream is Some,
        s.pending_connections.contains(id),
    ensures
        tried(s).0.pending_connections.len() == 0,
        tried(s).1.contains(
            PipeWireCommand::ConnectChannelToOutputs {
                channel_sink_id: id,
                monitor_sink_id: s.monitor->0,
                stream_sink_id: s.stream->0,
            },
        ),
{
    let i = choose|i: int| 0 <= i < s.pending_connections.len() && s.pending_connections[i] == id;
    assert(tried(s).1[i] == PipeWireCommand::ConnectChannelToOutputs {
        channel_sink_id: id,
        monitor_sink_id: s.monitor->0,
        stream_sink_id: s.stream->0,
    });
}

/// A channel whose sink was discovered no longer waits for its creation.
pub proof fn law_discovered_sink_stops_waiting(pending: Seq<Seq<char>>, channel: Seq<char>)
    ensures
        !seq_without(pending, channel).contains(channel),
{
    lemma_seq_without_members(pending, channel);
    let b = pending.contains(channel);
    assert(seq_without(pending, channel).contains(channel) <==> (b && channel != channel));
}

/// The sink asked for a channel is recognized as that channel's sink when
/// it shows up: its name carries the channel-sink prefix, and what follows
/// the prefix is the channel's name.
pub proof fn law_channel_sink_names_round_trip(channel: Seq<char>)
    ensures
        has_prefix(CHANNEL_SINK_PREFIX@ + channel, CHANNEL_SINK_PREFIX@),
        (CHANNEL_SINK_PREFIX@ + channel).subrange(
            CHANNEL_SINK_PREFIX@.len() as int,
            (CHANNEL_SINK_PREFIX@ + channel).len() as int,
        ) == channel,
{
    assert((CHANNEL_SINK_PREFIX@ + channel).subrange(0, CHANNEL_SINK_PREFIX@.len() as int) =~= CHANNEL_SINK_PREFIX@);
    assert((CHANNEL_SINK_PREFIX@ + channel).subrange(
        CHANNEL_SINK_PREFIX@.len() as int,
        (CHANNEL_SINK_PREFIX@ + channel).len() as int,
    ) =~= channel);
}

} // verus!
