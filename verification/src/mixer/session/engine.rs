//! The mixing engine: channels, buses and the links between them, driven
//! through a platform backend.
use std::collections::HashMap;
use vstd::prelude::*;
use vstd::std_specs::iter::IteratorSpec;

use super::bus::Bus;
use super::channels::{copy_sends, Channel, Connection, Send, DEFAULT_LEVEL_BITS};
use super::config::{Config, SavePayload};
use crate::mixer::audio::backend::{AudioBackend, BackendCall, BackendEvent};
use crate::mixer::audio::link::Link;
use crate::mixer::audio::node::NodeInfo;
use crate::mixer::audio::sink::Sink;
use crate::mixer::ids::{id_to_string, uuid_text};
use crate::strings::{ascii_lowercase_text, is_ascii_text, str_eq, to_lowercase, to_owned, unicode_lowercase};

verus! {

broadcast use vstd::std_specs::hash::group_hash_axioms;

/// Name of the monitor bus and of its sink node.
pub const BUS_SUFFIX_MONITOR: &'static str = "monitor";
/// Name of the stream bus and of its sink node.
pub const BUS_SUFFIX_STREAM: &'static str = "stream";

/// Whether `c` is the microphone channel: its name lower-cases to `mic`.
pub open spec fn is_mic(c: Channel) -> bool {
    unicode_lowercase(c.name@) == "mic"@
}

/// Whether some channel of `chs` is the microphone channel.
pub open spec fn has_mic(chs: Map<u128, Channel>) -> bool {
    exists|k: u128| #[trigger] chs.contains_key(k) && is_mic(chs[k])
}

/// Whether `ext` is the live sink node of some bus of `buses`.
pub open spec fn is_live_bus_sink(buses: Map<u128, Bus>, ext: u64) -> bool {
    ext != 0 && exists|b: u128| #[trigger] buses.contains_key(b) && buses[b].sink.external_id == ext
}

/// The buses of `buses` whose sink has a live node.
pub open spec fn live_buses(buses: Map<u128, Bus>) -> Set<u128> {
    Set::new(|b: u128| buses.contains_key(b) && buses[b].sink.external_id != 0)
}

/// The links that the backend granted among `calls`: one for each link
/// request it answered with an id, in order.
pub open spec fn granted_links(calls: Seq<BackendCall>) -> Seq<Link>
    decreases calls.len(),
{
    if calls.len() == 0 {
        Seq::empty()
    } else {
        let r = granted_links(calls.drop_last());
        match calls.last() {
            BackendCall::CreateLink { output_node_id, input_node_id, answer: Ok(id) } => r.push(
                Link { id, output_node_id, input_node_id },
            ),
            _ => r,
        }
    }
}

/// `calls` are one link request from `sink` to the sink of each bus of
/// `bs`, in that order, where `bs` lists every live bus once.
pub open spec fn links_to_buses(calls: Seq<BackendCall>, sink: u64, buses: Map<u128, Bus>, bs: Seq<u128>) -> bool {
    &&& bs.no_duplicates()
    &&& bs.to_set() == live_buses(buses)
    &&& calls.len() == bs.len()
    &&& forall|i: int| 0 <= i < bs.len() ==> (#[trigger] calls[i] matches BackendCall::CreateLink {
        output_node_id,
        input_node_id,
        ..
    } && output_node_id == sink && input_node_id == buses[bs[i]].sink.external_id)
}

/// What wiring a channel whose sink has node id `sink` asks of the backend:
/// nothing when the sink has no live node, else one link to each live bus.
pub open spec fn bus_wiring(calls: Seq<BackendCall>, sink: u64, buses: Map<u128, Bus>) -> bool {
    if sink == 0 {
        calls.len() == 0
    } else {
        exists|bs: Seq<u128>| links_to_buses(calls, sink, buses, bs)
    }
}

/// `calls` extend `before`.
pub open spec fn extends(calls: Seq<BackendCall>, before: Seq<BackendCall>) -> bool {
    before.len() <= calls.len() && calls.take(before.len() as int) == before
}

/// What `calls` added after `before`.
pub open spec fn added(calls: Seq<BackendCall>, before: Seq<BackendCall>) -> Seq<BackendCall> {
    calls.skip(before.len() as int)
}

/// `calls` are what putting a link from `from` to `to` in place of
/// `old_link` asks of the backend: the removal of the old link, when there
/// is one, then the request for the new link.
pub open spec fn relink_calls(calls: Seq<BackendCall>, old_link: Option<Link>, from: u64, to: u64) -> bool {
    &&& calls.len() == (if old_link is Some { 2int } else { 1int })
    &&& (old_link matches Some(l) ==> (calls[0] matches BackendCall::DestroyLink { link_id, .. } && link_id == l.id))
    &&& (calls.last() matches BackendCall::CreateLink { output_node_id, input_node_id, .. } && output_node_id == from
        && input_node_id == to)
}

/// The backend's answer to the last of `calls`, when that is a link
/// request.
pub open spec fn link_answer(calls: Seq<BackendCall>) -> Result<u64, String> {
    match calls.last() {
        BackendCall::CreateLink { answer, .. } => answer,
        _ => arbitrary(),
    }
}

/// The links of a channel: its input link, when it has one, then its bus
/// links in order.
pub open spec fn channel_links(c: Channel) -> Seq<Link> {
    match c.input_link {
        Some(l) => seq![l] + c.bus_links@,
        None => c.bus_links@,
    }
}

/// `calls` ask the backend to destroy each of `links`, in order.
pub open spec fn destroys_links(calls: Seq<BackendCall>, links: Seq<Link>) -> bool {
    &&& calls.len() == links.len()
    &&& forall|i: int| 0 <= i < links.len() ==> (#[trigger] calls[i] matches BackendCall::DestroyLink { link_id, .. }
        && link_id == links[i].id)
}

/// A copy of a list of links.
pub fn copy_links(v: &Vec<Link>) -> (r: Vec<Link>)
    ensures
        r@ == v@,
{
    let mut out: Vec<Link> = Vec::new();
    let mut i: usize = 0;
    while i < v.len()
        invariant
            i <= v.len(),
            out@ == v@.take(i as int),
        decreases v.len() - i,
    {
        out.push(v[i]);
        i += 1;
        assert(out@ =~= v@.take(i as int));
    }
    assert(v@.take(v.len() as int) =~= v@);
    out
}

/// `order` is a saved order restored over the saved channels `saved`: the
/// ids of `saved_order` that name saved channels, each at its first
/// occurrence, then every other saved channel; each channel once.
pub open spec fn restored_order(order: Seq<u128>, saved_order: Seq<u128>, saved: Set<u128>) -> bool {
    let p = crate::seqs::first_occurrences(saved_order, saved, Set::empty());
    &&& p.len() <= order.len()
    &&& order.take(p.len() as int) == p
    &&& order.no_duplicates()
    &&& order.to_set() == saved
}

/// `sink` is what `answer` gave: the sink the backend made, or one with no
/// live node when it failed.
pub open spec fn answered_sink(answer: Result<Sink, String>, sink: Sink) -> bool {
    match answer {
        Ok(s) => sink == s,
        Err(_) => sink.external_id == 0,
    }
}

/// `calls` are what making the new channel `c` named `name` asked of the
/// backend: first a sink named `name`, `c`'s sink being what that request
/// gave; then the wiring of that sink to the buses, `c`'s bus links being
/// the links granted. `c` has no input link.
pub open spec fn made_channel(calls: Seq<BackendCall>, name: Seq<char>, c: Channel, buses: Map<u128, Bus>) -> bool {
    &&& calls.len() >= 1
    &&& (calls[0] matches BackendCall::CreateVirtualSink { name: asked, answer } && asked == name && answered_sink(
        answer,
        c.virtual_sink,
    ))
    &&& bus_wiring(calls.skip(1), c.virtual_sink.external_id, buses)
    &&& c.bus_links@ == granted_links(calls.skip(1))
    &&& c.input_link is None
}

/// At `i` the calls ask for a sink named like `o`, and up to `j` they turn
/// `o` into `n`: on a sink `s`, `n` is `o` with sink `s` and the links that
/// the wiring of `s` to the buses (the calls after `i`, up to `j`) granted;
/// on an error nothing follows and `n` is `o`.
pub open spec fn renewal_at(calls: Seq<BackendCall>, i: int, j: int, o: Channel, n: Channel, buses: Map<u128, Bus>) -> bool {
    &&& 0 <= i < j <= calls.len()
    &&& match calls[i] {
        BackendCall::CreateVirtualSink { name, answer } => name == o.name@ && match answer {
            Ok(s) => {
                let w = calls.subrange(i + 1, j);
                &&& bus_wiring(w, s.external_id, buses)
                &&& same_settings(o, n)
                &&& n.input_link == o.input_link
                &&& n.virtual_sink == s
                &&& n.bus_links@ == o.bus_links@ + granted_links(w)
            },
            Err(_) => j == i + 1 && same_channel(o, n),
        },
        _ => false,
    }
}

/// Some of `calls` gave `o` a new sink, and wired it, turning it into `n`.
pub open spec fn renewed_by(calls: Seq<BackendCall>, o: Channel, n: Channel, buses: Map<u128, Bus>) -> bool {
    exists|i: int, j: int| #[trigger] renewal_at(calls, i, j, o, n, buses)
}

/// Some of `calls` asked for a bus sink named `name` and gave `sink`.
pub open spec fn bus_sink_from(calls: Seq<BackendCall>, name: Seq<char>, sink: Sink) -> bool {
    exists|i: int| 0 <= i < calls.len() && match #[trigger] calls[i] {
        BackendCall::CreateBusSink { name: asked, answer } => asked == name && answered_sink(answer, sink),
        _ => false,
    }
}

/// A renewal found in `c` is found in any `d` that holds `c` at `off`.
proof fn lemma_renewal_within(c: Seq<BackendCall>, d: Seq<BackendCall>, off: int, o: Channel, n: Channel, buses: Map<u128, Bus>)
    requires
        renewed_by(c, o, n, buses),
        0 <= off,
        off + c.len() <= d.len(),
        d.subrange(off, off + c.len()) == c,
    ensures
        renewed_by(d, o, n, buses),
{
    let (i, j) = choose|i: int, j: int| #[trigger] renewal_at(c, i, j, o, n, buses);
    assert(d[i + off] == d.subrange(off, off + c.len())[i]);
    assert(d.subrange(i + off + 1, j + off) =~= c.subrange(i + 1, j));
    assert(renewal_at(d, i + off, j + off, o, n, buses));
}

/// A renewal of a copy is a renewal of the original.
proof fn lemma_renewal_of_copy(c: Seq<BackendCall>, a: Channel, b: Channel, n: Channel, buses: Map<u128, Bus>)
    requires
        renewed_by(c, b, n, buses),
        same_channel(a, b),
    ensures
        renewed_by(c, a, n, buses),
{
    let (i, j) = choose|i: int, j: int| #[trigger] renewal_at(c, i, j, b, n, buses);
    assert(renewal_at(c, i, j, a, n, buses));
}

/// A bus sink request found in `c` is found in any `d` that holds `c` at `off`.
proof fn lemma_bus_sink_within(c: Seq<BackendCall>, d: Seq<BackendCall>, off: int, name: Seq<char>, sink: Sink)
    requires
        bus_sink_from(c, name, sink),
        0 <= off,
        off + c.len() <= d.len(),
        d.subrange(off, off + c.len()) == c,
    ensures
        bus_sink_from(d, name, sink),
{
    let i = choose|i: int| 0 <= i < c.len() && match #[trigger] c[i] {
        BackendCall::CreateBusSink { name: asked, answer } => asked == name && answered_sink(answer, sink),
        _ => false,
    };
    assert(d[i + off] == d.subrange(off, off + c.len())[i]);
}

/// `n` is `o` with links from its sink to live bus sinks appended.
pub open spec fn links_added(o: Channel, n: Channel, buses: Map<u128, Bus>) -> bool {
    &&& n.id == o.id
    &&& n.name == o.name
    &&& n.sends == o.sends
    &&& n.connections == o.connections
    &&& n.virtual_sink == o.virtual_sink
    &&& n.input_link == o.input_link
    &&& o.bus_links@.len() <= n.bus_links@.len()
    &&& n.bus_links@.take(o.bus_links@.len() as int) == o.bus_links@
    &&& forall|i: int|
        o.bus_links@.len() <= i < n.bus_links@.len() ==> {
            &&& (#[trigger] n.bus_links@[i]).output_node_id == o.virtual_sink.external_id
            &&& is_live_bus_sink(buses, n.bus_links@[i].input_node_id)
        }
    &&& o.virtual_sink.external_id == 0 ==> n.bus_links@ == o.bus_links@
}

/// `n` is a copy of `o`: every field the same.
pub open spec fn same_channel(o: Channel, n: Channel) -> bool {
    &&& n.id == o.id
    &&& n.name == o.name
    &&& n.sends@ == o.sends@
    &&& n.connections@ == o.connections@
    &&& n.virtual_sink == o.virtual_sink
    &&& n.input_link == o.input_link
    &&& n.bus_links@ == o.bus_links@
}

/// `n` keeps the settings of `o`: id, name, sends and connections.
pub open spec fn same_settings(o: Channel, n: Channel) -> bool {
    &&& n.id == o.id
    &&& n.name == o.name
    &&& n.sends@ == o.sends@
    &&& n.connections@ == o.connections@
}

/// Channels that keep every microphone channel (by id and name) keep
/// some microphone channel.
proof fn lemma_mic_kept(o: Map<u128, Channel>, n: Map<u128, Channel>)
    requires
        forall|k: u128| #[trigger] o.contains_key(k) && is_mic(o[k]) ==> n.contains_key(k) && n[k].name == o[k].name,
    ensures
        has_mic(o) ==> has_mic(n),
{
    if has_mic(o) {
        let k = choose|k: u128| #[trigger] o.contains_key(k) && is_mic(o[k]);
        assert(n.contains_key(k));
    }
}

/// The message of a lookup that found nothing: `<what> <id> not found`.
pub open spec fn not_found_text(what: Seq<char>, id: u128) -> Seq<char> {
    what + " "@ + uuid_text(id) + " not found"@
}

fn not_found(what: &str, id: u128) -> (r: String)
    ensures
        r@ == not_found_text(what@, id),
{
    proof {
        reveal_strlit(" ");
    }
    let s = String::from_str(what);
    let s = s.concat(" ");
    let s = s.concat(id_to_string(id).as_str());
    s.concat(" not found")
}

/// The position of the first send of `sends` to `bus_id`, if any.
pub open spec fn first_send_to(sends: Seq<Send>, bus_id: u128) -> Option<int>
    decreases sends.len(),
{
    if sends.len() == 0 {
        None
    } else {
        match first_send_to(sends.drop_last(), bus_id) {
            Some(i) => Some(i),
            None => if sends.last().bus_id == bus_id {
                Some(sends.len() - 1)
            } else {
                None
            },
        }
    }
}

proof fn lemma_first_send_to(sends: Seq<Send>, bus_id: u128, i: int)
    requires
        0 <= i <= sends.len(),
        forall|j: int| 0 <= j < i ==> sends[j].bus_id != bus_id,
        i < sends.len() ==> sends[i].bus_id == bus_id,
    ensures
        i == sends.len() ==> first_send_to(sends, bus_id) is None,
        i < sends.len() ==> first_send_to(sends, bus_id) == Some(i),
    decreases sends.len(),
{
    if sends.len() > 0 {
        if i == sends.len() {
            lemma_first_send_to(sends.drop_last(), bus_id, i - 1);
            if i - 1 < sends.drop_last().len() {
            } else {
                lemma_first_send_to(sends.drop_last(), bus_id, sends.drop_last().len() as int);
            }
        } else if i < sends.len() - 1 {
            lemma_first_send_to(sends.drop_last(), bus_id, i);
        } else {
            lemma_first_send_to(sends.drop_last(), bus_id, i);
        }
    }
}

/// The node cache after one backend event.
pub open spec fn apply_event(nodes: Map<u32, NodeInfo>, e: BackendEvent) -> Map<u32, NodeInfo> {
    match e {
        BackendEvent::NodeAdded(info) => nodes.insert(info.id, info),
        BackendEvent::NodeRemoved(id) => nodes.remove(id),
    }
}

/// The node cache after a run of backend events, in order.
pub open spec fn apply_events(nodes: Map<u32, NodeInfo>, es: Seq<BackendEvent>) -> Map<u32, NodeInfo>
    decreases es.len(),
{
    if es.len() == 0 {
        nodes
    } else {
        apply_event(apply_events(nodes, es.drop_last()), es.last())
    }
}

/// std's `sort_by_key` on the node id: the same nodes, by ascending id.
#[verifier::external_body]
fn sort_nodes_by_id(v: &mut Vec<NodeInfo>)
    ensures
        final(v)@.len() == old(v)@.len(),
        final(v)@.to_multiset() == old(v)@.to_multiset(),
        forall|i: int, j: int| 0 <= i < j < final(v)@.len() ==> final(v)@[i].id <= final(v)@[j].id,
{
    v.sort_by_key(|n| n.id);
}

/// The state sent to the UI: the channels in order and the buses.
#[derive(Debug, Clone)]
pub struct AppStatePayload {
    pub channels: Vec<Channel>,
    pub buses: Vec<Bus>,
}

/// A copy of a list of ids.
pub fn copy_ids(v: &Vec<u128>) -> (r: Vec<u128>)
    ensures
        r@ == v@,
{
    let mut out: Vec<u128> = Vec::new();
    let mut i: usize = 0;
    while i < v.len()
        invariant
            i <= v.len(),
            out@ == v@.take(i as int),
        decreases v.len() - i,
    {
        out.push(v[i]);
        i += 1;
        assert(out@ =~= v@.take(i as int));
    }
    assert(v@.take(v.len() as int) =~= v@);
    out
}

/// The keys of a map, each once.
pub fn keys_u128<V>(m: &HashMap<u128, V>) -> (r: Vec<u128>)
    ensures
        r@.no_duplicates(),
        r@.to_set() == m@.dom(),
{
    let mut out: Vec<u128> = Vec::new();
    let ghost keys = vstd::std_specs::hash::spec_keys_iter(m).remaining();
    for k in it: m.keys()
        invariant
            it.seq() == keys,
            keys.no_duplicates(),
            keys.unref().to_set() == m@.dom(),
            out@ == keys.unref().take(it.index()),
    {
        assert(keys.unref().take(it.index() + 1) == keys.unref().take(it.index()).push(*k));
        out.push(*k);
    }
    assert(keys.unref().take(keys.len() as int) =~= keys.unref());
    assert(out@.no_duplicates()) by {
        assert forall|i: int, j: int| 0 <= i < out@.len() && 0 <= j < out@.len() && i != j implies out@[i] != out@[j] by {
            assert(out@[i] == *keys[i]);
            assert(out@[j] == *keys[j]);
        }
    }
    out
}

/// The mixing engine.
pub struct AudioEngine<B: AudioBackend> {
    pub backend: B,
    pub channels: HashMap<u128, Channel>,
    pub buses: HashMap<u128, Bus>,
    pub default_sends: Vec<Send>,
    pub channel_order: Vec<u128>,
    /// The nodes of the graph, by their global id.
    pub nodes: HashMap<u32, NodeInfo>,
}

impl<B: AudioBackend> AudioEngine<B> {
    /// Channels and buses are stored under their own ids, every channel is
    /// listed in `channel_order`, and nodes are stored under their ids.
    pub open spec fn wf(&self) -> bool {
        &&& forall|k: u128| #[trigger] self.channels@.contains_key(k) ==> self.channels@[k].id == k
        &&& forall|k: u128| #[trigger] self.buses@.contains_key(k) ==> self.buses@[k].id == k
        &&& forall|k: u128| #[trigger] self.channels@.contains_key(k) ==> self.channel_order@.contains(k)
        &&& forall|k: u32| #[trigger] self.nodes@.contains_key(k) ==> self.nodes@[k].id == k
    }

    /// Links the sink of `channel_id` to the sink of every bus that has a
    /// live node; the links that the backend makes are added to the channel.
    fn wire_channel_to_buses(&mut self, channel_id: u128)
        requires
            old(self).wf(),
        ensures
            final(self).wf(),
            final(self).channels@.dom() == old(self).channels@.dom(),
            forall|k: u128| k != channel_id && #[trigger] old(self).channels@.contains_key(k)
                ==> final(self).channels@[k] == old(self).channels@[k],
            old(self).channels@.contains_key(channel_id) ==> links_added(
                old(self).channels@[channel_id],
                final(self).channels@[channel_id],
                old(self).buses@,
            ),
            extends(final(self).backend.calls(), old(self).backend.calls()),
            !old(self).channels@.contains_key(channel_id) ==> final(self).backend.calls() == old(self).backend.calls(),
            old(self).channels@.contains_key(channel_id) ==> {
                let added = added(final(self).backend.calls(), old(self).backend.calls());
                &&& bus_wiring(added, old(self).channels@[channel_id].virtual_sink.external_id, old(self).buses@)
                &&& final(self).channels@[channel_id].bus_links@
                    == old(self).channels@[channel_id].bus_links@ + granted_links(added)
            },
            final(self).buses@ == old(self).buses@,
            final(self).default_sends@ == old(self).default_sends@,
            final(self).channel_order@ == old(self).channel_order@,
            final(self).nodes@ == old(self).nodes@,
    {
        proof {
            assert(old(self).backend.calls().take(old(self).backend.calls().len() as int) =~= old(self).backend.calls());
            assert(added(old(self).backend.calls(), old(self).backend.calls()) =~= Seq::<BackendCall>::empty());
        }
        let sink_node_id = match self.channels.get(&channel_id) {
            Some(ch) => {
                assert(ch.bus_links@.take(ch.bus_links@.len() as int) =~= ch.bus_links@);
                if ch.virtual_sink.external_id != 0 {
                    ch.virtual_sink.external_id
                } else {
                    return;
                }
            },
            None => {
                return;
            },
        };
        let bus_keys = keys_u128(&self.buses);
        let ghost old_ch = self.channels@[channel_id];
        let ghost calls0 = self.backend.calls();
        let ghost mut bs: Seq<u128> = Seq::empty();
        let ghost live = live_buses(old(self).buses@);
        proof {
            assert(old_ch.bus_links@ + granted_links(Seq::<BackendCall>::empty()) =~= old_ch.bus_links@);
        }
        let mut i: usize = 0;
        while i < bus_keys.len()
            invariant
                self.wf(),
                i <= bus_keys.len(),
                bus_keys@.to_set() == self.buses@.dom(),
                bus_keys@.no_duplicates(),
                calls0 == old(self).backend.calls(),
                live == live_buses(old(self).buses@),
                extends(self.backend.calls(), calls0),
                bs.no_duplicates(),
                forall|j: int| 0 <= j < bs.len() ==> live.contains(#[trigger] bs[j]),
                forall|b: u128| #[trigger] live.contains(b) ==> (bs.contains(b) <==> bus_keys@.take(i as int).contains(b)),
                added(self.backend.calls(), calls0).len() == bs.len(),
                forall|j: int| 0 <= j < bs.len() ==> (#[trigger] added(self.backend.calls(), calls0)[j] matches BackendCall::CreateLink {
                    output_node_id,
                    input_node_id,
                    ..
                } && output_node_id == sink_node_id && input_node_id == old(self).buses@[bs[j]].sink.external_id),
                self.channels@[channel_id].bus_links@ == old_ch.bus_links@ + granted_links(added(self.backend.calls(), calls0)),
                sink_node_id == old_ch.virtual_sink.external_id,
                sink_node_id != 0,
                old(self).channels@.contains_key(channel_id),
                old_ch == old(self).channels@[channel_id],
                self.channels@.dom() == old(self).channels@.dom(),
                forall|k: u128| k != channel_id && #[trigger] old(self).channels@.contains_key(k)
                    ==> self.channels@[k] == old(self).channels@[k],
                links_added(old_ch, self.channels@[channel_id], old(self).buses@),
                self.buses@ == old(self).buses@,
                self.default_sends@ == old(self).default_sends@,
                self.channel_order@ == old(self).channel_order@,
                self.nodes@ == old(self).nodes@,
            decreases bus_keys.len() - i,
        {
            let bus_id = bus_keys[i];
            assert(bus_keys@.to_set().contains(bus_id)) by {
                assert(bus_keys@[i as int] == bus_id);
            }
            let bus_pw_id = match self.buses.get(&bus_id) {
                Some(b) => b.sink.external_id,
                None => 0,
            };
            let ghost calls_before = self.backend.calls();
            let ghost bs_before = bs;
            proof {
                assert(live.contains(bus_id) ==> !bs.contains(bus_id)) by {
                    if live.contains(bus_id) && bs.contains(bus_id) {
                        assert(bus_keys@.take(i as int).contains(bus_id));
                        let j = choose|j: int| 0 <= j < i && #[trigger] bus_keys@.take(i as int)[j] == bus_id;
                        assert(bus_keys@.take(i as int)[j] == bus_keys@[j]);
                        assert(bus_keys@[j] == bus_keys@[i as int]);
                    }
                }
                assert forall|b: u128| bus_keys@.take(i as int + 1).contains(b) <==> (bus_keys@.take(i as int).contains(b) || b == bus_id) by {
                    if bus_keys@.take(i as int + 1).contains(b) {
                        let j = choose|j: int| 0 <= j < i + 1 && #[trigger] bus_keys@.take(i as int + 1)[j] == b;
                        if j < i {
                            assert(bus_keys@.take(i as int)[j] == b);
                        }
                    }
                    if bus_keys@.take(i as int).contains(b) {
                        let j = choose|j: int| 0 <= j < i && #[trigger] bus_keys@.take(i as int)[j] == b;
                        assert(bus_keys@.take(i as int + 1)[j] == b);
                    }
                    if b == bus_id {
                        assert(bus_keys@.take(i as int + 1)[i as int] == b);
                    }
                }
                assert(live.contains(bus_id) <==> bus_pw_id != 0);
            }
            if bus_pw_id != 0 {
                let answer = self.backend.create_link(sink_node_id, bus_pw_id);
                proof {
                    let a0 = added(calls_before, calls0);
                    let a1 = added(self.backend.calls(), calls0);
                    assert(self.backend.calls().take(calls0.len() as int) =~= calls0) by {
                        assert(calls_before.take(calls0.len() as int) == calls0);
                    }
                    assert(a1 =~= a0.push(BackendCall::CreateLink { output_node_id: sink_node_id, input_node_id: bus_pw_id, answer }));
                    assert(a1.drop_last() =~= a0);
                    let nbs = bs.push(bus_id);
                    assert forall|j: int| 0 <= j < nbs.len() implies (#[trigger] a1[j] matches BackendCall::CreateLink {
                        output_node_id,
                        input_node_id,
                        ..
                    } && output_node_id == sink_node_id && input_node_id == old(self).buses@[nbs[j]].sink.external_id) by {
                        if j < bs.len() {
                            assert(a1[j] == a0[j]);
                        }
                    }
                    assert(nbs.no_duplicates()) by {
                        assert forall|x: int, y: int| 0 <= x < nbs.len() && 0 <= y < nbs.len() && x != y implies nbs[x] != nbs[y] by {
                            if x < bs.len() && y < bs.len() {
                            } else if x < bs.len() {
                                assert(bs.contains(nbs[x]));
                            } else {
                                assert(bs.contains(nbs[y]));
                            }
                        }
                    }
                    assert forall|b: u128| nbs.contains(b) <==> bs.contains(b) || b == bus_id by {
                        if nbs.contains(b) {
                            let j = choose|j: int| 0 <= j < nbs.len() && nbs[j] == b;
                            if j < bs.len() {
                                assert(bs[j] == b);
                            }
                        }
                        if bs.contains(b) {
                            let j = choose|j: int| 0 <= j < bs.len() && bs[j] == b;
                            assert(nbs[j] == b);
                        }
                        if b == bus_id {
                            assert(nbs[bs.len() as int] == b);
                        }
                    }
                    bs = nbs;
                }
                match answer {
                    Ok(link_id) => {
                        let ghost before = self.channels@[channel_id];
                        match self.channels.remove(&channel_id) {
                            Some(mut ch) => {
                                ch.bus_links.push(Link::new(link_id, sink_node_id, bus_pw_id));
                                self.channels.insert(channel_id, ch);
                                assert(self.channels@[channel_id].bus_links@ == before.bus_links@.push(
                                    Link { id: link_id, output_node_id: sink_node_id, input_node_id: bus_pw_id },
                                ));
                                assert(self.buses@.contains_key(bus_id));
                                assert(is_live_bus_sink(old(self).buses@, bus_pw_id));
                                assert(self.channels@[channel_id].bus_links@.take(old_ch.bus_links@.len() as int)
                                    =~= old_ch.bus_links@) by {
                                    assert(before.bus_links@.take(old_ch.bus_links@.len() as int) == old_ch.bus_links@);
                                }
                                assert(self.channels@[channel_id].bus_links@ =~= old_ch.bus_links@
                                    + granted_links(added(self.backend.calls(), calls0)));
                            },
                            None => {},
                        }
                    },
                    Err(_) => {
                        assert(self.channels@[channel_id].bus_links@ =~= old_ch.bus_links@
                            + granted_links(added(self.backend.calls(), calls0)));
                    },
                }
            }
            proof {
                assert forall|b: u128| #[trigger] live.contains(b) implies (bs.contains(b) <==> bus_keys@.take(i as int + 1).contains(b)) by {
                    assert(bs_before.contains(b) <==> bus_keys@.take(i as int).contains(b));
                    assert(bus_keys@.take(i as int + 1).contains(b) <==> (bus_keys@.take(i as int).contains(b) || b == bus_id));
                    if bus_pw_id != 0 {
                        assert(bs.contains(b) <==> (bs_before.contains(b) || b == bus_id));
                    }
                }
                assert forall|j: int| 0 <= j < bs.len() implies live.contains(#[trigger] bs[j]) by {
                    if j < bs_before.len() {
                        assert(bs[j] == bs_before[j]);
                    }
                }
            }
            i += 1;
        }
        proof {
            assert(bus_keys@.take(bus_keys.len() as int) =~= bus_keys@);
            assert(bs.to_set() =~= live) by {
                assert forall|b: u128| #[trigger] live.contains(b) implies bs.contains(b) by {
                    assert(bus_keys@.to_set().contains(b));
                }
                assert forall|b: u128| bs.contains(b) implies #[trigger] live.contains(b) by {
                    let j = choose|j: int| 0 <= j < bs.len() && bs[j] == b;
                    assert(live.contains(bs[j]));
                }
            }
            let added = added(self.backend.calls(), calls0);
            assert(links_to_buses(added, sink_node_id, old(self).buses@, bs));
        }
    }

    /// Whether some channel is the microphone channel.
    fn find_mic(&self) -> (r: bool)
        ensures
            r == has_mic(self.channels@),
    {
        let keys = keys_u128(&self.channels);
        let mut i: usize = 0;
        while i < keys.len()
            invariant
                i <= keys.len(),
                keys@.to_set() == self.channels@.dom(),
                forall|j: int| 0 <= j < i ==> !is_mic(self.channels@[#[trigger] keys@[j]]),
            decreases keys.len() - i,
        {
            let k = keys[i];
            assert(keys@.to_set().contains(k)) by {
                assert(keys@[i as int] == k);
            }
            match self.channels.get(&k) {
                Some(ch) => {
                    let lower = to_lowercase(ch.name.as_str());
                    if str_eq(lower.as_str(), "mic") {
                        return true;
                    }
                },
                None => {},
            }
            i += 1;
        }
        proof {
            assert forall|k: u128| #[trigger] self.channels@.contains_key(k) implies !is_mic(self.channels@[k]) by {
                assert(keys@.to_set().contains(k));
                let j = choose|j: int| 0 <= j < keys@.len() && keys@[j] == k;
                assert(!is_mic(self.channels@[keys@[j]]));
            }
        }
        false
    }

    /// Makes sure a microphone channel exists: when none does, creates one
    /// named `mic` with the default sends and wires it to the buses.
    fn ensure_mic_channel(&mut self)
        requires
            old(self).wf(),
        ensures
            final(self).wf(),
            has_mic(final(self).channels@),
            has_mic(old(self).channels@) ==> {
                &&& final(self).channels@ == old(self).channels@
                &&& final(self).channel_order@ == old(self).channel_order@
                &&& final(self).backend.calls() == old(self).backend.calls()
            },
            extends(final(self).backend.calls(), old(self).backend.calls()),
            !has_mic(old(self).channels@) ==> exists|m: u128| {
                &&& #[trigger] final(self).channels@.contains_key(m)
                &&& made_channel(added(final(self).backend.calls(), old(self).backend.calls()), "mic"@, final(self).channels@[m], old(self).buses@)
                &&& final(self).channels@[m].name@ == "mic"@
                &&& final(self).channels@[m].sends@ == old(self).default_sends@
                &&& final(self).channels@.dom() == old(self).channels@.dom().insert(m)
                &&& forall|k: u128| k != m && #[trigger] old(self).channels@.contains_key(k)
                    ==> final(self).channels@[k] == old(self).channels@[k]
                &&& final(self).channel_order@ == old(self).channel_order@.push(m)
            },
            final(self).buses@ == old(self).buses@,
            final(self).default_sends@ == old(self).default_sends@,
            final(self).nodes@ == old(self).nodes@,
    {
        proof {
            assert(old(self).backend.calls().take(old(self).backend.calls().len() as int) =~= old(self).backend.calls());
        }
        if self.find_mic() {
            return;
        }
        let ghost calls0 = self.backend.calls();
        let answer = self.backend.create_virtual_sink("mic");
        let ghost calls1 = self.backend.calls();
        let sink = match answer {
            Ok(s) => s,
            Err(_) => Sink::new(0),
        };
        let mic = Channel::new(to_owned("mic"), copy_sends(&self.default_sends), sink);
        let mic_id = mic.id;
        // The name of the new channel lower-cases to itself.
        let lowered = to_lowercase(mic.name.as_str());
        proof {
            reveal_strlit("mic");
            assert(is_ascii_text(mic.name@));
            assert(ascii_lowercase_text(mic.name@) =~= mic.name@);
        }
        assert(is_mic(mic));
        self.channels.insert(mic_id, mic);
        self.channel_order.push(mic_id);
        assert(self.channel_order@.contains(mic_id)) by {
            assert(self.channel_order@[self.channel_order@.len() - 1] == mic_id);
        }
        assert forall|k: u128| #[trigger] self.channels@.contains_key(k) implies self.channel_order@.contains(k) by {
            if k != mic_id {
                assert(old(self).channel_order@.contains(k));
                let j = choose|j: int| 0 <= j < old(self).channel_order@.len() && old(self).channel_order@[j] == k;
                assert(self.channel_order@[j] == k);
            }
        }
        let ghost before_wire = self.channels@;
        let ghost order_before = self.channel_order@;
        assert(before_wire[mic_id].name@ == "mic"@);
        assert(before_wire[mic_id].sends@ == old(self).default_sends@);
        assert(before_wire.dom() == old(self).channels@.dom().insert(mic_id));
        self.wire_channel_to_buses(mic_id);
        proof {
            let a = added(self.backend.calls(), calls0);
            let w = added(self.backend.calls(), calls1);
            assert(self.backend.calls().take(calls1.len() as int) == calls1);
            assert(self.backend.calls().take(calls0.len() as int) =~= calls0) by {
                assert(calls1.take(calls0.len() as int) =~= calls0);
                assert(self.backend.calls().take(calls0.len() as int) =~= calls1.take(calls0.len() as int));
            }
            assert(a.skip(1) =~= w);
            assert(a[0] == calls1[calls0.len() as int]);
            assert(self.channels@[mic_id].bus_links@ =~= granted_links(w));
            assert(made_channel(a, "mic"@, self.channels@[mic_id], old(self).buses@));
        }
        assert(self.channels@[mic_id].name == before_wire[mic_id].name);
        assert(self.channels@[mic_id].sends == before_wire[mic_id].sends);
        assert(self.channels@.dom() =~= old(self).channels@.dom().insert(mic_id));
        assert(self.channel_order@ == old(self).channel_order@.push(mic_id));
        assert(self.channels@.contains_key(mic_id));
        assert forall|k: u128| k != mic_id && #[trigger] old(self).channels@.contains_key(k)
            implies self.channels@[k] == old(self).channels@[k] by {
            assert(before_wire.contains_key(k));
        }
    }

    /// Builds the engine: creates the monitor and stream bus sinks, one
    /// default send into each at level 0.8, and the microphone channel.
    /// A bus whose sink cannot be created gets a sink with node id 0.
    pub fn new(backend: B) -> (r: Self)
        ensures
            r.wf(),
            has_mic(r.channels@),
            r.nodes@ == Map::<u32, NodeInfo>::empty(),
            r.default_sends@.len() == 2,
            r.default_sends@[0].volume == DEFAULT_LEVEL_BITS && !r.default_sends@[0].muted,
            r.default_sends@[1].volume == DEFAULT_LEVEL_BITS && !r.default_sends@[1].muted,
            r.buses@.contains_key(r.default_sends@[0].bus_id),
            r.buses@.contains_key(r.default_sends@[1].bus_id),
            r.buses@.dom() == set![r.default_sends@[0].bus_id, r.default_sends@[1].bus_id],
            r.buses@[r.default_sends@[1].bus_id].name@ == "stream"@,
            r.default_sends@[0].bus_id != r.default_sends@[1].bus_id
                ==> r.buses@[r.default_sends@[0].bus_id].name@ == "monitor"@,
            r.buses@[r.default_sends@[0].bus_id].volume == DEFAULT_LEVEL_BITS,
            !r.buses@[r.default_sends@[0].bus_id].muted,
            r.buses@[r.default_sends@[1].bus_id].volume == DEFAULT_LEVEL_BITS,
            !r.buses@[r.default_sends@[1].bus_id].muted,
            r.channels@.len() == 1,
            r.channel_order@.len() == 1,
            r.channels@.contains_key(r.channel_order@[0]),
            r.channels@[r.channel_order@[0]].name@ == "mic"@,
            r.channels@[r.channel_order@[0]].sends@ == r.default_sends@,
            // The backend was asked for the monitor's, then the stream's bus
            // sink, then made the microphone channel; each sink is what the
            // backend answered (one with no live node on an error).
            ({
                let a = added(r.backend.calls(), backend.calls());
                let d0 = r.default_sends@[0].bus_id;
                let d1 = r.default_sends@[1].bus_id;
                &&& extends(r.backend.calls(), backend.calls())
                &&& a.len() >= 2
                &&& (a[0] matches BackendCall::CreateBusSink { name, answer } && name == "monitor"@
                    && (d0 != d1 ==> answered_sink(answer, r.buses@[d0].sink)))
                &&& (a[1] matches BackendCall::CreateBusSink { name, answer } && name == "stream"@
                    && answered_sink(answer, r.buses@[d1].sink))
                &&& made_channel(a.skip(2), "mic"@, r.channels@[r.channel_order@[0]], r.buses@)
            }),
    {
        let ghost calls0 = backend.calls();
        let mut backend = backend;
        let monitor_answer = backend.create_bus_sink(BUS_SUFFIX_MONITOR);
        let monitor_sink = match monitor_answer {
            Ok(s) => s,
            Err(_) => Sink::new(0),
        };
        let stream_answer = backend.create_bus_sink(BUS_SUFFIX_STREAM);
        let ghost calls2 = backend.calls();
        let stream_sink = match stream_answer {
            Ok(s) => s,
            Err(_) => Sink::new(0),
        };
        let monitor_bus = Bus::new(to_owned(BUS_SUFFIX_MONITOR), monitor_sink);
        let stream_bus = Bus::new(to_owned(BUS_SUFFIX_STREAM), stream_sink);
        let mut default_sends: Vec<Send> = Vec::new();
        default_sends.push(Send::new(monitor_bus.id, monitor_bus.volume, monitor_bus.muted));
        default_sends.push(Send::new(stream_bus.id, stream_bus.volume, stream_bus.muted));
        let mut buses: HashMap<u128, Bus> = HashMap::new();
        buses.insert(monitor_bus.id, monitor_bus);
        buses.insert(stream_bus.id, stream_bus);
        let mut engine = AudioEngine {
            backend,
            channels: HashMap::new(),
            buses,
            default_sends,
            channel_order: Vec::new(),
            nodes: HashMap::new(),
        };
        assert(engine.buses@.dom() =~= set![engine.default_sends@[0].bus_id, engine.default_sends@[1].bus_id]);
        engine.ensure_mic_channel();
        proof {
            assert(calls2.take(calls2.len() as int) =~= calls2);
            let m2 = choose|m: u128| {
                &&& #[trigger] engine.channels@.contains_key(m)
                &&& made_channel(added(engine.backend.calls(), calls2), "mic"@, engine.channels@[m], engine.buses@)
                &&& engine.channels@[m].name@ == "mic"@
                &&& engine.channels@[m].sends@ == engine.default_sends@
                &&& engine.channels@.dom() == Set::<u128>::empty().insert(m)
                &&& forall|k: u128| k != m && #[trigger] Map::<u128, Channel>::empty().contains_key(k)
                    ==> engine.channels@[k] == Map::<u128, Channel>::empty()[k]
                &&& engine.channel_order@ == Seq::<u128>::empty().push(m)
            };
            let a = added(engine.backend.calls(), calls0);
            assert(engine.backend.calls().take(calls2.len() as int) == calls2);
            assert(engine.backend.calls().take(calls0.len() as int) =~= calls0) by {
                assert(engine.backend.calls().take(calls0.len() as int) =~= calls2.take(calls0.len() as int));
            }
            assert(a.skip(2) =~= added(engine.backend.calls(), calls2));
            assert(a[0] == calls2[calls0.len() as int]);
            assert(a[1] == calls2[calls0.len() + 1int]);
            assert(engine.channel_order@[0] == m2);
        }
        proof {
            let m = choose|m: u128| {
                &&& #[trigger] engine.channels@.contains_key(m)
                &&& engine.channels@[m].name@ == "mic"@
                &&& engine.channels@[m].sends@ == engine.default_sends@
                &&& engine.channels@.dom() == Set::<u128>::empty().insert(m)
                &&& forall|k: u128| k != m && #[trigger] Map::<u128, Channel>::empty().contains_key(k)
                    ==> engine.channels@[k] == Map::<u128, Channel>::empty()[k]
                &&& engine.channel_order@ == Seq::<u128>::empty().push(m)
            };
            assert(engine.channels@.dom() =~= set![m]);
            vstd::set_lib::lemma_set_empty_equivalency_len(Set::<u128>::empty());
        }
        engine
    }

    /// Gives every channel a newly created sink and wires it to the buses;
    /// a channel whose sink cannot be created keeps its old sink.
    fn recreate_virtual_sinks(&mut self)
        requires
            old(self).wf(),
        ensures
            final(self).wf(),
            final(self).channels@.dom() == old(self).channels@.dom(),
            forall|k: u128| #[trigger] old(self).channels@.contains_key(k) ==> same_settings(
                old(self).channels@[k],
                final(self).channels@[k],
            ),
            extends(final(self).backend.calls(), old(self).backend.calls()),
            forall|k: u128| #[trigger] old(self).channels@.contains_key(k) ==> renewed_by(
                added(final(self).backend.calls(), old(self).backend.calls()),
                old(self).channels@[k],
                final(self).channels@[k],
                old(self).buses@,
            ),
            final(self).buses@ == old(self).buses@,
            final(self).default_sends@ == old(self).default_sends@,
            final(self).channel_order@ == old(self).channel_order@,
            final(self).nodes@ == old(self).nodes@,
    {
        let ids = keys_u128(&self.channels);
        let ghost calls0 = self.backend.calls();
        proof {
            assert(calls0.take(calls0.len() as int) =~= calls0);
        }
        let mut i: usize = 0;
        while i < ids.len()
            invariant
                self.wf(),
                i <= ids.len(),
                ids@.no_duplicates(),
                ids@.to_set() == old(self).channels@.dom(),
                calls0 == old(self).backend.calls(),
                extends(self.backend.calls(), calls0),
                self.channels@.dom() == old(self).channels@.dom(),
                forall|k: u128| #[trigger] old(self).channels@.contains_key(k) ==> same_settings(
                    old(self).channels@[k],
                    self.channels@[k],
                ),
                forall|k: u128| #[trigger] old(self).channels@.contains_key(k) ==> (ids@.take(i as int).contains(k)
                    ==> renewed_by(added(self.backend.calls(), calls0), old(self).channels@[k], self.channels@[k], old(self).buses@)),
                forall|k: u128| #[trigger] old(self).channels@.contains_key(k) && !ids@.take(i as int).contains(k)
                    ==> self.channels@[k] == old(self).channels@[k],
                self.buses@ == old(self).buses@,
                self.default_sends@ == old(self).default_sends@,
                self.channel_order@ == old(self).channel_order@,
                self.nodes@ == old(self).nodes@,
            decreases ids.len() - i,
        {
            let id = ids[i];
            proof {
                assert(ids@.to_set().contains(id)) by {
                    assert(ids@[i as int] == id);
                }
                assert(!ids@.take(i as int).contains(id)) by {
                    if ids@.take(i as int).contains(id) {
                        let j = choose|j: int| 0 <= j < i && ids@.take(i as int)[j] == id;
                        assert(ids@[j] == ids@[i as int]);
                    }
                }
                assert(ids@.take(i as int + 1)[i as int] == id);
                assert forall|k: u128| #[trigger] ids@.take(i as int + 1).contains(k) && k != id
                    implies ids@.take(i as int).contains(k) by {
                    let j = choose|j: int| 0 <= j < i + 1 && #[trigger] ids@.take(i as int + 1)[j] == k;
                    assert(ids@.take(i as int)[j] == k);
                }
                assert forall|k: u128| !(#[trigger] ids@.take(i as int + 1).contains(k))
                    implies !ids@.take(i as int).contains(k) && k != id by {
                    if ids@.take(i as int).contains(k) {
                        let j = choose|j: int| 0 <= j < i && #[trigger] ids@.take(i as int)[j] == k;
                        assert(ids@.take(i as int + 1)[j] == k);
                    }
                }
            }
            let name = match self.channels.get(&id) {
                Some(ch) => ch.name.clone(),
                None => {
                    i += 1;
                    continue;
                },
            };
            let ghost calls_b = self.backend.calls();
            let ghost before = self.channels@;
            let sink = self.backend.create_virtual_sink(name.as_str());
            let ghost calls_c = self.backend.calls();
            self.replace_channel_sink(id, sink);
            proof {
                let calls_f = self.backend.calls();
                let ab = added(calls_b, calls0);
                let af = added(calls_f, calls0);
                assert(calls_f.take(calls_c.len() as int) == calls_c);
                assert(calls_c.take(calls_b.len() as int) =~= calls_b);
                assert(calls_f.take(calls_b.len() as int) =~= calls_b) by {
                    assert(calls_f.take(calls_b.len() as int) =~= calls_c.take(calls_b.len() as int));
                }
                assert(calls_f.take(calls0.len() as int) =~= calls0) by {
                    assert(calls_b.take(calls0.len() as int) == calls0);
                    assert(calls_f.take(calls0.len() as int) =~= calls_b.take(calls0.len() as int));
                }
                assert(af.subrange(0, ab.len() as int) =~= ab);
                let i0 = ab.len() as int;
                assert(af[i0] == calls_c[calls_b.len() as int]);
                assert(af.subrange(i0 + 1, af.len() as int) =~= added(calls_f, calls_c));
                assert(before[id] == old(self).channels@[id]);
                assert(renewal_at(af, i0, af.len() as int, old(self).channels@[id], self.channels@[id], old(self).buses@));
                assert forall|k: u128| #[trigger] old(self).channels@.contains_key(k) implies (ids@.take(i as int + 1).contains(k)
                    ==> renewed_by(af, old(self).channels@[k], self.channels@[k], old(self).buses@)) by {
                    if ids@.take(i as int + 1).contains(k) && k != id {
                        assert(before.contains_key(k));
                        lemma_renewal_within(ab, af, 0, old(self).channels@[k], self.channels@[k], old(self).buses@);
                    }
                }
            }
            i += 1;
        }
        proof {
            assert(ids@.take(ids.len() as int) =~= ids@);
            assert forall|k: u128| #[trigger] old(self).channels@.contains_key(k) implies ids@.take(ids.len() as int).contains(k) by {
                assert(ids@.to_set().contains(k));
            }
        }
    }

    /// Puts the backend's answer to a request for a new sink into channel
    /// `id`: a sink replaces the channel's sink and is linked to the buses,
    /// its settings and other links kept; an error, or an unknown channel,
    /// changes nothing.
    fn replace_channel_sink(&mut self, id: u128, sink: Result<Sink, String>)
        requires
            old(self).wf(),
        ensures
            final(self).wf(),
            final(self).channels@.dom() == old(self).channels@.dom(),
            forall|k: u128| k != id && #[trigger] old(self).channels@.contains_key(k)
                ==> final(self).channels@[k] == old(self).channels@[k],
            sink matches Ok(s) ==> (old(self).channels@.contains_key(id) ==> links_added(
                (Channel { virtual_sink: s, ..old(self).channels@[id] }),
                final(self).channels@[id],
                old(self).buses@,
            )),
            (sink is Err || !old(self).channels@.contains_key(id)) ==> final(self).channels@ == old(self).channels@
                && final(self).backend.calls() == old(self).backend.calls(),
            extends(final(self).backend.calls(), old(self).backend.calls()),
            sink matches Ok(s) ==> (old(self).channels@.contains_key(id) ==> {
                let w = added(final(self).backend.calls(), old(self).backend.calls());
                &&& bus_wiring(w, s.external_id, old(self).buses@)
                &&& final(self).channels@[id].bus_links@ == old(self).channels@[id].bus_links@ + granted_links(w)
            }),
            final(self).buses@ == old(self).buses@,
            final(self).default_sends@ == old(self).default_sends@,
            final(self).channel_order@ == old(self).channel_order@,
            final(self).nodes@ == old(self).nodes@,
    {
        proof {
            assert(old(self).backend.calls().take(old(self).backend.calls().len() as int) =~= old(self).backend.calls());
        }
        match sink {
            Ok(sink) => {
                let ghost before = self.channels@;
                match self.channels.remove(&id) {
                    Some(mut ch) => {
                        ch.virtual_sink = sink;
                        self.channels.insert(id, ch);
                    },
                    None => {
                        return;
                    },
                }
                assert(self.channels@.dom() =~= before.dom());
                assert forall|k: u128| #[trigger] self.channels@.contains_key(k) implies self.channel_order@.contains(k) by {
                    assert(before.contains_key(k));
                }
                self.wire_channel_to_buses(id);
            },
            Err(_) => {},
        }
    }

    /// Restores the engine from a saved configuration: recreates each bus
    /// sink, makes one default send per bus, restores the channels in their
    /// saved order (then any channel the order misses), recreates their
    /// sinks and links, and makes sure a microphone channel exists.
    pub fn from_config(config: Config, backend: B) -> (r: Self)
        ensures
            r.wf(),
            has_mic(r.channels@),
            r.nodes@ == Map::<u32, NodeInfo>::empty(),
            // One bus per saved bus, with its saved settings.
            forall|k: u128| #[trigger] config.buses@.contains_key(k) ==> r.buses@.contains_key(config.buses@[k].id),
            forall|b: u128| #[trigger] r.buses@.contains_key(b) ==> exists|k: u128| {
                &&& #[trigger] config.buses@.contains_key(k)
                &&& config.buses@[k].id == b
                &&& r.buses@[b].name == config.buses@[k].name
                &&& r.buses@[b].volume == config.buses@[k].volume
                &&& r.buses@[b].muted == config.buses@[k].muted
            },
            // One default send per bus, carrying the bus's level.
            r.default_sends@.len() == r.buses@.len(),
            forall|i: int, j: int| 0 <= i < j < r.default_sends@.len()
                ==> #[trigger] r.default_sends@[i].bus_id != #[trigger] r.default_sends@[j].bus_id,
            forall|b: u128| #[trigger] r.buses@.contains_key(b) ==> exists|i: int| 0 <= i < r.default_sends@.len()
                && r.default_sends@[i].bus_id == b,
            forall|i: int| 0 <= i < r.default_sends@.len() ==> {
                let s = #[trigger] r.default_sends@[i];
                &&& r.buses@.contains_key(s.bus_id)
                &&& s.volume == r.buses@[s.bus_id].volume
                &&& s.muted == r.buses@[s.bus_id].muted
            },
            // Every saved channel is back, with its saved settings (when the
            // saved channels are keyed by their own ids, as saved files are).
            (forall|k: u128| #[trigger] config.channels@.contains_key(k) ==> config.channels@[k].id == k) ==>
                forall|k: u128| #[trigger] config.channels@.contains_key(k) ==> r.channels@.contains_key(config.channels@[k].id),
            forall|c: u128| #[trigger] r.channels@.contains_key(c) && !is_mic(r.channels@[c]) ==> exists|k: u128| {
                &&& #[trigger] config.channels@.contains_key(k)
                &&& same_settings(config.channels@[k], r.channels@[c])
            },
            // Each bus's sink is what the backend answered to a request for a
            // bus sink with the bus's name.
            extends(r.backend.calls(), backend.calls()),
            forall|b: u128| #[trigger] r.buses@.contains_key(b) ==> bus_sink_from(
                added(r.backend.calls(), backend.calls()),
                r.buses@[b].name@,
                r.buses@[b].sink,
            ),
            // The saved order is kept, each channel once; a microphone channel
            // is added, last, only when none was saved.
            (forall|k: u128| #[trigger] config.channels@.contains_key(k) ==> config.channels@[k].id == k) ==> {
                &&& has_mic(config.channels@) ==> {
                    &&& r.channels@.dom() == config.channels@.dom()
                    &&& restored_order(r.channel_order@, config.channel_order@, config.channels@.dom())
                    &&& forall|k: u128| #[trigger] config.channels@.contains_key(k)
                        ==> same_settings(config.channels@[k], r.channels@[k])
                    // Each saved channel got a sink of its own, wired to the live buses.
                    &&& forall|k: u128| #[trigger] config.channels@.contains_key(k) ==> renewed_by(
                        added(r.backend.calls(), backend.calls()),
                        config.channels@[k],
                        r.channels@[k],
                        r.buses@,
                    )
                }
                &&& !has_mic(config.channels@) ==> {
                    let m = r.channel_order@.last();
                    &&& forall|k: u128| #[trigger] config.channels@.contains_key(k) && k != m
                        ==> same_settings(config.channels@[k], r.channels@[k])
                    &&& forall|k: u128| #[trigger] config.channels@.contains_key(k) && k != m ==> renewed_by(
                        added(r.backend.calls(), backend.calls()),
                        config.channels@[k],
                        r.channels@[k],
                        r.buses@,
                    )
                    // The new microphone channel was made by the last calls.
                    &&& exists|n: int| 0 <= n <= added(r.backend.calls(), backend.calls()).len() && #[trigger] made_channel(
                        added(r.backend.calls(), backend.calls()).skip(n),
                        "mic"@,
                        r.channels@[m],
                        r.buses@,
                    )
                    &&& r.channel_order@.len() > 0
                    &&& restored_order(r.channel_order@.drop_last(), config.channel_order@, config.channels@.dom())
                    &&& r.channels@.dom() == config.channels@.dom().insert(m)
                    &&& r.channels@[m].name@ == "mic"@
                    &&& r.channels@[m].sends@ == r.default_sends@
                }
            },
    {
        let ghost calls0 = backend.calls();
        proof {
            assert(calls0.take(calls0.len() as int) =~= calls0);
        }
        let mut backend = backend;
        let mut saved_buses = config.buses;
        let bus_keys = keys_u128(&saved_buses);
        let mut buses: HashMap<u128, Bus> = HashMap::new();
        let ghost saved = saved_buses@;
        let mut i: usize = 0;
        while i < bus_keys.len()
            invariant
                i <= bus_keys.len(),
                saved == config.buses@,
                bus_keys@.no_duplicates(),
                bus_keys@.to_set() == saved.dom(),
                forall|j: int| i <= j < bus_keys.len() ==> saved_buses@.contains_key(#[trigger] bus_keys@[j])
                    && saved_buses@[bus_keys@[j]] == saved[bus_keys@[j]],
                forall|j: int| 0 <= j < i ==> buses@.contains_key(saved[#[trigger] bus_keys@[j]].id),
                forall|b: u128| #[trigger] buses@.contains_key(b) ==> buses@[b].id == b && exists|k: u128| {
                    &&& #[trigger] saved.contains_key(k)
                    &&& saved[k].id == b
                    &&& buses@[b].name == saved[k].name
                    &&& buses@[b].volume == saved[k].volume
                    &&& buses@[b].muted == saved[k].muted
                },
                extends(backend.calls(), calls0),
                forall|b: u128| #[trigger] buses@.contains_key(b) ==> bus_sink_from(
                    added(backend.calls(), calls0),
                    buses@[b].name@,
                    buses@[b].sink,
                ),
            decreases bus_keys.len() - i,
        {
            let k = bus_keys[i];
            assert(saved_buses@.contains_key(k));
            assert(saved.contains_key(k)) by {
                assert(bus_keys@.to_set().contains(k));
            }
            match saved_buses.remove(&k) {
                Some(mut bus) => {
                    assert(bus == saved[k]);
                    let ghost calls_b = backend.calls();
                    let answer = backend.create_bus_sink(bus.name.as_str());
                    let sink = match answer {
                        Ok(s) => s,
                        Err(_) => Sink::new(0),
                    };
                    bus.sink = sink;
                    let ghost before = buses@;
                    let bid = bus.id;
                    buses.insert(bid, bus);
                    proof {
                        let ab = added(calls_b, calls0);
                        let af = added(backend.calls(), calls0);
                        assert(backend.calls().take(calls0.len() as int) =~= calls0) by {
                            assert(calls_b.take(calls0.len() as int) == calls0);
                        }
                        assert(af =~= ab.push(backend.calls().last()));
                        assert(af.subrange(0, ab.len() as int) =~= ab);
                        assert forall|b: u128| #[trigger] buses@.contains_key(b) implies bus_sink_from(af, buses@[b].name@, buses@[b].sink) by {
                            if b != bid {
                                assert(before.contains_key(b));
                                lemma_bus_sink_within(ab, af, 0, buses@[b].name@, buses@[b].sink);
                            } else {
                                assert(af[ab.len() as int] == backend.calls().last());
                            }
                        }
                    }
                    assert forall|j: int| i < j < bus_keys.len() implies saved_buses@.contains_key(#[trigger] bus_keys@[j])
                        && saved_buses@[bus_keys@[j]] == saved[bus_keys@[j]] by {
                        assert(bus_keys@[j] != k);
                    }
                    assert forall|b: u128| #[trigger] buses@.contains_key(b) implies buses@[b].id == b && exists|kk: u128| {
                        &&& #[trigger] saved.contains_key(kk)
                        &&& saved[kk].id == b
                        &&& buses@[b].name == saved[kk].name
                        &&& buses@[b].volume == saved[kk].volume
                        &&& buses@[b].muted == saved[kk].muted
                    } by {
                        if b != bid {
                            assert(before.contains_key(b));
                        } else {
                            assert(saved.contains_key(k));
                        }
                    }
                },
                None => {},
            }
            i += 1;
        }
        proof {
            assert forall|kk: u128| #[trigger] config.buses@.contains_key(kk) implies buses@.contains_key(config.buses@[kk].id) by {
                assert(bus_keys@.to_set().contains(kk));
                let j = choose|j: int| 0 <= j < bus_keys@.len() && bus_keys@[j] == kk;
                assert(buses@.contains_key(saved[bus_keys@[j]].id));
            }
        }

        // One default send per bus.
        let live_keys = keys_u128(&buses);
        let mut default_sends: Vec<Send> = Vec::new();
        let mut j: usize = 0;
        while j < live_keys.len()
            invariant
                j <= live_keys.len(),
                live_keys@.to_set() == buses@.dom(),
                forall|b: u128| #[trigger] buses@.contains_key(b) ==> buses@[b].id == b,
                default_sends@.len() == j,
                live_keys@.no_duplicates(),
                forall|x: int| 0 <= x < j ==> (#[trigger] default_sends@[x]).bus_id == live_keys@[x],
                forall|x: int| 0 <= x < j ==> {
                    let s = #[trigger] default_sends@[x];
                    &&& buses@.contains_key(s.bus_id)
                    &&& s.volume == buses@[s.bus_id].volume
                    &&& s.muted == buses@[s.bus_id].muted
                },
            decreases live_keys.len() - j,
        {
            let k = live_keys[j];
            assert(live_keys@.to_set().contains(k)) by {
                assert(live_keys@[j as int] == k);
            }
            assert(buses@.contains_key(k));
            match buses.get(&k) {
                Some(b) => {
                    default_sends.push(Send::new(b.id, b.volume, b.muted));
                },
                None => {},
            }
            j += 1;
        }
        proof {
            live_keys@.unique_seq_to_set();
            assert forall|b: u128| #[trigger] buses@.contains_key(b) implies exists|x: int| 0 <= x < default_sends@.len()
                && default_sends@[x].bus_id == b by {
                assert(live_keys@.to_set().contains(b));
                let x = choose|x: int| 0 <= x < live_keys@.len() && live_keys@[x] == b;
                assert(default_sends@[x].bus_id == b);
            }
        }

        // Channels in their saved order, each once.
        let saved_channels = config.channels;
        let mut channels: HashMap<u128, Channel> = HashMap::new();
        let mut channel_order: Vec<u128> = Vec::new();
        let mut seen: std::collections::HashSet<u128> = std::collections::HashSet::new();
        let ghost keyed = forall|k: u128| #[trigger] saved_channels@.contains_key(k) ==> saved_channels@[k].id == k;
        let mut x: usize = 0;
        while x < config.channel_order.len()
            invariant
                x <= config.channel_order.len(),
                keyed == forall|k: u128| #[trigger] saved_channels@.contains_key(k) ==> saved_channels@[k].id == k,
                keyed ==> forall|w: int| 0 <= w < channel_order@.len() ==> channels@.contains_key(#[trigger] channel_order@[w]),
                forall|c: u128| #[trigger] channels@.contains_key(c) ==> channels@[c].id == c && exists|k: u128| {
                    &&& #[trigger] saved_channels@.contains_key(k)
                    &&& same_channel(saved_channels@[k], channels@[c])
                },
                forall|c: u128| #[trigger] channels@.contains_key(c) ==> channel_order@.contains(c) || exists|k: u128| {
                    &&& #[trigger] saved_channels@.contains_key(k)
                    &&& saved_channels@[k].id == c
                    &&& channel_order@.contains(k)
                },
                saved_channels@ == config.channels@,
                channel_order@ == crate::seqs::first_occurrences(config.channel_order@.take(x as int), saved_channels@.dom(), Set::empty()),
                forall|b: u128| #[trigger] saved_channels@.contains_key(b) ==> (seen@.contains(b) <==> channel_order@.contains(b)),
            decreases config.channel_order.len() - x,
        {
            let id = config.channel_order[x];
            let ghost seen_before = seen@;
            let ghost order_prev = channel_order@;
            proof {
                assert(config.channel_order@.take(x as int + 1).drop_last() =~= config.channel_order@.take(x as int));
                assert(config.channel_order@.take(x as int + 1).last() == id);
            }
            if seen.insert(id) {
                match saved_channels.get(&id) {
                    Some(ch) => {
                        let ghost before = channels@;
                        let ghost order_before = channel_order@;
                        let copy = ch.duplicate();
                        channels.insert(ch.id, copy);
                        channel_order.push(id);
                        assert(channel_order@[channel_order@.len() - 1] == id);
                        proof {
                            if keyed {
                                assert forall|w: int| 0 <= w < channel_order@.len() implies channels@.contains_key(#[trigger] channel_order@[w]) by {
                                    if w < order_before.len() {
                                        assert(before.contains_key(order_before[w]));
                                    }
                                }
                            }
                        }
                        assert forall|c: u128| #[trigger] channels@.contains_key(c) implies channels@[c].id == c && exists|k: u128| {
                            &&& #[trigger] saved_channels@.contains_key(k)
                            &&& same_channel(saved_channels@[k], channels@[c])
                        } by {
                            if c != ch.id {
                                assert(before.contains_key(c));
                            } else {
                                assert(saved_channels@.contains_key(id));
                                assert(same_channel(saved_channels@[id], channels@[c]));
                            }
                        }
                        assert forall|c: u128| #[trigger] channels@.contains_key(c) implies channel_order@.contains(c) || exists|k: u128| {
                            &&& #[trigger] saved_channels@.contains_key(k)
                            &&& saved_channels@[k].id == c
                            &&& channel_order@.contains(k)
                        } by {
                            if c != ch.id {
                                assert(before.contains_key(c));
                                if order_before.contains(c) {
                                    let w = choose|w: int| 0 <= w < order_before.len() && order_before[w] == c;
                                    assert(channel_order@[w] == c);
                                } else {
                                    let k = choose|k: u128| {
                                        &&& #[trigger] saved_channels@.contains_key(k)
                                        &&& saved_channels@[k].id == c
                                        &&& order_before.contains(k)
                                    };
                                    let w = choose|w: int| 0 <= w < order_before.len() && order_before[w] == k;
                                    assert(channel_order@[w] == k);
                                }
                            } else {
                                assert(saved_channels@.contains_key(id));
                            }
                        }
                    },
                    None => {},
                }
            }
            proof {
                assert forall|b: u128| #[trigger] saved_channels@.contains_key(b) implies (seen@.contains(b) <==> channel_order@.contains(b)) by {
                    assert(seen_before.contains(b) <==> order_prev.contains(b));
                    if channel_order@ != order_prev {
                        assert(channel_order@ == order_prev.push(id));
                        assert(channel_order@.contains(b) <==> (order_prev.contains(b) || b == id)) by {
                            if channel_order@.contains(b) {
                                let w = choose|w: int| 0 <= w < channel_order@.len() && channel_order@[w] == b;
                                if w < order_prev.len() {
                                    assert(order_prev[w] == b);
                                }
                            }
                            if order_prev.contains(b) {
                                let w = choose|w: int| 0 <= w < order_prev.len() && order_prev[w] == b;
                                assert(channel_order@[w] == b);
                            }
                            if b == id {
                                assert(channel_order@[order_prev.len() as int] == b);
                            }
                        }
                    }
                }
            }
            x += 1;
        }
        proof {
            assert(config.channel_order@.take(config.channel_order@.len() as int) =~= config.channel_order@);
            crate::seqs::lemma_first_occurrences(config.channel_order@, config.channels@.dom(), Set::empty());
        }

        // Then every saved channel that the order missed.
        let saved_keys = keys_u128(&saved_channels);
        let ghost p = crate::seqs::first_occurrences(config.channel_order@, config.channels@.dom(), Set::empty());
        proof {
            assert(channel_order@.take(p.len() as int) =~= p);
        }
        let mut y: usize = 0;
        while y < saved_keys.len()
            invariant
                saved_channels@ == config.channels@,
                p == crate::seqs::first_occurrences(config.channel_order@, config.channels@.dom(), Set::empty()),
                p.len() <= channel_order@.len(),
                channel_order@.take(p.len() as int) == p,
                channel_order@.no_duplicates(),
                keyed ==> forall|w: int| 0 <= w < channel_order@.len() ==> saved_channels@.contains_key(#[trigger] channel_order@[w]),
                y <= saved_keys.len(),
                keyed == forall|k: u128| #[trigger] saved_channels@.contains_key(k) ==> saved_channels@[k].id == k,
                keyed ==> forall|w: int| 0 <= w < channel_order@.len() ==> channels@.contains_key(#[trigger] channel_order@[w]),
                saved_keys@.to_set() == saved_channels@.dom(),
                forall|c: u128| #[trigger] channels@.contains_key(c) ==> channels@[c].id == c && exists|k: u128| {
                    &&& #[trigger] saved_channels@.contains_key(k)
                    &&& same_channel(saved_channels@[k], channels@[c])
                },
                forall|c: u128| #[trigger] channels@.contains_key(c) ==> channel_order@.contains(c) || exists|k: u128| {
                    &&& #[trigger] saved_channels@.contains_key(k)
                    &&& saved_channels@[k].id == c
                    &&& channel_order@.contains(k)
                },
                forall|z: int| 0 <= z < y ==> channel_order@.contains(saved_channels@[#[trigger] saved_keys@[z]].id),
                keyed ==> forall|z: int| 0 <= z < y ==> channels@.contains_key(saved_channels@[#[trigger] saved_keys@[z]].id),
            decreases saved_keys.len() - y,
        {
            let k = saved_keys[y];
            assert(saved_keys@.to_set().contains(k)) by {
                assert(saved_keys@[y as int] == k);
            }
            match saved_channels.get(&k) {
                Some(ch) => {
                    let cid = ch.id;
                    let ghost order_before = channel_order@;
                    let ghost before = channels@;
                    if !crate::seqs::contains_u128(&channel_order, cid) {
                        channel_order.push(cid);
                        proof {
                            assert(channel_order@.take(p.len() as int) =~= order_before.take(p.len() as int));
                            assert(channel_order@.no_duplicates()) by {
                                assert forall|a: int, b: int| 0 <= a < b < channel_order@.len() implies channel_order@[a] != channel_order@[b] by {
                                    if b == order_before.len() {
                                        assert(order_before.contains(channel_order@[a]));
                                    } else {
                                        assert(order_before[a] != order_before[b]);
                                    }
                                }
                            }
                            if keyed {
                                assert forall|w: int| 0 <= w < channel_order@.len() implies saved_channels@.contains_key(#[trigger] channel_order@[w]) by {
                                    if w < order_before.len() {
                                        assert(saved_channels@.contains_key(order_before[w]));
                                    } else {
                                        assert(saved_channels@[k].id == k);
                                    }
                                }
                            }
                        }
                        let copy = ch.duplicate();
                        channels.insert(cid, copy);
                        assert(channel_order@[channel_order@.len() - 1] == cid);
                        assert forall|c: u128| #[trigger] channels@.contains_key(c) implies channels@[c].id == c && exists|kk: u128| {
                            &&& #[trigger] saved_channels@.contains_key(kk)
                            &&& same_channel(saved_channels@[kk], channels@[c])
                        } by {
                            if c != cid {
                                assert(before.contains_key(c));
                            } else {
                                assert(same_channel(saved_channels@[k], channels@[c]));
                            }
                        }
                    }
                    assert forall|z: int| 0 <= z < y + 1 implies channel_order@.contains(saved_channels@[#[trigger] saved_keys@[z]].id) by {
                        if z < y {
                            let c = saved_channels@[saved_keys@[z]].id;
                            let w = choose|w: int| 0 <= w < order_before.len() && order_before[w] == c;
                            assert(channel_order@[w] == c);
                        } else if order_before.contains(cid) {
                            let w = choose|w: int| 0 <= w < order_before.len() && order_before[w] == cid;
                            assert(channel_order@[w] == cid);
                        }
                    }
                    proof {
                        if keyed {
                            assert forall|w: int| 0 <= w < channel_order@.len() implies channels@.contains_key(#[trigger] channel_order@[w]) by {
                                if w < order_before.len() {
                                    assert(before.contains_key(order_before[w]));
                                }
                            }
                            assert forall|z: int| 0 <= z < y + 1 implies channels@.contains_key(saved_channels@[#[trigger] saved_keys@[z]].id) by {
                                if z < y {
                                    assert(before.contains_key(saved_channels@[saved_keys@[z]].id));
                                } else if order_before.contains(cid) {
                                    let w = choose|w: int| 0 <= w < order_before.len() && order_before[w] == cid;
                                    assert(before.contains_key(order_before[w]));
                                }
                            }
                        }
                    }
                    assert forall|c: u128| #[trigger] channels@.contains_key(c) implies channel_order@.contains(c) || exists|kk: u128| {
                        &&& #[trigger] saved_channels@.contains_key(kk)
                        &&& saved_channels@[kk].id == c
                        &&& channel_order@.contains(kk)
                    } by {
                        if before.contains_key(c) {
                            if order_before.contains(c) {
                                let w = choose|w: int| 0 <= w < order_before.len() && order_before[w] == c;
                                assert(channel_order@[w] == c);
                            } else {
                                let kk = choose|kk: u128| {
                                    &&& #[trigger] saved_channels@.contains_key(kk)
                                    &&& saved_channels@[kk].id == c
                                    &&& order_before.contains(kk)
                                };
                                let w = choose|w: int| 0 <= w < order_before.len() && order_before[w] == kk;
                                assert(channel_order@[w] == kk);
                            }
                        }
                    }
                },
                None => {},
            }
            y += 1;
        }
        proof {
            assert forall|c: u128| #[trigger] channels@.contains_key(c) implies channel_order@.contains(c) by {
                if !channel_order@.contains(c) {
                    let k = choose|k: u128| {
                        &&& #[trigger] saved_channels@.contains_key(k)
                        &&& saved_channels@[k].id == c
                        &&& channel_order@.contains(k)
                    };
                    assert(saved_keys@.to_set().contains(k));
                    let z = choose|z: int| 0 <= z < saved_keys@.len() && saved_keys@[z] == k;
                    assert(channel_order@.contains(saved_channels@[saved_keys@[z]].id));
                }
            }
            if keyed {
                assert forall|kk: u128| #[trigger] config.channels@.contains_key(kk) implies channels@.contains_key(config.channels@[kk].id) by {
                    assert(saved_keys@.to_set().contains(kk));
                    let z = choose|z: int| 0 <= z < saved_keys@.len() && saved_keys@[z] == kk;
                    assert(channels@.contains_key(saved_channels@[saved_keys@[z]].id));
                }
            }
        }

        let ghost chs0 = channels@;
        let ghost ord0 = channel_order@;
        proof {
            if keyed {
                assert forall|c: u128| #[trigger] chs0.contains_key(c) implies config.channels@.contains_key(c)
                    && same_channel(config.channels@[c], chs0[c]) by {
                    let k = choose|k: u128| {
                        &&& #[trigger] saved_channels@.contains_key(k)
                        &&& same_channel(saved_channels@[k], channels@[c])
                    };
                    assert(saved_channels@[k].id == k);
                }
                assert(chs0.dom() =~= config.channels@.dom());
                assert(ord0.to_set() =~= config.channels@.dom()) by {
                    assert forall|c: u128| #[trigger] config.channels@.contains_key(c) implies ord0.contains(c) by {
                        assert(chs0.contains_key(c));
                    }
                    assert forall|c: u128| ord0.contains(c) implies #[trigger] config.channels@.contains_key(c) by {
                        let w = choose|w: int| 0 <= w < ord0.len() && ord0[w] == c;
                        assert(saved_channels@.contains_key(ord0[w]));
                    }
                }
            }
        }
        let mut engine = AudioEngine { backend, channels, buses, default_sends, channel_order, nodes: HashMap::new() };
        let ghost calls_b = engine.backend.calls();
        engine.recreate_virtual_sinks();
        let ghost calls_r = engine.backend.calls();
        let ghost before_mic = engine.channels@;
        proof {
            if keyed {
                assert(has_mic(before_mic) <==> has_mic(config.channels@)) by {
                    if has_mic(before_mic) {
                        let c = choose|c: u128| #[trigger] before_mic.contains_key(c) && is_mic(before_mic[c]);
                        assert(chs0.contains_key(c));
                        assert(config.channels@.contains_key(c) && is_mic(config.channels@[c]));
                    }
                    if has_mic(config.channels@) {
                        let c = choose|c: u128| #[trigger] config.channels@.contains_key(c) && is_mic(config.channels@[c]);
                        assert(chs0.contains_key(c));
                        assert(before_mic.contains_key(c) && is_mic(before_mic[c]));
                    }
                }
            }
        }
        engine.ensure_mic_channel();
        proof {
            // The calls of the three steps, each within those of the whole.
            let a_all = added(engine.backend.calls(), calls0);
            let a_b = added(calls_b, calls0);
            let a_r = added(calls_r, calls_b);
            let a_br = added(calls_r, calls0);
            assert(calls_r.take(calls_b.len() as int) == calls_b);
            assert(engine.backend.calls().take(calls_r.len() as int) == calls_r);
            assert(calls_r.take(calls0.len() as int) =~= calls0) by {
                assert(calls_r.take(calls0.len() as int) =~= calls_b.take(calls0.len() as int));
            }
            assert(engine.backend.calls().take(calls0.len() as int) =~= calls0) by {
                assert(engine.backend.calls().take(calls0.len() as int) =~= calls_r.take(calls0.len() as int));
            }
            assert(a_br.subrange(0, a_b.len() as int) =~= a_b);
            assert(a_br.subrange(a_b.len() as int, (a_b.len() + a_r.len()) as int) =~= a_r);
            assert(a_all.subrange(0, a_br.len() as int) =~= a_br);
            assert forall|b: u128| #[trigger] engine.buses@.contains_key(b) implies bus_sink_from(
                a_all,
                engine.buses@[b].name@,
                engine.buses@[b].sink,
            ) by {
                lemma_bus_sink_within(a_b, a_br, 0, engine.buses@[b].name@, engine.buses@[b].sink);
                lemma_bus_sink_within(a_br, a_all, 0, engine.buses@[b].name@, engine.buses@[b].sink);
            }
            if keyed {
                assert forall|k: u128| #[trigger] config.channels@.contains_key(k) implies before_mic.contains_key(k)
                    && same_settings(config.channels@[k], before_mic[k])
                    && renewed_by(a_all, config.channels@[k], before_mic[k], engine.buses@) by {
                    assert(chs0.contains_key(k));
                    lemma_renewal_within(a_r, a_br, a_b.len() as int, chs0[k], before_mic[k], engine.buses@);
                    lemma_renewal_within(a_br, a_all, 0, chs0[k], before_mic[k], engine.buses@);
                    lemma_renewal_of_copy(a_all, config.channels@[k], chs0[k], before_mic[k], engine.buses@);
                }
                if !has_mic(config.channels@) {
                    let m = choose|m: u128| {
                        &&& #[trigger] engine.channels@.contains_key(m)
                        &&& engine.channels@[m].name@ == "mic"@
                        &&& engine.channels@[m].sends@ == engine.default_sends@
                        &&& engine.channels@.dom() == before_mic.dom().insert(m)
                        &&& forall|k: u128| k != m && #[trigger] before_mic.contains_key(k)
                            ==> engine.channels@[k] == before_mic[k]
                        &&& engine.channel_order@ == ord0.push(m)
                    };
                    assert(engine.channel_order@.drop_last() =~= ord0);
                    assert(engine.channel_order@.last() == m);
                    let m2 = choose|m: u128| {
                        &&& #[trigger] engine.channels@.contains_key(m)
                        &&& made_channel(added(engine.backend.calls(), calls_r), "mic"@, engine.channels@[m], engine.buses@)
                        &&& engine.channels@[m].name@ == "mic"@
                        &&& engine.channels@[m].sends@ == engine.default_sends@
                        &&& engine.channels@.dom() == before_mic.dom().insert(m)
                        &&& forall|k: u128| k != m && #[trigger] before_mic.contains_key(k)
                            ==> engine.channels@[k] == before_mic[k]
                        &&& engine.channel_order@ == ord0.push(m)
                    };
                    assert(engine.channel_order@.last() == m2);
                    assert(a_all.skip(a_br.len() as int) =~= added(engine.backend.calls(), calls_r));
                    assert(made_channel(a_all.skip(a_br.len() as int), "mic"@, engine.channels@[m], engine.buses@));
                }
            }
        }
        proof {
            if keyed {
                assert forall|kk: u128| #[trigger] config.channels@.contains_key(kk) implies engine.channels@.contains_key(config.channels@[kk].id) by {
                    assert(before_mic.contains_key(config.channels@[kk].id));
                }
            }
            assert forall|c: u128| #[trigger] engine.channels@.contains_key(c) && !is_mic(engine.channels@[c]) implies exists|k: u128| {
                &&& #[trigger] config.channels@.contains_key(k)
                &&& same_settings(config.channels@[k], engine.channels@[c])
            } by {
                if before_mic.contains_key(c) && before_mic[c] == engine.channels@[c] {
                    assert(channels@.contains_key(c));
                    let k = choose|k: u128| {
                        &&& #[trigger] saved_channels@.contains_key(k)
                        &&& same_settings(saved_channels@[k], channels@[c])
                    };
                    assert(same_settings(config.channels@[k], engine.channels@[c]));
                } else {
                    assert(is_mic(engine.channels@[c])) by {
                        assert(has_mic(engine.channels@));
                        if has_mic(before_mic) {
                            assert(false);
                        }
                    }
                }
            }
        }
        engine
    }

    /// Routes a physical input node into a channel's sink, replacing the
    /// channel's input link. Errors: no such channel; the backend could not
    /// make the link (the old link is gone then).
    pub fn set_channel_input(&mut self, channel_id: u128, input_node_id: u64) -> (r: Result<(), String>)
        requires
            old(self).wf(),
        ensures
            has_mic(old(self).channels@) ==> has_mic(final(self).channels@),
            final(self).wf(),
            !old(self).channels@.contains_key(channel_id) ==> {
                &&& r matches Err(e) && e@ == not_found_text("channel"@, channel_id)
                &&& final(self).channels@ == old(self).channels@
                &&& final(self).backend.calls() == old(self).backend.calls()
            },
            old(self).channels@.contains_key(channel_id) ==> {
                let o = old(self).channels@[channel_id];
                let n = final(self).channels@[channel_id];
                let added = added(final(self).backend.calls(), old(self).backend.calls());
                &&& extends(final(self).backend.calls(), old(self).backend.calls())
                &&& relink_calls(added, o.input_link, input_node_id, o.virtual_sink.external_id)
                &&& final(self).channels@.dom() == old(self).channels@.dom()
                &&& forall|k: u128| k != channel_id && #[trigger] old(self).channels@.contains_key(k)
                    ==> final(self).channels@[k] == old(self).channels@[k]
                &&& n.id == o.id && n.name == o.name && n.sends == o.sends && n.connections == o.connections
                &&& n.virtual_sink == o.virtual_sink && n.bus_links == o.bus_links
                &&& (link_answer(added) matches Ok(id) ==> r is Ok && n.input_link == Some(
                    Link { id, output_node_id: input_node_id, input_node_id: o.virtual_sink.external_id },
                ))
                &&& (link_answer(added) matches Err(e) ==> r == Err::<(), String>(e) && n.input_link is None)
            },
            final(self).buses@ == old(self).buses@,
            final(self).default_sends@ == old(self).default_sends@,
            final(self).channel_order@ == old(self).channel_order@,
            final(self).nodes@ == old(self).nodes@,
    {
        let mut channel = match self.channels.remove(&channel_id) {
            Some(c) => c,
            None => {
                proof {
                    lemma_mic_kept(old(self).channels@, self.channels@);
                }
                return Err(not_found("channel", channel_id));
            },
        };
        let ghost calls0 = self.backend.calls();
        let sink_node_id = channel.virtual_sink.external_id;
        match channel.input_link.take() {
            Some(old_link) => {
                let _ = self.backend.destroy_link(old_link.id);
            },
            None => {},
        }
        self.channels.insert(channel_id, channel);
        assert(self.channels@.dom() =~= old(self).channels@.dom());
        assert forall|k: u128| #[trigger] self.channels@.contains_key(k) implies self.channel_order@.contains(k) by {
            assert(old(self).channels@.contains_key(k));
        }
        let answer = self.backend.create_link(input_node_id, sink_node_id);
        proof {
            let added = added(self.backend.calls(), calls0);
            assert(self.backend.calls().take(calls0.len() as int) =~= calls0);
            assert(added.last() == BackendCall::CreateLink { output_node_id: input_node_id, input_node_id: sink_node_id, answer });
        }
        let r = self.record_input_link(channel_id, input_node_id, sink_node_id, answer);
        proof {
            lemma_mic_kept(old(self).channels@, self.channels@);
        }
        r
    }

    /// Records the backend's answer to a request for a link from
    /// `input_node_id` to `sink_node_id` as the input link of channel
    /// `channel_id`: a link id becomes the channel's input link; the
    /// backend's error is handed back with nothing changed. Fails, changing
    /// nothing, when there is no such channel.
    pub fn record_input_link(
        &mut self,
        channel_id: u128,
        input_node_id: u64,
        sink_node_id: u64,
        answer: Result<u64, String>,
    ) -> (r: Result<(), String>)
        requires
            old(self).wf(),
        ensures
            final(self).wf(),
            !old(self).channels@.contains_key(channel_id) ==> {
                &&& r matches Err(e) && e@ == not_found_text("channel"@, channel_id)
                &&& final(self).channels@ == old(self).channels@
            },
            old(self).channels@.contains_key(channel_id) ==> {
                let o = old(self).channels@[channel_id];
                &&& answer matches Ok(id) ==> {
                    &&& r is Ok
                    &&& final(self).channels@ == old(self).channels@.insert(
                        channel_id,
                        Channel { input_link: Some(Link { id, output_node_id: input_node_id, input_node_id: sink_node_id }), ..o },
                    )
                }
                &&& answer matches Err(e) ==> r == Err::<(), String>(e) && final(self).channels@ == old(self).channels@
            },
            final(self).backend.calls() == old(self).backend.calls(),
            final(self).buses@ == old(self).buses@,
            final(self).default_sends@ == old(self).default_sends@,
            final(self).channel_order@ == old(self).channel_order@,
            final(self).nodes@ == old(self).nodes@,
    {
        match answer {
            Ok(link_id) => {
                let mut channel = match self.channels.remove(&channel_id) {
                    Some(c) => c,
                    None => {
                        return Err(not_found("channel", channel_id));
                    },
                };
                channel.input_link = Some(Link::new(link_id, input_node_id, sink_node_id));
                self.channels.insert(channel_id, channel);
                assert(self.channels@ =~= old(self).channels@.insert(
                    channel_id,
                    Channel { input_link: Some(Link { id: link_id, output_node_id: input_node_id, input_node_id: sink_node_id }), ..old(self).channels@[channel_id] },
                ));
                assert forall|k: u128| #[trigger] self.channels@.contains_key(k) implies self.channel_order@.contains(k) by {
                    assert(old(self).channels@.contains_key(k));
                }
                Ok(())
            },
            Err(e) => {
                if !self.channels.contains_key(&channel_id) {
                    return Err(not_found("channel", channel_id));
                }
                Err(e)
            },
        }
    }

    /// Routes a bus's sink to a physical output node, replacing the bus's
    /// output link. Errors: no such bus; the bus has no live sink; the
    /// backend could not make the link (the old link is gone then).
    pub fn set_bus_output(&mut self, bus_id: u128, output_node_id: u64) -> (r: Result<(), String>)
        requires
            old(self).wf(),
        ensures
            has_mic(old(self).channels@) ==> has_mic(final(self).channels@),
            final(self).wf(),
            !old(self).buses@.contains_key(bus_id) ==> {
                &&& r matches Err(e) && e@ == not_found_text("bus"@, bus_id)
                &&& final(self).buses@ == old(self).buses@
                &&& final(self).backend.calls() == old(self).backend.calls()
            },
            old(self).buses@.contains_key(bus_id) && old(self).buses@[bus_id].sink.external_id == 0 ==> {
                &&& r matches Err(e) && e@ == "bus "@ + uuid_text(bus_id) + " has no live sink node"@
                &&& final(self).buses@ == old(self).buses@
                &&& final(self).backend.calls() == old(self).backend.calls()
            },
            old(self).buses@.contains_key(bus_id) && old(self).buses@[bus_id].sink.external_id != 0 ==> {
                let o = old(self).buses@[bus_id];
                let n = final(self).buses@[bus_id];
                let added = added(final(self).backend.calls(), old(self).backend.calls());
                &&& extends(final(self).backend.calls(), old(self).backend.calls())
                &&& relink_calls(added, o.output_link, o.sink.external_id, output_node_id)
                &&& final(self).buses@.dom() == old(self).buses@.dom()
                &&& forall|k: u128| k != bus_id && #[trigger] old(self).buses@.contains_key(k)
                    ==> final(self).buses@[k] == old(self).buses@[k]
                &&& n.id == o.id && n.name == o.name && n.volume == o.volume && n.muted == o.muted && n.sink == o.sink
                &&& (link_answer(added) matches Ok(id) ==> r is Ok && n.output_link == Some(
                    Link { id, output_node_id: o.sink.external_id, input_node_id: output_node_id },
                ))
                &&& (link_answer(added) matches Err(e) ==> r == Err::<(), String>(e) && n.output_link is None)
            },
            final(self).channels@ == old(self).channels@,
            final(self).default_sends@ == old(self).default_sends@,
            final(self).channel_order@ == old(self).channel_order@,
            final(self).nodes@ == old(self).nodes@,
    {
        let mut bus = match self.buses.remove(&bus_id) {
            Some(b) => b,
            None => {
                return Err(not_found("bus", bus_id));
            },
        };
        let bus_sink_pw_id = bus.sink.external_id;
        if bus_sink_pw_id == 0 {
            self.buses.insert(bus_id, bus);
            assert(self.buses@ =~= old(self).buses@);
            proof {
                reveal_strlit("bus ");
            }
            let msg = String::from_str("bus ").concat(id_to_string(bus_id).as_str()).concat(" has no live sink node");
            return Err(msg);
        }
        let ghost calls0 = self.backend.calls();
        match bus.output_link.take() {
            Some(old_link) => {
                let _ = self.backend.destroy_link(old_link.id);
            },
            None => {},
        }
        self.buses.insert(bus_id, bus);
        assert(self.buses@.dom() =~= old(self).buses@.dom());
        let answer = self.backend.create_link(bus_sink_pw_id, output_node_id);
        proof {
            let added = added(self.backend.calls(), calls0);
            assert(self.backend.calls().take(calls0.len() as int) =~= calls0);
            assert(added.last() == BackendCall::CreateLink { output_node_id: bus_sink_pw_id, input_node_id: output_node_id, answer });
        }
        self.record_bus_output(bus_id, bus_sink_pw_id, output_node_id, answer)
    }

    /// Records the backend's answer to a request for a link from
    /// `sink_node_id` to `output_node_id` as the output link of bus `bus_id`:
    /// a link id becomes the bus's output link; the backend's error is
    /// handed back with nothing changed. Fails, changing nothing, when there
    /// is no such bus.
    pub fn record_bus_output(
        &mut self,
        bus_id: u128,
        sink_node_id: u64,
        output_node_id: u64,
        answer: Result<u64, String>,
    ) -> (r: Result<(), String>)
        requires
            old(self).wf(),
        ensures
            final(self).wf(),
            !old(self).buses@.contains_key(bus_id) ==> {
                &&& r matches Err(e) && e@ == not_found_text("bus"@, bus_id)
                &&& final(self).buses@ == old(self).buses@
            },
            old(self).buses@.contains_key(bus_id) ==> {
                let o = old(self).buses@[bus_id];
                &&& answer matches Ok(id) ==> {
                    &&& r is Ok
                    &&& final(self).buses@ == old(self).buses@.insert(
                        bus_id,
                        Bus { output_link: Some(Link { id, output_node_id: sink_node_id, input_node_id: output_node_id }), ..o },
                    )
                }
                &&& answer matches Err(e) ==> r == Err::<(), String>(e) && final(self).buses@ == old(self).buses@
            },
            final(self).backend.calls() == old(self).backend.calls(),
            final(self).channels@ == old(self).channels@,
            final(self).default_sends@ == old(self).default_sends@,
            final(self).channel_order@ == old(self).channel_order@,
            final(self).nodes@ == old(self).nodes@,
    {
        match answer {
            Ok(link_id) => {
                let mut bus = match self.buses.remove(&bus_id) {
                    Some(b) => b,
                    None => {
                        return Err(not_found("bus", bus_id));
                    },
                };
                bus.output_link = Some(Link::new(link_id, sink_node_id, output_node_id));
                self.buses.insert(bus_id, bus);
                assert(self.buses@ =~= old(self).buses@.insert(
                    bus_id,
                    Bus { output_link: Some(Link { id: link_id, output_node_id: sink_node_id, input_node_id: output_node_id }), ..old(self).buses@[bus_id] },
                ));
                Ok(())
            },
            Err(e) => {
                if !self.buses.contains_key(&bus_id) {
                    return Err(not_found("bus", bus_id));
                }
                Err(e)
            },
        }
    }

    /// Creates a channel: a new virtual sink, the default sends, links to
    /// the buses; the channel goes last in the order. Fails, changing
    /// nothing, when the backend cannot create the sink.
    pub fn add_channel(&mut self, name: String) -> (r: Result<Channel, String>)
        requires
            old(self).wf(),
        ensures
            r matches Ok(c) && has_mic(old(self).channels@) && !old(self).channels@.contains_key(c.id)
                ==> has_mic(final(self).channels@),
            final(self).wf(),
            r is Err ==> {
                &&& final(self).channels@ == old(self).channels@
                &&& final(self).channel_order@ == old(self).channel_order@
            },
            r matches Ok(c) ==> {
                let n = final(self).channels@[c.id];
                &&& final(self).channels@.dom() == old(self).channels@.dom().insert(c.id)
                &&& forall|k: u128| k != c.id && #[trigger] old(self).channels@.contains_key(k)
                    ==> final(self).channels@[k] == old(self).channels@[k]
                &&& n.name@ == name@ && n.sends@ == old(self).default_sends@ && n.connections@.len() == 0
                &&& n.input_link is None
                &&& forall|i: int| 0 <= i < n.bus_links@.len() ==> {
                    &&& (#[trigger] n.bus_links@[i]).output_node_id == n.virtual_sink.external_id
                    &&& is_live_bus_sink(old(self).buses@, n.bus_links@[i].input_node_id)
                }
                &&& c.id == n.id && c.name == n.name && c.sends@ == n.sends@ && c.connections@ == n.connections@
                &&& c.virtual_sink == n.virtual_sink && c.input_link == n.input_link && c.bus_links@ == n.bus_links@
                &&& final(self).channel_order@ == if old(self).channel_order@.contains(c.id) {
                    old(self).channel_order@
                } else {
                    old(self).channel_order@.push(c.id)
                }
            },
            ({
                let n0 = old(self).backend.calls().len();
                let rest = final(self).backend.calls().skip(n0 + 1int);
                &&& n0 < final(self).backend.calls().len()
                &&& final(self).backend.calls().take(n0 as int) == old(self).backend.calls()
                &&& final(self).backend.calls()[n0 as int] matches BackendCall::CreateVirtualSink { name: asked, answer }
                    && asked == name@
                    && (answer matches Err(e) ==> r == Err::<Channel, String>(e) && rest.len() == 0)
                    && (answer matches Ok(s) ==> r matches Ok(c) && c.virtual_sink == s
                        && bus_wiring(rest, s.external_id, old(self).buses@) && c.bus_links@ == granted_links(rest))
            }),
            final(self).buses@ == old(self).buses@,
            final(self).default_sends@ == old(self).default_sends@,
            final(self).nodes@ == old(self).nodes@,
    {
        let ghost calls0 = self.backend.calls();
        let sink = self.backend.create_virtual_sink(name.as_str());
        let ghost calls1 = self.backend.calls();
        let r = self.add_channel_with_sink(name, sink);
        proof {
            assert(calls1.take(calls0.len() as int) =~= calls0);
            assert(self.backend.calls().take(calls1.len() as int) == calls1);
            assert(self.backend.calls().take(calls0.len() as int) =~= calls0) by {
                assert(self.backend.calls().take(calls0.len() as int) =~= calls1.take(calls0.len() as int));
            }
            assert(self.backend.calls()[calls0.len() as int] == calls1[calls0.len() as int]);
            assert(self.backend.calls().skip(calls0.len() + 1int) =~= added(self.backend.calls(), calls1));
        }
        r
    }

    /// Adds a channel named `name` around the backend's answer to the
    /// request for its sink: the backend's error is handed back with nothing
    /// changed; a sink becomes the sink of a new channel with the default
    /// sends, linked to the buses and put last in the order.
    pub fn add_channel_with_sink(&mut self, name: String, sink: Result<Sink, String>) -> (r: Result<Channel, String>)
        requires
            old(self).wf(),
        ensures
            r matches Ok(c) && has_mic(old(self).channels@) && !old(self).channels@.contains_key(c.id)
                ==> has_mic(final(self).channels@),
            final(self).wf(),
            sink matches Err(e) ==> r == Err::<Channel, String>(e),
            sink matches Ok(s) ==> r matches Ok(c) && c.virtual_sink == s,
            r is Err ==> {
                &&& final(self).channels@ == old(self).channels@
                &&& final(self).channel_order@ == old(self).channel_order@
            },
            r matches Ok(c) ==> {
                let n = final(self).channels@[c.id];
                &&& final(self).channels@.dom() == old(self).channels@.dom().insert(c.id)
                &&& forall|k: u128| k != c.id && #[trigger] old(self).channels@.contains_key(k)
                    ==> final(self).channels@[k] == old(self).channels@[k]
                &&& n.name@ == name@ && n.sends@ == old(self).default_sends@ && n.connections@.len() == 0
                &&& n.input_link is None
                &&& forall|i: int| 0 <= i < n.bus_links@.len() ==> {
                    &&& (#[trigger] n.bus_links@[i]).output_node_id == n.virtual_sink.external_id
                    &&& is_live_bus_sink(old(self).buses@, n.bus_links@[i].input_node_id)
                }
                &&& c.id == n.id && c.name == n.name && c.sends@ == n.sends@ && c.connections@ == n.connections@
                &&& c.virtual_sink == n.virtual_sink && c.input_link == n.input_link && c.bus_links@ == n.bus_links@
                &&& final(self).channel_order@ == if old(self).channel_order@.contains(c.id) {
                    old(self).channel_order@
                } else {
                    old(self).channel_order@.push(c.id)
                }
            },
            extends(final(self).backend.calls(), old(self).backend.calls()),
            sink is Err ==> final(self).backend.calls() == old(self).backend.calls(),
            sink matches Ok(s) ==> (r matches Ok(c) && bus_wiring(
                added(final(self).backend.calls(), old(self).backend.calls()),
                s.external_id,
                old(self).buses@,
            ) && c.bus_links@ == granted_links(added(final(self).backend.calls(), old(self).backend.calls()))),
            final(self).buses@ == old(self).buses@,
            final(self).default_sends@ == old(self).default_sends@,
            final(self).nodes@ == old(self).nodes@,
    {
        proof {
            assert(old(self).backend.calls().take(old(self).backend.calls().len() as int) =~= old(self).backend.calls());
        }
        let sink = match sink {
            Ok(s) => s,
            Err(e) => {
                return Err(e);
            },
        };
        let ghost name_view = name@;
        let channel = Channel::new(name, copy_sends(&self.default_sends), sink);
        let id = channel.id;
        let ghost fresh = channel;
        self.channels.insert(id, channel);
        let ghost order_before = self.channel_order@;
        if !crate::seqs::contains_u128(&self.channel_order, id) {
            self.channel_order.push(id);
            assert(self.channel_order@[self.channel_order@.len() - 1] == id);
        }
        assert(self.channel_order@.contains(id));
        assert forall|k: u128| #[trigger] self.channels@.contains_key(k) implies self.channel_order@.contains(k) by {
            if k != id {
                assert(old(self).channels@.contains_key(k));
                let j = choose|j: int| 0 <= j < order_before.len() && order_before[j] == k;
                assert(self.channel_order@[j] == k);
            }
        }
        let ghost before_wire = self.channels@;
        self.wire_channel_to_buses(id);
        assert forall|k: u128| k != id && #[trigger] old(self).channels@.contains_key(k)
            implies self.channels@[k] == old(self).channels@[k] by {
            assert(before_wire.contains_key(k));
        }
        assert(self.channels@.dom() =~= old(self).channels@.dom().insert(id));
        let stored = match self.channels.get(&id) {
            Some(c) => c.duplicate(),
            None => {
                return Err(not_found("channel", id));
            },
        };
        proof {
            if !old(self).channels@.contains_key(stored.id) {
                lemma_mic_kept(old(self).channels@, self.channels@);
            }
        }
        Ok(stored)
    }

    /// Deletes a channel: destroys its input link and its bus links, then
    /// its sink, then takes it out of the channels and the order. The
    /// microphone channel cannot be deleted. Errors: no such channel; the
    /// microphone channel (the backend is not called for either); the backend
    /// could not destroy the sink (the channel then stays).
    pub fn delete_channel(&mut self, id: u128) -> (r: Result<(), String>)
        requires
            old(self).wf(),
        ensures
            has_mic(old(self).channels@) ==> has_mic(final(self).channels@),
            final(self).wf(),
            !old(self).channels@.contains_key(id) ==> {
                &&& r matches Err(e) && e@ == not_found_text("channel"@, id)
                &&& final(self).channels@ == old(self).channels@
                &&& final(self).channel_order@ == old(self).channel_order@
                &&& final(self).backend.calls() == old(self).backend.calls()
            },
            old(self).channels@.contains_key(id) && is_mic(old(self).channels@[id]) ==> {
                &&& r matches Err(e) && e@ == "cannot delete the mic channel"@
                &&& final(self).channels@ == old(self).channels@
                &&& final(self).channel_order@ == old(self).channel_order@
                &&& final(self).backend.calls() == old(self).backend.calls()
            },
            old(self).channels@.contains_key(id) && !is_mic(old(self).channels@[id]) ==> {
                let o = old(self).channels@[id];
                let added = added(final(self).backend.calls(), old(self).backend.calls());
                let k = channel_links(o).len();
                &&& extends(final(self).backend.calls(), old(self).backend.calls())
                &&& added.len() == k + 1
                &&& destroys_links(added.take(k as int), channel_links(o))
                &&& added[k as int] matches BackendCall::DestroyVirtualSink { sink, answer } && sink == o.virtual_sink
                    && (answer is Ok ==> {
                        &&& r is Ok
                        &&& final(self).channels@ == old(self).channels@.remove(id)
                        &&& final(self).channel_order@ == crate::seqs::seq_without(old(self).channel_order@, id)
                    })
                    && (answer matches Err(e) ==> {
                        &&& r == Err::<(), String>(e)
                        &&& final(self).channels@ == old(self).channels@
                        &&& final(self).channel_order@ == old(self).channel_order@
                    })
            },
            final(self).buses@ == old(self).buses@,
            final(self).default_sends@ == old(self).default_sends@,
            final(self).nodes@ == old(self).nodes@,
    {
        let (input_link, bus_links, sink) = match self.channels.get(&id) {
            Some(ch) => {
                let lower = to_lowercase(ch.name.as_str());
                if str_eq(lower.as_str(), "mic") {
                    return Err(to_owned("cannot delete the mic channel"));
                }
                (ch.input_link, copy_links(&ch.bus_links), ch.virtual_sink)
            },
            None => {
                return Err(not_found("channel", id));
            },
        };
        let ghost o = old(self).channels@[id];
        let ghost calls0 = self.backend.calls();
        let ghost links = channel_links(o);
        let mut done: usize = 0;
        match input_link {
            Some(link) => {
                let _ = self.backend.destroy_link(link.id);
                done = 1;
            },
            None => {},
        }
        proof {
            assert(self.backend.calls().take(calls0.len() as int) =~= calls0);
            assert(destroys_links(added(self.backend.calls(), calls0), links.take(done as int)));
        }
        let mut i: usize = 0;
        while i < bus_links.len()
            invariant
                i <= bus_links.len(),
                bus_links@ == o.bus_links@,
                links == channel_links(o),
                done == (if o.input_link is Some { 1usize } else { 0usize }),
                extends(self.backend.calls(), calls0),
                destroys_links(added(self.backend.calls(), calls0), links.take(done + i)),
                self.channels@ == old(self).channels@,
                self.buses@ == old(self).buses@,
                self.default_sends@ == old(self).default_sends@,
                self.channel_order@ == old(self).channel_order@,
                self.nodes@ == old(self).nodes@,
            decreases bus_links.len() - i,
        {
            let link_id = bus_links[i].id;
            let ghost before = self.backend.calls();
            let _ = self.backend.destroy_link(link_id);
            proof {
                assert(self.backend.calls().take(calls0.len() as int) =~= calls0) by {
                    assert(before.take(calls0.len() as int) == calls0);
                }
                assert(links[done + i] == bus_links@[i as int]);
                let a0 = added(before, calls0);
                let a1 = added(self.backend.calls(), calls0);
                assert(a1 =~= a0.push(self.backend.calls().last()));
                assert forall|j: int| 0 <= j < links.take(done + i + 1).len() implies (#[trigger] a1[j] matches BackendCall::DestroyLink { link_id, .. }
                    && link_id == links.take(done + i + 1)[j].id) by {
                    if j < done + i {
                        assert(a1[j] == a0[j]);
                        assert(links.take(done + i)[j] == links.take(done + i + 1)[j]);
                    }
                }
            }
            i += 1;
        }
        let ghost before_sink = self.backend.calls();
        proof {
            assert(links.take(done + bus_links.len()) =~= links);
        }
        match self.backend.destroy_virtual_sink(&sink) {
            Ok(()) => {},
            Err(e) => {
                proof {
                    assert(self.backend.calls().take(calls0.len() as int) =~= calls0) by {
                        assert(before_sink.take(calls0.len() as int) == calls0);
                    }
                    assert(added(self.backend.calls(), calls0).take(links.len() as int) =~= added(before_sink, calls0));
                    lemma_mic_kept(old(self).channels@, self.channels@);
                }
                return Err(e);
            },
        }
        proof {
            assert(self.backend.calls().take(calls0.len() as int) =~= calls0) by {
                assert(before_sink.take(calls0.len() as int) == calls0);
            }
            assert(added(self.backend.calls(), calls0).take(links.len() as int) =~= added(before_sink, calls0));
        }
        self.channels.remove(&id);
        let kept = crate::seqs::vec_without_u128(&self.channel_order, id);
        self.channel_order = kept;
        proof {
            crate::seqs::lemma_seq_without_members(old(self).channel_order@, id);
            assert forall|k: u128| #[trigger] self.channels@.contains_key(k) implies self.channel_order@.contains(k) by {
                assert(old(self).channel_order@.contains(k));
            }
            assert forall|k: u128| #[trigger] old(self).channels@.contains_key(k) && is_mic(old(self).channels@[k])
                implies self.channels@.contains_key(k) && self.channels@[k].name == old(self).channels@[k].name by {
            }
            lemma_mic_kept(old(self).channels@, self.channels@);
        }
        Ok(())
    }

    /// Puts the channels in the requested order: first the ids of `order`
    /// that name channels, each once; then the remaining channels in their
    /// previous order; then any channel in neither, by id.
    pub fn reorder_channels(&mut self, order: Vec<u128>)
        requires
            old(self).wf(),
        ensures
            final(self).wf(),
            final(self).channel_order@ == reordered(order@, old(self).channel_order@, old(self).channels@.dom()),
            final(self).channels@ == old(self).channels@,
            final(self).buses@ == old(self).buses@,
            final(self).default_sends@ == old(self).default_sends@,
            final(self).nodes@ == old(self).nodes@,
    {
        let ghost dom = self.channels@.dom();
        let old_order = crate::mixer::session::engine::copy_ids(&self.channel_order);
        let mut seen: std::collections::HashSet<u128> = std::collections::HashSet::new();
        let mut new_order: Vec<u128> = Vec::new();
        let mut i: usize = 0;
        while i < order.len()
            invariant
                i <= order.len(),
                dom == self.channels@.dom(),
                new_order@ == crate::seqs::first_occurrences(order@.take(i as int), dom, Set::empty()),
                seen@ == new_order@.to_set(),
            decreases order.len() - i,
        {
            assert(order@.take(i as int + 1).drop_last() =~= order@.take(i as int));
            let id = order[i];
            let ghost prev = new_order@;
            if self.channels.contains_key(&id) && seen.insert(id) {
                new_order.push(id);
                assert(new_order@ =~= prev + seq![id]);
                proof { Seq::<u128>::lemma_to_set_insert_commutes(prev, id); }
                assert(new_order@.to_set() =~= seen@);
            }
            i += 1;
        }
        assert(order@.take(order.len() as int) =~= order@);
        let ghost a = new_order@;

        // Channels that neither list names, ascending by id.
        let keys = keys_u128(&self.channels);
        let mut extra: Vec<u128> = Vec::new();
        let mut j: usize = 0;
        while j < keys.len()
            invariant
                j <= keys.len(),
                self.wf(),
                keys@.to_set() == self.channels@.dom(),
                old_order@ == self.channel_order@,
                extra@.len() == 0,
            decreases keys.len() - j,
        {
            let k = keys[j];
            assert(keys@.to_set().contains(k)) by {
                assert(keys@[j as int] == k);
            }
            if !seen.contains(&k) && !crate::seqs::contains_u128(&old_order, k) {
                extra.push(k);
            }
            j += 1;
        }
        crate::seqs::sort_u128(&mut extra);

        let mut x: usize = 0;
        while x < old_order.len()
            invariant
                x <= old_order.len(),
                dom == self.channels@.dom(),
                new_order@ == a + crate::seqs::first_occurrences(old_order@.take(x as int), dom, a.to_set()),
                seen@ == new_order@.to_set(),
                a.to_set() == crate::seqs::first_occurrences(order@, dom, Set::empty()).to_set(),
            decreases old_order.len() - x,
        {
            assert(old_order@.take(x as int + 1).drop_last() =~= old_order@.take(x as int));
            let id = old_order[x];
            let ghost fo = crate::seqs::first_occurrences(old_order@.take(x as int), dom, a.to_set());
            assert(new_order@.to_set().contains(id) <==> (a.contains(id) || fo.contains(id))) by {
                assert forall|y: u128| (a + fo).contains(y) <==> (a.contains(y) || fo.contains(y)) by {
                    if (a + fo).contains(y) {
                        let w = choose|w: int| 0 <= w < (a + fo).len() && (a + fo)[w] == y;
                        if w < a.len() {
                            assert(a[w] == y);
                        } else {
                            assert(fo[w - a.len()] == y);
                        }
                    }
                    if a.contains(y) {
                        let w = choose|w: int| 0 <= w < a.len() && a[w] == y;
                        assert((a + fo)[w] == y);
                    }
                    if fo.contains(y) {
                        let w = choose|w: int| 0 <= w < fo.len() && fo[w] == y;
                        assert((a + fo)[w + a.len()] == y);
                    }
                }
            }
            let ghost prev = new_order@;
            if self.channels.contains_key(&id) && seen.insert(id) {
                new_order.push(id);
                assert(new_order@ =~= a + fo.push(id));
                assert(new_order@ =~= prev + seq![id]);
                proof { Seq::<u128>::lemma_to_set_insert_commutes(prev, id); }
                assert(new_order@.to_set() =~= seen@);
            }
            x += 1;
        }
        assert(old_order@.take(old_order.len() as int) =~= old_order@);
        let mut z: usize = 0;
        while z < extra.len()
            invariant
                extra@.len() == 0,
            decreases extra.len() - z,
        {
            z += 1;
        }
        self.channel_order = new_order;
        proof {
            crate::seqs::lemma_first_occurrences(order@, dom, Set::empty());
            crate::seqs::lemma_first_occurrences(old(self).channel_order@, dom, a.to_set());
            assert forall|k: u128| #[trigger] self.channels@.contains_key(k) implies self.channel_order@.contains(k) by {
                assert(old(self).channel_order@.contains(k));
                let fo = crate::seqs::first_occurrences(old(self).channel_order@, dom, a.to_set());
                if a.contains(k) {
                    let w = choose|w: int| 0 <= w < a.len() && a[w] == k;
                    assert(self.channel_order@[w] == k);
                } else {
                    assert(!a.to_set().contains(k));
                    assert(fo.contains(k));
                    let w = choose|w: int| 0 <= w < fo.len() && fo[w] == k;
                    assert(self.channel_order@[w + a.len()] == k);
                }
            }
        }
    }

    /// Sets the level and/or mute of the send from a channel to a bus.
    /// `volume` is the bits of an `f32` level already limited to 0..=1.
    /// Errors: no such channel; the channel has no send to that bus.
    pub fn update_channel_send(
        &mut self,
        channel_id: u128,
        bus_id: u128,
        volume: Option<u32>,
        muted: Option<bool>,
    ) -> (r: Result<(), String>)
        requires
            old(self).wf(),
        ensures
            has_mic(old(self).channels@) ==> has_mic(final(self).channels@),
            final(self).wf(),
            !old(self).channels@.contains_key(channel_id) ==> (r matches Err(e) && e@ == not_found_text(
                "channel"@,
                channel_id,
            )),
            old(self).channels@.contains_key(channel_id) && !(first_send_to(old(self).channels@[channel_id].sends@, bus_id) is Some)
                ==> (r matches Err(e) && e@ == "send to bus "@ + uuid_text(bus_id) + " not found on channel "@
                    + uuid_text(channel_id)),
            r is Err ==> final(self).channels@ == old(self).channels@,
            r is Ok ==> {
                let o = old(self).channels@[channel_id];
                let n = final(self).channels@[channel_id];
                let i = first_send_to(o.sends@, bus_id)->0;
                &&& old(self).channels@.contains_key(channel_id)
                &&& first_send_to(o.sends@, bus_id) is Some
                &&& final(self).channels@ == old(self).channels@.insert(channel_id, n)
                &&& n.id == o.id && n.name == o.name && n.connections == o.connections
                &&& n.virtual_sink == o.virtual_sink && n.input_link == o.input_link && n.bus_links == o.bus_links
                &&& n.sends@ == o.sends@.update(i, Send {
                    bus_id: o.sends@[i].bus_id,
                    volume: match volume { Some(v) => v, None => o.sends@[i].volume },
                    muted: match muted { Some(m) => m, None => o.sends@[i].muted },
                })
            },
            final(self).buses@ == old(self).buses@,
            final(self).default_sends@ == old(self).default_sends@,
            final(self).channel_order@ == old(self).channel_order@,
            final(self).nodes@ == old(self).nodes@,
    {
        let mut channel = match self.channels.remove(&channel_id) {
            Some(c) => c,
            None => {
                proof {
                    lemma_mic_kept(old(self).channels@, self.channels@);
                }
                return Err(not_found("channel", channel_id));
            },
        };
        let mut i: usize = 0;
        while i < channel.sends.len()
            invariant
                i <= channel.sends.len(),
                channel == old(self).channels@[channel_id],
                forall|j: int| 0 <= j < i ==> channel.sends@[j].bus_id != bus_id,
            ensures
                i <= channel.sends.len(),
                forall|j: int| 0 <= j < i ==> channel.sends@[j].bus_id != bus_id,
                i < channel.sends.len() ==> channel.sends@[i as int].bus_id == bus_id,
            decreases channel.sends.len() - i,
        {
            if channel.sends[i].bus_id == bus_id {
                break;
            }
            i += 1;
        }
        proof {
            lemma_first_send_to(channel.sends@, bus_id, i as int);
        }
        if i == channel.sends.len() {
            self.channels.insert(channel_id, channel);
            assert(self.channels@ =~= old(self).channels@);
            proof {
                reveal_strlit("send to bus ");
                reveal_strlit(" not found on channel ");
            }
            let msg = String::from_str("send to bus ").concat(id_to_string(bus_id).as_str()).concat(
                " not found on channel ",
            ).concat(id_to_string(channel_id).as_str());
            return Err(msg);
        }
        let mut send = channel.sends[i];
        match volume {
            Some(v) => {
                send.volume = v;
            },
            None => {},
        }
        match muted {
            Some(m) => {
                send.muted = m;
            },
            None => {},
        }
        channel.sends.set(i, send);
        let ghost n = channel;
        self.channels.insert(channel_id, channel);
        assert(self.channels@[channel_id] == n);
        proof {
            lemma_mic_kept(old(self).channels@, self.channels@);
        }
        Ok(())
    }

    /// Replaces a channel's connections by the given processes, numbered
    /// from 0 in order. Errors: no such channel.
    pub fn update_channel_connections(&mut self, channel_id: u128, process_names: Vec<String>) -> (r: Result<
        (),
        String,
    >)
        requires
            old(self).wf(),
        ensures
            has_mic(old(self).channels@) ==> has_mic(final(self).channels@),
            final(self).wf(),
            !old(self).channels@.contains_key(channel_id) ==> {
                &&& r matches Err(e) && e@ == not_found_text("channel"@, channel_id)
                &&& final(self).channels@ == old(self).channels@
            },
            old(self).channels@.contains_key(channel_id) ==> {
                let o = old(self).channels@[channel_id];
                let n = final(self).channels@[channel_id];
                &&& r is Ok
                &&& final(self).channels@ == old(self).channels@.insert(channel_id, n)
                &&& n.id == o.id && n.name == o.name && n.sends == o.sends
                &&& n.virtual_sink == o.virtual_sink && n.input_link == o.input_link && n.bus_links == o.bus_links
                &&& n.connections@.len() == process_names@.len()
                &&& forall|i: int| 0 <= i < process_names@.len() ==> {
                    &&& (#[trigger] n.connections@[i]).process_id == i as u32
                    &&& n.connections@[i].process_name == process_names@[i]
                }
            },
            final(self).buses@ == old(self).buses@,
            final(self).default_sends@ == old(self).default_sends@,
            final(self).channel_order@ == old(self).channel_order@,
            final(self).nodes@ == old(self).nodes@,
    {
        let mut channel = match self.channels.remove(&channel_id) {
            Some(c) => c,
            None => {
                proof {
                    lemma_mic_kept(old(self).channels@, self.channels@);
                }
                return Err(not_found("channel", channel_id));
            },
        };
        let mut connections: Vec<Connection> = Vec::new();
        let mut i: usize = 0;
        while i < process_names.len()
            invariant
                i <= process_names.len(),
                connections@.len() == i,
                forall|j: int| 0 <= j < i ==> {
                    &&& (#[trigger] connections@[j]).process_id == j as u32
                    &&& connections@[j].process_name == process_names@[j]
                },
            decreases process_names.len() - i,
        {
            connections.push(Connection::new(i as u32, process_names[i].clone()));
            i += 1;
        }
        channel.connections = connections;
        let ghost updated = channel;
        self.channels.insert(channel_id, channel);
        assert(self.channels@[channel_id] == updated);
        proof {
            lemma_mic_kept(old(self).channels@, self.channels@);
        }
        Ok(())
    }

    /// Sets a bus's level and/or mute. `volume` is the bits of an `f32`
    /// level already limited to 0..=1. Errors: no such bus.
    pub fn update_bus(&mut self, bus_id: u128, volume: Option<u32>, muted: Option<bool>) -> (r: Result<(), String>)
        requires
            old(self).wf(),
        ensures
            final(self).wf(),
            !old(self).buses@.contains_key(bus_id) ==> {
                &&& r matches Err(e) && e@ == not_found_text("bus"@, bus_id)
                &&& final(self).buses@ == old(self).buses@
            },
            old(self).buses@.contains_key(bus_id) ==> {
                let o = old(self).buses@[bus_id];
                &&& r is Ok
                &&& final(self).buses@ == old(self).buses@.insert(bus_id, Bus {
                    volume: match volume { Some(v) => v, None => o.volume },
                    muted: match muted { Some(m) => m, None => o.muted },
                    ..o
                })
            },
            final(self).channels@ == old(self).channels@,
            final(self).default_sends@ == old(self).default_sends@,
            final(self).channel_order@ == old(self).channel_order@,
            final(self).nodes@ == old(self).nodes@,
    {
        let mut bus = match self.buses.remove(&bus_id) {
            Some(b) => b,
            None => {
                return Err(not_found("bus", bus_id));
            },
        };
        match volume {
            Some(v) => {
                bus.volume = v;
            },
            None => {},
        }
        match muted {
            Some(m) => {
                bus.muted = m;
            },
            None => {},
        }
        self.buses.insert(bus_id, bus);
        Ok(())
    }

    /// Takes the backend's pending events and applies them to the node
    /// cache; gives the events.
    pub fn poll_events(&mut self) -> (r: Vec<BackendEvent>)
        requires
            old(self).wf(),
        ensures
            final(self).wf(),
            final(self).nodes@ == apply_events(old(self).nodes@, r@),
            final(self).backend.calls() == old(self).backend.calls().push(BackendCall::PollEvents { answer: r@ }),
            final(self).channels@ == old(self).channels@,
            final(self).buses@ == old(self).buses@,
            final(self).default_sends@ == old(self).default_sends@,
            final(self).channel_order@ == old(self).channel_order@,
    {
        let events = self.backend.poll_events();
        self.record_events(&events);
        events
    }

    /// Applies backend events to the node cache, in order: an added node is
    /// filed under its id, a removed one leaves it. Nothing else changes.
    pub fn record_events(&mut self, events: &Vec<BackendEvent>)
        requires
            old(self).wf(),
        ensures
            final(self).wf(),
            final(self).nodes@ == apply_events(old(self).nodes@, events@),
            final(self).channels@ == old(self).channels@,
            final(self).buses@ == old(self).buses@,
            final(self).default_sends@ == old(self).default_sends@,
            final(self).channel_order@ == old(self).channel_order@,
            final(self).backend.calls() == old(self).backend.calls(),
    {
        let mut i: usize = 0;
        while i < events.len()
            invariant
                i <= events.len(),
                self.wf(),
                self.nodes@ == apply_events(old(self).nodes@, events@.take(i as int)),
                self.channels@ == old(self).channels@,
                self.buses@ == old(self).buses@,
                self.default_sends@ == old(self).default_sends@,
                self.channel_order@ == old(self).channel_order@,
                self.backend.calls() == old(self).backend.calls(),
            decreases events.len() - i,
        {
            assert(events@.take(i as int + 1).drop_last() =~= events@.take(i as int));
            match &events[i] {
                BackendEvent::NodeAdded(info) => {
                    self.nodes.insert(info.id, info.duplicate());
                },
                BackendEvent::NodeRemoved(id) => {
                    self.nodes.remove(id);
                },
            }
            i += 1;
        }
        assert(events@.take(events.len() as int) =~= events@);
    }

    /// All known nodes, by ascending id.
    pub fn get_nodes(&self) -> (r: Vec<NodeInfo>)
        requires
            self.wf(),
        ensures
            r@.len() == self.nodes@.len(),
            forall|i: int| 0 <= i < r@.len() ==> self.nodes@.contains_key(#[trigger] r@[i].id) && self.nodes@[r@[i].id] == r@[i],
            forall|k: u32| #[trigger] self.nodes@.contains_key(k) ==> r@.contains(self.nodes@[k]),
            forall|i: int, j: int| 0 <= i < j < r@.len() ==> r@[i].id <= r@[j].id,
    {
        let mut nodes: Vec<NodeInfo> = Vec::new();
        let ghost keys = vstd::std_specs::hash::spec_keys_iter(&self.nodes).remaining();
        for k in it: self.nodes.keys()
            invariant
                self.wf(),
                it.seq() == keys,
                keys.no_duplicates(),
                keys.unref().to_set() == self.nodes@.dom(),
                keys.len() == self.nodes@.dom().len(),
                nodes@.len() == it.index(),
                forall|i: int| 0 <= i < nodes@.len() ==> nodes@[i] == self.nodes@[*keys[i]],
        {
            assert(keys.unref()[it.index()] == *k);
            assert(self.nodes@.contains_key(*k));
            match self.nodes.get(k) {
                Some(n) => {
                    nodes.push(n.duplicate());
                },
                None => {},
            }
        }
        let ghost before = nodes@;
        proof {
            assert forall|i: int| 0 <= i < before.len() implies self.nodes@.contains_key(#[trigger] before[i].id)
                && self.nodes@[before[i].id] == before[i] by {
                assert(keys.unref()[i] == *keys[i]);
                assert(keys.unref().to_set().contains(*keys[i]));
            }
            assert forall|k: u32| #[trigger] self.nodes@.contains_key(k) implies before.contains(self.nodes@[k]) by {
                assert(keys.unref().to_set().contains(k));
                let j = choose|j: int| 0 <= j < keys.len() && keys.unref()[j] == k;
                assert(before[j] == self.nodes@[k]);
            }
        }
        sort_nodes_by_id(&mut nodes);
        proof {
            assert forall|i: int| 0 <= i < nodes@.len() implies self.nodes@.contains_key(#[trigger] nodes@[i].id)
                && self.nodes@[nodes@[i].id] == nodes@[i] by {
                nodes@.to_multiset_ensures();
                before.to_multiset_ensures();
                assert(nodes@.contains(nodes@[i]));
                assert(nodes@.to_multiset().count(nodes@[i]) > 0);
                assert(before.contains(nodes@[i]));
                let w = choose|w: int| 0 <= w < before.len() && before[w] == nodes@[i];
                assert(self.nodes@.contains_key(before[w].id));
            }
            assert forall|k: u32| #[trigger] self.nodes@.contains_key(k) implies nodes@.contains(self.nodes@[k]) by {
                nodes@.to_multiset_ensures();
                before.to_multiset_ensures();
                assert(before.contains(self.nodes@[k]));
                assert(before.to_multiset().count(self.nodes@[k]) > 0);
            }
            assert(nodes@.len() == self.nodes@.len()) by {
                keys.unref().unique_seq_to_set();
            }
        }
        nodes
    }

    /// The channels in the persisted order, each once.
    pub fn ordered_channels(&self) -> (r: Vec<Channel>)
        requires
            self.wf(),
        ensures
            r@.map_values(|c: Channel| c.id) == crate::seqs::first_occurrences(
                self.channel_order@,
                self.channels@.dom(),
                Set::empty(),
            ),
            forall|i: int| 0 <= i < r@.len() ==> same_settings(self.channels@[r@[i].id], #[trigger] r@[i]),
            forall|i: int| 0 <= i < r@.len() ==> same_channel(self.channels@[r@[i].id], #[trigger] r@[i]),
    {
        let mut out: Vec<Channel> = Vec::new();
        let mut seen: std::collections::HashSet<u128> = std::collections::HashSet::new();
        let mut i: usize = 0;
        while i < self.channel_order.len()
            invariant
                i <= self.channel_order.len(),
                self.wf(),
                out@.map_values(|c: Channel| c.id) == crate::seqs::first_occurrences(
                    self.channel_order@.take(i as int),
                    self.channels@.dom(),
                    Set::empty(),
                ),
                seen@ == out@.map_values(|c: Channel| c.id).to_set(),
                forall|j: int| 0 <= j < out@.len() ==> same_channel(self.channels@[out@[j].id], #[trigger] out@[j]),
            decreases self.channel_order.len() - i,
        {
            assert(self.channel_order@.take(i as int + 1).drop_last() =~= self.channel_order@.take(i as int));
            let id = self.channel_order[i];
            let ghost prev = out@.map_values(|c: Channel| c.id);
            if self.channels.contains_key(&id) && seen.insert(id) {
                match self.channels.get(&id) {
                    Some(c) => {
                        out.push(c.duplicate());
                        assert(out@.map_values(|c: Channel| c.id) =~= prev + seq![id]);
                        proof {
                            Seq::<u128>::lemma_to_set_insert_commutes(prev, id);
                        }
                    },
                    None => {},
                }
            }
            i += 1;
        }
        assert(self.channel_order@.take(self.channel_order.len() as int) =~= self.channel_order@);
        out
    }

    /// What the UI is sent when the state changes.
    pub fn to_payload(&self) -> (r: AppStatePayload)
        requires
            self.wf(),
        ensures
            r.channels@.map_values(|c: Channel| c.id) == crate::seqs::first_occurrences(
                self.channel_order@,
                self.channels@.dom(),
                Set::empty(),
            ),
            forall|i: int| 0 <= i < r.channels@.len() ==> same_channel(
                self.channels@[r.channels@[i].id],
                #[trigger] r.channels@[i],
            ),
            r.buses@.len() == self.buses@.len(),
            forall|i: int| 0 <= i < r.buses@.len() ==> self.buses@.contains_key(#[trigger] r.buses@[i].id)
                && self.buses@[r.buses@[i].id] == r.buses@[i],
            forall|b: u128| #[trigger] self.buses@.contains_key(b) ==> r.buses@.contains(self.buses@[b]),
    {
        AppStatePayload { channels: self.ordered_channels(), buses: self.bus_list() }
    }

    /// The buses, each once, in no particular order.
    fn bus_list(&self) -> (r: Vec<Bus>)
        requires
            self.wf(),
        ensures
            r@.len() == self.buses@.len(),
            forall|i: int| 0 <= i < r@.len() ==> self.buses@.contains_key(#[trigger] r@[i].id)
                && self.buses@[r@[i].id] == r@[i],
            forall|b: u128| #[trigger] self.buses@.contains_key(b) ==> r@.contains(self.buses@[b]),
    {
        let keys = keys_u128(&self.buses);
        let mut out: Vec<Bus> = Vec::new();
        let mut i: usize = 0;
        while i < keys.len()
            invariant
                i <= keys.len(),
                self.wf(),
                keys@.to_set() == self.buses@.dom(),
                out@.len() == i,
                forall|j: int| 0 <= j < i ==> out@[j] == self.buses@[keys@[j]] && self.buses@.contains_key(keys@[j]),
            decreases keys.len() - i,
        {
            let k = keys[i];
            assert(keys@.to_set().contains(k)) by {
                assert(keys@[i as int] == k);
            }
            match self.buses.get(&k) {
                Some(b) => {
                    out.push(b.duplicate());
                },
                None => {},
            }
            i += 1;
        }
        proof {
            keys@.unique_seq_to_set();
            assert forall|b: u128| #[trigger] self.buses@.contains_key(b) implies out@.contains(self.buses@[b]) by {
                assert(keys@.to_set().contains(b));
                let j = choose|j: int| 0 <= j < keys@.len() && keys@[j] == b;
                assert(out@[j] == self.buses@[b]);
            }
        }
        out
    }

    /// What is written to the config file.
    pub fn to_save_payload(&self) -> (r: SavePayload)
        requires
            self.wf(),
        ensures
            r.channels@.dom() == self.channels@.dom(),
            forall|k: u128| #[trigger] r.channels@.contains_key(k) ==> same_settings(self.channels@[k], r.channels@[k]),
            r.buses@ == self.buses@,
            r.channel_order@ == self.channel_order@,
    {
        let keys = keys_u128(&self.channels);
        let mut channels: HashMap<u128, Channel> = HashMap::new();
        let mut i: usize = 0;
        while i < keys.len()
            invariant
                i <= keys.len(),
                keys@.to_set() == self.channels@.dom(),
                channels@.dom() == keys@.take(i as int).to_set(),
                forall|k: u128| #[trigger] channels@.contains_key(k) ==> same_settings(self.channels@[k], channels@[k]),
            decreases keys.len() - i,
        {
            let k = keys[i];
            assert(keys@.to_set().contains(k)) by {
                assert(keys@[i as int] == k);
            }
            assert(keys@.take(i as int + 1) =~= keys@.take(i as int) + seq![k]);
            proof {
                Seq::<u128>::lemma_to_set_insert_commutes(keys@.take(i as int), k);
            }
            match self.channels.get(&k) {
                Some(c) => {
                    channels.insert(k, c.duplicate());
                },
                None => {},
            }
            i += 1;
        }
        assert(keys@.take(keys.len() as int) =~= keys@);
        let bkeys = keys_u128(&self.buses);
        let mut buses: HashMap<u128, Bus> = HashMap::new();
        let mut j: usize = 0;
        while j < bkeys.len()
            invariant
                j <= bkeys.len(),
                bkeys@.to_set() == self.buses@.dom(),
                buses@.dom() == bkeys@.take(j as int).to_set(),
                forall|k: u128| #[trigger] buses@.contains_key(k) ==> buses@[k] == self.buses@[k],
            decreases bkeys.len() - j,
        {
            let k = bkeys[j];
            assert(bkeys@.to_set().contains(k)) by {
                assert(bkeys@[j as int] == k);
            }
            assert(bkeys@.take(j as int + 1) =~= bkeys@.take(j as int) + seq![k]);
            proof {
                Seq::<u128>::lemma_to_set_insert_commutes(bkeys@.take(j as int), k);
            }
            match self.buses.get(&k) {
                Some(b) => {
                    buses.insert(k, b.duplicate());
                },
                None => {},
            }
            j += 1;
        }
        assert(bkeys@.take(bkeys.len() as int) =~= bkeys@);
        assert(buses@ =~= self.buses@);
        SavePayload { channels, buses, channel_order: copy_ids(&self.channel_order) }
    }
}

/// Law: when every channel is listed in the order, the channels in order
/// (`ordered_channels`) hold every channel exactly once and nothing else.
pub proof fn law_ordered_channels_each_once(order: Seq<u128>, channels: Set<u128>)
    requires
        forall|k: u128| #[trigger] channels.contains(k) ==> order.contains(k),
    ensures
        crate::seqs::first_occurrences(order, channels, Set::empty()).no_duplicates(),
        forall|k: u128| #[trigger] crate::seqs::first_occurrences(order, channels, Set::empty()).contains(k)
            <==> channels.contains(k),
{
    crate::seqs::lemma_first_occurrences(order, channels, Set::empty());
}

/// The order that `reorder_channels` gives for the requested order
/// `requested` over the channels `channels`, the order having been
/// `previous`: the requested channels first, each once, then the others in
/// their previous order.
pub open spec fn reordered(requested: Seq<u128>, previous: Seq<u128>, channels: Set<u128>) -> Seq<u128> {
    let a = crate::seqs::first_occurrences(requested, channels, Set::empty());
    a + crate::seqs::first_occurrences(previous, channels, a.to_set())
}

/// Law: asking twice for the same order gives the order that asking once
/// gave (`reorder_channels` keeps the channels, so the second call reorders
/// the same ones).
pub proof fn law_reorder_twice_is_reorder_once(requested: Seq<u128>, previous: Seq<u128>, channels: Set<u128>)
    ensures
        reordered(requested, reordered(requested, previous, channels), channels) == reordered(requested, previous, channels),
{
    let a = crate::seqs::first_occurrences(requested, channels, Set::empty());
    let b = crate::seqs::first_occurrences(previous, channels, a.to_set());
    crate::seqs::lemma_first_occurrences(previous, channels, a.to_set());
    assert forall|i: int| 0 <= i < a.len() implies a.to_set().contains(#[trigger] a[i]) by {
        assert(a.contains(a[i]));
    }
    crate::seqs::lemma_first_occurrences_taken_prefix(a, b, channels, a.to_set());
    assert forall|i: int| 0 <= i < b.len() implies channels.contains(#[trigger] b[i]) && !a.to_set().contains(b[i]) by {
        assert(b.contains(b[i]));
    }
    crate::seqs::lemma_first_occurrences_fixed(b, channels, a.to_set());
}

/// Law: whatever order is requested, after `reorder_channels` the order
/// lists every channel exactly once and nothing else, the requested
/// channels first.
pub proof fn law_reorder_lists_each_channel_once(requested: Seq<u128>, previous: Seq<u128>, channels: Set<u128>)
    requires
        forall|k: u128| #[trigger] channels.contains(k) ==> previous.contains(k),
    ensures
        ({
            let a = crate::seqs::first_occurrences(requested, channels, Set::empty());
            let r = a + crate::seqs::first_occurrences(previous, channels, a.to_set());
            &&& r.no_duplicates()
            &&& forall|k: u128| #[trigger] r.contains(k) <==> channels.contains(k)
            &&& r.take(a.len() as int) == a
        }),
{
    let a = crate::seqs::first_occurrences(requested, channels, Set::empty());
    let b = crate::seqs::first_occurrences(previous, channels, a.to_set());
    crate::seqs::lemma_first_occurrences(requested, channels, Set::empty());
    crate::seqs::lemma_first_occurrences(previous, channels, a.to_set());
    let r = a + b;
    assert forall|k: u128| #[trigger] r.contains(k) <==> (a.contains(k) || b.contains(k)) by {
        if r.contains(k) {
            let w = choose|w: int| 0 <= w < r.len() && r[w] == k;
            if w < a.len() {
                assert(a[w] == k);
            } else {
                assert(b[w - a.len()] == k);
            }
        }
        if a.contains(k) {
            let w = choose|w: int| 0 <= w < a.len() && a[w] == k;
            assert(r[w] == k);
        }
        if b.contains(k) {
            let w = choose|w: int| 0 <= w < b.len() && b[w] == k;
            assert(r[w + a.len()] == k);
        }
    }
    assert forall|k: u128| #[trigger] r.contains(k) <==> channels.contains(k) by {
        if channels.contains(k) && !a.contains(k) {
            assert(!a.to_set().contains(k));
            assert(b.contains(k));
        }
    }
    assert(r.no_duplicates()) by {
        assert forall|i: int, j: int| 0 <= i < r.len() && 0 <= j < r.len() && i != j implies r[i] != r[j] by {
            if i < a.len() && j >= a.len() {
                assert(a.contains(r[i]));
                assert(b.contains(r[j]));
                assert(a.to_set().contains(r[i]));
            } else if j < a.len() && i >= a.len() {
                assert(a.contains(r[j]));
                assert(b.contains(r[i]));
                assert(a.to_set().contains(r[j]));
            } else if i < a.len() {
                assert(a[i] != a[j]);
            } else {
                assert(b[i - a.len()] != b[j - a.len()]);
            }
        }
    }
    assert(r.take(a.len() as int) =~= a);
}

} // verus!
