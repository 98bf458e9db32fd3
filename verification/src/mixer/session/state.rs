//! The mixer's state without a backend: channels, buses and the order of
//! the channels, as saved and as shown.
use std::collections::HashMap;
use vstd::prelude::*;

use super::bus::Bus;
use super::channels::{copy_sends, Channel, Send};
use super::config::Config;
use super::engine::{keys_u128, same_channel, AppStatePayload};
use crate::mixer::audio::sink::Sink;
use crate::strings::to_owned;

verus! {

broadcast use vstd::std_specs::hash::group_hash_axioms;

/// The ids of `order` that name a channel of `dom`, in order, repeats kept.
pub open spec fn listed_ids(order: Seq<u128>, dom: Set<u128>) -> Seq<u128>
    decreases order.len(),
{
    if order.len() == 0 {
        Seq::empty()
    } else {
        let r = listed_ids(order.drop_last(), dom);
        if dom.contains(order.last()) {
            r.push(order.last())
        } else {
            r
        }
    }
}

/// The channels, buses, default sends and channel order of the mixer.
#[derive(Debug, Clone)]
pub struct AppState {
    pub channels: HashMap<u128, Channel>,
    pub buses: HashMap<u128, Bus>,
    pub default_sends: Vec<Send>,
    pub channel_order: Vec<u128>,
}

/// A sink with no live node.
fn no_sink() -> (r: Sink)
    ensures
        r.external_id == 0,
{
    Sink::new(0)
}

impl AppState {
    /// The initial state: a monitor and a stream bus, one default send into
    /// each, and a microphone channel with those sends. Nothing is live yet.
    pub fn default() -> (r: AppState)
        ensures
            r.default_sends@.len() == 2,
            r.buses@.dom() == set![r.default_sends@[0].bus_id, r.default_sends@[1].bus_id],
            forall|i: int| 0 <= i < 2 ==> {
                let s = #[trigger] r.default_sends@[i];
                &&& r.buses@[s.bus_id].volume == s.volume
                &&& r.buses@[s.bus_id].muted == s.muted
                &&& r.buses@[s.bus_id].sink.external_id == 0
                &&& r.buses@[s.bus_id].id == s.bus_id
            },
            r.buses@[r.default_sends@[1].bus_id].name@ == "stream"@,
            r.default_sends@[0].bus_id != r.default_sends@[1].bus_id
                ==> r.buses@[r.default_sends@[0].bus_id].name@ == "monitor"@,
            r.channel_order@.len() == 1,
            r.channels@.dom() == set![r.channel_order@[0]],
            r.channels@[r.channel_order@[0]].id == r.channel_order@[0],
            r.channels@[r.channel_order@[0]].name@ == "mic"@,
            r.channels@[r.channel_order@[0]].sends@ == r.default_sends@,
    {
        let monitor_bus = Bus::new(to_owned("monitor"), no_sink());
        let stream_bus = Bus::new(to_owned("stream"), no_sink());
        let mut default_sends: Vec<Send> = Vec::new();
        default_sends.push(Send::new(monitor_bus.id, monitor_bus.volume, monitor_bus.muted));
        default_sends.push(Send::new(stream_bus.id, stream_bus.volume, stream_bus.muted));
        let mic = Channel::new(to_owned("mic"), copy_sends(&default_sends), no_sink());
        let mic_id = mic.id;
        let mut channels: HashMap<u128, Channel> = HashMap::new();
        channels.insert(mic_id, mic);
        let mut buses: HashMap<u128, Bus> = HashMap::new();
        buses.insert(monitor_bus.id, monitor_bus);
        buses.insert(stream_bus.id, stream_bus);
        let mut channel_order: Vec<u128> = Vec::new();
        channel_order.push(mic_id);
        let r = AppState { channels, buses, default_sends, channel_order };
        assert(r.buses@.dom() =~= set![r.default_sends@[0].bus_id, r.default_sends@[1].bus_id]);
        assert(r.channels@.dom() =~= set![r.channel_order@[0]]);
        r
    }

    /// Restores the state from a saved configuration: the saved buses
    /// under their ids, one default send per bus carrying its level, the
    /// channels in the saved order (each id of the order that names a saved
    /// channel, repeats kept), then every saved channel the order missed;
    /// a microphone channel with the default sends only when no channel was
    /// saved. Nothing is live.
    pub fn from_config(config: Config) -> (r: AppState)
        ensures
            forall|k: u128| #[trigger] config.buses@.contains_key(k) ==> r.buses@.contains_key(config.buses@[k].id),
            forall|b: u128| #[trigger] r.buses@.contains_key(b) ==> r.buses@[b].id == b && exists|k: u128| {
                &&& #[trigger] config.buses@.contains_key(k)
                &&& config.buses@[k] == r.buses@[b]
            },
            r.default_sends@.len() == r.buses@.len(),
            forall|i: int, j: int| 0 <= i < j < r.default_sends@.len()
                ==> #[trigger] r.default_sends@[i].bus_id != #[trigger] r.default_sends@[j].bus_id,
            forall|i: int| 0 <= i < r.default_sends@.len() ==> {
                let s = #[trigger] r.default_sends@[i];
                &&& r.buses@.contains_key(s.bus_id)
                &&& s.volume == r.buses@[s.bus_id].volume
                &&& s.muted == r.buses@[s.bus_id].muted
            },
            // The channels, when the saved channels are keyed by their ids.
            (forall|k: u128| #[trigger] config.channels@.contains_key(k) ==> config.channels@[k].id == k) ==> {
                let q = listed_ids(config.channel_order@, config.channels@.dom());
                let rest = r.channel_order@.skip(q.len() as int);
                &&& config.channels@.dom() != Set::<u128>::empty() ==> {
                    &&& r.channels@.dom() == config.channels@.dom()
                    &&& forall|c: u128| #[trigger] r.channels@.contains_key(c) ==> same_channel(config.channels@[c], r.channels@[c])
                    &&& q.len() <= r.channel_order@.len()
                    &&& r.channel_order@.take(q.len() as int) == q
                    &&& rest.no_duplicates()
                    &&& rest.to_set() == config.channels@.dom().difference(q.to_set())
                }
                &&& config.channels@.dom() == Set::<u128>::empty() ==> {
                    &&& r.channel_order@.len() == 1
                    &&& r.channels@.dom() == set![r.channel_order@[0]]
                    &&& r.channels@[r.channel_order@[0]].name@ == "mic"@
                    &&& r.channels@[r.channel_order@[0]].sends@ == r.default_sends@
                }
            },
    {
        let saved_buses = config.buses;
        let bus_keys = keys_u128(&saved_buses);
        let mut buses: HashMap<u128, Bus> = HashMap::new();
        let mut i: usize = 0;
        while i < bus_keys.len()
            invariant
                i <= bus_keys.len(),
                saved_buses@ == config.buses@,
                bus_keys@.to_set() == saved_buses@.dom(),
                forall|j: int| 0 <= j < i ==> buses@.contains_key(saved_buses@[#[trigger] bus_keys@[j]].id),
                forall|b: u128| #[trigger] buses@.contains_key(b) ==> buses@[b].id == b && exists|k: u128| {
                    &&& #[trigger] saved_buses@.contains_key(k)
                    &&& saved_buses@[k] == buses@[b]
                },
            decreases bus_keys.len() - i,
        {
            let k = bus_keys[i];
            assert(saved_buses@.contains_key(k)) by {
                assert(bus_keys@.to_set().contains(k)) by {
                    assert(bus_keys@[i as int] == k);
                }
            }
            let ghost before = buses@;
            match saved_buses.get(&k) {
                Some(bus) => {
                    let b = bus.duplicate();
                    let bid = b.id;
                    buses.insert(bid, b);
                    assert forall|bb: u128| #[trigger] buses@.contains_key(bb) implies buses@[bb].id == bb && exists|kk: u128| {
                        &&& #[trigger] saved_buses@.contains_key(kk)
                        &&& saved_buses@[kk] == buses@[bb]
                    } by {
                        if bb != bid {
                            assert(before.contains_key(bb));
                        } else {
                            assert(saved_buses@[k] == buses@[bb]);
                        }
                    }
                    assert forall|j: int| 0 <= j < i + 1 implies buses@.contains_key(saved_buses@[#[trigger] bus_keys@[j]].id) by {
                        if j < i {
                            assert(before.contains_key(saved_buses@[bus_keys@[j]].id));
                        }
                    }
                },
                None => {},
            }
            i += 1;
        }
        proof {
            assert forall|kk: u128| #[trigger] config.buses@.contains_key(kk) implies buses@.contains_key(config.buses@[kk].id) by {
                assert(bus_keys@.to_set().contains(kk));
                let j = choose|j: int| 0 <= j < bus_keys@.len() && bus_keys@[j] == kk;
                assert(buses@.contains_key(saved_buses@[bus_keys@[j]].id));
            }
        }

        // One default send per bus.
        let live_keys = keys_u128(&buses);
        let mut default_sends: Vec<Send> = Vec::new();
        let mut j: usize = 0;
        while j < live_keys.len()
            invariant
                j <= live_keys.len(),
                live_keys@.to_set() == buses@.dom(),
                live_keys@.no_duplicates(),
                forall|b: u128| #[trigger] buses@.contains_key(b) ==> buses@[b].id == b,
                default_sends@.len() == j,
                forall|x: int| 0 <= x < j ==> (#[trigger] default_sends@[x]).bus_id == live_keys@[x],
                forall|x: int| 0 <= x < j ==> {
                    let s = #[trigger] default_sends@[x];
                    &&& buses@.contains_key(s.bus_id)
                    &&& s.volume == buses@[s.bus_id].volume
                    &&& s.muted == buses@[s.bus_id].muted
                },
            decreases live_keys.len() - j,
        {
            let k = live_keys[j];
            assert(live_keys@.to_set().contains(k)) by {
                assert(live_keys@[j as int] == k);
            }
            match buses.get(&k) {
                Some(b) => {
                    default_sends.push(Send::new(b.id, b.volume, b.muted));
                },
                None => {},
            }
            j += 1;
        }
        proof {
            live_keys@.unique_seq_to_set();
        }

        // Channels in the saved order, then the ones the order missed.
        let saved_channels = config.channels;
        let ghost dom = saved_channels@.dom();
        let ghost keyed = forall|k: u128| #[trigger] saved_channels@.contains_key(k) ==> saved_channels@[k].id == k;
        let mut channels: HashMap<u128, Channel> = HashMap::new();
        let mut channel_order: Vec<u128> = Vec::new();
        let mut x: usize = 0;
        while x < config.channel_order.len()
            invariant
                x <= config.channel_order.len(),
                saved_channels@ == config.channels@,
                dom == saved_channels@.dom(),
                keyed == forall|k: u128| #[trigger] saved_channels@.contains_key(k) ==> saved_channels@[k].id == k,
                channel_order@ == listed_ids(config.channel_order@.take(x as int), dom),
                keyed ==> forall|c: u128| #[trigger] channels@.contains_key(c) ==> dom.contains(c)
                    && same_channel(saved_channels@[c], channels@[c]),
                keyed ==> forall|w: int| 0 <= w < channel_order@.len() ==> channels@.contains_key(#[trigger] channel_order@[w]),
            decreases config.channel_order.len() - x,
        {
            let id = config.channel_order[x];
            let ghost prev = channel_order@;
            let ghost before = channels@;
            assert(config.channel_order@.take(x as int + 1).drop_last() =~= config.channel_order@.take(x as int));
            match saved_channels.get(&id) {
                Some(ch) => {
                    let copy = ch.duplicate();
                    channels.insert(ch.id, copy);
                    channel_order.push(id);
                    proof {
                        assert(channel_order@ == listed_ids(config.channel_order@.take(x as int + 1), dom));
                        if keyed {
                            assert forall|c: u128| #[trigger] channels@.contains_key(c) implies dom.contains(c)
                                && same_channel(saved_channels@[c], channels@[c]) by {
                                if c != id {
                                    assert(before.contains_key(c));
                                }
                            }
                            assert forall|w: int| 0 <= w < channel_order@.len() implies channels@.contains_key(#[trigger] channel_order@[w]) by {
                                if w < prev.len() {
                                    assert(before.contains_key(prev[w]));
                                }
                            }
                        }
                    }
                },
                None => {
                    assert(channel_order@ == listed_ids(config.channel_order@.take(x as int + 1), dom));
                },
            }
            x += 1;
        }
        assert(config.channel_order@.take(config.channel_order@.len() as int) =~= config.channel_order@);
        let ghost q = channel_order@;
        let saved_keys = keys_u128(&saved_channels);
        proof {
            assert(channel_order@.take(q.len() as int) =~= q);
            assert(channel_order@.skip(q.len() as int) =~= Seq::<u128>::empty());
        }
        let mut y: usize = 0;
        while y < saved_keys.len()
            invariant
                y <= saved_keys.len(),
                saved_channels@ == config.channels@,
                dom == saved_channels@.dom(),
                saved_keys@.to_set() == dom,
                keyed == forall|k: u128| #[trigger] saved_channels@.contains_key(k) ==> saved_channels@[k].id == k,
                q == listed_ids(config.channel_order@, dom),
                q.len() <= channel_order@.len(),
                channel_order@.take(q.len() as int) == q,
                channel_order@.skip(q.len() as int).no_duplicates(),
                keyed ==> forall|w: int| q.len() <= w < channel_order@.len() ==> dom.contains(#[trigger] channel_order@[w])
                    && !q.contains(channel_order@[w]),
                keyed ==> forall|z: int| 0 <= z < y ==> channel_order@.contains(#[trigger] saved_keys@[z]),
                keyed ==> forall|c: u128| #[trigger] channels@.contains_key(c) ==> dom.contains(c)
                    && same_channel(saved_channels@[c], channels@[c]),
                keyed ==> forall|w: int| 0 <= w < channel_order@.len() ==> channels@.contains_key(#[trigger] channel_order@[w]),
            decreases saved_keys.len() - y,
        {
            let k = saved_keys[y];
            assert(dom.contains(k)) by {
                assert(saved_keys@.to_set().contains(k)) by {
                    assert(saved_keys@[y as int] == k);
                }
            }
            let ghost prev = channel_order@;
            let ghost before = channels@;
            match saved_channels.get(&k) {
                Some(ch) => {
                    let cid = ch.id;
                    if !crate::seqs::contains_u128(&channel_order, cid) {
                        channel_order.push(cid);
                        let copy = ch.duplicate();
                        channels.insert(cid, copy);
                        proof {
                            assert(channel_order@.take(q.len() as int) =~= prev.take(q.len() as int));
                            assert(channel_order@.skip(q.len() as int) =~= prev.skip(q.len() as int).push(cid));
                            assert(channel_order@.skip(q.len() as int).no_duplicates()) by {
                                let rs = prev.skip(q.len() as int);
                                assert forall|a: int, b: int| 0 <= a < b < rs.push(cid).len() implies rs.push(cid)[a] != rs.push(cid)[b] by {
                                    if b == rs.len() {
                                        assert(prev[q.len() + a] == rs[a]);
                                    } else {
                                        assert(rs[a] != rs[b]);
                                    }
                                }
                            }
                            if keyed {
                                assert(cid == k);
                                assert(!q.contains(cid)) by {
                                    if q.contains(cid) {
                                        let w = choose|w: int| 0 <= w < q.len() && q[w] == cid;
                                        assert(prev[w] == cid);
                                    }
                                }
                                assert forall|w: int| q.len() <= w < channel_order@.len() implies dom.contains(#[trigger] channel_order@[w])
                                    && !q.contains(channel_order@[w]) by {
                                    if w < prev.len() {
                                        assert(channel_order@[w] == prev[w]);
                                    }
                                }
                                assert forall|z: int| 0 <= z < y + 1 implies channel_order@.contains(#[trigger] saved_keys@[z]) by {
                                    if z < y {
                                        let w = choose|w: int| 0 <= w < prev.len() && prev[w] == saved_keys@[z];
                                        assert(channel_order@[w] == saved_keys@[z]);
                                    } else {
                                        assert(channel_order@[prev.len() as int] == k);
                                    }
                                }
                                assert forall|c: u128| #[trigger] channels@.contains_key(c) implies dom.contains(c)
                                    && same_channel(saved_channels@[c], channels@[c]) by {
                                    if c != cid {
                                        assert(before.contains_key(c));
                                    }
                                }
                                assert forall|w: int| 0 <= w < channel_order@.len() implies channels@.contains_key(#[trigger] channel_order@[w]) by {
                                    if w < prev.len() {
                                        assert(before.contains_key(prev[w]));
                                    }
                                }
                            }
                        }
                    } else {
                        proof {
                            if keyed {
                                assert(cid == k);
                                assert forall|z: int| 0 <= z < y + 1 implies channel_order@.contains(#[trigger] saved_keys@[z]) by {
                                    if z == y {
                                        assert(channel_order@.contains(cid));
                                    }
                                }
                            }
                        }
                    }
                },
                None => {},
            }
            y += 1;
        }
        let ghost final_order = channel_order@;
        proof {
            if keyed {
                let rest = final_order.skip(q.len() as int);
                assert(rest.to_set() =~= dom.difference(q.to_set())) by {
                    assert forall|b: u128| rest.contains(b) implies dom.difference(q.to_set()).contains(b) by {
                        let w = choose|w: int| 0 <= w < rest.len() && rest[w] == b;
                        assert(final_order[q.len() + w] == b);
                    }
                    assert forall|b: u128| dom.difference(q.to_set()).contains(b) implies rest.contains(b) by {
                        assert(saved_keys@.to_set().contains(b));
                        let z = choose|z: int| 0 <= z < saved_keys@.len() && saved_keys@[z] == b;
                        assert(final_order.contains(saved_keys@[z]));
                        let w = choose|w: int| 0 <= w < final_order.len() && final_order[w] == b;
                        if w < q.len() {
                            assert(final_order.take(q.len() as int)[w] == b);
                            assert(q.contains(b));
                        } else {
                            assert(rest[w - q.len()] == b);
                        }
                    }
                }
                assert forall|c: u128| #[trigger] dom.contains(c) implies channels@.contains_key(c) by {
                    assert(saved_keys@.to_set().contains(c));
                    let z = choose|z: int| 0 <= z < saved_keys@.len() && saved_keys@[z] == c;
                    assert(final_order.contains(saved_keys@[z]));
                    let w = choose|w: int| 0 <= w < final_order.len() && final_order[w] == c;
                    assert(channels@.contains_key(final_order[w]));
                }
                assert(channels@.dom() =~= dom);
            }
        }
        if channels.len() == 0 {
            let mic = Channel::new(to_owned("mic"), copy_sends(&default_sends), no_sink());
            let mic_id = mic.id;
            proof {
                if keyed {
                    assert(dom =~= Set::<u128>::empty()) by {
                        assert forall|c: u128| !dom.contains(c) by {
                            if dom.contains(c) {
                                assert(channels@.contains_key(c));
                            }
                        }
                    }
                    assert(channels@.dom() =~= Set::<u128>::empty());
                    assert(q.len() == 0) by {
                        if q.len() > 0 {
                            assert(channels@.contains_key(final_order[0]));
                        }
                    }
                    assert(final_order.len() == 0) by {
                        if final_order.len() > 0 {
                            assert(channels@.contains_key(final_order[0]));
                        }
                    }
                }
            }
            channels.insert(mic_id, mic);
            channel_order.push(mic_id);
            proof {
                if keyed {
                    assert(channel_order@ =~= seq![mic_id]);
                    assert(channels@.dom() =~= set![mic_id]);
                }
            }
        } else {
            proof {
                if keyed {
                    assert(dom != Set::<u128>::empty()) by {
                        if dom == Set::<u128>::empty() {
                            assert(channels@.dom() == Set::<u128>::empty());
                            assert(channels@.dom().len() == 0);
                        }
                    }
                }
            }
        }
        AppState { channels, buses, default_sends, channel_order }
    }

    /// Stores a channel under its id and lists it last in the order, unless
    /// the order lists it already.
    pub fn add_channel(&mut self, channel: Channel)
        ensures
            final(self).channels@ == old(self).channels@.insert(channel.id, channel),
            final(self).channel_order@ == if old(self).channel_order@.contains(channel.id) {
                old(self).channel_order@
            } else {
                old(self).channel_order@.push(channel.id)
            },
            final(self).buses@ == old(self).buses@,
            final(self).default_sends@ == old(self).default_sends@,
    {
        let id = channel.id;
        self.channels.insert(id, channel);
        if !crate::seqs::contains_u128(&self.channel_order, id) {
            self.channel_order.push(id);
        }
    }

    /// The channels in their saved order: a copy of the channel for each id
    /// of the order that names one, repeats kept.
    pub fn ordered_channels(&self) -> (r: Vec<Channel>)
        ensures
            r@.len() == listed_ids(self.channel_order@, self.channels@.dom()).len(),
            forall|i: int| 0 <= i < r@.len() ==> same_channel(
                self.channels@[listed_ids(self.channel_order@, self.channels@.dom())[i]],
                #[trigger] r@[i],
            ),
    {
        let ghost dom = self.channels@.dom();
        let mut out: Vec<Channel> = Vec::new();
        let mut i: usize = 0;
        while i < self.channel_order.len()
            invariant
                i <= self.channel_order.len(),
                dom == self.channels@.dom(),
                out@.len() == listed_ids(self.channel_order@.take(i as int), dom).len(),
                forall|j: int| 0 <= j < out@.len() ==> same_channel(
                    self.channels@[listed_ids(self.channel_order@.take(i as int), dom)[j]],
                    #[trigger] out@[j],
                ),
            decreases self.channel_order.len() - i,
        {
            let id = self.channel_order[i];
            let ghost prev = listed_ids(self.channel_order@.take(i as int), dom);
            assert(self.channel_order@.take(i as int + 1).drop_last() =~= self.channel_order@.take(i as int));
            match self.channels.get(&id) {
                Some(c) => {
                    out.push(c.duplicate());
                    assert(listed_ids(self.channel_order@.take(i as int + 1), dom) == prev.push(id));
                    assert forall|j: int| 0 <= j < out@.len() implies same_channel(
                        self.channels@[listed_ids(self.channel_order@.take(i as int + 1), dom)[j]],
                        #[trigger] out@[j],
                    ) by {
                        if j < prev.len() {
                            assert(prev.push(id)[j] == prev[j]);
                        }
                    }
                },
                None => {
                    assert(listed_ids(self.channel_order@.take(i as int + 1), dom) == prev);
                },
            }
            i += 1;
        }
        assert(self.channel_order@.take(self.channel_order.len() as int) =~= self.channel_order@);
        out
    }

    /// The buses, each once, in no particular order.
    fn bus_list(&self) -> (r: Vec<Bus>)
        ensures
            r@.len() == self.buses@.len(),
            forall|i: int| 0 <= i < r@.len() ==> self.buses@.values().contains(#[trigger] r@[i]),
            forall|k: u128| #[trigger] self.buses@.contains_key(k) ==> r@.contains(self.buses@[k]),
    {
        let keys = keys_u128(&self.buses);
        let mut out: Vec<Bus> = Vec::new();
        let mut i: usize = 0;
        while i < keys.len()
            invariant
                i <= keys.len(),
                keys@.to_set() == self.buses@.dom(),
                out@.len() == i,
                forall|j: int| 0 <= j < i ==> out@[j] == self.buses@[keys@[j]] && self.buses@.contains_key(keys@[j]),
            decreases keys.len() - i,
        {
            let k = keys[i];
            assert(keys@.to_set().contains(k)) by {
                assert(keys@[i as int] == k);
            }
            match self.buses.get(&k) {
                Some(b) => {
                    out.push(b.duplicate());
                },
                None => {},
            }
            i += 1;
        }
        proof {
            keys@.unique_seq_to_set();
            assert forall|k: u128| #[trigger] self.buses@.contains_key(k) implies out@.contains(self.buses@[k]) by {
                assert(keys@.to_set().contains(k));
                let j = choose|j: int| 0 <= j < keys@.len() && keys@[j] == k;
                assert(out@[j] == self.buses@[k]);
            }
            assert forall|i: int| 0 <= i < out@.len() implies self.buses@.values().contains(#[trigger] out@[i]) by {
                let k = keys@[i];
                assert(self.buses@.contains_key(k) && self.buses@[k] == out@[i]);
            }
        }
        out
    }

    /// What the UI is sent: the channels in order and the buses.
    pub fn to_payload(&self) -> (r: AppStatePayload)
        ensures
            r.channels@.len() == listed_ids(self.channel_order@, self.channels@.dom()).len(),
            forall|i: int| 0 <= i < r.channels@.len() ==> same_channel(
                self.channels@[listed_ids(self.channel_order@, self.channels@.dom())[i]],
                #[trigger] r.channels@[i],
            ),
            r.buses@.len() == self.buses@.len(),
            forall|i: int| 0 <= i < r.buses@.len() ==> self.buses@.values().contains(#[trigger] r.buses@[i]),
            forall|k: u128| #[trigger] self.buses@.contains_key(k) ==> r.buses@.contains(self.buses@[k]),
    {
        AppStatePayload { channels: self.ordered_channels(), buses: self.bus_list() }
    }
}

} // verus!
