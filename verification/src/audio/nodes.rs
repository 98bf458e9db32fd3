//! Tracks the nodes and ports discovered on the audio graph.
use std::collections::HashMap;
use vstd::prelude::*;
use vstd::std_specs::iter::IteratorSpec;

use super::events::{AudioEvent, NodeInfo, NodeType, PortDirection, PortInfo};
use crate::seqs::{seq_without, vec_without};
use crate::strings::to_owned;

verus! {

broadcast use vstd::std_specs::hash::group_hash_axioms;

/// The abstract state of a node manager.
pub struct NodeGraph {
    /// Nodes by id.
    pub nodes: Map<u32, NodeInfo>,
    /// Ports by id.
    pub ports: Map<u32, PortInfo>,
    /// For each node that has an entry, the ids of its ports in the order
    /// they were announced.
    pub node_ports: Map<u32, Seq<u32>>,
}

/// The ports of a node with `ids`, in order, skipping ids with no port.
pub open spec fn ports_of(ids: Seq<u32>, ports: Map<u32, PortInfo>) -> Seq<PortInfo>
    decreases ids.len(),
{
    if ids.len() == 0 {
        Seq::empty()
    } else {
        let rest = ports_of(ids.drop_last(), ports);
        if ports.contains_key(ids.last()) {
            rest.push(ports[ids.last()])
        } else {
            rest
        }
    }
}

/// The ports of `ps` that have direction `d`, in order.
pub open spec fn with_direction(ps: Seq<PortInfo>, d: PortDirection) -> Seq<PortInfo>
    decreases ps.len(),
{
    if ps.len() == 0 {
        Seq::empty()
    } else {
        let rest = with_direction(ps.drop_last(), d);
        if ps.last().direction == d {
            rest.push(ps.last())
        } else {
            rest
        }
    }
}

/// The port ids of node `id`, empty when it has no entry.
pub open spec fn port_ids(g: NodeGraph, id: u32) -> Seq<u32> {
    if g.node_ports.contains_key(id) {
        g.node_ports[id]
    } else {
        Seq::empty()
    }
}

/// The state after the manager has handled `e`.
pub open spec fn after_event(g: NodeGraph, e: AudioEvent) -> NodeGraph {
    match e {
        AudioEvent::NodeAdded(info) => NodeGraph {
            nodes: g.nodes.insert(info.id, info),
            ports: g.ports,
            node_ports: if g.node_ports.contains_key(info.id) {
                g.node_ports
            } else {
                g.node_ports.insert(info.id, Seq::empty())
            },
        },
        AudioEvent::NodeRemoved { id } => NodeGraph {
            nodes: g.nodes.remove(id),
            ports: if g.node_ports.contains_key(id) {
                g.ports.remove_keys(g.node_ports[id].to_set())
            } else {
                g.ports
            },
            node_ports: g.node_ports.remove(id),
        },
        AudioEvent::NodeChanged(info) => NodeGraph {
            nodes: g.nodes.insert(info.id, info),
            ports: g.ports,
            node_ports: g.node_ports,
        },
        AudioEvent::PortAdded(info) => NodeGraph {
            nodes: g.nodes,
            ports: g.ports.insert(info.id, info),
            node_ports: g.node_ports.insert(info.node_id, port_ids(g, info.node_id).push(info.id)),
        },
        AudioEvent::PortRemoved { id, node_id } => NodeGraph {
            nodes: g.nodes,
            ports: g.ports.remove(id),
            node_ports: if g.node_ports.contains_key(node_id) {
                g.node_ports.insert(node_id, seq_without(g.node_ports[node_id], id))
            } else {
                g.node_ports
            },
        },
        _ => g,
    }
}

/// The name shown for a node: its application name, else its description,
/// else its node name.
pub open spec fn display_name_of(n: NodeInfo) -> Seq<char> {
    match n.application_name {
        Some(a) => a@,
        None => match n.description {
            Some(d) => d@,
            None => n.name@,
        },
    }
}

/// Tracks the nodes and ports of the audio graph.
#[derive(Debug)]
pub struct NodeManager {
    nodes: HashMap<u32, NodeInfo>,
    ports: HashMap<u32, PortInfo>,
    node_ports: HashMap<u32, Vec<u32>>,
}

impl View for NodeManager {
    type V = NodeGraph;

    closed spec fn view(&self) -> NodeGraph {
        NodeGraph {
            nodes: self.nodes@,
            ports: self.ports@,
            node_ports: self.node_ports@.map_values(|v: Vec<u32>| v@),
        }
    }
}

impl NodeManager {
    /// Every node and every port is stored under its own id.
    pub open spec fn wf(&self) -> bool {
        &&& forall|k: u32| #[trigger] self@.nodes.contains_key(k) ==> self@.nodes[k].id == k
        &&& forall|k: u32| #[trigger] self@.ports.contains_key(k) ==> self@.ports[k].id == k
    }

    pub fn new() -> (r: NodeManager)
        ensures
            r.wf(),
            r@.nodes == Map::<u32, NodeInfo>::empty(),
            r@.ports == Map::<u32, PortInfo>::empty(),
            r@.node_ports == Map::<u32, Seq<u32>>::empty(),
    {
        let r = NodeManager { nodes: HashMap::new(), ports: HashMap::new(), node_ports: HashMap::new() };
        assert(r@.node_ports =~= Map::<u32, Seq<u32>>::empty());
        r
    }

    /// Updates the state with one event.
    pub fn handle_event(&mut self, event: &AudioEvent)
        requires
            old(self).wf(),
        ensures
            final(self).wf(),
            final(self)@ == after_event(old(self)@, *event),
    {
        let ghost g = self@;
        match event {
            AudioEvent::NodeAdded(info) => {
                self.nodes.insert(info.id, info.duplicate());
                if !self.node_ports.contains_key(&info.id) {
                    self.node_ports.insert(info.id, Vec::new());
                }
                assert(self@.node_ports =~= after_event(g, *event).node_ports);
            },
            AudioEvent::NodeRemoved { id } => {
                self.nodes.remove(id);
                let ghost nodes_after = self.nodes@;
                let ghost raw_ports = self.node_ports@;
                match self.node_ports.remove(id) {
                    Some(port_ids) => {
                        let ghost ids = port_ids@;
                        let mut i: usize = 0;
                        while i < port_ids.len()
                            invariant
                                i <= port_ids.len(),
                                ids == port_ids@,
                                self.ports@ == g.ports.remove_keys(ids.take(i as int).to_set()),
                                self.nodes@ == nodes_after,
                                self.node_ports@ == raw_ports.remove(*id),
                                forall|k: u32| #[trigger] g.ports.contains_key(k) ==> g.ports[k].id == k,
                            decreases port_ids.len() - i,
                        {
                            let p = port_ids[i];
                            self.ports.remove(&p);
                            assert(g.ports.remove_keys(ids.take(i as int + 1).to_set()) =~= g.ports.remove_keys(
                                ids.take(i as int).to_set(),
                            ).remove(p)) by {
                                assert(ids.take(i as int + 1) =~= ids.take(i as int) + seq![p]);
                                Seq::<u32>::lemma_to_set_insert_commutes(ids.take(i as int), p);
                            }
                            i += 1;
                        }
                        assert(ids.take(ids.len() as int) =~= ids);
                    },
                    None => {},
                }
                assert(self@.node_ports =~= after_event(g, *event).node_ports);
            },
            AudioEvent::NodeChanged(info) => {
                self.nodes.insert(info.id, info.duplicate());
            },
            AudioEvent::PortAdded(info) => {
                self.ports.insert(info.id, info.duplicate());
                let mut ids = match self.node_ports.remove(&info.node_id) {
                    Some(v) => v,
                    None => Vec::new(),
                };
                ids.push(info.id);
                self.node_ports.insert(info.node_id, ids);
                assert(self@.node_ports =~= after_event(g, *event).node_ports);
            },
            AudioEvent::PortRemoved { id, node_id } => {
                self.ports.remove(id);
                match self.node_ports.remove(node_id) {
                    Some(ids) => {
                        let kept = vec_without(&ids, *id);
                        self.node_ports.insert(*node_id, kept);
                    },
                    None => {},
                }
                assert(self@.node_ports =~= after_event(g, *event).node_ports);
            },
            _ => {},
        }
    }

    /// The nodes of type `t`, each once, in no particular order.
    fn nodes_of_type(&self, t: NodeType) -> (r: Vec<&NodeInfo>)
        requires
            self.wf(),
        ensures
            forall|i: int| 0 <= i < r.len() ==> self@.nodes.contains_key(#[trigger] r[i].id),
            forall|i: int| 0 <= i < r.len() ==> self@.nodes[r[i].id] == *#[trigger] r[i],
            forall|i: int| 0 <= i < r.len() ==> (#[trigger] r[i]).node_type == t,
            forall|k: u32| #[trigger] self@.nodes.contains_key(k) && self@.nodes[k].node_type == t
                ==> exists|i: int| 0 <= i < r.len() && r[i].id == k,
            forall|i: int, j: int| 0 <= i < j < r.len() ==> r[i].id != r[j].id,
    {
        let mut out: Vec<&NodeInfo> = Vec::new();
        let ghost keys = vstd::std_specs::hash::spec_keys_iter(&self.nodes).remaining();
        let ghost mut from: Seq<int> = Seq::empty();
        let ghost mut at: Map<u32, int> = Map::empty();
        for k in it: self.nodes.keys()
            invariant
                self.wf(),
                it.seq() == keys,
                keys.no_duplicates(),
                keys.unref().to_set() == self@.nodes.dom(),
                from.len() == out.len(),
                forall|i: int| 0 <= i < out.len() ==> self@.nodes.contains_key(#[trigger] out[i].id),
                forall|i: int| 0 <= i < out.len() ==> self@.nodes[out[i].id] == *#[trigger] out[i],
                forall|i: int| 0 <= i < out.len() ==> (#[trigger] out[i]).node_type == t,
                forall|i: int| 0 <= i < out.len() ==> 0 <= #[trigger] from[i] < it.index(),
                forall|i: int| 0 <= i < out.len() ==> *keys[from[i]] == (#[trigger] out[i]).id,
                forall|j: int| 0 <= j < it.index() && self@.nodes[*#[trigger] keys[j]].node_type == t
                    ==> at.contains_key(*keys[j]),
                forall|k: u32| #[trigger] at.contains_key(k) ==> 0 <= at[k] < out.len() && out[at[k]].id == k,
                forall|i: int, j: int| 0 <= i < j < out.len() ==> out[i].id != out[j].id,
        {
            let ghost idx = it.index();
            assert(*k == *keys[idx]);
            assert(keys.unref()[idx] == *k);
            assert(self@.nodes.contains_key(*k));
            match self.nodes.get(k) {
                Some(n) => {
                    if n.node_type == t {
                        proof {
                            assert forall|i: int| 0 <= i < out.len() implies out[i].id != n.id by {
                                assert(*keys[from[i]] == out[i].id);
                                assert(from[i] < idx);
                            }
                            from = from.push(idx);
                            at = at.insert(*k, out.len() as int);
                        }
                        out.push(n);
                        assert(*keys[from[out.len() - 1]] == out[out.len() - 1].id);
                    }
                },
                None => {},
            }
        }
        proof {
            assert forall|k: u32| #[trigger] self@.nodes.contains_key(k) && self@.nodes[k].node_type == t
                implies exists|i: int| 0 <= i < out.len() && out[i].id == k by {
                assert(keys.unref().to_set().contains(k));
                let j = choose|j: int| 0 <= j < keys.len() && keys.unref()[j] == k;
                assert(*keys[j] == k);
                assert(out[at[k]].id == k);
            }
        }
        out
    }

    /// Applications that play audio.
    pub fn get_playback_applications(&self) -> (r: Vec<&NodeInfo>)
        requires
            self.wf(),
        ensures
            forall|i: int| 0 <= i < r.len() ==> self@.nodes.contains_key(#[trigger] r[i].id),
            forall|i: int| 0 <= i < r.len() ==> self@.nodes[r[i].id] == *#[trigger] r[i],
            forall|i: int| 0 <= i < r.len() ==> (#[trigger] r[i]).node_type == NodeType::ApplicationOutput,
            forall|k: u32| #[trigger] self@.nodes.contains_key(k) && self@.nodes[k].node_type == NodeType::ApplicationOutput
                ==> exists|i: int| 0 <= i < r.len() && r[i].id == k,
            forall|i: int, j: int| 0 <= i < j < r.len() ==> r[i].id != r[j].id,
    {
        self.nodes_of_type(NodeType::ApplicationOutput)
    }

    /// Applications that record audio.
    pub fn get_recording_applications(&self) -> (r: Vec<&NodeInfo>)
        requires
            self.wf(),
        ensures
            forall|i: int| 0 <= i < r.len() ==> self@.nodes.contains_key(#[trigger] r[i].id),
            forall|i: int| 0 <= i < r.len() ==> self@.nodes[r[i].id] == *#[trigger] r[i],
            forall|i: int| 0 <= i < r.len() ==> (#[trigger] r[i]).node_type == NodeType::ApplicationInput,
            forall|k: u32| #[trigger] self@.nodes.contains_key(k) && self@.nodes[k].node_type == NodeType::ApplicationInput
                ==> exists|i: int| 0 <= i < r.len() && r[i].id == k,
            forall|i: int, j: int| 0 <= i < j < r.len() ==> r[i].id != r[j].id,
    {
        self.nodes_of_type(NodeType::ApplicationInput)
    }

    /// Output devices (speakers, headphones).
    pub fn get_output_devices(&self) -> (r: Vec<&NodeInfo>)
        requires
            self.wf(),
        ensures
            forall|i: int| 0 <= i < r.len() ==> self@.nodes.contains_key(#[trigger] r[i].id),
            forall|i: int| 0 <= i < r.len() ==> self@.nodes[r[i].id] == *#[trigger] r[i],
            forall|i: int| 0 <= i < r.len() ==> (#[trigger] r[i]).node_type == NodeType::SinkDevice,
            forall|k: u32| #[trigger] self@.nodes.contains_key(k) && self@.nodes[k].node_type == NodeType::SinkDevice
                ==> exists|i: int| 0 <= i < r.len() && r[i].id == k,
            forall|i: int, j: int| 0 <= i < j < r.len() ==> r[i].id != r[j].id,
    {
        self.nodes_of_type(NodeType::SinkDevice)
    }

    /// Input devices (microphones).
    pub fn get_input_devices(&self) -> (r: Vec<&NodeInfo>)
        requires
            self.wf(),
        ensures
            forall|i: int| 0 <= i < r.len() ==> self@.nodes.contains_key(#[trigger] r[i].id),
            forall|i: int| 0 <= i < r.len() ==> self@.nodes[r[i].id] == *#[trigger] r[i],
            forall|i: int| 0 <= i < r.len() ==> (#[trigger] r[i]).node_type == NodeType::SourceDevice,
            forall|k: u32| #[trigger] self@.nodes.contains_key(k) && self@.nodes[k].node_type == NodeType::SourceDevice
                ==> exists|i: int| 0 <= i < r.len() && r[i].id == k,
            forall|i: int, j: int| 0 <= i < j < r.len() ==> r[i].id != r[j].id,
    {
        self.nodes_of_type(NodeType::SourceDevice)
    }

    /// The ports of a node, in the order they were announced.
    pub fn get_node_ports(&self, node_id: u32) -> (r: Vec<&PortInfo>)
        ensures
            r@.map_values(|p: &PortInfo| *p) == ports_of(port_ids(self@, node_id), self@.ports),
    {
        let mut out: Vec<&PortInfo> = Vec::new();
        match self.node_ports.get(&node_id) {
            Some(ids) => {
                assert(ids@ == port_ids(self@, node_id));
                let mut i: usize = 0;
                while i < ids.len()
                    invariant
                        i <= ids.len(),
                        ids@ == port_ids(self@, node_id),
                        out@.map_values(|p: &PortInfo| *p) == ports_of(ids@.take(i as int), self@.ports),
                    decreases ids.len() - i,
                {
                    assert(ids@.take(i as int + 1).drop_last() == ids@.take(i as int));
                    match self.ports.get(&ids[i]) {
                        Some(p) => {
                            out.push(p);
                        },
                        None => {},
                    }
                    assert(out@.map_values(|p: &PortInfo| *p) =~= ports_of(ids@.take(i as int + 1), self@.ports));
                    i += 1;
                }
                assert(ids@.take(ids.len() as int) == ids@);
            },
            None => {
                assert(out@.map_values(|p: &PortInfo| *p) =~= Seq::<PortInfo>::empty());
            },
        }
        out
    }

    fn ports_in_direction(&self, node_id: u32, d: PortDirection) -> (r: Vec<&PortInfo>)
        ensures
            r@.map_values(|p: &PortInfo| *p) == with_direction(ports_of(port_ids(self@, node_id), self@.ports), d),
    {
        let all = self.get_node_ports(node_id);
        let ghost ps = all@.map_values(|p: &PortInfo| *p);
        let mut out: Vec<&PortInfo> = Vec::new();
        let mut i: usize = 0;
        while i < all.len()
            invariant
                i <= all.len(),
                ps == all@.map_values(|p: &PortInfo| *p),
                out@.map_values(|p: &PortInfo| *p) == with_direction(ps.take(i as int), d),
            decreases all.len() - i,
        {
            assert(ps.take(i as int + 1).drop_last() == ps.take(i as int));
            assert(ps.take(i as int + 1).last() == *all[i as int]);
            if all[i].direction == d {
                out.push(all[i]);
            }
            assert(out@.map_values(|p: &PortInfo| *p) =~= with_direction(ps.take(i as int + 1), d));
            i += 1;
        }
        assert(ps.take(all.len() as int) == ps);
        out
    }

    /// The output ports of a node, in the order they were announced.
    pub fn get_output_ports(&self, node_id: u32) -> (r: Vec<&PortInfo>)
        ensures
            r@.map_values(|p: &PortInfo| *p) == with_direction(
                ports_of(port_ids(self@, node_id), self@.ports),
                PortDirection::Output,
            ),
    {
        self.ports_in_direction(node_id, PortDirection::Output)
    }

    /// The input ports of a node, in the order they were announced.
    pub fn get_input_ports(&self, node_id: u32) -> (r: Vec<&PortInfo>)
        ensures
            r@.map_values(|p: &PortInfo| *p) == with_direction(
                ports_of(port_ids(self@, node_id), self@.ports),
                PortDirection::Input,
            ),
    {
        self.ports_in_direction(node_id, PortDirection::Input)
    }

    pub fn get_node(&self, id: u32) -> (r: Option<&NodeInfo>)
        ensures
            r matches Some(n) ==> self@.nodes.contains_key(id) && *n == self@.nodes[id],
            r is None ==> !self@.nodes.contains_key(id),
    {
        self.nodes.get(&id)
    }

    /// The name to show for node `id`, or `Unknown` when there is no such node.
    pub fn get_display_name(&self, id: u32) -> (r: String)
        ensures
            r@ == if self@.nodes.contains_key(id) {
                display_name_of(self@.nodes[id])
            } else {
                "Unknown"@
            },
    {
        match self.nodes.get(&id) {
            Some(n) => match &n.application_name {
                Some(a) => a.clone(),
                None => match &n.description {
                    Some(d) => d.clone(),
                    None => n.name.clone(),
                },
            },
            None => to_owned("Unknown"),
        }
    }

    /// All nodes, each once, in no particular order.
    pub fn all_nodes(&self) -> (r: Vec<&NodeInfo>)
        requires
            self.wf(),
        ensures
            forall|i: int| 0 <= i < r.len() ==> self@.nodes.contains_key(#[trigger] r[i].id),
            forall|i: int| 0 <= i < r.len() ==> self@.nodes[r[i].id] == *#[trigger] r[i],
            forall|k: u32| #[trigger] self@.nodes.contains_key(k) ==> exists|i: int| 0 <= i < r.len() && r[i].id == k,
            forall|i: int, j: int| 0 <= i < j < r.len() ==> r[i].id != r[j].id,
    {
        let mut out: Vec<&NodeInfo> = Vec::new();
        let ghost keys = vstd::std_specs::hash::spec_keys_iter(&self.nodes).remaining();
        let ghost mut from: Seq<int> = Seq::empty();
        let ghost mut at: Map<u32, int> = Map::empty();
        for k in it: self.nodes.keys()
            invariant
                self.wf(),
                it.seq() == keys,
                keys.no_duplicates(),
                keys.unref().to_set() == self@.nodes.dom(),
                from.len() == out.len(),
                forall|i: int| 0 <= i < out.len() ==> self@.nodes.contains_key(#[trigger] out[i].id),
                forall|i: int| 0 <= i < out.len() ==> self@.nodes[out[i].id] == *#[trigger] out[i],
                forall|i: int| 0 <= i < out.len() ==> 0 <= #[trigger] from[i] < it.index(),
                forall|i: int| 0 <= i < out.len() ==> *keys[from[i]] == (#[trigger] out[i]).id,
                forall|j: int| 0 <= j < it.index() ==> at.contains_key(*#[trigger] keys[j]),
                forall|k: u32| #[trigger] at.contains_key(k) ==> 0 <= at[k] < out.len() && out[at[k]].id == k,
                forall|i: int, j: int| 0 <= i < j < out.len() ==> out[i].id != out[j].id,
        {
            let ghost idx = it.index();
            assert(*k == *keys[idx]);
            assert(keys.unref()[idx] == *k);
            assert(self@.nodes.contains_key(*k));
            match self.nodes.get(k) {
                Some(n) => {
                    proof {
                        assert forall|i: int| 0 <= i < out.len() implies out[i].id != n.id by {
                            assert(*keys[from[i]] == out[i].id);
                            assert(from[i] < idx);
                        }
                        from = from.push(idx);
                        at = at.insert(*k, out.len() as int);
                    }
                    out.push(n);
                    assert(*keys[from[out.len() - 1]] == out[out.len() - 1].id);
                },
                None => {},
            }
        }
        proof {
            assert forall|k: u32| #[trigger] self@.nodes.contains_key(k)
                implies exists|i: int| 0 <= i < out.len() && out[i].id == k by {
                assert(keys.unref().to_set().contains(k));
                let j = choose|j: int| 0 <= j < keys.len() && keys.unref()[j] == k;
                assert(*keys[j] == k);
                assert(out[at[k]].id == k);
            }
        }
        out
    }
}

/// When a node goes away, the manager forgets it and every port it had.
pub proof fn law_removed_node_takes_its_ports(g: NodeGraph, id: u32)
    ensures
        !after_event(g, AudioEvent::NodeRemoved { id }).nodes.contains_key(id),
        forall|i: int|
            0 <= i < port_ids(g, id).len() ==> !after_event(g, AudioEvent::NodeRemoved { id }).ports.contains_key(
                #[trigger] port_ids(g, id)[i],
            ),
{
    assert forall|i: int| 0 <= i < port_ids(g, id).len() implies !after_event(
        g,
        AudioEvent::NodeRemoved { id },
    ).ports.contains_key(#[trigger] port_ids(g, id)[i]) by {
        assert(g.node_ports[id].to_set().contains(g.node_ports[id][i]));
    }
}

/// A port announced for a node is then the node's last port, and is
/// found under its id.
pub proof fn law_added_port_is_listed(g: NodeGraph, info: PortInfo)
    ensures
        ({
            let h = after_event(g, AudioEvent::PortAdded(info));
            &&& h.ports[info.id] == info
            &&& port_ids(h, info.node_id).last() == info.id
            &&& port_ids(h, info.node_id).drop_last() == port_ids(g, info.node_id)
        }),
{
    let h = after_event(g, AudioEvent::PortAdded(info));
    assert(port_ids(h, info.node_id) == port_ids(g, info.node_id).push(info.id));
}

} // verus!
