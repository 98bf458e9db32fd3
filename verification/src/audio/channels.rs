//! Which running audio nodes belong to which channel. The configuration
//! says which applications belong to a channel; saving it is left to the
//! caller after each change.
use std::collections::{HashMap, HashSet};
use vstd::prelude::*;

use crate::config::{
    app_listed, apps_without, first_named, first_with_app, lemma_first_with_app, without_named, Channel, Config, SYSTEM_CHANNEL_NAME,
};
use crate::names::NameMap;
use crate::seqs::set_to_vec;
use crate::strings::{eq_ignore_ascii_case_spec, to_owned};

verus! {

broadcast use vstd::std_specs::hash::group_hash_axioms;

/// The abstract state of a channel manager.
pub struct ChannelState {
    /// The configured channels, in order.
    pub channels: Seq<Channel>,
    /// The channel of each assigned node.
    pub node_to_channel: Map<u32, Seq<char>>,
    /// The nodes of each channel that has an entry.
    pub channel_to_nodes: Map<Seq<char>, Set<u32>>,
    /// Nodes whose application belongs to no channel.
    pub unassigned: Set<u32>,
}

/// `Channel '<name>' <rest>`.
pub open spec fn quoted_message(name: Seq<char>, rest: Seq<char>) -> Seq<char> {
    "Channel '"@ + name + "' "@ + rest
}

/// `after` is `before` with its application list replaced by `apps`;
/// every other setting is kept.
pub open spec fn with_apps(after: Channel, before: Channel, apps: Seq<String>) -> bool {
    &&& after.applications@ == apps
    &&& after.name == before.name
    &&& after.monitor_volume == before.monitor_volume
    &&& after.monitor_muted == before.monitor_muted
    &&& after.stream_volume == before.stream_volume
    &&& after.stream_muted == before.stream_muted
    &&& after.is_builtin == before.is_builtin
}

/// `after` is `before` with `app` dropped from every channel and, when `k`
/// is `Some`, appended to the channel at `k` (its text given by `app`).
pub open spec fn reassigned(before: Seq<Channel>, after: Seq<Channel>, app: Seq<char>, k: Option<int>) -> bool {
    &&& after.len() == before.len()
    &&& forall|j: int|
        0 <= j < before.len() && k != Some(j) ==> with_apps(
            #[trigger] after[j],
            before[j],
            apps_without(before[j].applications@, app),
        )
    &&& k matches Some(i) ==> {
        &&& 0 <= i < before.len()
        &&& with_apps(after[i], before[i], after[i].applications@)
        &&& after[i].applications@.drop_last() == apps_without(before[i].applications@, app)
        &&& after[i].applications@.len() > 0
        &&& after[i].applications@.last()@ == app
    }
}

/// The state once `node_id` is forgotten.
pub open spec fn without_node(s: ChannelState, node_id: u32) -> ChannelState {
    ChannelState {
        channels: s.channels,
        node_to_channel: s.node_to_channel.remove(node_id),
        channel_to_nodes: if s.node_to_channel.contains_key(node_id) && s.channel_to_nodes.contains_key(
            s.node_to_channel[node_id],
        ) {
            s.channel_to_nodes.insert(
                s.node_to_channel[node_id],
                s.channel_to_nodes[s.node_to_channel[node_id]].remove(node_id),
            )
        } else {
            s.channel_to_nodes
        },
        unassigned: s.unassigned.remove(node_id),
    }
}

/// The state once `node_id` is recorded as a member of channel `name`.
pub open spec fn with_node(s: ChannelState, node_id: u32, name: Seq<char>) -> ChannelState {
    ChannelState {
        node_to_channel: s.node_to_channel.insert(node_id, name),
        channel_to_nodes: s.channel_to_nodes.insert(name, nodes_of(s.channel_to_nodes, name).insert(node_id)),
        ..s
    }
}

/// The nodes of channel `name`, empty when it has no entry.
pub open spec fn nodes_of(t: Map<Seq<char>, Set<u32>>, name: Seq<char>) -> Set<u32> {
    if t.contains_key(name) {
        t[name]
    } else {
        Set::empty()
    }
}

/// Dropping applications keeps the names, so the lookup by name is kept.
pub proof fn lemma_first_named_by_names(a: Seq<Channel>, b: Seq<Channel>, name: Seq<char>)
    requires
        a.len() == b.len(),
        forall|j: int| 0 <= j < a.len() ==> (#[trigger] a[j]).name == b[j].name,
    ensures
        first_named(a, name) == first_named(b, name),
    decreases a.len(),
{
    if a.len() > 0 {
        lemma_first_named_by_names(a.drop_last(), b.drop_last(), name);
    }
}

/// No name left after dropping `app` matches `app`.
pub proof fn lemma_not_listed_after_removal(apps: Seq<String>, app: Seq<char>)
    ensures
        !app_listed(apps_without(apps, app), app),
        forall|x: String| apps_without(apps, app).contains(x) ==> apps.contains(x),
    decreases apps.len(),
{
    if apps.len() > 0 {
        lemma_not_listed_after_removal(apps.drop_last(), app);
        let rest = apps_without(apps.drop_last(), app);
        if !eq_ignore_ascii_case_spec(apps.last()@, app) {
            assert forall|i: int| 0 <= i < rest.push(apps.last()).len() implies !eq_ignore_ascii_case_spec(
                #[trigger] rest.push(apps.last())[i]@,
                app,
            ) by {
                if i < rest.len() {
                    assert(rest[i] == rest.push(apps.last())[i]);
                    if eq_ignore_ascii_case_spec(rest[i]@, app) {
                        assert(app_listed(rest, app));
                    }
                }
            }
            assert forall|x: String| rest.push(apps.last()).contains(x) implies apps.contains(x) by {
                let w = choose|w: int| 0 <= w < rest.push(apps.last()).len() && #[trigger] rest.push(apps.last())[w] == x;
                if w < rest.len() {
                    assert(rest.contains(x));
                    assert(apps.drop_last().contains(x));
                    let v = choose|v: int| 0 <= v < apps.drop_last().len() && #[trigger] apps.drop_last()[v] == x;
                    assert(apps[v] == x);
                } else {
                    assert(apps[apps.len() - 1] == x);
                }
            }
        } else {
            assert forall|x: String| rest.contains(x) implies apps.contains(x) by {
                assert(apps.drop_last().contains(x));
                let v = choose|v: int| 0 <= v < apps.drop_last().len() && #[trigger] apps.drop_last()[v] == x;
                assert(apps[v] == x);
            }
        }
    }
}

/// An application put in a channel by `assign_app_to_channel` is then
/// found, by `Config::find_channel_for_app`, in that channel and no earlier
/// one; the channel named as the target is still the first with its name.
pub proof fn law_assigned_app_is_found(before: Seq<Channel>, after: Seq<Channel>, app: Seq<char>, name: Seq<char>)
    requires
        first_named(before, name) is Some,
        reassigned(before, after, app, first_named(before, name)),
    ensures
        first_named(after, name) == first_named(before, name),
        first_with_app(after, app) == first_named(after, name),
{
    lemma_first_named_by_names(before, after, name);
    let k = first_named(before, name)->0;
    assert forall|j: int| 0 <= j < k implies !app_listed(#[trigger] after[j].applications@, app) by {
        lemma_not_listed_after_removal(before[j].applications@, app);
    }
    let last = after[k].applications@.len() - 1;
    assert(eq_ignore_ascii_case_spec(after[k].applications@[last]@, app));
    lemma_first_with_app(after, app, k);
}

/// After `unassign_app`, `Config::find_channel_for_app` finds no channel
/// for the application.
pub proof fn law_unassigned_app_is_not_found(before: Seq<Channel>, after: Seq<Channel>, app: Seq<char>)
    requires
        reassigned(before, after, app, None),
    ensures
        first_with_app(after, app) is None,
{
    assert forall|j: int| 0 <= j < after.len() implies !app_listed(#[trigger] after[j].applications@, app) by {
        lemma_not_listed_after_removal(before[j].applications@, app);
    }
    lemma_first_with_app(after, app, after.len() as int);
}

/// A node that went away (`on_node_removed`) has no channel, is not
/// unassigned, and has left the node set of the channel it was in.
pub proof fn law_removed_node_is_forgotten(s: ChannelState, node_id: u32)
    ensures
        !without_node(s, node_id).node_to_channel.contains_key(node_id),
        !without_node(s, node_id).unassigned.contains(node_id),
        s.node_to_channel.contains_key(node_id) ==> !nodes_of(
            without_node(s, node_id).channel_to_nodes,
            s.node_to_channel[node_id],
        ).contains(node_id),
{
}

/// A node placed in a channel (`on_node_added` with a listed application,
/// or `assign_node_to_channel`) is reported in that channel by
/// `get_node_channel` and listed by `get_channel_nodes`.
pub proof fn law_placed_node_is_reported(s: ChannelState, node_id: u32, name: Seq<char>)
    ensures
        with_node(s, node_id, name).node_to_channel[node_id] == name,
        nodes_of(with_node(s, node_id, name).channel_to_nodes, name).contains(node_id),
{
}

/// Runtime channel state: which nodes are assigned to which channels.
#[derive(Debug)]
pub struct ChannelManager {
    config: Config,
    node_to_channel: HashMap<u32, String>,
    channel_to_nodes: NameMap<HashSet<u32>>,
    unassigned_nodes: HashSet<u32>,
}

impl View for ChannelManager {
    type V = ChannelState;

    closed spec fn view(&self) -> ChannelState {
        ChannelState {
            channels: self.config.channels@,
            node_to_channel: self.node_to_channel@.map_values(|s: String| s@),
            channel_to_nodes: self.channel_to_nodes@,
            unassigned: self.unassigned_nodes@,
        }
    }
}

impl ChannelManager {
    pub closed spec fn wf(&self) -> bool {
        self.channel_to_nodes.wf()
    }

    /// A manager over a loaded configuration, with no nodes yet.
    pub fn new(config: Config) -> (r: ChannelManager)
        ensures
            r.wf(),
            r@.channels == config.channels@,
            r@.node_to_channel == Map::<u32, Seq<char>>::empty(),
            r@.channel_to_nodes == Map::<Seq<char>, Set<u32>>::empty(),
            r@.unassigned == Set::<u32>::empty(),
    {
        let r = ChannelManager {
            config,
            node_to_channel: HashMap::new(),
            channel_to_nodes: NameMap::new(),
            unassigned_nodes: HashSet::new(),
        };
        assert(r@.node_to_channel =~= Map::<u32, Seq<char>>::empty());
        r
    }

    pub fn config(&self) -> (r: &Config)
        ensures
            r.channels@ == self@.channels,
    {
        &self.config
    }

    /// All channels, in order.
    pub fn channels(&self) -> (r: &[Channel])
        ensures
            r@ == self@.channels,
    {
        self.config.channels.as_slice()
    }

    /// Adds the node to the channel's node set (creating the entry).
    fn add_to_channel(&mut self, name: &str, node_id: u32)
        requires
            old(self).wf(),
        ensures
            final(self).wf(),
            final(self)@ == (ChannelState {
                channel_to_nodes: old(self)@.channel_to_nodes.insert(
                    name@,
                    nodes_of(old(self)@.channel_to_nodes, name@).insert(node_id),
                ),
                ..old(self)@
            }),
    {
        let mut set = match self.channel_to_nodes.remove(name) {
            Some(s) => s,
            None => HashSet::new(),
        };
        set.insert(node_id);
        self.channel_to_nodes.insert(to_owned(name), set);
        assert(self@.channel_to_nodes =~= old(self)@.channel_to_nodes.insert(
            name@,
            nodes_of(old(self)@.channel_to_nodes, name@).insert(node_id),
        ));
    }

    /// Creates a channel. Errors (changing nothing) when a channel with the
    /// name exists. The channel's node set is reset to empty.
    pub fn create_channel(&mut self, name: String) -> (r: Result<(), String>)
        requires
            old(self).wf(),
        ensures
            final(self).wf(),
            first_named(old(self)@.channels, name@) is Some ==> {
                &&& r matches Err(e) && e@ == quoted_message(name@, "already exists"@)
                &&& final(self)@ == old(self)@
            },
            first_named(old(self)@.channels, name@) is None ==> {
                &&& r is Ok
                &&& final(self)@.channels.drop_last() == old(self)@.channels
                &&& final(self)@.channels.len() == old(self)@.channels.len() + 1
                &&& final(self)@.channels.last().name == name
                &&& final(self)@.channels.last().applications@.len() == 0
                &&& final(self)@.channel_to_nodes == old(self)@.channel_to_nodes.insert(name@, Set::empty())
                &&& final(self)@.node_to_channel == old(self)@.node_to_channel
                &&& final(self)@.unassigned == old(self)@.unassigned
            },
    {
        match self.config.get_channel(name.as_str()) {
            Some(_) => {
                proof {
                    reveal_strlit("Channel '");
                    reveal_strlit("' ");
                }
                let msg = String::from_str("Channel '").concat(name.as_str()).concat("' ").concat("already exists");
                return Err(msg);
            },
            None => {},
        }
        let key = name.clone();
        self.config.add_channel(name);
        self.channel_to_nodes.insert(key, HashSet::new());
        assert(self@.channel_to_nodes =~= old(self)@.channel_to_nodes.insert(key@, Set::empty()));
        Ok(())
    }

    /// Whether the channel named `name` is built in (cannot be deleted).
    pub fn is_builtin_channel(&self, name: &str) -> (r: bool)
        ensures
            r == match first_named(self@.channels, name@) {
                Some(i) => self@.channels[i].is_builtin,
                None => false,
            },
    {
        match self.config.get_channel(name) {
            Some(c) => c.is_builtin,
            None => false,
        }
    }

    /// Deletes a channel: its nodes move to the System channel, then the
    /// channel leaves the configuration. Errors: the channel is built in
    /// (nothing changes); no channel has the name (the node moves happen).
    pub fn delete_channel(&mut self, name: &str) -> (r: Result<(), String>)
        requires
            old(self).wf(),
        ensures
            final(self).wf(),
            (match first_named(old(self)@.channels, name@) {
                Some(i) => old(self)@.channels[i].is_builtin,
                None => false,
            }) ==> {
                &&& r matches Err(e) && e@ == "Cannot delete built-in channel '"@ + name@ + "'"@
                &&& final(self)@ == old(self)@
            },
            !(match first_named(old(self)@.channels, name@) {
                Some(i) => old(self)@.channels[i].is_builtin,
                None => false,
            }) ==> {
                let moved = nodes_of(old(self)@.channel_to_nodes, name@);
                let rest = old(self)@.channel_to_nodes.remove(name@);
                &&& final(self)@.channels == without_named(old(self)@.channels, name@)
                &&& final(self)@.node_to_channel == old(self)@.node_to_channel.union_prefer_right(
                    Map::new(|n: u32| moved.contains(n), |n: u32| "System"@),
                )
                &&& final(self)@.channel_to_nodes == if moved.is_empty() {
                    rest
                } else {
                    rest.insert("System"@, nodes_of(rest, "System"@).union(moved))
                }
                &&& final(self)@.unassigned == old(self)@.unassigned
                &&& (r is Ok <==> first_named(old(self)@.channels, name@) is Some)
                &&& r matches Err(e) ==> e@ == "Failed to remove channel '"@ + name@ + "'"@
            },
    {
        match self.config.get_channel(name) {
            Some(c) => {
                if c.is_builtin {
                    proof {
                        reveal_strlit("Cannot delete built-in channel '");
                        reveal_strlit("'");
                    }
                    let msg = String::from_str("Cannot delete built-in channel '").concat(name).concat("'");
                    return Err(msg);
                }
            },
            None => {},
        }
        let ghost moved = nodes_of(old(self)@.channel_to_nodes, name@);
        let ghost rest = old(self)@.channel_to_nodes.remove(name@);
        match self.channel_to_nodes.remove(name) {
            Some(nodes) => {
                let ids = set_to_vec(&nodes);
                let ghost mut done: Set<u32> = Set::empty();
                let mut i: usize = 0;
                while i < ids.len()
                    invariant
                        i <= ids.len(),
                        self.wf(),
                        ids@.to_set() == moved,
                        done == ids@.take(i as int).to_set(),
                        self@.channels == old(self)@.channels,
                        self@.unassigned == old(self)@.unassigned,
                        self@.node_to_channel == old(self)@.node_to_channel.union_prefer_right(
                            Map::new(|n: u32| done.contains(n), |n: u32| "System"@),
                        ),
                        self@.channel_to_nodes == if i == 0 {
                            rest
                        } else {
                            rest.insert("System"@, nodes_of(rest, "System"@).union(done))
                        },
                    decreases ids.len() - i,
                {
                    let node_id = ids[i];
                    let ghost before = self@;
                    self.node_to_channel.remove(&node_id);
                    self.node_to_channel.insert(node_id, to_owned(SYSTEM_CHANNEL_NAME));
                    proof {
                        reveal_strlit("System");
                        assert(self@.node_to_channel =~= before.node_to_channel.insert(node_id, "System"@));
                    }
                    self.add_to_channel(SYSTEM_CHANNEL_NAME, node_id);
                    proof {
                        let d0 = done;
                        done = done.insert(node_id);
                        assert(ids@.take(i as int + 1) =~= ids@.take(i as int).push(node_id));
                        ids@.take(i as int).lemma_push_to_set_commute(node_id);
                        assert(self@.node_to_channel =~= old(self)@.node_to_channel.union_prefer_right(
                            Map::new(|n: u32| done.contains(n), |n: u32| "System"@),
                        ));
                        if i == 0 {
                            assert(d0 =~= Set::<u32>::empty()) by {
                                assert(ids@.take(0) =~= Seq::<u32>::empty());
                            }
                        }
                        assert(nodes_of(before.channel_to_nodes, "System"@).insert(node_id) =~= nodes_of(
                            rest,
                            "System"@,
                        ).union(done));
                        assert(self@.channel_to_nodes =~= rest.insert(
                            "System"@,
                            nodes_of(rest, "System"@).union(done),
                        ));
                    }
                    i += 1;
                }
                proof {
                    assert(ids@.take(ids.len() as int) =~= ids@);
                    if ids.len() == 0 {
                        assert(moved =~= Set::<u32>::empty());
                    } else {
                        assert(moved.contains(ids@[0]));
                    }
                }
            },
            None => {
                proof {
                    assert(moved =~= Set::<u32>::empty());
                    assert(self@.node_to_channel =~= old(self)@.node_to_channel.union_prefer_right(
                        Map::new(|n: u32| moved.contains(n), |n: u32| "System"@),
                    ));
                }
            },
        }
        if !self.config.remove_channel(name) {
            proof {
                reveal_strlit("Failed to remove channel '");
                reveal_strlit("'");
            }
            let msg = String::from_str("Failed to remove channel '").concat(name).concat("'");
            return Err(msg);
        }
        Ok(())
    }

    /// Drops `app_name` from every channel's application list.
    fn remove_app_everywhere(&mut self, app_name: &str)
        requires
            old(self).wf(),
        ensures
            final(self).wf(),
            reassigned(old(self)@.channels, final(self)@.channels, app_name@, None),
            final(self)@.node_to_channel == old(self)@.node_to_channel,
            final(self)@.channel_to_nodes == old(self)@.channel_to_nodes,
            final(self)@.unassigned == old(self)@.unassigned,
    {
        let n = self.config.channels.len();
        let mut i: usize = 0;
        while i < n
            invariant
                i <= n,
                n == old(self)@.channels.len(),
                self.wf(),
                self@.channels.len() == n,
                self@.node_to_channel == old(self)@.node_to_channel,
                self@.channel_to_nodes == old(self)@.channel_to_nodes,
                self@.unassigned == old(self)@.unassigned,
                forall|j: int|
                    0 <= j < i ==> with_apps(
                        #[trigger] self@.channels[j],
                        old(self)@.channels[j],
                        apps_without(old(self)@.channels[j].applications@, app_name@),
                    ),
                forall|j: int| i <= j < n ==> #[trigger] self@.channels[j] == old(self)@.channels[j],
            decreases n - i,
        {
            self.config.channels[i].remove_application(app_name);
            i += 1;
        }
    }

    /// Puts an application in a channel, taking it out of every other one,
    /// so that its future nodes join that channel. When no channel has the
    /// name, the application is still taken out of every channel and the
    /// error says so.
    pub fn assign_app_to_channel(&mut self, app_name: &str, channel_name: &str) -> (r: Result<(), String>)
        requires
            old(self).wf(),
        ensures
            final(self).wf(),
            reassigned(old(self)@.channels, final(self)@.channels, app_name@, first_named(old(self)@.channels, channel_name@)),
            final(self)@.node_to_channel == old(self)@.node_to_channel,
            final(self)@.channel_to_nodes == old(self)@.channel_to_nodes,
            final(self)@.unassigned == old(self)@.unassigned,
            r is Ok <==> first_named(old(self)@.channels, channel_name@) is Some,
            r matches Err(e) ==> e@ == quoted_message(channel_name@, "not found"@),
    {
        self.remove_app_everywhere(app_name);
        let ghost mid = self@;
        proof {
            lemma_first_named_by_names(old(self)@.channels, mid.channels, channel_name@);
        }
        match self.config.get_channel_index(channel_name) {
            Some(k) => {
                proof {
                    lemma_not_listed_after_removal(old(self)@.channels[k as int].applications@, app_name@);
                }
                self.config.channels[k].add_application(to_owned(app_name));
                assert(self@.channels =~= mid.channels.update(k as int, self@.channels[k as int]));
                assert(self@.channels[k as int].applications@.drop_last() =~= mid.channels[k as int].applications@);
                Ok(())
            },
            None => {
                proof {
                    reveal_strlit("Channel '");
                    reveal_strlit("' ");
                }
                let msg = String::from_str("Channel '").concat(channel_name).concat("' ").concat("not found");
                Err(msg)
            },
        }
    }

    /// Takes an application out of every channel.
    pub fn unassign_app(&mut self, app_name: &str)
        requires
            old(self).wf(),
        ensures
            final(self).wf(),
            reassigned(old(self)@.channels, final(self)@.channels, app_name@, None),
            final(self)@.node_to_channel == old(self)@.node_to_channel,
            final(self)@.channel_to_nodes == old(self)@.channel_to_nodes,
            final(self)@.unassigned == old(self)@.unassigned,
    {
        self.remove_app_everywhere(app_name);
    }

    /// Records a newly discovered node: it joins the first channel that
    /// lists its application (whose name is returned), or else the
    /// unassigned set.
    pub fn on_node_added(&mut self, node_id: u32, app_name: &str) -> (r: Option<String>)
        requires
            old(self).wf(),
        ensures
            final(self).wf(),
            match first_with_app(old(self)@.channels, app_name@) {
                Some(i) => r matches Some(name) && name@ == old(self)@.channels[i].name@ && final(self)@
                    == with_node(old(self)@, node_id, name@),
                None => r is None && final(self)@ == (ChannelState {
                    unassigned: old(self)@.unassigned.insert(node_id),
                    ..old(self)@
                }),
            },
    {
        match self.config.find_channel_for_app(app_name) {
            Some(channel) => {
                let name = channel.name.clone();
                self.node_to_channel.insert(node_id, name.clone());
                proof {
                    assert(self@.node_to_channel =~= old(self)@.node_to_channel.insert(node_id, name@));
                }
                self.add_to_channel(name.as_str(), node_id);
                Some(name)
            },
            None => {
                self.unassigned_nodes.insert(node_id);
                None
            },
        }
    }

    /// Forgets a node that went away: it leaves its channel and the
    /// unassigned set.
    pub fn on_node_removed(&mut self, node_id: u32)
        requires
            old(self).wf(),
        ensures
            final(self).wf(),
            final(self)@ == without_node(old(self)@, node_id),
    {
        match self.node_to_channel.remove(&node_id) {
            Some(name) => {
                proof {
                    assert(self@.node_to_channel =~= old(self)@.node_to_channel.remove(node_id));
                    assert(old(self)@.node_to_channel.contains_key(node_id));
                    assert(name@ == old(self)@.node_to_channel[node_id]);
                }
                match self.channel_to_nodes.remove(name.as_str()) {
                    Some(nodes) => {
                        let mut nodes = nodes;
                        nodes.remove(&node_id);
                        self.channel_to_nodes.insert(name, nodes);
                        proof {
                            let c = old(self)@.node_to_channel[node_id];
                            assert(self@.channel_to_nodes =~= old(self)@.channel_to_nodes.insert(
                                c,
                                old(self)@.channel_to_nodes[c].remove(node_id),
                            ));
                            assert(self@.channel_to_nodes == without_node(old(self)@, node_id).channel_to_nodes);
                        }
                    },
                    None => {
                        assert(self@.channel_to_nodes == without_node(old(self)@, node_id).channel_to_nodes);
                    },
                }
            },
            None => {
                proof {
                    assert(self@.node_to_channel =~= old(self)@.node_to_channel.remove(node_id));
                    assert(!old(self)@.node_to_channel.contains_key(node_id));
                }
            },
        }
        self.unassigned_nodes.remove(&node_id);
    }

    /// Moves a running node to a channel and makes the move stick for its
    /// application. When no channel has the name, the node has already left
    /// its place and the application every channel, and the error says so.
    pub fn assign_node_to_channel(&mut self, node_id: u32, app_name: &str, channel_name: &str) -> (r: Result<
        (),
        String,
    >)
        requires
            old(self).wf(),
        ensures
            final(self).wf(),
            reassigned(old(self)@.channels, final(self)@.channels, app_name@, first_named(old(self)@.channels, channel_name@)),
            r is Ok <==> first_named(old(self)@.channels, channel_name@) is Some,
            r is Ok ==> {
                let s = with_node(without_node(old(self)@, node_id), node_id, channel_name@);
                &&& final(self)@.node_to_channel == s.node_to_channel
                &&& final(self)@.channel_to_nodes == s.channel_to_nodes
                &&& final(self)@.unassigned == s.unassigned
            },
            r matches Err(e) ==> {
                let s = without_node(old(self)@, node_id);
                &&& e@ == quoted_message(channel_name@, "not found"@)
                &&& final(self)@.node_to_channel == s.node_to_channel
                &&& final(self)@.channel_to_nodes == s.channel_to_nodes
                &&& final(self)@.unassigned == s.unassigned
            },
    {
        self.on_node_removed(node_id);
        match self.assign_app_to_channel(app_name, channel_name) {
            Ok(()) => {},
            Err(e) => {
                return Err(e);
            },
        }
        let ghost mid = self@;
        self.node_to_channel.insert(node_id, to_owned(channel_name));
        proof {
            assert(self@.node_to_channel =~= mid.node_to_channel.insert(node_id, channel_name@));
        }
        self.add_to_channel(channel_name, node_id);
        Ok(())
    }

    /// The channel of a node, if it has one.
    pub fn get_node_channel(&self, node_id: u32) -> (r: Option<&str>)
        ensures
            match r {
                Some(name) => self@.node_to_channel.contains_key(node_id) && name@ == self@.node_to_channel[node_id],
                None => !self@.node_to_channel.contains_key(node_id),
            },
    {
        match self.node_to_channel.get(&node_id) {
            Some(name) => Some(name.as_str()),
            None => None,
        }
    }

    /// The nodes of a channel, each once, in no particular order.
    pub fn get_channel_nodes(&self, channel_name: &str) -> (r: Vec<u32>)
        requires
            self.wf(),
        ensures
            r@.no_duplicates(),
            r@.to_set() == nodes_of(self@.channel_to_nodes, channel_name@),
    {
        match self.channel_to_nodes.get(channel_name) {
            Some(nodes) => set_to_vec(nodes),
            None => {
                let r: Vec<u32> = Vec::new();
                assert(r@.to_set() =~= Set::<u32>::empty());
                r
            },
        }
    }

    /// The nodes whose application belongs to no channel, each once.
    pub fn get_unassigned_nodes(&self) -> (r: Vec<u32>)
        ensures
            r@.no_duplicates(),
            r@.to_set() == self@.unassigned,
    {
        set_to_vec(&self.unassigned_nodes)
    }

    /// Sets the monitor level (bits of an `f64`) of the first channel with
    /// the name; nothing changes when there is none.
    pub fn set_channel_monitor_volume(&mut self, channel_name: &str, volume: u64)
        ensures
            final(self)@ == (ChannelState {
                channels: match first_named(old(self)@.channels, channel_name@) {
                    Some(i) => old(self)@.channels.update(i, Channel { monitor_volume: volume, ..old(self)@.channels[i] }),
                    None => old(self)@.channels,
                },
                ..old(self)@
            }),
    {
        match self.config.get_channel_index(channel_name) {
            Some(i) => {
                self.config.channels[i].monitor_volume = volume;
            },
            None => {},
        }
    }

    /// Sets whether the monitor mix of the first channel with the name is
    /// muted; nothing changes when there is none.
    pub fn set_channel_monitor_muted(&mut self, channel_name: &str, muted: bool)
        ensures
            final(self)@ == (ChannelState {
                channels: match first_named(old(self)@.channels, channel_name@) {
                    Some(i) => old(self)@.channels.update(i, Channel { monitor_muted: muted, ..old(self)@.channels[i] }),
                    None => old(self)@.channels,
                },
                ..old(self)@
            }),
    {
        match self.config.get_channel_index(channel_name) {
            Some(i) => {
                self.config.channels[i].monitor_muted = muted;
            },
            None => {},
        }
    }

    /// Sets the stream level (bits of an `f64`) of the first channel with
    /// the name; nothing changes when there is none.
    pub fn set_channel_stream_volume(&mut self, channel_name: &str, volume: u64)
        ensures
            final(self)@ == (ChannelState {
                channels: match first_named(old(self)@.channels, channel_name@) {
                    Some(i) => old(self)@.channels.update(i, Channel { stream_volume: volume, ..old(self)@.channels[i] }),
                    None => old(self)@.channels,
                },
                ..old(self)@
            }),
    {
        match self.config.get_channel_index(channel_name) {
            Some(i) => {
                self.config.channels[i].stream_volume = volume;
            },
            None => {},
        }
    }

    /// Sets whether the stream mix of the first channel with the name is
    /// muted; nothing changes when there is none.
    pub fn set_channel_stream_muted(&mut self, channel_name: &str, muted: bool)
        ensures
            final(self)@ == (ChannelState {
                channels: match first_named(old(self)@.channels, channel_name@) {
                    Some(i) => old(self)@.channels.update(i, Channel { stream_muted: muted, ..old(self)@.channels[i] }),
                    None => old(self)@.channels,
                },
                ..old(self)@
            }),
    {
        match self.config.get_channel_index(channel_name) {
            Some(i) => {
                self.config.channels[i].stream_muted = muted;
            },
            None => {},
        }
    }

    /// Moves the first channel with the name to a new position (see
    /// `Config::move_channel`).
    pub fn move_channel(&mut self, name: &str, new_position: usize)
        ensures
            final(self)@.node_to_channel == old(self)@.node_to_channel,
            final(self)@.channel_to_nodes == old(self)@.channel_to_nodes,
            final(self)@.unassigned == old(self)@.unassigned,
            match first_named(old(self)@.channels, name@) {
                Some(i) => {
                    let without = old(self)@.channels.remove(i);
                    let at = if new_position <= without.len() { new_position as int } else { without.len() as int };
                    final(self)@.channels == without.insert(at, old(self)@.channels[i])
                },
                None => final(self)@.channels == old(self)@.channels,
            },
    {
        self.config.move_channel(name, new_position);
    }

    /// The configuration, for changing it in place.
    pub fn config_mut(&mut self) -> (r: &mut Config)
        ensures
            r.channels@ == old(self)@.channels,
            final(self)@ == (ChannelState { channels: final(r).channels@, ..old(self)@ }),
    {
        &mut self.config
    }
}

} // verus!
