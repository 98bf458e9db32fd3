//! The state behind the desktop window, and how audio events and dialog
//! answers change it. Building and updating the widgets is the
//! application's business; each function here says what the window must
//! show.
use std::collections::HashMap;
use vstd::prelude::*;
use vstd::string::StrSliceExecFns;

use crate::audio::channels::{quoted_message, reassigned, with_node, without_node, ChannelManager, ChannelState};
use crate::audio::events::{AudioEvent, NodeInfo, NodeType};
use crate::config::{first_named, first_with_app, Channel, DEFAULT_MONITOR_LEVEL_BITS, DEFAULT_STREAM_LEVEL_BITS};

verus! {

broadcast use vstd::std_specs::hash::group_hash_axioms;

/// The name shown for a node: its application's name, else its own.
pub open spec fn label_of(n: NodeInfo) -> Seq<char> {
    match n.application_name {
        Some(a) => a@,
        None => n.name@,
    }
}

/// The name shown for a node.
pub fn app_label(info: &NodeInfo) -> (r: String)
    ensures
        r@ == label_of(*info),
{
    match &info.application_name {
        Some(a) => a.clone(),
        None => info.name.clone(),
    }
}

/// What the window must change after an event.
#[derive(Debug, Clone)]
pub enum UiChange {
    Nothing,
    /// Show the node, under `label`, in the channel's application list.
    ShowInChannel { channel: String, node_id: u32, label: String },
    /// Show the node, under `label`, among the unassigned applications.
    ShowUnassigned { node_id: u32, label: String },
    /// Take the node off the window.
    Forget { node_id: u32 },
}

/// What a channel strip starts with: levels (bits of `f64` values) and
/// mutes.
#[derive(Debug, Clone, Copy, PartialEq, Eq, Structural)]
pub struct StripSettings {
    pub monitor_volume: u64,
    pub monitor_muted: bool,
    pub stream_volume: u64,
    pub stream_muted: bool,
}

/// The outcome of the assign-application dialog.
#[derive(Debug, Clone)]
pub enum AssignResult {
    /// The selection was past the list: nothing happens.
    OutOfRange,
    /// The node leaves the unassigned list, but the assignment failed.
    Failed { error: String },
    /// The node leaves the unassigned list and joins the channel; `label`
    /// is what to show when the node is known.
    Assigned { channel: String, label: Option<String> },
}

/// The window's state: the channel manager and the application nodes seen.
#[derive(Debug)]
pub struct UiModel {
    pub channel_manager: ChannelManager,
    pub known_nodes: HashMap<u32, NodeInfo>,
}

impl UiModel {
    pub open spec fn wf(&self) -> bool {
        self.channel_manager.wf()
    }

    /// A window over a channel manager, with no nodes seen.
    pub fn new(channel_manager: ChannelManager) -> (r: UiModel)
        requires
            channel_manager.wf(),
        ensures
            r.wf(),
            r.channel_manager@ == channel_manager@,
            r.known_nodes@ == Map::<u32, NodeInfo>::empty(),
    {
        UiModel { channel_manager, known_nodes: HashMap::new() }
    }

    /// Takes in an audio event. A new application output node that was not
    /// seen yet is recorded and placed: in the channel that lists its
    /// application, else among the unassigned ones. A removed node is
    /// forgotten everywhere. Nothing else changes anything.
    pub fn on_event(&mut self, event: &AudioEvent) -> (r: UiChange)
        requires
            old(self).wf(),
        ensures
            final(self).wf(),
            match *event {
                AudioEvent::NodeAdded(info) => if info.node_type == NodeType::ApplicationOutput
                    && !old(self).known_nodes@.contains_key(info.id) {
                    &&& final(self).known_nodes@ == old(self).known_nodes@.insert(info.id, info)
                    &&& match first_with_app(old(self).channel_manager@.channels, label_of(info)) {
                        Some(i) => {
                            let name = old(self).channel_manager@.channels[i].name@;
                            &&& final(self).channel_manager@ == with_node(old(self).channel_manager@, info.id, name)
                            &&& r matches UiChange::ShowInChannel { channel, node_id, label } && channel@ == name
                                && node_id == info.id && label@ == label_of(info)
                        },
                        None => {
                            &&& final(self).channel_manager@ == (ChannelState {
                                unassigned: old(self).channel_manager@.unassigned.insert(info.id),
                                ..old(self).channel_manager@
                            })
                            &&& r matches UiChange::ShowUnassigned { node_id, label } && node_id == info.id
                                && label@ == label_of(info)
                        },
                    }
                } else {
                    &&& final(self).known_nodes@ == old(self).known_nodes@
                    &&& final(self).channel_manager@ == old(self).channel_manager@
                    &&& r is Nothing
                },
                AudioEvent::NodeRemoved { id } => {
                    &&& final(self).channel_manager@ == without_node(old(self).channel_manager@, id)
                    &&& final(self).known_nodes@ == old(self).known_nodes@.remove(id)
                    &&& r matches UiChange::Forget { node_id } && node_id == id
                },
                _ => {
                    &&& final(self).known_nodes@ == old(self).known_nodes@
                    &&& final(self).channel_manager@ == old(self).channel_manager@
                    &&& r is Nothing
                },
            },
    {
        match event {
            AudioEvent::NodeAdded(info) => {
                if info.node_type != NodeType::ApplicationOutput {
                    return UiChange::Nothing;
                }
                let label = app_label(info);
                if self.known_nodes.contains_key(&info.id) {
                    return UiChange::Nothing;
                }
                self.known_nodes.insert(info.id, info.duplicate());
                match self.channel_manager.on_node_added(info.id, label.as_str()) {
                    Some(channel) => UiChange::ShowInChannel { channel, node_id: info.id, label },
                    None => UiChange::ShowUnassigned { node_id: info.id, label },
                }
            },
            AudioEvent::NodeRemoved { id } => {
                self.channel_manager.on_node_removed(*id);
                self.known_nodes.remove(id);
                UiChange::Forget { node_id: *id }
            },
            _ => UiChange::Nothing,
        }
    }

    /// What a channel strip starts with: the configured levels and mutes of
    /// the first channel with the name, else levels 0.8 and 0.7, unmuted.
    pub fn strip_settings(&self, name: &str) -> (r: StripSettings)
        ensures
            r == match first_named(self.channel_manager@.channels, name@) {
                Some(i) => {
                    let c = self.channel_manager@.channels[i];
                    StripSettings {
                        monitor_volume: c.monitor_volume,
                        monitor_muted: c.monitor_muted,
                        stream_volume: c.stream_volume,
                        stream_muted: c.stream_muted,
                    }
                },
                None => StripSettings {
                    monitor_volume: DEFAULT_MONITOR_LEVEL_BITS,
                    monitor_muted: false,
                    stream_volume: DEFAULT_STREAM_LEVEL_BITS,
                    stream_muted: false,
                },
            },
    {
        match self.channel_manager.config().get_channel(name) {
            Some(c) => StripSettings {
                monitor_volume: c.monitor_volume,
                monitor_muted: c.monitor_muted,
                stream_volume: c.stream_volume,
                stream_muted: c.stream_muted,
            },
            None => StripSettings {
                monitor_volume: DEFAULT_MONITOR_LEVEL_BITS,
                monitor_muted: false,
                stream_volume: DEFAULT_STREAM_LEVEL_BITS,
                stream_muted: false,
            },
        }
    }

    /// The create-channel dialog was accepted with `name`: an empty name is
    /// ignored; otherwise the channel is created unless one has the name.
    /// Gives whether a strip must be added for it.
    pub fn create_channel_from_dialog(&mut self, name: String) -> (r: bool)
        requires
            old(self).wf(),
        ensures
            final(self).wf(),
            final(self).known_nodes@ == old(self).known_nodes@,
            r == (name@.len() > 0 && first_named(old(self).channel_manager@.channels, name@) is None),
            !r ==> final(self).channel_manager@ == old(self).channel_manager@,
            r ==> {
                &&& final(self).channel_manager@.channels.drop_last() == old(self).channel_manager@.channels
                &&& final(self).channel_manager@.channels.len() == old(self).channel_manager@.channels.len() + 1
                &&& final(self).channel_manager@.channels.last().name == name
                &&& final(self).channel_manager@.channel_to_nodes == old(self).channel_manager@.channel_to_nodes.insert(
                    name@,
                    Set::empty(),
                )
                &&& final(self).channel_manager@.node_to_channel == old(self).channel_manager@.node_to_channel
                &&& final(self).channel_manager@.unassigned == old(self).channel_manager@.unassigned
            },
    {
        if name.as_str().unicode_len() == 0 {
            return false;
        }
        match self.channel_manager.create_channel(name) {
            Ok(()) => true,
            Err(_) => false,
        }
    }

    /// The names of the channels, in order, for the assign dialog.
    pub fn channel_names(&self) -> (r: Vec<String>)
        ensures
            r@.len() == self.channel_manager@.channels.len(),
            forall|i: int| 0 <= i < r@.len() ==> (#[trigger] r@[i])@ == self.channel_manager@.channels[i].name@,
    {
        let channels = self.channel_manager.channels();
        let mut out: Vec<String> = Vec::new();
        let mut i: usize = 0;
        while i < channels.len()
            invariant
                i <= channels.len(),
                channels@ == self.channel_manager@.channels,
                out@.len() == i,
                forall|k: int| 0 <= k < i ==> (#[trigger] out@[k])@ == channels@[k].name@,
            decreases channels.len() - i,
        {
            out.push(channels[i].name.clone());
            i += 1;
        }
        out
    }

    /// The assign dialog was accepted with entry `selected` of
    /// `channel_names`: past the list nothing happens; otherwise the node
    /// is assigned to that channel (see
    /// `ChannelManager::assign_node_to_channel`).
    pub fn assign_from_dialog(&mut self, node_id: u32, app_name: &str, channel_names: &Vec<String>, selected: usize) -> (r: AssignResult)
        requires
            old(self).wf(),
        ensures
            final(self).wf(),
            final(self).known_nodes@ == old(self).known_nodes@,
            selected >= channel_names@.len() ==> r is OutOfRange && final(self).channel_manager@ == old(
                self,
            ).channel_manager@,
            selected < channel_names@.len() ==> {
                let target = channel_names@[selected as int]@;
                let before = old(self).channel_manager@;
                let after = final(self).channel_manager@;
                &&& reassigned(before.channels, after.channels, app_name@, first_named(before.channels, target))
                &&& match first_named(before.channels, target) {
                    Some(_) => {
                        let s = with_node(without_node(before, node_id), node_id, target);
                        &&& after.node_to_channel == s.node_to_channel
                        &&& after.channel_to_nodes == s.channel_to_nodes
                        &&& after.unassigned == s.unassigned
                        &&& r matches AssignResult::Assigned { channel, label } && channel@ == target && match label {
                            Some(l) => old(self).known_nodes@.contains_key(node_id) && l@ == label_of(
                                old(self).known_nodes@[node_id],
                            ),
                            None => !old(self).known_nodes@.contains_key(node_id),
                        }
                    },
                    None => {
                        let s = without_node(before, node_id);
                        &&& after.node_to_channel == s.node_to_channel
                        &&& after.channel_to_nodes == s.channel_to_nodes
                        &&& after.unassigned == s.unassigned
                        &&& r matches AssignResult::Failed { error } && error@ == quoted_message(target, "not found"@)
                    },
                }
            },
    {
        if selected >= channel_names.len() {
            return AssignResult::OutOfRange;
        }
        let channel_name = channel_names[selected].as_str();
        match self.channel_manager.assign_node_to_channel(node_id, app_name, channel_name) {
            Err(error) => AssignResult::Failed { error },
            Ok(()) => {
                let label = match self.known_nodes.get(&node_id) {
                    Some(info) => Some(app_label(info)),
                    None => None,
                };
                AssignResult::Assigned { channel: channel_names[selected].clone(), label }
            },
        }
    }
}

} // verus!
