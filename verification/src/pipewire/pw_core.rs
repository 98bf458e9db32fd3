//! What passes between the PipeWire thread and the rest of the program,
//! and the decisions on either side: which registry globals become node
//! events, and how the node table follows them.
use std::collections::HashMap;
use vstd::prelude::*;

use crate::pipewire::global::{Global, ObjectKind};
use crate::pipewire::pw_node::{MediaClass, PwNode};

verus! {

broadcast use vstd::std_specs::hash::group_hash_axioms;

/// Commands sent to the PipeWire thread.
#[derive(Debug, Clone, Copy, PartialEq, Eq, Structural)]
pub enum PwCommand {
    Terminate,
}

/// Events the PipeWire thread reports.
#[derive(Debug, Clone)]
pub enum PwEvent {
    NodeAdded(PwNode),
    NodeRemoved(u32),
}

/// The properties of a global, none when it has none.
pub open spec fn props_of(global: &Global) -> Map<String, String> {
    match global.props {
        Some(p) => p@,
        None => Map::empty(),
    }
}

/// The event for a registry global: a node of a known media class is
/// reported with what its properties describe; anything else is not.
pub fn node_event(global: &Global) -> (r: Option<PwEvent>)
    ensures
        (global.kind == ObjectKind::Node && PwNode::spec_class(props_of(global)) != MediaClass::Unknown) ==> (r matches Some(
            PwEvent::NodeAdded(n),
        ) && PwNode::from_props_spec(n, global.id, props_of(global))),
        !(global.kind == ObjectKind::Node && PwNode::spec_class(props_of(global)) != MediaClass::Unknown) ==> r is None,
{
    if global.kind != ObjectKind::Node {
        return None;
    }
    let node = match &global.props {
        Some(p) => PwNode::from_props(global.id, p),
        None => {
            let empty: HashMap<String, String> = HashMap::new();
            assert(empty@ =~= Map::<String, String>::empty());
            PwNode::from_props(global.id, &empty)
        },
    };
    if node.media_class == MediaClass::Unknown {
        return None;
    }
    Some(PwEvent::NodeAdded(node))
}

/// The event for a global that went away.
pub fn removal_event(id: u32) -> (r: PwEvent)
    ensures
        r == PwEvent::NodeRemoved(id),
{
    PwEvent::NodeRemoved(id)
}

/// Whether the PipeWire thread stops on a command.
pub fn stops_thread(cmd: PwCommand) -> (r: bool)
    ensures
        r == (cmd == PwCommand::Terminate),
{
    match cmd {
        PwCommand::Terminate => true,
    }
}

/// Applies an event to the node table: an added node is filed under its
/// id, a removed one leaves it.
pub fn process_event(nodes: &mut HashMap<u32, PwNode>, event: PwEvent)
    ensures
        match event {
            PwEvent::NodeAdded(node) => final(nodes)@ == old(nodes)@.insert(node.id, node),
            PwEvent::NodeRemoved(id) => final(nodes)@ == old(nodes)@.remove(id),
        },
{
    match event {
        PwEvent::NodeAdded(node) => {
            nodes.insert(node.id, node);
        },
        PwEvent::NodeRemoved(id) => {
            nodes.remove(&id);
        },
    }
}

} // verus!
