//! The platform audio backend that the engine drives, and what passes
//! between them.
use std::sync::mpsc::SyncSender;
use vstd::prelude::*;

use super::node::NodeInfo;
use super::sink::Sink;

verus! {

/// The sending half of a std synchronous channel; carried through as is.
#[verifier::external_type_specification]
#[verifier::external_body]
#[verifier::reject_recursive_types(T)]
pub struct ExSyncSender<T>(SyncSender<T>);

/// A call made on a backend, with the answer it gave.
pub ghost enum BackendCall {
    CreateBusSink { name: Seq<char>, answer: Result<Sink, String> },
    CreateVirtualSink { name: Seq<char>, answer: Result<Sink, String> },
    DestroyVirtualSink { sink: Sink, answer: Result<(), String> },
    CreateLink { output_node_id: u64, input_node_id: u64, answer: Result<u64, String> },
    DestroyLink { link_id: u64, answer: Result<(), String> },
    PollEvents { answer: Seq<BackendEvent> },
}

/// Operations the engine needs from a platform audio subsystem. Every call
/// may fail with a message; what comes back depends on the platform. A
/// backend keeps a record of the calls made on it, each with its answer:
/// every operation appends its own call to that record and nothing else.
pub trait AudioBackend {
    /// The calls made on this backend so far, oldest first. A backend
    /// written in verified code keeps this record and proves the contracts
    /// below against it. The default (no calls) is there because compiled
    /// code keeps a spec function without a body as a method every backend
    /// must define, which a backend written outside verified code cannot do;
    /// such a backend is trusted to behave as the contracts say. The body is
    /// closed, so verified code never reads it for a backend it does not know.
    closed spec fn calls(&self) -> Seq<BackendCall> {
        Seq::empty()
    }

    /// Creates a virtual sink node that acts as a mix bus.
    fn create_bus_sink(&mut self, name: &str) -> (r: Result<Sink, String>)
        ensures
            final(self).calls() == old(self).calls().push(BackendCall::CreateBusSink { name: name@, answer: r }),
    ;

    /// Creates a virtual sink (null sink) with the given name.
    fn create_virtual_sink(&mut self, name: &str) -> (r: Result<Sink, String>)
        ensures
            final(self).calls() == old(self).calls().push(BackendCall::CreateVirtualSink { name: name@, answer: r }),
    ;

    /// Destroys a virtual sink created before.
    fn destroy_virtual_sink(&mut self, sink: &Sink) -> (r: Result<(), String>)
        ensures
            final(self).calls() == old(self).calls().push(BackendCall::DestroyVirtualSink { sink: *sink, answer: r }),
    ;

    /// Links the output ports of `output_node_id` to the input ports of
    /// `input_node_id`; gives the link's id.
    fn create_link(&mut self, output_node_id: u64, input_node_id: u64) -> (r: Result<u64, String>)
        ensures
            final(self).calls() == old(self).calls().push(
                BackendCall::CreateLink { output_node_id, input_node_id, answer: r },
            ),
    ;

    /// Destroys a link by its id.
    fn destroy_link(&mut self, link_id: u64) -> (r: Result<(), String>)
        ensures
            final(self).calls() == old(self).calls().push(BackendCall::DestroyLink { link_id, answer: r }),
    ;

    /// The events that arrived since the last call.
    fn poll_events(&mut self) -> (r: Vec<BackendEvent>)
        ensures
            final(self).calls() == old(self).calls().push(BackendCall::PollEvents { answer: r@ }),
    ;
}

/// What the backend reports about the graph.
#[derive(Debug, Clone)]
pub enum BackendEvent {
    /// A node appeared.
    NodeAdded(NodeInfo),
    /// A node went away.
    NodeRemoved(u32),
}

/// Reply channel of `CreateVirtualSink`: the new node's id, or an error.
pub type SinkReply = SyncSender<Result<u64, String>>;

/// Reply channel of `CreateLink`: the new link's id, or an error.
pub type LinkReply = SyncSender<Result<u64, String>>;

/// Commands from the engine to the PipeWire thread.
#[derive(Debug)]
pub enum BackendCommand {
    CreateVirtualSink { name: String, reply: SinkReply },
    DestroyVirtualSink { external_id: u64 },
    CreateLink { output_node_id: u64, input_node_id: u64, reply: LinkReply },
    DestroyLink { link_id: u64 },
}

} // verus!
