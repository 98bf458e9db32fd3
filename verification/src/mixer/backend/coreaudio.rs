//! The macOS backend: every operation succeeds and hands out ids from a
//! counter until CoreAudio routing exists.
use vstd::prelude::*;

use crate::mixer::audio::backend::{AudioBackend, BackendCall, BackendEvent};
use crate::mixer::audio::sink::Sink;

verus! {

pub struct CoreAudioBackend {
    /// The id handed out next.
    next_id: u64,
    /// The calls made so far, with their answers.
    log: Ghost<Seq<BackendCall>>,
}

impl CoreAudioBackend {
    pub fn new() -> (r: CoreAudioBackend)
        ensures
            r.next_id() == 1,
            r.calls() == Seq::<BackendCall>::empty(),
    {
        CoreAudioBackend { next_id: 1, log: Ghost(Seq::empty()) }
    }

    /// The id that the next sink or link gets.
    pub closed spec fn next_id(&self) -> u64 {
        self.next_id
    }

    fn take_id(&mut self) -> (id: u64)
        requires
            old(self).next_id() < u64::MAX,
        ensures
            id == old(self).next_id(),
            final(self).next_id() == old(self).next_id() + 1,
            final(self).calls() == old(self).calls(),
    {
        let id = self.next_id;
        self.next_id = self.next_id + 1;
        id
    }
}

impl AudioBackend for CoreAudioBackend {
    closed spec fn calls(&self) -> Seq<BackendCall> {
        self.log@
    }

    fn create_bus_sink(&mut self, name: &str) -> (r: Result<Sink, String>)
        ensures
            old(self).next_id() < u64::MAX ==> {
                &&& r matches Ok(s) && s.external_id == old(self).next_id()
                &&& final(self).next_id() == old(self).next_id() + 1
            },
    {
        let r = if self.next_id == u64::MAX {
            Err(String::from_str("sink ids exhausted"))
        } else {
            let id = self.take_id();
            Ok(Sink::new(id))
        };
        proof {
            self.log@ = self.log@.push(BackendCall::CreateBusSink { name: name@, answer: r });
        }
        r
    }

    fn create_virtual_sink(&mut self, name: &str) -> (r: Result<Sink, String>)
        ensures
            old(self).next_id() < u64::MAX ==> {
                &&& r matches Ok(s) && s.external_id == old(self).next_id()
                &&& final(self).next_id() == old(self).next_id() + 1
            },
    {
        let r = if self.next_id == u64::MAX {
            Err(String::from_str("sink ids exhausted"))
        } else {
            let id = self.take_id();
            Ok(Sink::new(id))
        };
        proof {
            self.log@ = self.log@.push(BackendCall::CreateVirtualSink { name: name@, answer: r });
        }
        r
    }

    fn destroy_virtual_sink(&mut self, sink: &Sink) -> (r: Result<(), String>)
        ensures
            r is Ok,
            final(self).next_id() == old(self).next_id(),
    {
        let r: Result<(), String> = Ok(());
        proof {
            self.log@ = self.log@.push(BackendCall::DestroyVirtualSink { sink: *sink, answer: r });
        }
        r
    }

    fn create_link(&mut self, output_node_id: u64, input_node_id: u64) -> (r: Result<u64, String>)
        ensures
            old(self).next_id() < u64::MAX ==> {
                &&& r == Ok::<u64, String>(old(self).next_id())
                &&& final(self).next_id() == old(self).next_id() + 1
            },
    {
        let r = if self.next_id == u64::MAX {
            Err(String::from_str("link ids exhausted"))
        } else {
            let id = self.take_id();
            Ok(id)
        };
        proof {
            self.log@ = self.log@.push(BackendCall::CreateLink { output_node_id, input_node_id, answer: r });
        }
        r
    }

    fn destroy_link(&mut self, link_id: u64) -> (r: Result<(), String>)
        ensures
            r is Ok,
            final(self).next_id() == old(self).next_id(),
    {
        let r: Result<(), String> = Ok(());
        proof {
            self.log@ = self.log@.push(BackendCall::DestroyLink { link_id, answer: r });
        }
        r
    }

    fn poll_events(&mut self) -> (r: Vec<BackendEvent>)
        ensures
            r@.len() == 0,
            final(self).next_id() == old(self).next_id(),
    {
        let r: Vec<BackendEvent> = Vec::new();
        proof {
            self.log@ = self.log@.push(BackendCall::PollEvents { answer: r@ });
        }
        r
    }
}

} // verus!
