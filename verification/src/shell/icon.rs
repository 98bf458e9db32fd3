//! The icons a channel strip can show. Drawing them is the interface's
//! business.
use vstd::prelude::*;

verus! {

#[derive(Debug, Clone, Copy, PartialEq, Eq, Structural)]
pub enum Icon {
    Speaker,
    Monitor,
    MonitorMuted,
    Stream,
    StreamMuted,
    Microphone,
}

} // verus!
