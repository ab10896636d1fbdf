//! How media is forwarded.
use vstd::prelude::*;

verus! {

/// How media is forwarded within a session.
#[derive(Debug, Clone, Copy, PartialEq, Eq, Structural)]
pub enum ForwardingMode {
    /// Echo received media back to the sender.
    Loopback,
    /// Forward media to all other participants in a room.
    SfuFanOut,
}

} // verus!
