use vstd::prelude::*;

verus! {

/// Opaque, stable identifier of a remote peer.
pub type PeerId = u64;

/// Identifier of an outbound substream request, allocated in increasing order.
pub type SubstreamId = u64;

/// Who initiated a substream.
#[derive(Clone, Copy, Debug, PartialEq, Eq, Structural)]
pub enum Direction {
    Inbound,
    Outbound,
}

/// An interned protocol path such as `/notif/1`.
#[derive(Clone, Copy, Debug, PartialEq, Eq)]
pub struct ProtocolName {
    pub path: &'static str,
}

impl ProtocolName {
    pub fn new(path: &'static str) -> (r: ProtocolName)
        ensures
            r.path == path,
    {
        ProtocolName { path }
    }
}

/// A live substream held by the driver on behalf of the state machine.
///
/// The state machine never touches the bytes of a substream: it owns the
/// handle, and asks the driver to negotiate on it, write to it or close it.
#[derive(Clone, Copy, Debug, PartialEq, Eq, Structural)]
pub struct SubstreamHandle {
    pub id: u64,
}

} // verus!
