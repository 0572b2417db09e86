//! Dispatcher-mode ingress: the single acceptor hands each socket to the
//! worker chosen by the peer's port. The handoff itself is the runtime's;
//! the choice of worker is specified here.

use vstd::prelude::*;

verus! {

/// The worker that owns a connection in dispatcher mode.
pub open spec fn spec_dispatch_index(peer_port: int, handlers: int) -> int {
    peer_port % handlers
}

/// Chooses the worker for an accepted socket by its peer port.
pub fn dispatch_index(peer_port: u16, handlers: usize) -> (r: usize)
    requires
        handlers >= 1,
    ensures
        r as int == spec_dispatch_index(peer_port as int, handlers as int),
        r < handlers,
{
    (peer_port as usize) % handlers
}

} // verus!
