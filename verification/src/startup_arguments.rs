//! Startup configuration that the server logic depends on: the ingress
//! mode, and the worker-count clamping rule (in `utils::thread_utils`).
//! Reading the command line itself is left to the binary around the
//! library.

use vstd::prelude::*;

verus! {

/// How connections are accepted: one listening socket per worker sharing a
/// port, or a single acceptor handing sockets off by peer port.
pub enum Mode {
    ReusePort,
    Dispatcher,
}

impl Mode {
    /// Whether accepted sockets are handed off over a channel rather than
    /// accepted on the owning worker.
    pub fn uses_dispatch_channel(&self) -> (r: bool)
        ensures
            r == (self is Dispatcher),
    {
        match self {
            Mode::Dispatcher => true,
            Mode::ReusePort => false,
        }
    }
}

} // verus!
