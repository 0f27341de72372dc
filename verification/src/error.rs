//! What can go wrong in the supervisor.

use vstd::prelude::*;

verus! {

/// Why the supervisor could not do what it was asked.
#[derive(Clone, Copy, Debug, PartialEq, Eq, Structural)]
pub enum Error {
    /// The configuration has no entry for the chain.
    MissingChainConfig,
    /// The runtime of the chain did not start.
    RuntimeSpawn,
    /// No chain has a runtime, so there is nothing to listen to.
    NoChainsAvailable,
    /// The event monitor of a chain failed.
    EventMonitor,
}

} // verus!
