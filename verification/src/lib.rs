//! A verified model of a cross-process shared-value handle.
//!
//! The library models a named shared-memory segment holding a process-shared
//! mutex, an attachment counter and a typed payload.  A `Registry` stands for
//! the host's shared-memory namespace, an `IpcArc` for one attachment to one
//! segment.  Every lifecycle decision — create-or-open fallback, single
//! initialization, counter transitions, destroy-on-last-detach — is stated in
//! contracts and proved.

use vstd::prelude::*;

pub mod ipc_arc;
pub mod laws;
pub mod layout;
pub mod registry;

verus! {

/// The errors a lifecycle call can return.  Protocol violations (a misused
/// mutex, a counter driven below zero) are not errors: they are excluded by
/// preconditions, as the real system treats them as fatal.
#[derive(Clone, Copy, Debug, PartialEq, Eq, Structural)]
pub enum IpcError {
    /// The name is not present in the namespace.
    NotFound,
    /// The caller may not create or open the segment.
    PermissionDenied,
    /// Creating, resizing or mapping the segment exhausted a resource.
    ResourceExhausted,
    /// Any other platform error, by its raw code.
    Platform(i32),
}

/// The decision at the heart of detaching: given the counter value a
/// compare-and-exchange loop observed, return the value to store and whether
/// this detacher is the one that destroys the segment.  Exactly the caller
/// that observes the one-to-zero transition destroys; every other caller
/// merely decrements.
pub fn detach_decision(observed: usize) -> (r: (usize, bool))
    requires
        1 <= observed,
    ensures
        r.0 == observed - 1,
        r.1 <==> observed == 1,
{
    (observed - 1, observed == 1)
}

} // verus!
