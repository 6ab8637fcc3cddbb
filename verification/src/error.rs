//! The conditions that the library reports to its caller.

use vstd::prelude::*;

verus! {

/// Why an operation could not give a result.
#[derive(Clone, Copy, Debug, PartialEq, Eq, Structural)]
pub enum WarehouseError {
    /// A task was asked of a queue that holds none.
    EmptyQueue,
    /// Every pod is assigned to a robot or waits in the task queue.
    NoPodsAvailable,
}

} // verus!
