//! Navigation and task assignment for robots on a fixed warehouse grid.
//!
//! The grid holds pod-storage rows, two vertical highway lanes and open
//! floor. The library offers a one-step movement policy, the selection of an
//! unclaimed pod, and a first-in first-out queue of pending tasks.

pub mod error;
pub mod grid;
pub mod pods;
pub mod policy;
pub mod position;
pub mod queue;
