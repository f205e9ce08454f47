//! A rendezvous registry: two parties that name the same key meet.
//!
//! The first party to arrive under a key is filed in the [`Registry`] and
//! waits, for at most [`TIMEOUT`] time units, on the listening end of a wake
//! signal. The second party to arrive under that key takes the first one's
//! entry out of the registry and fires its signal. Both are then paired. A
//! first party whose wait runs out removes whatever is filed under its key and
//! leaves with a timeout.
//!
//! The registry itself never blocks. Whoever drives it takes a lock around
//! each call, releases it, and only then fires a signal or waits.

pub mod laws;
pub mod model;
pub mod outcome;
pub mod registry;
pub mod signal;
pub mod waiter;

pub use outcome::{Outcome, WaitEvent, TIMEOUT};
pub use registry::{Arrival, Registry};
pub use waiter::{Waiter, WaiterEntry};
