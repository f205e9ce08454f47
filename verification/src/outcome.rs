//! How a rendezvous ends, and what ends a wait.

use vstd::prelude::*;

verus! {

/// The longest a first party waits for its partner, in time units, counted
/// from the moment its entry was made.
pub const TIMEOUT: u64 = 10;

/// How a call to the registry ends for the party that made it.
#[derive(Clone, Copy, Debug, PartialEq, Eq, Structural)]
pub enum Outcome {
    /// The partner arrived under the same key.
    Paired,
    /// No partner arrived within [`TIMEOUT`] time units.
    TimedOut,
}

/// Which of the two events that a waiting party races came first.
#[derive(Clone, Copy, Debug, PartialEq, Eq, Structural)]
pub enum WaitEvent {
    /// The wake signal fired.
    Woken,
    /// The deadline passed.
    Elapsed,
}

impl WaitEvent {
    /// The outcome that an event stands for.
    pub open spec fn spec_outcome(self) -> Outcome {
        match self {
            WaitEvent::Woken => Outcome::Paired,
            WaitEvent::Elapsed => Outcome::TimedOut,
        }
    }

    /// The outcome of a wait that this event ended: a woken party is paired,
    /// one whose deadline passed has timed out.
    #[verifier::when_used_as_spec(spec_outcome)]
    pub fn outcome(self) -> (outcome: Outcome)
        ensures
            outcome == self.spec_outcome(),
    {
        match self {
            WaitEvent::Woken => Outcome::Paired,
            WaitEvent::Elapsed => Outcome::TimedOut,
        }
    }
}

} // verus!
