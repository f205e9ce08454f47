//! The record that the registry keeps of a party that waits.

use vstd::prelude::*;
use tokio::sync::watch::Sender;
use crate::outcome::{Outcome, TIMEOUT};
use crate::signal::fire;

verus! {

/// What a [`WaiterEntry`] stands for in contracts: the key that the party
/// arrived under, the signal that wakes it, and the time of its arrival.
pub struct Waiter {
    pub key: Seq<char>,
    pub signal: Sender<()>,
    pub arrived: nat,
}

/// A party that arrived first under its key and is waiting for its partner.
pub struct WaiterEntry {
    key: String,
    wake_signal: Sender<()>,
    arrival_time: u64,
}

impl View for WaiterEntry {
    type V = Waiter;

    closed spec fn view(&self) -> Waiter {
        Waiter { key: self.key@, signal: self.wake_signal, arrived: self.arrival_time as nat }
    }
}

impl WaiterEntry {
    /// The end of the wait can be told as a time.
    #[verifier::type_invariant]
    spec fn deadline_fits(self) -> bool {
        self.arrival_time + TIMEOUT <= u64::MAX
    }

    /// The entry of a party that arrived under `key` at `arrival_time` and is
    /// woken by `wake_signal`.
    pub fn new(key: String, wake_signal: Sender<()>, arrival_time: u64) -> (entry: WaiterEntry)
        requires
            arrival_time + TIMEOUT <= u64::MAX,
        ensures
            entry@ == (Waiter { key: key@, signal: wake_signal, arrived: arrival_time as nat }),
    {
        WaiterEntry { key, wake_signal, arrival_time }
    }

    /// The key that the party arrived under.
    pub fn key(&self) -> (key: &String)
        ensures
            key@ == self@.key,
    {
        &self.key
    }

    /// The signal that wakes the party.
    pub fn wake_signal(&self) -> (signal: &Sender<()>)
        ensures
            *signal == self@.signal,
    {
        &self.wake_signal
    }

    /// The time at which the entry was made.
    pub fn arrival_time(&self) -> (time: u64)
        ensures
            time == self@.arrived,
    {
        self.arrival_time
    }

    /// The time at which the party's wait runs out, [`TIMEOUT`] time units
    /// after its arrival.
    pub fn deadline(&self) -> (time: u64)
        ensures
            time == self@.arrived + TIMEOUT,
    {
        proof {
            use_type_invariant(self);
        }
        self.arrival_time + TIMEOUT
    }

    /// Fires the signal of this waiting party, once, and gives the outcome of
    /// the party that fires it: it is paired. A signal that nobody listens to
    /// any more is fired in vain, which changes nothing for the caller.
    pub fn wake(self) -> (outcome: Outcome)
        ensures
            outcome == Outcome::Paired,
    {
        let _delivered: bool = fire(&self.wake_signal);
        Outcome::Paired
    }
}

} // verus!
