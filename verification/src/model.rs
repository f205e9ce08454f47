//! The protocol as a function on maps.
//!
//! The registry is, to its callers, a map from keys to the parties that wait
//! under them. A call either files a party, hands one out, or removes what is
//! filed under a key. The functions here say which, and the contracts of the
//! registry are stated over them.

use vstd::prelude::*;
use crate::waiter::Waiter;

verus! {

/// Whether a party that arrives under `key` finds its partner waiting, and so
/// is paired at once. Otherwise it is the first of its pair and has to wait.
pub open spec fn pairs_at_once(waiting: Map<Seq<char>, Waiter>, key: Seq<char>) -> bool {
    waiting.contains_key(key)
}

/// The registry after `party` has arrived: where a partner was waiting under
/// its key, that partner has left the registry; where none was, `party` itself
/// is now filed there.
pub open spec fn after_arrival(waiting: Map<Seq<char>, Waiter>, party: Waiter) -> Map<
    Seq<char>,
    Waiter,
> {
    if pairs_at_once(waiting, party.key) {
        waiting.remove(party.key)
    } else {
        waiting.insert(party.key, party)
    }
}

/// The registry after a wait under `key` has run out: nothing is filed under
/// `key` any more, whatever was there before.
pub open spec fn after_timeout(waiting: Map<Seq<char>, Waiter>, key: Seq<char>) -> Map<
    Seq<char>,
    Waiter,
> {
    waiting.remove(key)
}

/// Every party is filed under the key that it arrived with.
pub open spec fn filed_by_key(waiting: Map<Seq<char>, Waiter>) -> bool {
    forall|key: Seq<char>| #[trigger] waiting.contains_key(key) ==> waiting[key].key == key
}

/// One call that changes the registry.
pub enum Call {
    /// A party arrives.
    Arrive { party: Waiter },
    /// The wait of a party that arrived under `key` runs out.
    TimeOut { key: Seq<char> },
}

impl Call {
    /// The key that the call is about.
    pub open spec fn key(self) -> Seq<char> {
        match self {
            Call::Arrive { party } => party.key,
            Call::TimeOut { key } => key,
        }
    }
}

/// The registry after one call.
pub open spec fn after_call(waiting: Map<Seq<char>, Waiter>, call: Call) -> Map<Seq<char>, Waiter> {
    match call {
        Call::Arrive { party } => after_arrival(waiting, party),
        Call::TimeOut { key } => after_timeout(waiting, key),
    }
}

/// The registry after a run of calls, the first of them first.
pub open spec fn after_calls(waiting: Map<Seq<char>, Waiter>, calls: Seq<Call>) -> Map<
    Seq<char>,
    Waiter,
>
    decreases calls.len(),
{
    if calls.len() == 0 {
        waiting
    } else {
        after_call(after_calls(waiting, calls.drop_last()), calls.last())
    }
}

/// No call of the run is about `key`.
pub open spec fn leaves_alone(calls: Seq<Call>, key: Seq<char>) -> bool {
    forall|i: int| 0 <= i < calls.len() ==> (#[trigger] calls[i]).key() != key
}

} // verus!
