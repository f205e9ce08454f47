//! What holds of every registry, whatever the calls made on it.
//!
//! Each law is stated over the map that a [`Registry`](crate::Registry)
//! stands for and over the functions of [`model`](crate::model), which are
//! the terms in which the registry's own contracts are written.

use vstd::prelude::*;
use crate::model::{
    after_arrival, after_call, after_calls, after_timeout, filed_by_key, leaves_alone,
    pairs_at_once, Call,
};
use crate::outcome::{Outcome, WaitEvent};
use crate::waiter::Waiter;

verus! {

/// Two parties that arrive under one key, the second after the first has been
/// filed, are paired with each other. The first does not pair at once: it is
/// filed and waits. The second pairs at once, the entry that it is handed is
/// the first party's, so it is the first party's signal that it fires, and the
/// first party, once woken, is paired too. Afterwards the registry is as it was
/// before the two arrived.
pub proof fn law_second_arrival_pairs(
    waiting: Map<Seq<char>, Waiter>,
    first: Waiter,
    second: Waiter,
)
    requires
        !pairs_at_once(waiting, first.key),
        second.key == first.key,
    ensures
        pairs_at_once(after_arrival(waiting, first), second.key),
        after_arrival(waiting, first)[second.key] == first,
        after_arrival(after_arrival(waiting, first), second) == waiting,
        WaitEvent::Woken.spec_outcome() == Outcome::Paired,
{
    assert(after_arrival(after_arrival(waiting, first), second) =~= waiting);
}

/// A call about one key changes nothing under any other key: whether a party
/// waits there, and which.
pub proof fn law_call_keeps_other_keys(waiting: Map<Seq<char>, Waiter>, call: Call, key: Seq<char>)
    requires
        call.key() != key,
    ensures
        pairs_at_once(after_call(waiting, call), key) == pairs_at_once(waiting, key),
        pairs_at_once(waiting, key) ==> after_call(waiting, call)[key] == waiting[key],
{
}

/// Two calls about different keys can be made in either order: the registry
/// ends up the same, and each call finds under its own key what it would have
/// found had it come first.
pub proof fn law_calls_on_distinct_keys_commute(
    waiting: Map<Seq<char>, Waiter>,
    one: Call,
    other: Call,
)
    requires
        one.key() != other.key(),
    ensures
        after_call(after_call(waiting, one), other) == after_call(after_call(waiting, other), one),
        pairs_at_once(after_call(waiting, one), other.key()) == pairs_at_once(
            waiting,
            other.key(),
        ),
        pairs_at_once(after_call(waiting, other), one.key()) == pairs_at_once(waiting, one.key()),
{
    assert(after_call(after_call(waiting, one), other) =~= after_call(
        after_call(waiting, other),
        one,
    ));
}

/// However many calls are made about other keys, what is filed under `key`
/// stays as it is.
pub proof fn law_calls_keep_other_keys(
    waiting: Map<Seq<char>, Waiter>,
    calls: Seq<Call>,
    key: Seq<char>,
)
    requires
        leaves_alone(calls, key),
    ensures
        pairs_at_once(after_calls(waiting, calls), key) == pairs_at_once(waiting, key),
        pairs_at_once(waiting, key) ==> after_calls(waiting, calls)[key] == waiting[key],
    decreases calls.len(),
{
    if calls.len() > 0 {
        let earlier = calls.drop_last();
        assert forall|i: int| 0 <= i < earlier.len() implies (#[trigger] earlier[i]).key()
            != key by {
            assert(earlier[i] == calls[i]);
        }
        law_calls_keep_other_keys(waiting, earlier, key);
        assert(calls[calls.len() - 1].key() != key);
        law_call_keeps_other_keys(after_calls(waiting, earlier), calls.last(), key);
    }
}

/// A party that has been filed is still there after any run of calls about
/// other keys, and it is gone after the next call about its own key. Where
/// that call is its partner's arrival, the partner pairs at once, and with
/// that party.
pub proof fn law_filed_party_meets_next_call(
    waiting: Map<Seq<char>, Waiter>,
    first: Waiter,
    others: Seq<Call>,
    next: Call,
)
    requires
        !pairs_at_once(waiting, first.key),
        leaves_alone(others, first.key),
        next.key() == first.key,
    ensures
        pairs_at_once(after_calls(after_arrival(waiting, first), others), first.key),
        after_calls(after_arrival(waiting, first), others)[first.key] == first,
        !pairs_at_once(
            after_call(after_calls(after_arrival(waiting, first), others), next),
            first.key,
        ),
{
    law_calls_keep_other_keys(after_arrival(waiting, first), others, first.key);
}

/// After a timeout under `key` nothing is filed there, so the next party to
/// arrive under `key` is a first party again: it is filed and waits for a
/// partner of its own.
pub proof fn law_timeout_cleans_up(waiting: Map<Seq<char>, Waiter>, key: Seq<char>, next: Waiter)
    requires
        next.key == key,
    ensures
        !pairs_at_once(after_timeout(waiting, key), key),
        pairs_at_once(after_arrival(after_timeout(waiting, key), next), key),
        after_arrival(after_timeout(waiting, key), next)[key] == next,
{
}

/// A party that is filed and then times out leaves the registry as it found
/// it.
pub proof fn law_timeout_undoes_arrival(waiting: Map<Seq<char>, Waiter>, first: Waiter)
    requires
        !pairs_at_once(waiting, first.key),
    ensures
        after_timeout(after_arrival(waiting, first), first.key) == waiting,
{
    assert(after_timeout(after_arrival(waiting, first), first.key) =~= waiting);
}

/// A timeout under a key that nothing is filed under changes nothing, so a
/// second timeout after a first one, or one that comes after the pairing, is
/// harmless.
pub proof fn law_timeout_is_idempotent(waiting: Map<Seq<char>, Waiter>, key: Seq<char>)
    ensures
        !pairs_at_once(waiting, key) ==> after_timeout(waiting, key) == waiting,
        after_timeout(after_timeout(waiting, key), key) == after_timeout(waiting, key),
{
    if !pairs_at_once(waiting, key) {
        assert(after_timeout(waiting, key) =~= waiting);
    }
    assert(after_timeout(after_timeout(waiting, key), key) =~= after_timeout(waiting, key));
}

/// An entry leaves the registry once. A party that waits under a key is gone
/// after the next call about that key, be it its partner's arrival or a
/// timeout, so no later party is handed the same entry.
pub proof fn law_entry_leaves_once(waiting: Map<Seq<char>, Waiter>, call: Call)
    requires
        pairs_at_once(waiting, call.key()),
    ensures
        !pairs_at_once(after_call(waiting, call), call.key()),
{
}

/// A wait ends with one outcome, never both and never neither: paired if the
/// party was woken, timed out if its deadline passed.
pub proof fn law_one_outcome_per_wait(event: WaitEvent)
    ensures
        (event.spec_outcome() == Outcome::Paired) != (event.spec_outcome() == Outcome::TimedOut),
        event.spec_outcome() == Outcome::Paired <==> event == WaitEvent::Woken,
        event.spec_outcome() == Outcome::TimedOut <==> event == WaitEvent::Elapsed,
{
}

/// Calls keep every party filed under its own key.
pub proof fn law_calls_keep_filing(waiting: Map<Seq<char>, Waiter>, calls: Seq<Call>)
    requires
        filed_by_key(waiting),
    ensures
        filed_by_key(after_calls(waiting, calls)),
    decreases calls.len(),
{
    if calls.len() > 0 {
        law_calls_keep_filing(waiting, calls.drop_last());
    }
}

} // verus!
