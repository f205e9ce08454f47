//! The registry of waiting parties.

use vstd::prelude::*;
use tokio::sync::watch::{Receiver, Sender};
use crate::model::{after_arrival, after_timeout, filed_by_key, pairs_at_once};
use crate::outcome::{Outcome, TIMEOUT};
use crate::signal::open_channel;
use crate::waiter::{Waiter, WaiterEntry};

verus! {

/// What an arrival means for the party that arrived.
pub enum Arrival {
    /// A partner was waiting under the key and has been taken out of the
    /// registry. The party is to wake it, and is then paired.
    Second { partner: WaiterEntry },
    /// Nobody was waiting under the key. The party has been filed and is to
    /// wait on `listener` until it is woken or the time reaches `deadline`.
    First { listener: Receiver<()>, deadline: u64 },
}

/// The parties that wait for a partner, at most one under each key.
pub struct Registry {
    entries: Vec<WaiterEntry>,
}

/// The key of the entry in slot `i`.
spec fn key_at(entries: Seq<WaiterEntry>, i: int) -> Seq<char> {
    entries[i]@.key
}

/// Some entry has the key `key`.
spec fn holds_key(entries: Seq<WaiterEntry>, key: Seq<char>) -> bool {
    exists|i: int| 0 <= i < entries.len() && #[trigger] key_at(entries, i) == key
}

/// A slot whose entry has the key `key`, where there is one.
spec fn slot_of(entries: Seq<WaiterEntry>, key: Seq<char>) -> int {
    choose|i: int| 0 <= i < entries.len() && #[trigger] key_at(entries, i) == key
}

/// No two entries have the same key.
spec fn distinct_keys(entries: Seq<WaiterEntry>) -> bool {
    forall|i: int, j: int|
        0 <= i < j < entries.len() ==> #[trigger] key_at(entries, i) != #[trigger] key_at(
            entries,
            j,
        )
}

/// The entries as a map from each key to the party that waits under it.
spec fn waiting_of(entries: Seq<WaiterEntry>) -> Map<Seq<char>, Waiter> {
    Map::new(
        |key: Seq<char>| holds_key(entries, key),
        |key: Seq<char>| entries[slot_of(entries, key)]@,
    )
}

/// With distinct keys, the entry in slot `i` is the one that the map gives
/// for its key.
proof fn lemma_slot(entries: Seq<WaiterEntry>, i: int)
    requires
        distinct_keys(entries),
        0 <= i < entries.len(),
    ensures
        holds_key(entries, key_at(entries, i)),
        slot_of(entries, key_at(entries, i)) == i,
        waiting_of(entries)[key_at(entries, i)] == entries[i]@,
{
    let key = key_at(entries, i);
    let chosen = slot_of(entries, key);
    assert(0 <= chosen < entries.len() && key_at(entries, chosen) == key);
    if chosen < i {
        assert(key_at(entries, chosen) != key_at(entries, i));
    } else if i < chosen {
        assert(key_at(entries, i) != key_at(entries, chosen));
    }
}

/// An entry with a new key, put at the end, is one more pair of the map.
proof fn lemma_push(entries: Seq<WaiterEntry>, entry: WaiterEntry)
    requires
        distinct_keys(entries),
        !holds_key(entries, entry@.key),
    ensures
        distinct_keys(entries.push(entry)),
        waiting_of(entries.push(entry)) == waiting_of(entries).insert(entry@.key, entry@),
{
    let longer = entries.push(entry);
    let last = entries.len() as int;
    assert forall|i: int| 0 <= i < entries.len() implies key_at(longer, i) == key_at(
        entries,
        i,
    ) by {}
    assert(key_at(longer, last) == entry@.key);
    assert forall|i: int, j: int| 0 <= i < j < longer.len() implies key_at(longer, i) != key_at(
        longer,
        j,
    ) by {
        assert(key_at(longer, i) == key_at(entries, i));
        if j < last {
            assert(key_at(longer, j) == key_at(entries, j));
        }
    }
    let before = waiting_of(entries).insert(entry@.key, entry@);
    let after = waiting_of(longer);
    assert forall|key: Seq<char>| after.contains_key(key) <==> before.contains_key(key) by {
        if after.contains_key(key) {
            let i = slot_of(longer, key);
            if i < last {
                assert(key_at(entries, i) == key);
            }
        }
        if before.contains_key(key) {
            if key == entry@.key {
                assert(key_at(longer, last) == key);
            } else {
                let i = slot_of(entries, key);
                assert(key_at(longer, i) == key);
            }
        }
    }
    assert forall|key: Seq<char>| after.contains_key(key) implies after[key] == before[key] by {
        let i = slot_of(longer, key);
        lemma_slot(longer, i);
        if i < last {
            lemma_slot(entries, i);
        }
    }
    assert(after =~= before);
}

/// Taking the entry out of slot `i`, with the last entry moved into its
/// place, takes its key out of the map and leaves the rest.
proof fn lemma_swap_remove(entries: Seq<WaiterEntry>, i: int)
    requires
        distinct_keys(entries),
        0 <= i < entries.len(),
    ensures
        distinct_keys(entries.update(i, entries.last()).drop_last()),
        waiting_of(entries.update(i, entries.last()).drop_last()) == waiting_of(entries).remove(
            key_at(entries, i),
        ),
{
    let shorter = entries.update(i, entries.last()).drop_last();
    let last = entries.len() - 1;
    let gone = key_at(entries, i);
    // Where each slot of the shorter sequence came from.
    let origin = |j: int| if j == i { last } else { j };
    assert forall|j: int| 0 <= j < shorter.len() implies key_at(shorter, j) == key_at(
        entries,
        origin(j),
    ) && shorter[j] == entries[origin(j)] by {}
    assert forall|j: int, k: int| 0 <= j < k < shorter.len() implies key_at(shorter, j) != key_at(
        shorter,
        k,
    ) by {
        let a = origin(j);
        let b = origin(k);
        assert(key_at(shorter, j) == key_at(entries, a));
        assert(key_at(shorter, k) == key_at(entries, b));
        if a < b {
            assert(key_at(entries, a) != key_at(entries, b));
        } else {
            assert(key_at(entries, b) != key_at(entries, a));
        }
    }
    let before = waiting_of(entries).remove(gone);
    let after = waiting_of(shorter);
    assert forall|key: Seq<char>| after.contains_key(key) <==> before.contains_key(key) by {
        if after.contains_key(key) {
            let j = slot_of(shorter, key);
            let a = origin(j);
            assert(key_at(entries, a) == key);
            if a < i {
                assert(key_at(entries, a) != key_at(entries, i));
            } else {
                assert(key_at(entries, i) != key_at(entries, a));
            }
        }
        if before.contains_key(key) {
            let a = slot_of(entries, key);
            assert(a != i);
            if a == last {
                assert(key_at(shorter, i) == key);
            } else {
                assert(key_at(shorter, a) == key);
            }
        }
    }
    assert forall|key: Seq<char>| after.contains_key(key) implies after[key] == before[key] by {
        let j = slot_of(shorter, key);
        lemma_slot(shorter, j);
        lemma_slot(entries, origin(j));
    }
    assert(after =~= before);
}

/// With distinct keys, the map has one pair for each entry.
proof fn lemma_len(entries: Seq<WaiterEntry>)
    requires
        distinct_keys(entries),
    ensures
        waiting_of(entries).dom().finite(),
        waiting_of(entries).len() == entries.len(),
    decreases entries.len(),
{
    if entries.len() == 0 {
        assert(waiting_of(entries) =~= Map::<Seq<char>, Waiter>::empty());
    } else {
        let earlier = entries.drop_last();
        let last = entries.last();
        assert forall|i: int| 0 <= i < earlier.len() implies key_at(earlier, i) == key_at(
            entries,
            i,
        ) by {}
        assert(key_at(entries, entries.len() - 1) == last@.key);
        lemma_len(earlier);
        lemma_push(earlier, last);
        assert(earlier.push(last) =~= entries);
    }
}

impl View for Registry {
    type V = Map<Seq<char>, Waiter>;

    closed spec fn view(&self) -> Map<Seq<char>, Waiter> {
        waiting_of(self.entries@)
    }
}

impl Registry {
    #[verifier::type_invariant]
    spec fn well_formed(self) -> bool {
        distinct_keys(self.entries@)
    }

    /// A registry in which nobody waits.
    pub fn new() -> (registry: Registry)
        ensures
            registry@ == Map::<Seq<char>, Waiter>::empty(),
    {
        let registry = Registry { entries: Vec::new() };
        assert(registry@ =~= Map::<Seq<char>, Waiter>::empty());
        registry
    }

    /// Every party in a registry is filed under the key that it arrived with.
    pub proof fn lemma_filed_by_key(self)
        ensures
            filed_by_key(self@),
    {
        assert forall|key: Seq<char>| #[trigger] self@.contains_key(key) implies self@[key].key
            == key by {
            let slot = slot_of(self.entries@, key);
            assert(key_at(self.entries@, slot) == key);
        }
    }

    /// The number of parties that wait.
    pub fn len(&self) -> (len: usize)
        ensures
            self@.dom().finite(),
            len == self@.len(),
    {
        proof {
            use_type_invariant(self);
            lemma_len(self.entries@);
        }
        self.entries.len()
    }

    /// Whether nobody waits.
    pub fn is_empty(&self) -> (empty: bool)
        ensures
            empty == (self@ == Map::<Seq<char>, Waiter>::empty()),
    {
        proof {
            use_type_invariant(self);
            lemma_len(self.entries@);
            if self.entries@.len() == 0 {
                assert(self@ =~= Map::<Seq<char>, Waiter>::empty());
            }
        }
        self.entries.len() == 0
    }

    /// The slot that holds the entry for `key`, if a party waits under it.
    fn position(&self, key: &String) -> (slot: Option<usize>)
        ensures
            slot is Some ==> slot->0 < self.entries.len() && key_at(self.entries@, slot->0 as int)
                == key@,
            slot is None ==> !holds_key(self.entries@, key@),
    {
        let mut i: usize = 0;
        while i < self.entries.len()
            invariant
                i <= self.entries.len(),
                forall|j: int| 0 <= j < i ==> key_at(self.entries@, j) != key@,
            decreases self.entries.len() - i,
        {
            if *self.entries[i].key() == *key {
                return Some(i);
            }
            i += 1;
        }
        None
    }

    /// Takes the entry out of slot `slot`.
    fn take(&mut self, slot: usize) -> (entry: WaiterEntry)
        requires
            slot < old(self).entries.len(),
        ensures
            entry@ == old(self)@[key_at(old(self).entries@, slot as int)],
            entry@.key == key_at(old(self).entries@, slot as int),
            final(self)@ == old(self)@.remove(key_at(old(self).entries@, slot as int)),
    {
        proof {
            use_type_invariant(&*self);
            lemma_slot(self.entries@, slot as int);
            lemma_swap_remove(self.entries@, slot as int);
        }
        let mut entries: Vec<WaiterEntry> = Vec::new();
        std::mem::swap(&mut entries, &mut self.entries);
        let entry = entries.swap_remove(slot);
        self.entries = entries;
        entry
    }

    /// Files `entry`, under whose key nobody waits.
    fn file(&mut self, entry: WaiterEntry)
        requires
            !old(self)@.contains_key(entry@.key),
        ensures
            final(self)@ == old(self)@.insert(entry@.key, entry@),
    {
        proof {
            use_type_invariant(&*self);
            lemma_push(self.entries@, entry);
        }
        let mut entries: Vec<WaiterEntry> = Vec::new();
        std::mem::swap(&mut entries, &mut self.entries);
        entries.push(entry);
        self.entries = entries;
    }

    /// A party arrives under `key` at the time `now`, with the two ends of a
    /// wake signal of its own.
    ///
    /// Where a partner is waiting under `key`, the partner's entry leaves the
    /// registry and is handed to the caller, and the two ends that the caller
    /// brought are dropped. Where nobody is waiting, the party is filed under
    /// `key` with `signal`, and gets `listener` back together with the time
    /// at which its wait runs out.
    pub fn arrive_with(
        &mut self,
        key: String,
        signal: Sender<()>,
        listener: Receiver<()>,
        now: u64,
    ) -> (arrival: Arrival)
        requires
            now + TIMEOUT <= u64::MAX,
        ensures
            final(self)@ == after_arrival(
                old(self)@,
                (Waiter { key: key@, signal: signal, arrived: now as nat }),
            ),
            arrival is Second <==> pairs_at_once(old(self)@, key@),
            arrival is Second ==> arrival->partner@ == old(self)@[key@] && arrival->partner@.key
                == key@,
            arrival is First ==> arrival->listener == listener && arrival->deadline == now
                + TIMEOUT,
    {
        match self.position(&key) {
            Some(slot) => {
                let partner = self.take(slot);
                Arrival::Second { partner }
            },
            None => {
                let entry = WaiterEntry::new(key, signal, now);
                let deadline = entry.deadline();
                self.file(entry);
                Arrival::First { listener, deadline }
            },
        }
    }

    /// A party arrives under `key` at the time `now`.
    ///
    /// Where a partner is waiting under `key`, the partner's entry leaves the
    /// registry and is handed to the caller. Where nobody is waiting, the
    /// party is filed under `key` with a fresh wake signal, and gets the
    /// listening end of that signal together with the time at which its wait
    /// runs out. The signal is whichever the channel gave: the registry after
    /// the call is stated with the one that is then on file.
    pub fn arrive(&mut self, key: String, now: u64) -> (arrival: Arrival)
        requires
            now + TIMEOUT <= u64::MAX,
        ensures
            final(self)@ == after_arrival(
                old(self)@,
                (Waiter { key: key@, signal: final(self)@[key@].signal, arrived: now as nat }),
            ),
            arrival is Second <==> pairs_at_once(old(self)@, key@),
            arrival is Second ==> arrival->partner@ == old(self)@[key@] && arrival->partner@.key
                == key@,
            arrival is First ==> arrival->deadline == now + TIMEOUT,
    {
        let (signal, listener) = open_channel();
        self.arrive_with(key, signal, listener, now)
    }

    /// The wait of a party that arrived under `key` has run out: whatever is
    /// filed under `key` is removed, and the party has timed out. Where
    /// nothing is filed under `key`, the registry stays as it is.
    pub fn expire(&mut self, key: &String) -> (outcome: Outcome)
        ensures
            final(self)@ == after_timeout(old(self)@, key@),
            outcome == Outcome::TimedOut,
    {
        match self.position(key) {
            Some(slot) => {
                let _entry = self.take(slot);
            },
            None => {
                assert(self@.remove(key@) =~= self@);
            },
        }
        Outcome::TimedOut
    }

    /// Whether a party waits under `key`.
    pub fn is_waiting(&self, key: &String) -> (waiting: bool)
        ensures
            waiting == self@.contains_key(key@),
    {
        self.position(key).is_some()
    }
}

} // verus!
