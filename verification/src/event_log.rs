//! The bounded event log: one log per caller identity.

use crate::address::Address;
use crate::entry::pairs_view;
use crate::log::KeyedLog;
use crate::model::{recent, stored_log, updated, within_capacity, Record, CAPACITY};
use crate::timestamp::Timestamp;
use vstd::prelude::*;

verus! {

/// Whether one of `logs` belongs to `key`.
spec fn holds(logs: Seq<KeyedLog>, key: Seq<u8>) -> bool {
    exists|i: int| 0 <= i < logs.len() && (#[trigger] logs[i]).owner() == key
}

/// The place of the log that belongs to `key`, where `logs` holds one.
spec fn slot_of(logs: Seq<KeyedLog>, key: Seq<u8>) -> int {
    choose|i: int| 0 <= i < logs.len() && (#[trigger] logs[i]).owner() == key
}

/// Whether no two of `logs` belong to the same identity.
spec fn distinct_owners(logs: Seq<KeyedLog>) -> bool {
    forall|i: int, j: int|
        0 <= i < j < logs.len() ==> (#[trigger] logs[i]).owner() != (#[trigger] logs[j]).owner()
}

/// The table that `logs` stand for: each owner with its records.
spec fn table(logs: Seq<KeyedLog>) -> Map<Seq<u8>, Seq<Record>> {
    Map::new(|key: Seq<u8>| holds(logs, key), |key: Seq<u8>| logs[slot_of(logs, key)]@)
}

/// Where owners are distinct, the log at place `i` is the one that the table
/// holds for its owner.
proof fn lemma_table_at(logs: Seq<KeyedLog>, i: int)
    requires
        distinct_owners(logs),
        0 <= i < logs.len(),
    ensures
        table(logs).contains_key(logs[i].owner()),
        table(logs)[logs[i].owner()] == logs[i]@,
{
    let key = logs[i].owner();
    assert(holds(logs, key));
    let j = slot_of(logs, key);
    assert(0 <= j < logs.len() && logs[j].owner() == key);
    if j < i {
        assert(logs[j].owner() != logs[i].owner());
    } else if i < j {
        assert(logs[i].owner() != logs[j].owner());
    }
}

/// A table of logs by caller identity. A log comes into being with the first
/// record of its owner and is never removed.
pub struct BoundedEventLog {
    logs: Vec<KeyedLog>,
}

impl View for BoundedEventLog {
    type V = Map<Seq<u8>, Seq<Record>>;

    closed spec fn view(&self) -> Map<Seq<u8>, Seq<Record>> {
        table(self.logs@)
    }
}

impl BoundedEventLog {
    #[verifier::type_invariant]
    spec fn well_formed(&self) -> bool {
        &&& distinct_owners(self.logs@)
        &&& forall|i: int| 0 <= i < self.logs@.len() ==> (#[trigger] self.logs@[i])@.len() <= CAPACITY
    }

    /// The table without any log.
    pub fn new() -> (store: BoundedEventLog)
        ensures
            store@ == Map::<Seq<u8>, Seq<Record>>::empty(),
    {
        let store = BoundedEventLog { logs: Vec::new() };
        assert(store@ =~= Map::<Seq<u8>, Seq<Record>>::empty());
        store
    }

    /// The place of the log of `key`, if the table holds one.
    fn find(logs: &Vec<KeyedLog>, key: &Address) -> (slot: Option<usize>)
        ensures
            match slot {
                Some(i) => i < logs@.len() && logs@[i as int].owner() == key@,
                None => !holds(logs@, key@),
            },
    {
        let mut i: usize = 0;
        while i < logs.len()
            invariant
                i <= logs@.len(),
                forall|j: int| 0 <= j < i ==> (#[trigger] logs@[j]).owner() != key@,
            decreases logs@.len() - i,
        {
            if logs[i].key() == *key {
                return Some(i);
            }
            i += 1;
        }
        None
    }

    /// The log of `key`, if the table holds one.
    pub fn log(&self, key: Address) -> (found: Option<&KeyedLog>)
        ensures
            match found {
                Some(log) => self@.contains_key(key@) && log@ == self@[key@] && log.owner() == key@,
                None => !self@.contains_key(key@),
            },
            within_capacity(self@),
    {
        proof {
            use_type_invariant(self);
            self.lemma_within_capacity();
        }
        match Self::find(&self.logs, &key) {
            Some(i) => {
                proof {
                    lemma_table_at(self.logs@, i as int);
                }
                Some(&self.logs[i])
            },
            None => None,
        }
    }

    /// No log of a well-formed table holds more than `CAPACITY` records.
    proof fn lemma_within_capacity(&self)
        requires
            self.well_formed(),
        ensures
            within_capacity(self@),
    {
        assert forall|key: Seq<u8>| self@.contains_key(key) implies (#[trigger] self@[key]).len()
            <= CAPACITY by {
            let j = slot_of(self.logs@, key);
            assert(0 <= j < self.logs@.len() && self.logs@[j].owner() == key);
        }
    }

    /// Appends the record `(payload, now)` to the log of `key`, which comes
    /// into being if the table held none, and returns the record's timestamp.
    /// The logs of other identities stay as they were.
    pub fn append(&mut self, key: Address, payload: String, now: Timestamp) -> (stamp: Timestamp)
        ensures
            stamp == now,
            final(self)@ == updated(
                old(self)@,
                key@,
                Record { payload: payload@, timestamp: now@ },
            ),
            within_capacity(final(self)@),
    {
        proof {
            use_type_invariant(&*self);
        }
        let ghost rec = Record { payload: payload@, timestamp: now@ };
        let ghost before = self.logs@;
        // The logs leave the table while one of them changes.
        let mut logs: Vec<KeyedLog> = Vec::new();
        std::mem::swap(&mut self.logs, &mut logs);
        match Self::find(&logs, &key) {
            Some(i) => {
                proof {
                    lemma_table_at(before, i as int);
                }
                logs[i].append(payload, now);
                proof {
                    lemma_table_after_change(before, logs@, i as int);
                }
            },
            None => {
                let mut log = KeyedLog::new(key);
                log.append(payload, now);
                logs.push(log);
                proof {
                    assert(logs@.drop_last() =~= before);
                    lemma_table_after_push(before, logs@);
                }
            },
        }
        self.logs = logs;
        proof {
            self.lemma_within_capacity();
        }
        now
    }

    /// The records of `key` whose timestamp is no earlier than `WINDOW_SECS`
    /// before `now`, oldest first. An identity without a log has none.
    pub fn query_recent(&self, key: Address, now: Timestamp) -> (found: Vec<(String, Timestamp)>)
        ensures
            pairs_view(found@) == recent(stored_log(self@, key@), now@),
            !self@.contains_key(key@) ==> found@.len() == 0,
    {
        match self.log(key) {
            Some(log) => log.query_recent(now),
            None => {
                let found: Vec<(String, Timestamp)> = Vec::new();
                proof {
                    reveal(Seq::filter);
                    assert(pairs_view(found@) =~= Seq::<Record>::empty());
                }
                found
            },
        }
    }
}

/// Changing the records of the log at place `i` changes the table at its
/// owner and nowhere else.
proof fn lemma_table_after_change(before: Seq<KeyedLog>, after: Seq<KeyedLog>, i: int)
    requires
        distinct_owners(before),
        0 <= i < before.len(),
        after.len() == before.len(),
        after[i].owner() == before[i].owner(),
        forall|j: int| 0 <= j < before.len() && j != i ==> after[j] == before[j],
    ensures
        distinct_owners(after),
        table(after) == table(before).insert(before[i].owner(), after[i]@),
{
    assert forall|j: int| 0 <= j < before.len() implies (#[trigger] after[j]).owner()
        == before[j].owner() by {}
    assert(distinct_owners(after)) by {
        assert forall|a: int, b: int| 0 <= a < b < after.len() implies (#[trigger] after[a]).owner()
            != (#[trigger] after[b]).owner() by {
            assert(before[a].owner() != before[b].owner());
        }
    }
    let goal = table(before).insert(before[i].owner(), after[i]@);
    assert forall|key: Seq<u8>| table(after).contains_key(key) == goal.contains_key(key) by {
        if holds(after, key) {
            let j = slot_of(after, key);
            assert(before[j].owner() == key);
        }
        if holds(before, key) {
            let j = slot_of(before, key);
            assert(after[j].owner() == key);
        }
        lemma_table_at(after, i);
    }
    assert forall|key: Seq<u8>| table(after).contains_key(key) implies table(after)[key]
        == goal[key] by {
        let j = slot_of(after, key);
        assert(0 <= j < after.len() && after[j].owner() == key);
        lemma_table_at(after, j);
        if j != i {
            lemma_table_at(before, j);
        }
    }
    assert(table(after) =~= goal);
}

/// Adding the log of an identity that had none adds it to the table and
/// changes nothing else.
proof fn lemma_table_after_push(before: Seq<KeyedLog>, after: Seq<KeyedLog>)
    requires
        distinct_owners(before),
        after.len() == before.len() + 1,
        after.drop_last() == before,
        !holds(before, after.last().owner()),
    ensures
        distinct_owners(after),
        table(after) == table(before).insert(after.last().owner(), after.last()@),
{
    let n = before.len() as int;
    assert forall|j: int| 0 <= j < n implies (#[trigger] after[j]) == before[j] by {
        assert(after.drop_last()[j] == after[j]);
    }
    assert(distinct_owners(after)) by {
        assert forall|a: int, b: int| 0 <= a < b < after.len() implies (#[trigger] after[a]).owner()
            != (#[trigger] after[b]).owner() by {
            if b < n {
                assert(before[a].owner() != before[b].owner());
            } else {
                assert(before[a].owner() == after[a].owner());
            }
        }
    }
    let goal = table(before).insert(after.last().owner(), after.last()@);
    assert forall|key: Seq<u8>| table(after).contains_key(key) == goal.contains_key(key) by {
        if holds(after, key) {
            let j = slot_of(after, key);
            if j < n {
                assert(before[j].owner() == key);
            }
        }
        if holds(before, key) {
            let j = slot_of(before, key);
            assert(after[j].owner() == key);
        }
        lemma_table_at(after, n);
    }
    assert forall|key: Seq<u8>| table(after).contains_key(key) implies table(after)[key]
        == goal[key] by {
        let j = slot_of(after, key);
        assert(0 <= j < after.len() && after[j].owner() == key);
        lemma_table_at(after, j);
        if j < n {
            lemma_table_at(before, j);
        }
    }
    assert(table(after) =~= goal);
}

} // verus!
