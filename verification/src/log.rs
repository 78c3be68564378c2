//! The log of one caller: at most `CAPACITY` records, oldest first.

use crate::address::Address;
use crate::entry::{entries_view, pairs_view, StatEntry};
use crate::model::{appended, is_recent, recent, Record, CAPACITY};
use crate::timestamp::{window_start, Timestamp};
use vstd::prelude::*;

verus! {

/// The records of one caller in insertion order, never more than `CAPACITY`.
pub struct KeyedLog {
    key: Address,
    entries: Vec<StatEntry>,
}

impl View for KeyedLog {
    type V = Seq<Record>;

    closed spec fn view(&self) -> Seq<Record> {
        entries_view(self.entries@)
    }
}

impl KeyedLog {
    #[verifier::type_invariant]
    spec fn within_capacity(&self) -> bool {
        self.entries@.len() <= CAPACITY
    }

    /// The identity that owns the log.
    pub closed spec fn owner(&self) -> Seq<u8> {
        self.key@
    }

    /// The empty log of `key`.
    pub fn new(key: Address) -> (log: KeyedLog)
        ensures
            log.owner() == key@,
            log@ == Seq::<Record>::empty(),
    {
        let log = KeyedLog { key, entries: Vec::new() };
        assert(log@ =~= Seq::<Record>::empty());
        log
    }

    /// The identity that owns the log.
    pub fn key(&self) -> (key: Address)
        ensures
            key@ == self.owner(),
    {
        self.key
    }

    /// The number of records held.
    pub fn len(&self) -> (n: usize)
        ensures
            n == self@.len(),
            n <= CAPACITY,
    {
        proof {
            use_type_invariant(self);
        }
        self.entries.len()
    }

    /// The records held, oldest first.
    pub fn entries(&self) -> (entries: &Vec<StatEntry>)
        ensures
            entries_view(entries@) == self@,
            entries@.len() <= CAPACITY,
    {
        proof {
            use_type_invariant(self);
        }
        &self.entries
    }

    /// Appends the record `(payload, now)`. A log below capacity grows by one;
    /// a full log drops its oldest record and keeps the others in order.
    pub fn append(&mut self, payload: String, now: Timestamp)
        ensures
            final(self).owner() == old(self).owner(),
            final(self)@ == appended(old(self)@, Record { payload: payload@, timestamp: now@ }),
    {
        proof {
            use_type_invariant(&*self);
        }
        // The records leave the log while they change: it holds no more than
        // its capacity at any moment.
        let mut entries: Vec<StatEntry> = Vec::new();
        std::mem::swap(&mut self.entries, &mut entries);
        if entries.len() >= CAPACITY {
            entries.remove(0);
        }
        entries.push(StatEntry { stats_json: payload, timestamp: now });
        self.entries = entries;
        assert(self@ =~= appended(old(self)@, Record { payload: payload@, timestamp: now@ }));
    }

    /// The records whose timestamp is no earlier than `WINDOW_SECS` before
    /// `now`, oldest first, as `(payload, timestamp)` pairs.
    pub fn query_recent(&self, now: Timestamp) -> (found: Vec<(String, Timestamp)>)
        ensures
            pairs_view(found@) == recent(self@, now@),
    {
        let start = now.window_start();
        let mut found: Vec<(String, Timestamp)> = Vec::new();
        let mut i: usize = 0;
        proof {
            reveal(Seq::filter);
            assert(self@.take(0) =~= Seq::<Record>::empty());
            assert(pairs_view(found@) =~= Seq::<Record>::empty());
        }
        while i < self.entries.len()
            invariant
                i <= self.entries.len(),
                start@ == window_start(now@),
                pairs_view(found@) == recent(self@.take(i as int), now@),
            decreases self.entries.len() - i,
        {
            let entry = &self.entries[i];
            let ghost before = pairs_view(found@);
            if entry.timestamp.at_least(start) {
                found.push((entry.stats_json.clone(), entry.timestamp));
                assert(pairs_view(found@) =~= before.push(entry@));
            }
            proof {
                assert(self@.take(i + 1) =~= self@.take(i as int).push(entry@));
                self@.take(i as int).lemma_filter_push(entry@, is_recent(now@));
            }
            i += 1;
        }
        assert(self@.take(i as int) =~= self@);
        found
    }
}

} // verus!
