//! The mathematical model of a log: a sequence of records, oldest first.

use crate::timestamp::window_start;
use vstd::prelude::*;

verus! {

/// The largest number of records that one log holds.
pub const CAPACITY: usize = 50;

/// A stored record as a value: its payload and the time of its insertion.
pub ghost struct Record {
    pub payload: Seq<char>,
    pub timestamp: nat,
}

/// The notification of one append as a value: who appended what, and when.
pub ghost struct Notice {
    pub user: Seq<u8>,
    pub stats: Seq<char>,
    pub timestamp: nat,
}

/// The log after one more record: the record is added at the end, and a log
/// that was full loses its oldest record for it.
pub open spec fn appended(log: Seq<Record>, rec: Record) -> Seq<Record> {
    if log.len() < CAPACITY {
        log.push(rec)
    } else {
        log.drop_first().push(rec)
    }
}

/// The log after all of `recs` were appended to it in order.
pub open spec fn appended_all(log: Seq<Record>, recs: Seq<Record>) -> Seq<Record>
    decreases recs.len(),
{
    if recs.len() == 0 {
        log
    } else {
        appended(appended_all(log, recs.drop_last()), recs.last())
    }
}

/// Whether a record stamped `timestamp` lies in the recency window that ends
/// at `now`.
pub open spec fn in_window(timestamp: nat, now: nat) -> bool {
    timestamp >= window_start(now)
}

/// The test that a recency query at `now` applies to each record.
pub open spec fn is_recent(now: nat) -> spec_fn(Record) -> bool {
    |rec: Record| in_window(rec.timestamp, now)
}

/// The answer to a recency query at `now`: the records in the window, in
/// stored order.
pub open spec fn recent(log: Seq<Record>, now: nat) -> Seq<Record> {
    log.filter(is_recent(now))
}

/// The log that a table of logs holds for `user`: empty where it holds none.
pub open spec fn stored_log(logs: Map<Seq<u8>, Seq<Record>>, user: Seq<u8>) -> Seq<Record> {
    if logs.contains_key(user) {
        logs[user]
    } else {
        Seq::empty()
    }
}

/// The table after `rec` was appended to the log of `user`: that log comes
/// into being if the table held none, and no other log changes.
pub open spec fn updated(logs: Map<Seq<u8>, Seq<Record>>, user: Seq<u8>, rec: Record) -> Map<
    Seq<u8>,
    Seq<Record>,
> {
    logs.insert(user, appended(stored_log(logs, user), rec))
}

/// The table after all of `recs` were appended to the log of `user` in order.
pub open spec fn updated_all(
    logs: Map<Seq<u8>, Seq<Record>>,
    user: Seq<u8>,
    recs: Seq<Record>,
) -> Map<Seq<u8>, Seq<Record>>
    decreases recs.len(),
{
    if recs.len() == 0 {
        logs
    } else {
        updated(updated_all(logs, user, recs.drop_last()), user, recs.last())
    }
}

/// The newest `CAPACITY` of `recs`, oldest first: all of them where they are
/// no more than that.
pub open spec fn newest(recs: Seq<Record>) -> Seq<Record> {
    if recs.len() <= CAPACITY {
        recs
    } else {
        recs.skip(recs.len() - CAPACITY)
    }
}

/// Whether no log of the table holds more than `CAPACITY` records.
pub open spec fn within_capacity(logs: Map<Seq<u8>, Seq<Record>>) -> bool {
    forall|user: Seq<u8>| logs.contains_key(user) ==> (#[trigger] logs[user]).len() <= CAPACITY
}

} // verus!
