//! What holds of every log, whatever was appended to it and whenever it is
//! queried.

use crate::model::{
    appended, appended_all, in_window, is_recent, newest, recent, stored_log, updated,
    updated_all, within_capacity, Record, CAPACITY,
};
use crate::timestamp::{window_start, WINDOW_SECS};
use vstd::prelude::*;

verus! {

/// A query keeps a record exactly where the record lies in the window, and
/// keeps the records in stored order: the answer to `log` with one more record
/// is the answer to `log`, followed by that record if it lies in the window.
pub proof fn law_query_by_record(log: Seq<Record>, rec: Record, now: nat)
    ensures
        recent(Seq::empty(), now) == Seq::<Record>::empty(),
        recent(log.push(rec), now) == if in_window(rec.timestamp, now) {
            recent(log, now).push(rec)
        } else {
            recent(log, now)
        },
{
    reveal(Seq::filter);
    log.lemma_filter_push(rec, is_recent(now));
}

/// A query returns every record of a log whose records all lie in the window.
pub proof fn law_query_keeps_covered(log: Seq<Record>, now: nat)
    requires
        forall|i: int| 0 <= i < log.len() ==> in_window(#[trigger] log[i].timestamp, now),
    ensures
        recent(log, now) == log,
    decreases log.len(),
{
    if log.len() == 0 {
        law_query_by_record(log, arbitrary(), now);
        assert(log =~= Seq::empty());
    } else {
        let front = log.drop_last();
        assert forall|i: int| 0 <= i < front.len() implies in_window(
            #[trigger] front[i].timestamp,
            now,
        ) by {
            assert(front[i] == log[i]);
        }
        law_query_keeps_covered(front, now);
        law_query_by_record(front, log.last(), now);
        assert(front.push(log.last()) =~= log);
    }
}

/// The records of an answer are records of the log, and each lies in the
/// window.
pub proof fn law_query_selects(log: Seq<Record>, now: nat)
    ensures
        forall|j: int|
            0 <= j < recent(log, now).len() ==> log.contains(#[trigger] recent(log, now)[j])
                && in_window(recent(log, now)[j].timestamp, now),
        forall|i: int|
            0 <= i < log.len() && in_window(log[i].timestamp, now) ==> recent(log, now).contains(
                #[trigger] log[i],
            ),
{
    let found = recent(log, now);
    assert forall|j: int| 0 <= j < found.len() implies log.contains(#[trigger] found[j])
        && in_window(found[j].timestamp, now) by {
        log.lemma_filter_pred(is_recent(now), j);
        assert(found.contains(found[j]));
        log.lemma_filter_contains_rev(is_recent(now), found[j]);
    }
    assert forall|i: int| 0 <= i < log.len() && in_window(log[i].timestamp, now) implies found.contains(
        #[trigger] log[i],
    ) by {
        log.lemma_filter_contains(is_recent(now), i);
    }
}

/// Appending to a log of at most `CAPACITY` records leaves the newest
/// `CAPACITY` of the old records and the new ones together, oldest first.
pub proof fn law_appends_keep_newest(log: Seq<Record>, recs: Seq<Record>)
    requires
        log.len() <= CAPACITY,
    ensures
        appended_all(log, recs) == newest(log + recs),
    decreases recs.len(),
{
    if recs.len() == 0 {
        assert(log + recs =~= log);
    } else {
        let front = recs.drop_last();
        law_appends_keep_newest(log, front);
        let kept = newest(log + front);
        assert((log + front).push(recs.last()) =~= log + recs);
        assert(appended(kept, recs.last()) =~= newest(log + recs));
    }
}

/// Up to `CAPACITY` appends to an empty log are all kept, unchanged and in
/// insertion order, and a query whose window covers all their timestamps
/// returns exactly them.
pub proof fn law_fresh_log_keeps_all(recs: Seq<Record>, now: nat)
    requires
        recs.len() <= CAPACITY,
        forall|i: int| 0 <= i < recs.len() ==> in_window(#[trigger] recs[i].timestamp, now),
    ensures
        appended_all(Seq::empty(), recs) == recs,
        recent(appended_all(Seq::empty(), recs), now) == recs,
{
    law_appends_keep_newest(Seq::empty(), recs);
    assert(Seq::<Record>::empty() + recs =~= recs);
    law_query_keeps_covered(recs, now);
}

/// After more than `CAPACITY` appends to an empty log, the log holds exactly
/// the `CAPACITY` newest records, oldest first: its first record is the one
/// that was appended `CAPACITY` appends before the end.
pub proof fn law_overflow_keeps_newest(recs: Seq<Record>)
    requires
        recs.len() > CAPACITY,
    ensures
        appended_all(Seq::empty(), recs) == recs.skip(recs.len() - CAPACITY),
        appended_all(Seq::empty(), recs).len() == CAPACITY,
        appended_all(Seq::empty(), recs)[0] == recs[recs.len() - CAPACITY],
{
    law_appends_keep_newest(Seq::empty(), recs);
    assert(Seq::<Record>::empty() + recs =~= recs);
}

/// An append to a full log drops the oldest record and no other: each
/// survivor moves one place to the front, so that survivors keep their order,
/// and the new record comes last.
pub proof fn law_eviction_keeps_order(log: Seq<Record>, rec: Record)
    requires
        log.len() == CAPACITY,
    ensures
        appended(log, rec).len() == CAPACITY,
        forall|i: int| 0 <= i < CAPACITY - 1 ==> #[trigger] appended(log, rec)[i] == log[i + 1],
        appended(log, rec)[CAPACITY - 1] == rec,
{
}

/// An append to a log below capacity adds the record at the end and changes
/// nothing else. A log never grows beyond `CAPACITY`, and once full it stays
/// full.
pub proof fn law_growth(log: Seq<Record>, rec: Record)
    requires
        log.len() <= CAPACITY,
    ensures
        log.len() < CAPACITY ==> appended(log, rec) == log.push(rec),
        appended(log, rec).len() <= CAPACITY,
        log.len() == CAPACITY ==> appended(log, rec).len() == CAPACITY,
{
}

/// Appends to the log of one user do to that log what they do to a log on
/// its own.
pub proof fn law_updates_append(logs: Map<Seq<u8>, Seq<Record>>, user: Seq<u8>, recs: Seq<Record>)
    ensures
        stored_log(updated_all(logs, user, recs), user) == appended_all(
            stored_log(logs, user),
            recs,
        ),
    decreases recs.len(),
{
    if recs.len() > 0 {
        law_updates_append(logs, user, recs.drop_last());
    }
}

/// Appends to the log of one user leave the logs of all other users as they
/// were, and bring none of them into being.
pub proof fn law_updates_are_local(
    logs: Map<Seq<u8>, Seq<Record>>,
    user: Seq<u8>,
    recs: Seq<Record>,
    other: Seq<u8>,
)
    requires
        other != user,
    ensures
        updated_all(logs, user, recs).contains_key(other) == logs.contains_key(other),
        stored_log(updated_all(logs, user, recs), other) == stored_log(logs, other),
    decreases recs.len(),
{
    if recs.len() > 0 {
        law_updates_are_local(logs, user, recs.drop_last(), other);
    }
}

/// Up to `CAPACITY` appends for a user without a log: a query right after
/// them, whose window covers their timestamps, returns exactly these records
/// in insertion order.
pub proof fn law_fresh_user_keeps_all(
    logs: Map<Seq<u8>, Seq<Record>>,
    user: Seq<u8>,
    recs: Seq<Record>,
    now: nat,
)
    requires
        !logs.contains_key(user),
        recs.len() <= CAPACITY,
        forall|i: int| 0 <= i < recs.len() ==> in_window(#[trigger] recs[i].timestamp, now),
    ensures
        stored_log(updated_all(logs, user, recs), user) == recs,
        recent(stored_log(updated_all(logs, user, recs), user), now) == recs,
{
    law_updates_append(logs, user, recs);
    law_fresh_log_keeps_all(recs, now);
}

/// More than `CAPACITY` appends for a user without a log leave exactly the
/// `CAPACITY` newest records in that user's log, oldest first.
pub proof fn law_fresh_user_keeps_newest(
    logs: Map<Seq<u8>, Seq<Record>>,
    user: Seq<u8>,
    recs: Seq<Record>,
)
    requires
        !logs.contains_key(user),
        recs.len() > CAPACITY,
    ensures
        stored_log(updated_all(logs, user, recs), user) == recs.skip(recs.len() - CAPACITY),
        stored_log(updated_all(logs, user, recs), user)[0] == recs[recs.len() - CAPACITY],
{
    law_updates_append(logs, user, recs);
    law_overflow_keeps_newest(recs);
}

/// Appends keep every log of the table within `CAPACITY`.
pub proof fn law_capacity_is_kept(logs: Map<Seq<u8>, Seq<Record>>, user: Seq<u8>, rec: Record)
    requires
        within_capacity(logs),
    ensures
        within_capacity(updated(logs, user, rec)),
{
}

/// A query is a function of the stored log and of the time: asked again of
/// the same log at the same time, it gives the same answer.
pub proof fn law_reads_repeat(
    logs: Map<Seq<u8>, Seq<Record>>,
    user: Seq<u8>,
    now: nat,
    first: Seq<Record>,
    second: Seq<Record>,
)
    requires
        first == recent(stored_log(logs, user), now),
        second == recent(stored_log(logs, user), now),
    ensures
        first == second,
{
}

/// The window is closed at its start: a record stamped exactly `WINDOW_SECS`
/// before `now` is returned, one stamped a second earlier is not.
pub proof fn law_window_boundary(log: Seq<Record>, rec: Record, now: nat)
    requires
        log.contains(rec),
    ensures
        rec.timestamp == now - WINDOW_SECS ==> recent(log, now).contains(rec),
        rec.timestamp == now - WINDOW_SECS - 1 ==> !recent(log, now).contains(rec),
{
    law_query_selects(log, now);
    let i = choose|i: int| 0 <= i < log.len() && log[i] == rec;
    assert(log[i] == rec);
    if rec.timestamp == now - WINDOW_SECS - 1 && recent(log, now).contains(rec) {
        let j = choose|j: int| 0 <= j < recent(log, now).len() && recent(log, now)[j] == rec;
        assert(in_window(recent(log, now)[j].timestamp, now));
    }
}

/// At a time before `WINDOW_SECS` the window starts at zero, and a query
/// returns the whole log.
pub proof fn law_early_window_starts_at_zero(log: Seq<Record>, now: nat)
    requires
        now < WINDOW_SECS,
    ensures
        window_start(now) == 0,
        recent(log, now) == log,
{
    law_query_keeps_covered(log, now);
}

/// A query of a log that holds no record stamped later than `now` returns no
/// such record.
pub proof fn law_nothing_from_the_future(log: Seq<Record>, now: nat)
    requires
        forall|i: int| 0 <= i < log.len() ==> (#[trigger] log[i]).timestamp <= now,
    ensures
        forall|j: int|
            0 <= j < recent(log, now).len() ==> (#[trigger] recent(log, now)[j]).timestamp <= now,
{
    law_query_selects(log, now);
    assert forall|j: int| 0 <= j < recent(log, now).len() implies (#[trigger] recent(
        log,
        now,
    )[j]).timestamp <= now by {
        let rec = recent(log, now)[j];
        assert(log.contains(rec));
        let i = choose|i: int| 0 <= i < log.len() && log[i] == rec;
        assert(log[i].timestamp <= now);
    }
}

/// A user without a log has no recent records.
pub proof fn law_unknown_user_has_none(logs: Map<Seq<u8>, Seq<Record>>, user: Seq<u8>, now: nat)
    requires
        !logs.contains_key(user),
    ensures
        recent(stored_log(logs, user), now) == Seq::<Record>::empty(),
{
    law_query_by_record(Seq::empty(), arbitrary(), now);
}

} // verus!
