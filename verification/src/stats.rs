//! The entry points: status updates and recency queries by caller.

use crate::address::Address;
use crate::entry::{events_view, pairs_view, StatsUpdated};
use crate::event_log::BoundedEventLog;
use crate::model::{recent, stored_log, updated, within_capacity, Notice, Record};
use crate::timestamp::Timestamp;
use vstd::prelude::*;

verus! {

/// The status logs of all callers, with the notifications of the appends that
/// are still to be handed to the event sink, oldest first. Whoever hands them
/// over takes them out of `events`.
pub struct UserStats {
    pub user_stats: BoundedEventLog,
    pub events: Vec<StatsUpdated>,
}

impl UserStats {
    /// Sets up the logs. There is nothing to set up: every log comes into
    /// being with its first record.
    pub fn constructor(&mut self) -> (done: Result<(), Vec<u8>>)
        ensures
            done == Ok::<(), Vec<u8>>(()),
            *final(self) == *old(self),
    {
        Ok(())
    }

    /// Appends `stats_json`, stamped `current_time`, to the log of `user`, and
    /// notes the notification of the append after those already noted. A full
    /// log loses its oldest record for the new one. Always succeeds.
    pub fn update_stats(
        &mut self,
        stats_json: String,
        user: Address,
        current_time: Timestamp,
    ) -> (done: Result<bool, Vec<u8>>)
        ensures
            done == Ok::<bool, Vec<u8>>(true),
            final(self).user_stats@ == updated(
                old(self).user_stats@,
                user@,
                Record { payload: stats_json@, timestamp: current_time@ },
            ),
            within_capacity(final(self).user_stats@),
            events_view(final(self).events@) == events_view(old(self).events@).push(
                Notice { user: user@, stats: stats_json@, timestamp: current_time@ },
            ),
    {
        let event = StatsUpdated { user, stats: stats_json.clone(), timestamp: current_time };
        self.user_stats.append(user, stats_json, current_time);
        self.events.push(event);
        assert(events_view(self.events@) =~= events_view(old(self).events@).push(event@));
        Ok(true)
    }

    /// The records of `user` that are no older than `WINDOW_SECS` at
    /// `current_time`, oldest first, as `(payload, timestamp)` pairs. A user
    /// without a log has none; the query never fails.
    pub fn get_recent_stats(
        &self,
        user: Address,
        current_time: Timestamp,
    ) -> (found: Result<Vec<(String, Timestamp)>, Vec<u8>>)
        ensures
            found is Ok,
            pairs_view(found->Ok_0@) == recent(
                stored_log(self.user_stats@, user@),
                current_time@,
            ),
            !self.user_stats@.contains_key(user@) ==> found->Ok_0@.len() == 0,
    {
        Ok(self.user_stats.query_recent(user, current_time))
    }
}

impl Default for UserStats {
    /// No logs and no notifications.
    fn default() -> (stats: UserStats)
        ensures
            stats.user_stats@ == Map::<Seq<u8>, Seq<Record>>::empty(),
            stats.events@ == Seq::<StatsUpdated>::empty(),
    {
        UserStats { user_stats: BoundedEventLog::new(), events: Vec::new() }
    }
}

} // verus!
