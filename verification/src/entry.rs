//! The records that a log stores and hands out, and the notification of an
//! append.

use crate::address::Address;
use crate::model::{Notice, Record};
use crate::timestamp::Timestamp;
use vstd::prelude::*;

verus! {

/// One stored record: a status payload and the time at which it was appended.
#[derive(Clone, Debug, PartialEq, Eq)]
pub struct StatEntry {
    pub stats_json: String,
    pub timestamp: Timestamp,
}

impl View for StatEntry {
    type V = Record;

    open spec fn view(&self) -> Record {
        Record { payload: self.stats_json@, timestamp: self.timestamp@ }
    }
}

/// The records that stored entries stand for, in the same order.
pub open spec fn entries_view(entries: Seq<StatEntry>) -> Seq<Record> {
    entries.map_values(|entry: StatEntry| entry@)
}

/// The records that `(payload, timestamp)` pairs stand for, in the same order.
pub open spec fn pairs_view(pairs: Seq<(String, Timestamp)>) -> Seq<Record> {
    pairs.map_values(|pair: (String, Timestamp)| Record { payload: pair.0@, timestamp: pair.1@ })
}

/// The notification that follows an append: the caller, the payload and the
/// time of the new record.
#[derive(Clone, Debug)]
pub struct StatsUpdated {
    pub user: Address,
    pub stats: String,
    pub timestamp: Timestamp,
}

impl View for StatsUpdated {
    type V = Notice;

    open spec fn view(&self) -> Notice {
        Notice { user: self.user@, stats: self.stats@, timestamp: self.timestamp@ }
    }
}

/// The notifications that events stand for, in the same order.
pub open spec fn events_view(events: Seq<StatsUpdated>) -> Seq<Notice> {
    events.map_values(|event: StatsUpdated| event@)
}

} // verus!
