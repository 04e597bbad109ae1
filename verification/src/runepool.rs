//! The pool membership family: how many members a pool has, and their units.

use crate::engine::{all_fit, Bucket};
use crate::history::{answers, history_at, query_length, selected, History, Readings, Record};
use crate::queries::{HistoryQueryParams, QueryError};
use crate::ingest::{count_missing, missing, RawInterval};
use crate::reading::{order_key, reading_or_zero, Reading};
use crate::text::str_eq;
use vstd::prelude::*;

verus! {

/// Summary block of an upstream membership page.
#[derive(Debug)]
pub struct Meta {
    pub start_time: String,
    pub end_time: String,
    pub start_units: String,
    pub end_count: String,
    pub start_count: String,
    pub end_units: String,
}

/// One interval of an upstream membership page.
#[derive(Debug)]
pub struct Interval {
    pub start_time: String,
    pub end_time: String,
    /// Depth of the pool; absent upstream for some intervals.
    pub depth: Option<Reading>,
    pub count: Option<Reading>,
    pub units: Option<Reading>,
}

/// An upstream membership page.
#[derive(Debug)]
pub struct ApiResponse {
    pub meta: Meta,
    pub intervals: Vec<Interval>,
}

/// The readings of a membership sample.
#[derive(Clone, Copy, PartialEq, Eq, Structural, Debug)]
pub struct RunePoolReadings {
    /// Depth of the pool, where upstream reported one.
    pub depth: Option<Reading>,
    pub count: Reading,
    pub units: Reading,
}

/// A stored membership sample.
pub type RunePoolTotalMembersHistory = Record<RunePoolReadings>;

/// Summary of a page of membership buckets: where the page starts and ends,
/// and the member count and units at its first and last bucket.
#[derive(Clone, Copy, PartialEq, Eq, Structural, Debug)]
pub struct RunePoolMeta {
    pub start_time: i64,
    pub end_time: i64,
    pub start_count: Reading,
    pub end_count: Reading,
    pub start_units: Reading,
    pub end_units: Reading,
}

/// One page of membership history with its summary.
#[derive(Debug)]
pub struct RunePoolHistory {
    pub history: History<RunePoolReadings>,
    pub meta: RunePoolMeta,
}

/// The summary of a page whose first bucket is `first` and whose last is `last`.
pub open spec fn runepool_meta(first: Bucket<RunePoolReadings>, last: Bucket<RunePoolReadings>) -> RunePoolMeta {
    RunePoolMeta {
        start_time: first.start_time,
        end_time: last.end_time,
        start_count: first.payload.count,
        end_count: last.payload.count,
        start_units: first.payload.units,
        end_units: last.payload.units,
    }
}

impl Readings for RunePoolReadings {
    open spec fn key_for(self, field: Seq<char>) -> u64 {
        if field == "count"@ {
            order_key(self.count.bits)
        } else if field == "units"@ {
            order_key(self.units.bits)
        } else if field == "depth"@ {
            match self.depth {
                Some(depth) => order_key(depth.bits),
                None => 0,
            }
        } else {
            0
        }
    }

    fn sort_key(&self, field: &str) -> (key: u64) {
        if str_eq(field, "count") {
            self.count.sort_key()
        } else if str_eq(field, "units") {
            self.units.sort_key()
        } else if str_eq(field, "depth") {
            match self.depth {
                Some(depth) => depth.sort_key(),
                None => 0,
            }
        } else {
            0
        }
    }
}

impl RawInterval<RunePoolReadings> for Interval {
    open spec fn start_text(&self) -> Seq<char> {
        self.start_time@
    }

    open spec fn end_text(&self) -> Seq<char> {
        self.end_time@
    }

    open spec fn readings(&self) -> RunePoolReadings {
        RunePoolReadings {
            depth: self.depth,
            count: reading_or_zero(self.count),
            units: reading_or_zero(self.units),
        }
    }

    open spec fn malformed(&self) -> nat {
        missing(self.count) + missing(self.units)
    }

    fn start_time_text(&self) -> (text: &str) {
        self.start_time.as_str()
    }

    fn end_time_text(&self) -> (text: &str) {
        self.end_time.as_str()
    }

    fn to_readings(&self) -> (result: (RunePoolReadings, usize)) {
        let misses: usize = count_missing(&self.count) + count_missing(&self.units);
        (
            RunePoolReadings {
                depth: self.depth,
                count: Reading::or_zero(self.count),
                units: Reading::or_zero(self.units),
            },
            misses,
        )
    }
}

/// Answers a membership history query at clock reading `now`: the page of
/// buckets asked for, its pagination envelope, and the summary of the page.
/// Refused parameters and an empty page are errors.
pub fn get_runepool_history(
    records: &Vec<RunePoolTotalMembersHistory>,
    query: &HistoryQueryParams,
    now: i64,
) -> (result: Result<RunePoolHistory, QueryError>)
    requires
        all_fit(selected(records@, None, *query, now as int), query_length(*query)),
    ensures
        match result {
            Ok(page) => {
                &&& answers(Ok(page.history), records@, None, *query, now as int)
                &&& page.meta == runepool_meta(
                    page.history.intervals@.first(),
                    page.history.intervals@.last(),
                )
            },
            Err(reason) => answers(
                Err::<History<RunePoolReadings>, QueryError>(reason),
                records@,
                None,
                *query,
                now as int,
            ),
        },
{
    match history_at(records, None, query, now) {
        Ok(history) => {
            let last = history.intervals.len() - 1;
            let first_bucket = &history.intervals[0];
            let last_bucket = &history.intervals[last];
            let meta = RunePoolMeta {
                start_time: first_bucket.start_time,
                end_time: last_bucket.end_time,
                start_count: first_bucket.payload.count,
                end_count: last_bucket.payload.count,
                start_units: first_bucket.payload.units,
                end_units: last_bucket.payload.units,
            };
            Ok(RunePoolHistory { history, meta })
        },
        Err(reason) => Err(reason),
    }
}

} // verus!
