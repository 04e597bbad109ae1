//! The library's doors to the outside: the system clock, the calendar, the
//! cron schedule and the generator of record identities. Nothing behind
//! these doors is verified; each contract says what is taken on trust.

use crate::reading::RecordId;
use chrono::TimeZone;
use std::str::FromStr;
use vstd::prelude::*;

verus! {

/// The earliest Unix timestamp, in seconds, that the calendar can show:
/// the first second of its earliest year.
pub const EARLIEST_TIMESTAMP: i64 = -8_334_601_228_800;

/// The latest Unix timestamp, in seconds, that the calendar can show: the
/// last second of its latest year.
pub const LATEST_TIMESTAMP: i64 = 8_210_266_876_799;

/// The text that `chrono` prints for a Unix timestamp, read in UTC, under
/// the pattern `%Y-%m-%d %H:%M:%S UTC`.
pub uninterp spec fn utc_timestamp_text(timestamp: int) -> Seq<char>;

/// The first time, in Unix seconds, at which a cron expression fires after
/// the instant `after`, as the `cron` crate finds it in UTC. `None` where
/// the expression does not parse or never fires again.
pub uninterp spec fn cron_next_fire(pattern: Seq<char>, after: int) -> Option<i64>;

/// Reads the system clock with `chrono::Utc::now` and gives the whole
/// seconds since the Unix epoch. Nothing is claimed of the value. The call
/// does not return on a machine whose clock stands before the epoch.
#[verifier::external_body]
pub(crate) fn current_timestamp() -> (now: i64) {
    chrono::Utc::now().timestamp()
}

/// Renders a Unix timestamp as `YYYY-MM-DD HH:MM:SS UTC` with
/// `chrono::TimeZone::timestamp_opt` and `DateTime::format`. Claimed: the
/// text is a function of the timestamp alone, and the call returns for
/// every timestamp the calendar can show.
#[verifier::external_body]
pub fn format_timestamp(timestamp: i64) -> (text: String)
    requires
        EARLIEST_TIMESTAMP <= timestamp <= LATEST_TIMESTAMP,
    ensures
        text@ == utc_timestamp_text(timestamp as int),
{
    let datetime = chrono::Utc.timestamp_opt(timestamp, 0).unwrap();
    datetime.format("%Y-%m-%d %H:%M:%S UTC").to_string()
}

/// Asks `cron::Schedule::after` for the first firing time of `pattern`
/// after `after`, both in UTC. Claimed: the answer is a function of the two
/// arguments alone. The bound on `after` keeps the second that the search
/// adds to it inside the calendar.
#[verifier::external_body]
pub(crate) fn next_fire_after(pattern: &str, after: i64) -> (next: Option<i64>)
    requires
        EARLIEST_TIMESTAMP <= after < LATEST_TIMESTAMP,
    ensures
        next == cron_next_fire(pattern@, after as int),
{
    let schedule = cron::Schedule::from_str(pattern).ok()?;
    let start = chrono::Utc.timestamp_opt(after, 0).single()?;
    schedule.after(&start).next().map(|at| at.timestamp())
}

/// Draws a new record identity from `mongodb::bson::oid::ObjectId::new`.
/// Nothing is claimed of the value: it depends on the time, on the process
/// and on a counter. The call does not return on a machine whose clock
/// stands before 1970 or after 2106.
#[verifier::external_body]
pub(crate) fn fresh_record_id() -> (id: RecordId) {
    let bytes = mongodb::bson::oid::ObjectId::new().bytes();
    let mut wide = [0u8; 16];
    wide[4..].copy_from_slice(&bytes);
    RecordId { value: u128::from_be_bytes(wide) }
}

} // verus!
