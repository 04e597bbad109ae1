//! Normalizing upstream pages: raw intervals, whose times are still text and
//! whose numeric fields may be malformed, become records for the store.

use crate::clock::fresh_record_id;
use crate::history::{text_of, text_of_str, Record};
use crate::reading::Reading;
use crate::text::{parse_i64, parsed_i64, trim, trimmed};
use vstd::prelude::*;
use vstd::string::*;

verus! {

/// One interval of an upstream page, as decoded from the wire. A numeric
/// field holds its reading, or nothing where its text was no number.
pub trait RawInterval<P: Copy> {
    /// Text of the interval's start time.
    spec fn start_text(&self) -> Seq<char>;

    /// Text of the interval's end time.
    spec fn end_text(&self) -> Seq<char>;

    /// The readings of the interval, with zero for every malformed field.
    spec fn readings(&self) -> P;

    /// Number of fields that were malformed and read as zero.
    spec fn malformed(&self) -> nat;

    fn start_time_text(&self) -> (text: &str)
        ensures
            text@ == self.start_text(),
    ;

    fn end_time_text(&self) -> (text: &str)
        ensures
            text@ == self.end_text(),
    ;

    fn to_readings(&self) -> (result: (P, usize))
        ensures
            result.0 == self.readings(),
            result.1 == self.malformed(),
    ;
}

/// A record's start or end time could not be read: the record is dropped.
#[derive(Clone, Copy, PartialEq, Eq, Structural, Debug)]
pub struct KeyParseError;

/// What normalizing a page produced.
#[derive(Debug)]
pub struct Batch<P> {
    /// The records to store, in page order.
    pub records: Vec<Record<P>>,
    /// Number of intervals dropped because a time could not be read.
    pub dropped: usize,
    /// Number of numeric fields, over the kept records, that were malformed
    /// and stored as zero; the count stops at the largest number it can hold.
    pub defaulted: usize,
}

/// Outcome of storing a batch record by record.
#[derive(Debug)]
pub struct InsertSummary {
    /// Number of records the store accepted.
    pub succeeded: usize,
    /// Positions in the batch of the records it refused, ascending.
    pub failed: Vec<usize>,
}

/// 1 for a numeric field that was malformed, 0 for one that was read.
pub open spec fn missing(field: Option<Reading>) -> nat {
    if field.is_none() {
        1
    } else {
        0
    }
}

pub fn count_missing(field: &Option<Reading>) -> (n: usize)
    ensures
        n == missing(*field),
        n <= 1,
{
    if field.is_none() {
        1
    } else {
        0
    }
}

/// The time written by `text` once trimmed, if it is a 64-bit integer.
pub open spec fn time_of(text: Seq<char>) -> Option<i64> {
    parsed_i64(trimmed(text))
}

/// Whether both times of an interval can be read.
pub open spec fn has_times<I: RawInterval<P>, P: Copy>(interval: I) -> bool {
    time_of(interval.start_text()).is_some() && time_of(interval.end_text()).is_some()
}

/// Whether `record` is the normalized form of `interval` for `pool`,
/// whatever identity it was given.
pub open spec fn normalizes<I: RawInterval<P>, P: Copy>(
    record: Record<P>,
    interval: I,
    pool: Option<Seq<char>>,
) -> bool {
    &&& time_of(interval.start_text()) == Some(record.start_time)
    &&& time_of(interval.end_text()) == Some(record.end_time)
    &&& record.readings == interval.readings()
    &&& text_of(record.pool) == pool
}

/// The intervals of a page whose times can be read, in page order.
pub open spec fn kept<I: RawInterval<P>, P: Copy>(intervals: Seq<I>) -> Seq<I>
    decreases intervals.len(),
{
    if intervals.len() == 0 {
        Seq::empty()
    } else if has_times(intervals.last()) {
        kept(intervals.drop_last()).push(intervals.last())
    } else {
        kept(intervals.drop_last())
    }
}

/// Number of malformed fields over the kept intervals of a page.
pub open spec fn defaulted_fields<I: RawInterval<P>, P: Copy>(intervals: Seq<I>) -> nat
    decreases intervals.len(),
{
    if intervals.len() == 0 {
        0
    } else if has_times(intervals.last()) {
        defaulted_fields(intervals.drop_last()) + intervals.last().malformed()
    } else {
        defaulted_fields(intervals.drop_last())
    }
}

/// Number of accepted inserts among outcomes.
pub open spec fn accepted(outcomes: Seq<bool>) -> nat
    decreases outcomes.len(),
{
    if outcomes.len() == 0 {
        0
    } else {
        accepted(outcomes.drop_last()) + if outcomes.last() {
            1nat
        } else {
            0nat
        }
    }
}

/// Positions of the refused inserts among outcomes, ascending.
pub open spec fn refused(outcomes: Seq<bool>) -> Seq<usize>
    decreases outcomes.len(),
{
    if outcomes.len() == 0 {
        Seq::empty()
    } else if outcomes.last() {
        refused(outcomes.drop_last())
    } else {
        refused(outcomes.drop_last()).push((outcomes.len() - 1) as usize)
    }
}

/// Reads a time field: trims it and parses a 64-bit integer.
pub fn parse_time(text: &str) -> (time: Option<i64>)
    ensures
        time == time_of(text@),
{
    parse_i64(trim(text))
}

/// Normalizes one interval. An interval whose start or end time cannot be
/// read is refused; a malformed numeric field is stored as zero. The record
/// is given a fresh identity.
pub fn normalize<I: RawInterval<P>, P: Copy>(interval: &I, pool: Option<&str>) -> (result: Result<
    Record<P>,
    KeyParseError,
>)
    ensures
        result.is_ok() == has_times(*interval),
        result matches Ok(record) ==> normalizes(record, *interval, text_of_str(pool)),
{
    let start_time = match parse_time(interval.start_time_text()) {
        Some(time) => time,
        None => {
            return Err(KeyParseError);
        },
    };
    let end_time = match parse_time(interval.end_time_text()) {
        Some(time) => time,
        None => {
            return Err(KeyParseError);
        },
    };
    let (readings, _) = interval.to_readings();
    Ok(
        Record {
            id: fresh_record_id(),
            pool: match pool {
                Some(name) => Some(String::from_str(name)),
                None => None,
            },
            start_time,
            end_time,
            readings,
        },
    )
}

/// Normalizes a page. Every interval is taken on its own: one whose times
/// cannot be read is dropped and counted, and the rest of the page goes on.
pub fn normalize_page<I: RawInterval<P>, P: Copy>(intervals: &Vec<I>, pool: Option<&str>) -> (batch:
    Batch<P>)
    ensures
        batch.records@.len() == kept(intervals@).len(),
        forall|k: int|
            0 <= k < batch.records@.len() ==> normalizes(
                #[trigger] batch.records@[k],
                kept(intervals@)[k],
                text_of_str(pool),
            ),
        batch.dropped == intervals@.len() - kept(intervals@).len(),
        batch.defaulted == if defaulted_fields(intervals@) > usize::MAX {
            usize::MAX as nat
        } else {
            defaulted_fields(intervals@)
        },
{
    let mut records: Vec<Record<P>> = Vec::new();
    let mut dropped: usize = 0;
    let mut defaulted: usize = 0;
    let mut i: usize = 0;
    while i < intervals.len()
        invariant
            i <= intervals.len(),
            records@.len() == kept(intervals@.take(i as int)).len(),
            records@.len() + dropped == i,
            forall|k: int|
                0 <= k < records@.len() ==> normalizes(
                    #[trigger] records@[k],
                    kept(intervals@.take(i as int))[k],
                    text_of_str(pool),
                ),
            defaulted == if defaulted_fields(intervals@.take(i as int)) > usize::MAX {
                usize::MAX as nat
            } else {
                defaulted_fields(intervals@.take(i as int))
            },
        decreases intervals.len() - i,
    {
        proof {
            let next = intervals@.take(i as int + 1);
            assert(next.drop_last() =~= intervals@.take(i as int));
            assert(next.last() == intervals@[i as int]);
        }
        match normalize(&intervals[i], pool) {
            Ok(record) => {
                let (_, misses) = intervals[i].to_readings();
                defaulted = if misses > usize::MAX - defaulted {
                    usize::MAX
                } else {
                    defaulted + misses
                };
                records.push(record);
            },
            Err(_) => {
                dropped += 1;
            },
        }
        i += 1;
    }
    assert(intervals@.take(i as int) =~= intervals@);
    Batch { records, dropped, defaulted }
}

/// Sums up the outcomes of storing a batch record by record: how many the
/// store accepted, and which it refused. A refusal never ends the batch.
pub fn summarize_inserts(outcomes: &Vec<bool>) -> (summary: InsertSummary)
    ensures
        summary.succeeded == accepted(outcomes@),
        summary.failed@ == refused(outcomes@),
        summary.succeeded + summary.failed@.len() == outcomes@.len(),
{
    let mut succeeded: usize = 0;
    let mut failed: Vec<usize> = Vec::new();
    let mut i: usize = 0;
    while i < outcomes.len()
        invariant
            i <= outcomes.len(),
            succeeded == accepted(outcomes@.take(i as int)),
            failed@ == refused(outcomes@.take(i as int)),
            succeeded + failed@.len() == i,
        decreases outcomes.len() - i,
    {
        proof {
            let next = outcomes@.take(i as int + 1);
            assert(next.drop_last() =~= outcomes@.take(i as int));
            assert(next.last() == outcomes@[i as int]);
        }
        if outcomes[i] {
            succeeded += 1;
        } else {
            failed.push(i);
        }
        i += 1;
    }
    assert(outcomes@.take(i as int) =~= outcomes@);
    InsertSummary { succeeded, failed }
}

} // verus!
