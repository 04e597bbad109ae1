//! Interval granularities and the alignment of samples to fixed-width buckets.

use crate::text::str_eq;
use vstd::prelude::*;

verus! {

/// The granularities a history can be bucketed by. Months, quarters and years
/// are fixed spans of 30, 90 and 365 days, not calendar periods.
#[derive(Clone, Copy, PartialEq, Eq, Structural, Debug)]
pub enum IntervalKind {
    FiveMinutes,
    Hour,
    Day,
    Week,
    Month,
    Quarter,
    Year,
}

/// The granularity that a name stands for, if it is one of the seven names.
pub open spec fn named_interval(name: Seq<char>) -> Option<IntervalKind> {
    if name == "5min"@ {
        Some(IntervalKind::FiveMinutes)
    } else if name == "hour"@ {
        Some(IntervalKind::Hour)
    } else if name == "day"@ {
        Some(IntervalKind::Day)
    } else if name == "week"@ {
        Some(IntervalKind::Week)
    } else if name == "month"@ {
        Some(IntervalKind::Month)
    } else if name == "quarter"@ {
        Some(IntervalKind::Quarter)
    } else if name == "year"@ {
        Some(IntervalKind::Year)
    } else {
        None
    }
}

/// Length in seconds of the interval with the given name; an hour for a name
/// that is none of the seven.
pub open spec fn seconds_per_interval(name: Seq<char>) -> int {
    match named_interval(name) {
        Some(kind) => kind.length(),
        None => 3600,
    }
}

/// Start of the bucket of width `length` that a sample ending at `end_time`
/// belongs to: the instant after the sample's end, rounded down to a
/// multiple of `length`.
pub open spec fn bucket_start(end_time: int, length: int) -> int {
    (end_time + 1) - (end_time + 1) % length
}

/// Whether both bounds of the bucket of a sample ending at `end_time` can be
/// held in 64 bits.
pub open spec fn bucket_fits(end_time: int, length: int) -> bool {
    0 <= end_time && bucket_start(end_time, length) + length <= i64::MAX
}

impl IntervalKind {
    /// Length of the interval in seconds.
    pub open spec fn length(self) -> int {
        match self {
            IntervalKind::FiveMinutes => 300,
            IntervalKind::Hour => 3600,
            IntervalKind::Day => 86400,
            IntervalKind::Week => 604800,
            IntervalKind::Month => 2592000,
            IntervalKind::Quarter => 7776000,
            IntervalKind::Year => 31536000,
        }
    }

    pub fn seconds(self) -> (length: i64)
        ensures
            length == self.length(),
    {
        match self {
            IntervalKind::FiveMinutes => 300,
            IntervalKind::Hour => 3600,
            IntervalKind::Day => 86400,
            IntervalKind::Week => 604800,
            IntervalKind::Month => 2592000,
            IntervalKind::Quarter => 7776000,
            IntervalKind::Year => 31536000,
        }
    }

    /// Looks a granularity up by its name.
    pub fn from_name(name: &str) -> (kind: Option<IntervalKind>)
        ensures
            kind == named_interval(name@),
    {
        if str_eq(name, "5min") {
            Some(IntervalKind::FiveMinutes)
        } else if str_eq(name, "hour") {
            Some(IntervalKind::Hour)
        } else if str_eq(name, "day") {
            Some(IntervalKind::Day)
        } else if str_eq(name, "week") {
            Some(IntervalKind::Week)
        } else if str_eq(name, "month") {
            Some(IntervalKind::Month)
        } else if str_eq(name, "quarter") {
            Some(IntervalKind::Quarter)
        } else if str_eq(name, "year") {
            Some(IntervalKind::Year)
        } else {
            None
        }
    }

    /// The granularity a query asks for: the named one, or an hour where the
    /// name is unknown.
    pub fn from_name_or_hour(name: &str) -> (kind: IntervalKind)
        ensures
            kind == match named_interval(name@) {
                Some(k) => k,
                None => IntervalKind::Hour,
            },
            kind.length() == seconds_per_interval(name@),
    {
        match IntervalKind::from_name(name) {
            Some(kind) => kind,
            None => IntervalKind::Hour,
        }
    }
}

/// Whether `interval` is one of the seven interval names.
pub fn validate_interval(interval: &str) -> (ok: bool)
    ensures
        ok == named_interval(interval@).is_some(),
{
    IntervalKind::from_name(interval).is_some()
}

/// Length in seconds of the named interval; unknown names count as an hour.
pub fn get_seconds_per_interval(interval: &str) -> (seconds: i64)
    ensures
        seconds == seconds_per_interval(interval@),
        seconds == 300 || seconds == 3600 || seconds == 86400 || seconds == 604800 || seconds
            == 2592000 || seconds == 7776000 || seconds == 31536000,
{
    IntervalKind::from_name_or_hour(interval).seconds()
}

/// Bounds of the bucket of width `length` for a sample ending at `end_time`.
pub fn bucket_bounds(end_time: i64, length: i64) -> (bounds: (i64, i64))
    requires
        0 < length,
        bucket_fits(end_time as int, length as int),
    ensures
        bounds.0 == bucket_start(end_time as int, length as int),
        bounds.1 == bounds.0 + length,
        (bounds.0 as int) % (length as int) == 0,
        bounds.0 <= end_time + 1 < bounds.1,
{
    let ghost anchor = end_time as int + 1;
    let ghost len = length as int;
    // Remainder of the anchor, taken without forming the anchor itself.
    let over: i64 = if end_time % length == length - 1 {
        0
    } else {
        end_time % length + 1
    };
    proof {
        lemma_anchor_remainder(end_time as int, len);
        lemma_start_aligned(anchor, len);
    }
    assert(over == anchor % len);
    let start: i64 = if over == 0 {
        end_time + 1
    } else {
        end_time - (over - 1)
    };
    (start, start + length)
}

/// Bounds of the bucket that a sample ending at `end_time` belongs to.
pub fn bucket(end_time: i64, interval: IntervalKind) -> (bounds: (i64, i64))
    requires
        bucket_fits(end_time as int, interval.length()),
    ensures
        bounds.0 == bucket_start(end_time as int, interval.length()),
        bounds.1 == bounds.0 + interval.length(),
        (bounds.0 as int) % interval.length() == 0,
        bounds.0 <= end_time + 1 < bounds.1,
{
    bucket_bounds(end_time, interval.seconds())
}

proof fn lemma_anchor_remainder(end_time: int, length: int)
    requires
        0 <= end_time,
        0 < length,
    ensures
        (end_time + 1) % length == if end_time % length == length - 1 {
            0
        } else {
            end_time % length + 1
        },
{
    let q = end_time / length;
    let r = end_time % length;
    assert(end_time == q * length + r) by (nonlinear_arith)
        requires
            q == end_time / length,
            r == end_time % length,
            0 < length,
    ;
    if r == length - 1 {
        assert(end_time + 1 == (q + 1) * length) by (nonlinear_arith)
            requires
                end_time == q * length + r,
                r == length - 1,
        ;
        vstd::arithmetic::div_mod::lemma_mod_multiples_basic(q + 1, length);
    } else {
        vstd::arithmetic::div_mod::lemma_fundamental_div_mod_converse(
            end_time + 1,
            length,
            q,
            r + 1,
        );
    }
}

proof fn lemma_start_aligned(anchor: int, length: int)
    requires
        0 < length,
    ensures
        (anchor - anchor % length) % length == 0,
        0 <= anchor % length < length,
{
    vstd::arithmetic::div_mod::lemma_fundamental_div_mod(anchor, length);
    vstd::arithmetic::div_mod::lemma_mod_multiples_basic(anchor / length, length);
    assert(anchor - anchor % length == (anchor / length) * length) by (nonlinear_arith)
        requires
            anchor == length * (anchor / length) + anchor % length,
    ;
}

/// Every bucket starts on a multiple of its width, is exactly one width
/// long, and holds the instant that follows the end of its samples.
pub proof fn lemma_bucket_alignment(end_time: int, length: int)
    requires
        0 < length,
    ensures
        bucket_start(end_time, length) % length == 0,
        (bucket_start(end_time, length) + length) - bucket_start(end_time, length) == length,
        bucket_start(end_time, length) <= end_time + 1 < bucket_start(end_time, length) + length,
{
    lemma_start_aligned(end_time + 1, length);
}

/// Samples that end in the same bucket are given the same bucket, and a
/// sample is never given a bucket other than the one that holds the instant
/// after its end.
pub proof fn lemma_bucket_unique(end_time: int, length: int, start: int)
    requires
        0 < length,
        start % length == 0,
        start <= end_time + 1 < start + length,
    ensures
        bucket_start(end_time, length) == start,
{
    let anchor = end_time + 1;
    lemma_start_aligned(anchor, length);
    let b = bucket_start(end_time, length);
    vstd::arithmetic::div_mod::lemma_fundamental_div_mod(b, length);
    vstd::arithmetic::div_mod::lemma_fundamental_div_mod(start, length);
    let qb = b / length;
    let qs = start / length;
    assert(b == length * qb);
    assert(start == length * qs);
    assert(qb == qs) by (nonlinear_arith)
        requires
            b == length * qb,
            start == length * qs,
            0 < length,
            b - length < start < b + length,
    ;
}

} // verus!
