//! The history query: selects the samples of a window, buckets them, orders
//! the buckets and returns one page with its pagination envelope.

use crate::clock::current_timestamp;
use crate::engine::{all_fit, arrange, arranged, count_pages, page_count, page_of, take_page, Bucket, Entry};
use crate::interval::{seconds_per_interval, IntervalKind};
use crate::queries::{
    effective_limit, effective_sort_field, is_descending, page_limit, page_number, page_skip,
    query_verdict, sort_field, sorts_descending, validate_history_query, window_start,
    window_start_checked, HistoryQueryParams, MatchStage, QueryError,
};
use crate::reading::RecordId;
use crate::text::str_eq;
use vstd::prelude::*;
use vstd::string::*;

verus! {

/// The readings of one metric family. A family says how each of its fields
/// is ordered when a history is sorted by it.
pub trait Readings: Copy {
    /// The key a sample is ordered by when the history is sorted by `field`.
    /// Fields that are no reading of the family, the bucket times among
    /// them, give every sample the key 0, which leaves the order by time.
    spec fn key_for(self, field: Seq<char>) -> u64;

    fn sort_key(&self, field: &str) -> (key: u64)
        ensures
            key == self.key_for(field@),
    ;
}

/// One normalized sample as the store holds it.
#[derive(Debug)]
pub struct Record<P> {
    /// Identity that the store knows the record by.
    pub id: RecordId,
    /// Pool the sample belongs to, for pool-scoped families.
    pub pool: Option<String>,
    /// Start of the sampled span, in Unix seconds.
    pub start_time: i64,
    /// End of the sampled span, in Unix seconds.
    pub end_time: i64,
    pub readings: P,
}

/// The pagination envelope of a page.
#[derive(Debug)]
pub struct Pagination {
    pub current_page: i64,
    pub total_pages: u64,
    pub total_records: u64,
    pub limit: i64,
    pub sort_by: String,
    pub order: String,
}

/// One page of a bucketed history.
#[derive(Debug)]
pub struct History<P> {
    pub intervals: Vec<Bucket<P>>,
    pub pagination: Pagination,
}

pub open spec fn text_of(value: Option<String>) -> Option<Seq<char>> {
    match value {
        Some(text) => Some(text@),
        None => None,
    }
}

pub open spec fn text_of_str(value: Option<&str>) -> Option<Seq<char>> {
    match value {
        Some(text) => Some(text@),
        None => None,
    }
}

/// Bucket width, in seconds, that a query asks for: that of its interval,
/// or an hour where it names none or an unknown one.
pub open spec fn query_length(query: HistoryQueryParams) -> int {
    match query.interval {
        Some(name) => seconds_per_interval(name@),
        None => 3600,
    }
}

/// Whether the window of a query, at clock reading `now`, admits a record:
/// the record is of the pool asked for, starts no earlier than the window,
/// and ends no later than `to`.
pub open spec fn window_admits<P>(
    pool: Option<Seq<char>>,
    query: HistoryQueryParams,
    now: int,
    record: Record<P>,
) -> bool {
    &&& (pool matches Some(wanted) ==> text_of(record.pool) == Some(wanted))
    &&& window_start(query, query_length(query), now) <= record.start_time
    &&& (query.to matches Some(to) ==> record.end_time <= to)
}

/// What the engine reads of a record when the history is sorted by `field`.
pub open spec fn entry_of<P: Readings>(record: Record<P>, field: Seq<char>) -> Entry<P> {
    Entry {
        end_time: record.end_time,
        key: record.readings.key_for(field),
        source: record.id,
        payload: record.readings,
    }
}

/// The records that the window of a query admits, in storage order.
pub open spec fn selected<P: Readings>(
    records: Seq<Record<P>>,
    pool: Option<Seq<char>>,
    query: HistoryQueryParams,
    now: int,
) -> Seq<Entry<P>>
    decreases records.len(),
{
    if records.len() == 0 {
        Seq::empty()
    } else {
        let rest = selected(records.drop_last(), pool, query, now);
        if window_admits(pool, query, now, records.last()) {
            rest.push(entry_of(records.last(), sort_field(query)))
        } else {
            rest
        }
    }
}

/// Every bucket of the history that a query asks for, in the order asked
/// for, before it is cut into pages.
pub open spec fn full_history<P: Readings>(
    records: Seq<Record<P>>,
    pool: Option<Seq<char>>,
    query: HistoryQueryParams,
    now: int,
) -> Seq<Bucket<P>> {
    arranged(selected(records, pool, query, now), query_length(query), sorts_descending(query))
}

/// The buckets on the page that a query asks for.
pub open spec fn history_page<P: Readings>(
    records: Seq<Record<P>>,
    pool: Option<Seq<char>>,
    query: HistoryQueryParams,
    now: int,
) -> Seq<Bucket<P>> {
    page_of(full_history(records, pool, query, now), page_skip(query), page_limit(query))
}

/// Whether `pagination` is the envelope of a query over `total` buckets.
pub open spec fn envelope_of(pagination: Pagination, query: HistoryQueryParams, total: int) -> bool {
    &&& pagination.current_page == page_number(query)
    &&& pagination.total_records == total
    &&& pagination.total_pages == page_count(total, page_limit(query))
    &&& pagination.limit == page_limit(query)
    &&& pagination.sort_by@ == sort_field(query)
    &&& pagination.order@ == if sorts_descending(query) {
        "desc"@
    } else {
        "asc"@
    }
}

/// What a history query answers at clock reading `now`.
pub open spec fn answers<P: Readings>(
    result: Result<History<P>, QueryError>,
    records: Seq<Record<P>>,
    pool: Option<Seq<char>>,
    query: HistoryQueryParams,
    now: int,
) -> bool {
    match query_verdict(query) {
        Err(reason) => result == Err::<History<P>, QueryError>(QueryError::Invalid(reason)),
        Ok(()) => if history_page(records, pool, query, now).len() == 0 {
            result == Err::<History<P>, QueryError>(QueryError::NotFound)
        } else {
            &&& result matches Ok(history)
            &&& history.intervals@ == history_page(records, pool, query, now)
            &&& envelope_of(
                history.pagination,
                query,
                full_history(records, pool, query, now).len() as int,
            )
        },
    }
}

/// The bucket width a query asks for.
pub fn interval_length(query: &HistoryQueryParams) -> (length: i64)
    ensures
        length == query_length(*query),
        0 < length <= 31536000,
{
    match &query.interval {
        Some(name) => IntervalKind::from_name_or_hour(name.as_str()).seconds(),
        None => 3600,
    }
}

fn admits<P>(pool: Option<&str>, floor: i128, to: Option<i64>, record: &Record<P>) -> (ok: bool)
    ensures
        ok == {
            &&& (pool matches Some(wanted) ==> text_of(record.pool) == Some(wanted@))
            &&& floor <= record.start_time
            &&& (to matches Some(t) ==> record.end_time <= t)
        },
{
    let pool_ok = match pool {
        Some(wanted) => match &record.pool {
            Some(own) => str_eq(own.as_str(), wanted),
            None => false,
        },
        None => true,
    };
    let to_ok = match to {
        Some(t) => record.end_time <= t,
        None => true,
    };
    pool_ok && floor <= record.start_time as i128 && to_ok
}

/// Selects the records that the window of a query admits at clock reading
/// `now`, in storage order, each with the key the query sorts by.
pub fn select<P: Readings>(
    records: &Vec<Record<P>>,
    pool: Option<&str>,
    query: &HistoryQueryParams,
    now: i64,
) -> (entries: Vec<Entry<P>>)
    ensures
        entries@ == selected(records@, text_of_str(pool), *query, now as int),
{
    let length = interval_length(query);
    let floor: i128 = match query.from {
        Some(from) => from as i128,
        None => {
            let count: i128 = match query.count {
                Some(count) => count as i128,
                None => 400,
            };
            assert(-0x1000_0000_0000_0000 <= count * length <= 0x1000_0000_0000_0000) by (nonlinear_arith)
                requires
                    -0x8000_0000 <= count <= 0x8000_0000,
                    0 < length <= 31536000,
            ;
            now as i128 - count * (length as i128)
        },
    };
    let field = effective_sort_field(query);
    let mut out: Vec<Entry<P>> = Vec::new();
    let mut i: usize = 0;
    while i < records.len()
        invariant
            i <= records.len(),
            floor == window_start(*query, query_length(*query), now as int),
            field@ == sort_field(*query),
            out@ == selected(records@.take(i as int), text_of_str(pool), *query, now as int),
        decreases records.len() - i,
    {
        let record = &records[i];
        proof {
            let next = records@.take(i as int + 1);
            assert(next.drop_last() =~= records@.take(i as int));
            assert(next.last() == records@[i as int]);
        }
        if admits(pool, floor, query.to, record) {
            out.push(
                Entry {
                    end_time: record.end_time,
                    key: record.readings.sort_key(field.as_str()),
                    source: record.id,
                    payload: record.readings,
                },
            );
        }
        i += 1;
    }
    assert(records@.take(i as int) =~= records@);
    out
}

/// Answers a history query at clock reading `now`: validates it, selects
/// the window, buckets and orders the samples, and cuts the page asked for.
/// A page without buckets is reported as not found.
pub fn history_at<P: Readings>(
    records: &Vec<Record<P>>,
    pool: Option<&str>,
    query: &HistoryQueryParams,
    now: i64,
) -> (result: Result<History<P>, QueryError>)
    requires
        all_fit(selected(records@, text_of_str(pool), *query, now as int), query_length(*query)),
    ensures
        answers(result, records@, text_of_str(pool), *query, now as int),
{
    match validate_history_query(query) {
        Err(reason) => {
            return Err(QueryError::Invalid(reason));
        },
        Ok(()) => {},
    }
    let length = interval_length(query);
    let descending = is_descending(query);
    let entries = select(records, pool, query, now);
    let all = arrange(&entries, length, descending);
    let limit = effective_limit(query);
    let page: i64 = match query.page {
        Some(page) => page,
        None => 1,
    };
    let ghost skip_spec = page_skip(*query);
    assert(skip_spec == (page - 1) * limit);
    assert(0 <= (page - 1) * limit <= 400 * (page - 1)) by (nonlinear_arith)
        requires
            1 <= page,
            1 <= limit <= 400,
    ;
    let skip_wide: u128 = ((page - 1) as u128) * (limit as u128);
    if skip_wide >= all.len() as u128 {
        return Err(QueryError::NotFound);
    }
    let intervals = take_page(&all, skip_wide as usize, limit as usize);
    let total = all.len();
    proof {
        reveal_strlit("desc");
        reveal_strlit("asc");
    }
    let pagination = Pagination {
        current_page: page,
        total_pages: count_pages(total, limit),
        total_records: total as u64,
        limit,
        sort_by: effective_sort_field(query),
        order: if descending {
            String::from_str("desc")
        } else {
            String::from_str("asc")
        },
    };
    Ok(History { intervals, pagination })
}

/// What a query needs before the store is read: the clock reading it is
/// answered at, and the filter that selects its samples.
#[derive(Debug)]
pub struct QueryPlan {
    /// Clock reading, in Unix seconds, that the window is counted back from.
    pub now: i64,
    /// Filter for the samples the query can draw on.
    pub stage: MatchStage,
}

/// Whether `plan` is a plan for the query: its filter asks for the pool of
/// the query, bounds the end of samples as the query does, and starts
/// where the window of the query starts at the plan's clock reading, or at
/// the least instant there is where the window starts before it.
pub open spec fn plans(plan: QueryPlan, pool: Option<Seq<char>>, query: HistoryQueryParams) -> bool {
    let start = window_start(query, query_length(query), plan.now as int);
    &&& text_of(plan.stage.pool) == pool
    &&& plan.stage.end_time_lte == query.to
    &&& plan.stage.start_time_gte == if start < i64::MIN {
        i64::MIN as int
    } else {
        start
    }
}

/// Plans a history query: checks its parameters, reads the clock once, and
/// builds the filter for its samples. The query is then answered at the
/// plan's clock reading, from the samples that pass the plan's filter or
/// from any larger part of the store.
pub fn plan_query(pool: Option<&str>, query: &HistoryQueryParams) -> (result: Result<
    QueryPlan,
    QueryError,
>)
    ensures
        match query_verdict(*query) {
            Err(reason) => result == Err::<QueryPlan, QueryError>(QueryError::Invalid(reason)),
            Ok(()) => result matches Ok(plan) && plans(plan, text_of_str(pool), *query),
        },
{
    match validate_history_query(query) {
        Err(reason) => {
            return Err(QueryError::Invalid(reason));
        },
        Ok(()) => {},
    }
    let now = current_timestamp();
    let length = interval_length(query);
    let start: i64 = match window_start_checked(query, length, now) {
        Some(start) => start,
        None => {
            assert(window_start(*query, length as int, now as int) < i64::MIN) by (nonlinear_arith)
                requires
                    query.from.is_none(),
                    query.count matches Some(count) ==> 0 < count <= 400,
                    0 < length,
                    !(i64::MIN <= window_start(*query, length as int, now as int) <= i64::MAX),
                    window_start(*query, length as int, now as int) == now - (match query.count {
                        Some(count) => count as int,
                        None => 400,
                    }) * length,
            ;
            i64::MIN
        },
    };
    let stage = MatchStage {
        pool: match pool {
            Some(name) => Some(String::from_str(name)),
            None => None,
        },
        start_time_gte: start,
        end_time_lte: query.to,
    };
    Ok(QueryPlan { now, stage })
}

/// Whether the bucket of every record that the window of a query admits
/// can be held in 64 bits.
pub fn fits_all<P: Readings>(records: &Vec<Record<P>>, pool: Option<&str>, query: &HistoryQueryParams, now: i64) -> (ok:
    bool)
    ensures
        ok == all_fit(selected(records@, text_of_str(pool), *query, now as int), query_length(*query)),
{
    let length = interval_length(query);
    let entries = select(records, pool, query, now);
    let mut i: usize = 0;
    while i < entries.len()
        invariant
            i <= entries.len(),
            0 < length,
            length == query_length(*query),
            entries@ == selected(records@, text_of_str(pool), *query, now as int),
            forall|k: int| 0 <= k < i ==> crate::interval::bucket_fits(#[trigger] entries@[k].end_time as int, length as int),
        decreases entries.len() - i,
    {
        if !entry_fits(entries[i].end_time, length) {
            assert(!crate::interval::bucket_fits(entries@[i as int].end_time as int, length as int));
            return false;
        }
        i += 1;
    }
    true
}

/// Whether the bucket of a sample ending at `end_time` can be held in 64 bits.
pub fn entry_fits(end_time: i64, length: i64) -> (ok: bool)
    requires
        0 < length,
    ensures
        ok == crate::interval::bucket_fits(end_time as int, length as int),
{
    if end_time < 0 {
        return false;
    }
    let anchor: i128 = end_time as i128 + 1;
    let start: i128 = anchor - anchor % (length as i128);
    start + length as i128 <= i64::MAX as i128
}

} // verus!
