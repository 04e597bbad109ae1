//! Query parameters of the history endpoints: validation, pagination and
//! sorting defaults, and the window that selects raw samples.

use crate::clock::current_timestamp;
use crate::interval::{named_interval, validate_interval};
use crate::text::str_eq;
use vstd::prelude::*;
use vstd::string::*;

verus! {

/// Query parameters shared by the history endpoints. Every one is optional.
#[derive(Debug)]
pub struct HistoryQueryParams {
    /// Time interval for data grouping (5min, hour, day, week, month, quarter, year)
    pub interval: Option<String>,
    /// Number of buckets to look back (1-400)
    pub count: Option<i32>,
    /// Start timestamp
    pub from: Option<i64>,
    /// End timestamp
    pub to: Option<i64>,
    /// Page number, counted from 1
    pub page: Option<i64>,
    /// Records per page
    pub limit: Option<i64>,
    /// Field to sort by
    pub sort_by: Option<String>,
    /// Sort order (asc or desc)
    pub order: Option<String>,
}

/// Why a query was turned down before any data was read.
#[derive(Clone, Copy, PartialEq, Eq, Structural, Debug)]
pub enum ValidationError {
    /// Exactly one of `interval` and `count` was given.
    IncompletePair,
    /// `interval` is none of the seven interval names.
    InvalidInterval,
    /// `count` lies outside 1 to 400.
    InvalidCount,
    /// `page` is less than 1.
    InvalidPage,
}

/// How a history query can end without a page of buckets.
#[derive(Clone, Copy, PartialEq, Eq, Structural, Debug)]
pub enum QueryError {
    /// The parameters were refused: a client error.
    Invalid(ValidationError),
    /// The requested page holds no bucket.
    NotFound,
}

/// The window start cannot be held in 64 bits.
#[derive(Clone, Copy, PartialEq, Eq, Structural, Debug)]
pub struct WindowOutOfRange;

/// Filter that selects raw samples for a query.
#[derive(Debug)]
pub struct MatchStage {
    /// Pool the samples must belong to, for pool-scoped families.
    pub pool: Option<String>,
    /// Least `start_time` a sample may have.
    pub start_time_gte: i64,
    /// Greatest `end_time` a sample may have, if bounded.
    pub end_time_lte: Option<i64>,
}

/// Largest page size a query can ask for.
pub const MAX_LIMIT: i64 = 400;

/// Page size used where a query names none.
pub const DEFAULT_LIMIT: i64 = 50;

/// Number of buckets looked back where a query names neither `from` nor `count`.
pub const DEFAULT_COUNT: i32 = 400;

pub const ONE_HOUR_SECS: u64 = 3_600;

/// First instant for which pool membership history exists upstream.
pub const RUNEPOOL_START_TIME: i64 = 1648771200;

pub open spec fn count_in_range(count: int) -> bool {
    0 < count <= 400
}

/// The 1-based page a query asks for.
pub open spec fn page_number(query: HistoryQueryParams) -> int {
    match query.page {
        Some(page) => page as int,
        None => 1,
    }
}

/// The page size a query asks for, held to 1 through 400.
pub open spec fn page_limit(query: HistoryQueryParams) -> int {
    match query.limit {
        Some(limit) => if limit < 1 {
            1
        } else if limit > 400 {
            400
        } else {
            limit as int
        },
        None => 50,
    }
}

/// Number of buckets that precede the page a query asks for.
pub open spec fn page_skip(query: HistoryQueryParams) -> int {
    (page_number(query) - 1) * page_limit(query)
}

/// The field a query sorts by: the bucket start unless it names another.
pub open spec fn sort_field(query: HistoryQueryParams) -> Seq<char> {
    match query.sort_by {
        Some(field) => field@,
        None => "startTime"@,
    }
}

/// Whether a query asks for descending order.
pub open spec fn sorts_descending(query: HistoryQueryParams) -> bool {
    query.order matches Some(order) && order@ == "desc"@
}

/// What the parameter checks of a history query answer.
pub open spec fn query_verdict(query: HistoryQueryParams) -> Result<(), ValidationError> {
    if query.interval.is_some() != query.count.is_some() {
        Err(ValidationError::IncompletePair)
    } else if query.count matches Some(count) && !count_in_range(count as int) {
        Err(ValidationError::InvalidCount)
    } else if page_number(query) < 1 {
        Err(ValidationError::InvalidPage)
    } else {
        Ok(())
    }
}

/// What the checks on the names and ranges of single parameters answer.
pub open spec fn params_verdict(query: HistoryQueryParams) -> Result<(), ValidationError> {
    if query.interval matches Some(interval) && named_interval(interval@).is_none() {
        Err(ValidationError::InvalidInterval)
    } else if query.count matches Some(count) && !count_in_range(count as int) {
        Err(ValidationError::InvalidCount)
    } else {
        Ok(())
    }
}

/// Least `start_time` a query selects at clock reading `now`: `from` where
/// given, else `count` intervals (400 by default) before `now`.
pub open spec fn window_start(query: HistoryQueryParams, seconds_per_interval: int, now: int) -> int {
    match query.from {
        Some(from) => from as int,
        None => now - (match query.count {
            Some(count) => count as int,
            None => 400,
        }) * seconds_per_interval,
    }
}

impl MatchStage {
    /// Whether a sample with the given pool and times passes the filter. A
    /// stage without a pool accepts every pool; one with a pool accepts only
    /// samples of that pool.
    pub open spec fn admits(self, pool: Option<Seq<char>>, start_time: int, end_time: int) -> bool {
        &&& (self.pool matches Some(wanted) ==> pool == Some(wanted@))
        &&& self.start_time_gte <= start_time
        &&& (self.end_time_lte matches Some(to) ==> end_time <= to)
    }

    /// Whether a sample's times pass the filter, whatever its pool.
    pub open spec fn admits_times(self, start_time: int, end_time: int) -> bool {
        &&& self.start_time_gte <= start_time
        &&& (self.end_time_lte matches Some(to) ==> end_time <= to)
    }

    pub fn matches_times(&self, start_time: i64, end_time: i64) -> (ok: bool)
        ensures
            ok == self.admits_times(start_time as int, end_time as int),
    {
        self.start_time_gte <= start_time && match self.end_time_lte {
            Some(to) => end_time <= to,
            None => true,
        }
    }

    pub fn matches(&self, pool: Option<&str>, start_time: i64, end_time: i64) -> (ok: bool)
        ensures
            ok == self.admits(
                match pool {
                    Some(p) => Some(p@),
                    None => None,
                },
                start_time as int,
                end_time as int,
            ),
    {
        let pool_ok = match &self.pool {
            Some(wanted) => match pool {
                Some(p) => str_eq(wanted.as_str(), p),
                None => false,
            },
            None => true,
        };
        pool_ok && self.matches_times(start_time, end_time)
    }
}

impl ValidationError {
    /// Status code the error is reported with.
    pub fn status(&self) -> (code: u16)
        ensures
            code == 400,
    {
        400
    }

    /// Message the error is reported with.
    pub fn message(&self) -> (text: String)
        ensures
            text@ == match *self {
                ValidationError::IncompletePair => "Both interval and count must be provided together"@,
                ValidationError::InvalidInterval => "Invalid interval. Must be one of: 5min, hour, day, week, month, quarter, year"@,
                ValidationError::InvalidCount => "Count must be between 1 and 400"@,
                ValidationError::InvalidPage => "Page must be 1 or greater"@,
            },
    {
        match self {
            ValidationError::IncompletePair => String::from_str(
                "Both interval and count must be provided together",
            ),
            ValidationError::InvalidInterval => String::from_str(
                "Invalid interval. Must be one of: 5min, hour, day, week, month, quarter, year",
            ),
            ValidationError::InvalidCount => String::from_str("Count must be between 1 and 400"),
            ValidationError::InvalidPage => String::from_str("Page must be 1 or greater"),
        }
    }
}

impl QueryError {
    /// Status code the error is reported with: 400 for refused parameters,
    /// 404 for an empty page.
    pub fn status(&self) -> (code: u16)
        ensures
            code == match *self {
                QueryError::Invalid(_) => 400u16,
                QueryError::NotFound => 404u16,
            },
    {
        match self {
            QueryError::Invalid(_) => 400,
            QueryError::NotFound => 404,
        }
    }
}

/// Whether a bucket count lies in the accepted range of 1 to 400.
pub fn validate_count(count: i32) -> (ok: bool)
    ensures
        ok == count_in_range(count as int),
{
    count > 0 && count <= 400
}

/// Checks the names and ranges of single parameters: a given interval must
/// be one of the seven names, and a given count must lie in 1 to 400.
pub fn validate_query_params(query: &HistoryQueryParams) -> (verdict: Result<(), ValidationError>)
    ensures
        verdict == params_verdict(*query),
{
    if let Some(interval) = &query.interval {
        if !validate_interval(interval.as_str()) {
            return Err(ValidationError::InvalidInterval);
        }
    }
    if let Some(count) = query.count {
        if !validate_count(count) {
            return Err(ValidationError::InvalidCount);
        }
    }
    Ok(())
}

/// Checks a history query before any data is read: `interval` and `count`
/// come together or not at all, a given count lies in 1 to 400, and pages
/// are counted from 1.
pub fn validate_history_query(query: &HistoryQueryParams) -> (verdict: Result<(), ValidationError>)
    ensures
        verdict == query_verdict(*query),
        verdict == Err::<(), ValidationError>(ValidationError::IncompletePair) <==> (
        query.interval.is_some() != query.count.is_some()),
{
    if query.interval.is_some() != query.count.is_some() {
        return Err(ValidationError::IncompletePair);
    }
    if let Some(count) = query.count {
        if !validate_count(count) {
            return Err(ValidationError::InvalidCount);
        }
    }
    if let Some(page) = query.page {
        if page < 1 {
            return Err(ValidationError::InvalidPage);
        }
    }
    Ok(())
}

/// The page size of a query: its `limit`, 50 by default, held to 1 through 400.
pub fn effective_limit(query: &HistoryQueryParams) -> (limit: i64)
    ensures
        limit == page_limit(*query),
        1 <= limit <= 400,
{
    match query.limit {
        Some(limit) => if limit < 1 {
            1
        } else if limit > MAX_LIMIT {
            MAX_LIMIT
        } else {
            limit
        },
        None => DEFAULT_LIMIT,
    }
}

/// The field a query sorts by.
pub fn effective_sort_field(query: &HistoryQueryParams) -> (field: String)
    ensures
        field@ == sort_field(*query),
{
    match &query.sort_by {
        Some(field) => field.clone(),
        None => String::from_str("startTime"),
    }
}

/// Whether a query asks for descending order: only the word `desc` does.
pub fn is_descending(query: &HistoryQueryParams) -> (descending: bool)
    ensures
        descending == sorts_descending(*query),
{
    match &query.order {
        Some(order) => str_eq(order.as_str(), "desc"),
        None => false,
    }
}

/// Page number, number of buckets to skip, page size, sort field and sort
/// direction (1 ascending, -1 descending) of a query.
pub fn handle_pagination_and_sorting(query: &HistoryQueryParams) -> (plan: (
    i64,
    i64,
    i64,
    String,
    i32,
))
    requires
        i64::MIN <= page_skip(*query) <= i64::MAX,
    ensures
        plan.0 == page_number(*query),
        plan.1 == page_skip(*query),
        plan.2 == page_limit(*query),
        plan.3@ == sort_field(*query),
        plan.4 == if sorts_descending(*query) {
            -1i32
        } else {
            1i32
        },
{
    let page: i64 = match query.page {
        Some(page) => page,
        None => 1,
    };
    let limit = effective_limit(query);
    assert(i64::MIN <= page - 1 <= i64::MAX) by (nonlinear_arith)
        requires
            i64::MIN <= (page - 1) * limit <= i64::MAX,
            1 <= limit,
    ;
    let skip = (page - 1) * limit;
    let field = effective_sort_field(query);
    let direction: i32 = if is_descending(query) {
        -1
    } else {
        1
    };
    (page, skip, limit, field, direction)
}

/// The filter a query selects raw samples with, at clock reading `now`.
pub fn match_stage_at(
    pool: Option<&str>,
    query: &HistoryQueryParams,
    seconds_per_interval: i64,
    now: i64,
) -> (stage: MatchStage)
    requires
        i64::MIN <= window_start(*query, seconds_per_interval as int, now as int) <= i64::MAX,
    ensures
        stage.pool.is_some() == pool.is_some(),
        pool matches Some(p) ==> stage.pool->0@ == p@,
        stage.start_time_gte == window_start(*query, seconds_per_interval as int, now as int),
        stage.end_time_lte == query.to,
{
    let start = match window_start_checked(query, seconds_per_interval, now) {
        Some(start) => start,
        None => 0,
    };
    MatchStage {
        pool: match pool {
            Some(p) => Some(String::from_str(p)),
            None => None,
        },
        start_time_gte: start,
        end_time_lte: query.to,
    }
}

/// The window start of a query at clock reading `now`, where it can be held
/// in 64 bits.
pub fn window_start_checked(query: &HistoryQueryParams, seconds_per_interval: i64, now: i64) -> (start:
    Option<i64>)
    ensures
        start == if i64::MIN <= window_start(*query, seconds_per_interval as int, now as int)
            <= i64::MAX {
            Some(window_start(*query, seconds_per_interval as int, now as int) as i64)
        } else {
            None
        },
{
    match query.from {
        Some(from) => Some(from),
        None => {
            let count: i64 = match query.count {
                Some(count) => count as i64,
                None => DEFAULT_COUNT as i64,
            };
            assert(-0x8000_0000_0000_0000_0000_0000 <= count * seconds_per_interval
                <= 0x8000_0000_0000_0000_0000_0000) by (nonlinear_arith)
                requires
                    -0x8000_0000 <= count <= 0x8000_0000,
                    -0x8000_0000_0000_0000 <= seconds_per_interval <= 0x8000_0000_0000_0000,
            ;
            let span: i128 = (count as i128) * (seconds_per_interval as i128);
            let start: i128 = (now as i128) - span;
            if start < i64::MIN as i128 || start > i64::MAX as i128 {
                None
            } else {
                Some(start as i64)
            }
        },
    }
}

/// The filter a query selects raw samples with. Where the query names no
/// `from`, the window is counted back from the clock, read once.
pub fn build_match_stage(pool: Option<&str>, query: &HistoryQueryParams, seconds_per_interval: i64) -> (stage:
    Result<MatchStage, WindowOutOfRange>)
    ensures
        query.from.is_some() ==> stage.is_ok(),
        stage.is_err() ==> exists|now: i64|
            !(i64::MIN <= #[trigger] window_start(*query, seconds_per_interval as int, now as int)
                <= i64::MAX),
        stage matches Ok(s) ==> {
            &&& s.pool.is_some() == pool.is_some()
            &&& (pool matches Some(p) ==> s.pool->0@ == p@)
            &&& s.end_time_lte == query.to
            &&& (query.from matches Some(from) ==> s.start_time_gte == from)
            &&& (query.from.is_none() ==> exists|now: i64|
                s.start_time_gte == #[trigger] window_start(
                    *query,
                    seconds_per_interval as int,
                    now as int,
                ))
        },
{
    let now: i64 = match query.from {
        Some(_) => 0,
        None => current_timestamp(),
    };
    match window_start_checked(query, seconds_per_interval, now) {
        Some(_) => Ok(match_stage_at(pool, query, seconds_per_interval, now)),
        None => Err(WindowOutOfRange),
    }
}

} // verus!
