//! The earnings family: what the network earned, and how much of it each
//! pool brought in.

use crate::clock::fresh_record_id;
use crate::engine::{all_fit, Bucket};
use crate::history::{
    envelope_of, full_history, history_at, history_page, query_length, selected, History,
    Pagination, Readings, Record,
};
use crate::ingest::{count_missing, missing, normalize, parse_time, time_of, KeyParseError, RawInterval};
use crate::queries::{query_verdict, HistoryQueryParams, QueryError};
use crate::reading::{order_key, reading_or_zero, Reading, RecordId};
use crate::text::str_eq;
use vstd::prelude::*;

verus! {

/// Earnings of one pool within an upstream interval.
#[derive(Debug)]
pub struct Pool {
    pub pool: String,
    pub asset_liquidity_fees: Option<Reading>,
    pub rune_liquidity_fees: Option<Reading>,
    pub total_liquidity_fees_rune: Option<Reading>,
    pub saver_earning: Option<Reading>,
    pub rewards: Option<Reading>,
    pub earnings: Option<Reading>,
}

/// Summary block of an upstream earnings page.
#[derive(Debug)]
pub struct Meta {
    pub start_time: String,
    pub end_time: String,
    pub liquidity_fees: String,
    pub block_rewards: String,
    pub block_earnings: Option<String>,
    pub liquidity_earnings: String,
    pub avg_node_count: String,
    pub rune_price_usd: Option<String>,
    pub pools: Vec<Pool>,
}

/// One interval of an upstream earnings page.
#[derive(Debug)]
pub struct Interval {
    pub start_time: String,
    pub end_time: String,
    pub liquidity_fees: Option<Reading>,
    pub block_rewards: Option<Reading>,
    /// Earnings of the bonders; absent upstream for some intervals.
    pub block_earnings: Option<Reading>,
    pub liquidity_earnings: Option<Reading>,
    pub avg_node_count: Option<Reading>,
    /// Price of the native asset; absent upstream for some intervals.
    pub rune_price_usd: Option<Reading>,
    pub pools: Vec<Pool>,
}

/// An upstream earnings page.
#[derive(Debug)]
pub struct ApiResponse {
    pub meta: Meta,
    pub intervals: Vec<Interval>,
}

/// The network-wide part of an upstream interval, ready to be normalized.
#[derive(Debug)]
pub struct EarningsSummaryRequest {
    pub start_time: String,
    pub end_time: String,
    pub block_rewards: Option<Reading>,
    pub avg_node_count: Option<Reading>,
    pub bonding_earnings: Option<Reading>,
    pub liquidity_earnings: Option<Reading>,
    pub liquidity_fees: Option<Reading>,
    pub rune_price_usd: Option<Reading>,
}

/// The part of an upstream interval that belongs to one pool, bound to the
/// summary record it was reported with.
#[derive(Debug)]
pub struct PoolEarningsRequest {
    pub pool: String,
    pub asset_liquidity_fees: Option<Reading>,
    pub rune_liquidity_fees: Option<Reading>,
    pub total_liquidity_fees_rune: Option<Reading>,
    pub saver_earning: Option<Reading>,
    pub rewards: Option<Reading>,
    pub start_time: String,
    pub end_time: String,
    pub earnings_summary_id: RecordId,
}

/// The network-wide readings of an earnings sample.
#[derive(Clone, Copy, PartialEq, Eq, Structural, Debug)]
pub struct EarningsReadings {
    pub block_rewards: Reading,
    pub avg_node_count: Reading,
    pub bonding_earnings: Reading,
    pub liquidity_earnings: Reading,
    pub liquidity_fees: Reading,
    pub rune_price_usd: Reading,
}

impl Readings for EarningsReadings {
    open spec fn key_for(self, field: Seq<char>) -> u64 {
        if field == "blockRewards"@ {
            order_key(self.block_rewards.bits)
        } else if field == "avgNodeCount"@ {
            order_key(self.avg_node_count.bits)
        } else if field == "bondingEarnings"@ {
            order_key(self.bonding_earnings.bits)
        } else if field == "liquidityEarnings"@ {
            order_key(self.liquidity_earnings.bits)
        } else if field == "liquidityFees"@ {
            order_key(self.liquidity_fees.bits)
        } else if field == "runePriceUSD"@ {
            order_key(self.rune_price_usd.bits)
        } else {
            0
        }
    }

    fn sort_key(&self, field: &str) -> (key: u64) {
        if str_eq(field, "blockRewards") {
            self.block_rewards.sort_key()
        } else if str_eq(field, "avgNodeCount") {
            self.avg_node_count.sort_key()
        } else if str_eq(field, "bondingEarnings") {
            self.bonding_earnings.sort_key()
        } else if str_eq(field, "liquidityEarnings") {
            self.liquidity_earnings.sort_key()
        } else if str_eq(field, "liquidityFees") {
            self.liquidity_fees.sort_key()
        } else if str_eq(field, "runePriceUSD") {
            self.rune_price_usd.sort_key()
        } else {
            0
        }
    }
}

/// The readings of one pool within an earnings sample.
#[derive(Clone, Copy, PartialEq, Eq, Structural, Debug)]
pub struct PoolReadings {
    pub asset_liquidity_fees: Reading,
    pub rune_liquidity_fees: Reading,
    pub total_liquidity_fees_rune: Reading,
    pub saver_earning: Reading,
    pub rewards: Reading,
}

/// A stored earnings sample.
pub type EarningsHistory = Record<EarningsReadings>;

/// A stored record of what one pool earned, bound to its earnings sample.
#[derive(Debug)]
pub struct EarningsHistoryPools {
    pub id: RecordId,
    pub pool: String,
    pub readings: PoolReadings,
    pub start_time: i64,
    pub end_time: i64,
    /// Identity of the earnings sample this record belongs to.
    pub earnings_summary_id: RecordId,
}

/// An earnings sample with the records of its pools, as one upstream
/// interval yields them.
#[derive(Debug)]
pub struct EarningsEntry {
    pub summary: EarningsHistory,
    pub pools: Vec<EarningsHistoryPools>,
}

/// What one pool earned within a bucket.
#[derive(Debug)]
pub struct PoolShare {
    pub pool: String,
    pub readings: PoolReadings,
}

/// One bucket of an earnings history with the pools of its winning sample.
#[derive(Debug)]
pub struct EarningsInterval {
    pub bucket: Bucket<EarningsReadings>,
    pub pools: Vec<PoolShare>,
}

/// Summary of a page of earnings buckets: where the page starts and ends
/// and how many buckets it holds. The totals and means of the readings are
/// taken over `intervals` by the caller.
#[derive(Clone, Copy, PartialEq, Eq, Structural, Debug)]
pub struct EarningsMeta {
    pub start_time: i64,
    pub end_time: i64,
    pub buckets: usize,
}

/// One page of earnings history.
#[derive(Debug)]
pub struct EarningsHistoryPage {
    pub intervals: Vec<EarningsInterval>,
    pub meta: EarningsMeta,
    pub pagination: Pagination,
}

impl RawInterval<EarningsReadings> for EarningsSummaryRequest {
    open spec fn start_text(&self) -> Seq<char> {
        self.start_time@
    }

    open spec fn end_text(&self) -> Seq<char> {
        self.end_time@
    }

    open spec fn readings(&self) -> EarningsReadings {
        EarningsReadings {
            block_rewards: reading_or_zero(self.block_rewards),
            avg_node_count: reading_or_zero(self.avg_node_count),
            bonding_earnings: reading_or_zero(self.bonding_earnings),
            liquidity_earnings: reading_or_zero(self.liquidity_earnings),
            liquidity_fees: reading_or_zero(self.liquidity_fees),
            rune_price_usd: reading_or_zero(self.rune_price_usd),
        }
    }

    open spec fn malformed(&self) -> nat {
        missing(self.block_rewards)
            + missing(self.avg_node_count)
            + missing(self.bonding_earnings)
            + missing(self.liquidity_earnings)
            + missing(self.liquidity_fees)
            + missing(self.rune_price_usd)
    }

    fn start_time_text(&self) -> (text: &str) {
        self.start_time.as_str()
    }

    fn end_time_text(&self) -> (text: &str) {
        self.end_time.as_str()
    }

    fn to_readings(&self) -> (result: (EarningsReadings, usize)) {
        let misses: usize = count_missing(&self.block_rewards)
            + count_missing(&self.avg_node_count)
            + count_missing(&self.bonding_earnings)
            + count_missing(&self.liquidity_earnings)
            + count_missing(&self.liquidity_fees)
            + count_missing(&self.rune_price_usd);
        (
            EarningsReadings {
                block_rewards: Reading::or_zero(self.block_rewards),
                avg_node_count: Reading::or_zero(self.avg_node_count),
                bonding_earnings: Reading::or_zero(self.bonding_earnings),
                liquidity_earnings: Reading::or_zero(self.liquidity_earnings),
                liquidity_fees: Reading::or_zero(self.liquidity_fees),
                rune_price_usd: Reading::or_zero(self.rune_price_usd),
            },
            misses,
        )
    }
}

/// The readings of a pool request, with zero for every malformed field.
pub open spec fn pool_readings(request: PoolEarningsRequest) -> PoolReadings {
    PoolReadings {
        asset_liquidity_fees: reading_or_zero(request.asset_liquidity_fees),
        rune_liquidity_fees: reading_or_zero(request.rune_liquidity_fees),
        total_liquidity_fees_rune: reading_or_zero(request.total_liquidity_fees_rune),
        saver_earning: reading_or_zero(request.saver_earning),
        rewards: reading_or_zero(request.rewards),
    }
}

/// The network-wide part of an interval.
pub open spec fn summary_of(interval: Interval, request: EarningsSummaryRequest) -> bool {
    &&& request.start_time@ == interval.start_time@
    &&& request.end_time@ == interval.end_time@
    &&& request.block_rewards == interval.block_rewards
    &&& request.avg_node_count == interval.avg_node_count
    &&& request.bonding_earnings == interval.block_earnings
    &&& request.liquidity_earnings == interval.liquidity_earnings
    &&& request.liquidity_fees == interval.liquidity_fees
    &&& request.rune_price_usd == interval.rune_price_usd
}

/// Whether `request` is the part of `interval` that belongs to `pool`, bound
/// to the summary record `parent`.
pub open spec fn pool_request_of(
    interval: Interval,
    pool: Pool,
    parent: RecordId,
    request: PoolEarningsRequest,
) -> bool {
    &&& request.pool@ == pool.pool@
    &&& request.asset_liquidity_fees == pool.asset_liquidity_fees
    &&& request.rune_liquidity_fees == pool.rune_liquidity_fees
    &&& request.total_liquidity_fees_rune == pool.total_liquidity_fees_rune
    &&& request.saver_earning == pool.saver_earning
    &&& request.rewards == pool.rewards
    &&& request.start_time@ == interval.start_time@
    &&& request.end_time@ == interval.end_time@
    &&& request.earnings_summary_id == parent
}

/// Whether `record` is what `pool` of `interval` is stored as under the
/// summary record `parent`.
pub open spec fn pool_record_of(
    record: EarningsHistoryPools,
    pool: Pool,
    interval: Interval,
    parent: RecordId,
) -> bool {
    &&& record.pool@ == pool.pool@
    &&& record.readings == PoolReadings {
        asset_liquidity_fees: reading_or_zero(pool.asset_liquidity_fees),
        rune_liquidity_fees: reading_or_zero(pool.rune_liquidity_fees),
        total_liquidity_fees_rune: reading_or_zero(pool.total_liquidity_fees_rune),
        saver_earning: reading_or_zero(pool.saver_earning),
        rewards: reading_or_zero(pool.rewards),
    }
    &&& time_of(interval.start_time@) == Some(record.start_time)
    &&& time_of(interval.end_time@) == Some(record.end_time)
    &&& record.earnings_summary_id == parent
}

/// The pool records bound to the summary record `parent`, in storage order,
/// each as the pool's name and its readings.
pub open spec fn shares_of(pools: Seq<EarningsHistoryPools>, parent: RecordId) -> Seq<
    (Seq<char>, PoolReadings),
>
    decreases pools.len(),
{
    if pools.len() == 0 {
        Seq::empty()
    } else if pools.last().earnings_summary_id == parent {
        shares_of(pools.drop_last(), parent).push((pools.last().pool@, pools.last().readings))
    } else {
        shares_of(pools.drop_last(), parent)
    }
}

/// The name and readings of each share.
pub open spec fn shares_view(shares: Seq<PoolShare>) -> Seq<(Seq<char>, PoolReadings)> {
    Seq::new(shares.len(), |k: int| (shares[k].pool@, shares[k].readings))
}

/// What an earnings query answers at clock reading `now`.
pub open spec fn answers_earnings(
    result: Result<EarningsHistoryPage, QueryError>,
    records: Seq<EarningsHistory>,
    pools: Seq<EarningsHistoryPools>,
    query: HistoryQueryParams,
    now: int,
) -> bool {
    let page = history_page(records, None, query, now);
    match query_verdict(query) {
        Err(reason) => result == Err::<EarningsHistoryPage, QueryError>(QueryError::Invalid(reason)),
        Ok(()) => if page.len() == 0 {
            result == Err::<EarningsHistoryPage, QueryError>(QueryError::NotFound)
        } else {
            &&& result matches Ok(answer)
            &&& answer.intervals@.len() == page.len()
            &&& forall|k: int|
                0 <= k < page.len() ==> (#[trigger] answer.intervals@[k]).bucket == page[k]
                    && shares_view(answer.intervals@[k].pools@) == shares_of(pools, page[k].source)
            &&& answer.meta == (EarningsMeta {
                start_time: page.first().start_time,
                end_time: page.last().end_time,
                buckets: page.len() as usize,
            })
            &&& envelope_of(answer.pagination, query, full_history(records, None, query, now).len() as int)
        },
    }
}

impl Interval {
    /// The part of the interval that belongs to its pool at position
    /// `index`, bound to the summary record `parent`.
    pub fn pool_request(&self, index: usize, parent: RecordId) -> (request: PoolEarningsRequest)
        requires
            index < self.pools@.len(),
        ensures
            pool_request_of(*self, self.pools@[index as int], parent, request),
    {
        let pool = &self.pools[index];
        PoolEarningsRequest {
            pool: pool.pool.clone(),
            asset_liquidity_fees: pool.asset_liquidity_fees,
            rune_liquidity_fees: pool.rune_liquidity_fees,
            total_liquidity_fees_rune: pool.total_liquidity_fees_rune,
            saver_earning: pool.saver_earning,
            rewards: pool.rewards,
            start_time: self.start_time.clone(),
            end_time: self.end_time.clone(),
            earnings_summary_id: parent,
        }
    }

    /// The network-wide part of the interval.
    pub fn summary_request(&self) -> (request: EarningsSummaryRequest)
        ensures
            summary_of(*self, request),
    {
        EarningsSummaryRequest {
            start_time: self.start_time.clone(),
            end_time: self.end_time.clone(),
            block_rewards: self.block_rewards,
            avg_node_count: self.avg_node_count,
            bonding_earnings: self.block_earnings,
            liquidity_earnings: self.liquidity_earnings,
            liquidity_fees: self.liquidity_fees,
            rune_price_usd: self.rune_price_usd,
        }
    }
}

/// Normalizes what one pool earned within an interval. The record is
/// refused where a time cannot be read; a malformed numeric field is
/// stored as zero. The record names the summary record of the request as
/// its parent and is given a fresh identity.
pub fn normalize_pool(request: &PoolEarningsRequest) -> (result: Result<
    EarningsHistoryPools,
    KeyParseError,
>)
    ensures
        result.is_ok() == (time_of(request.start_time@).is_some() && time_of(
            request.end_time@,
        ).is_some()),
        result matches Ok(record) ==> {
            &&& record.pool@ == request.pool@
            &&& record.readings == pool_readings(*request)
            &&& time_of(request.start_time@) == Some(record.start_time)
            &&& time_of(request.end_time@) == Some(record.end_time)
            &&& record.earnings_summary_id == request.earnings_summary_id
        },
{
    let start_time = match parse_time(request.start_time.as_str()) {
        Some(time) => time,
        None => {
            return Err(KeyParseError);
        },
    };
    let end_time = match parse_time(request.end_time.as_str()) {
        Some(time) => time,
        None => {
            return Err(KeyParseError);
        },
    };
    Ok(
        EarningsHistoryPools {
            id: fresh_record_id(),
            pool: request.pool.clone(),
            readings: PoolReadings {
                asset_liquidity_fees: Reading::or_zero(request.asset_liquidity_fees),
                rune_liquidity_fees: Reading::or_zero(request.rune_liquidity_fees),
                total_liquidity_fees_rune: Reading::or_zero(request.total_liquidity_fees_rune),
                saver_earning: Reading::or_zero(request.saver_earning),
                rewards: Reading::or_zero(request.rewards),
            },
            start_time,
            end_time,
            earnings_summary_id: request.earnings_summary_id,
        },
    )
}

/// Normalizes one upstream interval into its earnings sample and the
/// records of its pools. Every pool record names the sample as its parent
/// and carries the sample's times. An interval whose times cannot be read
/// is refused as a whole.
pub fn normalize_earnings(interval: &Interval) -> (result: Result<EarningsEntry, KeyParseError>)
    ensures
        result.is_ok() == (time_of(interval.start_time@).is_some() && time_of(
            interval.end_time@,
        ).is_some()),
        result matches Ok(entry) ==> {
            &&& time_of(interval.start_time@) == Some(entry.summary.start_time)
            &&& time_of(interval.end_time@) == Some(entry.summary.end_time)
            &&& entry.summary.pool.is_none()
            &&& entry.summary.readings == (EarningsReadings {
                block_rewards: reading_or_zero(interval.block_rewards),
                avg_node_count: reading_or_zero(interval.avg_node_count),
                bonding_earnings: reading_or_zero(interval.block_earnings),
                liquidity_earnings: reading_or_zero(interval.liquidity_earnings),
                liquidity_fees: reading_or_zero(interval.liquidity_fees),
                rune_price_usd: reading_or_zero(interval.rune_price_usd),
            })
            &&& entry.pools@.len() == interval.pools@.len()
            &&& forall|k: int|
                0 <= k < entry.pools@.len() ==> pool_record_of(
                    #[trigger] entry.pools@[k],
                    interval.pools@[k],
                    *interval,
                    entry.summary.id,
                )
        },
{
    let request = interval.summary_request();
    let summary = match normalize(&request, None) {
        Ok(summary) => summary,
        Err(reason) => {
            return Err(reason);
        },
    };
    let mut pools: Vec<EarningsHistoryPools> = Vec::new();
    let mut k: usize = 0;
    while k < interval.pools.len()
        invariant
            k <= interval.pools.len(),
            pools@.len() == k,
            time_of(interval.start_time@) == Some(summary.start_time),
            time_of(interval.end_time@) == Some(summary.end_time),
            forall|j: int|
                0 <= j < k ==> pool_record_of(
                    #[trigger] pools@[j],
                    interval.pools@[j],
                    *interval,
                    summary.id,
                ),
        decreases interval.pools.len() - k,
    {
        let request = interval.pool_request(k, summary.id);
        match normalize_pool(&request) {
            Ok(record) => {
                pools.push(record);
            },
            Err(reason) => {
                return Err(reason);
            },
        }
        k += 1;
    }
    Ok(EarningsEntry { summary, pools })
}

/// The pool records bound to the summary record `parent`, in storage order.
pub fn pools_of(pools: &Vec<EarningsHistoryPools>, parent: RecordId) -> (shares: Vec<PoolShare>)
    ensures
        shares_view(shares@) == shares_of(pools@, parent),
{
    let mut out: Vec<PoolShare> = Vec::new();
    let mut i: usize = 0;
    while i < pools.len()
        invariant
            i <= pools.len(),
            shares_view(out@) == shares_of(pools@.take(i as int), parent),
        decreases pools.len() - i,
    {
        proof {
            let next = pools@.take(i as int + 1);
            assert(next.drop_last() =~= pools@.take(i as int));
            assert(next.last() == pools@[i as int]);
        }
        if pools[i].earnings_summary_id.value == parent.value {
            let ghost before = out@;
            out.push(PoolShare { pool: pools[i].pool.clone(), readings: pools[i].readings });
            assert(shares_view(out@) =~= shares_view(before).push(
                (pools@[i as int].pool@, pools@[i as int].readings),
            ));
        }
        i += 1;
    }
    assert(pools@.take(i as int) =~= pools@);
    out
}

/// Answers an earnings history query at clock reading `now`: the page of
/// buckets asked for, each with the pool records of the sample that won
/// it, the pagination envelope, and the bounds of the page. Refused
/// parameters and an empty page are errors.
pub fn get_earnings_history(
    records: &Vec<EarningsHistory>,
    pools: &Vec<EarningsHistoryPools>,
    query: &HistoryQueryParams,
    now: i64,
) -> (result: Result<EarningsHistoryPage, QueryError>)
    requires
        all_fit(selected(records@, None, *query, now as int), query_length(*query)),
    ensures
        answers_earnings(result, records@, pools@, *query, now as int),
{
    let history = match history_at(records, None, query, now) {
        Ok(history) => history,
        Err(reason) => {
            return Err(reason);
        },
    };
    let History { intervals: buckets, pagination } = history;
    let count = buckets.len();
    let meta = EarningsMeta {
        start_time: buckets[0].start_time,
        end_time: buckets[count - 1].end_time,
        buckets: count,
    };
    let mut intervals: Vec<EarningsInterval> = Vec::new();
    let mut k: usize = 0;
    while k < count
        invariant
            k <= count,
            count == buckets@.len(),
            intervals@.len() == k,
            forall|j: int|
                0 <= j < k ==> (#[trigger] intervals@[j]).bucket == buckets@[j] && shares_view(
                    intervals@[j].pools@,
                ) == shares_of(pools@, buckets@[j].source),
        decreases count - k,
    {
        let bucket = buckets[k];
        let shares = pools_of(pools, bucket.source);
        intervals.push(EarningsInterval { bucket, pools: shares });
        k += 1;
    }
    Ok(EarningsHistoryPage { intervals, meta, pagination })
}

} // verus!
