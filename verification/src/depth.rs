//! The depth and price family: the depths, prices and units of one pool.

use crate::engine::{all_fit, Bucket};
use crate::history::{answers, history_at, query_length, selected, text_of_str, History, Readings, Record};
use crate::ingest::{count_missing, missing, RawInterval};
use crate::queries::{HistoryQueryParams, QueryError};
use crate::reading::{order_key, reading_or_zero, Reading};
use crate::text::str_eq;
use vstd::prelude::*;

verus! {

/// Summary block of an upstream depth page.
#[derive(Debug)]
pub struct Meta {
    pub start_time: String,
    pub end_time: String,
    pub price_shift_loss: String,
    pub luvi_increase: String,
    pub start_asset_depth: String,
    pub start_rune_depth: String,
    pub start_lp_units: String,
    pub start_member_count: String,
    pub start_synth_units: String,
    pub end_asset_depth: String,
    pub end_rune_depth: String,
    pub end_lp_units: String,
    pub end_member_count: String,
    pub end_synth_units: String,
}

/// One interval of an upstream depth page.
#[derive(Debug)]
pub struct Interval {
    pub start_time: String,
    pub end_time: String,
    pub asset_depth: Option<Reading>,
    pub asset_price: Option<Reading>,
    pub asset_price_usd: Option<Reading>,
    pub liquidity_units: Option<Reading>,
    pub luvi: Option<Reading>,
    pub members_count: Option<Reading>,
    pub rune_depth: Option<Reading>,
    pub synth_supply: Option<Reading>,
    pub synth_units: Option<Reading>,
    pub units: Option<Reading>,
}

/// An upstream depth page.
#[derive(Debug)]
pub struct PriceHistory {
    pub meta: Meta,
    pub intervals: Vec<Interval>,
}

/// The readings of a depth sample.
#[derive(Clone, Copy, PartialEq, Eq, Structural, Debug)]
pub struct DepthReadings {
    pub asset_depth: Reading,
    pub asset_price: Reading,
    pub asset_price_usd: Reading,
    pub liquidity_units: Reading,
    pub luvi: Reading,
    pub members_count: Reading,
    pub rune_depth: Reading,
    pub synth_supply: Reading,
    pub synth_units: Reading,
    pub units: Reading,
}

impl Readings for DepthReadings {
    open spec fn key_for(self, field: Seq<char>) -> u64 {
        if field == "assetDepth"@ {
            order_key(self.asset_depth.bits)
        } else if field == "assetPrice"@ {
            order_key(self.asset_price.bits)
        } else if field == "assetPriceUSD"@ {
            order_key(self.asset_price_usd.bits)
        } else if field == "liquidityUnits"@ {
            order_key(self.liquidity_units.bits)
        } else if field == "luvi"@ {
            order_key(self.luvi.bits)
        } else if field == "membersCount"@ {
            order_key(self.members_count.bits)
        } else if field == "runeDepth"@ {
            order_key(self.rune_depth.bits)
        } else if field == "synthSupply"@ {
            order_key(self.synth_supply.bits)
        } else if field == "synthUnits"@ {
            order_key(self.synth_units.bits)
        } else if field == "units"@ {
            order_key(self.units.bits)
        } else {
            0
        }
    }

    fn sort_key(&self, field: &str) -> (key: u64) {
        if str_eq(field, "assetDepth") {
            self.asset_depth.sort_key()
        } else if str_eq(field, "assetPrice") {
            self.asset_price.sort_key()
        } else if str_eq(field, "assetPriceUSD") {
            self.asset_price_usd.sort_key()
        } else if str_eq(field, "liquidityUnits") {
            self.liquidity_units.sort_key()
        } else if str_eq(field, "luvi") {
            self.luvi.sort_key()
        } else if str_eq(field, "membersCount") {
            self.members_count.sort_key()
        } else if str_eq(field, "runeDepth") {
            self.rune_depth.sort_key()
        } else if str_eq(field, "synthSupply") {
            self.synth_supply.sort_key()
        } else if str_eq(field, "synthUnits") {
            self.synth_units.sort_key()
        } else if str_eq(field, "units") {
            self.units.sort_key()
        } else {
            0
        }
    }
}

impl RawInterval<DepthReadings> for Interval {
    open spec fn start_text(&self) -> Seq<char> {
        self.start_time@
    }

    open spec fn end_text(&self) -> Seq<char> {
        self.end_time@
    }

    open spec fn readings(&self) -> DepthReadings {
        DepthReadings {
            asset_depth: reading_or_zero(self.asset_depth),
            asset_price: reading_or_zero(self.asset_price),
            asset_price_usd: reading_or_zero(self.asset_price_usd),
            liquidity_units: reading_or_zero(self.liquidity_units),
            luvi: reading_or_zero(self.luvi),
            members_count: reading_or_zero(self.members_count),
            rune_depth: reading_or_zero(self.rune_depth),
            synth_supply: reading_or_zero(self.synth_supply),
            synth_units: reading_or_zero(self.synth_units),
            units: reading_or_zero(self.units),
        }
    }

    open spec fn malformed(&self) -> nat {
        missing(self.asset_depth)
            + missing(self.asset_price)
            + missing(self.asset_price_usd)
            + missing(self.liquidity_units)
            + missing(self.luvi)
            + missing(self.members_count)
            + missing(self.rune_depth)
            + missing(self.synth_supply)
            + missing(self.synth_units)
            + missing(self.units)
    }

    fn start_time_text(&self) -> (text: &str) {
        self.start_time.as_str()
    }

    fn end_time_text(&self) -> (text: &str) {
        self.end_time.as_str()
    }

    fn to_readings(&self) -> (result: (DepthReadings, usize)) {
        let mut misses: usize = 0;
        misses = misses + count_missing(&self.asset_depth);
        misses = misses + count_missing(&self.asset_price);
        misses = misses + count_missing(&self.asset_price_usd);
        misses = misses + count_missing(&self.liquidity_units);
        misses = misses + count_missing(&self.luvi);
        misses = misses + count_missing(&self.members_count);
        misses = misses + count_missing(&self.rune_depth);
        misses = misses + count_missing(&self.synth_supply);
        misses = misses + count_missing(&self.synth_units);
        misses = misses + count_missing(&self.units);
        (
            DepthReadings {
                asset_depth: Reading::or_zero(self.asset_depth),
                asset_price: Reading::or_zero(self.asset_price),
                asset_price_usd: Reading::or_zero(self.asset_price_usd),
                liquidity_units: Reading::or_zero(self.liquidity_units),
                luvi: Reading::or_zero(self.luvi),
                members_count: Reading::or_zero(self.members_count),
                rune_depth: Reading::or_zero(self.rune_depth),
                synth_supply: Reading::or_zero(self.synth_supply),
                synth_units: Reading::or_zero(self.synth_units),
                units: Reading::or_zero(self.units),
            },
            misses,
        )
    }
}

/// A stored depth sample.
pub type DepthPriceHistory = Record<DepthReadings>;

/// A difference of two readings, left for the caller to evaluate: the
/// library does no arithmetic on readings.
#[derive(Clone, Copy, PartialEq, Eq, Structural, Debug)]
pub struct Difference {
    pub minuend: Reading,
    pub subtrahend: Reading,
}

/// Summary of a page of depth buckets: where the page starts and ends, the
/// depths and units at its first and last bucket, and the change between
/// the two.
#[derive(Clone, Copy, PartialEq, Eq, Structural, Debug)]
pub struct DepthMeta {
    pub start_time: i64,
    pub end_time: i64,
    pub start_asset_depth: Reading,
    pub end_asset_depth: Reading,
    pub start_rune_depth: Reading,
    pub end_rune_depth: Reading,
    pub start_lp_units: Reading,
    pub end_lp_units: Reading,
    pub start_member_count: Reading,
    pub end_member_count: Reading,
    pub start_synth_units: Reading,
    pub end_synth_units: Reading,
    /// Price at the first bucket less price at the last.
    pub price_shift_loss: Difference,
    /// Value index at the last bucket less value index at the first.
    pub luvi_increase: Difference,
}

/// One page of depth history with its summary.
#[derive(Debug)]
pub struct DepthHistory {
    pub history: History<DepthReadings>,
    pub meta: DepthMeta,
}

/// The summary of a page whose first bucket is `first` and whose last is `last`.
pub open spec fn depth_meta(first: Bucket<DepthReadings>, last: Bucket<DepthReadings>) -> DepthMeta {
    DepthMeta {
        start_time: first.start_time,
        end_time: last.end_time,
        start_asset_depth: first.payload.asset_depth,
        end_asset_depth: last.payload.asset_depth,
        start_rune_depth: first.payload.rune_depth,
        end_rune_depth: last.payload.rune_depth,
        start_lp_units: first.payload.units,
        end_lp_units: last.payload.units,
        start_member_count: first.payload.members_count,
        end_member_count: last.payload.members_count,
        start_synth_units: first.payload.synth_units,
        end_synth_units: last.payload.synth_units,
        price_shift_loss: Difference {
            minuend: first.payload.asset_price,
            subtrahend: last.payload.asset_price,
        },
        luvi_increase: Difference { minuend: last.payload.luvi, subtrahend: first.payload.luvi },
    }
}

/// Builds the summary of a page from its first and last bucket.
pub fn build_meta_response(first: &Bucket<DepthReadings>, last: &Bucket<DepthReadings>) -> (meta:
    DepthMeta)
    ensures
        meta == depth_meta(*first, *last),
{
    DepthMeta {
        start_time: first.start_time,
        end_time: last.end_time,
        start_asset_depth: first.payload.asset_depth,
        end_asset_depth: last.payload.asset_depth,
        start_rune_depth: first.payload.rune_depth,
        end_rune_depth: last.payload.rune_depth,
        start_lp_units: first.payload.units,
        end_lp_units: last.payload.units,
        start_member_count: first.payload.members_count,
        end_member_count: last.payload.members_count,
        start_synth_units: first.payload.synth_units,
        end_synth_units: last.payload.synth_units,
        price_shift_loss: Difference {
            minuend: first.payload.asset_price,
            subtrahend: last.payload.asset_price,
        },
        luvi_increase: Difference { minuend: last.payload.luvi, subtrahend: first.payload.luvi },
    }
}

/// Answers a depth history query for `pool` at clock reading `now`: the
/// page of buckets asked for, its pagination envelope, and the summary of
/// the page. Refused parameters and an empty page are errors.
pub fn get_depth_history(
    records: &Vec<DepthPriceHistory>,
    pool: &str,
    query: &HistoryQueryParams,
    now: i64,
) -> (result: Result<DepthHistory, QueryError>)
    requires
        all_fit(selected(records@, Some(pool@), *query, now as int), query_length(*query)),
    ensures
        match result {
            Ok(page) => {
                &&& answers(Ok(page.history), records@, Some(pool@), *query, now as int)
                &&& page.meta == depth_meta(
                    page.history.intervals@.first(),
                    page.history.intervals@.last(),
                )
            },
            Err(reason) => answers(
                Err::<History<DepthReadings>, QueryError>(reason),
                records@,
                Some(pool@),
                *query,
                now as int,
            ),
        },
{
    match history_at(records, Some(pool), query, now) {
        Ok(history) => {
            let last = history.intervals.len() - 1;
            let meta = build_meta_response(&history.intervals[0], &history.intervals[last]);
            Ok(DepthHistory { history, meta })
        },
        Err(reason) => Err(reason),
    }
}

} // verus!
