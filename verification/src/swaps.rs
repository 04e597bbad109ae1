//! The swaps family: counts, volumes, fees and slippage of swaps by kind.

use crate::engine::{all_fit, Bucket};
use crate::history::{answers, history_at, query_length, selected, text_of_str, History, Readings, Record};
use crate::ingest::{count_missing, missing, RawInterval};
use crate::queries::{HistoryQueryParams, QueryError};
use crate::reading::{order_key, reading_or_zero, Reading};
use crate::text::str_eq;
use vstd::prelude::*;

verus! {

/// Summary block of an upstream swaps page.
#[derive(Debug)]
pub struct Meta {
    pub start_time: String,
    pub end_time: String,
    pub to_asset_count: String,
    pub to_rune_count: String,
    pub to_trade_count: String,
    pub from_trade_count: String,
    pub synth_mint_count: String,
    pub synth_redeem_count: String,
    pub total_count: String,
    pub to_asset_volume: String,
    pub to_rune_volume: String,
    pub to_trade_volume: String,
    pub from_trade_volume: String,
    pub synth_mint_volume: String,
    pub synth_redeem_volume: String,
    pub total_volume: String,
    pub to_asset_volume_usd: String,
    pub to_rune_volume_usd: String,
    pub to_trade_volume_usd: String,
    pub from_trade_volume_usd: String,
    pub synth_mint_volume_usd: String,
    pub synth_redeem_volume_usd: String,
    pub total_volume_usd: String,
    pub to_asset_fees: String,
    pub to_rune_fees: String,
    pub to_trade_fees: String,
    pub from_trade_fees: String,
    pub synth_mint_fees: String,
    pub synth_redeem_fees: String,
    pub total_fees: String,
    pub to_asset_average_slip: String,
    pub to_rune_average_slip: String,
    pub to_trade_average_slip: String,
    pub from_trade_average_slip: String,
    pub synth_mint_average_slip: String,
    pub synth_redeem_average_slip: String,
    pub average_slip: String,
    pub rune_price_usd: String,
}

/// One interval of an upstream swaps page.
#[derive(Debug)]
pub struct Interval {
    pub start_time: String,
    pub end_time: String,
    pub to_asset_count: Option<Reading>,
    pub to_rune_count: Option<Reading>,
    pub to_trade_count: Option<Reading>,
    pub from_trade_count: Option<Reading>,
    pub synth_mint_count: Option<Reading>,
    pub synth_redeem_count: Option<Reading>,
    pub total_count: Option<Reading>,
    pub to_asset_volume: Option<Reading>,
    pub to_rune_volume: Option<Reading>,
    pub to_trade_volume: Option<Reading>,
    pub from_trade_volume: Option<Reading>,
    pub synth_mint_volume: Option<Reading>,
    pub synth_redeem_volume: Option<Reading>,
    pub total_volume: Option<Reading>,
    pub to_asset_volume_usd: Option<Reading>,
    pub to_rune_volume_usd: Option<Reading>,
    pub to_trade_volume_usd: Option<Reading>,
    pub from_trade_volume_usd: Option<Reading>,
    pub synth_mint_volume_usd: Option<Reading>,
    pub synth_redeem_volume_usd: Option<Reading>,
    pub total_volume_usd: Option<Reading>,
    pub to_asset_fees: Option<Reading>,
    pub to_rune_fees: Option<Reading>,
    pub to_trade_fees: Option<Reading>,
    pub from_trade_fees: Option<Reading>,
    pub synth_mint_fees: Option<Reading>,
    pub synth_redeem_fees: Option<Reading>,
    pub total_fees: Option<Reading>,
    pub to_asset_average_slip: Option<Reading>,
    pub to_rune_average_slip: Option<Reading>,
    pub to_trade_average_slip: Option<Reading>,
    pub from_trade_average_slip: Option<Reading>,
    pub synth_mint_average_slip: Option<Reading>,
    pub synth_redeem_average_slip: Option<Reading>,
    pub average_slip: Option<Reading>,
    pub rune_price_usd: Option<Reading>,
}

/// An upstream swaps page.
#[derive(Debug)]
pub struct SwapHistory {
    pub intervals: Vec<Interval>,
    pub meta: Meta,
}

/// The readings of a swaps sample.
#[derive(Clone, Copy, PartialEq, Eq, Structural, Debug)]
pub struct SwapReadings {
    pub to_asset_count: Reading,
    pub to_rune_count: Reading,
    pub to_trade_count: Reading,
    pub from_trade_count: Reading,
    pub synth_mint_count: Reading,
    pub synth_redeem_count: Reading,
    pub total_count: Reading,
    pub to_asset_volume: Reading,
    pub to_rune_volume: Reading,
    pub to_trade_volume: Reading,
    pub from_trade_volume: Reading,
    pub synth_mint_volume: Reading,
    pub synth_redeem_volume: Reading,
    pub total_volume: Reading,
    pub to_asset_volume_usd: Reading,
    pub to_rune_volume_usd: Reading,
    pub to_trade_volume_usd: Reading,
    pub from_trade_volume_usd: Reading,
    pub synth_mint_volume_usd: Reading,
    pub synth_redeem_volume_usd: Reading,
    pub total_volume_usd: Reading,
    pub to_asset_fees: Reading,
    pub to_rune_fees: Reading,
    pub to_trade_fees: Reading,
    pub from_trade_fees: Reading,
    pub synth_mint_fees: Reading,
    pub synth_redeem_fees: Reading,
    pub total_fees: Reading,
    pub to_asset_average_slip: Reading,
    pub to_rune_average_slip: Reading,
    pub to_trade_average_slip: Reading,
    pub from_trade_average_slip: Reading,
    pub synth_mint_average_slip: Reading,
    pub synth_redeem_average_slip: Reading,
    pub average_slip: Reading,
    pub rune_price_usd: Reading,
}

impl Readings for SwapReadings {
    open spec fn key_for(self, field: Seq<char>) -> u64 {
        if field == "toAssetCount"@ {
            order_key(self.to_asset_count.bits)
        } else if field == "toRuneCount"@ {
            order_key(self.to_rune_count.bits)
        } else if field == "toTradeCount"@ {
            order_key(self.to_trade_count.bits)
        } else if field == "fromTradeCount"@ {
            order_key(self.from_trade_count.bits)
        } else if field == "synthMintCount"@ {
            order_key(self.synth_mint_count.bits)
        } else if field == "synthRedeemCount"@ {
            order_key(self.synth_redeem_count.bits)
        } else if field == "totalCount"@ {
            order_key(self.total_count.bits)
        } else if field == "toAssetVolume"@ {
            order_key(self.to_asset_volume.bits)
        } else if field == "toRuneVolume"@ {
            order_key(self.to_rune_volume.bits)
        } else if field == "toTradeVolume"@ {
            order_key(self.to_trade_volume.bits)
        } else if field == "fromTradeVolume"@ {
            order_key(self.from_trade_volume.bits)
        } else if field == "synthMintVolume"@ {
            order_key(self.synth_mint_volume.bits)
        } else if field == "synthRedeemVolume"@ {
            order_key(self.synth_redeem_volume.bits)
        } else if field == "totalVolume"@ {
            order_key(self.total_volume.bits)
        } else if field == "toAssetVolumeUSD"@ {
            order_key(self.to_asset_volume_usd.bits)
        } else if field == "toRuneVolumeUSD"@ {
            order_key(self.to_rune_volume_usd.bits)
        } else if field == "toTradeVolumeUSD"@ {
            order_key(self.to_trade_volume_usd.bits)
        } else if field == "fromTradeVolumeUSD"@ {
            order_key(self.from_trade_volume_usd.bits)
        } else if field == "synthMintVolumeUSD"@ {
            order_key(self.synth_mint_volume_usd.bits)
        } else if field == "synthRedeemVolumeUSD"@ {
            order_key(self.synth_redeem_volume_usd.bits)
        } else if field == "totalVolumeUSD"@ {
            order_key(self.total_volume_usd.bits)
        } else if field == "toAssetFees"@ {
            order_key(self.to_asset_fees.bits)
        } else if field == "toRuneFees"@ {
            order_key(self.to_rune_fees.bits)
        } else if field == "toTradeFees"@ {
            order_key(self.to_trade_fees.bits)
        } else if field == "fromTradeFees"@ {
            order_key(self.from_trade_fees.bits)
        } else if field == "synthMintFees"@ {
            order_key(self.synth_mint_fees.bits)
        } else if field == "synthRedeemFees"@ {
            order_key(self.synth_redeem_fees.bits)
        } else if field == "totalFees"@ {
            order_key(self.total_fees.bits)
        } else if field == "toAssetAverageSlip"@ {
            order_key(self.to_asset_average_slip.bits)
        } else if field == "toRuneAverageSlip"@ {
            order_key(self.to_rune_average_slip.bits)
        } else if field == "toTradeAverageSlip"@ {
            order_key(self.to_trade_average_slip.bits)
        } else if field == "fromTradeAverageSlip"@ {
            order_key(self.from_trade_average_slip.bits)
        } else if field == "synthMintAverageSlip"@ {
            order_key(self.synth_mint_average_slip.bits)
        } else if field == "synthRedeemAverageSlip"@ {
            order_key(self.synth_redeem_average_slip.bits)
        } else if field == "averageSlip"@ {
            order_key(self.average_slip.bits)
        } else if field == "runePriceUSD"@ {
            order_key(self.rune_price_usd.bits)
        } else {
            0
        }
    }

    fn sort_key(&self, field: &str) -> (key: u64) {
        if str_eq(field, "toAssetCount") {
            self.to_asset_count.sort_key()
        } else if str_eq(field, "toRuneCount") {
            self.to_rune_count.sort_key()
        } else if str_eq(field, "toTradeCount") {
            self.to_trade_count.sort_key()
        } else if str_eq(field, "fromTradeCount") {
            self.from_trade_count.sort_key()
        } else if str_eq(field, "synthMintCount") {
            self.synth_mint_count.sort_key()
        } else if str_eq(field, "synthRedeemCount") {
            self.synth_redeem_count.sort_key()
        } else if str_eq(field, "totalCount") {
            self.total_count.sort_key()
        } else if str_eq(field, "toAssetVolume") {
            self.to_asset_volume.sort_key()
        } else if str_eq(field, "toRuneVolume") {
            self.to_rune_volume.sort_key()
        } else if str_eq(field, "toTradeVolume") {
            self.to_trade_volume.sort_key()
        } else if str_eq(field, "fromTradeVolume") {
            self.from_trade_volume.sort_key()
        } else if str_eq(field, "synthMintVolume") {
            self.synth_mint_volume.sort_key()
        } else if str_eq(field, "synthRedeemVolume") {
            self.synth_redeem_volume.sort_key()
        } else if str_eq(field, "totalVolume") {
            self.total_volume.sort_key()
        } else if str_eq(field, "toAssetVolumeUSD") {
            self.to_asset_volume_usd.sort_key()
        } else if str_eq(field, "toRuneVolumeUSD") {
            self.to_rune_volume_usd.sort_key()
        } else if str_eq(field, "toTradeVolumeUSD") {
            self.to_trade_volume_usd.sort_key()
        } else if str_eq(field, "fromTradeVolumeUSD") {
            self.from_trade_volume_usd.sort_key()
        } else if str_eq(field, "synthMintVolumeUSD") {
            self.synth_mint_volume_usd.sort_key()
        } else if str_eq(field, "synthRedeemVolumeUSD") {
            self.synth_redeem_volume_usd.sort_key()
        } else if str_eq(field, "totalVolumeUSD") {
            self.total_volume_usd.sort_key()
        } else if str_eq(field, "toAssetFees") {
            self.to_asset_fees.sort_key()
        } else if str_eq(field, "toRuneFees") {
            self.to_rune_fees.sort_key()
        } else if str_eq(field, "toTradeFees") {
            self.to_trade_fees.sort_key()
        } else if str_eq(field, "fromTradeFees") {
            self.from_trade_fees.sort_key()
        } else if str_eq(field, "synthMintFees") {
            self.synth_mint_fees.sort_key()
        } else if str_eq(field, "synthRedeemFees") {
            self.synth_redeem_fees.sort_key()
        } else if str_eq(field, "totalFees") {
            self.total_fees.sort_key()
        } else if str_eq(field, "toAssetAverageSlip") {
            self.to_asset_average_slip.sort_key()
        } else if str_eq(field, "toRuneAverageSlip") {
            self.to_rune_average_slip.sort_key()
        } else if str_eq(field, "toTradeAverageSlip") {
            self.to_trade_average_slip.sort_key()
        } else if str_eq(field, "fromTradeAverageSlip") {
            self.from_trade_average_slip.sort_key()
        } else if str_eq(field, "synthMintAverageSlip") {
            self.synth_mint_average_slip.sort_key()
        } else if str_eq(field, "synthRedeemAverageSlip") {
            self.synth_redeem_average_slip.sort_key()
        } else if str_eq(field, "averageSlip") {
            self.average_slip.sort_key()
        } else if str_eq(field, "runePriceUSD") {
            self.rune_price_usd.sort_key()
        } else {
            0
        }
    }
}

impl RawInterval<SwapReadings> for Interval {
    open spec fn start_text(&self) -> Seq<char> {
        self.start_time@
    }

    open spec fn end_text(&self) -> Seq<char> {
        self.end_time@
    }

    open spec fn readings(&self) -> SwapReadings {
        SwapReadings {
            to_asset_count: reading_or_zero(self.to_asset_count),
            to_rune_count: reading_or_zero(self.to_rune_count),
            to_trade_count: reading_or_zero(self.to_trade_count),
            from_trade_count: reading_or_zero(self.from_trade_count),
            synth_mint_count: reading_or_zero(self.synth_mint_count),
            synth_redeem_count: reading_or_zero(self.synth_redeem_count),
            total_count: reading_or_zero(self.total_count),
            to_asset_volume: reading_or_zero(self.to_asset_volume),
            to_rune_volume: reading_or_zero(self.to_rune_volume),
            to_trade_volume: reading_or_zero(self.to_trade_volume),
            from_trade_volume: reading_or_zero(self.from_trade_volume),
            synth_mint_volume: reading_or_zero(self.synth_mint_volume),
            synth_redeem_volume: reading_or_zero(self.synth_redeem_volume),
            total_volume: reading_or_zero(self.total_volume),
            to_asset_volume_usd: reading_or_zero(self.to_asset_volume_usd),
            to_rune_volume_usd: reading_or_zero(self.to_rune_volume_usd),
            to_trade_volume_usd: reading_or_zero(self.to_trade_volume_usd),
            from_trade_volume_usd: reading_or_zero(self.from_trade_volume_usd),
            synth_mint_volume_usd: reading_or_zero(self.synth_mint_volume_usd),
            synth_redeem_volume_usd: reading_or_zero(self.synth_redeem_volume_usd),
            total_volume_usd: reading_or_zero(self.total_volume_usd),
            to_asset_fees: reading_or_zero(self.to_asset_fees),
            to_rune_fees: reading_or_zero(self.to_rune_fees),
            to_trade_fees: reading_or_zero(self.to_trade_fees),
            from_trade_fees: reading_or_zero(self.from_trade_fees),
            synth_mint_fees: reading_or_zero(self.synth_mint_fees),
            synth_redeem_fees: reading_or_zero(self.synth_redeem_fees),
            total_fees: reading_or_zero(self.total_fees),
            to_asset_average_slip: reading_or_zero(self.to_asset_average_slip),
            to_rune_average_slip: reading_or_zero(self.to_rune_average_slip),
            to_trade_average_slip: reading_or_zero(self.to_trade_average_slip),
            from_trade_average_slip: reading_or_zero(self.from_trade_average_slip),
            synth_mint_average_slip: reading_or_zero(self.synth_mint_average_slip),
            synth_redeem_average_slip: reading_or_zero(self.synth_redeem_average_slip),
            average_slip: reading_or_zero(self.average_slip),
            rune_price_usd: reading_or_zero(self.rune_price_usd),
        }
    }

    open spec fn malformed(&self) -> nat {
        missing(self.to_asset_count)
            + missing(self.to_rune_count)
            + missing(self.to_trade_count)
            + missing(self.from_trade_count)
            + missing(self.synth_mint_count)
            + missing(self.synth_redeem_count)
            + missing(self.total_count)
            + missing(self.to_asset_volume)
            + missing(self.to_rune_volume)
            + missing(self.to_trade_volume)
            + missing(self.from_trade_volume)
            + missing(self.synth_mint_volume)
            + missing(self.synth_redeem_volume)
            + missing(self.total_volume)
            + missing(self.to_asset_volume_usd)
            + missing(self.to_rune_volume_usd)
            + missing(self.to_trade_volume_usd)
            + missing(self.from_trade_volume_usd)
            + missing(self.synth_mint_volume_usd)
            + missing(self.synth_redeem_volume_usd)
            + missing(self.total_volume_usd)
            + missing(self.to_asset_fees)
            + missing(self.to_rune_fees)
            + missing(self.to_trade_fees)
            + missing(self.from_trade_fees)
            + missing(self.synth_mint_fees)
            + missing(self.synth_redeem_fees)
            + missing(self.total_fees)
            + missing(self.to_asset_average_slip)
            + missing(self.to_rune_average_slip)
            + missing(self.to_trade_average_slip)
            + missing(self.from_trade_average_slip)
            + missing(self.synth_mint_average_slip)
            + missing(self.synth_redeem_average_slip)
            + missing(self.average_slip)
            + missing(self.rune_price_usd)
    }

    fn start_time_text(&self) -> (text: &str) {
        self.start_time.as_str()
    }

    fn end_time_text(&self) -> (text: &str) {
        self.end_time.as_str()
    }

    fn to_readings(&self) -> (result: (SwapReadings, usize)) {
        let mut misses: usize = 0;
        misses = misses + count_missing(&self.to_asset_count);
        misses = misses + count_missing(&self.to_rune_count);
        misses = misses + count_missing(&self.to_trade_count);
        misses = misses + count_missing(&self.from_trade_count);
        misses = misses + count_missing(&self.synth_mint_count);
        misses = misses + count_missing(&self.synth_redeem_count);
        misses = misses + count_missing(&self.total_count);
        misses = misses + count_missing(&self.to_asset_volume);
        misses = misses + count_missing(&self.to_rune_volume);
        misses = misses + count_missing(&self.to_trade_volume);
        misses = misses + count_missing(&self.from_trade_volume);
        misses = misses + count_missing(&self.synth_mint_volume);
        misses = misses + count_missing(&self.synth_redeem_volume);
        misses = misses + count_missing(&self.total_volume);
        misses = misses + count_missing(&self.to_asset_volume_usd);
        misses = misses + count_missing(&self.to_rune_volume_usd);
        misses = misses + count_missing(&self.to_trade_volume_usd);
        misses = misses + count_missing(&self.from_trade_volume_usd);
        misses = misses + count_missing(&self.synth_mint_volume_usd);
        misses = misses + count_missing(&self.synth_redeem_volume_usd);
        misses = misses + count_missing(&self.total_volume_usd);
        misses = misses + count_missing(&self.to_asset_fees);
        misses = misses + count_missing(&self.to_rune_fees);
        misses = misses + count_missing(&self.to_trade_fees);
        misses = misses + count_missing(&self.from_trade_fees);
        misses = misses + count_missing(&self.synth_mint_fees);
        misses = misses + count_missing(&self.synth_redeem_fees);
        misses = misses + count_missing(&self.total_fees);
        misses = misses + count_missing(&self.to_asset_average_slip);
        misses = misses + count_missing(&self.to_rune_average_slip);
        misses = misses + count_missing(&self.to_trade_average_slip);
        misses = misses + count_missing(&self.from_trade_average_slip);
        misses = misses + count_missing(&self.synth_mint_average_slip);
        misses = misses + count_missing(&self.synth_redeem_average_slip);
        misses = misses + count_missing(&self.average_slip);
        misses = misses + count_missing(&self.rune_price_usd);
        (
            SwapReadings {
                to_asset_count: Reading::or_zero(self.to_asset_count),
                to_rune_count: Reading::or_zero(self.to_rune_count),
                to_trade_count: Reading::or_zero(self.to_trade_count),
                from_trade_count: Reading::or_zero(self.from_trade_count),
                synth_mint_count: Reading::or_zero(self.synth_mint_count),
                synth_redeem_count: Reading::or_zero(self.synth_redeem_count),
                total_count: Reading::or_zero(self.total_count),
                to_asset_volume: Reading::or_zero(self.to_asset_volume),
                to_rune_volume: Reading::or_zero(self.to_rune_volume),
                to_trade_volume: Reading::or_zero(self.to_trade_volume),
                from_trade_volume: Reading::or_zero(self.from_trade_volume),
                synth_mint_volume: Reading::or_zero(self.synth_mint_volume),
                synth_redeem_volume: Reading::or_zero(self.synth_redeem_volume),
                total_volume: Reading::or_zero(self.total_volume),
                to_asset_volume_usd: Reading::or_zero(self.to_asset_volume_usd),
                to_rune_volume_usd: Reading::or_zero(self.to_rune_volume_usd),
                to_trade_volume_usd: Reading::or_zero(self.to_trade_volume_usd),
                from_trade_volume_usd: Reading::or_zero(self.from_trade_volume_usd),
                synth_mint_volume_usd: Reading::or_zero(self.synth_mint_volume_usd),
                synth_redeem_volume_usd: Reading::or_zero(self.synth_redeem_volume_usd),
                total_volume_usd: Reading::or_zero(self.total_volume_usd),
                to_asset_fees: Reading::or_zero(self.to_asset_fees),
                to_rune_fees: Reading::or_zero(self.to_rune_fees),
                to_trade_fees: Reading::or_zero(self.to_trade_fees),
                from_trade_fees: Reading::or_zero(self.from_trade_fees),
                synth_mint_fees: Reading::or_zero(self.synth_mint_fees),
                synth_redeem_fees: Reading::or_zero(self.synth_redeem_fees),
                total_fees: Reading::or_zero(self.total_fees),
                to_asset_average_slip: Reading::or_zero(self.to_asset_average_slip),
                to_rune_average_slip: Reading::or_zero(self.to_rune_average_slip),
                to_trade_average_slip: Reading::or_zero(self.to_trade_average_slip),
                from_trade_average_slip: Reading::or_zero(self.from_trade_average_slip),
                synth_mint_average_slip: Reading::or_zero(self.synth_mint_average_slip),
                synth_redeem_average_slip: Reading::or_zero(self.synth_redeem_average_slip),
                average_slip: Reading::or_zero(self.average_slip),
                rune_price_usd: Reading::or_zero(self.rune_price_usd),
            },
            misses,
        )
    }
}

/// A stored swaps sample.
pub type SwapsHistory = Record<SwapReadings>;

/// One page of swaps history with its summary: the readings of the first
/// bucket on the page.
#[derive(Debug)]
pub struct SwapsHistoryPage {
    pub history: History<SwapReadings>,
    pub meta: SwapReadings,
}

/// Answers a swaps history query at clock reading `now`: the page of
/// buckets asked for, its pagination envelope, and as summary the readings
/// of the first bucket on the page. Refused parameters and an empty page
/// are errors.
pub fn get_swaps_history(records: &Vec<SwapsHistory>, query: &HistoryQueryParams, now: i64) -> (result:
    Result<SwapsHistoryPage, QueryError>)
    requires
        all_fit(selected(records@, None, *query, now as int), query_length(*query)),
    ensures
        match result {
            Ok(page) => {
                &&& answers(Ok(page.history), records@, None, *query, now as int)
                &&& page.meta == page.history.intervals@.first().payload
            },
            Err(reason) => answers(
                Err::<History<SwapReadings>, QueryError>(reason),
                records@,
                None,
                *query,
                now as int,
            ),
        },
{
    match history_at(records, None, query, now) {
        Ok(history) => {
            let meta = history.intervals[0].payload;
            Ok(SwapsHistoryPage { history, meta })
        },
        Err(reason) => Err(reason),
    }
}

} // verus!
