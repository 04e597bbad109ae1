use midgard_history::depth::{get_depth_history, DepthPriceHistory, DepthReadings};
use midgard_history::earnings::{
    get_earnings_history, pools_of, EarningsHistory, EarningsHistoryPools, EarningsReadings,
    PoolReadings,
};
use midgard_history::history::{fits_all, history_at, select, Record};
use midgard_history::queries::{HistoryQueryParams, QueryError, ValidationError};
use midgard_history::reading::{Reading, RecordId};
use midgard_history::runepool::{get_runepool_history, RunePoolReadings, RunePoolTotalMembersHistory};
use midgard_history::swaps::{get_swaps_history, SwapReadings, SwapsHistory};

fn r(value: f64) -> Reading {
    Reading::from_bits(value.to_bits())
}

fn f(reading: Reading) -> f64 {
    f64::from_bits(reading.to_bits())
}

fn blank() -> HistoryQueryParams {
    HistoryQueryParams {
        interval: None,
        count: None,
        from: None,
        to: None,
        page: None,
        limit: None,
        sort_by: None,
        order: None,
    }
}

fn hourly(count: i32) -> HistoryQueryParams {
    let mut query = blank();
    query.interval = Some("hour".to_string());
    query.count = Some(count);
    query
}

fn depth_readings(seed: f64) -> DepthReadings {
    DepthReadings {
        asset_depth: r(seed),
        asset_price: r(seed + 0.25),
        asset_price_usd: r(seed + 0.5),
        liquidity_units: r(seed + 1.0),
        luvi: r(seed / 100.0),
        members_count: r(seed + 2.0),
        rune_depth: r(seed + 3.0),
        synth_supply: r(seed + 4.0),
        synth_units: r(seed + 5.0),
        units: r(seed + 6.0),
    }
}

fn depth(id: u128, pool: &str, start_time: i64, end_time: i64, seed: f64) -> DepthPriceHistory {
    Record {
        id: RecordId::from_value(id),
        pool: Some(pool.to_string()),
        start_time,
        end_time,
        readings: depth_readings(seed),
    }
}

fn members(id: u128, start_time: i64, end_time: i64, count: f64) -> RunePoolTotalMembersHistory {
    Record {
        id: RecordId::from_value(id),
        pool: None,
        start_time,
        end_time,
        readings: RunePoolReadings { depth: None, count: r(count), units: r(count * 10.0) },
    }
}

fn earnings(id: u128, start_time: i64, end_time: i64, nodes: f64, fees: f64) -> EarningsHistory {
    Record {
        id: RecordId::from_value(id),
        pool: None,
        start_time,
        end_time,
        readings: EarningsReadings {
            block_rewards: r(1.0),
            avg_node_count: r(nodes),
            bonding_earnings: r(2.0),
            liquidity_earnings: r(3.0),
            liquidity_fees: r(fees),
            rune_price_usd: r(5.0),
        },
    }
}

fn pool_record(id: u128, pool: &str, parent: u128, rewards: f64) -> EarningsHistoryPools {
    EarningsHistoryPools {
        id: RecordId::from_value(id),
        pool: pool.to_string(),
        readings: PoolReadings {
            asset_liquidity_fees: r(0.5),
            rune_liquidity_fees: r(1.5),
            total_liquidity_fees_rune: r(2.5),
            saver_earning: r(3.5),
            rewards: r(rewards),
        },
        start_time: 0,
        end_time: 3600,
        earnings_summary_id: RecordId::from_value(parent),
    }
}

fn swap_readings(seed: f64) -> SwapReadings {
    SwapReadings {
        to_asset_count: r(seed),
        to_rune_count: r(seed),
        to_trade_count: r(seed),
        from_trade_count: r(seed),
        synth_mint_count: r(seed),
        synth_redeem_count: r(seed),
        total_count: r(seed * 6.0),
        to_asset_volume: r(seed),
        to_rune_volume: r(seed),
        to_trade_volume: r(seed),
        from_trade_volume: r(seed),
        synth_mint_volume: r(seed),
        synth_redeem_volume: r(seed),
        total_volume: r(1000.0 - seed),
        to_asset_volume_usd: r(seed),
        to_rune_volume_usd: r(seed),
        to_trade_volume_usd: r(seed),
        from_trade_volume_usd: r(seed),
        synth_mint_volume_usd: r(seed),
        synth_redeem_volume_usd: r(seed),
        total_volume_usd: r(seed),
        to_asset_fees: r(seed),
        to_rune_fees: r(seed),
        to_trade_fees: r(seed),
        from_trade_fees: r(seed),
        synth_mint_fees: r(seed),
        synth_redeem_fees: r(seed),
        total_fees: r(seed),
        to_asset_average_slip: r(seed),
        to_rune_average_slip: r(seed),
        to_trade_average_slip: r(seed),
        from_trade_average_slip: r(seed),
        synth_mint_average_slip: r(seed),
        synth_redeem_average_slip: r(seed),
        average_slip: r(-seed),
        rune_price_usd: r(seed),
    }
}

fn swaps(id: u128, start_time: i64, end_time: i64, seed: f64) -> SwapsHistory {
    Record { id: RecordId::from_value(id), pool: None, start_time, end_time, readings: swap_readings(seed) }
}

#[test]
fn three_depth_samples_fill_two_hour_buckets() {
    let records = vec![
        depth(1, "BTC.BTC", 0, 3599, 10.0),
        depth(2, "BTC.BTC", 1, 3600, 20.0),
        depth(3, "BTC.BTC", 3600, 7199, 30.0),
        depth(4, "ETH.ETH", 0, 3599, 99.0),
    ];
    let page = get_depth_history(&records, "BTC.BTC", &hourly(2), 7200).unwrap();
    let buckets = &page.history.intervals;
    assert_eq!(buckets.len(), 2);
    assert_eq!((buckets[0].start_time, buckets[0].end_time), (3600, 7200));
    assert_eq!(buckets[0].payload, depth_readings(20.0));
    assert_eq!(buckets[0].source, RecordId::from_value(2));
    assert_eq!((buckets[1].start_time, buckets[1].end_time), (7200, 10800));
    assert_eq!(buckets[1].payload, depth_readings(30.0));
    assert_eq!(page.history.pagination.total_records, 2);
    assert_eq!(page.history.pagination.total_pages, 1);
    assert_eq!(page.history.pagination.current_page, 1);
    assert_eq!(page.history.pagination.limit, 50);
    assert_eq!(page.history.pagination.sort_by, "startTime");
    assert_eq!(page.history.pagination.order, "asc");
}

#[test]
fn depth_summary_compares_the_first_and_last_bucket() {
    let records = vec![
        depth(1, "BTC.BTC", 0, 3599, 10.0),
        depth(2, "BTC.BTC", 3600, 7199, 30.0),
        depth(3, "BTC.BTC", 7200, 10799, 50.0),
    ];
    let page = get_depth_history(&records, "BTC.BTC", &hourly(3), 10800).unwrap();
    let meta = page.meta;
    assert_eq!(meta.start_time, 3600);
    assert_eq!(meta.end_time, 14400);
    assert_eq!(f(meta.start_asset_depth), 10.0);
    assert_eq!(f(meta.end_asset_depth), 50.0);
    assert_eq!(f(meta.start_rune_depth), 13.0);
    assert_eq!(f(meta.end_rune_depth), 53.0);
    assert_eq!(f(meta.start_lp_units), 16.0);
    assert_eq!(f(meta.end_lp_units), 56.0);
    assert_eq!(f(meta.start_member_count), 12.0);
    assert_eq!(f(meta.end_member_count), 52.0);
    assert_eq!(f(meta.start_synth_units), 15.0);
    assert_eq!(f(meta.end_synth_units), 55.0);
    let loss = f(meta.price_shift_loss.minuend) - f(meta.price_shift_loss.subtrahend);
    assert_eq!(loss, 10.25 - 50.25);
    let gain = f(meta.luvi_increase.minuend) - f(meta.luvi_increase.subtrahend);
    assert_eq!(gain, 0.5 - 0.1);
}

#[test]
fn default_window_covers_the_last_ten_hours() {
    let now: i64 = 72_000;
    let records: Vec<RunePoolTotalMembersHistory> =
        (0..20).map(|i| members(i as u128, 3600 * i, 3600 * (i + 1), i as f64)).collect();
    let page = get_runepool_history(&records, &hourly(10), now).unwrap();
    let buckets = &page.history.intervals;
    assert_eq!(buckets.len(), 10);
    for (k, bucket) in buckets.iter().enumerate() {
        let sample = 10 + k as i64;
        assert_eq!(bucket.start_time, 3600 * (sample + 1));
        assert_eq!(bucket.end_time - bucket.start_time, 3600);
        assert_eq!(f(bucket.payload.count), sample as f64);
    }
    assert_eq!(page.meta.start_time, 39_600);
    assert_eq!(page.meta.end_time, 75_600);
    assert_eq!(f(page.meta.start_count), 10.0);
    assert_eq!(f(page.meta.end_count), 19.0);
    assert_eq!(f(page.meta.start_units), 100.0);
    assert_eq!(f(page.meta.end_units), 190.0);
}

#[test]
fn window_defaults_to_400_intervals() {
    let now: i64 = 3600 * 1000;
    let records: Vec<RunePoolTotalMembersHistory> =
        (0..1000).map(|i| members(i as u128, 3600 * i, 3600 * (i + 1), i as f64)).collect();
    let mut query = blank();
    query.limit = Some(400);
    let page = get_runepool_history(&records, &query, now).unwrap();
    assert_eq!(page.history.pagination.total_records, 400);
    assert_eq!(f(page.history.intervals[0].payload.count), 600.0);
}

#[test]
fn far_future_window_is_not_found() {
    let records = vec![depth(1, "BTC.BTC", 0, 3599, 10.0), depth(2, "BTC.BTC", 3600, 7199, 20.0)];
    let mut query = blank();
    query.from = Some(4_000_000_000);
    assert_eq!(get_depth_history(&records, "BTC.BTC", &query, 7200).err(), Some(QueryError::NotFound));
    let empty: Vec<DepthPriceHistory> = Vec::new();
    assert_eq!(get_depth_history(&empty, "BTC.BTC", &blank(), 7200).err(), Some(QueryError::NotFound));
}

#[test]
fn unknown_pool_is_not_found() {
    let records = vec![depth(1, "BTC.BTC", 0, 3599, 10.0)];
    let mut query = blank();
    query.from = Some(0);
    assert_eq!(get_depth_history(&records, "DOGE.DOGE", &query, 7200).err(), Some(QueryError::NotFound));
}

#[test]
fn page_past_the_end_is_not_found() {
    let records: Vec<RunePoolTotalMembersHistory> =
        (0..5).map(|i| members(i as u128, 3600 * i, 3600 * (i + 1), i as f64)).collect();
    let mut query = blank();
    query.from = Some(0);
    query.limit = Some(2);
    query.page = Some(3);
    let page = get_runepool_history(&records, &query, 0).unwrap();
    assert_eq!(page.history.intervals.len(), 1);
    assert_eq!(page.history.pagination.total_pages, 3);
    assert_eq!(page.history.pagination.total_records, 5);
    assert_eq!(page.history.pagination.current_page, 3);
    query.page = Some(4);
    assert_eq!(get_runepool_history(&records, &query, 0).err(), Some(QueryError::NotFound));
    query.page = Some(i64::MAX);
    assert_eq!(get_runepool_history(&records, &query, 0).err(), Some(QueryError::NotFound));
}

#[test]
fn refused_parameters_come_before_any_data() {
    let records = vec![depth(1, "BTC.BTC", 0, 3599, 10.0)];
    let mut query = blank();
    query.interval = Some("hour".to_string());
    assert_eq!(
        get_depth_history(&records, "BTC.BTC", &query, 7200).err(),
        Some(QueryError::Invalid(ValidationError::IncompletePair))
    );
    let mut query = blank();
    query.count = Some(5);
    assert_eq!(
        get_swaps_history(&Vec::new(), &query, 7200).err(),
        Some(QueryError::Invalid(ValidationError::IncompletePair))
    );
    assert_eq!(
        get_runepool_history(&Vec::new(), &hourly(401), 7200).err(),
        Some(QueryError::Invalid(ValidationError::InvalidCount))
    );
    let mut query = blank();
    query.page = Some(0);
    assert_eq!(
        get_earnings_history(&Vec::new(), &Vec::new(), &query, 7200).err(),
        Some(QueryError::Invalid(ValidationError::InvalidPage))
    );
}

#[test]
fn to_bounds_the_end_of_samples() {
    let records: Vec<RunePoolTotalMembersHistory> =
        (0..5).map(|i| members(i as u128, 3600 * i, 3600 * (i + 1), i as f64)).collect();
    let mut query = blank();
    query.from = Some(3600);
    query.to = Some(3600 * 3);
    let page = get_runepool_history(&records, &query, 0).unwrap();
    let counts: Vec<f64> = page.history.intervals.iter().map(|b| f(b.payload.count)).collect();
    assert_eq!(counts, vec![1.0, 2.0]);
}

#[test]
fn ingesting_a_page_twice_gives_the_same_history() {
    let store = vec![depth(1, "BTC.BTC", 0, 3599, 10.0), depth(2, "BTC.BTC", 3600, 7199, 20.0)];
    let page = |base: u128| {
        vec![
            depth(base, "BTC.BTC", 3600, 7199, 21.0),
            depth(base + 1, "BTC.BTC", 7200, 10799, 30.0),
            depth(base + 2, "BTC.BTC", 10800, 14399, 40.0),
        ]
    };
    let mut once = store;
    once.extend(page(10));
    let mut twice: Vec<DepthPriceHistory> = Vec::new();
    for record in &once {
        twice.push(depth(record.id.value, "BTC.BTC", record.start_time, record.end_time, f(record.readings.asset_depth)));
    }
    twice.extend(page(20));
    let mut query = hourly(100);
    query.sort_by = Some("assetDepth".to_string());
    query.order = Some("desc".to_string());
    let a = get_depth_history(&once, "BTC.BTC", &query, 14400).unwrap();
    let b = get_depth_history(&twice, "BTC.BTC", &query, 14400).unwrap();
    assert_eq!(a.history.intervals.len(), b.history.intervals.len());
    for (x, y) in a.history.intervals.iter().zip(b.history.intervals.iter()) {
        assert_eq!((x.start_time, x.end_time, x.payload), (y.start_time, y.end_time, y.payload));
    }
    assert_eq!(a.meta, b.meta);
    assert_eq!(a.history.pagination.total_records, b.history.pagination.total_records);
    let depths: Vec<f64> = a.history.intervals.iter().map(|x| f(x.payload.asset_depth)).collect();
    assert_eq!(depths, vec![40.0, 30.0, 21.0, 10.0]);
}

#[test]
fn histories_sort_by_a_reading() {
    let records = vec![
        depth(1, "BTC.BTC", 0, 3599, 30.0),
        depth(2, "BTC.BTC", 3600, 7199, -5.0),
        depth(3, "BTC.BTC", 7200, 10799, 20.0),
        depth(4, "BTC.BTC", 10800, 14399, 0.0),
    ];
    let mut query = blank();
    query.from = Some(0);
    query.sort_by = Some("assetDepth".to_string());
    let page = get_depth_history(&records, "BTC.BTC", &query, 0).unwrap();
    let depths: Vec<f64> = page.history.intervals.iter().map(|x| f(x.payload.asset_depth)).collect();
    assert_eq!(depths, vec![-5.0, 0.0, 20.0, 30.0]);
    assert_eq!(page.history.pagination.sort_by, "assetDepth");
    query.order = Some("desc".to_string());
    let page = get_depth_history(&records, "BTC.BTC", &query, 0).unwrap();
    let depths: Vec<f64> = page.history.intervals.iter().map(|x| f(x.payload.asset_depth)).collect();
    assert_eq!(depths, vec![30.0, 20.0, 0.0, -5.0]);
    assert_eq!(page.history.pagination.order, "desc");
    query.sort_by = Some("endTime".to_string());
    let page = get_depth_history(&records, "BTC.BTC", &query, 0).unwrap();
    let order: Vec<i64> = page.history.intervals.iter().map(|x| x.start_time).collect();
    assert_eq!(order, vec![14400, 10800, 7200, 3600]);
}

#[test]
fn swaps_summary_is_the_first_bucket() {
    let records = vec![swaps(1, 0, 3600, 7.0), swaps(2, 3600, 7200, 9.0), swaps(3, 7200, 10800, 8.0)];
    let mut query = blank();
    query.from = Some(0);
    let page = get_swaps_history(&records, &query, 0).unwrap();
    assert_eq!(page.history.intervals.len(), 3);
    assert_eq!(page.meta, swap_readings(7.0));
    query.sort_by = Some("totalVolume".to_string());
    let page = get_swaps_history(&records, &query, 0).unwrap();
    assert_eq!(page.meta, swap_readings(9.0));
    query.sort_by = Some("averageSlip".to_string());
    query.order = Some("desc".to_string());
    let page = get_swaps_history(&records, &query, 0).unwrap();
    assert_eq!(page.meta, swap_readings(7.0));
    query.sort_by = Some("runePriceUSD".to_string());
    let page = get_swaps_history(&records, &query, 0).unwrap();
    assert_eq!(page.meta, swap_readings(9.0));
}

#[test]
fn earnings_page_carries_the_terms_of_its_summary() {
    let records = vec![earnings(1, 0, 3600, 100.0, 40.0), earnings(2, 3600, 7200, 110.0, 60.0)];
    let mut query = blank();
    query.from = Some(0);
    let page = get_earnings_history(&records, &Vec::new(), &query, 0).unwrap();
    assert_eq!(page.meta.buckets, 2);
    assert_eq!(page.meta.start_time, 3600);
    assert_eq!(page.meta.end_time, 10800);
    let nodes: f64 = page.intervals.iter().map(|i| f(i.bucket.payload.avg_node_count)).sum();
    let fees: f64 = page.intervals.iter().map(|i| f(i.bucket.payload.liquidity_fees)).sum();
    assert_eq!(nodes / page.meta.buckets as f64, 105.0);
    assert_eq!(fees, 100.0);
}

#[test]
fn earnings_buckets_carry_the_pools_of_their_winner() {
    let records = vec![
        earnings(1, 0, 3600, 100.0, 40.0),
        earnings(2, 10, 3590, 101.0, 41.0),
        earnings(3, 3600, 7200, 110.0, 60.0),
    ];
    let pools = vec![
        pool_record(11, "BTC.BTC", 1, 1.0),
        pool_record(12, "BTC.BTC", 2, 2.0),
        pool_record(13, "ETH.ETH", 2, 3.0),
        pool_record(14, "BTC.BTC", 3, 4.0),
        pool_record(15, "ETH.ETH", 9, 5.0),
    ];
    let mut query = blank();
    query.from = Some(0);
    let page = get_earnings_history(&records, &pools, &query, 0).unwrap();
    assert_eq!(page.intervals.len(), 3);
    let first = &page.intervals[0];
    assert_eq!(first.bucket.source, RecordId::from_value(2));
    assert_eq!(first.pools.len(), 2);
    assert_eq!(first.pools[0].pool, "BTC.BTC");
    assert_eq!(f(first.pools[0].readings.rewards), 2.0);
    assert_eq!(first.pools[1].pool, "ETH.ETH");
    assert_eq!(f(first.pools[1].readings.rewards), 3.0);
    assert_eq!(page.intervals[1].bucket.source, RecordId::from_value(1));
    assert_eq!(page.intervals[1].pools.len(), 1);
    assert_eq!(page.intervals[2].pools.len(), 1);
    assert_eq!(f(page.intervals[2].pools[0].readings.rewards), 4.0);
    assert!(pools_of(&pools, RecordId::from_value(77)).is_empty());
}

#[test]
fn select_keeps_storage_order_and_sort_keys() {
    let records = vec![members(1, 100, 200, 3.0), members(2, 50, 60, 1.0), members(3, 300, 400, 2.0)];
    let mut query = blank();
    query.from = Some(100);
    query.sort_by = Some("count".to_string());
    let entries = select(&records, None, &query, 0);
    assert_eq!(entries.len(), 2);
    assert_eq!(entries[0].source, RecordId::from_value(1));
    assert_eq!(entries[1].source, RecordId::from_value(3));
    assert!(entries[0].key > entries[1].key);
    assert!(fits_all(&records, None, &query, 0));
    let odd = vec![members(1, 100, -5, 3.0)];
    assert!(!fits_all(&odd, None, &query, 0));
    let far = vec![members(1, 100, i64::MAX - 10, 3.0)];
    assert!(!fits_all(&far, None, &query, 0));
    let page = history_at(&records, None, &query, 0).unwrap();
    assert_eq!(page.intervals.len(), 1);
    assert_eq!(page.intervals[0].source, RecordId::from_value(3));
}
