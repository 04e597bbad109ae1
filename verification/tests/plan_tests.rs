use midgard_history::earnings::{normalize_pool, Interval, Pool};
use midgard_history::history::{entry_fits, interval_length, plan_query};
use midgard_history::queries::{HistoryQueryParams, QueryError, ValidationError};
use midgard_history::reading::{Reading, RecordId};

fn blank() -> HistoryQueryParams {
    HistoryQueryParams {
        interval: None,
        count: None,
        from: None,
        to: None,
        page: None,
        limit: None,
        sort_by: None,
        order: None,
    }
}

fn r(value: f64) -> Reading {
    Reading::from_bits(value.to_bits())
}

#[test]
fn a_refused_query_has_no_plan() {
    let mut query = blank();
    query.interval = Some("hour".to_string());
    assert_eq!(
        plan_query(None, &query).err(),
        Some(QueryError::Invalid(ValidationError::IncompletePair))
    );
    let mut query = blank();
    query.page = Some(0);
    assert_eq!(
        plan_query(Some("BTC.BTC"), &query).err(),
        Some(QueryError::Invalid(ValidationError::InvalidPage))
    );
}

#[test]
fn a_plan_starts_at_from_where_given() {
    let mut query = blank();
    query.from = Some(1_700_000_000);
    query.to = Some(1_700_003_600);
    let plan = plan_query(Some("BTC.BTC"), &query).unwrap();
    assert_eq!(plan.stage.pool.as_deref(), Some("BTC.BTC"));
    assert_eq!(plan.stage.start_time_gte, 1_700_000_000);
    assert_eq!(plan.stage.end_time_lte, Some(1_700_003_600));
    assert!(plan.now > 1_700_000_000);
}

#[test]
fn a_plan_counts_its_window_back_from_its_clock_reading() {
    let mut query = blank();
    query.interval = Some("day".to_string());
    query.count = Some(7);
    let plan = plan_query(None, &query).unwrap();
    assert_eq!(plan.stage.pool, None);
    assert_eq!(plan.stage.start_time_gte, plan.now - 7 * 86400);
    assert_eq!(plan.stage.end_time_lte, None);
    let plan = plan_query(None, &blank()).unwrap();
    assert_eq!(plan.stage.start_time_gte, plan.now - 400 * 3600);
}

#[test]
fn queries_know_their_bucket_width() {
    let mut query = blank();
    assert_eq!(interval_length(&query), 3600);
    query.interval = Some("week".to_string());
    assert_eq!(interval_length(&query), 604800);
    query.interval = Some("sometimes".to_string());
    assert_eq!(interval_length(&query), 3600);
}

#[test]
fn buckets_must_fit_in_64_bits() {
    assert!(entry_fits(0, 3600));
    assert!(entry_fits(1_739_487_600, 31_536_000));
    assert!(!entry_fits(-1, 3600));
    assert!(!entry_fits(i64::MAX, 3600));
    assert!(entry_fits(i64::MAX - 1809, 3600));
    assert!(!entry_fits(i64::MAX - 1808, 3600));
    assert!(entry_fits(i64::MAX - 3601, 1));
    assert!(entry_fits(i64::MAX - 2, 1));
    assert!(!entry_fits(i64::MAX - 1, 1));
}

#[test]
fn pool_requests_carry_the_interval_and_the_parent() {
    let interval = Interval {
        start_time: " 100 ".to_string(),
        end_time: "200".to_string(),
        liquidity_fees: Some(r(1.0)),
        block_rewards: Some(r(2.0)),
        block_earnings: Some(r(3.0)),
        liquidity_earnings: Some(r(4.0)),
        avg_node_count: Some(r(5.0)),
        rune_price_usd: Some(r(6.0)),
        pools: vec![Pool {
            pool: "BNB.BNB".to_string(),
            asset_liquidity_fees: Some(r(7.0)),
            rune_liquidity_fees: None,
            total_liquidity_fees_rune: Some(r(9.0)),
            saver_earning: Some(r(10.0)),
            rewards: Some(r(11.0)),
            earnings: Some(r(12.0)),
        }],
    };
    let summary = interval.summary_request();
    assert_eq!(summary.start_time, " 100 ");
    assert_eq!(summary.bonding_earnings, Some(r(3.0)));
    assert_eq!(summary.liquidity_fees, Some(r(1.0)));
    let request = interval.pool_request(0, RecordId::from_value(77));
    assert_eq!(request.pool, "BNB.BNB");
    assert_eq!(request.start_time, " 100 ");
    assert_eq!(request.end_time, "200");
    assert_eq!(request.earnings_summary_id, RecordId::from_value(77));
    let record = normalize_pool(&request).unwrap();
    assert_eq!((record.start_time, record.end_time), (100, 200));
    assert_eq!(record.earnings_summary_id, RecordId::from_value(77));
    assert_eq!(record.readings.asset_liquidity_fees, r(7.0));
    assert_eq!(record.readings.rune_liquidity_fees, Reading::zero());
    assert_eq!(record.readings.rewards, r(11.0));
    let mut broken = interval.pool_request(0, RecordId::from_value(77));
    broken.end_time = "later".to_string();
    assert!(normalize_pool(&broken).is_err());
}
