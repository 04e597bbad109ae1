use midgard_history::queries::{
    build_match_stage, effective_limit, handle_pagination_and_sorting, match_stage_at,
    validate_count, validate_history_query, validate_query_params, window_start_checked,
    HistoryQueryParams, QueryError, ValidationError,
};

fn blank() -> HistoryQueryParams {
    HistoryQueryParams {
        interval: None,
        count: None,
        from: None,
        to: None,
        page: None,
        limit: None,
        sort_by: None,
        order: None,
    }
}

#[test]
fn count_must_lie_between_1_and_400() {
    assert!(!validate_count(0));
    assert!(validate_count(1));
    assert!(validate_count(400));
    assert!(!validate_count(401));
    assert!(!validate_count(-5));
    assert!(!validate_count(i32::MAX));
}

#[test]
fn interval_without_count_is_refused() {
    let mut query = blank();
    query.interval = Some("hour".to_string());
    assert_eq!(validate_history_query(&query), Err(ValidationError::IncompletePair));
}

#[test]
fn count_without_interval_is_refused() {
    let mut query = blank();
    query.count = Some(10);
    assert_eq!(validate_history_query(&query), Err(ValidationError::IncompletePair));
}

#[test]
fn neither_interval_nor_count_is_accepted() {
    assert_eq!(validate_history_query(&blank()), Ok(()));
}

#[test]
fn interval_with_count_is_accepted() {
    let mut query = blank();
    query.interval = Some("day".to_string());
    query.count = Some(400);
    assert_eq!(validate_history_query(&query), Ok(()));
    query.interval = Some("no such interval".to_string());
    assert_eq!(validate_history_query(&query), Ok(()));
}

#[test]
fn out_of_range_count_is_refused() {
    let mut query = blank();
    query.interval = Some("day".to_string());
    query.count = Some(401);
    assert_eq!(validate_history_query(&query), Err(ValidationError::InvalidCount));
    query.count = Some(0);
    assert_eq!(validate_history_query(&query), Err(ValidationError::InvalidCount));
}

#[test]
fn pages_are_counted_from_one() {
    let mut query = blank();
    query.page = Some(0);
    assert_eq!(validate_history_query(&query), Err(ValidationError::InvalidPage));
    query.page = Some(-3);
    assert_eq!(validate_history_query(&query), Err(ValidationError::InvalidPage));
    query.page = Some(1);
    assert_eq!(validate_history_query(&query), Ok(()));
}

#[test]
fn single_parameters_are_checked_by_name_and_range() {
    let mut query = blank();
    assert_eq!(validate_query_params(&query), Ok(()));
    query.interval = Some("hour".to_string());
    assert_eq!(validate_query_params(&query), Ok(()));
    query.interval = Some("minute".to_string());
    assert_eq!(validate_query_params(&query), Err(ValidationError::InvalidInterval));
    query.count = Some(0);
    assert_eq!(validate_query_params(&query), Err(ValidationError::InvalidInterval));
    query.interval = None;
    assert_eq!(validate_query_params(&query), Err(ValidationError::InvalidCount));
    query.count = Some(400);
    assert_eq!(validate_query_params(&query), Ok(()));
}

#[test]
fn errors_carry_their_status_and_message() {
    assert_eq!(ValidationError::IncompletePair.status(), 400);
    assert_eq!(
        ValidationError::IncompletePair.message(),
        "Both interval and count must be provided together"
    );
    assert_eq!(
        ValidationError::InvalidInterval.message(),
        "Invalid interval. Must be one of: 5min, hour, day, week, month, quarter, year"
    );
    assert_eq!(ValidationError::InvalidCount.message(), "Count must be between 1 and 400");
    assert_eq!(ValidationError::InvalidPage.message(), "Page must be 1 or greater");
    assert_eq!(QueryError::Invalid(ValidationError::InvalidCount).status(), 400);
    assert_eq!(QueryError::NotFound.status(), 404);
}

#[test]
fn pagination_defaults() {
    let plan = handle_pagination_and_sorting(&blank());
    assert_eq!(plan, (1, 0, 50, "startTime".to_string(), 1));
}

#[test]
fn pagination_follows_the_query() {
    let mut query = blank();
    query.page = Some(3);
    query.limit = Some(20);
    query.sort_by = Some("assetDepth".to_string());
    query.order = Some("desc".to_string());
    assert_eq!(
        handle_pagination_and_sorting(&query),
        (3, 40, 20, "assetDepth".to_string(), -1)
    );
    query.order = Some("DESC".to_string());
    assert_eq!(handle_pagination_and_sorting(&query).4, 1);
    query.order = Some("asc".to_string());
    assert_eq!(handle_pagination_and_sorting(&query).4, 1);
}

#[test]
fn limit_is_held_to_1_through_400() {
    let mut query = blank();
    assert_eq!(effective_limit(&query), 50);
    query.limit = Some(1000);
    assert_eq!(effective_limit(&query), 400);
    query.limit = Some(400);
    assert_eq!(effective_limit(&query), 400);
    query.limit = Some(0);
    assert_eq!(effective_limit(&query), 1);
    query.limit = Some(-7);
    assert_eq!(effective_limit(&query), 1);
    query.limit = Some(1);
    assert_eq!(effective_limit(&query), 1);
    query.page = Some(2);
    query.limit = Some(1000);
    assert_eq!(handle_pagination_and_sorting(&query).1, 400);
}

#[test]
fn window_starts_at_from_where_given() {
    let mut query = blank();
    query.from = Some(1_700_000_000);
    query.to = Some(1_700_086_400);
    query.count = Some(10);
    let stage = match_stage_at(Some("BTC.BTC"), &query, 3600, 1_800_000_000);
    assert_eq!(stage.pool.as_deref(), Some("BTC.BTC"));
    assert_eq!(stage.start_time_gte, 1_700_000_000);
    assert_eq!(stage.end_time_lte, Some(1_700_086_400));
}

#[test]
fn window_is_counted_back_from_the_clock() {
    let mut query = blank();
    query.count = Some(10);
    let stage = match_stage_at(None, &query, 3600, 1_700_000_000);
    assert_eq!(stage.pool, None);
    assert_eq!(stage.start_time_gte, 1_700_000_000 - 36_000);
    assert_eq!(stage.end_time_lte, None);
    let stage = match_stage_at(None, &blank(), 86400, 1_700_000_000);
    assert_eq!(stage.start_time_gte, 1_700_000_000 - 400 * 86400);
}

#[test]
fn window_start_that_does_not_fit_is_reported() {
    let mut query = blank();
    query.count = Some(400);
    assert_eq!(window_start_checked(&query, 3600, i64::MIN + 10), None);
    assert_eq!(window_start_checked(&query, 3600, i64::MIN + 1_440_000), Some(i64::MIN));
    query.count = Some(-1);
    assert_eq!(window_start_checked(&query, 3600, i64::MAX), None);
    query.from = Some(5);
    assert_eq!(window_start_checked(&query, 3600, i64::MAX), Some(5));
}

#[test]
fn match_stage_admits_by_pool_and_times() {
    let mut query = blank();
    query.from = Some(100);
    query.to = Some(200);
    let stage = match_stage_at(Some("ETH.ETH"), &query, 3600, 0);
    assert!(stage.matches(Some("ETH.ETH"), 100, 200));
    assert!(!stage.matches(Some("ETH.ETH"), 99, 200));
    assert!(!stage.matches(Some("ETH.ETH"), 100, 201));
    assert!(!stage.matches(Some("BTC.BTC"), 100, 200));
    assert!(!stage.matches(None, 100, 200));
    let open = match_stage_at(None, &query, 3600, 0);
    assert!(open.matches(Some("BTC.BTC"), 150, 160));
    assert!(open.matches(None, 150, 160));
    assert!(open.matches_times(100, 100));
}

#[test]
fn build_match_stage_reads_the_clock_only_without_from() {
    let mut query = blank();
    query.from = Some(42);
    let stage = build_match_stage(Some("BTC.BTC"), &query, 3600).unwrap();
    assert_eq!(stage.start_time_gte, 42);
    assert_eq!(stage.pool.as_deref(), Some("BTC.BTC"));
    query.from = None;
    query.count = Some(1);
    let stage = build_match_stage(None, &query, 3600).unwrap();
    assert!(stage.start_time_gte > 1_700_000_000);
}
