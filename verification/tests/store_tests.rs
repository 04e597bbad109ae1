use midgard_history::history::{history_at, Record};
use midgard_history::queries::{match_stage_at, HistoryQueryParams};
use midgard_history::reading::{Reading, RecordId};
use midgard_history::runepool::RunePoolReadings;
use midgard_history::store::{count, scan};

fn blank() -> HistoryQueryParams {
    HistoryQueryParams {
        interval: None,
        count: None,
        from: None,
        to: None,
        page: None,
        limit: None,
        sort_by: None,
        order: None,
    }
}

fn record(id: u128, pool: Option<&str>, start_time: i64, end_time: i64) -> Record<RunePoolReadings> {
    Record {
        id: RecordId::from_value(id),
        pool: pool.map(|p| p.to_string()),
        start_time,
        end_time,
        readings: RunePoolReadings {
            depth: None,
            count: Reading::from_bits((id as f64).to_bits()),
            units: Reading::zero(),
        },
    }
}

#[test]
fn scan_finds_the_admitted_records_in_storage_order() {
    let records = vec![
        record(0, Some("BTC.BTC"), 100, 200),
        record(1, Some("ETH.ETH"), 100, 200),
        record(2, Some("BTC.BTC"), 50, 200),
        record(3, Some("BTC.BTC"), 150, 400),
        record(4, None, 150, 160),
        record(5, Some("BTC.BTC"), 100, 300),
    ];
    let mut query = blank();
    query.from = Some(100);
    query.to = Some(300);
    let stage = match_stage_at(Some("BTC.BTC"), &query, 3600, 0);
    assert_eq!(scan(&records, &stage), vec![0, 5]);
    assert_eq!(count(&records, &stage), 2);
    let any_pool = match_stage_at(None, &query, 3600, 0);
    assert_eq!(scan(&records, &any_pool), vec![0, 1, 4, 5]);
    assert_eq!(count(&records, &any_pool), 4);
    query.from = Some(1000);
    let late = match_stage_at(None, &query, 3600, 0);
    assert!(scan(&records, &late).is_empty());
    assert_eq!(count(&records, &late), 0);
    assert_eq!(count(&Vec::<Record<RunePoolReadings>>::new(), &late), 0);
}

#[test]
fn a_query_is_answered_alike_from_the_scan_and_from_the_store() {
    let records: Vec<Record<RunePoolReadings>> =
        (0..30).map(|i| record(i as u128, None, 1800 * i, 1800 * i + 1799)).collect();
    let mut query = blank();
    query.interval = Some("hour".to_string());
    query.count = Some(5);
    query.to = Some(50_000);
    let now = 54_000;
    let stage = match_stage_at(None, &query, 3600, now);
    let found: Vec<Record<RunePoolReadings>> = scan(&records, &stage)
        .into_iter()
        .map(|i| record(records[i].id.value, None, records[i].start_time, records[i].end_time))
        .collect();
    assert!(found.len() < records.len());
    let whole = history_at(&records, None, &query, now).unwrap();
    let part = history_at(&found, None, &query, now).unwrap();
    assert_eq!(whole.intervals.len(), part.intervals.len());
    for (a, b) in whole.intervals.iter().zip(part.intervals.iter()) {
        assert_eq!((a.start_time, a.end_time, a.source, a.payload), (b.start_time, b.end_time, b.source, b.payload));
    }
    assert_eq!(whole.pagination.total_records, part.pagination.total_records);
}
