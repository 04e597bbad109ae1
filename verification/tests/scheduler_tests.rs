use midgard_history::clock::{format_timestamp, EARLIEST_TIMESTAMP, LATEST_TIMESTAMP};
use midgard_history::scheduler::{
    next_wake, plan_wake, plan_walks, Scheduler, Tick, Wake, Walk, INITIAL_START_TIME,
};
use midgard_history::walker::Family;

#[test]
fn a_scheduler_resumes_from_the_persisted_watermark() {
    assert_eq!(Scheduler::resume(Some(1_700_000_000)).watermark, 1_700_000_000);
    assert_eq!(Scheduler::resume(None).watermark, INITIAL_START_TIME);
    assert_eq!(INITIAL_START_TIME, 1_739_487_600);
}

#[test]
fn a_tick_launches_one_walk_per_family_from_the_watermark() {
    let scheduler = Scheduler::resume(Some(1_700_000_000));
    let tick = scheduler.begin_tick(1_700_003_600);
    assert_eq!(tick, Tick { started_at: 1_700_003_600, cursor: 1_700_000_000 });
    assert_eq!(scheduler.watermark, 1_700_000_000);
    assert_eq!(
        plan_walks(tick),
        vec![
            Walk { family: Family::Earnings, cursor: 1_700_000_000 },
            Walk { family: Family::RunePool, cursor: 1_700_000_000 },
            Walk { family: Family::Depth, cursor: 1_700_000_000 },
            Walk { family: Family::Swaps, cursor: 1_700_000_000 },
        ]
    );
}

#[test]
fn the_watermark_moves_to_the_start_of_a_completed_tick() {
    let mut scheduler = Scheduler::resume(Some(1_700_000_000));
    let tick = scheduler.begin_tick(1_700_003_600);
    let report = scheduler.complete_tick(tick, &vec![true, true, true, true]);
    assert_eq!(report.failed, 0);
    assert_eq!(report.watermark, 1_700_003_600);
    assert_eq!(scheduler.watermark, 1_700_003_600);
    let next = scheduler.begin_tick(1_700_007_200);
    assert_eq!(next.cursor, 1_700_003_600);
}

#[test]
fn a_failed_family_does_not_hold_the_watermark_back() {
    let mut scheduler = Scheduler::resume(None);
    let tick = scheduler.begin_tick(1_800_000_000);
    let report = scheduler.complete_tick(tick, &vec![true, false, true, false]);
    assert_eq!(report.failed, 2);
    assert_eq!(scheduler.watermark, 1_800_000_000);
}

#[test]
fn waking_waits_until_the_firing_time() {
    assert_eq!(plan_wake(100, Some(3600)), Wake::At { time: 3600, sleep_seconds: 3500 });
    assert_eq!(plan_wake(3600, Some(3600)), Wake::At { time: 3600, sleep_seconds: 0 });
    assert_eq!(plan_wake(4000, Some(3600)), Wake::At { time: 3600, sleep_seconds: 0 });
    assert_eq!(plan_wake(4000, None), Wake::Never);
    assert_eq!(
        plan_wake(i64::MIN, Some(i64::MAX)),
        Wake::At { time: i64::MAX, sleep_seconds: u64::MAX }
    );
}

#[test]
fn the_schedule_fires_at_the_top_of_every_hour() {
    assert_eq!(
        next_wake(1_739_487_600),
        Wake::At { time: 1_739_491_200, sleep_seconds: 3600 }
    );
    assert_eq!(
        next_wake(1_739_487_601),
        Wake::At { time: 1_739_491_200, sleep_seconds: 3599 }
    );
    assert_eq!(
        next_wake(1_739_491_199),
        Wake::At { time: 1_739_491_200, sleep_seconds: 1 }
    );
    assert_eq!(next_wake(LATEST_TIMESTAMP), Wake::Never);
    assert_eq!(next_wake(i64::MAX), Wake::Never);
    assert_eq!(next_wake(i64::MIN), Wake::Never);
}

#[test]
fn timestamps_are_shown_in_utc() {
    assert_eq!(format_timestamp(0), "1970-01-01 00:00:00 UTC");
    assert_eq!(format_timestamp(1_431_648_000), "2015-05-15 00:00:00 UTC");
    assert_eq!(format_timestamp(1_739_487_600), "2025-02-13 23:00:00 UTC");
    assert_eq!(format_timestamp(-1), "1969-12-31 23:59:59 UTC");
}

#[test]
fn the_calendar_reaches_from_its_first_to_its_last_second() {
    assert_eq!(format_timestamp(EARLIEST_TIMESTAMP), "-262143-01-01 00:00:00 UTC");
    assert_eq!(format_timestamp(LATEST_TIMESTAMP), "+262142-12-31 23:59:59 UTC");
    assert_eq!(EARLIEST_TIMESTAMP, chrono::DateTime::<chrono::Utc>::MIN_UTC.timestamp());
    assert_eq!(LATEST_TIMESTAMP, chrono::DateTime::<chrono::Utc>::MAX_UTC.timestamp());
}
