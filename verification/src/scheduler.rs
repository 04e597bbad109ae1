//! The ingestion scheduler: the decisions of the periodic driver that runs
//! the four walkers from a shared watermark at the top of every hour.

use crate::clock::{cron_next_fire, next_fire_after, EARLIEST_TIMESTAMP, LATEST_TIMESTAMP};
use crate::walker::Family;
use vstd::prelude::*;

verus! {

/// The watermark a scheduler starts from where none was persisted.
pub const INITIAL_START_TIME: i64 = 1739487600;

/// The scheduler's state between ticks: the watermark, which is the clock
/// reading at the start of the last completed tick.
#[derive(Clone, Copy, PartialEq, Eq, Structural, Debug)]
pub struct Scheduler {
    pub watermark: i64,
}

/// One run of the four walkers.
#[derive(Clone, Copy, PartialEq, Eq, Structural, Debug)]
pub struct Tick {
    /// Clock reading when the tick began.
    pub started_at: i64,
    /// The watermark the walkers start from.
    pub cursor: i64,
}

/// One walker run that a tick launches.
#[derive(Clone, Copy, PartialEq, Eq, Structural, Debug)]
pub struct Walk {
    pub family: Family,
    pub cursor: i64,
}

/// How a tick went.
#[derive(Clone, Copy, PartialEq, Eq, Structural, Debug)]
pub struct TickReport {
    /// Number of families whose walk failed.
    pub failed: usize,
    /// The watermark after the tick.
    pub watermark: i64,
}

/// When the scheduler is next to run.
#[derive(Clone, Copy, PartialEq, Eq, Structural, Debug)]
pub enum Wake {
    /// Sleep `sleep_seconds`, then begin a tick at `time`.
    At { time: i64, sleep_seconds: u64 },
    /// The schedule has no further firing time.
    Never,
}

/// The walks of a tick: one per family, all from the tick's cursor.
pub open spec fn walks_of(tick: Tick) -> Seq<Walk> {
    seq![
        Walk { family: Family::Earnings, cursor: tick.cursor },
        Walk { family: Family::RunePool, cursor: tick.cursor },
        Walk { family: Family::Depth, cursor: tick.cursor },
        Walk { family: Family::Swaps, cursor: tick.cursor },
    ]
}

/// Number of failed walks among outcomes, where `true` is success.
pub open spec fn failures(outcomes: Seq<bool>) -> nat
    decreases outcomes.len(),
{
    if outcomes.len() == 0 {
        0
    } else {
        failures(outcomes.drop_last()) + if outcomes.last() {
            0nat
        } else {
            1nat
        }
    }
}

/// When to wake, given the clock reading and the schedule's next firing
/// time: at that time, after sleeping the seconds until then, or at once if
/// it is already past.
pub open spec fn wake_plan(now: int, next_fire: Option<i64>) -> Wake {
    match next_fire {
        Some(time) => Wake::At {
            time,
            sleep_seconds: if time > now {
                (time - now) as u64
            } else {
                0
            },
        },
        None => Wake::Never,
    }
}

/// The firing time of the hourly schedule that follows `now`, where `now`
/// is an instant the calendar can show.
pub open spec fn next_hourly_fire(now: int) -> Option<i64> {
    if EARLIEST_TIMESTAMP <= now < LATEST_TIMESTAMP {
        cron_next_fire("0 0 * * * *"@, now)
    } else {
        None
    }
}

impl Scheduler {
    /// A scheduler that resumes from a persisted watermark, or from the
    /// initial start time where none was persisted.
    pub fn resume(persisted: Option<i64>) -> (scheduler: Scheduler)
        ensures
            scheduler.watermark == match persisted {
                Some(watermark) => watermark,
                None => INITIAL_START_TIME,
            },
    {
        match persisted {
            Some(watermark) => Scheduler { watermark },
            None => Scheduler { watermark: INITIAL_START_TIME },
        }
    }

    /// Begins a tick at clock reading `now`. The watermark is read, not moved.
    pub fn begin_tick(&self, now: i64) -> (tick: Tick)
        ensures
            tick.started_at == now,
            tick.cursor == self.watermark,
    {
        Tick { started_at: now, cursor: self.watermark }
    }

    /// Completes a tick once every walk has ended. The watermark moves to
    /// the instant the tick began, whether or not every family succeeded: a
    /// family that failed walks its gap again from there on the next tick.
    pub fn complete_tick(&mut self, tick: Tick, outcomes: &Vec<bool>) -> (report: TickReport)
        ensures
            final(self).watermark == tick.started_at,
            report.watermark == tick.started_at,
            report.failed == failures(outcomes@),
    {
        let mut failed: usize = 0;
        let mut i: usize = 0;
        while i < outcomes.len()
            invariant
                i <= outcomes.len(),
                failed == failures(outcomes@.take(i as int)),
                failed <= i,
            decreases outcomes.len() - i,
        {
            proof {
                let next = outcomes@.take(i as int + 1);
                assert(next.drop_last() =~= outcomes@.take(i as int));
                assert(next.last() == outcomes@[i as int]);
            }
            if !outcomes[i] {
                failed += 1;
            }
            i += 1;
        }
        assert(outcomes@.take(i as int) =~= outcomes@);
        self.watermark = tick.started_at;
        TickReport { failed, watermark: tick.started_at }
    }
}

/// The walks a tick launches: earnings, pool membership, depth and swaps,
/// each from the tick's cursor.
pub fn plan_walks(tick: Tick) -> (walks: Vec<Walk>)
    ensures
        walks@ == walks_of(tick),
{
    let mut walks: Vec<Walk> = Vec::new();
    walks.push(Walk { family: Family::Earnings, cursor: tick.cursor });
    walks.push(Walk { family: Family::RunePool, cursor: tick.cursor });
    walks.push(Walk { family: Family::Depth, cursor: tick.cursor });
    walks.push(Walk { family: Family::Swaps, cursor: tick.cursor });
    assert(walks@ =~= walks_of(tick));
    walks
}

/// Decides when to wake, given the clock reading and the next firing time
/// of the schedule.
pub fn plan_wake(now: i64, next_fire: Option<i64>) -> (wake: Wake)
    ensures
        wake == wake_plan(now as int, next_fire),
{
    match next_fire {
        Some(time) => {
            let sleep_seconds: u64 = if time > now {
                (time as i128 - now as i128) as u64
            } else {
                0
            };
            Wake::At { time, sleep_seconds }
        },
        None => Wake::Never,
    }
}

/// Decides when the scheduler wakes next after clock reading `now`: at the
/// next top of the hour that the schedule names.
pub fn next_wake(now: i64) -> (wake: Wake)
    ensures
        wake == wake_plan(now as int, next_hourly_fire(now as int)),
{
    if EARLIEST_TIMESTAMP <= now && now < LATEST_TIMESTAMP {
        plan_wake(now, next_fire_after("0 0 * * * *", now))
    } else {
        Wake::Never
    }
}

} // verus!
