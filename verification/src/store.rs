//! The record store as the library sees it: an append-only run of records
//! that is scanned and counted under a filter. Where the records live is
//! the caller's business; the library reads them in storage order.

use crate::history::{plans, selected, text_of, window_admits, QueryPlan, Readings, Record};
use crate::queries::{HistoryQueryParams, MatchStage};
use vstd::prelude::*;

verus! {

/// Whether the filter admits the record.
pub open spec fn passes<P>(stage: MatchStage, record: Record<P>) -> bool {
    stage.admits(text_of(record.pool), record.start_time as int, record.end_time as int)
}

/// Positions of the records that the filter admits, ascending.
pub open spec fn matching<P>(records: Seq<Record<P>>, stage: MatchStage) -> Seq<usize>
    decreases records.len(),
{
    if records.len() == 0 {
        Seq::empty()
    } else if passes(stage, records.last()) {
        matching(records.drop_last(), stage).push((records.len() - 1) as usize)
    } else {
        matching(records.drop_last(), stage)
    }
}

/// The records that the filter admits, in storage order.
pub open spec fn scanned<P>(records: Seq<Record<P>>, stage: MatchStage) -> Seq<Record<P>>
    decreases records.len(),
{
    if records.len() == 0 {
        Seq::empty()
    } else if passes(stage, records.last()) {
        scanned(records.drop_last(), stage).push(records.last())
    } else {
        scanned(records.drop_last(), stage)
    }
}

fn admits<P>(stage: &MatchStage, record: &Record<P>) -> (ok: bool)
    ensures
        ok == passes(*stage, *record),
{
    let pool: Option<&str> = match &record.pool {
        Some(name) => Some(name.as_str()),
        None => None,
    };
    stage.matches(pool, record.start_time, record.end_time)
}

/// Scans the store: the positions of the records that the filter admits,
/// in storage order.
pub fn scan<P>(records: &Vec<Record<P>>, stage: &MatchStage) -> (positions: Vec<usize>)
    ensures
        positions@ == matching(records@, *stage),
        positions@.len() == scanned(records@, *stage).len(),
        forall|k: int|
            0 <= k < positions@.len() ==> (#[trigger] positions@[k]) < records@.len()
                && scanned(records@, *stage)[k] == records@[positions@[k] as int],
{
    let mut out: Vec<usize> = Vec::new();
    let mut i: usize = 0;
    while i < records.len()
        invariant
            i <= records.len(),
            out@ == matching(records@.take(i as int), *stage),
            out@.len() == scanned(records@.take(i as int), *stage).len(),
            forall|k: int|
                0 <= k < out@.len() ==> (#[trigger] out@[k]) < i && scanned(
                    records@.take(i as int),
                    *stage,
                )[k] == records@[out@[k] as int],
        decreases records.len() - i,
    {
        proof {
            let next = records@.take(i as int + 1);
            assert(next.drop_last() =~= records@.take(i as int));
            assert(next.last() == records@[i as int]);
        }
        if admits(stage, &records[i]) {
            out.push(i);
        }
        i += 1;
    }
    assert(records@.take(i as int) =~= records@);
    out
}

/// Counts the records that the filter admits.
pub fn count<P>(records: &Vec<Record<P>>, stage: &MatchStage) -> (total: usize)
    ensures
        total == scanned(records@, *stage).len(),
{
    let mut total: usize = 0;
    let mut i: usize = 0;
    while i < records.len()
        invariant
            i <= records.len(),
            total == scanned(records@.take(i as int), *stage).len(),
            total <= i,
        decreases records.len() - i,
    {
        proof {
            let next = records@.take(i as int + 1);
            assert(next.drop_last() =~= records@.take(i as int));
            assert(next.last() == records@[i as int]);
        }
        if admits(stage, &records[i]) {
            total += 1;
        }
        i += 1;
    }
    assert(records@.take(i as int) =~= records@);
    total
}

/// The filter of a plan admits exactly the records that the window of its
/// query admits at the plan's clock reading.
pub proof fn lemma_plan_filters_the_window<P>(
    plan: QueryPlan,
    pool: Option<Seq<char>>,
    query: HistoryQueryParams,
    record: Record<P>,
)
    requires
        plans(plan, pool, query),
    ensures
        passes(plan.stage, record) == window_admits(pool, query, plan.now as int, record),
{
    if plan.stage.pool.is_some() {
        assert(text_of(plan.stage.pool) == Some(plan.stage.pool->0@));
    }
}

/// A query may be answered from what a scan under its plan's filter found:
/// the scan leaves out no sample that the query draws on, and keeps the
/// samples in storage order.
pub proof fn lemma_scan_keeps_the_window<P: Readings>(
    records: Seq<Record<P>>,
    plan: QueryPlan,
    pool: Option<Seq<char>>,
    query: HistoryQueryParams,
)
    requires
        plans(plan, pool, query),
    ensures
        selected(scanned(records, plan.stage), pool, query, plan.now as int) == selected(
            records,
            pool,
            query,
            plan.now as int,
        ),
    decreases records.len(),
{
    if records.len() > 0 {
        let rest = records.drop_last();
        let last = records.last();
        lemma_scan_keeps_the_window(rest, plan, pool, query);
        lemma_plan_filters_the_window(plan, pool, query, last);
        if passes(plan.stage, last) {
            let found = scanned(records, plan.stage);
            assert(found.drop_last() =~= scanned(rest, plan.stage));
            assert(found.last() == last);
        }
    }
}

} // verus!
