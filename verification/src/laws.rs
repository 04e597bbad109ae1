//! Laws of the bucketing engine: what grouping, ordering and paging
//! guarantee for every input.

use crate::engine::{
    all_fit, arranged, bucket_of, grouped, insert_by_key, lemma_page_count, page_count, page_of,
    pages_through, sorted_by_key, upsert, Bucket, Entry,
};
use crate::history::{
    entry_of, full_history, history_page, query_length, selected, text_of, window_admits, Readings,
    Record,
};
use crate::queries::{page_limit, page_skip, sort_field, sorts_descending, HistoryQueryParams};
use crate::reading::RecordId;
use crate::interval::{bucket_fits, bucket_start};
use vstd::prelude::*;

verus! {

/// Whether buckets stand strictly ascending by start.
pub open spec fn ascending<P>(slots: Seq<Bucket<P>>) -> bool {
    forall|i: int, j: int|
        0 <= i < j < slots.len() ==> (#[trigger] slots[i]).start_time < (#[trigger] slots[j]).start_time
}

/// The last of `slots` that starts at `start`, if any does.
pub open spec fn slot_at<P>(slots: Seq<Bucket<P>>, start: int) -> Option<Bucket<P>>
    decreases slots.len(),
{
    if slots.len() == 0 {
        None
    } else if slots.last().start_time == start {
        Some(slots.last())
    } else {
        slot_at(slots.drop_last(), start)
    }
}

/// The bucket filled by the last of `entries` whose bucket starts at
/// `start`, if there is such an entry.
pub open spec fn last_in_bucket<P>(entries: Seq<Entry<P>>, length: int, start: int) -> Option<
    Bucket<P>,
>
    decreases entries.len(),
{
    if entries.len() == 0 {
        None
    } else if bucket_start(entries.last().end_time as int, length) == start {
        Some(bucket_of(entries.last(), length))
    } else {
        last_in_bucket(entries.drop_last(), length, start)
    }
}

/// Whether two entries are the same sample but for the identity the store
/// gave them.
pub open spec fn same_sample<P>(a: Entry<P>, b: Entry<P>) -> bool {
    a.end_time == b.end_time && a.key == b.key && a.payload == b.payload
}

/// Whether two buckets agree in all but the identity of the winning record.
pub open spec fn same_bucket<P>(a: Bucket<P>, b: Bucket<P>) -> bool {
    a.start_time == b.start_time && a.end_time == b.end_time && a.key == b.key && a.payload
        == b.payload
}

/// Whether two histories agree bucket by bucket in all but identities.
pub open spec fn same_history<P>(a: Seq<Bucket<P>>, b: Seq<Bucket<P>>) -> bool {
    a.len() == b.len() && forall|i: int| 0 <= i < a.len() ==> same_bucket(#[trigger] a[i], b[i])
}

/// An entry with its identity blanked.
pub open spec fn anonymous<P>(entry: Entry<P>) -> Entry<P> {
    Entry {
        end_time: entry.end_time,
        key: entry.key,
        source: RecordId { value: 0 },
        payload: entry.payload,
    }
}

/// A bucket with its identity blanked.
pub open spec fn anonymous_bucket<P>(bucket: Bucket<P>) -> Bucket<P> {
    Bucket {
        start_time: bucket.start_time,
        end_time: bucket.end_time,
        key: bucket.key,
        source: RecordId { value: 0 },
        payload: bucket.payload,
    }
}

proof fn lemma_slot_at_absent<P>(slots: Seq<Bucket<P>>, start: int)
    requires
        forall|k: int| 0 <= k < slots.len() ==> (#[trigger] slots[k]).start_time != start,
    ensures
        slot_at(slots, start).is_none(),
    decreases slots.len(),
{
    if slots.len() > 0 {
        let rest = slots.drop_last();
        assert(slots[slots.len() - 1].start_time != start);
        assert forall|k: int| 0 <= k < rest.len() implies (#[trigger] rest[k]).start_time
            != start by {
            assert(rest[k] == slots[k]);
        }
        lemma_slot_at_absent(rest, start);
    }
}

proof fn lemma_slot_at_present<P>(slots: Seq<Bucket<P>>, start: int)
    requires
        slot_at(slots, start).is_some(),
    ensures
        slot_at(slots, start)->0.start_time == start,
        exists|k: int| 0 <= k < slots.len() && #[trigger] slots[k] == slot_at(slots, start)->0,
    decreases slots.len(),
{
    if slots.last().start_time == start {
        assert(slots[slots.len() - 1] == slot_at(slots, start)->0);
    } else {
        let rest = slots.drop_last();
        lemma_slot_at_present(rest, start);
        let k = choose|k: int| 0 <= k < rest.len() && #[trigger] rest[k] == slot_at(rest, start)->0;
        assert(slots[k] == rest[k]);
    }
}

proof fn lemma_slot_at_member<P>(slots: Seq<Bucket<P>>, k: int)
    requires
        ascending(slots),
        0 <= k < slots.len(),
    ensures
        slot_at(slots, slots[k].start_time as int) == Some(slots[k]),
    decreases slots.len(),
{
    if k < slots.len() - 1 {
        let rest = slots.drop_last();
        assert(slots[k].start_time < slots[slots.len() - 1].start_time);
        assert forall|i: int, j: int| 0 <= i < j < rest.len() implies (#[trigger] rest[i]).start_time
            < (#[trigger] rest[j]).start_time by {
            assert(rest[i] == slots[i] && rest[j] == slots[j]);
        }
        assert(rest[k] == slots[k]);
        lemma_slot_at_member(rest, k);
    }
}

/// Putting a bucket into ascending slots keeps them ascending, makes the
/// bucket the slot at its start, and leaves every other slot as it was.
pub proof fn lemma_upsert_slots<P>(slots: Seq<Bucket<P>>, bucket: Bucket<P>)
    requires
        ascending(slots),
    ensures
        ascending(upsert(slots, bucket)),
        forall|start: int| #[trigger]
            slot_at(upsert(slots, bucket), start) == if start == bucket.start_time {
                Some(bucket)
            } else {
                slot_at(slots, start)
            },
        forall|k: int|
            0 <= k < upsert(slots, bucket).len() ==> (#[trigger] upsert(slots, bucket)[k]) == bucket
                || exists|m: int| 0 <= m < slots.len() && #[trigger] slots[m] == upsert(slots, bucket)[k],
    decreases slots.len(),
{
    let out = upsert(slots, bucket);
    if slots.len() == 0 || slots.last().start_time < bucket.start_time {
        assert(out.drop_last() =~= slots);
        assert forall|start: int| #[trigger]
            slot_at(out, start) == if start == bucket.start_time {
                Some(bucket)
            } else {
                slot_at(slots, start)
            } by {
            assert(out.last() == bucket);
        }
        assert forall|i: int, j: int| 0 <= i < j < out.len() implies (#[trigger] out[i]).start_time
            < (#[trigger] out[j]).start_time by {
            if j == out.len() - 1 {
                assert(out[i] == slots[i]);
                assert(slots[i].start_time <= slots[slots.len() - 1].start_time) by {
                    if i < slots.len() - 1 {
                        assert(slots[i].start_time < slots[slots.len() - 1].start_time);
                    }
                }
            } else {
                assert(out[i] == slots[i] && out[j] == slots[j]);
            }
        }
        assert forall|k: int| 0 <= k < out.len() implies (#[trigger] out[k]) == bucket
            || exists|m: int| 0 <= m < slots.len() && #[trigger] slots[m] == out[k] by {
            if k < slots.len() {
                assert(slots[k] == out[k]);
            }
        }
    } else if slots.last().start_time == bucket.start_time {
        let rest = slots.drop_last();
        assert(out.drop_last() =~= rest);
        assert forall|start: int| #[trigger]
            slot_at(out, start) == if start == bucket.start_time {
                Some(bucket)
            } else {
                slot_at(slots, start)
            } by {
            assert(out.last() == bucket);
        }
        assert forall|i: int, j: int| 0 <= i < j < out.len() implies (#[trigger] out[i]).start_time
            < (#[trigger] out[j]).start_time by {
            assert(out[i] == slots[i]);
            assert(out[j].start_time == slots[j].start_time);
        }
        assert forall|k: int| 0 <= k < out.len() implies (#[trigger] out[k]) == bucket
            || exists|m: int| 0 <= m < slots.len() && #[trigger] slots[m] == out[k] by {
            if k < rest.len() {
                assert(slots[k] == out[k]);
            }
        }
    } else {
        let rest = slots.drop_last();
        let last = slots.last();
        assert forall|i: int, j: int| 0 <= i < j < rest.len() implies (#[trigger] rest[i]).start_time
            < (#[trigger] rest[j]).start_time by {
            assert(rest[i] == slots[i] && rest[j] == slots[j]);
        }
        lemma_upsert_slots(rest, bucket);
        let inner = upsert(rest, bucket);
        assert(out.drop_last() =~= inner);
        assert forall|start: int| #[trigger]
            slot_at(out, start) == if start == bucket.start_time {
                Some(bucket)
            } else {
                slot_at(slots, start)
            } by {
            assert(out.last() == last);
            assert(slot_at(inner, start) == if start == bucket.start_time {
                Some(bucket)
            } else {
                slot_at(rest, start)
            });
        }
        assert forall|k: int| 0 <= k < inner.len() implies (#[trigger] inner[k]).start_time
            < last.start_time by {
            if inner[k] != bucket {
                let m = choose|m: int| 0 <= m < rest.len() && #[trigger] rest[m] == inner[k];
                assert(rest[m] == slots[m]);
                assert(slots[m].start_time < slots[slots.len() - 1].start_time);
            }
        }
        assert forall|i: int, j: int| 0 <= i < j < out.len() implies (#[trigger] out[i]).start_time
            < (#[trigger] out[j]).start_time by {
            assert(out[i] == inner[i]);
            if j < inner.len() {
                assert(out[j] == inner[j]);
            }
        }
        assert forall|k: int| 0 <= k < out.len() implies (#[trigger] out[k]) == bucket
            || exists|m: int| 0 <= m < slots.len() && #[trigger] slots[m] == out[k] by {
            if k < inner.len() {
                assert(out[k] == inner[k]);
                if inner[k] != bucket {
                    let m = choose|m: int| 0 <= m < rest.len() && #[trigger] rest[m] == inner[k];
                    assert(slots[m] == rest[m]);
                }
            } else {
                assert(slots[slots.len() - 1] == out[k]);
            }
        }
    }
}

proof fn lemma_bucket_of_start<P>(entry: Entry<P>, length: int)
    requires
        0 < length,
        bucket_fits(entry.end_time as int, length),
    ensures
        bucket_of(entry, length).start_time == bucket_start(entry.end_time as int, length),
        bucket_of(entry, length).end_time == bucket_start(entry.end_time as int, length) + length,
        0 <= bucket_start(entry.end_time as int, length),
{
    crate::interval::lemma_bucket_alignment(entry.end_time as int, length);
    vstd::arithmetic::div_mod::lemma_mod_decreases((entry.end_time + 1) as nat, length as nat);
}

proof fn lemma_all_fit_prefix<P>(entries: Seq<Entry<P>>, length: int)
    requires
        all_fit(entries, length),
        entries.len() > 0,
    ensures
        all_fit(entries.drop_last(), length),
        bucket_fits(entries.last().end_time as int, length),
{
    let rest = entries.drop_last();
    assert forall|i: int| 0 <= i < rest.len() implies bucket_fits(
        #[trigger] rest[i].end_time as int,
        length,
    ) by {
        assert(rest[i] == entries[i]);
        assert(bucket_fits(entries[i].end_time as int, length));
    }
    assert(bucket_fits(entries[entries.len() - 1].end_time as int, length));
}

/// Last value wins: the grouped buckets stand strictly ascending by start,
/// there is a bucket for a start exactly when some sample falls into it, and
/// that bucket is the one filled by the last such sample in storage order.
pub proof fn lemma_grouped_last_wins<P>(entries: Seq<Entry<P>>, length: int)
    requires
        0 < length,
        all_fit(entries, length),
    ensures
        ascending(grouped(entries, length)),
        forall|start: int| #[trigger]
            slot_at(grouped(entries, length), start) == last_in_bucket(entries, length, start),
    decreases entries.len(),
{
    if entries.len() > 0 {
        lemma_all_fit_prefix(entries, length);
        lemma_grouped_last_wins(entries.drop_last(), length);
        lemma_upsert_slots(grouped(entries.drop_last(), length), bucket_of(entries.last(), length));
        lemma_bucket_of_start(entries.last(), length);
    }
}

/// Ascending runs of buckets that hold the same slot at every start are the
/// same run.
pub proof fn lemma_slots_determine_run<P>(a: Seq<Bucket<P>>, b: Seq<Bucket<P>>)
    requires
        ascending(a),
        ascending(b),
        forall|start: int| #[trigger] slot_at(a, start) == slot_at(b, start),
    ensures
        a == b,
    decreases a.len(),
{
    if a.len() == 0 {
        if b.len() > 0 {
            lemma_slot_at_member(b, b.len() - 1);
            assert(slot_at(a, b[b.len() - 1].start_time as int).is_none());
        }
        assert(a =~= b);
    } else {
        let x = a[a.len() - 1];
        lemma_slot_at_member(a, a.len() - 1);
        assert(slot_at(b, x.start_time as int) == Some(x));
        lemma_slot_at_present(b, x.start_time as int);
        let kb = choose|k: int| 0 <= k < b.len() && #[trigger] b[k] == x;
        let y = b[b.len() - 1];
        lemma_slot_at_member(b, b.len() - 1);
        assert(slot_at(a, y.start_time as int) == Some(y));
        lemma_slot_at_present(a, y.start_time as int);
        let ka = choose|k: int| 0 <= k < a.len() && #[trigger] a[k] == y;
        assert(y.start_time <= x.start_time) by {
            if ka < a.len() - 1 {
                assert(a[ka].start_time < a[a.len() - 1].start_time);
            }
        }
        assert(x.start_time <= y.start_time) by {
            if kb < b.len() - 1 {
                assert(b[kb].start_time < b[b.len() - 1].start_time);
            }
        }
        assert(x == y);
        let ra = a.drop_last();
        let rb = b.drop_last();
        assert forall|i: int, j: int| 0 <= i < j < ra.len() implies (#[trigger] ra[i]).start_time
            < (#[trigger] ra[j]).start_time by {
            assert(ra[i] == a[i] && ra[j] == a[j]);
        }
        assert forall|i: int, j: int| 0 <= i < j < rb.len() implies (#[trigger] rb[i]).start_time
            < (#[trigger] rb[j]).start_time by {
            assert(rb[i] == b[i] && rb[j] == b[j]);
        }
        assert forall|start: int| #[trigger] slot_at(ra, start) == slot_at(rb, start) by {
            if start == x.start_time {
                assert forall|k: int| 0 <= k < ra.len() implies (#[trigger] ra[k]).start_time
                    != start by {
                    assert(ra[k] == a[k]);
                    assert(a[k].start_time < a[a.len() - 1].start_time);
                }
                assert forall|k: int| 0 <= k < rb.len() implies (#[trigger] rb[k]).start_time
                    != start by {
                    assert(rb[k] == b[k]);
                    assert(b[k].start_time < b[b.len() - 1].start_time);
                }
                lemma_slot_at_absent(ra, start);
                lemma_slot_at_absent(rb, start);
            } else {
                assert(slot_at(a, start) == slot_at(b, start));
            }
        }
        lemma_slots_determine_run(ra, rb);
        assert(a =~= ra.push(x));
        assert(b =~= rb.push(y));
    }
}

proof fn lemma_last_in_bucket_concat<P>(u: Seq<Entry<P>>, v: Seq<Entry<P>>, length: int, start: int)
    ensures
        last_in_bucket(u + v, length, start) == match last_in_bucket(v, length, start) {
            Some(bucket) => Some(bucket),
            None => last_in_bucket(u, length, start),
        },
    decreases v.len(),
{
    if v.len() == 0 {
        assert(u + v =~= u);
    } else {
        assert((u + v).drop_last() =~= u + v.drop_last());
        assert((u + v).last() == v.last());
        lemma_last_in_bucket_concat(u, v.drop_last(), length, start);
    }
}

proof fn lemma_all_fit_concat<P>(u: Seq<Entry<P>>, v: Seq<Entry<P>>, length: int)
    requires
        all_fit(u, length),
        all_fit(v, length),
    ensures
        all_fit(u + v, length),
{
    assert forall|i: int| 0 <= i < (u + v).len() implies bucket_fits(
        #[trigger] (u + v)[i].end_time as int,
        length,
    ) by {
        if i < u.len() {
            assert((u + v)[i] == u[i]);
            assert(bucket_fits(u[i].end_time as int, length));
        } else {
            assert((u + v)[i] == v[i - u.len()]);
            assert(bucket_fits(v[i - u.len()].end_time as int, length));
        }
    }
}

/// Storing a page of samples a second time changes no bucket: the groups of
/// the store with the page appended twice are those of the store with the
/// page appended once.
pub proof fn lemma_regrouping_absorbs_repeats<P>(store: Seq<Entry<P>>, page: Seq<Entry<P>>, length: int)
    requires
        0 < length,
        all_fit(store, length),
        all_fit(page, length),
    ensures
        grouped(store + page + page, length) == grouped(store + page, length),
        forall|descending: bool| #[trigger]
            arranged(store + page + page, length, descending) == arranged(
                store + page,
                length,
                descending,
            ),
{
    let once = store + page;
    let twice = store + page + page;
    lemma_all_fit_concat(store, page, length);
    lemma_all_fit_concat(once, page, length);
    lemma_grouped_last_wins(once, length);
    lemma_grouped_last_wins(twice, length);
    assert forall|start: int| #[trigger]
        slot_at(grouped(twice, length), start) == slot_at(grouped(once, length), start) by {
        lemma_last_in_bucket_concat(once, page, length, start);
        lemma_last_in_bucket_concat(store, page, length, start);
    }
    lemma_slots_determine_run(grouped(twice, length), grouped(once, length));
}

/// Whether buckets stand in the order of a history: by key, and by start
/// among buckets of one key, both ascending and without repeats.
pub open spec fn ordered<P>(buckets: Seq<Bucket<P>>) -> bool {
    forall|i: int, j: int|
        0 <= i < j < buckets.len() ==> (#[trigger] buckets[i]).key < (#[trigger] buckets[j]).key || (
        buckets[i].key == buckets[j].key && buckets[i].start_time < buckets[j].start_time)
}

/// Whether every bucket starts before `bound`.
pub open spec fn starts_before<P>(buckets: Seq<Bucket<P>>, bound: int) -> bool {
    forall|k: int| 0 <= k < buckets.len() ==> (#[trigger] buckets[k]).start_time < bound
}

proof fn lemma_insert_ordered<P>(sorted: Seq<Bucket<P>>, bucket: Bucket<P>, bound: int)
    requires
        ordered(sorted),
        starts_before(sorted, bucket.start_time as int),
        bucket.start_time < bound,
    ensures
        ordered(insert_by_key(sorted, bucket)),
        starts_before(insert_by_key(sorted, bucket), bound),
        insert_by_key(sorted, bucket).to_multiset() == sorted.to_multiset().insert(bucket),
        insert_by_key(sorted, bucket).len() == sorted.len() + 1,
        forall|k: int|
            0 <= k < insert_by_key(sorted, bucket).len() ==> (#[trigger] insert_by_key(
                sorted,
                bucket,
            )[k]).key <= bucket.key || exists|m: int|
                0 <= m < sorted.len() && #[trigger] sorted[m] == insert_by_key(sorted, bucket)[k],
    decreases sorted.len(),
{
    broadcast use vstd::seq_lib::to_multiset_build;

    let out = insert_by_key(sorted, bucket);
    if sorted.len() == 0 || sorted.last().key <= bucket.key {
        assert forall|i: int, j: int| 0 <= i < j < out.len() implies (#[trigger] out[i]).key < (
        #[trigger] out[j]).key || (out[i].key == out[j].key && out[i].start_time
            < out[j].start_time) by {
            assert(out[i] == sorted[i]);
            if j < sorted.len() {
                assert(out[j] == sorted[j]);
            } else {
                if i < sorted.len() - 1 {
                    assert(sorted[i].key <= sorted[sorted.len() - 1].key);
                }
            }
        }
        assert forall|k: int| 0 <= k < out.len() implies (#[trigger] out[k]).start_time
            < bound by {
            if k < sorted.len() {
                assert(out[k] == sorted[k]);
            }
        }
        assert forall|k: int| 0 <= k < out.len() implies (#[trigger] out[k]).key <= bucket.key
            || exists|m: int| 0 <= m < sorted.len() && #[trigger] sorted[m] == out[k] by {
            if k < sorted.len() {
                assert(sorted[k] == out[k]);
            }
        }
    } else {
        let rest = sorted.drop_last();
        let last = sorted.last();
        assert forall|i: int, j: int| 0 <= i < j < rest.len() implies (#[trigger] rest[i]).key < (
        #[trigger] rest[j]).key || (rest[i].key == rest[j].key && rest[i].start_time
            < rest[j].start_time) by {
            assert(rest[i] == sorted[i] && rest[j] == sorted[j]);
        }
        assert forall|k: int| 0 <= k < rest.len() implies (#[trigger] rest[k]).start_time
            < bucket.start_time by {
            assert(rest[k] == sorted[k]);
        }
        lemma_insert_ordered(rest, bucket, bound);
        let inner = insert_by_key(rest, bucket);
        assert(sorted =~= rest.push(last));
        assert(sorted[sorted.len() - 1].start_time < bucket.start_time);
        assert forall|i: int, j: int| 0 <= i < j < out.len() implies (#[trigger] out[i]).key < (
        #[trigger] out[j]).key || (out[i].key == out[j].key && out[i].start_time
            < out[j].start_time) by {
            assert(out[i] == inner[i]);
            if j < inner.len() {
                assert(out[j] == inner[j]);
            } else {
                assert(out[j] == last);
                if inner[i].key > bucket.key {
                    let m = choose|m: int| 0 <= m < rest.len() && #[trigger] rest[m] == inner[i];
                    assert(rest[m] == sorted[m]);
                    assert(sorted[m].key < sorted[sorted.len() - 1].key || (sorted[m].key
                        == sorted[sorted.len() - 1].key && sorted[m].start_time
                        < sorted[sorted.len() - 1].start_time));
                }
            }
        }
        assert forall|k: int| 0 <= k < out.len() implies (#[trigger] out[k]).start_time
            < bound by {
            if k < inner.len() {
                assert(out[k] == inner[k]);
            }
        }
        assert forall|k: int| 0 <= k < out.len() implies (#[trigger] out[k]).key <= bucket.key
            || exists|m: int| 0 <= m < sorted.len() && #[trigger] sorted[m] == out[k] by {
            if k < inner.len() {
                assert(out[k] == inner[k]);
                if inner[k].key > bucket.key {
                    let m = choose|m: int| 0 <= m < rest.len() && #[trigger] rest[m] == inner[k];
                    assert(sorted[m] == rest[m]);
                }
            } else {
                assert(sorted[sorted.len() - 1] == out[k]);
            }
        }
        assert(out.to_multiset() =~= sorted.to_multiset().insert(bucket));
    }
}

/// Ordering buckets that stand ascending by start gives the same buckets,
/// each as often as before, by key and then by start.
pub proof fn lemma_sorted_is_ordered<P>(buckets: Seq<Bucket<P>>)
    requires
        ascending(buckets),
    ensures
        ordered(sorted_by_key(buckets)),
        sorted_by_key(buckets).to_multiset() == buckets.to_multiset(),
        sorted_by_key(buckets).len() == buckets.len(),
        buckets.len() > 0 ==> starts_before(sorted_by_key(buckets), buckets.last().start_time + 1),
    decreases buckets.len(),
{
    broadcast use vstd::seq_lib::to_multiset_build;
    broadcast use vstd::seq_lib::to_multiset_len;

    if buckets.len() > 0 {
        let rest = buckets.drop_last();
        let last = buckets.last();
        assert forall|i: int, j: int| 0 <= i < j < rest.len() implies (#[trigger] rest[i]).start_time
            < (#[trigger] rest[j]).start_time by {
            assert(rest[i] == buckets[i] && rest[j] == buckets[j]);
        }
        lemma_sorted_is_ordered(rest);
        let inner = sorted_by_key(rest);
        assert(starts_before(inner, last.start_time as int)) by {
            if rest.len() > 0 {
                assert(rest[rest.len() - 1] == buckets[buckets.len() - 2]);
                assert(buckets[buckets.len() - 2].start_time < buckets[buckets.len() - 1].start_time);
            }
        }
        lemma_insert_ordered(inner, last, last.start_time + 1);
        assert(buckets =~= rest.push(last));
    }
}

/// The order of a history: its buckets stand by the key asked for and, among
/// equal keys, by start; ascending, or the other way round where the query
/// asks for descending order. No bucket start occurs twice.
pub proof fn lemma_arranged_is_ordered<P>(entries: Seq<Entry<P>>, length: int, descending: bool)
    requires
        0 < length,
        all_fit(entries, length),
    ensures
        !descending ==> ordered(arranged(entries, length, descending)),
        descending ==> ordered(arranged(entries, length, descending).reverse()),
        arranged(entries, length, descending).to_multiset() == grouped(entries, length).to_multiset(),
        arranged(entries, length, descending).len() == grouped(entries, length).len(),
{
    lemma_grouped_last_wins(entries, length);
    lemma_sorted_is_ordered(grouped(entries, length));
    let sorted = sorted_by_key(grouped(entries, length));
    sorted.lemma_reverse_to_multiset();
    assert(sorted.reverse().reverse() =~= sorted);
}

/// The entries with their identities blanked.
pub open spec fn anonymized<P>(entries: Seq<Entry<P>>) -> Seq<Entry<P>> {
    entries.map_values(|entry: Entry<P>| anonymous(entry))
}

/// The buckets with their identities blanked.
pub open spec fn anonymized_buckets<P>(buckets: Seq<Bucket<P>>) -> Seq<Bucket<P>> {
    buckets.map_values(|bucket: Bucket<P>| anonymous_bucket(bucket))
}

proof fn lemma_upsert_blind<P>(slots: Seq<Bucket<P>>, bucket: Bucket<P>)
    ensures
        upsert(anonymized_buckets(slots), anonymous_bucket(bucket)) == anonymized_buckets(
            upsert(slots, bucket),
        ),
    decreases slots.len(),
{
    let blind = anonymized_buckets(slots);
    let b = anonymous_bucket(bucket);
    if slots.len() == 0 || slots.last().start_time < bucket.start_time {
        assert(blind.push(b) =~= anonymized_buckets(slots.push(bucket)));
    } else if slots.last().start_time == bucket.start_time {
        assert(blind.drop_last().push(b) =~= anonymized_buckets(slots.drop_last().push(bucket)));
    } else {
        let rest = slots.drop_last();
        lemma_upsert_blind(rest, bucket);
        assert(blind.drop_last() =~= anonymized_buckets(rest));
        assert(blind.last() == anonymous_bucket(slots.last()));
        assert(anonymized_buckets(upsert(rest, bucket)).push(anonymous_bucket(slots.last()))
            =~= anonymized_buckets(upsert(rest, bucket).push(slots.last())));
    }
}

proof fn lemma_insert_by_key_blind<P>(sorted: Seq<Bucket<P>>, bucket: Bucket<P>)
    ensures
        insert_by_key(anonymized_buckets(sorted), anonymous_bucket(bucket)) == anonymized_buckets(
            insert_by_key(sorted, bucket),
        ),
    decreases sorted.len(),
{
    let blind = anonymized_buckets(sorted);
    let b = anonymous_bucket(bucket);
    if sorted.len() == 0 || sorted.last().key <= bucket.key {
        assert(blind.push(b) =~= anonymized_buckets(sorted.push(bucket)));
    } else {
        let rest = sorted.drop_last();
        lemma_insert_by_key_blind(rest, bucket);
        assert(blind.drop_last() =~= anonymized_buckets(rest));
        assert(blind.last() == anonymous_bucket(sorted.last()));
        assert(anonymized_buckets(insert_by_key(rest, bucket)).push(anonymous_bucket(sorted.last()))
            =~= anonymized_buckets(insert_by_key(rest, bucket).push(sorted.last())));
    }
}

proof fn lemma_grouped_blind<P>(entries: Seq<Entry<P>>, length: int)
    ensures
        grouped(anonymized(entries), length) == anonymized_buckets(grouped(entries, length)),
    decreases entries.len(),
{
    if entries.len() == 0 {
        assert(grouped(anonymized(entries), length) =~= anonymized_buckets(
            grouped(entries, length),
        ));
    } else {
        let rest = entries.drop_last();
        lemma_grouped_blind(rest, length);
        assert(anonymized(entries).drop_last() =~= anonymized(rest));
        assert(anonymized(entries).last() == anonymous(entries.last()));
        lemma_upsert_blind(grouped(rest, length), bucket_of(entries.last(), length));
    }
}

proof fn lemma_sorted_blind<P>(buckets: Seq<Bucket<P>>)
    ensures
        sorted_by_key(anonymized_buckets(buckets)) == anonymized_buckets(sorted_by_key(buckets)),
    decreases buckets.len(),
{
    if buckets.len() == 0 {
        assert(sorted_by_key(anonymized_buckets(buckets)) =~= anonymized_buckets(
            sorted_by_key(buckets),
        ));
    } else {
        let rest = buckets.drop_last();
        lemma_sorted_blind(rest);
        assert(anonymized_buckets(buckets).drop_last() =~= anonymized_buckets(rest));
        assert(anonymized_buckets(buckets).last() == anonymous_bucket(buckets.last()));
        lemma_insert_by_key_blind(sorted_by_key(rest), buckets.last());
    }
}

/// The engine never reads an identity: blanking the identities of the
/// samples blanks those of the buckets and changes nothing else.
pub proof fn lemma_arranged_blind<P>(entries: Seq<Entry<P>>, length: int, descending: bool)
    ensures
        arranged(anonymized(entries), length, descending) == anonymized_buckets(
            arranged(entries, length, descending),
        ),
{
    lemma_grouped_blind(entries, length);
    lemma_sorted_blind(grouped(entries, length));
    let ascending = sorted_by_key(grouped(entries, length));
    assert(anonymized_buckets(ascending).reverse() =~= anonymized_buckets(ascending.reverse()));
}

/// Idempotent re-ingestion, for the engine: when the samples of a page are
/// stored a second time, under identities of their own, the history has the
/// buckets it had, with the bounds, keys and readings it had.
pub proof fn lemma_repeats_change_no_bucket<P>(
    store: Seq<Entry<P>>,
    page: Seq<Entry<P>>,
    again: Seq<Entry<P>>,
    length: int,
    descending: bool,
)
    requires
        0 < length,
        all_fit(store, length),
        all_fit(page, length),
        again.len() == page.len(),
        forall|i: int| 0 <= i < page.len() ==> same_sample(#[trigger] again[i], page[i]),
    ensures
        same_history(
            arranged(store + page + again, length, descending),
            arranged(store + page, length, descending),
        ),
{
    let once = store + page;
    let twice = store + page + again;
    assert(anonymized(again) =~= anonymized(page));
    assert(anonymized(twice) =~= anonymized(store) + anonymized(page) + anonymized(page));
    assert(anonymized(once) =~= anonymized(store) + anonymized(page));
    assert(all_fit(anonymized(store), length)) by {
        assert forall|i: int| 0 <= i < store.len() implies bucket_fits(
            #[trigger] anonymized(store)[i].end_time as int,
            length,
        ) by {
            assert(bucket_fits(store[i].end_time as int, length));
        }
    }
    assert(all_fit(anonymized(page), length)) by {
        assert forall|i: int| 0 <= i < page.len() implies bucket_fits(
            #[trigger] anonymized(page)[i].end_time as int,
            length,
        ) by {
            assert(bucket_fits(page[i].end_time as int, length));
        }
    }
    lemma_regrouping_absorbs_repeats(anonymized(store), anonymized(page), length);
    lemma_arranged_blind(once, length, descending);
    lemma_arranged_blind(twice, length, descending);
    let a = arranged(twice, length, descending);
    let b = arranged(once, length, descending);
    assert(anonymized_buckets(a) == anonymized_buckets(b));
    assert(a.len() == anonymized_buckets(a).len());
    assert(b.len() == anonymized_buckets(b).len());
    assert forall|i: int| 0 <= i < a.len() implies same_bucket(#[trigger] a[i], b[i]) by {
        assert(anonymized_buckets(a)[i] == anonymous_bucket(a[i]));
        assert(anonymized_buckets(b)[i] == anonymous_bucket(b[i]));
    }
}

/// Whether two records are the same observation but for the identity the
/// store gave them.
pub open spec fn same_observation<P>(a: Record<P>, b: Record<P>) -> bool {
    &&& text_of(a.pool) == text_of(b.pool)
    &&& a.start_time == b.start_time
    &&& a.end_time == b.end_time
    &&& a.readings == b.readings
}

proof fn lemma_selected_concat<P: Readings>(
    u: Seq<Record<P>>,
    v: Seq<Record<P>>,
    pool: Option<Seq<char>>,
    query: HistoryQueryParams,
    now: int,
)
    ensures
        selected(u + v, pool, query, now) == selected(u, pool, query, now) + selected(
            v,
            pool,
            query,
            now,
        ),
    decreases v.len(),
{
    if v.len() == 0 {
        assert(u + v =~= u);
        assert(selected(u, pool, query, now) + selected(v, pool, query, now) =~= selected(
            u,
            pool,
            query,
            now,
        ));
    } else {
        assert((u + v).drop_last() =~= u + v.drop_last());
        assert((u + v).last() == v.last());
        lemma_selected_concat(u, v.drop_last(), pool, query, now);
        let su = selected(u, pool, query, now);
        let sv = selected(v.drop_last(), pool, query, now);
        if window_admits(pool, query, now, v.last()) {
            let e = entry_of(v.last(), sort_field(query));
            assert((su + sv).push(e) =~= su + sv.push(e));
        }
    }
}

proof fn lemma_selected_same<P: Readings>(
    page: Seq<Record<P>>,
    again: Seq<Record<P>>,
    pool: Option<Seq<char>>,
    query: HistoryQueryParams,
    now: int,
)
    requires
        again.len() == page.len(),
        forall|i: int| 0 <= i < page.len() ==> same_observation(#[trigger] again[i], page[i]),
    ensures
        selected(again, pool, query, now).len() == selected(page, pool, query, now).len(),
        forall|i: int|
            0 <= i < selected(page, pool, query, now).len() ==> same_sample(
                #[trigger] selected(again, pool, query, now)[i],
                selected(page, pool, query, now)[i],
            ),
    decreases page.len(),
{
    if page.len() > 0 {
        let p = page.drop_last();
        let a = again.drop_last();
        assert forall|i: int| 0 <= i < p.len() implies same_observation(#[trigger] a[i], p[i]) by {
            assert(a[i] == again[i] && p[i] == page[i]);
            assert(same_observation(again[i], page[i]));
        }
        lemma_selected_same(p, a, pool, query, now);
        assert(same_observation(again[again.len() - 1], page[page.len() - 1]));
    }
}

proof fn lemma_all_fit_parts<P>(u: Seq<Entry<P>>, v: Seq<Entry<P>>, length: int)
    requires
        all_fit(u + v, length),
    ensures
        all_fit(u, length),
        all_fit(v, length),
{
    assert forall|i: int| 0 <= i < u.len() implies bucket_fits(
        #[trigger] u[i].end_time as int,
        length,
    ) by {
        assert((u + v)[i] == u[i]);
        assert(bucket_fits((u + v)[i].end_time as int, length));
    }
    assert forall|i: int| 0 <= i < v.len() implies bucket_fits(
        #[trigger] v[i].end_time as int,
        length,
    ) by {
        assert((u + v)[i + u.len()] == v[i]);
        assert(bucket_fits((u + v)[i + u.len()].end_time as int, length));
    }
}

/// Idempotent re-ingestion: when the observations of a page are stored a
/// second time, whatever identities the store gives them, every query over
/// the store answers with the buckets it answered with before: as many, in
/// the same order, with the same bounds and readings, on every page.
pub proof fn lemma_reingestion_is_idempotent<P: Readings>(
    store: Seq<Record<P>>,
    page: Seq<Record<P>>,
    again: Seq<Record<P>>,
    pool: Option<Seq<char>>,
    query: HistoryQueryParams,
    now: int,
)
    requires
        again.len() == page.len(),
        forall|i: int| 0 <= i < page.len() ==> same_observation(#[trigger] again[i], page[i]),
        all_fit(selected(store + page, pool, query, now), query_length(query)),
    ensures
        same_history(
            full_history(store + page + again, pool, query, now),
            full_history(store + page, pool, query, now),
        ),
        same_history(
            history_page(store + page + again, pool, query, now),
            history_page(store + page, pool, query, now),
        ),
{
    let length = query_length(query);
    let s = selected(store, pool, query, now);
    let p = selected(page, pool, query, now);
    let a = selected(again, pool, query, now);
    lemma_selected_concat(store, page, pool, query, now);
    lemma_selected_concat(store + page, again, pool, query, now);
    lemma_selected_same(page, again, pool, query, now);
    lemma_all_fit_parts(s, p, length);
    lemma_repeats_change_no_bucket(s, p, a, length, sorts_descending(query));
    let twice = full_history(store + page + again, pool, query, now);
    let once = full_history(store + page, pool, query, now);
    let cut_twice = history_page(store + page + again, pool, query, now);
    let cut_once = history_page(store + page, pool, query, now);
    assert(cut_twice.len() == cut_once.len());
    assert forall|i: int| 0 <= i < cut_twice.len() implies same_bucket(
        #[trigger] cut_twice[i],
        cut_once[i],
    ) by {
        let from = if page_skip(query) < 0 {
            0
        } else if page_skip(query) > twice.len() {
            twice.len() as int
        } else {
            page_skip(query)
        };
        assert(cut_twice[i] == twice[from + i]);
        assert(cut_once[i] == once[from + i]);
        assert(same_bucket(twice[from + i], once[from + i]));
    }
}

proof fn lemma_last_in_bucket_member<P>(entries: Seq<Entry<P>>, length: int, start: int)
    ensures
        last_in_bucket(entries, length, start) matches Some(bucket) ==> exists|i: int|
            0 <= i < entries.len() && bucket == bucket_of(#[trigger] entries[i], length)
                && bucket_start(entries[i].end_time as int, length) == start,
        forall|i: int|
            0 <= i < entries.len() && bucket_start((#[trigger] entries[i]).end_time as int, length)
                == start ==> last_in_bucket(entries, length, start).is_some(),
    decreases entries.len(),
{
    if entries.len() > 0 {
        let rest = entries.drop_last();
        lemma_last_in_bucket_member(rest, length, start);
        if bucket_start(entries.last().end_time as int, length) == start {
            assert(entries[entries.len() - 1] == entries.last());
        } else {
            if last_in_bucket(rest, length, start).is_some() {
                let bucket = last_in_bucket(rest, length, start)->0;
                let i = choose|i: int|
                    0 <= i < rest.len() && bucket == bucket_of(#[trigger] rest[i], length)
                        && bucket_start(rest[i].end_time as int, length) == start;
                assert(entries[i] == rest[i]);
            }
            assert forall|i: int|
                0 <= i < entries.len() && bucket_start(
                    (#[trigger] entries[i]).end_time as int,
                    length,
                ) == start implies last_in_bucket(entries, length, start).is_some() by {
                assert(i < rest.len());
                assert(rest[i] == entries[i]);
            }
        }
    }
}

/// Whether `entry` is what the engine reads of some record that the window
/// of the query admits.
pub open spec fn admitted_entry<P: Readings>(
    records: Seq<Record<P>>,
    pool: Option<Seq<char>>,
    query: HistoryQueryParams,
    now: int,
    entry: Entry<P>,
) -> bool {
    exists|i: int|
        0 <= i < records.len() && window_admits(pool, query, now, #[trigger] records[i]) && entry
            == entry_of(records[i], sort_field(query))
}

/// Whether `bucket` is the bucket of some record that the window of the
/// query admits.
pub open spec fn admitted_bucket<P: Readings>(
    records: Seq<Record<P>>,
    pool: Option<Seq<char>>,
    query: HistoryQueryParams,
    now: int,
    bucket: Bucket<P>,
) -> bool {
    exists|i: int|
        0 <= i < records.len() && window_admits(pool, query, now, #[trigger] records[i]) && bucket
            == bucket_of(entry_of(records[i], sort_field(query)), query_length(query))
}

/// Whether some bucket of `history` starts at `start`.
pub open spec fn has_bucket_at<P>(history: Seq<Bucket<P>>, start: int) -> bool {
    exists|k: int| 0 <= k < history.len() && (#[trigger] history[k]).start_time == start
}

proof fn lemma_selected_members<P: Readings>(
    records: Seq<Record<P>>,
    pool: Option<Seq<char>>,
    query: HistoryQueryParams,
    now: int,
)
    ensures
        forall|k: int|
            0 <= k < selected(records, pool, query, now).len() ==> admitted_entry(
                records,
                pool,
                query,
                now,
                #[trigger] selected(records, pool, query, now)[k],
            ),
        forall|i: int|
            0 <= i < records.len() && window_admits(pool, query, now, #[trigger] records[i])
                ==> selected(records, pool, query, now).contains(
                entry_of(records[i], sort_field(query)),
            ),
    decreases records.len(),
{
    let out = selected(records, pool, query, now);
    if records.len() > 0 {
        let rest = records.drop_last();
        let inner = selected(rest, pool, query, now);
        lemma_selected_members(rest, pool, query, now);
        assert forall|k: int| 0 <= k < out.len() implies admitted_entry(
            records,
            pool,
            query,
            now,
            #[trigger] out[k],
        ) by {
            if k < inner.len() {
                assert(out[k] == inner[k]);
                assert(admitted_entry(rest, pool, query, now, inner[k]));
                let i = choose|i: int|
                    0 <= i < rest.len() && window_admits(pool, query, now, #[trigger] rest[i])
                        && inner[k] == entry_of(rest[i], sort_field(query));
                assert(records[i] == rest[i]);
            } else {
                assert(records[records.len() - 1] == records.last());
            }
        }
        assert forall|i: int|
            0 <= i < records.len() && window_admits(
                pool,
                query,
                now,
                #[trigger] records[i],
            ) implies out.contains(entry_of(records[i], sort_field(query))) by {
            let e = entry_of(records[i], sort_field(query));
            if i < rest.len() {
                assert(rest[i] == records[i]);
                assert(inner.contains(e));
                let k = choose|k: int| 0 <= k < inner.len() && inner[k] == e;
                assert(out[k] == e);
            } else {
                assert(out[out.len() - 1] == e);
            }
        }
    }
}

/// What a history covers. Every bucket of the answer is the bucket of a
/// record that the window admits: one of the pool asked for that starts no
/// earlier than `from`, or than `count` intervals before the clock reading
/// where the query names no `from`, and that ends no later than `to`. And
/// every record that the window admits has its bucket in the answer.
pub proof fn lemma_history_covers_window<P: Readings>(
    records: Seq<Record<P>>,
    pool: Option<Seq<char>>,
    query: HistoryQueryParams,
    now: int,
)
    requires
        all_fit(selected(records, pool, query, now), query_length(query)),
    ensures
        forall|k: int|
            0 <= k < full_history(records, pool, query, now).len() ==> admitted_bucket(
                records,
                pool,
                query,
                now,
                #[trigger] full_history(records, pool, query, now)[k],
            ),
        forall|i: int|
            0 <= i < records.len() && window_admits(pool, query, now, #[trigger] records[i])
                ==> has_bucket_at(
                full_history(records, pool, query, now),
                bucket_start(records[i].end_time as int, query_length(query)),
            ),
{
    let length = query_length(query);
    let entries = selected(records, pool, query, now);
    let groups = grouped(entries, length);
    let all = full_history(records, pool, query, now);
    lemma_grouped_last_wins(entries, length);
    lemma_arranged_is_ordered(entries, length, sorts_descending(query));
    lemma_selected_members(records, pool, query, now);
    assert forall|k: int| 0 <= k < all.len() implies admitted_bucket(
        records,
        pool,
        query,
        now,
        #[trigger] all[k],
    ) by {
        let bucket = all[k];
        assert(all.contains(bucket));
        vstd::seq_lib::to_multiset_contains(all, bucket);
        vstd::seq_lib::to_multiset_contains(groups, bucket);
        assert(groups.contains(bucket));
        let g = choose|g: int| 0 <= g < groups.len() && groups[g] == bucket;
        lemma_slot_at_member(groups, g);
        assert(slot_at(groups, bucket.start_time as int) == last_in_bucket(
            entries,
            length,
            bucket.start_time as int,
        ));
        lemma_last_in_bucket_member(entries, length, bucket.start_time as int);
        let e = choose|e: int|
            0 <= e < entries.len() && bucket == bucket_of(#[trigger] entries[e], length)
                && bucket_start(entries[e].end_time as int, length) == bucket.start_time as int;
        assert(admitted_entry(records, pool, query, now, entries[e]));
        let i = choose|i: int|
            0 <= i < records.len() && window_admits(pool, query, now, #[trigger] records[i])
                && entries[e] == entry_of(records[i], sort_field(query));
        assert(all[k] == bucket_of(entry_of(records[i], sort_field(query)), length));
    }
    assert forall|i: int|
        0 <= i < records.len() && window_admits(
            pool,
            query,
            now,
            #[trigger] records[i],
        ) implies has_bucket_at(all, bucket_start(records[i].end_time as int, length)) by {
        let entry = entry_of(records[i], sort_field(query));
        assert(entries.contains(entry));
        let e = choose|e: int| 0 <= e < entries.len() && entries[e] == entry;
        let start = bucket_start(records[i].end_time as int, length);
        lemma_last_in_bucket_member(entries, length, start);
        assert(bucket_start(entries[e].end_time as int, length) == start);
        assert(last_in_bucket(entries, length, start).is_some());
        assert(slot_at(groups, start) == last_in_bucket(entries, length, start));
        lemma_slot_at_present(groups, start);
        let g = choose|g: int|
            0 <= g < groups.len() && #[trigger] groups[g] == slot_at(groups, start)->0;
        assert(groups.contains(groups[g]));
        vstd::seq_lib::to_multiset_contains(all, groups[g]);
        vstd::seq_lib::to_multiset_contains(groups, groups[g]);
        assert(all.contains(groups[g]));
        let k = choose|k: int| 0 <= k < all.len() && all[k] == groups[g];
        assert(all[k].start_time == start);
    }
}

/// Pages 1 through `pages` of a list are its first `pages * limit` items.
pub proof fn lemma_pages_prefix<T>(items: Seq<T>, limit: int, pages: int)
    requires
        0 < limit,
        0 <= pages,
    ensures
        pages_through(items, limit, pages) == items.take(
            if pages * limit > items.len() {
                items.len() as int
            } else {
                pages * limit
            },
        ),
    decreases pages,
{
    if pages == 0 {
        assert(pages * limit == 0) by (nonlinear_arith)
            requires
                pages == 0,
        ;
        assert(pages_through(items, limit, pages) =~= items.take(0));
    } else {
        lemma_pages_prefix(items, limit, pages - 1);
        let before = (pages - 1) * limit;
        assert(pages * limit == before + limit) by (nonlinear_arith)
            requires
                before == (pages - 1) * limit,
        ;
        assert(0 <= before) by (nonlinear_arith)
            requires
                before == (pages - 1) * limit,
                0 <= pages - 1,
                0 < limit,
        ;
        let from = if before > items.len() {
            items.len() as int
        } else {
            before
        };
        let to = if from + limit > items.len() {
            items.len() as int
        } else {
            from + limit
        };
        assert(page_of(items, before, limit) == items.subrange(from, to));
        assert(items.take(from) + items.subrange(from, to) =~= items.take(to));
    }
}

/// Pagination is consistent: the page count is the number of records over
/// the page size, rounded up; the pages up to that count, one after the
/// other, are the whole ordered list with no gap and no overlap; and no page
/// up to the count is empty while every later page is.
pub proof fn lemma_pages_cover<T>(items: Seq<T>, limit: int)
    requires
        0 < limit,
    ensures
        pages_through(items, limit, page_count(items.len() as int, limit)) == items,
        forall|page: int|
            1 <= page <= page_count(items.len() as int, limit) ==> (#[trigger] page_of(
                items,
                (page - 1) * limit,
                limit,
            )).len() > 0,
        forall|page: int|
            page > page_count(items.len() as int, limit) ==> (#[trigger] page_of(
                items,
                (page - 1) * limit,
                limit,
            )).len() == 0,
{
    let total = items.len() as int;
    let pages = page_count(total, limit);
    lemma_page_count(total, limit);
    lemma_pages_prefix(items, limit, pages);
    assert(items.take(total) =~= items);
    assert forall|page: int| 1 <= page <= pages implies (#[trigger] page_of(
        items,
        (page - 1) * limit,
        limit,
    )).len() > 0 by {
        assert((page - 1) * limit <= (pages - 1) * limit) by (nonlinear_arith)
            requires
                page <= pages,
                0 < limit,
        ;
        assert(0 <= (page - 1) * limit) by (nonlinear_arith)
            requires
                1 <= page,
                0 < limit,
        ;
    }
    assert forall|page: int| page > pages implies (#[trigger] page_of(
        items,
        (page - 1) * limit,
        limit,
    )).len() == 0 by {
        assert((page - 1) * limit >= pages * limit) by (nonlinear_arith)
            requires
                page > pages,
                0 < limit,
        ;
    }
}

/// The query that asks for page `page` of what `query` asks for.
pub open spec fn on_page(query: HistoryQueryParams, page: i64) -> HistoryQueryParams {
    HistoryQueryParams {
        interval: query.interval,
        count: query.count,
        from: query.from,
        to: query.to,
        page: Some(page),
        limit: query.limit,
        sort_by: query.sort_by,
        order: query.order,
    }
}

proof fn lemma_selected_ignores_page<P: Readings>(
    records: Seq<Record<P>>,
    pool: Option<Seq<char>>,
    query: HistoryQueryParams,
    page: i64,
    now: int,
)
    ensures
        selected(records, pool, on_page(query, page), now) == selected(records, pool, query, now),
    decreases records.len(),
{
    if records.len() > 0 {
        lemma_selected_ignores_page(records.drop_last(), pool, query, page, now);
    }
}

/// Pagination consistency: whatever page a query asks for, it is cut from
/// the one ordered list of buckets; the number of pages is the number of
/// buckets over the page size, rounded up; and pages 1 through that number,
/// one after the other, are the whole list with no gap and no overlap.
pub proof fn lemma_history_pages_cover<P: Readings>(
    records: Seq<Record<P>>,
    pool: Option<Seq<char>>,
    query: HistoryQueryParams,
    now: int,
)
    ensures
        forall|page: i64| #[trigger]
            history_page(records, pool, on_page(query, page), now) == page_of(
                full_history(records, pool, query, now),
                (page - 1) * page_limit(query),
                page_limit(query),
            ),
        pages_through(
            full_history(records, pool, query, now),
            page_limit(query),
            page_count(full_history(records, pool, query, now).len() as int, page_limit(query)),
        ) == full_history(records, pool, query, now),
        page_count(full_history(records, pool, query, now).len() as int, page_limit(query))
            * page_limit(query) >= full_history(records, pool, query, now).len(),
        full_history(records, pool, query, now).len() > 0 ==> (page_count(
            full_history(records, pool, query, now).len() as int,
            page_limit(query),
        ) - 1) * page_limit(query) < full_history(records, pool, query, now).len(),
{
    let all = full_history(records, pool, query, now);
    assert forall|page: i64| #[trigger]
        history_page(records, pool, on_page(query, page), now) == page_of(
            all,
            (page - 1) * page_limit(query),
            page_limit(query),
        ) by {
        lemma_selected_ignores_page(records, pool, query, page, now);
    }
    lemma_pages_cover(all, page_limit(query));
    lemma_page_count(all.len() as int, page_limit(query));
}

} // verus!
