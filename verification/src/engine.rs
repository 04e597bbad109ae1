//! The bucketing engine: groups raw samples into fixed-width buckets where
//! the last sample of a bucket wins, orders the buckets, and cuts pages.

use crate::interval::{bucket_bounds, bucket_fits, bucket_start};
use crate::reading::RecordId;
use vstd::prelude::*;

verus! {

/// What the engine reads of one raw sample: when it ends, the key it is
/// ordered by, the identity of its record, and the readings it carries.
#[derive(Clone, Copy, Debug)]
pub struct Entry<P> {
    pub end_time: i64,
    pub key: u64,
    pub source: RecordId,
    pub payload: P,
}

/// One bucket of a history: its bounds, and the key, identity and readings
/// of the sample that won it.
#[derive(Clone, Copy, Debug)]
pub struct Bucket<P> {
    pub start_time: i64,
    pub end_time: i64,
    pub key: u64,
    pub source: RecordId,
    pub payload: P,
}

/// The bucket that a single sample fills.
pub open spec fn bucket_of<P>(entry: Entry<P>, length: int) -> Bucket<P> {
    Bucket {
        start_time: bucket_start(entry.end_time as int, length) as i64,
        end_time: (bucket_start(entry.end_time as int, length) + length) as i64,
        key: entry.key,
        source: entry.source,
        payload: entry.payload,
    }
}

/// Whether the buckets of all entries can be held in 64 bits.
pub open spec fn all_fit<P>(entries: Seq<Entry<P>>, length: int) -> bool {
    forall|i: int| 0 <= i < entries.len() ==> bucket_fits(#[trigger] entries[i].end_time as int, length)
}

/// `slots`, ascending by start, with `bucket` put in: in place of the slot
/// that starts where it starts, or else at its place in the order.
pub open spec fn upsert<P>(slots: Seq<Bucket<P>>, bucket: Bucket<P>) -> Seq<Bucket<P>>
    decreases slots.len(),
{
    if slots.len() == 0 || slots.last().start_time < bucket.start_time {
        slots.push(bucket)
    } else if slots.last().start_time == bucket.start_time {
        slots.drop_last().push(bucket)
    } else {
        upsert(slots.drop_last(), bucket).push(slots.last())
    }
}

/// The buckets of a run of samples, ascending by start. Samples are taken in
/// storage order, and a later sample replaces an earlier one of its bucket.
pub open spec fn grouped<P>(entries: Seq<Entry<P>>, length: int) -> Seq<Bucket<P>>
    decreases entries.len(),
{
    if entries.len() == 0 {
        Seq::empty()
    } else {
        upsert(grouped(entries.drop_last(), length), bucket_of(entries.last(), length))
    }
}

/// `sorted`, in non-descending key order, with `bucket` put in behind every
/// bucket whose key is not greater.
pub open spec fn insert_by_key<P>(sorted: Seq<Bucket<P>>, bucket: Bucket<P>) -> Seq<Bucket<P>>
    decreases sorted.len(),
{
    if sorted.len() == 0 || sorted.last().key <= bucket.key {
        sorted.push(bucket)
    } else {
        insert_by_key(sorted.drop_last(), bucket).push(sorted.last())
    }
}

/// The buckets in non-descending key order; buckets of equal key stay in the
/// order they had.
pub open spec fn sorted_by_key<P>(buckets: Seq<Bucket<P>>) -> Seq<Bucket<P>>
    decreases buckets.len(),
{
    if buckets.len() == 0 {
        buckets
    } else {
        insert_by_key(sorted_by_key(buckets.drop_last()), buckets.last())
    }
}

/// The whole ordered history of a run of samples: its buckets by key and
/// then by start, ascending, or that sequence reversed.
pub open spec fn arranged<P>(entries: Seq<Entry<P>>, length: int, descending: bool) -> Seq<
    Bucket<P>,
> {
    let ascending = sorted_by_key(grouped(entries, length));
    if descending {
        ascending.reverse()
    } else {
        ascending
    }
}

/// The items that remain after `skip` are passed over and at most `limit`
/// are taken.
pub open spec fn page_of<T>(items: Seq<T>, skip: int, limit: int) -> Seq<T> {
    let from = if skip < 0 {
        0
    } else if skip > items.len() {
        items.len() as int
    } else {
        skip
    };
    let to = if limit < 0 {
        from
    } else if from + limit > items.len() {
        items.len() as int
    } else {
        from + limit
    };
    items.subrange(from, to)
}

/// Number of pages of `limit` items that `total` items fill: the quotient,
/// rounded up.
pub open spec fn page_count(total: int, limit: int) -> int {
    (total + limit - 1) / limit
}

/// Pages 1 through `pages` of `items`, one after the other.
pub open spec fn pages_through<T>(items: Seq<T>, limit: int, pages: int) -> Seq<T>
    decreases pages,
{
    if pages <= 0 {
        Seq::empty()
    } else {
        pages_through(items, limit, pages - 1) + page_of(items, (pages - 1) * limit, limit)
    }
}

proof fn lemma_upsert_at<P>(slots: Seq<Bucket<P>>, bucket: Bucket<P>, j: int)
    requires
        0 <= j <= slots.len(),
        forall|k: int| j <= k < slots.len() ==> (#[trigger] slots[k]).start_time > bucket.start_time,
        j > 0 ==> slots[j - 1].start_time <= bucket.start_time,
    ensures
        upsert(slots, bucket) == if j > 0 && slots[j - 1].start_time == bucket.start_time {
            slots.update(j - 1, bucket)
        } else {
            slots.insert(j, bucket)
        },
    decreases slots.len() - j,
{
    if j == slots.len() {
        if j > 0 && slots[j - 1].start_time == bucket.start_time {
            assert(slots.drop_last().push(bucket) =~= slots.update(j - 1, bucket));
        } else {
            assert(slots.push(bucket) =~= slots.insert(j, bucket));
        }
    } else {
        let rest = slots.drop_last();
        assert(slots.last().start_time > bucket.start_time);
        assert forall|k: int| j <= k < rest.len() implies (#[trigger] rest[k]).start_time
            > bucket.start_time by {
            assert(rest[k] == slots[k]);
        }
        lemma_upsert_at(rest, bucket, j);
        if j > 0 && slots[j - 1].start_time == bucket.start_time {
            assert(rest.update(j - 1, bucket).push(slots.last()) =~= slots.update(j - 1, bucket));
        } else {
            assert(rest.insert(j, bucket).push(slots.last()) =~= slots.insert(j, bucket));
        }
    }
}

proof fn lemma_insert_by_key_at<P>(sorted: Seq<Bucket<P>>, bucket: Bucket<P>, j: int)
    requires
        0 <= j <= sorted.len(),
        forall|k: int| j <= k < sorted.len() ==> (#[trigger] sorted[k]).key > bucket.key,
        j > 0 ==> sorted[j - 1].key <= bucket.key,
    ensures
        insert_by_key(sorted, bucket) == sorted.insert(j, bucket),
    decreases sorted.len() - j,
{
    if j == sorted.len() {
        assert(sorted.push(bucket) =~= sorted.insert(j, bucket));
    } else {
        let rest = sorted.drop_last();
        assert(sorted.last().key > bucket.key);
        assert forall|k: int| j <= k < rest.len() implies (#[trigger] rest[k]).key
            > bucket.key by {
            assert(rest[k] == sorted[k]);
        }
        lemma_insert_by_key_at(rest, bucket, j);
        assert(rest.insert(j, bucket).push(sorted.last()) =~= sorted.insert(j, bucket));
    }
}

/// Groups samples, taken in storage order, into buckets of `length` seconds.
/// The buckets come out ascending by start, each with the key, identity and
/// readings of the last sample that fell into it.
pub fn group_entries<P: Copy>(entries: &Vec<Entry<P>>, length: i64) -> (buckets: Vec<Bucket<P>>)
    requires
        0 < length,
        all_fit(entries@, length as int),
    ensures
        buckets@ == grouped(entries@, length as int),
{
    let mut out: Vec<Bucket<P>> = Vec::new();
    let mut i: usize = 0;
    while i < entries.len()
        invariant
            0 < length,
            all_fit(entries@, length as int),
            i <= entries.len(),
            out@ == grouped(entries@.take(i as int), length as int),
        decreases entries.len() - i,
    {
        let entry = entries[i];
        assert(bucket_fits(entries@[i as int].end_time as int, length as int));
        let bounds = bucket_bounds(entry.end_time, length);
        let bucket = Bucket {
            start_time: bounds.0,
            end_time: bounds.1,
            key: entry.key,
            source: entry.source,
            payload: entry.payload,
        };
        assert(bucket == bucket_of(entries@[i as int], length as int));
        let mut j: usize = out.len();
        while j > 0 && out[j - 1].start_time > bucket.start_time
            invariant
                j <= out.len(),
                forall|k: int| j <= k < out.len() ==> (#[trigger] out@[k]).start_time > bucket.start_time,
            decreases j,
        {
            j -= 1;
        }
        proof {
            lemma_upsert_at(out@, bucket, j as int);
            let next = entries@.take(i as int + 1);
            assert(next.drop_last() =~= entries@.take(i as int));
            assert(next.last() == entries@[i as int]);
        }
        if j > 0 && out[j - 1].start_time == bucket.start_time {
            out.set(j - 1, bucket);
        } else {
            out.insert(j, bucket);
        }
        i += 1;
    }
    assert(entries@.take(i as int) =~= entries@);
    out
}

/// Orders buckets by key, ascending, keeping buckets of equal key in the
/// order they came in.
pub fn sort_buckets<P: Copy>(buckets: &Vec<Bucket<P>>) -> (sorted: Vec<Bucket<P>>)
    ensures
        sorted@ == sorted_by_key(buckets@),
{
    let mut out: Vec<Bucket<P>> = Vec::new();
    let mut i: usize = 0;
    while i < buckets.len()
        invariant
            i <= buckets.len(),
            out@ == sorted_by_key(buckets@.take(i as int)),
        decreases buckets.len() - i,
    {
        let bucket = buckets[i];
        let mut j: usize = out.len();
        while j > 0 && out[j - 1].key > bucket.key
            invariant
                j <= out.len(),
                forall|k: int| j <= k < out.len() ==> (#[trigger] out@[k]).key > bucket.key,
            decreases j,
        {
            j -= 1;
        }
        proof {
            lemma_insert_by_key_at(out@, bucket, j as int);
            let next = buckets@.take(i as int + 1);
            assert(next.drop_last() =~= buckets@.take(i as int));
            assert(next.last() == buckets@[i as int]);
        }
        out.insert(j, bucket);
        i += 1;
    }
    assert(buckets@.take(i as int) =~= buckets@);
    out
}

/// The buckets in the opposite order.
pub fn reverse_buckets<P: Copy>(buckets: &Vec<Bucket<P>>) -> (reversed: Vec<Bucket<P>>)
    ensures
        reversed@ == buckets@.reverse(),
{
    let mut out: Vec<Bucket<P>> = Vec::new();
    let n = buckets.len();
    let mut i: usize = 0;
    while i < n
        invariant
            n == buckets.len(),
            i <= n,
            out.len() == i,
            forall|k: int| 0 <= k < i ==> out@[k] == buckets@[n - 1 - k],
        decreases n - i,
    {
        out.push(buckets[n - 1 - i]);
        i += 1;
    }
    assert(out@ =~= buckets@.reverse());
    out
}

/// The whole ordered history of a run of samples.
pub fn arrange<P: Copy>(entries: &Vec<Entry<P>>, length: i64, descending: bool) -> (buckets: Vec<
    Bucket<P>,
>)
    requires
        0 < length,
        all_fit(entries@, length as int),
    ensures
        buckets@ == arranged(entries@, length as int, descending),
{
    let groups = group_entries(entries, length);
    let ascending = sort_buckets(&groups);
    if descending {
        reverse_buckets(&ascending)
    } else {
        ascending
    }
}

/// Cuts one page out of `items`: passes over `skip` of them and takes up to
/// `limit`.
pub fn take_page<P: Copy>(items: &Vec<Bucket<P>>, skip: usize, limit: usize) -> (page: Vec<Bucket<P>>)
    ensures
        page@ == page_of(items@, skip as int, limit as int),
{
    let n = items.len();
    let from: usize = if skip > n {
        n
    } else {
        skip
    };
    let to: usize = if limit > n - from {
        n
    } else {
        from + limit
    };
    let mut out: Vec<Bucket<P>> = Vec::new();
    let mut i: usize = from;
    while i < to
        invariant
            from <= i <= to <= n,
            n == items.len(),
            out@ == items@.subrange(from as int, i as int),
        decreases to - i,
    {
        out.push(items[i]);
        assert(items@.subrange(from as int, i as int).push(items@[i as int]) =~= items@.subrange(
            from as int,
            i as int + 1,
        ));
        i += 1;
    }
    out
}

/// Number of pages of `limit` items that `total` items fill.
pub fn count_pages(total: usize, limit: i64) -> (pages: u64)
    requires
        1 <= limit <= 400,
    ensures
        pages == page_count(total as int, limit as int),
{
    proof {
        lemma_page_count(total as int, limit as int);
    }
    let total_wide: u128 = total as u128;
    let limit_wide: u128 = limit as u128;
    let pages: u128 = (total_wide + limit_wide - 1) / limit_wide;
    pages as u64
}

/// The page count is the least number of pages that holds every item.
pub proof fn lemma_page_count(total: int, limit: int)
    requires
        0 <= total,
        0 < limit,
    ensures
        0 <= page_count(total, limit) <= total,
        total <= page_count(total, limit) * limit,
        total > 0 ==> (page_count(total, limit) - 1) * limit < total,
        total == 0 ==> page_count(total, limit) == 0,
{
    let n = total + limit - 1;
    let q = n / limit;
    vstd::arithmetic::div_mod::lemma_fundamental_div_mod(n, limit);
    vstd::arithmetic::div_mod::lemma_mod_bound(n, limit);
    assert(n == limit * q + n % limit);
    assert(q * limit == limit * q) by (nonlinear_arith);
    assert((q - 1) * limit == q * limit - limit) by (nonlinear_arith);
    if total == 0 {
        vstd::arithmetic::div_mod::lemma_basic_div(n, limit);
    }
    assert(0 <= q) by (nonlinear_arith)
        requires
            n == limit * q + n % limit,
            0 <= n,
            0 < limit,
            0 <= n % limit < limit,
    ;
    assert(q <= total) by (nonlinear_arith)
        requires
            n == limit * q + n % limit,
            n == total + limit - 1,
            0 <= total,
            0 < limit,
            0 <= n % limit < limit,
            0 <= q,
    ;
}

} // verus!
