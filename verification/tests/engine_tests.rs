use midgard_history::engine::{
    arrange, count_pages, group_entries, reverse_buckets, sort_buckets, take_page, Bucket, Entry,
};
use midgard_history::reading::RecordId;

fn entry(end_time: i64, key: u64, payload: u32) -> Entry<u32> {
    Entry { end_time, key, source: RecordId::from_value(payload as u128), payload }
}

fn starts(buckets: &Vec<Bucket<u32>>) -> Vec<i64> {
    buckets.iter().map(|b| b.start_time).collect()
}

fn payloads(buckets: &Vec<Bucket<u32>>) -> Vec<u32> {
    buckets.iter().map(|b| b.payload).collect()
}

#[test]
fn grouping_keeps_the_last_sample_of_each_bucket() {
    let entries = vec![entry(100, 0, 1), entry(200, 0, 2), entry(3700, 0, 3), entry(250, 0, 4)];
    let buckets = group_entries(&entries, 3600);
    assert_eq!(starts(&buckets), vec![0, 3600]);
    assert_eq!(payloads(&buckets), vec![4, 3]);
    assert_eq!(buckets[0].end_time, 3600);
    assert_eq!(buckets[1].end_time, 7200);
    assert_eq!(buckets[0].source, RecordId::from_value(4));
}

#[test]
fn grouping_orders_buckets_by_start_whatever_the_storage_order() {
    let entries = vec![entry(90000, 0, 1), entry(10, 0, 2), entry(40000, 0, 3), entry(7300, 0, 4)];
    let buckets = group_entries(&entries, 3600);
    assert_eq!(starts(&buckets), vec![0, 7200, 39600, 90000 / 3600 * 3600]);
    assert_eq!(payloads(&buckets), vec![2, 4, 3, 1]);
}

#[test]
fn grouping_nothing_gives_nothing() {
    let entries: Vec<Entry<u32>> = Vec::new();
    assert!(group_entries(&entries, 300).is_empty());
    assert!(arrange(&entries, 300, true).is_empty());
}

#[test]
fn storing_a_page_twice_changes_no_bucket() {
    let store = vec![entry(100, 5, 1), entry(4000, 6, 2)];
    let page = vec![entry(4100, 7, 3), entry(8000, 8, 4), entry(8100, 9, 5)];
    let mut once = store.clone();
    once.extend(page.iter().copied());
    let mut twice = once.clone();
    twice.extend(page.iter().copied());
    for descending in [false, true] {
        let a = arrange(&once, 3600, descending);
        let b = arrange(&twice, 3600, descending);
        assert_eq!(starts(&a), starts(&b));
        assert_eq!(payloads(&a), payloads(&b));
    }
    assert_eq!(payloads(&arrange(&twice, 3600, false)), vec![1, 3, 5]);
}

#[test]
fn sorting_is_by_key_and_keeps_ties_in_order() {
    let entries = vec![entry(100, 30, 1), entry(4000, 10, 2), entry(8000, 30, 3), entry(12000, 20, 4)];
    let groups = group_entries(&entries, 3600);
    let sorted = sort_buckets(&groups);
    assert_eq!(payloads(&sorted), vec![2, 4, 1, 3]);
    let reversed = reverse_buckets(&sorted);
    assert_eq!(payloads(&reversed), vec![3, 1, 4, 2]);
    assert_eq!(payloads(&arrange(&entries, 3600, true)), vec![3, 1, 4, 2]);
    assert_eq!(payloads(&arrange(&entries, 3600, false)), vec![2, 4, 1, 3]);
}

#[test]
fn equal_keys_leave_the_order_by_start() {
    let entries = vec![entry(8000, 0, 3), entry(100, 0, 1), entry(4000, 0, 2)];
    assert_eq!(payloads(&arrange(&entries, 3600, false)), vec![1, 2, 3]);
    assert_eq!(payloads(&arrange(&entries, 3600, true)), vec![3, 2, 1]);
}

#[test]
fn pages_are_cut_after_skipping() {
    let entries: Vec<Entry<u32>> = (0..7).map(|i| entry(3600 * i as i64 + 5, 0, i)).collect();
    let all = arrange(&entries, 3600, false);
    assert_eq!(payloads(&take_page(&all, 0, 3)), vec![0, 1, 2]);
    assert_eq!(payloads(&take_page(&all, 3, 3)), vec![3, 4, 5]);
    assert_eq!(payloads(&take_page(&all, 6, 3)), vec![6]);
    assert!(take_page(&all, 7, 3).is_empty());
    assert!(take_page(&all, 9, 3).is_empty());
    assert!(take_page(&all, 2, 0).is_empty());
    assert_eq!(payloads(&take_page(&all, 5, usize::MAX)), vec![5, 6]);
}

#[test]
fn pages_put_together_are_the_whole_list() {
    let entries: Vec<Entry<u32>> = (0..23).map(|i| entry(300 * i as i64, (i % 5) as u64, i)).collect();
    for descending in [false, true] {
        let all = arrange(&entries, 300, descending);
        for limit in [1usize, 4, 5, 23, 24, 400] {
            let pages = count_pages(all.len(), limit as i64);
            assert_eq!(pages as usize, (all.len() + limit - 1) / limit);
            let mut joined: Vec<u32> = Vec::new();
            for page in 1..=pages as usize {
                let part = take_page(&all, (page - 1) * limit, limit);
                assert!(!part.is_empty());
                joined.extend(payloads(&part));
            }
            assert_eq!(joined, payloads(&all));
            assert!(take_page(&all, pages as usize * limit, limit).is_empty());
        }
    }
}

#[test]
fn page_count_rounds_up() {
    assert_eq!(count_pages(0, 50), 0);
    assert_eq!(count_pages(1, 50), 1);
    assert_eq!(count_pages(50, 50), 1);
    assert_eq!(count_pages(51, 50), 2);
    assert_eq!(count_pages(400, 400), 1);
    assert_eq!(count_pages(401, 400), 2);
    assert_eq!(count_pages(7, 1), 7);
}
