use croquette::util::{lazy_zip, Cache};
use std::cell::Cell;

#[test]
fn lazy_zip_pairs_shorter_second_list() {
    let pairs = lazy_zip(vec!["#a", "#b", "#c"], Some(vec!["k1"])).collect();
    assert_eq!(pairs, vec![("#a", Some("k1")), ("#b", None), ("#c", None)]);
}

#[test]
fn lazy_zip_without_second_list() {
    let pairs = lazy_zip(vec![1u8, 2, 3], None::<Vec<char>>).collect();
    assert_eq!(pairs, vec![(1, None), (2, None), (3, None)]);
}

#[test]
fn lazy_zip_stops_with_first_list() {
    let pairs = lazy_zip(vec![1u8, 2], Some(vec!['a', 'b', 'c', 'd'])).collect();
    assert_eq!(pairs, vec![(1, Some('a')), (2, Some('b'))]);
}

#[test]
fn lazy_zip_equal_lengths() {
    let pairs = lazy_zip(vec![1u8, 2], Some(vec!['a', 'b'])).collect();
    assert_eq!(pairs, vec![(1, Some('a')), (2, Some('b'))]);
}

#[test]
fn lazy_zip_empty_first_list() {
    let pairs = lazy_zip(Vec::<u8>::new(), Some(vec!['a'])).collect();
    assert!(pairs.is_empty());
}

#[test]
fn lazy_zip_next_steps_in_order() {
    let mut zip = lazy_zip(vec!["x", "y"], Some(vec![7u32]));
    assert_eq!(zip.next(), Some(("x", Some(7))));
    assert_eq!(zip.next(), Some(("y", None)));
    assert_eq!(zip.next(), None);
    assert_eq!(zip.next(), None);
}

#[test]
fn lazy_zip_empty_second_list() {
    let pairs = lazy_zip(vec![1u8, 2], Some(Vec::<char>::new())).collect();
    assert_eq!(pairs, vec![(1, None), (2, None)]);
}

#[test]
fn cache_remembers_what_it_sent() {
    let n = Cell::new(0u32);
    let mut cache = Cache::new(
        || {
            n.set(n.get() + 1);
            n.get()
        },
        4,
    );
    assert!(!cache.sent(&1));
    assert_eq!(cache.send(), 1);
    assert_eq!(cache.send(), 2);
    assert!(cache.sent(&1));
    assert!(cache.sent(&2));
    assert!(!cache.sent(&3));
}

#[test]
fn cache_forgets_oldest_first() {
    let n = Cell::new(0u32);
    let mut cache = Cache::new(
        || {
            n.set(n.get() + 1);
            n.get()
        },
        3,
    );
    for expected in 1..=3u32 {
        assert_eq!(cache.send(), expected);
    }
    assert!(cache.sent(&1) && cache.sent(&2) && cache.sent(&3));
    assert_eq!(cache.send(), 4);
    assert!(!cache.sent(&1));
    assert!(cache.sent(&2) && cache.sent(&3) && cache.sent(&4));
    assert_eq!(cache.send(), 5);
    assert!(!cache.sent(&2));
    assert!(cache.sent(&3) && cache.sent(&4) && cache.sent(&5));
}

#[test]
fn cache_ring_keeps_exactly_the_last_256() {
    let n = Cell::new(0u32);
    let mut cache = Cache::new(
        || {
            n.set(n.get() + 1);
            n.get()
        },
        256,
    );
    for _ in 0..1000 {
        cache.send();
    }
    for id in 1..=744u32 {
        assert!(!cache.sent(&id), "{} should be forgotten", id);
    }
    for id in 745..=1000u32 {
        assert!(cache.sent(&id), "{} should be remembered", id);
    }
    assert!(!cache.sent(&1001));
}

#[test]
fn cache_wraps_around_more_than_once() {
    let n = Cell::new(0u32);
    let mut cache = Cache::new(
        || {
            n.set(n.get() + 1);
            n.get()
        },
        2,
    );
    for _ in 0..7 {
        cache.send();
    }
    assert!(!cache.sent(&5));
    assert!(cache.sent(&6));
    assert!(cache.sent(&7));
}

#[test]
fn cache_record_takes_any_identifier() {
    let mut cache = Cache::new(|| 0u32, 2);
    cache.record(10);
    cache.record(11);
    assert!(cache.sent(&10) && cache.sent(&11));
    cache.record(12);
    assert!(!cache.sent(&10));
    assert!(cache.sent(&11) && cache.sent(&12));
}

#[test]
fn cache_without_capacity_remembers_nothing() {
    let mut cache = Cache::new(|| 9u32, 0);
    assert_eq!(cache.send(), 9);
    assert!(!cache.sent(&9));
}
