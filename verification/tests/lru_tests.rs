//! Tests of the LRU cache: filling, eviction, promotion, resizing.

use batch_system::lru::LruCache;

#[test]
fn test_insert() {
    let mut map = LruCache::with_capacity(10);
    for i in 0..10 {
        map.insert(i, i);
    }
}

#[test]
fn fill_to_capacity_keeps_every_key() {
    let mut cache: LruCache<u64> = LruCache::with_capacity(10);
    for i in 0..10u64 {
        cache.insert(i, i * 100);
    }
    assert_eq!(cache.len(), 10);
    assert_eq!(cache.size(), 10);
    assert_eq!(cache.capacity(), 10);
    for i in 0..10u64 {
        assert_eq!(cache.get(&i).copied(), Some(i * 100));
    }
}

#[test]
fn capacity_one_insert_always_evicts() {
    // a cache of one slot holds exactly the latest key
    let mut cache: LruCache<u64> = LruCache::with_capacity(1);
    for i in 0..5u64 {
        cache.insert(i, i);
        assert_eq!(cache.size(), 1);
        assert_eq!(cache.len(), 1);
        assert_eq!(cache.get(&i).copied(), Some(i));
        if i > 0 {
            assert!(cache.get(&(i - 1)).is_none());
        }
    }
}

#[test]
fn insert_beyond_capacity_evicts_least_recent() {
    let mut cache: LruCache<u64> = LruCache::with_capacity(3);
    cache.insert(1, 10);
    cache.insert(2, 20);
    cache.insert(3, 30);
    // key 1 is now the least recent record
    cache.insert(4, 40);
    assert_eq!(cache.len(), 3);
    assert!(cache.get(&1).is_none());
    assert_eq!(cache.get(&2).copied(), Some(20));
    assert_eq!(cache.get(&3).copied(), Some(30));
    assert_eq!(cache.get(&4).copied(), Some(40));
}

#[test]
fn insert_present_key_overwrites_and_promotes() {
    let mut cache: LruCache<u64> = LruCache::with_capacity(2);
    cache.insert(1, 10);
    cache.insert(2, 20);
    cache.insert(1, 11);
    // key 1 was promoted, so inserting a third key evicts key 2
    cache.insert(3, 30);
    assert_eq!(cache.get(&1).copied(), Some(11));
    assert!(cache.get(&2).is_none());
    assert_eq!(cache.get(&3).copied(), Some(30));
}

#[test]
fn remove_returns_the_value_once() {
    let mut cache: LruCache<u64> = LruCache::with_capacity(4);
    cache.insert(7, 70);
    cache.insert(8, 80);
    assert_eq!(cache.remove(&7), Some(70));
    assert_eq!(cache.remove(&7), None);
    assert_eq!(cache.len(), 1);
    assert!(!cache.is_empty());
    assert_eq!(cache.remove(&8), Some(80));
    assert!(cache.is_empty());
}

#[test]
fn resize_shrinks_to_the_new_capacity() {
    let mut cache: LruCache<u64> = LruCache::with_capacity(8);
    for i in 0..8u64 {
        cache.insert(i, i);
    }
    cache.resize(3);
    assert_eq!(cache.capacity(), 3);
    assert_eq!(cache.len(), 3);
    // the three most recent keys survive
    assert!(cache.get(&5).is_some());
    assert!(cache.get(&6).is_some());
    assert!(cache.get(&7).is_some());
    assert!(cache.get(&0).is_none());
}

#[test]
fn resize_zero_keeps_one_slot() {
    let mut cache: LruCache<u64> = LruCache::with_capacity(4);
    for i in 0..4u64 {
        cache.insert(i, i);
    }
    cache.resize(0);
    assert_eq!(cache.capacity(), 1);
    assert_eq!(cache.len(), 1);
}

#[test]
fn resize_growing_keeps_everything() {
    let mut cache: LruCache<u64> = LruCache::with_capacity(2);
    cache.insert(1, 1);
    cache.insert(2, 2);
    cache.resize(10);
    assert_eq!(cache.capacity(), 10);
    assert_eq!(cache.len(), 2);
    cache.insert(3, 3);
    assert_eq!(cache.len(), 3);
}

#[test]
fn sampled_promotion_skips_most_reads() {
    // with mask 0 every read promotes: reading key 1 saves it, so
    // key 2 is evicted
    let mut eager: LruCache<u64> = LruCache::with_capacity_and_sample(2, 0);
    eager.insert(1, 1);
    eager.insert(2, 2);
    assert!(eager.get(&1).is_some());
    eager.insert(3, 3);
    assert!(eager.get(&1).is_some());
    assert!(eager.get(&2).is_none());

    // with mask 7 only every eighth tick promotes: the same read does
    // not save key 1, and it is the one evicted
    let mut sampled: LruCache<u64> = LruCache::with_capacity_and_sample(2, 7);
    sampled.insert(1, 1);
    sampled.insert(2, 2);
    assert!(sampled.get(&1).is_some());
    sampled.insert(3, 3);
    assert!(sampled.get(&1).is_none());
    assert!(sampled.get(&2).is_some());
}

#[test]
fn clear_empties_but_keeps_capacity() {
    let mut cache: LruCache<u64> = LruCache::with_capacity(5);
    for i in 0..5u64 {
        cache.insert(i, i);
    }
    cache.clear();
    assert!(cache.is_empty());
    assert_eq!(cache.size(), 0);
    assert_eq!(cache.capacity(), 5);
    cache.insert(9, 9);
    assert_eq!(cache.get(&9).copied(), Some(9));
}

#[test]
fn get_mut_writes_through() {
    let mut cache: LruCache<u64> = LruCache::with_capacity(3);
    cache.insert(1, 10);
    if let Some(v) = cache.get_mut(&1) {
        *v = 99;
    }
    assert_eq!(cache.get(&1).copied(), Some(99));
    assert!(cache.get_mut(&2).is_none());
}

#[test]
fn iter_walks_a_snapshot_most_recent_first() {
    let mut cache: LruCache<u64> = LruCache::with_capacity(4);
    cache.insert(1, 10);
    cache.insert(2, 20);
    cache.insert(3, 30);
    let mut iter = cache.iter();
    let mut seen: Vec<(u64, u64)> = Vec::new();
    while let Some(p) = iter.next() {
        seen.push(*p);
    }
    assert_eq!(seen, vec![(3, 30), (2, 20), (1, 10)]);
}
