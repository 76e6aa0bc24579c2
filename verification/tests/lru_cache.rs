use rotappo::cache::TimedLruCache;

#[test]
fn get_after_insert_within_ttl() {
    let mut c: TimedLruCache<u32> = TimedLruCache::new(100, 4);
    c.insert_at("k".to_string(), 7, 0);
    assert_eq!(c.get_at(&"k".to_string(), 99), Some(&7));
}

#[test]
fn entry_expires_at_its_deadline() {
    let mut c: TimedLruCache<u32> = TimedLruCache::new(100, 4);
    c.insert_at("k".to_string(), 7, 0);
    assert_eq!(c.get_at(&"k".to_string(), 100), None);
}

#[test]
fn least_recently_used_is_evicted_over_capacity() {
    let mut c: TimedLruCache<u32> = TimedLruCache::new(1_000, 2);
    c.insert_at("a".to_string(), 1, 0);
    c.insert_at("b".to_string(), 2, 1);
    assert_eq!(c.get_at(&"a".to_string(), 2), Some(&1));
    c.insert_at("c".to_string(), 3, 3);
    assert_eq!(c.get_at(&"b".to_string(), 4), None);
    assert_eq!(c.get_at(&"a".to_string(), 4), Some(&1));
    assert_eq!(c.get_at(&"c".to_string(), 4), Some(&3));
}

#[test]
fn reinsert_replaces_value_and_deadline() {
    let mut c: TimedLruCache<u32> = TimedLruCache::new(10, 2);
    c.insert_at("a".to_string(), 1, 0);
    c.insert_at("a".to_string(), 2, 8);
    assert_eq!(c.get_at(&"a".to_string(), 15), Some(&2));
}

#[test]
fn zero_capacity_keeps_nothing() {
    let mut c: TimedLruCache<u32> = TimedLruCache::new(10, 0);
    c.insert_at("a".to_string(), 1, 0);
    assert_eq!(c.get_at(&"a".to_string(), 0), None);
}

#[test]
fn deadline_saturates() {
    let mut c: TimedLruCache<u32> = TimedLruCache::new(u64::MAX, 1);
    c.insert_at("a".to_string(), 1, 5);
    assert_eq!(c.get_at(&"a".to_string(), u64::MAX - 1), Some(&1));
}

#[test]
fn wall_clock_insert_then_get() {
    let mut c: TimedLruCache<&str> = TimedLruCache::new(60_000, 8);
    c.insert("x".to_string(), "y");
    assert_eq!(c.get(&"x".to_string()), Some(&"y"));
}
