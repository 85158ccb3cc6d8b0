use std::time::Duration;

use forum_api::cache::{CacheEntry, ResultCache, DEFAULT_TTL_SECS};
use forum_api::timing::{checked_millis, millis_or, outlasts};

#[test]
fn entry_holds_its_data() {
    let entry = CacheEntry::new(vec![1u8, 2, 3], Duration::from_secs(300));
    assert_eq!(entry.get_data(), &vec![1u8, 2, 3]);
}

#[test]
fn fresh_entry_is_not_expired() {
    let entry = CacheEntry::new(7u32, Duration::from_secs(300));
    assert!(!entry.is_expired());
}

#[test]
fn entry_expires_strictly_after_its_ttl() {
    let entry = CacheEntry::new(7u32, Duration::from_secs(300));
    assert!(!entry.is_expired_after(&Duration::from_secs(0)));
    assert!(!entry.is_expired_after(&Duration::from_secs(299)));
    assert!(!entry.is_expired_after(&Duration::from_secs(300)));
    assert!(entry.is_expired_after(&Duration::new(300, 1)));
    assert!(entry.is_expired_after(&Duration::from_secs(301)));
}

#[test]
fn outlasts_compares_by_nanoseconds() {
    assert!(outlasts(&Duration::from_millis(2), &Duration::from_millis(1)));
    assert!(!outlasts(&Duration::from_millis(1), &Duration::from_millis(2)));
    assert!(!outlasts(&Duration::from_millis(1), &Duration::from_millis(1)));
    assert!(outlasts(&Duration::new(1, 1), &Duration::new(1, 0)));
    assert!(outlasts(&Duration::MAX, &Duration::from_secs(u64::MAX)));
}

#[test]
fn cache_misses_what_was_never_put() {
    let cache: ResultCache<u32> = ResultCache::new(Duration::from_secs(300));
    assert_eq!(cache.get(1), None);
    assert_eq!(cache.get_after(1, &Duration::from_secs(0)), None);
    assert!(cache.entry(1).is_none());
    assert_eq!(cache.len(), 0);
}

#[test]
fn cache_serves_what_was_put() {
    let mut cache: ResultCache<u32> = ResultCache::new(Duration::from_secs(300));
    cache.put(1, 10);
    cache.put(2, 20);
    assert_eq!(cache.get(1), Some(&10));
    assert_eq!(cache.get(2), Some(&20));
    assert_eq!(cache.get(3), None);
    assert_eq!(cache.len(), 2);
}

#[test]
fn put_overwrites() {
    let mut cache: ResultCache<u32> = ResultCache::new(Duration::from_secs(300));
    cache.put(1, 10);
    cache.put(1, 11);
    assert_eq!(cache.get(1), Some(&11));
    assert_eq!(cache.len(), 1);
}

#[test]
fn lapsed_entry_is_ignored_but_stays() {
    let mut cache: ResultCache<u32> = ResultCache::new(Duration::from_secs(300));
    cache.put(1, 10);
    assert_eq!(cache.get_after(1, &Duration::from_secs(300)), Some(&10));
    assert_eq!(cache.get_after(1, &Duration::from_secs(301)), None);
    assert!(cache.entry(1).is_some());
    assert_eq!(cache.entry(1).unwrap().get_data(), &10);
    assert_eq!(cache.len(), 1);
}

#[test]
fn default_ttl_is_five_minutes() {
    assert_eq!(DEFAULT_TTL_SECS, 300);
    let mut cache: ResultCache<u32> = ResultCache::with_default_ttl();
    cache.put(1, 10);
    assert_eq!(cache.get_after(1, &Duration::from_secs(299)), Some(&10));
    assert_eq!(cache.get_after(1, &Duration::from_secs(300)), Some(&10));
    assert_eq!(cache.get_after(1, &Duration::from_millis(300_001)), None);
}

#[test]
fn zero_ttl_lapses_at_once() {
    let mut cache: ResultCache<u32> = ResultCache::new(Duration::from_secs(0));
    cache.put(1, 10);
    assert_eq!(cache.get_after(1, &Duration::from_secs(0)), Some(&10));
    assert_eq!(cache.get_after(1, &Duration::from_nanos(1)), None);
}

#[test]
fn calendar_accepts_ordinary_moments() {
    assert_eq!(checked_millis(0), Some(0));
    assert_eq!(checked_millis(1_700_000_000_000), Some(1_700_000_000_000));
    assert_eq!(checked_millis(-1), Some(-1));
}

#[test]
fn calendar_refuses_far_moments() {
    assert_eq!(checked_millis(i64::MAX), None);
    assert_eq!(checked_millis(i64::MIN), None);
}

#[test]
fn millis_or_falls_back() {
    assert_eq!(millis_or(5, 9), 5);
    assert_eq!(millis_or(i64::MAX, 9), 9);
}
