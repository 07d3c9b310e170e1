//! Behavior of the stampede-safe cache engine and its two wirings.

use authcache::cache::{cold_key_fill_round, shared_lock_round, KeyLockTable, StampedeSafeCache};
use authcache::caches::{MembershipRecord, OrgMembershipCache, PublicListingsCache};

#[test]
fn singleflight_cold_key_fetches_once() {
    let mut cache: StampedeSafeCache<i64> = StampedeSafeCache::new(10, 16);
    let key = "tenant:alice".to_string();
    let fetches = cold_key_fill_round(&mut cache, &key, 100, 42, 7);
    assert_eq!(fetches, 1);
    assert_eq!(cache.get(&key, 105), Some(&42));
}

#[test]
fn singleflight_callers_share_one_lock() {
    let mut table = KeyLockTable::new(100);
    let key = "tenant:alice".to_string();
    assert!(shared_lock_round(&mut table, &key, 9));
    let again = table.key_lock(&key);
    assert_eq!(again, table.key_lock(&key));
}

#[test]
fn lock_table_overflow_hands_out_new_generation() {
    let mut table = KeyLockTable::new(2);
    let a = table.key_lock(&"a".to_string());
    let _ = table.key_lock(&"b".to_string());
    // the table is now at its threshold: the next request clears it
    let a_after_clear = table.key_lock(&"a".to_string());
    assert_ne!(a, a_after_clear);
}

#[test]
fn ttl_expiry_boundary() {
    let mut cache: StampedeSafeCache<i64> = StampedeSafeCache::new(5, 16);
    cache.put("k".to_string(), 1, 100);
    assert_eq!(cache.get(&"k".to_string(), 104), Some(&1));
    assert_eq!(cache.get(&"k".to_string(), 105), None);
    // the expired entry was removed on the read path
    assert_eq!(cache.len(), 0);
}

#[test]
fn invalidate_removes_before_ttl() {
    let mut cache: StampedeSafeCache<i64> = StampedeSafeCache::new(1000, 16);
    cache.put("k".to_string(), 7, 0);
    cache.invalidate(&"k".to_string());
    assert_eq!(cache.get(&"k".to_string(), 1), None);
}

#[test]
fn overflow_clears_whole_table() {
    // ttl=5s, max_entries=2: after three puts only the last entry
    // survives, by the wholesale-clear policy, not the LRU-expected
    // last two.
    let mut cache: StampedeSafeCache<i64> = StampedeSafeCache::new(5, 2);
    cache.put("a".to_string(), 1, 0);
    cache.put("b".to_string(), 2, 0);
    cache.put("c".to_string(), 3, 0);
    assert_eq!(cache.len(), 1);
    assert_eq!(cache.get(&"c".to_string(), 1), Some(&3));
    assert_eq!(cache.get(&"a".to_string(), 1), None);
    assert_eq!(cache.get(&"b".to_string(), 1), None);
}

#[test]
fn overflow_sweeps_expired_before_clearing() {
    let mut cache: StampedeSafeCache<i64> = StampedeSafeCache::new(5, 2);
    cache.put("a".to_string(), 1, 0);
    cache.put("b".to_string(), 2, 3);
    // at tick 6 the entry for "a" is expired: the third put sweeps it
    // and keeps "b"
    cache.put("c".to_string(), 3, 6);
    assert_eq!(cache.len(), 2);
    assert_eq!(cache.get(&"b".to_string(), 7), Some(&2));
    assert_eq!(cache.get(&"c".to_string(), 7), Some(&3));
}

#[test]
fn membership_cache_negative_entry_is_cached() {
    let mut cache = OrgMembershipCache::new(60, 200);
    let user = "u1".to_string();
    let org = "o1".to_string();
    assert!(cache.get(&user, &org, 0).is_none());
    cache.put(&user, &org, None, 0);
    // a cached negative is Some(None), distinct from "never looked up"
    assert!(matches!(cache.get(&user, &org, 1), Some(None)));
}

#[test]
fn membership_cache_round_trip_and_invalidate() {
    let mut cache = OrgMembershipCache::new(60, 200);
    let user = "u1".to_string();
    let org = "o1".to_string();
    let record = MembershipRecord { role: "admin".to_string(), status: "active".to_string() };
    cache.put(&user, &org, Some(record), 0);
    let hit = cache.get(&user, &org, 10).expect("entry should be fresh");
    let record = hit.expect("entry should be a positive membership");
    assert_eq!(record.role, "admin");
    assert_eq!(record.status, "active");
    cache.invalidate(&user, &org);
    assert!(cache.get(&user, &org, 10).is_none());
}

#[test]
fn membership_cache_keys_do_not_collide_across_orgs() {
    let mut cache = OrgMembershipCache::new(60, 200);
    let record = MembershipRecord { role: "viewer".to_string(), status: "active".to_string() };
    cache.put(&"u1".to_string(), &"o1".to_string(), Some(record), 0);
    assert!(cache.get(&"u1".to_string(), &"o2".to_string(), 1).is_none());
    assert!(cache.get(&"u2".to_string(), &"o1".to_string(), 1).is_none());
}

#[test]
fn listings_cache_clear_drops_everything() {
    let mut cache = PublicListingsCache::new(60, 200);
    cache.put("page=1".to_string(), "<page one>".to_string(), 0);
    cache.put("page=2".to_string(), "<page two>".to_string(), 0);
    assert_eq!(cache.get(&"page=1".to_string(), 1), Some("<page one>".to_string()));
    cache.clear();
    assert_eq!(cache.get(&"page=1".to_string(), 1), None);
    assert_eq!(cache.get(&"page=2".to_string(), 1), None);
}

#[test]
fn membership_cache_honors_configured_ttl_and_capacity() {
    // the configured values are taken exactly as given, per instance
    let mut cache = OrgMembershipCache::new(5, 2);
    let org = "o1".to_string();
    let record = MembershipRecord { role: "admin".to_string(), status: "active".to_string() };
    cache.put(&"u1".to_string(), &org, Some(record), 0);
    cache.put(&"u2".to_string(), &org, None, 0);
    cache.put(&"u3".to_string(), &org, None, 0);
    // clear-on-overflow at the configured capacity of two
    assert!(cache.get(&"u1".to_string(), &org, 1).is_none());
    assert!(cache.get(&"u2".to_string(), &org, 1).is_none());
    assert!(matches!(cache.get(&"u3".to_string(), &org, 1), Some(None)));
    // and the configured TTL of five ticks
    assert!(cache.get(&"u3".to_string(), &org, 5).is_none());
}

#[test]
fn listings_cache_overflow_scenario_at_configured_capacity() {
    // ttl=5s, max_entries=2: put "a", "b", "c" and the table ends as
    // exactly {"c"}, by the wholesale clear, at the wiring too
    let mut cache = PublicListingsCache::new(5, 2);
    cache.put("a".to_string(), "1".to_string(), 0);
    cache.put("b".to_string(), "2".to_string(), 0);
    cache.put("c".to_string(), "3".to_string(), 0);
    assert_eq!(cache.get(&"c".to_string(), 1), Some("3".to_string()));
    assert_eq!(cache.get(&"a".to_string(), 1), None);
    assert_eq!(cache.get(&"b".to_string(), 1), None);
}
