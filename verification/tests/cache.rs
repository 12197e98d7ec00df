use moka::Expiry;
use wirecache::cache::store::TtlExpiry;
use wirecache::cache::store::Entry;
use wirecache::cache::stats::{CacheStats, StatsSnapshot};
use wirecache::cache::store::{expiry_secs, CacheStore};

#[test]
fn counters_start_at_zero_and_count() {
    let mut s = CacheStats::new();
    assert_eq!(s, CacheStats { hits: 0, misses: 0, sets: 0, deletes: 0, flushes: 0 });
    s.hit();
    s.hit();
    s.miss();
    s.set();
    s.delete();
    s.flush();
    s.flush();
    assert_eq!(
        s.snapshot(),
        StatsSnapshot { hits: 2, misses: 1, sets: 1, deletes: 1, flushes: 2 }
    );
}

#[test]
fn counters_wrap_like_atomics() {
    let mut s = CacheStats::new();
    s.hits = u64::MAX;
    s.hit();
    assert_eq!(s.hits, 0);
    assert_eq!(s.misses, 0);
}

#[test]
fn snapshot_json() {
    let snap = StatsSnapshot { hits: 3, misses: 1, sets: 10, deletes: 0, flushes: 2 };
    assert_eq!(
        snap.to_json("75.00"),
        r#"{"hits":3,"misses":1,"sets":10,"deletes":0,"flushes":2,"hit_rate_pct":75.00}"#
    );
}

#[test]
fn report_json_with_entries_and_large_numbers() {
    let snap = StatsSnapshot { hits: u64::MAX, misses: 1234567890, sets: 9, deletes: 10, flushes: 100 };
    assert_eq!(
        snap.report_json(0, "100.00"),
        r#"{"entries":0,"hits":18446744073709551615,"misses":1234567890,"sets":9,"deletes":10,"flushes":100,"hit_rate_pct":100.00}"#
    );
}

#[test]
fn ttl_policy() {
    assert_eq!(expiry_secs(0), None);
    assert_eq!(expiry_secs(1), Some(1));
    assert_eq!(expiry_secs(u32::MAX), Some(u32::MAX as u64));
}

#[test]
fn new_store_is_empty() {
    let mut store = CacheStore::new(100);
    assert_eq!(store.get(b"nothing"), None);
    assert_eq!(store.entry_count(), 0);
    assert_eq!(store.stats().snapshot(), StatsSnapshot { hits: 0, misses: 1, sets: 0, deletes: 0, flushes: 0 });
}

#[test]
fn set_then_get() {
    let mut store = CacheStore::new(100);
    store.set(b"k".to_vec(), b"v1".to_vec(), 0);
    assert_eq!(store.get(b"k"), Some(b"v1".to_vec()));
    store.set(b"k".to_vec(), b"v2".to_vec(), 0);
    assert_eq!(store.get(b"k"), Some(b"v2".to_vec()));
    assert_eq!(store.get(b"other"), None);
    let s = store.stats().snapshot();
    assert_eq!((s.sets, s.hits, s.misses), (2, 2, 1));
}

#[test]
fn del_reports_presence_and_counts_only_real_deletes() {
    let mut store = CacheStore::new(100);
    store.set(b"k".to_vec(), b"v".to_vec(), 0);
    assert!(store.del(b"k"));
    assert_eq!(store.get(b"k"), None);
    assert!(!store.del(b"k"));
    assert!(!store.del(b"never"));
    assert_eq!(store.stats().deletes, 1);
}

#[test]
fn flush_empties_everything() {
    let mut store = CacheStore::new(100);
    store.set(b"a".to_vec(), b"1".to_vec(), 0);
    store.set(b"b".to_vec(), b"2".to_vec(), 0);
    store.set(b"c".to_vec(), b"3".to_vec(), 0);
    store.flush();
    assert_eq!(store.get(b"a"), None);
    assert_eq!(store.get(b"b"), None);
    assert_eq!(store.entry_count(), 0);
    assert_eq!(store.stats().flushes, 1);
    store.set(b"a".to_vec(), b"again".to_vec(), 0);
    assert_eq!(store.get(b"a"), Some(b"again".to_vec()));
}

#[test]
fn entry_count_after_maintenance() {
    let mut store = CacheStore::new(100);
    store.set(b"a".to_vec(), b"1".to_vec(), 0);
    store.set(b"b".to_vec(), b"2".to_vec(), 0);
    store.flush();
    store.set(b"c".to_vec(), b"3".to_vec(), 0);
    store.set(b"d".to_vec(), b"4".to_vec(), 0);
    store.flush();
    assert_eq!(store.entry_count(), 0);
}

#[test]
fn entries_expire_after_their_ttl() {
    let mut store = CacheStore::new(100);
    store.set(b"short".to_vec(), b"v".to_vec(), 1);
    store.set(b"forever".to_vec(), b"w".to_vec(), 0);
    assert_eq!(store.get(b"short"), Some(b"v".to_vec()));
    let t0 = std::time::Instant::now();
    while t0.elapsed() < std::time::Duration::from_millis(1300) {
        std::hint::spin_loop();
    }
    assert_eq!(store.get(b"short"), None);
    assert_eq!(store.get(b"forever"), Some(b"w".to_vec()));
}

#[test]
fn count_lookup_outcomes() {
    let mut store = CacheStore::new(10);
    let r = store.count_lookup(Some(Entry { data: b"abc".to_vec(), ttl_secs: 9 }));
    assert_eq!(r, Some(b"abc".to_vec()));
    assert_eq!(store.count_lookup(None), None);
    let s = store.stats().snapshot();
    assert_eq!((s.hits, s.misses), (1, 1));
}

#[test]
fn ttl_expiry_policy_durations() {
    let now = std::time::Instant::now();
    let key = b"k".to_vec();
    let timed = Entry { data: b"v".to_vec(), ttl_secs: 7 };
    assert_eq!(
        TtlExpiry.expire_after_create(&key, &timed, now),
        Some(std::time::Duration::from_secs(7))
    );
    let forever = Entry { data: b"v".to_vec(), ttl_secs: 0 };
    assert_eq!(TtlExpiry.expire_after_create(&key, &forever, now), None);
}

#[test]
fn capacity_zero_holds_nothing() {
    let mut store = CacheStore::new(0);
    store.set(b"k".to_vec(), b"v".to_vec(), 0);
    assert_eq!(store.get(b"k"), None);
    let mut roomy = CacheStore::new(1);
    roomy.set(b"k".to_vec(), b"v".to_vec(), 0);
    assert_eq!(roomy.get(b"k"), Some(b"v".to_vec()));
}

#[test]
fn set_applies_its_new_ttl() {
    let mut store = CacheStore::new(100);
    store.set(b"keep".to_vec(), b"v1".to_vec(), 1);
    store.set(b"keep".to_vec(), b"v2".to_vec(), 0);
    store.set(b"drop".to_vec(), b"w1".to_vec(), 0);
    store.set(b"drop".to_vec(), b"w2".to_vec(), 1);
    let t0 = std::time::Instant::now();
    while t0.elapsed() < std::time::Duration::from_millis(1300) {
        std::hint::spin_loop();
    }
    assert_eq!(store.get(b"keep"), Some(b"v2".to_vec()));
    assert_eq!(store.get(b"drop"), None);
}

#[test]
fn many_hits_wrap_without_loss() {
    let mut s = CacheStats::new();
    s.hits = u64::MAX - 1;
    s.misses = 7;
    for _ in 0..3 {
        s.hit();
    }
    assert_eq!(s.hits, 1);
    assert_eq!(s.misses, 7);
}

#[test]
fn count_removal_outcomes() {
    let mut store = CacheStore::new(10);
    store.set(b"k".to_vec(), b"v".to_vec(), 0);
    assert!(store.count_removal(true));
    assert!(!store.count_removal(false));
    assert_eq!(store.stats().deletes, 1);
    // Counting touches no entry.
    assert_eq!(store.get(b"k"), Some(b"v".to_vec()));
}
