use rnga::cache::memory::CacheEntry;
use rnga::cache::MemoryCache;
use std::time::Duration;

#[test]
fn test_basic_operations() {
    let mut cache = MemoryCache::new();

    cache.set("key1", b"value1", None);
    assert_eq!(cache.get("key1"), Some(b"value1".to_vec()));

    cache.remove("key1");
    assert_eq!(cache.get("key1"), None);
}

#[test]
fn test_scan_prefix() {
    let mut cache = MemoryCache::new();

    cache.set("prefix/a", b"1", None);
    cache.set("prefix/b", b"2", None);
    cache.set("other/c", b"3", None);

    let keys = cache.scan_prefix("prefix/");
    assert_eq!(keys.len(), 2);
    assert!(keys.iter().all(|k| k.starts_with("prefix/")));
}

#[test]
fn test_ttl_expiry() {
    let mut cache = MemoryCache::new();

    cache.set_at("key", b"value", Some(60), 1000);

    assert!(cache.get_at("key", 1000).is_some());

    assert!(cache.get_at("key", 1100).is_none());
}

#[test]
fn test_clear() {
    let mut cache = MemoryCache::new();

    cache.set("a", b"1", None);
    cache.set("b", b"2", None);

    cache.clear();

    assert!(cache.get("a").is_none());
    assert!(cache.get("b").is_none());
}

#[test]
fn expiry_is_decided_on_read() {
    let mut cache = MemoryCache::new();
    cache.set_at("k", b"v", Some(10), 100);
    assert_eq!(cache.get_at("k", 110), Some(b"v".to_vec()));
    assert_eq!(cache.get_at("k", 111), None);
    assert_eq!(cache.get_at("k", 0), Some(b"v".to_vec()));
    assert_eq!(cache.scan_prefix("k"), vec!["k"]);
    cache.set_at("k", b"w", None, 200);
    assert_eq!(cache.get_at("k", u128::MAX), Some(b"w".to_vec()));
    cache.set_at("far", b"x", Some(u128::MAX), 5);
    assert_eq!(cache.get_at("far", u128::MAX), Some(b"x".to_vec()));
    cache.set_at("zero", b"y", Some(0), 7);
    assert_eq!(cache.get_at("zero", 7), Some(b"y".to_vec()));
    assert_eq!(cache.get_at("zero", 8), None);
    assert_eq!(cache.get_at("missing", 0), None);
}

#[test]
fn cleanup_removes_what_has_expired() {
    let mut cache = MemoryCache::new();
    cache.set_at("a", b"1", Some(10), 0);
    cache.set_at("b", b"2", Some(20), 0);
    cache.set_at("c", b"3", None, 0);
    cache.set_at("d", b"4", Some(5), 0);
    cache.cleanup_at(15);
    let mut keys = cache.scan_prefix("");
    keys.sort();
    assert_eq!(keys, vec!["b", "c"]);
    assert_eq!(cache.get_at("b", 15), Some(b"2".to_vec()));
    cache.cleanup_at(20);
    assert_eq!(cache.scan_prefix("").len(), 2);
    cache.cleanup_at(21);
    assert_eq!(cache.scan_prefix(""), vec!["c"]);
    cache.cleanup();
    assert_eq!(cache.get("c"), Some(b"3".to_vec()));
    cache.remove("never there");
    cache.set("ttl", b"5", Some(Duration::from_secs(3600)));
    assert_eq!(cache.get("ttl"), Some(b"5".to_vec()));
    assert!(cache.now() < 3_600_000);
}

#[test]
fn entries() {
    let entry = CacheEntry::new(vec![1, 2], Some(5), 10);
    assert_eq!(entry.expires_at, Some(15));
    assert!(!entry.is_expired(15));
    assert!(entry.is_expired(16));
    let forever = CacheEntry::new(vec![], None, 10);
    assert_eq!(forever.expires_at, None);
    assert!(!forever.is_expired(u128::MAX));
    assert_eq!(CacheEntry::new(vec![], Some(2), u128::MAX - 1).expires_at, Some(u128::MAX));
}
