use std::time::Duration;
use weathrs::cache::{normalize_cache_key, TtlCache};

#[test]
fn test_cache_insert_and_get() {
    let mut cache: TtlCache<String> = TtlCache::new(Duration::from_secs(60));
    cache.insert("key".to_string(), "value".to_string());
    assert_eq!(cache.get(&"key".to_string()), Some("value".to_string()));
}

#[test]
fn test_cache_miss() {
    let mut cache: TtlCache<String> = TtlCache::new(Duration::from_secs(60));
    assert_eq!(cache.get(&"missing".to_string()), None);
}

#[test]
fn test_normalize_cache_key() {
    assert_eq!(normalize_cache_key("  Chicago  "), "chicago");
    assert_eq!(normalize_cache_key("NEW YORK"), "new york");
    assert_eq!(normalize_cache_key("London,GB"), "london,gb");
}

#[test]
fn normalized_spellings_collide() {
    assert_eq!(normalize_cache_key("  Chicago  "), normalize_cache_key("CHICAGO"));
    assert_eq!(normalize_cache_key(" chicago "), "chicago");
}

#[test]
fn cache_expiry_evicts_on_read() {
    let mut cache: TtlCache<String> = TtlCache::with_ttl_millis(10);
    cache.insert_at("key".to_string(), "value".to_string(), 1000);
    assert_eq!(cache.get_at(&"key".to_string(), 1000), Some("value".to_string()));
    assert_eq!(cache.get_at(&"key".to_string(), 1009), Some("value".to_string()));
    assert_eq!(cache.len(), 1);
    assert_eq!(cache.get_at(&"key".to_string(), 1010), None);
    assert_eq!(cache.len(), 0);
}

#[test]
fn cache_cleanup_keeps_live_entries() {
    let mut cache: TtlCache<String> = TtlCache::with_ttl_millis(10);
    cache.insert_at("key1".to_string(), "value1".to_string(), 0);
    cache.insert_at("key2".to_string(), "value2".to_string(), 5);
    cache.insert_at("key3".to_string(), "value3".to_string(), 20);
    cache.cleanup_at(15);
    assert_eq!(cache.len(), 1);
    assert_eq!(cache.get_at(&"key3".to_string(), 15), Some("value3".to_string()));
    cache.cleanup_at(100);
    assert!(cache.is_empty());
}

#[test]
fn cache_reinsert_replaces_and_resets_ttl() {
    let mut cache: TtlCache<String> = TtlCache::with_ttl_millis(10);
    cache.insert_at("k".to_string(), "old".to_string(), 0);
    cache.insert_at("k".to_string(), "new".to_string(), 8);
    assert_eq!(cache.len(), 1);
    assert_eq!(cache.get_at(&"k".to_string(), 15), Some("new".to_string()));
}
