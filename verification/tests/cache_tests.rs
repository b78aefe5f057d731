use std::hash::{Hash, Hasher};
use super_lotto::cache::manager::CacheKey;
use super_lotto::cache::manager::{CacheConfig, CacheEntry, CacheStats, CacheWarmer, InvalidationStrategy, MultiLevelCacheManager};
use super_lotto::cache::{CacheManager, CacheMetrics};
use super_lotto::error::types::AppError;

#[test]
fn test_cache_entry() {
    let entry = CacheEntry::new("test_value", Some(60_000), 100);

    assert!(!entry.is_expired());
    assert_eq!(entry.access_count, 0);

    let mut entry = entry;
    entry.touch();
    assert_eq!(entry.access_count, 1);
}

#[test]
fn cache_entry_expires_after_its_lifetime() {
    let entry = CacheEntry::new_at(7u32, Some(1000), 8, 5000);
    assert!(!entry.is_expired_at(6000));
    assert!(entry.is_expired_at(6001));
    let forever = CacheEntry::new_at(7u32, None, 8, 5000);
    assert!(!forever.is_expired_at(u64::MAX));
}

#[test]
fn cache_config_defaults() {
    let c = CacheConfig::default();
    assert_eq!(c.max_size_bytes, 100 * 1024 * 1024);
    assert_eq!(c.max_entries, 10000);
    assert_eq!(c.default_ttl_ms, 3_600_000);
    assert_eq!(c.cleanup_interval_ms, 300_000);
    assert_eq!(c.invalidation_strategy, InvalidationStrategy::TimeToLive(3_600_000));
    let s = CacheStats::default();
    assert_eq!(s.hits + s.misses + s.sets + s.evictions, 0);
}

#[test]
fn multi_level_get_after_put() {
    let mut m = MultiLevelCacheManager::new(CacheConfig::default()).unwrap();
    m.put_multi_level_at("k".to_string(), "\"v\"".to_string(), 1000).unwrap();
    assert_eq!(m.get_multi_level_at("k", 1000).unwrap(), Some("\"v\"".to_string()));
    assert_eq!(m.stats().hits, 1);
    assert_eq!(m.stats().sets, 1);
    // The first level forgets after five minutes; the second level answers
    // and counts a miss.
    assert_eq!(m.get_multi_level_at("k", 1000 + 300_000).unwrap(), Some("\"v\"".to_string()));
    assert_eq!(m.stats().misses, 1);
    assert_eq!(m.get_multi_level_at("absent", 1000).unwrap(), None);
    assert_eq!(m.stats().misses, 1);
}

#[test]
fn multi_level_remove_and_clear() {
    let mut m = MultiLevelCacheManager::new(CacheConfig::default()).unwrap();
    m.put_at("a".to_string(), "1".to_string(), 10, 0).unwrap();
    assert!(m.contains_at("a", 5).unwrap());
    assert!(!m.contains_at("a", 10).unwrap());
    assert!(m.remove("a").unwrap());
    assert!(!m.remove("a").unwrap());
    m.put_at("b".to_string(), "2".to_string(), 10, 0).unwrap();
    m.clear().unwrap();
    assert!(!m.contains_at("b", 0).unwrap());
}

#[test]
fn warmer_loads_missing_keys() {
    let mut m = MultiLevelCacheManager::new(CacheConfig::default()).unwrap();
    let keys = vec!["x".to_string(), "bad".to_string()];
    CacheWarmer::warm_common_data_at(&mut m, keys, |k: &str| {
        if k == "bad" {
            Err(AppError::Cache { message: "no".to_string() })
        } else {
            Ok(format!("\"{}\"", k))
        }
    }, 1000, 0).unwrap();
    assert!(m.contains_at("x", 0).unwrap());
    assert!(!m.contains_at("bad", 0).unwrap());
    CacheWarmer::bulk_preload_at(&mut m, || Ok(vec![("p".to_string(), "1".to_string())]), 1000, 0).unwrap();
    assert!(m.contains_at("p", 0).unwrap());
}

#[test]
fn simple_cache_counts_hits_and_misses() {
    let mut c = CacheManager::new(1);
    c.put_at("k".to_string(), "42".to_string(), 100, 0);
    assert_eq!(c.get_at("k", 50), Some("42".to_string()));
    assert_eq!(c.get_at("k", 100), None);
    assert_eq!(c.get_at("k", 0), None);
    assert_eq!(c.get_metrics(), CacheMetrics { hits: 1, misses: 2, total_requests: 3 });
    for i in 0..1001 {
        c.put_at(format!("k{}", i), "x".to_string(), 100, 0);
    }
    assert_eq!(c.get_at("k1000", 0), Some("x".to_string()));
    assert_eq!(c.get_at("k0", 0), None);
    c.clear();
    assert_eq!(c.get_at("k1000", 0), None);
}

struct DrawKey(u32);

impl CacheKey for DrawKey {
    fn generate_key(&self) -> String {
        format!("draw:{}", self.0)
    }
}

#[test]
fn cache_key_hash_is_default_hasher_hex() {
    for k in [DrawKey(0), DrawKey(1), DrawKey(4242)] {
        let mut h = std::collections::hash_map::DefaultHasher::new();
        k.generate_key().hash(&mut h);
        assert_eq!(k.hash(), format!("{:x}", h.finish()));
    }
    assert_ne!(DrawKey(1).hash(), DrawKey(2).hash());
}
