//! Tests for the recency cache and the cache manager.

use evobot_sequence_native::{CacheManager, LRUCache, SequenceData};

#[test]
fn test_lru_basic_operations() {
    let mut cache = LRUCache::new(2);

    cache.put("a", 1);
    cache.put("b", 2);

    assert_eq!(cache.get(&"a"), Some(&1));
    assert_eq!(cache.get(&"b"), Some(&2));
    assert_eq!(cache.len(), 2);
}

#[test]
fn test_lru_eviction() {
    let mut cache = LRUCache::new(2);

    cache.put("a", 1);
    cache.put("b", 2);
    cache.put("c", 3); // Should evict "a"

    assert_eq!(cache.get(&"a"), None);
    assert_eq!(cache.get(&"b"), Some(&2));
    assert_eq!(cache.get(&"c"), Some(&3));
}

#[test]
fn lru_eviction_order_no_reads() {
    // Capacity 2: inserting a, b, c with no intervening reads evicts a.
    let mut cache = LRUCache::new(2);
    cache.put("a", 10);
    cache.put("b", 20);
    cache.put("c", 30);
    assert_eq!(cache.len(), 2);
    assert_eq!(cache.get(&"a"), None);
    assert_eq!(cache.get(&"b"), Some(&20));
    assert_eq!(cache.get(&"c"), Some(&30));
}

#[test]
fn lru_get_refreshes_recency() {
    let mut cache = LRUCache::new(2);
    cache.put("a", 1);
    cache.put("b", 2);
    // Touch "a": now "b" is the least recently used.
    assert_eq!(cache.get(&"a"), Some(&1));
    cache.put("c", 3);
    assert_eq!(cache.get(&"a"), Some(&1));
    assert_eq!(cache.get(&"b"), None);
    assert_eq!(cache.get(&"c"), Some(&3));
}

#[test]
fn lru_update_does_not_evict() {
    let mut cache = LRUCache::new(2);
    cache.put("a", 1);
    cache.put("b", 2);
    cache.put("a", 9);
    assert_eq!(cache.len(), 2);
    assert_eq!(cache.get(&"a"), Some(&9));
    assert_eq!(cache.get(&"b"), Some(&2));
}

#[test]
fn lru_remove_and_clear() {
    let mut cache = LRUCache::new(3);
    cache.put("a", 1);
    cache.put("b", 2);
    assert_eq!(cache.remove(&"a"), Some(1));
    assert_eq!(cache.remove(&"a"), None);
    assert_eq!(cache.len(), 1);
    assert!(!cache.is_empty());
    assert_eq!(cache.capacity(), 3);
    cache.clear();
    assert!(cache.is_empty());
    assert_eq!(cache.len(), 0);
}

#[test]
fn lru_string_keys() {
    let mut cache: LRUCache<String, u32> = LRUCache::new(2);
    cache.put("left".to_string(), 7);
    assert_eq!(cache.get(&"left".to_string()), Some(&7));
    assert_eq!(cache.get(&"right".to_string()), None);
}

#[test]
fn manager_hit_rate_arithmetic() {
    // One miss then one hit on a cleared manager: hit rate is one half.
    let mut manager = CacheManager::new(10);
    manager.clear();
    assert!(manager.get("seq").is_none());
    manager.put("seq".to_string(), SequenceData::new());
    assert!(manager.get("seq").is_some());
    let stats = manager.get_stats();
    assert_eq!(stats.total_requests, 2);
    assert_eq!(stats.cache_hits, 1);
    assert_eq!(stats.cache_misses, 1);
    let hit_rate = stats.cache_hits as f64 / stats.total_requests as f64;
    assert_eq!(hit_rate, 0.5);
}

#[test]
fn manager_clear_resets_counters() {
    let mut manager = CacheManager::new(4);
    manager.put("x".to_string(), SequenceData::new());
    let _ = manager.get("x");
    let _ = manager.get("y");
    manager.clear();
    let stats = manager.get_stats();
    assert_eq!(stats.total_requests, 0);
    assert_eq!(stats.cache_hits, 0);
    assert_eq!(stats.cache_misses, 0);
    assert_eq!(stats.current_size, 0);
    assert_eq!(stats.max_size, 4);
    assert!(manager.is_empty());
}

#[test]
fn manager_remove_and_queries() {
    let mut manager = CacheManager::new(3);
    assert_eq!(manager.capacity(), 3);
    manager.put("a".to_string(), SequenceData::new());
    assert_eq!(manager.size(), 1);
    assert!(manager.contains_key("a"));
    assert!(!manager.contains_key("b"));
    assert!(manager.remove("a"));
    assert!(!manager.remove("a"));
    assert_eq!(manager.size(), 0);
}
