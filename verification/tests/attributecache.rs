use std::collections::BTreeMap;

use audiocontrol::attributecache::{
    age_at, age_since, cleanup_cutoff, expiry_after, is_expired, AttributeCache, AttributeStore, CacheEntry, DEFAULT_MAX_AGE_DAYS,
};

/// A database held in memory, with a clock the test sets.
#[derive(Default)]
struct MemStore {
    rows: BTreeMap<String, (Vec<u8>, Option<i64>, i64, i64)>,
    now: i64,
}

impl AttributeStore for MemStore {
    fn upsert(&mut self, key: &str, value: &[u8], expires_at: Option<i64>) -> Result<(), String> {
        let now = self.now;
        let created = self.rows.get(key).map(|r| r.2).unwrap_or(now);
        self.rows.insert(key.to_string(), (value.to_vec(), expires_at, created, now));
        Ok(())
    }
    fn expiry_of(&mut self, key: &str) -> Result<Option<Option<i64>>, String> {
        Ok(self.rows.get(key).map(|r| r.1))
    }
    fn value_of(&mut self, key: &str) -> Result<Option<Vec<u8>>, String> {
        Ok(self.rows.get(key).map(|r| r.0.clone()))
    }
    fn delete(&mut self, key: &str) -> Result<usize, String> {
        Ok(self.rows.remove(key).map(|_| 1).unwrap_or(0))
    }
    fn delete_all(&mut self) -> Result<usize, String> {
        let n = self.rows.len();
        self.rows.clear();
        Ok(n)
    }
    fn delete_created_before(&mut self, cutoff: i64) -> Result<usize, String> {
        let before = self.rows.len();
        self.rows.retain(|_, r| r.2 >= cutoff);
        Ok(before - self.rows.len())
    }
    fn timestamps(&mut self, key: &str) -> Result<Option<(i64, i64)>, String> {
        Ok(self.rows.get(key).map(|r| (r.2, r.3)))
    }
    fn keys(&self, prefix: Option<&str>) -> Result<Vec<String>, String> {
        Ok(self.rows.keys().filter(|k| prefix.map_or(true, |p| k.starts_with(p))).cloned().collect())
    }
    fn entries(&self, prefix: Option<&str>) -> Result<Vec<CacheEntry>, String> {
        Ok(self
            .rows
            .iter()
            .filter(|(k, _)| prefix.map_or(true, |p| k.starts_with(p)))
            .map(|(k, r)| CacheEntry { key: k.clone(), size_bytes: r.0.len(), created_at: r.2, updated_at: r.3, expires_at: r.1 })
            .collect())
    }
    fn delete_with_prefix(&mut self, prefix: &str) -> Result<usize, String> {
        let before = self.rows.len();
        self.rows.retain(|k, _| !k.starts_with(prefix));
        Ok(before - self.rows.len())
    }
    fn values_with_prefix(&mut self, prefix: &str) -> Result<Vec<(String, Vec<u8>)>, String> {
        Ok(self.rows.iter().filter(|(k, _)| k.starts_with(prefix)).map(|(k, r)| (k.clone(), r.0.clone())).collect())
    }
}

fn create_test_cache() -> AttributeCache<MemStore> {
    AttributeCache::with_database("/tmp/test_cache.db".to_string(), Some(MemStore::default()), 0)
}

fn json<T: serde::Serialize>(v: &T) -> Vec<u8> {
    serde_json::to_vec(v).unwrap()
}

fn read<T: serde::de::DeserializeOwned>(cache: &mut AttributeCache<MemStore>, key: &str) -> Option<T> {
    cache.get_bytes(key, 0).unwrap().map(|b| serde_json::from_slice(&b).unwrap())
}

#[test]
fn test_new_cache() {
    let cache = create_test_cache();
    assert!(cache.is_enabled());
    assert_eq!(cache.max_age_days(), DEFAULT_MAX_AGE_DAYS);
}

#[test]
fn without_a_database_the_cache_is_not_enabled() {
    let mut cache: AttributeCache<MemStore> = AttributeCache::with_database("/nowhere".to_string(), None, 10);
    assert!(!cache.is_enabled());
    assert_eq!(cache.set_bytes("k", vec![1], None), Err("Cache is disabled".to_string()));
    assert_eq!(cache.list_keys(None), Err("Database connection is not available".to_string()));
}

#[test]
fn test_set_and_get_string() {
    let mut cache = create_test_cache();
    cache.set_bytes("test_key", json(&"test_value"), None).expect("Failed to set value");
    let retrieved: Option<String> = read(&mut cache, "test_key");
    assert_eq!(retrieved, Some("test_value".to_string()));
}

#[test]
fn test_get_nonexistent_key() {
    let mut cache = create_test_cache();
    assert_eq!(cache.get_bytes("nonexistent", 0), Ok(None));
}

#[test]
fn test_memory_cache() {
    let mut cache = create_test_cache();
    cache.set_bytes("memory_test", json(&"cached_value"), None).unwrap();
    let first: Option<String> = read(&mut cache, "memory_test");
    let second: Option<String> = read(&mut cache, "memory_test");
    assert_eq!(first, Some("cached_value".to_string()));
    assert_eq!(second, first);
}

#[test]
fn test_remove() {
    let mut cache = create_test_cache();
    cache.set_bytes("remove_test", json(&"to_be_removed"), None).unwrap();
    let retrieved: Option<String> = read(&mut cache, "remove_test");
    assert_eq!(retrieved, Some("to_be_removed".to_string()));
    assert_eq!(cache.remove("remove_test"), Ok(true));
    assert_eq!(cache.get_bytes("remove_test", 0), Ok(None));
}

#[test]
fn test_remove_nonexistent() {
    let mut cache = create_test_cache();
    assert_eq!(cache.remove("nonexistent"), Ok(false));
}

#[test]
fn test_clear() {
    let mut cache = create_test_cache();
    cache.set_bytes("key1", json(&"value1"), None).unwrap();
    cache.set_bytes("key2", json(&42u32), None).unwrap();
    cache.set_bytes("key3", json(&true), None).unwrap();
    let val1: Option<String> = read(&mut cache, "key1");
    assert_eq!(val1, Some("value1".to_string()));
    cache.clear().expect("Failed to clear cache");
    assert_eq!(cache.get_bytes("key1", 0), Ok(None));
    assert_eq!(cache.get_bytes("key2", 0), Ok(None));
    assert_eq!(cache.get_bytes("key3", 0), Ok(None));
}

#[test]
fn test_overwrite_existing_key() {
    let mut cache = create_test_cache();
    cache.set_bytes("overwrite_test", json(&"first_value"), None).unwrap();
    let first: Option<String> = read(&mut cache, "overwrite_test");
    assert_eq!(first, Some("first_value".to_string()));
    cache.set_bytes("overwrite_test", json(&"second_value"), None).unwrap();
    let second: Option<String> = read(&mut cache, "overwrite_test");
    assert_eq!(second, Some("second_value".to_string()));
}

#[test]
fn test_disabled_cache() {
    let mut cache = create_test_cache();
    cache.enable(false);
    assert!(!cache.is_enabled());
    let result = cache.set_bytes("key", json(&"value"), None);
    assert!(result.unwrap_err().contains("disabled"));
    let result = cache.get_bytes("key", 0);
    assert!(result.unwrap_err().contains("disabled"));
}

#[test]
fn test_max_age_setting() {
    let mut cache = create_test_cache();
    cache.set_max_age(7);
    assert_eq!(cache.max_age_days(), 7);
}

#[test]
fn an_expired_entry_reads_as_absent_and_is_removed() {
    let mut cache = create_test_cache();
    cache.set_bytes("short", json(&1), Some(100)).unwrap();
    assert!(cache.get_bytes("short", 99).unwrap().is_some());
    assert_eq!(cache.get_bytes("short", 100), Ok(None));
    assert_eq!(cache.list_keys(None), Ok(Vec::new()), "the expired entry went from the database too");
}

#[test]
fn cleanup_deletes_entries_past_the_maximum_age() {
    let mut cache = create_test_cache();
    cache.set_bytes("old", json(&1), None).unwrap();
    let day = 86400;
    assert_eq!(cache.cleanup(31 * day), Ok(1));
    assert_eq!(cache.get_bytes("old", 31 * day), Ok(None));
    assert_eq!(cache.cleanup(31 * day), Ok(0));
}

#[test]
fn test_timestamps_creation() {
    let mut cache = create_test_cache();
    cache.set_bytes("t", json(&1), None).unwrap();
    assert_eq!(cache.get_timestamps("t"), Ok(Some((0, 0))));
    assert_eq!(cache.get_age("t", 50), Ok(Some(50)));
    assert_eq!(cache.get_last_updated_age("t", 50), Ok(Some(50)));
    assert_eq!(cache.get_timestamps("missing"), Ok(None));
}

#[test]
fn keys_entries_and_prefixes() {
    let mut cache = create_test_cache();
    cache.set_bytes("album::1", json(&1), None).unwrap();
    cache.set_bytes("album::2", json(&2), None).unwrap();
    cache.set_bytes("artist::1", json(&3), Some(500)).unwrap();
    assert_eq!(cache.list_keys(Some("album::")), Ok(vec!["album::1".to_string(), "album::2".to_string()]));
    let entries = cache.list_entries(Some("artist::")).unwrap();
    assert_eq!(entries.len(), 1);
    assert_eq!(entries[0].expires_at, Some(500));
    assert_eq!(cache.preload_prefix("album::"), Ok(2));
    assert_eq!(cache.remove_by_prefix("album::"), Ok(2));
    assert_eq!(cache.list_keys(None), Ok(vec!["artist::1".to_string()]));
    cache.enable(false);
    assert_eq!(cache.remove_by_prefix("artist::"), Ok(0));
    assert_eq!(cache.list_entries(None).unwrap().len(), 0);
}

#[test]
fn time_helpers() {
    assert!(is_expired(Some(10), 10));
    assert!(!is_expired(Some(11), 10));
    assert!(!is_expired(None, 10));
    assert_eq!(expiry_after(100, 50), 150);
    assert_eq!(cleanup_cutoff(86400 * 31, 30), 86400);
    assert_eq!(age_at(10, 4), 6);
}

#[test]
fn test_nonexistent_key_timestamps() {
    let mut cache = create_test_cache();
    let nonexistent_key = "nonexistent";
    assert_eq!(cache.get_timestamps(nonexistent_key).unwrap(), None);
    assert_eq!(cache.get_age(nonexistent_key, 100).unwrap(), None);
    assert_eq!(cache.get_last_updated_age(nonexistent_key, 100).unwrap(), None);
}

#[test]
fn test_update_expiry_on_existing_key() {
    let mut cache = create_test_cache();
    let key = "update_expiry_test";
    cache.set_bytes(key, json(&"value1"), None).unwrap();
    let future_time: i64 = 1_700_000_000 + 3600;
    cache.set_bytes(key, json(&"value2"), Some(future_time)).unwrap();
    let value: Option<String> = read(&mut cache, key);
    assert_eq!(value, Some("value2".to_string()));
    let entries = cache.list_entries(None).unwrap();
    assert_eq!(entries.len(), 1);
    assert!(entries[0].expires_at.is_some());
    assert_eq!(entries[0].expires_at.unwrap(), future_time);
}

#[test]
fn test_list_entries_with_expiry() {
    let mut cache = create_test_cache();
    cache.set_bytes("no_expiry", json(&"value1"), None).unwrap();
    cache.set_bytes("with_expiry", json(&"value2"), Some(expiry_after(1_700_000_000, 3600))).unwrap();
    let entries = cache.list_entries(None).unwrap();
    assert_eq!(entries.len(), 2);
    let no_expiry_entry = entries.iter().find(|e| e.key == "no_expiry").unwrap();
    let with_expiry_entry = entries.iter().find(|e| e.key == "with_expiry").unwrap();
    assert_eq!(no_expiry_entry.expires_at, None);
    assert!(with_expiry_entry.expires_at.is_some());
}

#[test]
fn test_set_and_get_struct() {
    let mut cache = create_test_cache();
    let test_data = br#"{"name":"test","value":42,"active":true}"#.to_vec();
    cache.set_bytes("test_struct", test_data, None).expect("Failed to set struct");
    let retrieved: Option<serde_json::Value> = read(&mut cache, "test_struct");
    let retrieved = retrieved.expect("stored");
    assert_eq!(retrieved["name"], "test");
    assert_eq!(retrieved["value"], 42);
    assert_eq!(retrieved["active"], true);
}

#[test]
fn an_age_is_the_time_since_the_recorded_time() {
    assert_eq!(age_since(1_000, Some(400)), Ok(Some(600)));
    assert_eq!(age_since(1_000, None), Ok(None));
    assert_eq!(age_since(i64::MAX, Some(-1)), Err("Timestamp out of range".to_string()));
}

#[test]
fn a_failed_expiry_read_is_a_database_error() {
    let mut cache = create_test_cache();
    let r = cache.answer_read_expiry("k", 100, Err("disk gone".to_string()));
    assert_eq!(r, Err("Database error checking expiry: disk gone".to_string()));
}

#[test]
fn an_entry_expired_at_the_time_of_reading_is_absent() {
    let mut cache = create_test_cache();
    cache.set_bytes("k", vec![1, 2, 3], Some(100)).unwrap();
    assert_eq!(cache.answer_read_expiry("k", 100, Ok(Some(Some(100)))), Ok(None));
    assert_eq!(cache.get_bytes("k", 50), Ok(None));
}

#[test]
fn a_live_entry_in_memory_is_answered_from_memory() {
    let mut cache = create_test_cache();
    cache.set_bytes("k", vec![4, 5], None).unwrap();
    assert_eq!(cache.answer_read_expiry("k", 100, Ok(Some(Some(101)))), Ok(Some(vec![4, 5])));
}

#[test]
fn a_value_read_from_the_database_is_answered_and_kept() {
    let mut cache = create_test_cache();
    assert_eq!(cache.answer_read_value("k", Ok(Some(vec![9]))), Ok(Some(vec![9])));
    assert_eq!(cache.answer_read_value("k", Ok(None)), Ok(None));
    assert_eq!(cache.answer_read_value("k", Err("locked".to_string())), Err("Database error: locked".to_string()));
}

#[test]
fn listed_keys_are_exactly_those_under_the_prefix() {
    let mut cache = create_test_cache();
    cache.set_bytes("a_1", vec![1], None).unwrap();
    cache.set_bytes("ab", vec![2], None).unwrap();
    cache.set_bytes("b", vec![3], None).unwrap();
    let keys = cache.list_keys(Some("a_")).unwrap();
    assert_eq!(keys, vec!["a_1".to_string()]);
    let all = cache.list_keys(None).unwrap();
    assert_eq!(all.len(), 3);
}
