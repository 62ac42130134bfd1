use cloudflaredyndns::cache::ZoneCache;

#[test]
fn fresh_cache_misses() {
    let cache = ZoneCache::new();
    assert!(cache.lookup("example.com").is_none());
}

#[test]
fn insert_then_lookup_hits() {
    let mut cache = ZoneCache::new();
    cache.insert("example.com".to_string(), "z1".to_string());
    assert_eq!(cache.lookup("example.com").unwrap(), "z1".to_string());
}

#[test]
fn lookup_of_other_domain_still_misses() {
    let mut cache = ZoneCache::new();
    cache.insert("example.com".to_string(), "z1".to_string());
    assert!(cache.lookup("example.org").is_none());
}

#[test]
fn racing_inserts_leave_one_final_value() {
    // Two concurrent misses for the same base domain each resolve and
    // insert; the last write wins and later reads hit without resolving.
    let mut cache = ZoneCache::new();
    cache.insert("example.com".to_string(), "z1".to_string());
    cache.insert("example.com".to_string(), "z2".to_string());
    assert_eq!(cache.lookup("example.com").unwrap(), "z2".to_string());
    // A hit means the read-through path never calls the resolver again.
    assert!(cache.lookup("example.com").is_some());
}

#[test]
fn entries_for_other_domains_survive() {
    let mut cache = ZoneCache::new();
    cache.insert("example.com".to_string(), "z1".to_string());
    cache.insert("example.org".to_string(), "z2".to_string());
    assert_eq!(cache.lookup("example.com").unwrap(), "z1".to_string());
    assert_eq!(cache.lookup("example.org").unwrap(), "z2".to_string());
}
