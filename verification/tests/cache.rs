use statuspage::ResponseCache;

#[test]
fn get_right_after_put_returns_the_value() {
    let mut cache: ResponseCache<String> = ResponseCache::new(30);
    cache.put("index".to_string(), "rendered page".to_string(), 1000);
    assert_eq!(cache.get(&"index".to_string(), 1000), Some(&"rendered page".to_string()));
}

#[test]
fn get_after_ttl_elapsed_is_a_miss() {
    let mut cache: ResponseCache<String> = ResponseCache::new(30);
    cache.put("index".to_string(), "rendered page".to_string(), 1000);
    assert!(cache.get(&"index".to_string(), 1029).is_some());
    assert!(cache.get(&"index".to_string(), 1030).is_none());
    assert!(cache.get(&"index".to_string(), 5000).is_none());
}

#[test]
fn missing_key_is_a_miss() {
    let cache: ResponseCache<String> = ResponseCache::new(30);
    assert!(cache.get(&"index".to_string(), 0).is_none());
}

#[test]
fn put_overwrites_the_entry_wholesale() {
    let mut cache: ResponseCache<String> = ResponseCache::new(30);
    cache.put("k".to_string(), "old".to_string(), 1000);
    cache.put("k".to_string(), "new".to_string(), 1020);
    // The fresh insertion restarts the clock and replaces the value.
    assert_eq!(cache.get(&"k".to_string(), 1040), Some(&"new".to_string()));
    assert!(cache.get(&"k".to_string(), 1050).is_none());
}

#[test]
fn keys_are_independent() {
    let mut cache: ResponseCache<Vec<u8>> = ResponseCache::new(3600);
    cache.put("favicon.ico".to_string(), vec![1, 2, 3], 0);
    cache.put("robots.txt".to_string(), vec![4, 5], 10);
    assert_eq!(cache.get(&"favicon.ico".to_string(), 100), Some(&vec![1u8, 2, 3]));
    assert_eq!(cache.get(&"robots.txt".to_string(), 100), Some(&vec![4u8, 5]));
    assert!(cache.get(&"favicon.ico".to_string(), 3600).is_none());
    assert!(cache.get(&"robots.txt".to_string(), 3600).is_some());
}

#[test]
fn zero_ttl_never_serves() {
    let mut cache: ResponseCache<String> = ResponseCache::new(0);
    cache.put("k".to_string(), "v".to_string(), 50);
    assert!(cache.get(&"k".to_string(), 50).is_none());
}
