use relay_hub::key_cache::{KeyCache, KeyError, DEFAULT_KEY_CACHE_CAPACITY};

#[test]
fn valid_key_is_taken_in_and_handed_out_again() {
    let mut cache = KeyCache::new(2);
    assert_eq!(cache.len(), 0);
    assert_eq!(cache.capacity(), 2);
    let key = cache.get_or_insert(&[1; 32], true).unwrap();
    assert_eq!(key.as_bytes(), [1; 32]);
    assert!(cache.contains(&[1; 32]));
    assert_eq!(cache.len(), 1);
    let again = cache.get(&[1; 32]).unwrap();
    assert_eq!(again, key);
    assert!(again.same_as(&key));
    assert!(again.has_bytes(&[1; 32]));
    assert!(!again.has_bytes(&[2; 32]));
}

#[test]
fn invalid_key_is_refused_and_leaves_no_trace() {
    let mut cache = KeyCache::new(2);
    assert_eq!(cache.get_or_insert(&[1; 32], false), Err(KeyError::InvalidKey));
    assert_eq!(cache.len(), 0);
    assert!(!cache.contains(&[1; 32]));
    assert_eq!(cache.get(&[1; 32]), None);
}

#[test]
fn cached_key_needs_no_second_check() {
    let mut cache = KeyCache::new(2);
    cache.get_or_insert(&[1; 32], true).unwrap();
    // the verdict is not looked at for a key that the cache holds
    let key = cache.get_or_insert(&[1; 32], false).unwrap();
    assert_eq!(key.as_bytes(), [1; 32]);
    assert_eq!(cache.len(), 1);
}

#[test]
fn least_recently_used_key_makes_room() {
    let mut cache = KeyCache::new(2);
    cache.get_or_insert(&[1; 32], true).unwrap();
    cache.get_or_insert(&[2; 32], true).unwrap();
    // use key 1, so that key 2 is the least recently used one
    assert!(cache.get(&[1; 32]).is_some());
    cache.get_or_insert(&[3; 32], true).unwrap();
    assert_eq!(cache.len(), 2);
    assert!(cache.contains(&[1; 32]));
    assert!(!cache.contains(&[2; 32]));
    assert!(cache.contains(&[3; 32]));
    // key 2 has to be checked again now
    assert_eq!(cache.get_or_insert(&[2; 32], false), Err(KeyError::InvalidKey));
}

#[test]
fn without_a_use_the_oldest_key_goes_first() {
    let mut cache = KeyCache::new(3);
    for n in 1..=5u8 {
        cache.get_or_insert(&[n; 32], true).unwrap();
    }
    assert_eq!(cache.len(), 3);
    assert!(!cache.contains(&[1; 32]));
    assert!(!cache.contains(&[2; 32]));
    assert!(cache.contains(&[3; 32]));
    assert!(cache.contains(&[4; 32]));
    assert!(cache.contains(&[5; 32]));
}

#[test]
fn cache_without_room_still_hands_out_valid_keys() {
    let mut cache = KeyCache::new(0);
    let key = cache.get_or_insert(&[1; 32], true).unwrap();
    assert_eq!(key.as_bytes(), [1; 32]);
    assert_eq!(cache.len(), 0);
    assert_eq!(cache.get(&[1; 32]), None);
}

#[test]
fn default_capacity_is_1024() {
    assert_eq!(DEFAULT_KEY_CACHE_CAPACITY, 1024);
}
