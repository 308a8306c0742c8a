use std::cell::Cell;
use std::hash::{Hash, Hasher};
use thumbor::cache::{Lookup, RetrievalCache, SourceFetchError, MAX_CAPACITY};

#[test]
fn capacity_must_be_in_range() {
    assert!(RetrievalCache::new(0).is_none());
    assert!(RetrievalCache::new(MAX_CAPACITY + 1).is_none());
    assert!(RetrievalCache::new(1).is_some());
    assert!(RetrievalCache::new(1024).is_some());
}

#[test]
fn second_lookup_is_a_hit() {
    let mut cache = RetrievalCache::new(4).unwrap();
    let locator = "https://example.com/a.png";
    let key = match cache.lookup(locator) {
        Lookup::Miss(key) => key,
        Lookup::Hit(_) => panic!("an empty cache has no hit"),
    };
    assert_eq!(key, RetrievalCache::key_for(locator));
    assert_eq!(cache.settle(key, Some(vec![1, 2, 3])), Ok(vec![1, 2, 3]));
    assert_eq!(cache.lookup(locator), Lookup::Hit(vec![1, 2, 3]));
    assert_eq!(cache.lookup(locator), Lookup::Hit(vec![1, 2, 3]));
}

#[test]
fn failed_fetch_is_not_cached() {
    let mut cache = RetrievalCache::new(4).unwrap();
    let key = RetrievalCache::key_for("https://example.com/missing.png");
    assert_eq!(cache.settle(key, None), Err(SourceFetchError));
    assert_eq!(cache.get(key), None);
    assert_eq!(cache.lookup("https://example.com/missing.png"), Lookup::Miss(key));
}

#[test]
fn least_recently_used_entry_leaves_first() {
    let mut cache = RetrievalCache::new(3).unwrap();
    cache.put(1, vec![1]);
    cache.put(2, vec![2]);
    cache.put(3, vec![3]);
    cache.put(4, vec![4]);
    assert_eq!(cache.get(1), None);
    assert_eq!(cache.get(2), Some(vec![2]));
    assert_eq!(cache.get(3), Some(vec![3]));
    assert_eq!(cache.get(4), Some(vec![4]));
    // 2 is now the least recently used
    cache.put(5, vec![5]);
    assert_eq!(cache.get(2), None);
    assert_eq!(cache.get(3), Some(vec![3]));
}

#[test]
fn hit_makes_an_entry_the_most_recently_used() {
    let mut cache = RetrievalCache::new(2).unwrap();
    cache.put(1, vec![1]);
    cache.put(2, vec![2]);
    assert_eq!(cache.get(1), Some(vec![1]));
    cache.put(3, vec![3]);
    assert_eq!(cache.get(2), None);
    assert_eq!(cache.get(1), Some(vec![1]));
    assert_eq!(cache.get(3), Some(vec![3]));
}

#[test]
fn storing_again_replaces_the_bytes_and_evicts_nothing() {
    let mut cache = RetrievalCache::new(2).unwrap();
    cache.put(1, vec![1]);
    cache.put(2, vec![2]);
    cache.put(1, vec![9, 9]);
    assert_eq!(cache.get(2), Some(vec![2]));
    assert_eq!(cache.get(1), Some(vec![9, 9]));
    // 2 was looked up before 1, so it is the one that leaves
    cache.put(3, vec![3]);
    assert_eq!(cache.get(2), None);
    assert_eq!(cache.get(1), Some(vec![9, 9]));
}

#[test]
fn cache_of_one_entry_keeps_the_last_one() {
    let mut cache = RetrievalCache::new(1).unwrap();
    cache.put(1, vec![1]);
    cache.put(2, vec![2]);
    assert_eq!(cache.get(1), None);
    assert_eq!(cache.get(2), Some(vec![2]));
}

#[test]
fn colliding_locators_share_one_slot() {
    // Two fetches whose locators have the same key: the slot is the key's,
    // so the second store is what both of them find.
    let mut cache = RetrievalCache::new(8).unwrap();
    let key = RetrievalCache::key_for("https://example.com/first.png");
    assert_eq!(cache.settle(key, Some(b"first".to_vec())), Ok(b"first".to_vec()));
    assert_eq!(cache.settle(key, Some(b"second".to_vec())), Ok(b"second".to_vec()));
    assert_eq!(cache.lookup("https://example.com/first.png"), Lookup::Hit(b"second".to_vec()));
}

#[test]
fn key_depends_on_the_locator_alone() {
    let a = RetrievalCache::key_for("https://example.com/a.png");
    assert_eq!(a, RetrievalCache::key_for("https://example.com/a.png"));
    assert_ne!(a, RetrievalCache::key_for("https://example.com/b.png"));
    assert_ne!(RetrievalCache::key_for(""), RetrievalCache::key_for("\u{ff}"));
}

#[test]
fn key_is_the_standard_hash_of_the_locator() {
    let locator = "https://img.xjh.me/random_img.php?return=302&time=13145";
    let mut hasher = std::collections::hash_map::DefaultHasher::new();
    locator.hash(&mut hasher);
    assert_eq!(RetrievalCache::key_for(locator), hasher.finish());
}

#[test]
fn get_or_fetch_fetches_once() {
    let mut cache = RetrievalCache::new(4).unwrap();
    let fetches = Cell::new(0);
    let fetch = |_: &str| {
        fetches.set(fetches.get() + 1);
        Some(vec![4, 5, 6])
    };
    assert_eq!(cache.get_or_fetch("https://example.com/a.png", fetch), Ok(vec![4, 5, 6]));
    assert_eq!(fetches.get(), 1);
    assert_eq!(cache.get_or_fetch("https://example.com/a.png", fetch), Ok(vec![4, 5, 6]));
    assert_eq!(cache.get_or_fetch("https://example.com/a.png", |_| None), Ok(vec![4, 5, 6]));
    assert_eq!(fetches.get(), 1);
    assert_eq!(cache.get_or_fetch("https://example.com/b.png", fetch), Ok(vec![4, 5, 6]));
    assert_eq!(fetches.get(), 2);
}

#[test]
fn get_or_fetch_hands_the_locator_to_the_fetch() {
    let mut cache = RetrievalCache::new(4).unwrap();
    let fetch = |locator: &str| Some(locator.as_bytes().to_vec());
    assert_eq!(cache.get_or_fetch("here", fetch), Ok(b"here".to_vec()));
    assert_eq!(cache.get(RetrievalCache::key_for("here")), Some(b"here".to_vec()));
}

#[test]
fn get_or_fetch_does_not_cache_a_failure() {
    let mut cache = RetrievalCache::new(4).unwrap();
    assert_eq!(cache.get_or_fetch("gone", |_| None), Err(SourceFetchError));
    assert_eq!(cache.get(RetrievalCache::key_for("gone")), None);
    assert_eq!(cache.get_or_fetch("gone", |_| Some(vec![1])), Ok(vec![1]));
    assert_eq!(cache.get_or_fetch("gone", |_| None), Ok(vec![1]));
}

#[test]
fn get_or_fetch_evicts_the_least_recently_used() {
    let mut cache = RetrievalCache::new(2).unwrap();
    let fetches = Cell::new(0);
    let fetch = |locator: &str| {
        fetches.set(fetches.get() + 1);
        Some(locator.as_bytes().to_vec())
    };
    for locator in ["a", "b", "a", "c", "a", "b"] {
        assert_eq!(cache.get_or_fetch(locator, fetch), Ok(locator.as_bytes().to_vec()));
    }
    // a, b and c are fetched; the hit on a keeps it while c pushes b out,
    // so b is fetched once more
    assert_eq!(fetches.get(), 4);
}
