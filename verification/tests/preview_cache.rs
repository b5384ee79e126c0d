use rovex_core::desktop::preview_cache::{cache_key, CacheKey, PreviewCache, MAX_CACHE_BYTES, MAX_CACHE_ENTRIES};

fn key(i: usize) -> CacheKey {
    CacheKey {
        path: format!("/img/{i}.png"),
        size: i as u64,
        modified: Some(1),
    }
}

#[test]
fn keeps_recent_previews_and_finds_them() {
    let mut cache: PreviewCache<u32> = PreviewCache::new();
    cache.insert(key(1), 10, 100);
    cache.insert(key(2), 20, 100);
    assert_eq!(cache.get(&key(1)), Some(10));
    assert_eq!(cache.get(&key(3)), None);
    let changed = CacheKey {
        path: "/img/1.png".to_owned(),
        size: 1,
        modified: Some(2),
    };
    assert_eq!(cache.get(&changed), None);
    let same_path = CacheKey {
        path: "/img//1.png".to_owned(),
        size: 1,
        modified: Some(1),
    };
    assert_eq!(cache.get(&same_path), Some(10));
}

#[test]
fn evicts_least_recently_used_by_count() {
    let mut cache: PreviewCache<usize> = PreviewCache::new();
    for i in 0..MAX_CACHE_ENTRIES {
        cache.insert(key(i), i, 1);
    }
    assert_eq!(cache.get(&key(0)), Some(0));
    cache.insert(key(1000), 1000, 1);
    assert_eq!(cache.get(&key(1)), None);
    assert_eq!(cache.get(&key(0)), Some(0));
    assert_eq!(cache.get(&key(1000)), Some(1000));
}

#[test]
fn evicts_by_bytes_and_refuses_oversized() {
    let mut cache: PreviewCache<u8> = PreviewCache::new();
    cache.insert(key(1), 1, MAX_CACHE_BYTES / 2);
    cache.insert(key(2), 2, MAX_CACHE_BYTES / 2);
    cache.insert(key(3), 3, 1);
    assert_eq!(cache.get(&key(1)), None);
    assert_eq!(cache.get(&key(2)), Some(2));
    cache.insert(key(4), 4, MAX_CACHE_BYTES + 1);
    assert_eq!(cache.get(&key(4)), None);
    cache.insert(key(2), 5, 7);
    assert_eq!(cache.get(&key(2)), Some(5));
}

#[test]
fn only_regular_files_have_keys() {
    assert!(cache_key("/a", None).is_none());
    assert!(cache_key("/a", Some((false, 1, None))).is_none());
    let k = cache_key("/a", Some((true, 5, Some(9)))).unwrap();
    assert_eq!(k.path, "/a");
    assert_eq!(k.size, 5);
}

#[test]
fn reading_back_gives_what_was_written() {
    let mut cache: PreviewCache<String> = PreviewCache::new();
    cache.insert(key(1), "primeira".to_owned(), 10);
    cache.insert(key(2), "segunda".to_owned(), 10);
    cache.insert(key(1), "substituta".to_owned(), 10);
    assert_eq!(cache.get(&key(1)).as_deref(), Some("substituta"));
    assert_eq!(cache.get(&key(2)).as_deref(), Some("segunda"));
    assert_eq!(cache.get(&key(3)), None);
}
