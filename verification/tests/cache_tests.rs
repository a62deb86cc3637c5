use random_album::cache::Cache;
use random_album::types::{Album, Artist, SavedAlbum};

fn named_album(name: &str) -> SavedAlbum {
    SavedAlbum {
        album: Album {
            artists: vec![Artist { name: "X".to_string() }],
            images: vec![],
            name: name.to_string(),
            external_url: "".to_string(),
            copyrights: vec![],
        },
    }
}

#[test]
fn get_returns_snapshot() {
    let mut cache = Cache::new(1800);
    cache.insert("k".to_string(), vec![named_album("a"), named_album("b")], 100);
    let got = cache.get("k", 200).expect("entry should be live");
    assert_eq!(got.len(), 2);
    assert_eq!(got[0].album.name, "a");
    assert_eq!(got[1].album.name, "b");
}

#[test]
fn get_miss_on_unknown_key() {
    let cache = Cache::new(1800);
    assert!(cache.get("missing", 0).is_none());
}

#[test]
fn entry_lapses_at_ttl_boundary() {
    let mut cache = Cache::new(10);
    cache.insert("k".to_string(), vec![named_album("a")], 100);
    assert!(cache.get("k", 109).is_some());
    assert!(cache.get("k", 110).is_none());
    assert!(cache.get("k", 500).is_none());
}

#[test]
fn insert_replaces_and_resets_ttl() {
    let mut cache = Cache::new(10);
    cache.insert("k".to_string(), vec![named_album("a")], 100);
    cache.insert("k".to_string(), vec![named_album("b")], 105);
    let got = cache.get("k", 112).expect("second insert should have reset the TTL");
    assert_eq!(got.len(), 1);
    assert_eq!(got[0].album.name, "b");
}

#[test]
fn rotation_serves_each_item_once_per_cycle() {
    let mut cache = Cache::new(1800);
    cache.insert(
        "k".to_string(),
        vec![named_album("a"), named_album("b"), named_album("c")],
        0,
    );
    let first = cache.get_next("k", 1).expect("live entry");
    let second = cache.get_next("k", 2).expect("live entry");
    let third = cache.get_next("k", 3).expect("live entry");
    assert_eq!(first.album.name, "a");
    assert_eq!(second.album.name, "b");
    assert_eq!(third.album.name, "c");
    let wrapped = cache.get_next("k", 4).expect("live entry");
    assert_eq!(wrapped.album.name, "a");
}

#[test]
fn rotation_keeps_library_size() {
    let mut cache = Cache::new(1800);
    cache.insert("k".to_string(), vec![named_album("a"), named_album("b")], 0);
    for _ in 0..5 {
        assert!(cache.get_next("k", 1).is_some());
    }
    let got = cache.get("k", 1).expect("entry still live");
    assert_eq!(got.len(), 2);
}

#[test]
fn rotation_miss_on_empty_library() {
    let mut cache = Cache::new(1800);
    cache.insert("k".to_string(), vec![], 0);
    assert!(cache.get_next("k", 1).is_none());
}

#[test]
fn rotation_reclaims_lapsed_entry() {
    let mut cache = Cache::new(10);
    cache.insert("k".to_string(), vec![named_album("a")], 0);
    assert!(cache.get_next("k", 10).is_none());
    assert!(cache.get("k", 5).is_none());
}

#[test]
fn rotation_miss_on_unknown_key() {
    let mut cache = Cache::new(10);
    assert!(cache.get_next("missing", 0).is_none());
}

#[test]
fn keys_are_independent() {
    let mut cache = Cache::new(1800);
    cache.insert("k1".to_string(), vec![named_album("a")], 0);
    cache.insert("k2".to_string(), vec![named_album("b")], 0);
    let next = cache.get_next("k1", 1).expect("live entry");
    assert_eq!(next.album.name, "a");
    let other = cache.get("k2", 1).expect("live entry");
    assert_eq!(other[0].album.name, "b");
}
