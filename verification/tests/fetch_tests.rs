use random_album::cache::Cache;
use random_album::random_album::{
    first_page_url, get_display_batch, get_display_next, store_fetched, FetchState,
};
use random_album::types::{Album, Artist, Paging, SavedAlbum};

fn named_album(name: &str) -> SavedAlbum {
    SavedAlbum {
        album: Album {
            artists: vec![Artist { name: "X".to_string() }],
            images: vec![],
            name: name.to_string(),
            external_url: "".to_string(),
            copyrights: vec![],
        },
    }
}

fn page(names: Vec<&str>, next: Option<&str>) -> Paging<SavedAlbum> {
    Paging {
        items: names.into_iter().map(named_album).collect(),
        next: next.map(|s| s.to_string()),
    }
}

fn sorted_names(albums: &[SavedAlbum]) -> Vec<String> {
    let mut names: Vec<String> = albums.iter().map(|a| a.album.name.clone()).collect();
    names.sort();
    names
}

#[test]
fn sweep_starts_at_first_page() {
    let state = FetchState::fetch_start();
    assert!(state.in_progress());
    assert_eq!(state.pending_url().map(|u| u.as_str()), Some(first_page_url()));
    assert_eq!(first_page_url(), "https://api.spotify.com/v1/me/albums");
    assert!(state.albums.is_empty());
    assert!(!state.incomplete);
}

#[test]
fn sweep_accumulates_all_pages() {
    let mut state = FetchState::fetch_start();
    state.fetch_step(Some(page(vec!["a", "b"], Some("https://page.invalid/2"))));
    assert!(state.in_progress());
    state.fetch_step(Some(page(vec!["c"], None)));
    assert!(!state.in_progress());
    assert!(!state.incomplete);
    assert_eq!(sorted_names(&state.albums), vec!["a", "b", "c"]);
}

#[test]
fn failed_page_keeps_earlier_pages_only() {
    let mut cache = Cache::new(1800);
    let mut state = FetchState::fetch_start();
    state.fetch_step(Some(page(vec!["a", "b"], Some("https://page.invalid/2"))));
    state.fetch_step(None);
    assert!(!state.in_progress());
    assert!(state.incomplete);
    store_fetched(&mut cache, "k", 0, state);
    let cached = cache.get("k", 1).expect("live entry");
    assert_eq!(sorted_names(&cached), vec!["a", "b"]);
}

#[test]
fn store_fetched_preserves_records() {
    let mut cache = Cache::new(1800);
    let mut state = FetchState::fetch_start();
    state.fetch_step(Some(page(vec!["a", "b", "c", "d"], None)));
    store_fetched(&mut cache, "k", 0, state);
    let cached = cache.get("k", 1).expect("live entry");
    assert_eq!(sorted_names(&cached), vec!["a", "b", "c", "d"]);
}

#[test]
fn stored_sweep_lapses_after_ttl() {
    let mut cache = Cache::new(10);
    let mut state = FetchState::fetch_start();
    state.fetch_step(Some(page(vec!["a"], None)));
    store_fetched(&mut cache, "k", 100, state);
    assert!(cache.get("k", 109).is_some());
    assert!(cache.get("k", 110).is_none());
}

#[test]
fn display_batch_projects_every_record() {
    let mut cache = Cache::new(1800);
    cache.insert("k".to_string(), vec![named_album("a"), named_album("b")], 0);
    let batch = get_display_batch(&cache, "k", 1).expect("live entry");
    assert_eq!(batch.len(), 2);
    assert_eq!(batch[0].name, "a");
    assert_eq!(batch[0].artists, "X");
    assert_eq!(batch[1].name, "b");
}

#[test]
fn display_batch_misses_without_entry() {
    let cache = Cache::new(1800);
    assert!(get_display_batch(&cache, "k", 1).is_none());
}

#[test]
fn display_batch_empty_library_is_not_a_miss() {
    let mut cache = Cache::new(1800);
    cache.insert("k".to_string(), vec![], 0);
    let batch = get_display_batch(&cache, "k", 1).expect("live entry");
    assert!(batch.is_empty());
}

#[test]
fn display_next_rotates_projected_records() {
    let mut cache = Cache::new(1800);
    cache.insert("k".to_string(), vec![named_album("a"), named_album("b")], 0);
    let first = get_display_next(&mut cache, "k", 1).expect("live entry");
    let second = get_display_next(&mut cache, "k", 1).expect("live entry");
    let third = get_display_next(&mut cache, "k", 1).expect("live entry");
    assert_eq!(first.name, "a");
    assert_eq!(second.name, "b");
    assert_eq!(third.name, "a");
}

#[test]
fn display_next_misses_on_lapsed_entry() {
    let mut cache = Cache::new(10);
    cache.insert("k".to_string(), vec![named_album("a")], 0);
    assert!(get_display_next(&mut cache, "k", 10).is_none());
}
