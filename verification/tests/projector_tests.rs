use random_album::types::{Album, AlbumJson, Artist, Copyright, Image, SavedAlbum};

fn album(artists: Vec<&str>, images: Vec<&str>, copyrights: Vec<(&str, &str)>) -> SavedAlbum {
    SavedAlbum {
        album: Album {
            artists: artists.into_iter().map(|n| Artist { name: n.to_string() }).collect(),
            images: images.into_iter().map(|u| Image { url: u.to_string() }).collect(),
            name: "An Album".to_string(),
            external_url: "https://example.invalid/album".to_string(),
            copyrights: copyrights
                .into_iter()
                .map(|(t, k)| Copyright { text: t.to_string(), copyright_type: k.to_string() })
                .collect(),
        },
    }
}

#[test]
fn copyright_ascii_marker_replaced() {
    let s = album(vec!["X"], vec![], vec![("(C) 2020 Label", "C")]);
    let r = AlbumJson::project(&s);
    assert_eq!(r.copyright, "\u{00A9} 2020 Label");
}

#[test]
fn copyright_phonogram_prefixed() {
    let s = album(vec!["X"], vec![], vec![("2020 Label", "P")]);
    let r = AlbumJson::project(&s);
    assert_eq!(r.copyright, "\u{2117} 2020 Label");
}

#[test]
fn copyright_no_double_prefix() {
    let s = album(vec!["X"], vec![], vec![("\u{00A9} 2020", "C")]);
    let r = AlbumJson::project(&s);
    assert_eq!(r.copyright, "\u{00A9} 2020");
}

#[test]
fn copyright_unknown_kind_yields_empty() {
    let s = album(vec!["X"], vec![], vec![("2020 Label", "R")]);
    let r = AlbumJson::project(&s);
    assert_eq!(r.copyright, "");
}

#[test]
fn copyright_prefers_first_c_entry() {
    let s = album(
        vec!["X"],
        vec![],
        vec![("2020 Phono", "P"), ("(C) 2020 Label", "C"), ("(C) other", "C")],
    );
    let r = AlbumJson::project(&s);
    assert_eq!(r.copyright, "\u{00A9} 2020 Label");
}

#[test]
fn copyright_falls_back_to_first_entry() {
    let s = album(vec!["X"], vec![], vec![("(P) 2020 Phono", "P"), ("ignored", "R")]);
    let r = AlbumJson::project(&s);
    assert_eq!(r.copyright, "\u{2117} 2020 Phono");
}

#[test]
fn copyright_empty_entries_yield_empty() {
    let s = album(vec!["X"], vec![], vec![]);
    let r = AlbumJson::project(&s);
    assert_eq!(r.copyright, "");
}

#[test]
fn artists_joined_with_comma() {
    let s = album(vec!["Alpha", "Beta", "Gamma"], vec![], vec![]);
    let r = AlbumJson::project(&s);
    assert_eq!(r.artists, "Alpha, Beta, Gamma");
}

#[test]
fn single_artist_unseparated() {
    let s = album(vec!["Alpha"], vec![], vec![]);
    let r = AlbumJson::project(&s);
    assert_eq!(r.artists, "Alpha");
}

#[test]
fn no_artists_empty_line() {
    let s = album(vec![], vec![], vec![]);
    let r = AlbumJson::project(&s);
    assert_eq!(r.artists, "");
}

#[test]
fn first_image_selected() {
    let s = album(vec!["X"], vec!["https://img.invalid/1", "https://img.invalid/2"], vec![]);
    let r = AlbumJson::project(&s);
    assert_eq!(r.image_url, "https://img.invalid/1");
}

#[test]
fn missing_image_empty_url() {
    let s = album(vec!["X"], vec![], vec![]);
    let r = AlbumJson::project(&s);
    assert_eq!(r.image_url, "");
}

#[test]
fn name_and_external_url_carried_over() {
    let s = album(vec!["X"], vec![], vec![]);
    let r = AlbumJson::project(&s);
    assert_eq!(r.name, "An Album");
    assert_eq!(r.external_url, "https://example.invalid/album");
}

#[test]
fn project_twice_identical() {
    let s = album(
        vec!["Alpha", "Beta"],
        vec!["https://img.invalid/1"],
        vec![("(C) 2020 Label", "C")],
    );
    let a = AlbumJson::project(&s);
    let b = AlbumJson::project(&s);
    assert_eq!(a.artists, b.artists);
    assert_eq!(a.image_url, b.image_url);
    assert_eq!(a.name, b.name);
    assert_eq!(a.external_url, b.external_url);
    assert_eq!(a.copyright, b.copyright);
}

#[test]
fn marker_replaced_everywhere() {
    let s = album(vec!["X"], vec![], vec![("(C) Label (C) again", "C")]);
    let r = AlbumJson::project(&s);
    assert_eq!(r.copyright, "\u{00A9} Label \u{00A9} again");
}
