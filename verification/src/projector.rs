//! Pure projection of a raw catalog album record into its display-ready
//! shape: artists joined with `", "`, the primary image, and a cleaned
//! copyright line.

use vstd::prelude::*;
use vstd::string::*;

use crate::types::{AlbumJson, AlbumView, Artist, Copyright, Image, SavedAlbum};

verus! {

/// The artist names joined with `", "`.
pub open spec fn spec_join_artists(artists: Seq<Artist>) -> Seq<char>
    decreases artists.len(),
{
    if artists.len() == 0 {
        Seq::<char>::empty()
    } else if artists.len() == 1 {
        artists[0].name@
    } else {
        artists[0].name@ + seq![',', ' '] + spec_join_artists(artists.skip(1))
    }
}

/// The first image's URL, or the empty string when there is none.
pub open spec fn spec_image_url(images: Seq<Image>) -> Seq<char> {
    if images.len() == 0 {
        Seq::<char>::empty()
    } else {
        images[0].url@
    }
}

/// Every occurrence of `(` `marker` `)` replaced by the single
/// character `sym`, scanning left to right without overlap.
pub open spec fn spec_replace_marker(s: Seq<char>, marker: char, sym: char) -> Seq<char>
    decreases s.len(),
{
    if s.len() < 3 {
        s
    } else if s[0] == '(' && s[1] == marker && s[2] == ')' {
        seq![sym] + spec_replace_marker(s.skip(3), marker, sym)
    } else {
        seq![s[0]] + spec_replace_marker(s.skip(1), marker, sym)
    }
}

/// `sym` and a space prepended, unless the text already opens with a
/// copyright or phonogram sign.
pub open spec fn spec_prefixed(t: Seq<char>, sym: char) -> Seq<char> {
    if t.len() > 0 && (t[0] == '\u{00A9}' || t[0] == '\u{2117}') {
        t
    } else {
        seq![sym, ' '] + t
    }
}

/// The cleaned copyright text: ASCII `(C)`-style markers replaced by the
/// symbol, then the symbol prepended when no sign opens the text.
pub open spec fn spec_clean(text: Seq<char>, marker: char, sym: char) -> Seq<char> {
    spec_prefixed(spec_replace_marker(text, marker, sym), sym)
}

/// Whether a copyright entry is of kind `C`.
pub open spec fn spec_is_c(c: Copyright) -> bool {
    c.copyright_type@ == seq!['C']
}

/// The first entry of kind `C`, if any.
pub open spec fn spec_first_c(cs: Seq<Copyright>) -> Option<Copyright>
    decreases cs.len(),
{
    if cs.len() == 0 {
        None
    } else if spec_is_c(cs[0]) {
        Some(cs[0])
    } else {
        spec_first_c(cs.skip(1))
    }
}

/// The entry the copyright line is built from: the first of kind `C`,
/// falling back to the first entry of any kind.
pub open spec fn spec_selected(cs: Seq<Copyright>) -> Option<Copyright> {
    match spec_first_c(cs) {
        Some(c) => Some(c),
        None => if cs.len() > 0 {
            Some(cs[0])
        } else {
            None
        },
    }
}

/// The displayed copyright line for a record's copyright entries.
pub open spec fn spec_copyright_line(cs: Seq<Copyright>) -> Seq<char> {
    match spec_selected(cs) {
        None => Seq::<char>::empty(),
        Some(c) => if c.copyright_type@ == seq!['C'] {
            spec_clean(c.text@, 'C', '\u{00A9}')
        } else if c.copyright_type@ == seq!['P'] {
            spec_clean(c.text@, 'P', '\u{2117}')
        } else {
            Seq::<char>::empty()
        },
    }
}

/// How each field of a projection relates to the view of the record it
/// came from.
pub open spec fn spec_project_post(v: AlbumView, r: AlbumJson) -> bool {
    &&& r.artists@ == spec_join_artists(v.artists)
    &&& r.image_url@ == spec_image_url(v.images)
    &&& r.name@ == v.name
    &&& r.external_url@ == v.external_url
    &&& r.copyright@ == spec_copyright_line(v.copyrights)
}

proof fn lemma_join_push(s: Seq<Artist>, x: Artist)
    requires
        s.len() >= 1,
    ensures
        spec_join_artists(s.push(x)) == spec_join_artists(s) + seq![',', ' '] + x.name@,
    decreases s.len(),
{
    if s.len() == 1 {
        assert(s.push(x).skip(1) =~= seq![x]);
        assert(spec_join_artists(seq![x]) == x.name@);
        assert(spec_join_artists(s.push(x)) =~= spec_join_artists(s) + seq![',', ' '] + x.name@);
    } else {
        lemma_join_push(s.skip(1), x);
        assert(s.push(x).skip(1) =~= s.skip(1).push(x));
        assert(spec_join_artists(s.push(x)) =~= spec_join_artists(s) + seq![',', ' '] + x.name@);
    }
}

/// Builds the `", "`-separated artist line.
pub fn join_artists(artists: &Vec<Artist>) -> (r: String)
    ensures
        r@ == spec_join_artists(artists@),
{
    let mut r = String::new();
    let mut i: usize = 0;
    while i < artists.len()
        invariant
            i <= artists@.len(),
            r@ == spec_join_artists(artists@.take(i as int)),
        decreases artists@.len() - i,
    {
        let ghost r0 = r@;
        if i > 0 {
            r.append(", ");
        }
        r.append(artists[i].name.as_str());
        proof {
            reveal_strlit(", ");
            assert(", "@ =~= seq![',', ' ']);
            let prefix = artists@.take(i as int);
            assert(artists@.take(i as int + 1) =~= prefix.push(artists@[i as int]));
            if i == 0 {
                assert(prefix.push(artists@[0]) =~= seq![artists@[0]]);
                assert(r@ =~= artists@[0].name@);
            } else {
                lemma_join_push(prefix, artists@[i as int]);
                assert(r@ =~= spec_join_artists(prefix) + seq![',', ' ']
                    + artists@[i as int].name@);
            }
        }
        i += 1;
    }
    proof {
        assert(artists@.take(artists@.len() as int) =~= artists@);
    }
    r
}

/// Replaces each `(` `marker` `)` in `s` by the one-character string `sym`.
pub fn replace_marker(s: &str, marker: char, sym: &str) -> (r: String)
    requires
        sym@.len() == 1,
    ensures
        r@ == spec_replace_marker(s@, marker, sym@[0]),
{
    let n = s.unicode_len();
    let mut r = String::new();
    let mut i: usize = 0;
    proof {
        assert(s@.skip(0) =~= s@);
        assert(r@ + spec_replace_marker(s@, marker, sym@[0]) =~= spec_replace_marker(
            s@,
            marker,
            sym@[0],
        ));
    }
    while i < n
        invariant
            n == s@.len(),
            i <= n,
            sym@.len() == 1,
            spec_replace_marker(s@, marker, sym@[0]) == r@ + spec_replace_marker(
                s@.skip(i as int),
                marker,
                sym@[0],
            ),
        decreases n - i,
    {
        let ghost r0 = r@;
        let ghost rest = s@.skip(i as int);
        if n - i >= 3 && s.get_char(i) == '(' && s.get_char(i + 1) == marker && s.get_char(i + 2)
            == ')' {
            r.append(sym);
            proof {
                assert(rest[0] == '(' && rest[1] == marker && rest[2] == ')');
                assert(rest.skip(3) =~= s@.skip(i as int + 3));
                assert(r@ =~= r0 + seq![sym@[0]]);
                assert(r0 + spec_replace_marker(rest, marker, sym@[0]) =~= r@
                    + spec_replace_marker(s@.skip(i as int + 3), marker, sym@[0]));
            }
            i += 3;
        } else {
            let c = s.substring_char(i, i + 1);
            r.append(c);
            proof {
                assert(c@ =~= seq![rest[0]]);
                assert(rest.skip(1) =~= s@.skip(i as int + 1));
                if rest.len() >= 3 {
                    assert(!(rest[0] == '(' && rest[1] == marker && rest[2] == ')'));
                    assert(spec_replace_marker(rest, marker, sym@[0]) == seq![rest[0]]
                        + spec_replace_marker(rest.skip(1), marker, sym@[0]));
                } else {
                    assert(spec_replace_marker(rest, marker, sym@[0]) == rest);
                    assert(spec_replace_marker(rest.skip(1), marker, sym@[0]) == rest.skip(1));
                    assert(rest =~= seq![rest[0]] + rest.skip(1));
                }
                assert(r0 + spec_replace_marker(rest, marker, sym@[0]) =~= r@
                    + spec_replace_marker(s@.skip(i as int + 1), marker, sym@[0]));
            }
            i += 1;
        }
    }
    proof {
        assert(s@.skip(n as int) =~= Seq::<char>::empty());
        assert(r@ + Seq::<char>::empty() =~= r@);
    }
    r
}

/// Cleans one copyright text: marker replacement, then the symbol
/// prepended when no sign already opens the text.
pub fn clean_copyright(text: &str, marker: char, sym: &str) -> (r: String)
    requires
        sym@.len() == 1,
    ensures
        r@ == spec_clean(text@, marker, sym@[0]),
{
    let replaced = replace_marker(text, marker, sym);
    let n = replaced.as_str().unicode_len();
    if n > 0 {
        let c0 = replaced.as_str().get_char(0);
        if c0 == '\u{00A9}' || c0 == '\u{2117}' {
            return replaced;
        }
    }
    let mut r = String::from_str(sym);
    r.append(" ");
    r.append(replaced.as_str());
    proof {
        reveal_strlit(" ");
        assert(" "@ =~= seq![' ']);
        assert(r@ =~= seq![sym@[0], ' '] + replaced@);
    }
    r
}

/// Whether the kind string is exactly the one character `c`.
pub fn kind_is(s: &String, c: char) -> (b: bool)
    ensures
        b == (s@ == seq![c]),
{
    let n = s.as_str().unicode_len();
    if n == 1 {
        let c0 = s.as_str().get_char(0);
        proof {
            if c0 == c {
                assert(s@ =~= seq![c]);
            } else {
                assert(seq![c][0] == c);
            }
        }
        c0 == c
    } else {
        proof {
            assert(seq![c].len() == 1);
        }
        false
    }
}

proof fn lemma_first_c_skip(cs: Seq<Copyright>, i: int)
    requires
        0 <= i <= cs.len(),
        forall|j: int| 0 <= j < i ==> !spec_is_c(cs[j]),
    ensures
        spec_first_c(cs) == spec_first_c(cs.skip(i)),
    decreases i,
{
    if i > 0 {
        assert(!spec_is_c(cs[0]));
        lemma_first_c_skip(cs.skip(1), i - 1);
        assert(cs.skip(1).skip(i - 1) =~= cs.skip(i));
    } else {
        assert(cs.skip(0) =~= cs);
    }
}

/// The index of the entry the copyright line is built from, if any:
/// the first of kind `C`, else the first entry.
pub fn select_copyright(cs: &Vec<Copyright>) -> (r: Option<usize>)
    ensures
        match r {
            Some(i) => i < cs@.len() && spec_selected(cs@) == Some(cs@[i as int]),
            None => cs@.len() == 0 && spec_selected(cs@) is None,
        },
{
    let mut i: usize = 0;
    while i < cs.len()
        invariant
            i <= cs@.len(),
            forall|j: int| 0 <= j < i ==> !spec_is_c(cs@[j]),
        decreases cs@.len() - i,
    {
        if kind_is(&cs[i].copyright_type, 'C') {
            proof {
                lemma_first_c_skip(cs@, i as int);
                assert(cs@.skip(i as int)[0] == cs@[i as int]);
            }
            return Some(i);
        }
        i += 1;
    }
    proof {
        lemma_first_c_skip(cs@, cs@.len() as int);
        assert(cs@.skip(cs@.len() as int) =~= Seq::<Copyright>::empty());
    }
    if cs.len() > 0 {
        Some(0)
    } else {
        None
    }
}

/// Builds the displayed copyright line from a record's copyright entries.
pub fn copyright_line(cs: &Vec<Copyright>) -> (r: String)
    ensures
        r@ == spec_copyright_line(cs@),
{
    let selected = select_copyright(cs);
    match selected {
        None => String::new(),
        Some(i) => {
            if kind_is(&cs[i].copyright_type, 'C') {
                proof {
                    reveal_strlit("\u{00A9}");
                    assert("\u{00A9}"@ =~= seq!['\u{00A9}']);
                }
                clean_copyright(cs[i].text.as_str(), 'C', "\u{00A9}")
            } else if kind_is(&cs[i].copyright_type, 'P') {
                proof {
                    reveal_strlit("\u{2117}");
                    assert("\u{2117}"@ =~= seq!['\u{2117}']);
                }
                clean_copyright(cs[i].text.as_str(), 'P', "\u{2117}")
            } else {
                String::new()
            }
        },
    }
}

impl AlbumJson {
    /// Projects a raw record into its display-ready shape. Pure: the
    /// result is a function of the record alone.
    pub fn project(saved: &SavedAlbum) -> (r: AlbumJson)
        ensures
            spec_project_post(saved@, r),
    {
        let image_url = if saved.album.images.len() > 0 {
            saved.album.images[0].url.clone()
        } else {
            String::new()
        };
        AlbumJson {
            artists: join_artists(&saved.album.artists),
            image_url,
            name: saved.album.name.clone(),
            external_url: saved.album.external_url.clone(),
            copyright: copyright_line(&saved.album.copyrights),
        }
    }
}

/// Projection is a pure function of its input: two projections of equal
/// records agree on every displayed field.
pub proof fn lemma_project_pure(v1: AlbumView, v2: AlbumView, r1: AlbumJson, r2: AlbumJson)
    requires
        v1 == v2,
        spec_project_post(v1, r1),
        spec_project_post(v2, r2),
    ensures
        r1.artists@ == r2.artists@,
        r1.image_url@ == r2.image_url@,
        r1.name@ == r2.name@,
        r1.external_url@ == r2.external_url@,
        r1.copyright@ == r2.copyright@,
{
}

} // verus!
