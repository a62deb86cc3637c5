//! The album records that the catalog endpoint yields, and the
//! display-ready projection served to the presentation layer.

use vstd::prelude::*;

verus! {

/// One page of a paginated catalog response: a batch of items and the
/// URL of the next page, absent on the last page.
pub struct Paging<T> {
    pub items: Vec<T>,
    pub next: Option<String>,
}

/// An entry of the user's saved-album library as the catalog returns it.
pub struct SavedAlbum {
    pub album: Album,
}

/// A raw catalog album record. Immutable once fetched.
pub struct Album {
    pub artists: Vec<Artist>,
    pub images: Vec<Image>,
    pub name: String,
    pub external_url: String,
    pub copyrights: Vec<Copyright>,
}

/// A contributing artist of an album.
pub struct Artist {
    pub name: String,
}

/// A cover image of an album.
pub struct Image {
    pub url: String,
}

/// A copyright entry of an album: its text and its kind
/// (`"C"` for copyright, `"P"` for phonogram, anything else passes through).
pub struct Copyright {
    pub text: String,
    pub copyright_type: String,
}

/// The display-ready shape of an album: artists joined, primary image,
/// cleaned copyright line.
pub struct AlbumJson {
    pub artists: String,
    pub image_url: String,
    pub name: String,
    pub external_url: String,
    pub copyright: String,
}

/// The mathematical model of an album record: each field as the
/// sequence it denotes. Two records with equal views are
/// indistinguishable to every function of this library.
pub ghost struct AlbumView {
    pub artists: Seq<Artist>,
    pub images: Seq<Image>,
    pub name: Seq<char>,
    pub external_url: Seq<char>,
    pub copyrights: Seq<Copyright>,
}

impl View for SavedAlbum {
    type V = AlbumView;

    open spec fn view(&self) -> AlbumView {
        AlbumView {
            artists: self.album.artists@,
            images: self.album.images@,
            name: self.album.name@,
            external_url: self.album.external_url@,
            copyrights: self.album.copyrights@,
        }
    }
}

/// The views of a sequence of records, element for element.
pub open spec fn views_of(s: Seq<SavedAlbum>) -> Seq<AlbumView> {
    s.map_values(|a: SavedAlbum| a@)
}

impl Clone for Artist {
    /// Clones the artist; the copy equals the original.
    fn clone(&self) -> (res: Self)
        ensures
            res == *self,
    {
        Artist { name: self.name.clone() }
    }
}

impl Clone for Image {
    /// Clones the image; the copy equals the original.
    fn clone(&self) -> (res: Self)
        ensures
            res == *self,
    {
        Image { url: self.url.clone() }
    }
}

impl Clone for Copyright {
    /// Clones the entry; the copy equals the original.
    fn clone(&self) -> (res: Self)
        ensures
            res == *self,
    {
        Copyright { text: self.text.clone(), copyright_type: self.copyright_type.clone() }
    }
}

fn clone_artists(v: &Vec<Artist>) -> (r: Vec<Artist>)
    ensures
        r@ == v@,
{
    let mut r: Vec<Artist> = Vec::new();
    let mut i: usize = 0;
    while i < v.len()
        invariant
            i <= v@.len(),
            r@ == v@.take(i as int),
        decreases v@.len() - i,
    {
        r.push(v[i].clone());
        proof {
            assert(v@.take(i as int + 1) =~= v@.take(i as int).push(v@[i as int]));
        }
        i += 1;
    }
    proof {
        assert(v@.take(v@.len() as int) =~= v@);
    }
    r
}

fn clone_images(v: &Vec<Image>) -> (r: Vec<Image>)
    ensures
        r@ == v@,
{
    let mut r: Vec<Image> = Vec::new();
    let mut i: usize = 0;
    while i < v.len()
        invariant
            i <= v@.len(),
            r@ == v@.take(i as int),
        decreases v@.len() - i,
    {
        r.push(v[i].clone());
        proof {
            assert(v@.take(i as int + 1) =~= v@.take(i as int).push(v@[i as int]));
        }
        i += 1;
    }
    proof {
        assert(v@.take(v@.len() as int) =~= v@);
    }
    r
}

fn clone_copyrights(v: &Vec<Copyright>) -> (r: Vec<Copyright>)
    ensures
        r@ == v@,
{
    let mut r: Vec<Copyright> = Vec::new();
    let mut i: usize = 0;
    while i < v.len()
        invariant
            i <= v@.len(),
            r@ == v@.take(i as int),
        decreases v@.len() - i,
    {
        r.push(v[i].clone());
        proof {
            assert(v@.take(i as int + 1) =~= v@.take(i as int).push(v@[i as int]));
        }
        i += 1;
    }
    proof {
        assert(v@.take(v@.len() as int) =~= v@);
    }
    r
}

impl Clone for Album {
    /// Clones the record; the copy denotes the same sequences field
    /// for field.
    fn clone(&self) -> (res: Self)
        ensures
            res.artists@ == self.artists@,
            res.images@ == self.images@,
            res.name@ == self.name@,
            res.external_url@ == self.external_url@,
            res.copyrights@ == self.copyrights@,
    {
        Album {
            artists: clone_artists(&self.artists),
            images: clone_images(&self.images),
            name: self.name.clone(),
            external_url: self.external_url.clone(),
            copyrights: clone_copyrights(&self.copyrights),
        }
    }
}

impl Clone for SavedAlbum {
    /// Clones the record; the copy has the same view.
    fn clone(&self) -> (res: Self)
        ensures
            res@ == self@,
    {
        SavedAlbum { album: self.album.clone() }
    }
}

} // verus!
