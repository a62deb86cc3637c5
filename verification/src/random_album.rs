//! Draining the paginated catalog endpoint and serving display-ready
//! albums from the cache.
//!
//! The network is driven by the caller: it performs one page request
//! per step and hands the parsed page — or the fact of a failure —
//! to `FetchState::fetch_step`. A failed page ends the sweep with the
//! records accumulated so far; partial results are kept, not
//! discarded. The completed sweep is shuffled once and cached.

use vstd::prelude::*;
use vstd::string::*;

use crate::cache::{spec_get_next_post, spec_rotate1, Cache};
use crate::projector::spec_project_post;
use crate::rng::shuffle_albums;
use crate::types::{views_of, AlbumJson, Paging, SavedAlbum};

verus! {

/// The fixed, well-known URL of the first catalog page.
pub fn first_page_url() -> (r: &'static str)
    ensures
        r@ == "https://api.spotify.com/v1/me/albums"@,
{
    "https://api.spotify.com/v1/me/albums"
}

/// One pagination sweep in progress: the records accumulated so far,
/// the page still to be requested, and whether a page was lost.
pub struct FetchState {
    pub albums: Vec<SavedAlbum>,
    pub next_url: Option<String>,
    pub incomplete: bool,
}

impl FetchState {
    /// Starts a sweep at the first catalog page, with nothing
    /// accumulated.
    pub fn fetch_start() -> (s: FetchState)
        ensures
            s.albums@.len() == 0,
            (s.next_url matches Some(u) && u@ == "https://api.spotify.com/v1/me/albums"@),
            !s.incomplete,
    {
        FetchState {
            albums: Vec::new(),
            next_url: Some(String::from_str(first_page_url())),
            incomplete: false,
        }
    }

    /// Whether another page remains to be requested.
    pub fn in_progress(&self) -> (b: bool)
        ensures
            b == (self.next_url is Some),
    {
        self.next_url.is_some()
    }

    /// The page still to be requested, handed to the caller.
    pub fn pending_url(&self) -> (r: Option<&String>)
        ensures
            match r {
                Some(u) => self.next_url is Some && u@ == self.next_url->0@,
                None => self.next_url is None,
            },
    {
        self.next_url.as_ref()
    }

    /// Consumes the outcome of one page request: a parsed page extends
    /// the accumulated records and moves the sweep to that page's
    /// successor; a failed request (`None`) terminates the sweep early,
    /// keeping what was accumulated and marking it incomplete.
    pub fn fetch_step(&mut self, page: Option<Paging<SavedAlbum>>)
        requires
            old(self).next_url is Some,
        ensures
            match page {
                None => {
                    &&& final(self).albums@ == old(self).albums@
                    &&& final(self).next_url is None
                    &&& final(self).incomplete
                },
                Some(p) => {
                    &&& final(self).albums@ == old(self).albums@ + p.items@
                    &&& final(self).next_url == p.next
                    &&& final(self).incomplete == old(self).incomplete
                },
            },
    {
        match page {
            None => {
                self.next_url = None;
                self.incomplete = true;
            },
            Some(p) => {
                let Paging { mut items, next } = p;
                self.albums.append(&mut items);
                self.next_url = next;
            },
        }
    }
}

/// What one fetch step leaves behind, exactly as `fetch_step` ensures
/// it: a failed request keeps the accumulated records, a delivered
/// page appends its items.
pub open spec fn spec_fetch_post(
    pre: Seq<SavedAlbum>,
    page: Option<Paging<SavedAlbum>>,
    post: Seq<SavedAlbum>,
) -> bool {
    match page {
        None => post == pre,
        Some(p) => post == pre + p.items@,
    }
}

/// The items the delivered pages contribute, in order; a failed
/// request contributes nothing.
pub open spec fn spec_pages_items(pages: Seq<Option<Paging<SavedAlbum>>>) -> Seq<SavedAlbum>
    decreases pages.len(),
{
    if pages.len() == 0 {
        Seq::<SavedAlbum>::empty()
    } else {
        (match pages[0] {
            None => Seq::<SavedAlbum>::empty(),
            Some(p) => p.items@,
        }) + spec_pages_items(pages.skip(1))
    }
}

proof fn lemma_pages_items_push(
    pages: Seq<Option<Paging<SavedAlbum>>>,
    page: Option<Paging<SavedAlbum>>,
)
    ensures
        spec_pages_items(pages.push(page)) == spec_pages_items(pages) + (match page {
            None => Seq::<SavedAlbum>::empty(),
            Some(p) => p.items@,
        }),
    decreases pages.len(),
{
    let tail = (match page {
        None => Seq::<SavedAlbum>::empty(),
        Some(p) => p.items@,
    });
    if pages.len() == 0 {
        assert(pages.push(page).skip(1) =~= Seq::<Option<Paging<SavedAlbum>>>::empty());
        assert(pages.push(page)[0] == page);
        assert(spec_pages_items(pages.push(page)) == tail + spec_pages_items(
            pages.push(page).skip(1),
        ));
        assert(spec_pages_items(pages.push(page)) =~= spec_pages_items(pages) + tail);
    } else {
        lemma_pages_items_push(pages.skip(1), page);
        assert(pages.push(page).skip(1) =~= pages.skip(1).push(page));
        assert(pages.push(page)[0] == pages[0]);
        assert(spec_pages_items(pages.push(page)) =~= spec_pages_items(pages) + tail);
    }
}

/// Across a whole sweep, the accumulated records are exactly the items
/// of the pages that arrived, in their order: a sweep that starts
/// empty and applies one fetch step per page outcome ends with the
/// concatenation of the delivered pages' items — so a failed page
/// loses nothing accumulated before it and contributes nothing, and in
/// a run, where a failure ends the sweep, the cache receives the items
/// of precisely the pages up to the failed one.
pub proof fn lemma_sweep_accumulates(
    albums: Seq<Seq<SavedAlbum>>,
    pages: Seq<Option<Paging<SavedAlbum>>>,
)
    requires
        albums.len() == pages.len() + 1,
        albums[0] == Seq::<SavedAlbum>::empty(),
        forall|i: int|
            0 <= i < pages.len() ==> spec_fetch_post(#[trigger] albums[i], pages[i], albums[i + 1]),
    ensures
        albums.last() == spec_pages_items(pages),
    decreases pages.len(),
{
    if pages.len() == 0 {
        assert(spec_pages_items(pages) =~= Seq::<SavedAlbum>::empty());
    } else {
        let n = pages.len() as int;
        lemma_sweep_accumulates(albums.take(n), pages.take(n - 1));
        assert(pages.take(n - 1).push(pages[n - 1]) =~= pages);
        lemma_pages_items_push(pages.take(n - 1), pages[n - 1]);
        assert(albums.take(n).last() == albums[n - 1]);
        assert(spec_fetch_post(albums[n - 1], pages[n - 1], albums[n]));
    }
}

/// Caches a finished sweep under the session key: the accumulated
/// records are shuffled uniformly, then stored with a full TTL window
/// from `now`. The cached library holds exactly the fetched records —
/// only their order is left open.
pub fn store_fetched(cache: &mut Cache, key: &str, now: u64, state: FetchState)
    requires
        now + old(cache).spec_ttl() <= u64::MAX,
    ensures
        final(cache).spec_ttl() == old(cache).spec_ttl(),
        final(cache).spec_entries().contains_key(key@),
        final(cache).spec_entries()[key@].expires_at == now + old(cache).spec_ttl(),
        views_of(final(cache).spec_albums(key@)).to_multiset() == views_of(
            state.albums@,
        ).to_multiset(),
        final(cache).spec_entries() == old(cache).spec_entries().insert(
            key@,
            final(cache).spec_entries()[key@],
        ),
{
    let FetchState { mut albums, next_url: _, incomplete: _ } = state;
    shuffle_albums(&mut albums);
    cache.insert(key.to_owned(), albums, now);
    proof {
        assert(old(cache).spec_entries().insert(key@, cache.spec_entries()[key@])
            =~= cache.spec_entries());
    }
}

/// Serves the full cached batch for a session, each record projected
/// to its display shape, or nothing on a miss or a lapsed entry. An
/// empty vector is the empty-library state, not an error.
pub fn get_display_batch(cache: &Cache, key: &str, now: u64) -> (r: Option<Vec<AlbumJson>>)
    ensures
        match r {
            Some(v) => {
                &&& cache.spec_live(key@, now)
                &&& v@.len() == cache.spec_albums(key@).len()
                &&& forall|i: int|
                    0 <= i < v@.len() ==> spec_project_post(
                        cache.spec_albums(key@)[i]@,
                        #[trigger] v@[i],
                    )
            },
            None => !cache.spec_live(key@, now),
        },
{
    let albums = match cache.get(key, now) {
        None => {
            return None;
        },
        Some(albums) => albums,
    };
    proof {
        assert(views_of(albums@).len() == albums@.len());
        assert(views_of(cache.spec_albums(key@)).len() == cache.spec_albums(key@).len());
        assert forall|j: int| 0 <= j < albums@.len() implies albums@[j]@ == cache.spec_albums(
            key@,
        )[j]@ by {
            assert(views_of(albums@)[j] == albums@[j]@);
            assert(views_of(cache.spec_albums(key@))[j] == cache.spec_albums(key@)[j]@);
        }
    }
    let mut out: Vec<AlbumJson> = Vec::new();
    let mut i: usize = 0;
    while i < albums.len()
        invariant
            i <= albums@.len(),
            out@.len() == i,
            albums@.len() == cache.spec_albums(key@).len(),
            forall|j: int| 0 <= j < albums@.len() ==> albums@[j]@ == cache.spec_albums(key@)[j]@,
            forall|j: int|
                0 <= j < i ==> spec_project_post(cache.spec_albums(key@)[j]@, #[trigger] out@[j]),
        decreases albums@.len() - i,
    {
        out.push(AlbumJson::project(&albums[i]));
        i += 1;
    }
    Some(out)
}

/// Serves the next album of the session's rotation, projected to its
/// display shape, advancing the rotation by one step; nothing on a
/// miss, a lapsed entry or an empty library.
pub fn get_display_next(cache: &mut Cache, key: &str, now: u64) -> (r: Option<AlbumJson>)
    ensures
        final(cache).spec_ttl() == old(cache).spec_ttl(),
        match r {
            None => spec_get_next_post(
                *old(cache),
                *final(cache),
                key@,
                now,
                Option::<SavedAlbum>::None,
            ),
            Some(a) => {
                &&& old(cache).spec_live(key@, now)
                &&& old(cache).spec_albums(key@).len() > 0
                &&& spec_project_post(old(cache).spec_albums(key@)[0]@, a)
                &&& final(cache).spec_entries().contains_key(key@)
                &&& final(cache).spec_entries()[key@].expires_at == old(
                    cache,
                ).spec_entries()[key@].expires_at
                &&& views_of(final(cache).spec_albums(key@)) == spec_rotate1(
                    views_of(old(cache).spec_albums(key@)),
                )
                &&& final(cache).spec_entries() == old(cache).spec_entries().insert(
                    key@,
                    final(cache).spec_entries()[key@],
                )
            },
        },
{
    match cache.get_next(key, now) {
        None => None,
        Some(album) => Some(AlbumJson::project(&album)),
    }
}

} // verus!
