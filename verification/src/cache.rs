//! The time-bounded album cache, keyed by session key.
//!
//! One instance serves one consumption mode: either full-batch
//! snapshots (`get`), or single-item rotation (`get_next`), which
//! cycles through the library as a ring buffer. Entries expire after a
//! fixed window counted from insertion — the TTL is not sliding — and
//! expired entries are reclaimed lazily on the next rotating access.

use vstd::hash_map::StringHashMap;
use vstd::prelude::*;
use vstd::string::*;

use crate::types::{views_of, AlbumView, SavedAlbum};

verus! {

/// The TTL of a batch-mode cache: long enough to cover a full
/// pagination sweep (half a day), in seconds.
pub const BATCH_TTL_SECS: u64 = 43200;

/// The TTL of a rotation-mode cache: thirty minutes, in seconds.
pub const ROTATION_TTL_SECS: u64 = 1800;

/// One cached library: the session's albums in their served order and
/// the timestamp at which the entry lapses.
pub struct CacheEntry {
    pub albums: Vec<SavedAlbum>,
    pub expires_at: u64,
}

/// The time-bounded cache from session key to album library.
pub struct Cache {
    entries: StringHashMap<CacheEntry>,
    ttl_secs: u64,
}

/// A sequence rotated by one step: the front moved to the back.
pub open spec fn spec_rotate1<A>(s: Seq<A>) -> Seq<A>
    recommends
        s.len() > 0,
{
    s.skip(1).push(s[0])
}

/// A sequence rotated by `n` single steps.
pub open spec fn spec_rotate_n<A>(s: Seq<A>, n: nat) -> Seq<A>
    decreases n,
{
    if n == 0 {
        s
    } else {
        spec_rotate1(spec_rotate_n(s, (n - 1) as nat))
    }
}

/// Clones a library; the copy denotes the same records.
pub fn clone_albums(v: &Vec<SavedAlbum>) -> (r: Vec<SavedAlbum>)
    ensures
        views_of(r@) == views_of(v@),
{
    let mut r: Vec<SavedAlbum> = Vec::new();
    let mut i: usize = 0;
    while i < v.len()
        invariant
            i <= v@.len(),
            r@.len() == i,
            forall|j: int| 0 <= j < i ==> r@[j]@ == v@[j]@,
        decreases v@.len() - i,
    {
        r.push(v[i].clone());
        i += 1;
    }
    proof {
        assert(views_of(r@) =~= views_of(v@));
    }
    r
}

impl Cache {
    /// The mapping the cache holds, as a mathematical map.
    pub closed spec fn spec_entries(&self) -> Map<Seq<char>, CacheEntry> {
        self.entries@
    }

    /// The eviction window this instance was created with, in seconds.
    pub closed spec fn spec_ttl(&self) -> u64 {
        self.ttl_secs
    }

    /// Whether `key` holds an entry that has not lapsed at `now`.
    pub open spec fn spec_live(&self, key: Seq<char>, now: u64) -> bool {
        self.spec_entries().contains_key(key) && now < self.spec_entries()[key].expires_at
    }

    /// The albums stored under `key`.
    pub open spec fn spec_albums(&self, key: Seq<char>) -> Seq<SavedAlbum>
        recommends
            self.spec_entries().contains_key(key),
    {
        self.spec_entries()[key].albums@
    }

    /// Creates an empty cache with the given eviction window.
    pub fn new(ttl_secs: u64) -> (c: Cache)
        ensures
            c.spec_ttl() == ttl_secs,
            c.spec_entries() == Map::<Seq<char>, CacheEntry>::empty(),
    {
        Cache { entries: StringHashMap::new(), ttl_secs }
    }

    /// Stores a library under `key`, replacing any existing entry and
    /// resetting its TTL to a full window from `now`.
    pub fn insert(&mut self, key: String, value: Vec<SavedAlbum>, now: u64)
        requires
            now + old(self).spec_ttl() <= u64::MAX,
        ensures
            final(self).spec_ttl() == old(self).spec_ttl(),
            final(self).spec_entries() == old(self).spec_entries().insert(
                key@,
                CacheEntry { albums: value, expires_at: (now + old(self).spec_ttl()) as u64 },
            ),
    {
        let expires_at = now + self.ttl_secs;
        self.entries.insert(key, CacheEntry { albums: value, expires_at });
    }

    /// Returns a full snapshot of the library cached under `key`, or
    /// nothing on a miss or past the entry's TTL. The cache itself is
    /// not changed.
    pub fn get(&self, key: &str, now: u64) -> (r: Option<Vec<SavedAlbum>>)
        ensures
            match r {
                Some(v) => self.spec_live(key@, now) && views_of(v@) == views_of(
                    self.spec_albums(key@),
                ),
                None => !self.spec_live(key@, now),
            },
    {
        match self.entries.get(key) {
            None => None,
            Some(e) => if now < e.expires_at {
                Some(clone_albums(&e.albums))
            } else {
                None
            },
        }
    }

    /// Serves the next item of the rotation: pops the front record,
    /// pushes a copy of it to the back, and returns it, so repeated
    /// calls cycle through the full library without draining it.
    /// Yields nothing when the entry is absent, lapsed — a lapsed
    /// entry is reclaimed here — or empty. The TTL is not refreshed.
    pub fn get_next(&mut self, key: &str, now: u64) -> (r: Option<SavedAlbum>)
        ensures
            final(self).spec_ttl() == old(self).spec_ttl(),
            spec_get_next_post(*old(self), *final(self), key@, now, r),
    {
        let expired = match self.entries.get(key) {
            None => {
                return None;
            },
            Some(e) => now >= e.expires_at,
        };
        if expired {
            self.entries.remove(key);
            return None;
        }
        let (mut albums, expires_at) = match self.entries.get(key) {
            Some(e) => (clone_albums(&e.albums), e.expires_at),
            None => {
                proof {
                    assert(false);
                }
                return None;
            },
        };
        if albums.len() == 0 {
            proof {
                assert(views_of(albums@).len() == albums@.len());
                assert(views_of(old(self).spec_albums(key@)).len() == old(self).spec_albums(
                    key@,
                ).len());
            }
            return None;
        }
        proof {
            assert(views_of(albums@).len() == albums@.len());
            assert(views_of(old(self).spec_albums(key@)).len() == old(self).spec_albums(
                key@,
            ).len());
        }
        let first = albums.remove(0);
        albums.push(first.clone());
        self.entries.insert(key.to_owned(), CacheEntry { albums, expires_at });
        proof {
            let old_views = views_of(old(self).spec_albums(key@));
            let new_views = views_of(self.spec_albums(key@));
            assert(new_views =~= spec_rotate1(old_views));
            assert(old(self).spec_entries().insert(key@, self.spec_entries()[key@])
                =~= self.spec_entries());
        }
        Some(first)
    }
}

/// How one rotating access relates the cache after the call to the
/// cache before it.
pub open spec fn spec_get_next_post(
    old_c: Cache,
    new_c: Cache,
    key: Seq<char>,
    now: u64,
    r: Option<SavedAlbum>,
) -> bool {
    if !old_c.spec_entries().contains_key(key) {
        r is None && new_c.spec_entries() == old_c.spec_entries()
    } else if now >= old_c.spec_entries()[key].expires_at {
        r is None && new_c.spec_entries() == old_c.spec_entries().remove(key)
    } else if old_c.spec_albums(key).len() == 0 {
        r is None && new_c.spec_entries() == old_c.spec_entries()
    } else {
        &&& (r matches Some(a) && a@ == old_c.spec_albums(key)[0]@)
        &&& new_c.spec_entries().contains_key(key)
        &&& new_c.spec_entries()[key].expires_at == old_c.spec_entries()[key].expires_at
        &&& views_of(new_c.spec_albums(key)) == spec_rotate1(views_of(old_c.spec_albums(key)))
        &&& new_c.spec_entries() == old_c.spec_entries().insert(key, new_c.spec_entries()[key])
    }
}

/// Rotating `n` times moves the first `n` items to the back, in order.
proof fn lemma_rotate_n_shape<A>(s: Seq<A>, n: int)
    requires
        s.len() > 0,
        0 <= n <= s.len(),
    ensures
        spec_rotate_n(s, n as nat) == s.skip(n) + s.take(n),
    decreases n,
{
    if n == 0 {
        assert(s.skip(0) + s.take(0) =~= s);
    } else {
        lemma_rotate_n_shape(s, n - 1);
        let t = s.skip(n - 1) + s.take(n - 1);
        assert(t[0] == s[n - 1]);
        assert(t.skip(1).push(t[0]) =~= s.skip(n) + s.take(n));
    }
}

/// The rotation is cyclic: on a library of `K` records, the record
/// served by the `i`-th of `K` consecutive rotating accesses is the
/// `i`-th record — each record exactly once per full rotation — and
/// after the `K`-th access the stored order is the original again.
/// This assumes no TTL lapse and no insertion in between, which is
/// what keeps every access inside the last branch of
/// `spec_get_next_post`.
pub proof fn lemma_rotation_cycle<A>(s: Seq<A>, i: int)
    requires
        s.len() > 0,
        0 <= i < s.len(),
    ensures
        spec_rotate_n(s, i as nat).len() == s.len(),
        spec_rotate_n(s, i as nat)[0] == s[i],
        spec_rotate_n(s, s.len()) == s,
{
    lemma_rotate_n_shape(s, i);
    lemma_rotate_n_shape(s, s.len() as int);
    assert(s.skip(s.len() as int) + s.take(s.len() as int) =~= s);
    assert((s.skip(i) + s.take(i))[0] == s[i]);
}

} // verus!
