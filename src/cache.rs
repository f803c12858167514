//! The track search cache: (artist, song) to a resolved remote track or its known absence,
//! each entry with an expiry instant in seconds.
use vstd::prelude::*;
use crate::index::{index_insert, key_pos, keys_unique, lemma_insert_keeps_keys_unique, lemma_key_pos_found};
use crate::models::Track;
use crate::text::{trim, trim_str};

verus! {

/// How long a search outcome stays valid, in seconds: 14 days.
pub const TTL_SECS: u64 = 1209600;

/// An artist of a resolved track.
#[derive(Debug)]
pub struct SpotifyArtist {
    pub name: String,
}

/// A track of the remote catalogue.
#[derive(Debug)]
pub struct SpotifyTrack {
    pub id: String,
    pub name: String,
    pub artists: Vec<SpotifyArtist>,
    pub uri: String,
}

/// A track seen as its id, name, artist names and playable reference.
pub type TrackView = (Seq<char>, Seq<char>, Seq<Seq<char>>, Seq<char>);

impl View for SpotifyTrack {
    type V = TrackView;

    open spec fn view(&self) -> TrackView {
        (self.id@, self.name@, self.artists@.map_values(|a: SpotifyArtist| a.name@), self.uri@)
    }
}

impl Clone for SpotifyArtist {
    fn clone(&self) -> (r: Self)
        ensures
            r == *self,
    {
        SpotifyArtist { name: self.name.clone() }
    }
}

impl Clone for SpotifyTrack {
    fn clone(&self) -> (r: Self)
        ensures
            r@ == self@,
    {
        let mut artists: Vec<SpotifyArtist> = Vec::new();
        let mut i: usize = 0;
        while i < self.artists.len()
            invariant
                i <= self.artists@.len(),
                artists@ == self.artists@.subrange(0, i as int),
            decreases self.artists@.len() - i,
        {
            artists.push(self.artists[i].clone());
            i += 1;
            assert(artists@ =~= self.artists@.subrange(0, i as int));
        }
        assert(artists@ =~= self.artists@);
        SpotifyTrack { id: self.id.clone(), name: self.name.clone(), artists, uri: self.uri.clone() }
    }
}

pub open spec fn opt_track_view(t: Option<SpotifyTrack>) -> Option<TrackView> {
    match t {
        Some(t) => Some(t@),
        None => None,
    }
}

/// A search outcome, found or not, and the instant after which it is stale.
#[derive(Debug)]
pub struct CacheEntry {
    pub track: Option<SpotifyTrack>,
    pub expires_at: u64,
}

pub type EntryView = (Option<TrackView>, u64);

impl View for CacheEntry {
    type V = EntryView;

    open spec fn view(&self) -> EntryView {
        (opt_track_view(self.track), self.expires_at)
    }
}

impl Clone for CacheEntry {
    fn clone(&self) -> (r: Self)
        ensures
            r@ == self@,
    {
        let track = match &self.track {
            Some(t) => Some(t.clone()),
            None => None,
        };
        CacheEntry { track, expires_at: self.expires_at }
    }
}

/// The expiry of an outcome stored at `now`: `now` plus the TTL, held at the largest instant.
pub open spec fn expiry(now: u64) -> u64 {
    if now <= u64::MAX - TTL_SECS { (now + TTL_SECS) as u64 } else { u64::MAX }
}

/// Whether an entry still counts at `now`: it is past its expiry only after that instant.
pub open spec fn is_fresh(e: EntryView, now: u64) -> bool {
    now <= e.1
}

/// The entries that still count at `now`, in order.
pub open spec fn unexpired(s: Seq<(Seq<char>, EntryView)>, now: u64) -> Seq<(Seq<char>, EntryView)>
    decreases s.len(),
{
    if s.len() == 0 {
        s
    } else if is_fresh(s.last().1, now) {
        unexpired(s.drop_last(), now).push(s.last())
    } else {
        unexpired(s.drop_last(), now)
    }
}

/// The entry stored under `k`.
pub open spec fn cache_lookup(s: Seq<(Seq<char>, EntryView)>, k: Seq<char>) -> Option<EntryView> {
    match key_pos(s, k, 0) {
        Some(j) => Some(s[j].1),
        None => None,
    }
}

/// The cache key of a track: trimmed artist, `" - "`, trimmed song; case is kept.
pub open spec fn cache_key_spec(t: Track) -> Seq<char> {
    trim(t.artist@) + " - "@ + trim(t.song@)
}

/// The cache key of a track.
pub fn cache_key(t: &Track) -> (r: String)
    ensures
        r@ == cache_key_spec(*t),
{
    let mut r = trim_str(t.artist.as_str());
    r.append(" - ");
    r.append(trim_str(t.song.as_str()).as_str());
    r
}

/// The search outcomes, each under its key.
pub struct TrackCache {
    pub entries: Vec<(String, CacheEntry)>,
}

impl View for TrackCache {
    type V = Seq<(Seq<char>, EntryView)>;

    open spec fn view(&self) -> Seq<(Seq<char>, EntryView)> {
        self.entries@.map_values(|e: (String, CacheEntry)| (e.0@, e.1@))
    }
}

impl TrackCache {
    /// Each key occurs once.
    pub open spec fn wf(&self) -> bool {
        keys_unique(self@)
    }

    pub fn new() -> (r: Self)
        ensures
            r@ == Seq::<(Seq<char>, EntryView)>::empty(),
            r.wf(),
    {
        let r = TrackCache { entries: Vec::new() };
        assert(r@ =~= Seq::<(Seq<char>, EntryView)>::empty());
        r
    }

    pub fn len(&self) -> (r: usize)
        ensures
            r == self@.len(),
    {
        self.entries.len()
    }

    /// The entry under `key`, fresh or not: staleness is enforced when the cache is saved.
    pub fn lookup(&self, key: &String) -> (r: Option<CacheEntry>)
        ensures
            match cache_lookup(self@, key@) {
                Some(e) => r is Some && r->Some_0@ == e,
                None => r is None,
            },
    {
        let mut i: usize = 0;
        while i < self.entries.len()
            invariant
                i <= self@.len(),
                key_pos(self@, key@, 0) == key_pos(self@, key@, i as int),
            decreases self@.len() - i,
        {
            if self.entries[i].0 == *key {
                return Some(self.entries[i].1.clone());
            }
            i += 1;
        }
        None
    }

    /// Puts `entry` under `key`, replacing what the key held.
    pub fn restore(&mut self, key: String, entry: CacheEntry)
        ensures
            final(self)@ == index_insert(old(self)@, key@, entry@),
            old(self).wf() ==> final(self).wf(),
    {
        proof { if old(self).wf() { lemma_insert_keeps_keys_unique(old(self)@, key@, entry@); } }
        let ghost ev = entry@;
        let mut i: usize = 0;
        while i < self.entries.len()
            invariant
                i <= self@.len(),
                self@ == old(self)@,
                entry@ == ev,
                key_pos(self@, key@, 0) == key_pos(self@, key@, i as int),
            decreases self@.len() - i,
        {
            if self.entries[i].0 == key {
                let ghost before = self@;
                self.entries.set(i, (key, entry));
                assert(self@ =~= before.update(i as int, (key@, ev)));
                return;
            }
            i += 1;
        }
        let ghost before = self@;
        self.entries.push((key, entry));
        assert(self@ =~= before.push((key@, ev)));
    }

    /// Stores a search outcome made at `now` under `key`, replacing what the key held.
    pub fn store(&mut self, key: String, track: Option<SpotifyTrack>, now: u64)
        ensures
            final(self)@ == index_insert(old(self)@, key@, (opt_track_view(track), expiry(now))),
            old(self).wf() ==> final(self).wf(),
    {
        let expires_at = if now <= u64::MAX - TTL_SECS { now + TTL_SECS } else { u64::MAX };
        self.restore(key, CacheEntry { track, expires_at });
    }

    /// Drops every entry that is past its expiry at `now`.
    pub fn purge_expired(&mut self, now: u64)
        ensures
            final(self)@ == unexpired(old(self)@, now),
            old(self).wf() ==> final(self).wf(),
    {
        proof { lemma_unexpired_members(old(self)@, now); if old(self).wf() { lemma_unexpired_keeps_keys_unique(old(self)@, now); } }
        let mut kept: Vec<(String, CacheEntry)> = Vec::new();
        let ghost all = self@;
        let n = self.entries.len();
        let mut i: usize = 0;
        while i < n
            invariant
                n == old(self)@.len(),
                self@ == old(self)@,
                i <= n,
                kept@.map_values(|e: (String, CacheEntry)| (e.0@, e.1@)) == unexpired(
                    old(self)@.subrange(0, i as int),
                    now,
                ),
            decreases n - i,
        {
            assert(old(self)@.subrange(0, i + 1).drop_last() =~= old(self)@.subrange(0, i as int));
            let ghost before = kept@;
            if now <= self.entries[i].1.expires_at {
                let e = self.entries[i].1.clone();
                let k = self.entries[i].0.clone();
                kept.push((k, e));
                assert(kept@.map_values(|e: (String, CacheEntry)| (e.0@, e.1@)) =~= before.map_values(
                    |e: (String, CacheEntry)| (e.0@, e.1@),
                ).push(old(self)@[i as int]));
            }
            i += 1;
        }
        assert(old(self)@.subrange(0, n as int) =~= old(self)@);
        self.entries = kept;
    }
}

/// An outcome stored at `t` is gone once the cache has been purged at any instant after its
/// expiry, so that a later lookup misses.
pub proof fn lemma_stale_entry_purged(s: Seq<(Seq<char>, EntryView)>, k: Seq<char>, v: Option<TrackView>, t: u64, now: u64)
    requires
        keys_unique(s),
        now > expiry(t),
    ensures
        cache_lookup(unexpired(index_insert(s, k, (v, expiry(t))), now), k) is None,
{
    let s2 = index_insert(s, k, (v, expiry(t)));
    lemma_key_pos_found(s, k, 0);
    lemma_unexpired_drops_key(s2, k, now);
}

proof fn lemma_unexpired_drops_key(s: Seq<(Seq<char>, EntryView)>, k: Seq<char>, now: u64)
    requires
        forall|j: int| 0 <= j < s.len() && s[j].0 == k ==> !is_fresh(s[j].1, now),
    ensures
        forall|i: int| 0 <= i < unexpired(s, now).len() ==> (#[trigger] unexpired(s, now)[i]).0 != k,
        cache_lookup(unexpired(s, now), k) is None,
    decreases s.len(),
{
    if s.len() > 0 {
        let p = s.drop_last();
        assert forall|j: int| 0 <= j < p.len() && p[j].0 == k implies !is_fresh(p[j].1, now) by {
            assert(p[j] == s[j]);
        }
        lemma_unexpired_drops_key(p, k, now);
        assert forall|i: int| 0 <= i < unexpired(s, now).len() implies (#[trigger] unexpired(s, now)[i]).0 != k by {
            if i < unexpired(p, now).len() {
                assert(unexpired(s, now)[i] == unexpired(p, now)[i]);
            }
        }
    }
    lemma_key_pos_found(unexpired(s, now), k, 0);
}

proof fn lemma_unexpired_members(s: Seq<(Seq<char>, EntryView)>, now: u64)
    ensures
        forall|i: int| #![trigger unexpired(s, now)[i]] 0 <= i < unexpired(s, now).len() ==> exists|j: int| 0 <= j < s.len() && s[j] == unexpired(s, now)[i],
    decreases s.len(),
{
    if s.len() > 0 {
        let p = s.drop_last();
        lemma_unexpired_members(p, now);
        let u = unexpired(s, now);
        let up = unexpired(p, now);
        assert forall|i: int| #![trigger u[i]] 0 <= i < u.len() implies exists|j: int| 0 <= j < s.len() && s[j] == u[i] by {
            if i < up.len() {
                assert(u[i] == up[i]);
                let j = choose|j: int| 0 <= j < p.len() && p[j] == up[i];
                assert(s[j] == p[j]);
            } else {
                assert(u[i] == s[s.len() - 1]);
            }
        }
    }
}

proof fn lemma_unexpired_keeps_keys_unique(s: Seq<(Seq<char>, EntryView)>, now: u64)
    requires
        keys_unique(s),
    ensures
        keys_unique(unexpired(s, now)),
    decreases s.len(),
{
    if s.len() > 0 {
        let p = s.drop_last();
        assert(keys_unique(p));
        lemma_unexpired_keeps_keys_unique(p, now);
        lemma_unexpired_members(p, now);
        let up = unexpired(p, now);
        if is_fresh(s.last().1, now) {
            let u = unexpired(s, now);
            assert forall|i: int, j: int| 0 <= i < j < u.len() implies u[i].0 != u[j].0 by {
                if j == u.len() - 1 {
                    assert(u[i] == up[i]);
                    let k = choose|k: int| 0 <= k < p.len() && p[k] == up[i];
                    assert(s[k] == p[k]);
                    assert(s[s.len() - 1].0 != s[k].0);
                } else {
                    assert(u[i] == up[i]);
                    assert(u[j] == up[j]);
                }
            }
        }
    }
}

} // verus!
