//! The local index of owned remote playlists, keyed by watermark, rebuilt from each listing.
use vstd::prelude::*;
use crate::ownership::{is_owned, owned_key, playlist_key, SpotifyPlaylist};

verus! {

/// The first position at or after `i` whose key is `k`.
pub open spec fn key_pos<V>(s: Seq<(Seq<char>, V)>, k: Seq<char>, i: int) -> Option<int>
    decreases s.len() - i,
{
    if i < 0 || i >= s.len() {
        None
    } else if s[i].0 == k {
        Some(i)
    } else {
        key_pos(s, k, i + 1)
    }
}

/// The first position at or after `i` whose playlist is named `name`.
pub open spec fn name_pos(s: Seq<(Seq<char>, SpotifyPlaylist)>, name: Seq<char>, i: int) -> Option<int>
    decreases s.len() - i,
{
    if i < 0 || i >= s.len() {
        None
    } else if s[i].1.name@ == name {
        Some(i)
    } else {
        name_pos(s, name, i + 1)
    }
}

/// The entries after `p` is stored under `k`: it replaces the entry of that key, or comes last.
pub open spec fn index_insert<V>(s: Seq<(Seq<char>, V)>, k: Seq<char>, p: V) -> Seq<(Seq<char>, V)> {
    match key_pos(s, k, 0) {
        Some(j) => s.update(j, (k, p)),
        None => s.push((k, p)),
    }
}

/// The index after the owned playlists of one listed page are stored, in page order.
pub open spec fn absorb(s: Seq<(Seq<char>, SpotifyPlaylist)>, station: Seq<char>, page: Seq<SpotifyPlaylist>) -> Seq<(Seq<char>, SpotifyPlaylist)>
    decreases page.len(),
{
    if page.len() == 0 {
        s
    } else {
        let prev = absorb(s, station, page.drop_last());
        let p = page.last();
        match p.description {
            Some(d) => if is_owned(station, p.name@, d@) {
                index_insert(prev, playlist_key(p.name@, d@), p)
            } else {
                prev
            },
            None => prev,
        }
    }
}

/// No key occurs twice.
pub open spec fn keys_unique<V>(s: Seq<(Seq<char>, V)>) -> bool {
    forall|i: int, j: int| 0 <= i < j < s.len() ==> s[i].0 != s[j].0
}

/// The owned playlists, each under its key.
pub struct PlaylistIndex {
    pub entries: Vec<(String, SpotifyPlaylist)>,
}

impl View for PlaylistIndex {
    type V = Seq<(Seq<char>, SpotifyPlaylist)>;

    open spec fn view(&self) -> Seq<(Seq<char>, SpotifyPlaylist)> {
        self.entries@.map_values(|e: (String, SpotifyPlaylist)| (e.0@, e.1))
    }
}

pub proof fn lemma_key_pos_found<V>(s: Seq<(Seq<char>, V)>, k: Seq<char>, i: int)
    requires
        0 <= i,
    ensures
        key_pos(s, k, i) matches Some(j) ==> i <= j < s.len() && s[j].0 == k,
        key_pos(s, k, i) is None ==> forall|j: int| i <= j < s.len() ==> s[j].0 != k,
    decreases s.len() - i,
{
    if 0 <= i < s.len() && s[i].0 != k {
        lemma_key_pos_found(s, k, i + 1);
    }
}

/// Storing under a key keeps the keys unique.
pub proof fn lemma_insert_keeps_keys_unique<V>(s: Seq<(Seq<char>, V)>, k: Seq<char>, p: V)
    requires
        keys_unique(s),
    ensures
        keys_unique(index_insert(s, k, p)),
{
    lemma_key_pos_found(s, k, 0);
}

impl PlaylistIndex {
    /// Each key occurs once.
    pub open spec fn wf(&self) -> bool {
        keys_unique(self@)
    }

    pub fn new() -> (r: Self)
        ensures
            r@ == Seq::<(Seq<char>, SpotifyPlaylist)>::empty(),
            r.wf(),
    {
        let r = PlaylistIndex { entries: Vec::new() };
        assert(r@ =~= Seq::<(Seq<char>, SpotifyPlaylist)>::empty());
        r
    }

    pub fn clear(&mut self)
        ensures
            final(self)@ == Seq::<(Seq<char>, SpotifyPlaylist)>::empty(),
            final(self).wf(),
    {
        self.entries = Vec::new();
        assert(self@ =~= Seq::<(Seq<char>, SpotifyPlaylist)>::empty());
    }

    pub fn len(&self) -> (r: usize)
        ensures
            r == self@.len(),
    {
        self.entries.len()
    }

    /// Stores `p` under `key`, in place of what the key held.
    pub fn insert(&mut self, key: String, p: SpotifyPlaylist)
        ensures
            final(self)@ == index_insert(old(self)@, key@, p),
            old(self).wf() ==> final(self).wf(),
    {
        proof { if old(self).wf() { lemma_insert_keeps_keys_unique(old(self)@, key@, p); } }
        let mut i: usize = 0;
        while i < self.entries.len()
            invariant
                i <= self@.len(),
                self@ == old(self)@,
                key_pos(self@, key@, 0) == key_pos(self@, key@, i as int),
            decreases self@.len() - i,
        {
            if self.entries[i].0 == key {
                let ghost before = self@;
                self.entries.set(i, (key, p));
                assert(self@ =~= before.update(i as int, (key@, p)));
                return;
            }
            i += 1;
        }
        let ghost before = self@;
        self.entries.push((key, p));
        assert(self@ =~= before.push((key@, p)));
    }

    /// The first playlist named `name`.
    pub fn find_by_name(&self, name: &String) -> (r: Option<SpotifyPlaylist>)
        ensures
            match name_pos(self@, name@, 0) {
                Some(j) => r == Some(self@[j].1),
                None => r is None,
            },
    {
        let mut i: usize = 0;
        while i < self.entries.len()
            invariant
                i <= self@.len(),
                name_pos(self@, name@, 0) == name_pos(self@, name@, i as int),
            decreases self@.len() - i,
        {
            if self.entries[i].1.name == *name {
                return Some(self.entries[i].1.clone());
            }
            i += 1;
        }
        None
    }

    /// Stores the playlists of a listed page that this system owns for `station`.
    pub fn absorb_page(&mut self, station: &str, page: &Vec<SpotifyPlaylist>)
        ensures
            final(self)@ == absorb(old(self)@, station@, page@),
            old(self).wf() ==> final(self).wf(),
    {
        let mut i: usize = 0;
        while i < page.len()
            invariant
                i <= page@.len(),
                old(self).wf() ==> self.wf(),
                self@ == absorb(old(self)@, station@, page@.subrange(0, i as int)),
            decreases page@.len() - i,
        {
            let p = &page[i];
            assert(page@.subrange(0, i + 1).drop_last() =~= page@.subrange(0, i as int));
            match owned_key(station, p) {
                Some(k) => {
                    self.insert(k, p.clone());
                },
                None => {},
            }
            i += 1;
        }
        assert(page@.subrange(0, page@.len() as int) =~= page@);
    }
}

} // verus!
