//! Shows, tracks, and the per-show groups that the reconciler works on.
use vstd::prelude::*;
use crate::text::{
    chars_of, decimal, decimal_spec, is_ws, is_ws_spec, replace_chars, replace_spec, string_of,
    trim, trim_chars, trim_str, until_char, until_char_chars,
};

verus! {

/// One broadcast of a show; `id` grows over time within a station.
#[derive(Debug)]
pub struct Show {
    pub id: u64,
    pub title: String,
    pub url: String,
    pub start_time: String,
    pub end_time: String,
}

/// One played track as the schedule source lists it.
#[derive(Debug)]
pub struct Track {
    pub artist: String,
    pub song: String,
    pub album: String,
    pub label: Option<String>,
    pub time: Option<String>,
}

/// A show together with the tracks of one broadcast.
#[derive(Debug)]
pub struct ShowEpisode {
    pub show: Show,
    pub tracks: Vec<Track>,
}

/// The episodes of one (station, show title) pair over the trailing week.
#[derive(Debug)]
pub struct ShowGroup {
    pub station: String,
    pub show_name: String,
    pub episodes: Vec<ShowEpisode>,
}

pub fn clone_opt_string(o: &Option<String>) -> (r: Option<String>)
    ensures
        r == *o,
{
    match o {
        Some(s) => Some(s.clone()),
        None => None,
    }
}

impl Clone for Show {
    fn clone(&self) -> (r: Self)
        ensures
            r == *self,
    {
        Show {
            id: self.id,
            title: self.title.clone(),
            url: self.url.clone(),
            start_time: self.start_time.clone(),
            end_time: self.end_time.clone(),
        }
    }
}

impl Clone for Track {
    fn clone(&self) -> (r: Self)
        ensures
            r == *self,
    {
        Track {
            artist: self.artist.clone(),
            song: self.song.clone(),
            album: self.album.clone(),
            label: clone_opt_string(&self.label),
            time: clone_opt_string(&self.time),
        }
    }
}

pub fn clone_tracks(ts: &Vec<Track>) -> (r: Vec<Track>)
    ensures
        r@ == ts@,
{
    let mut r: Vec<Track> = Vec::new();
    let mut i: usize = 0;
    while i < ts.len()
        invariant
            i <= ts@.len(),
            r@ == ts@.subrange(0, i as int),
        decreases ts@.len() - i,
    {
        r.push(ts[i].clone());
        i += 1;
        assert(r@ =~= ts@.subrange(0, i as int));
    }
    r
}

impl Clone for ShowEpisode {
    fn clone(&self) -> (r: Self)
        ensures
            r.show == self.show,
            r.tracks@ == self.tracks@,
    {
        ShowEpisode { show: self.show.clone(), tracks: clone_tracks(&self.tracks) }
    }
}

/// Characters that survive sanitizing: ASCII ones and white space.
pub open spec fn keep_char(c: char) -> bool {
    (c as u32) < 128 || is_ws_spec(c)
}

/// `s` without the characters that `keep_char` rejects.
pub open spec fn keep_only(s: Seq<char>) -> Seq<char>
    decreases s.len(),
{
    if s.len() == 0 {
        s
    } else if keep_char(s.last()) {
        keep_only(s.drop_last()).push(s.last())
    } else {
        keep_only(s.drop_last())
    }
}

/// The fixed substitutions applied to a show title, in order.
pub open spec fn substitute(t: Seq<char>) -> Seq<char> {
    let a = replace_spec(t, "(((\u{221e})))"@, "Infinity"@);
    let b = replace_spec(a, "&amp;"@, "&"@);
    let c = replace_spec(b, "&lt;"@, "<"@);
    let d = replace_spec(c, "&gt;"@, ">"@);
    replace_spec(d, "&quot;"@, "\""@)
}

/// A show title as it may stand in a playlist name.
pub open spec fn sanitize(t: Seq<char>) -> Seq<char> {
    trim(keep_only(substitute(t)))
}

/// The canonical playlist name of a station's show.
pub open spec fn canonical_name(station: Seq<char>, title: Seq<char>) -> Seq<char> {
    station + " - "@ + sanitize(title)
}

fn keep_only_chars(cs: &Vec<char>) -> (r: Vec<char>)
    ensures
        r@ == keep_only(cs@),
{
    let mut r: Vec<char> = Vec::new();
    let mut i: usize = 0;
    while i < cs.len()
        invariant
            i <= cs@.len(),
            r@ == keep_only(cs@.subrange(0, i as int)),
        decreases cs@.len() - i,
    {
        let c = cs[i];
        let u = c as u32;
        assert(cs@.subrange(0, i + 1).drop_last() =~= cs@.subrange(0, i as int));
        if u < 128 || is_ws(c) {
            r.push(c);
        }
        i += 1;
    }
    assert(cs@.subrange(0, cs@.len() as int) =~= cs@);
    r
}

/// Sanitizes a show title for use in a playlist name.
pub fn sanitize_title(t: &str) -> (r: String)
    ensures
        r@ == sanitize(t@),
{
    let a = replace_chars(&chars_of(t), &chars_of("(((\u{221e})))"), &chars_of("Infinity"));
    let b = replace_chars(&a, &chars_of("&amp;"), &chars_of("&"));
    let c = replace_chars(&b, &chars_of("&lt;"), &chars_of("<"));
    let d = replace_chars(&c, &chars_of("&gt;"), &chars_of(">"));
    let e = replace_chars(&d, &chars_of("&quot;"), &chars_of("\""));
    string_of(&trim_chars(&keep_only_chars(&e)))
}

/// Every track of the episodes, episode after episode.
pub open spec fn flat_tracks(eps: Seq<ShowEpisode>) -> Seq<Track>
    decreases eps.len(),
{
    if eps.len() == 0 {
        Seq::empty()
    } else {
        flat_tracks(eps.drop_last()) + eps.last().tracks@
    }
}

/// What `str::to_lowercase` returns for a string.
pub uninterp spec fn lower_of(s: Seq<char>) -> Seq<char>;

/// Relies on `str::to_lowercase`: Unicode lower-case mapping, a function of the characters alone.
#[verifier::external_body]
fn lowercase(s: &str) -> (r: String)
    ensures
        r@ == lower_of(s@),
{
    s.to_lowercase()
}

/// The identity of a track for deduplication: trimmed, lower-cased artist and song.
pub open spec fn track_key(t: Track) -> (Seq<char>, Seq<char>) {
    (lower_of(trim(t.artist@)), lower_of(trim(t.song@)))
}

/// The first track of each identity, in the order first seen.
pub open spec fn dedup(ts: Seq<Track>) -> Seq<Track>
    decreases ts.len(),
{
    if ts.len() == 0 {
        ts
    } else {
        let prev = dedup(ts.drop_last());
        if exists|j: int| 0 <= j < ts.len() - 1 && track_key(#[trigger] ts[j]) == track_key(ts.last()) {
            prev
        } else {
            prev.push(ts.last())
        }
    }
}

/// A key occurs among the kept tracks exactly when it occurs among all tracks.
pub proof fn lemma_dedup_keys(ts: Seq<Track>, k: (Seq<char>, Seq<char>))
    ensures
        (exists|i: int| 0 <= i < dedup(ts).len() && track_key(#[trigger] dedup(ts)[i]) == k) <==> (
        exists|j: int| 0 <= j < ts.len() && track_key(#[trigger] ts[j]) == k),
    decreases ts.len(),
{
    if ts.len() > 0 {
        let p = ts.drop_last();
        lemma_dedup_keys(p, k);
        if exists|i: int| 0 <= i < dedup(ts).len() && track_key(#[trigger] dedup(ts)[i]) == k {
            let i = choose|i: int| 0 <= i < dedup(ts).len() && track_key(#[trigger] dedup(ts)[i]) == k;
            if i < dedup(p).len() {
                assert(dedup(p)[i] == dedup(ts)[i]);
                let j = choose|j: int| 0 <= j < p.len() && track_key(#[trigger] p[j]) == k;
                assert(ts[j] == p[j]);
            } else {
                assert(track_key(ts[ts.len() - 1]) == k);
            }
        }
        if exists|j: int| 0 <= j < ts.len() && track_key(#[trigger] ts[j]) == k {
            let j = choose|j: int| 0 <= j < ts.len() && track_key(#[trigger] ts[j]) == k;
            if j < ts.len() - 1 {
                assert(p[j] == ts[j]);
                let i = choose|i: int| 0 <= i < dedup(p).len() && track_key(#[trigger] dedup(p)[i]) == k;
                assert(dedup(ts)[i] == dedup(p)[i]);
            } else if exists|j2: int| 0 <= j2 < ts.len() - 1 && track_key(#[trigger] ts[j2]) == track_key(ts.last()) {
                let j2 = choose|j2: int| 0 <= j2 < ts.len() - 1 && track_key(#[trigger] ts[j2]) == track_key(ts.last());
                assert(p[j2] == ts[j2]);
                let i = choose|i: int| 0 <= i < dedup(p).len() && track_key(#[trigger] dedup(p)[i]) == k;
                assert(dedup(ts)[i] == dedup(p)[i]);
            } else {
                assert(track_key(dedup(ts)[dedup(p).len() as int]) == k);
            }
        }
    }
}

/// The largest id, or 0 for none.
pub open spec fn max_id(ids: Seq<u64>) -> u64
    decreases ids.len(),
{
    if ids.len() == 0 {
        0
    } else {
        let m = max_id(ids.drop_last());
        if ids.last() > m { ids.last() } else { m }
    }
}

/// The show ids of the episodes, in order.
pub open spec fn episode_ids(eps: Seq<ShowEpisode>) -> Seq<u64> {
    eps.map_values(|e: ShowEpisode| e.show.id)
}

/// The text that a playlist's description carries for a group.
pub open spec fn description_text(
    station: Seq<char>,
    title: Seq<char>,
    episodes: nat,
    latest: u64,
    stamp: Seq<char>,
) -> Seq<char> {
    "Generated from Spinitron playlists. Station: "@ + station + " Show: "@ + sanitize(title)
        + " Episodes: "@ + decimal_spec(episodes) + " Latest ID: "@ + decimal_spec(latest as nat)
        + " Last updated: "@ + stamp
}

/// Relies on `chrono::Utc::now` and its `format`: the current UTC time as `YYYY-MM-DD HH:MM UTC`.
#[verifier::external_body]
fn utc_stamp() -> (r: String) {
    chrono::Utc::now().format("%Y-%m-%d %H:%M UTC").to_string()
}

impl ShowGroup {
    /// `"{station} - {sanitized show title}"`.
    pub fn playlist_name(&self) -> (r: String)
        ensures
            r@ == canonical_name(self.station@, self.show_name@),
    {
        let mut r = self.station.clone();
        r.append(" - ");
        let t = sanitize_title(self.show_name.as_str());
        r.append(t.as_str());
        r
    }

    /// The tracks of all episodes, each identity once, first occurrence kept.
    pub fn all_tracks(&self) -> (r: Vec<Track>)
        ensures
            r@ == dedup(flat_tracks(self.episodes@)),
    {
        let mut out: Vec<Track> = Vec::new();
        let mut keys: Vec<(String, String)> = Vec::new();
        let ghost mut seen: Seq<Track> = Seq::empty();
        let mut e: usize = 0;
        while e < self.episodes.len()
            invariant
                e <= self.episodes@.len(),
                seen == flat_tracks(self.episodes@.subrange(0, e as int)),
                out@ == dedup(seen),
                keys@.len() == out@.len(),
                forall|i: int| 0 <= i < keys@.len() ==> (#[trigger] keys@[i].0@, keys@[i].1@) == track_key(out@[i]),
            decreases self.episodes@.len() - e,
        {
            let tracks = &self.episodes[e].tracks;
            let ghost base = seen;
            let mut t: usize = 0;
            while t < tracks.len()
                invariant
                    e < self.episodes@.len(),
                    tracks == self.episodes@[e as int].tracks,
                    t <= tracks@.len(),
                    seen == base + tracks@.subrange(0, t as int),
                    out@ == dedup(seen),
                    keys@.len() == out@.len(),
                    forall|i: int| 0 <= i < keys@.len() ==> (#[trigger] keys@[i].0@, keys@[i].1@) == track_key(out@[i]),
                decreases tracks@.len() - t,
            {
                let track = &tracks[t];
                let a = lowercase(trim_str(track.artist.as_str()).as_str());
                let s = lowercase(trim_str(track.song.as_str()).as_str());
                let ghost k = track_key(*track);
                assert((a@, s@) == k);
                let mut found = false;
                let mut i: usize = 0;
                while i < keys.len()
                    invariant
                        i <= keys@.len(),
                        k == (a@, s@),
                        found ==> exists|j: int| 0 <= j < keys@.len() && (#[trigger] keys@[j].0@, keys@[j].1@) == k,
                        !found ==> forall|j: int| 0 <= j < i ==> (#[trigger] keys@[j].0@, keys@[j].1@) != k,
                    decreases keys@.len() - i,
                {
                    if keys[i].0 == a && keys[i].1 == s {
                        found = true;
                    }
                    i += 1;
                }
                let ghost next = seen.push(*track);
                proof {
                    lemma_dedup_keys(seen, k);
                    assert(next.drop_last() =~= seen);
                    assert(next.last() == *track);
                    if found {
                        let j = choose|j: int| 0 <= j < keys@.len() && (#[trigger] keys@[j].0@, keys@[j].1@) == k;
                        assert(track_key(dedup(seen)[j]) == k);
                        let jj = choose|jj: int| 0 <= jj < seen.len() && track_key(#[trigger] seen[jj]) == k;
                        assert(next[jj] == seen[jj]);
                    } else {
                        assert forall|jj: int| 0 <= jj < next.len() - 1 implies track_key(#[trigger] next[jj]) != k by {
                            assert(next[jj] == seen[jj]);
                            if track_key(seen[jj]) == k {
                                let i2 = choose|i2: int| 0 <= i2 < dedup(seen).len() && track_key(#[trigger] dedup(seen)[i2]) == k;
                                assert((keys@[i2].0@, keys@[i2].1@) == k);
                            }
                        }
                    }
                }
                if !found {
                    out.push(track.clone());
                    keys.push((a, s));
                }
                proof {
                    seen = next;
                    assert(seen =~= base + tracks@.subrange(0, t + 1));
                }
                t += 1;
            }
            proof {
                let eps = self.episodes@.subrange(0, e + 1);
                assert(eps.drop_last() =~= self.episodes@.subrange(0, e as int));
                assert(tracks@.subrange(0, tracks@.len() as int) =~= tracks@);
            }
            e += 1;
        }
        assert(self.episodes@.subrange(0, self.episodes@.len() as int) =~= self.episodes@);
        out
    }

    /// The show ids of the episodes, in order.
    pub fn spinitron_ids(&self) -> (r: Vec<u64>)
        ensures
            r@ == episode_ids(self.episodes@),
    {
        let mut r: Vec<u64> = Vec::new();
        let mut i: usize = 0;
        while i < self.episodes.len()
            invariant
                i <= self.episodes@.len(),
                r@ == episode_ids(self.episodes@.subrange(0, i as int)),
            decreases self.episodes@.len() - i,
        {
            r.push(self.episodes[i].show.id);
            i += 1;
            assert(r@ =~= episode_ids(self.episodes@.subrange(0, i as int)));
        }
        assert(self.episodes@.subrange(0, self.episodes@.len() as int) =~= self.episodes@);
        r
    }

    /// The watermark: the largest show id among the episodes, 0 if there are none.
    pub fn latest_spinitron_id(&self) -> (r: u64)
        ensures
            r == max_id(episode_ids(self.episodes@)),
    {
        let ids = self.spinitron_ids();
        let mut m: u64 = 0;
        let mut i: usize = 0;
        while i < ids.len()
            invariant
                i <= ids@.len(),
                m == max_id(ids@.subrange(0, i as int)),
            decreases ids@.len() - i,
        {
            assert(ids@.subrange(0, i + 1).drop_last() =~= ids@.subrange(0, i as int));
            if ids[i] > m {
                m = ids[i];
            }
            i += 1;
        }
        assert(ids@.subrange(0, ids@.len() as int) =~= ids@);
        m
    }

    /// The description text for the group, stamped with `stamp` as the time of update.
    pub fn description_at(&self, stamp: &str) -> (r: String)
        ensures
            r@ == description_text(
                self.station@,
                self.show_name@,
                self.episodes@.len(),
                max_id(episode_ids(self.episodes@)),
                stamp@,
            ),
    {
        let mut r = String::from_str("Generated from Spinitron playlists. Station: ");
        r.append(self.station.as_str());
        r.append(" Show: ");
        r.append(sanitize_title(self.show_name.as_str()).as_str());
        r.append(" Episodes: ");
        r.append(decimal(self.episodes.len() as u64).as_str());
        r.append(" Latest ID: ");
        r.append(decimal(self.latest_spinitron_id()).as_str());
        r.append(" Last updated: ");
        r.append(stamp);
        r
    }

    /// The description text for the group, stamped with the current UTC time.
    pub fn description(&self) -> (r: String)
        ensures
            exists|stamp: Seq<char>| r@ == description_text(
                self.station@,
                self.show_name@,
                self.episodes@.len(),
                max_id(episode_ids(self.episodes@)),
                stamp,
            ),
    {
        let stamp = utc_stamp();
        self.description_at(stamp.as_str())
    }
}

/// Adding an episode to a group never lowers its watermark.
pub proof fn lemma_watermark_monotone(ids: Seq<u64>, id: u64)
    ensures
        max_id(ids.push(id)) >= max_id(ids),
        max_id(ids.push(id)) >= id,
{
    assert(ids.push(id).drop_last() =~= ids);
}

/// The grouping key of a station's show: station, `-`, title.
pub open spec fn group_key_spec(station: Seq<char>, title: Seq<char>) -> Seq<char> {
    station + "-"@ + title
}

/// A grouping key taken apart: the station is the text before the first `-`, the title all
/// that follows it, dashes included.
pub open spec fn split_key_spec(key: Seq<char>) -> (Seq<char>, Seq<char>) {
    let station = until_char(key, '-');
    if station.len() < key.len() {
        (station, key.subrange(station.len() as int + 1, key.len() as int))
    } else {
        (station, Seq::empty())
    }
}

/// The grouping key of a station's show.
pub fn group_key(station: &str, title: &str) -> (r: String)
    ensures
        r@ == group_key_spec(station@, title@),
{
    let mut r = String::from_str(station);
    r.append("-");
    r.append(title);
    r
}

/// The station and show title of a grouping key.
pub fn split_group_key(key: &str) -> (r: (String, String))
    ensures
        (r.0@, r.1@) == split_key_spec(key@),
{
    let cs = chars_of(key);
    let station = until_char_chars(&cs, 0, '-');
    assert(cs@.subrange(0, cs@.len() as int) =~= cs@);
    proof { lemma_until_char_len(cs@, '-'); }
    let title = if station.len() < cs.len() {
        let mut t: Vec<char> = Vec::new();
        let mut i: usize = station.len() + 1;
        while i < cs.len()
            invariant
                station@.len() + 1 <= i <= cs@.len(),
                t@ == cs@.subrange(station@.len() as int + 1, i as int),
            decreases cs@.len() - i,
        {
            t.push(cs[i]);
            i += 1;
            assert(t@ =~= cs@.subrange(station@.len() as int + 1, i as int));
        }
        string_of(&t)
    } else {
        String::new()
    };
    (string_of(&station), title)
}

proof fn lemma_until_char_len(s: Seq<char>, c: char)
    ensures
        until_char(s, c).len() <= s.len(),
    decreases s.len(),
{
    if s.len() > 0 && s[0] != c {
        lemma_until_char_len(s.subrange(1, s.len() as int), c);
    }
}

proof fn lemma_until_char_join(a: Seq<char>, b: Seq<char>, c: char)
    requires
        forall|i: int| 0 <= i < a.len() ==> #[trigger] a[i] != c,
    ensures
        until_char(a + seq![c] + b, c) == a,
    decreases a.len(),
{
    if a.len() == 0 {
        assert((a + seq![c] + b)[0] == c);
    } else {
        let t = a.subrange(1, a.len() as int);
        let s = a + seq![c] + b;
        assert(s.subrange(1, s.len() as int) =~= t + seq![c] + b);
        assert forall|i: int| 0 <= i < t.len() implies #[trigger] t[i] != c by {
            assert(t[i] == a[i + 1]);
        }
        lemma_until_char_join(t, b, c);
        assert(seq![a[0]] + t =~= a);
    }
}

/// Taking a grouping key apart gives back its station and title whenever the station holds no
/// `-`, whatever dashes the title holds.
pub proof fn lemma_group_key_round_trip(station: Seq<char>, title: Seq<char>)
    requires
        forall|i: int| 0 <= i < station.len() ==> #[trigger] station[i] != '-',
    ensures
        split_key_spec(group_key_spec(station, title)) == (station, title),
{
    reveal_strlit("-");
    let key = group_key_spec(station, title);
    assert(key =~= station + seq!['-'] + title);
    lemma_until_char_join(station, title, '-');
    assert(key.subrange(station.len() as int + 1, key.len() as int) =~= title);
}

} // verus!
