//! Properties that relate several operations of the library.
use vstd::prelude::*;
use crate::cache::{cache_key_spec, cache_lookup, EntryView};
use crate::engine::{chunk_end, first_miss, Reconciler, CHUNK};
use crate::index::{absorb, index_insert, key_pos, lemma_key_pos_found, name_pos};
use crate::models::{description_text, sanitize, Track};
use crate::ownership::{generated_marker, is_owned, playlist_key, stated_watermark, SpotifyPlaylist};
use crate::text::{
    all_digits, decimal_spec, digit_char, digits_value, find_from, is_digit, is_ws_spec, occurs_at, trim_start,
    unsigned_part, until_ws,
};

verus! {

/// A description that the reconciler writes marks its playlist as owned, whatever the station,
/// title, episode count, watermark and time stamp: the next listing finds the playlist again
/// instead of creating a second one.
pub proof fn lemma_written_description_is_owned(
    station: Seq<char>,
    title: Seq<char>,
    episodes: nat,
    latest: u64,
    stamp: Seq<char>,
    name: Seq<char>,
)
    ensures
        is_owned(station, name, description_text(station, title, episodes, latest, stamp)),
{
    let d = description_text(station, title, episodes, latest, stamp);
    let head = "Generated from Spinitron playlists. Station: "@;
    reveal_strlit("Generated from Spinitron playlists. Station: ");
    reveal_strlit("Generated from Spinitron playlists");
    assert(d.subrange(0, generated_marker().len() as int) =~= generated_marker());
    assert(occurs_at(d, generated_marker(), 0));
}

/// An owned playlist that a listing page ends with is in the rebuilt index under its name, so
/// that the decision after the listing updates it rather than creating another.
pub proof fn lemma_listed_owned_playlist_found(
    idx: Seq<(Seq<char>, SpotifyPlaylist)>,
    station: Seq<char>,
    page: Seq<SpotifyPlaylist>,
)
    requires
        page.len() > 0,
        page.last().description is Some,
        is_owned(station, page.last().name@, page.last().description->Some_0@),
    ensures
        name_pos(absorb(idx, station, page), page.last().name@, 0) is Some,
{
    let p = page.last();
    let prev = absorb(idx, station, page.drop_last());
    let k = playlist_key(p.name@, p.description->Some_0@);
    let s = index_insert(prev, k, p);
    lemma_key_pos_found(prev, k, 0);
    let j = match key_pos(prev, k, 0) {
        Some(j) => j,
        None => prev.len() as int,
    };
    assert(s[j].1 == p);
    lemma_name_pos_finds(s, p.name@, 0, j);
}

proof fn lemma_name_pos_finds(s: Seq<(Seq<char>, SpotifyPlaylist)>, name: Seq<char>, i: int, j: int)
    requires
        0 <= i <= j < s.len(),
        s[j].1.name@ == name,
    ensures
        name_pos(s, name, i) is Some,
    decreases j - i,
{
    if s[i].1.name@ != name {
        lemma_name_pos_finds(s, name, i + 1, j);
    }
}

/// When the cache holds every track of a group, resolution makes no search at all: a second
/// run over the same group adds what the cache recorded in the first.
pub proof fn lemma_cached_group_needs_no_search(cache: Seq<(Seq<char>, EntryView)>, tracks: Seq<Track>, pos: int)
    requires
        0 <= pos <= tracks.len(),
        forall|i: int| 0 <= i < tracks.len() ==> cache_lookup(cache, cache_key_spec(#[trigger] tracks[i])) is Some,
    ensures
        first_miss(cache, tracks, pos) == tracks.len(),
    decreases tracks.len() - pos,
{
    if pos < tracks.len() {
        lemma_cached_group_needs_no_search(cache, tracks, pos + 1);
    }
}

/// Every chunk of a mutation holds between 1 and the ceiling of references, and all but the
/// last hold exactly the ceiling.
pub proof fn lemma_chunk_sizes(len: int, pos: int)
    requires
        0 <= pos < len,
    ensures
        0 < chunk_end(len, pos) - pos <= CHUNK,
        chunk_end(len, pos) < len ==> chunk_end(len, pos) - pos == CHUNK,
        chunk_end(len, pos) <= len,
{
}

proof fn lemma_digit_char(d: nat)
    requires
        d < 10,
    ensures
        is_digit(digit_char(d)),
        ((digit_char(d) as u32) - ('0' as u32)) as nat == d,
{
    if d == 0 {
    } else if d == 1 {
    } else if d == 2 {
    } else if d == 3 {
    } else if d == 4 {
    } else if d == 5 {
    } else if d == 6 {
    } else if d == 7 {
    } else if d == 8 {
    } else {
    }
}

proof fn lemma_decimal_digits(n: nat)
    ensures
        decimal_spec(n).len() > 0,
        all_digits(decimal_spec(n)),
        digits_value(decimal_spec(n)) == n,
    decreases n,
{
    let s = decimal_spec(n);
    lemma_digit_char(n % 10);
    if n < 10 {
        assert(s.drop_last() =~= Seq::<char>::empty());
        assert(n % 10 == n);
        assert(s.last() == digit_char(n));
        assert(digits_value(s) == digits_value(s.drop_last()) * 10 + ((s.last() as u32) - ('0' as u32)) as nat);
        assert(digits_value(Seq::<char>::empty()) == 0);
    } else {
        lemma_decimal_digits(n / 10);
        assert(n == (n / 10) * 10 + n % 10);
        assert(s.last() == digit_char(n % 10));
        assert(digits_value(s) == digits_value(s.drop_last()) * 10 + ((s.last() as u32) - ('0' as u32)) as nat);
        let p = decimal_spec(n / 10);
        assert(s.drop_last() =~= p);
        assert forall|i: int| 0 <= i < s.len() implies is_digit(#[trigger] s[i]) by {
            if i < p.len() {
                assert(s[i] == p[i]);
            }
        }
    }
}

proof fn lemma_find_from_first(s: Seq<char>, pat: Seq<char>, i: int, k: int)
    requires
        0 <= i <= k,
        occurs_at(s, pat, k),
        forall|j: int| i <= j < k ==> !occurs_at(s, pat, j),
    ensures
        find_from(s, pat, i) == Some(k),
    decreases k - i,
{
    if i < k {
        lemma_find_from_first(s, pat, i + 1, k);
    }
}

proof fn lemma_until_ws_prefix(a: Seq<char>, b: Seq<char>)
    requires
        forall|i: int| 0 <= i < a.len() ==> !is_ws_spec(#[trigger] a[i]),
        b.len() > 0,
        is_ws_spec(b[0]),
    ensures
        until_ws(a + b) == a,
    decreases a.len(),
{
    if a.len() == 0 {
        assert(a + b =~= b);
    } else {
        let t = a.subrange(1, a.len() as int);
        assert((a + b).subrange(1, (a + b).len() as int) =~= t + b);
        assert forall|i: int| 0 <= i < t.len() implies !is_ws_spec(#[trigger] t[i]) by {
            assert(t[i] == a[i + 1]);
        }
        lemma_until_ws_prefix(t, b);
        assert(seq![a[0]] + t =~= a);
    }
}

/// A description written for watermark `latest` states `latest` again, provided the station and
/// title do not themselves spell the id marker ahead of it: rerunning a group whose playlist is
/// listed with that description finds it up to date and leaves it unchanged.
pub proof fn lemma_written_description_states_watermark(
    station: Seq<char>,
    title: Seq<char>,
    episodes: nat,
    latest: u64,
    stamp: Seq<char>,
)
    requires
        ({
            let d = description_text(station, title, episodes, latest, stamp);
            let head = "Generated from Spinitron playlists. Station: "@ + station + " Show: "@
                + sanitize(title) + " Episodes: "@ + decimal_spec(episodes);
            forall|j: int| 0 <= j <= head.len() ==> !occurs_at(d, "Latest ID: "@, j)
        }),
    ensures
        stated_watermark(description_text(station, title, episodes, latest, stamp)) == latest,
{
    let d = description_text(station, title, episodes, latest, stamp);
    let head = "Generated from Spinitron playlists. Station: "@ + station + " Show: "@ + sanitize(
        title,
    ) + " Episodes: "@ + decimal_spec(episodes);
    let cur = "Latest ID: "@;
    let tail = " Last updated: "@ + stamp;
    let dec = decimal_spec(latest as nat);
    reveal_strlit(" Latest ID: ");
    reveal_strlit("Latest ID: ");
    reveal_strlit(" Last updated: ");
    assert(d =~= head + " Latest ID: "@ + dec + tail);
    let k: int = head.len() as int + 1;
    assert(d.subrange(k, k + cur.len() as int) =~= cur);
    lemma_find_from_first(d, cur, 0, k);
    let rest = d.subrange(k + cur.len() as int, d.len() as int);
    assert(rest =~= dec + tail);
    lemma_decimal_digits(latest as nat);
    assert(!is_ws_spec(rest[0])) by {
        assert(rest[0] == dec[0]);
        assert(is_digit(dec[0]));
    }
    assert(trim_start(rest) == rest);
    assert forall|i: int| 0 <= i < dec.len() implies !is_ws_spec(#[trigger] dec[i]) by {
        assert(is_digit(dec[i]));
    }
    assert(tail[0] == ' ');
    lemma_until_ws_prefix(dec, tail);
    assert(dec[0] != '+');
    assert(unsigned_part(dec) == dec);
}

/// Rerunning a group whose playlist carries the description written for the group's current
/// watermark finds that playlist up to date, so the decision after the listing leaves it as it is
/// and makes no further call.
pub proof fn lemma_rerun_finds_playlist_current(
    p: SpotifyPlaylist,
    station: Seq<char>,
    title: Seq<char>,
    episodes: nat,
    latest: u64,
    stamp: Seq<char>,
)
    requires
        p.description matches Some(d) && d@ == description_text(station, title, episodes, latest, stamp),
        ({
            let d = description_text(station, title, episodes, latest, stamp);
            let head = "Generated from Spinitron playlists. Station: "@ + station + " Show: "@
                + sanitize(title) + " Episodes: "@ + decimal_spec(episodes);
            forall|j: int| 0 <= j <= head.len() ==> !occurs_at(d, "Latest ID: "@, j)
        }),
    ensures
        Reconciler::up_to_date(p, latest),
{
    lemma_written_description_states_watermark(station, title, episodes, latest, stamp);
}

} // verus!
