//! Which remote playlists this system manages, and under which key each one is indexed.
use vstd::prelude::*;
use crate::models::clone_opt_string;
use crate::text::{
    chars_of, contains_spec, decimal, decimal_spec, find_chars, find_from, is_ws, matches_at,
    occurs_at, parse_u64, parse_u64_or_zero, str_contains, string_of, trim, trim_chars, trim_start, until_char,
    until_char_chars, until_ws, until_ws_chars, without_char, without_char_chars,
};

verus! {

/// A remote playlist as the remote system lists it.
#[derive(Debug)]
pub struct SpotifyPlaylist {
    pub id: String,
    pub name: String,
    pub description: Option<String>,
    pub uri: String,
    pub external_url: Option<String>,
    pub track_count: u64,
}

/// A folder of playlists on the remote side.
#[derive(Debug)]
pub struct SpotifyFolder {
    pub id: String,
    pub name: String,
}

impl Clone for SpotifyPlaylist {
    fn clone(&self) -> (r: Self)
        ensures
            r == *self,
    {
        SpotifyPlaylist {
            id: self.id.clone(),
            name: self.name.clone(),
            description: clone_opt_string(&self.description),
            uri: self.uri.clone(),
            external_url: clone_opt_string(&self.external_url),
            track_count: self.track_count,
        }
    }
}

/// The phrase that every description written by this system carries.
pub open spec fn generated_marker() -> Seq<char> {
    "Generated from Spinitron playlists"@
}

/// The id marker of the earlier description format.
pub open spec fn legacy_marker() -> Seq<char> {
    "Spin\u{ed}tron ID:"@
}

/// The id marker of the current description format.
pub open spec fn current_marker() -> Seq<char> {
    "Latest ID:"@
}

/// Whether a playlist with this name and description is managed by this system for `station`:
/// its description carries the marker phrase, or its name carries the station's prefix and its
/// description one of the two id markers.
pub open spec fn is_owned(station: Seq<char>, name: Seq<char>, desc: Seq<char>) -> bool {
    contains_spec(desc, generated_marker()) || (occurs_at(name, station + " -"@, 0) && (
    contains_spec(desc, legacy_marker()) || contains_spec(desc, current_marker())))
}

/// The id that follows the legacy marker: the rest of its line up to the next colon, trimmed,
/// without brackets, up to the first comma, trimmed.
pub open spec fn legacy_id(rest: Seq<char>) -> Seq<char> {
    let seg = trim(until_char(until_char(rest, '\n'), ':'));
    trim(until_char(without_char(without_char(seg, '['), ']'), ','))
}

/// A hash of a playlist name that stays the same from run to run.
pub uninterp spec fn name_hash(name: Seq<char>) -> u64;

/// Relies on std's `DefaultHasher::new`, whose keys are fixed, and on `str`'s `Hash`:
/// the value depends on the name alone.
#[verifier::external_body]
fn hash_name(name: &str) -> (r: u64)
    ensures
        r == name_hash(name@),
{
    let mut h = std::collections::hash_map::DefaultHasher::new();
    std::hash::Hash::hash(name, &mut h);
    std::hash::Hasher::finish(&h)
}

/// The key under which an owned playlist is indexed: the token after the current id marker, else
/// the legacy id, else the decimal form of a hash of the name.
pub open spec fn playlist_key(name: Seq<char>, desc: Seq<char>) -> Seq<char> {
    let cur = "Latest ID: "@;
    match find_from(desc, cur, 0) {
        Some(i) => {
            let t = until_ws(trim_start(desc.subrange(i + cur.len(), desc.len() as int)));
            if t.len() == 0 { "0"@ } else { t }
        },
        None => match find_from(desc, legacy_marker(), 0) {
            Some(i) => legacy_id(desc.subrange(i + legacy_marker().len(), desc.len() as int)),
            None => decimal_spec(name_hash(name) as nat),
        },
    }
}

/// The watermark that a description states: the number after the current id marker, 0 when
/// there is none or it is not a number.
pub open spec fn stated_watermark(desc: Seq<char>) -> u64 {
    let cur = "Latest ID: "@;
    match find_from(desc, cur, 0) {
        Some(i) => parse_u64_or_zero(until_ws(trim_start(desc.subrange(i + cur.len(), desc.len() as int)))),
        None => 0,
    }
}

/// The watermark that a description states.
pub fn parse_latest_id_from_description(desc: &str) -> (r: u64)
    ensures
        r == stated_watermark(desc@),
{
    let d = chars_of(desc);
    let n = d.len();
    let cur = chars_of("Latest ID: ");
    match find_chars(&d, &cur) {
        Some(i) => {
            assert(i + cur@.len() <= n);
            let start = skip_ws(&d, i + cur.len());
            parse_u64(&until_ws_chars(&d, start))
        },
        None => 0,
    }
}

/// Whether the playlist is owned, for `station`.
pub fn owned(station: &str, name: &str, desc: &str) -> (r: bool)
    ensures
        r == is_owned(station@, name@, desc@),
{
    if str_contains(desc, "Generated from Spinitron playlists") {
        return true;
    }
    let mut prefix = String::from_str(station);
    prefix.append(" -");
    let prefixed = matches_at(&chars_of(name), &chars_of(prefix.as_str()), 0);
    prefixed && (str_contains(desc, "Spin\u{ed}tron ID:") || str_contains(desc, "Latest ID:"))
}

fn skip_ws(cs: &Vec<char>, from: usize) -> (r: usize)
    requires
        from <= cs@.len(),
    ensures
        from <= r <= cs@.len(),
        cs@.subrange(r as int, cs@.len() as int) == trim_start(cs@.subrange(from as int, cs@.len() as int)),
{
    let n = cs.len();
    let mut i: usize = from;
    while i < n && is_ws(cs[i])
        invariant
            n == cs@.len(),
            from <= i <= n,
            trim_start(cs@.subrange(from as int, n as int)) == trim_start(cs@.subrange(i as int, n as int)),
        decreases n - i,
    {
        let ghost t = cs@.subrange(i as int, n as int);
        assert(t.subrange(1, t.len() as int) =~= cs@.subrange(i + 1, n as int));
        i += 1;
    }
    i
}

/// The key under which an owned playlist is indexed.
pub fn key_of(name: &str, desc: &str) -> (r: String)
    ensures
        r@ == playlist_key(name@, desc@),
{
    let d = chars_of(desc);
    let n = d.len();
    let cur = chars_of("Latest ID: ");
    match find_chars(&d, &cur) {
        Some(i) => {
            assert(i + cur@.len() <= n);
            let start = skip_ws(&d, i + cur.len());
            let t = until_ws_chars(&d, start);
            if t.len() == 0 {
                String::from_str("0")
            } else {
                string_of(&t)
            }
        },
        None => {
            let legacy = chars_of("Spin\u{ed}tron ID:");
            match find_chars(&d, &legacy) {
                Some(i) => {
                    assert(i + legacy@.len() <= n);
                    let line = until_char_chars(&d, i + legacy.len(), '\n');
                    let seg = trim_chars(&until_char_chars(&line, 0, ':'));
                    let bare = without_char_chars(&without_char_chars(&seg, '['), ']');
                    let id = trim_chars(&until_char_chars(&bare, 0, ','));
                    assert(line@.subrange(0, line@.len() as int) =~= line@);
                    assert(bare@.subrange(0, bare@.len() as int) =~= bare@);
                    string_of(&id)
                },
                None => decimal(hash_name(name)),
            }
        },
    }
}

/// The key of a listed playlist when this system owns it for `station`.
pub fn owned_key(station: &str, p: &SpotifyPlaylist) -> (r: Option<String>)
    ensures
        match p.description {
            Some(d) => if is_owned(station@, p.name@, d@) {
                r is Some && r->Some_0@ == playlist_key(p.name@, d@)
            } else {
                r is None
            },
            None => r is None,
        },
{
    match &p.description {
        Some(d) => {
            if owned(station, p.name.as_str(), d.as_str()) {
                Some(key_of(p.name.as_str(), d.as_str()))
            } else {
                None
            }
        },
        None => None,
    }
}

} // verus!
