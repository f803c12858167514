//! The reconciler: for one show group, decides each remote call in turn and what follows from
//! its reply. The caller performs the calls and hands back the replies.
use vstd::prelude::*;
use crate::cache::{cache_key, cache_key_spec, cache_lookup, expiry, opt_track_view, unexpired, EntryView, SpotifyTrack, TrackCache};
use crate::error::SyncError;
use crate::index::{absorb, index_insert, name_pos, PlaylistIndex};
use crate::models::{canonical_name, dedup, description_text, episode_ids, flat_tracks, max_id, ShowGroup, Track};
use crate::ownership::{parse_latest_id_from_description, stated_watermark, SpotifyPlaylist};
use crate::text::{decimal, decimal_spec};

verus! {

/// The most track references one mutating call may carry.
pub const CHUNK: usize = 100;
/// Playlists asked for per listing page.
pub const PAGE: u64 = 50;
/// The most tracks one group is resolved and added for.
pub const MAX_TRACKS: usize = 5000;
/// The longest playlist name, in characters.
pub const NAME_MAX: usize = 100;
/// The longest playlist description, in characters.
pub const DESCRIPTION_MAX: usize = 300;
/// A pause follows every this many live searches.
pub const PAUSE_EVERY: u64 = 10;
/// The length of that pause, in milliseconds.
pub const PAUSE_MILLIS: u64 = 100;

/// `str` percent-encoded: every byte but ASCII letters, digits and `-_.~` as `%XX`.
pub uninterp spec fn url_encoded(s: Seq<char>) -> Seq<char>;

/// Relies on `urlencoding::encode`: the output depends on the input alone.
#[verifier::external_body]
fn url_encode(s: &str) -> (r: String)
    ensures
        r@ == url_encoded(s@),
{
    urlencoding::encode(s).into_owned()
}

pub open spec fn playlists_url(offset: u64) -> Seq<char> {
    "https://api.spotify.com/v1/me/playlists?limit=50&offset="@ + decimal_spec(offset as nat)
}

pub open spec fn first_tracks_url(id: Seq<char>) -> Seq<char> {
    "https://api.spotify.com/v1/playlists/"@ + id + "/tracks?limit=100"@
}

pub open spec fn playlist_tracks_url(id: Seq<char>) -> Seq<char> {
    "https://api.spotify.com/v1/playlists/"@ + id + "/tracks"@
}

pub open spec fn playlist_url(id: Seq<char>) -> Seq<char> {
    "https://api.spotify.com/v1/playlists/"@ + id
}

pub open spec fn create_url(user: Seq<char>) -> Seq<char> {
    "https://api.spotify.com/v1/users/"@ + user + "/playlists"@
}

/// The structured search query for a track.
pub open spec fn search_query(t: Track) -> Seq<char> {
    "track:"@ + t.song@ + " artist:"@ + t.artist@
}

pub open spec fn search_url(t: Track) -> Seq<char> {
    "https://api.spotify.com/v1/search?q="@ + url_encoded(search_query(t)) + "&type=track&limit=1"@
}

/// One remote call to make.
#[derive(Debug)]
pub enum Request {
    /// One page of the caller's playlists.
    ListPlaylists { url: String },
    /// One page of a playlist's track references.
    ListTracks { url: String },
    /// Remove these references from a playlist.
    RemoveTracks { url: String, uris: Vec<String> },
    /// Search the catalogue.
    Search { url: String },
    /// Write the search cache to durable storage.
    SaveCache,
    /// Suspend for a while before going on.
    Pause { millis: u64 },
    /// Add these references to a playlist.
    AddTracks { url: String, uris: Vec<String> },
    /// Create a public playlist.
    CreatePlaylist { url: String, name: String, description: String },
    /// Exchange the refresh credential for a new access credential.
    RenewToken,
    /// Change a playlist's description.
    UpdateDescription { url: String, description: String },
}

/// How a remote call failed.
#[derive(Debug)]
pub enum Failure {
    /// A non-success status, with the reply's body.
    Status { status: u16, body: String },
    /// The transport failed.
    Network { message: String },
    /// The reply did not have the expected shape.
    Parse { what: String },
}

/// The reply to the last request.
#[derive(Debug)]
pub enum Reply {
    /// The call succeeded and carries nothing the reconciler reads.
    Done,
    /// A page of playlists.
    Playlists { items: Vec<SpotifyPlaylist> },
    /// A page of track references, and the cursor of the next page if there is one.
    Tracks { uris: Vec<String>, next: Option<String> },
    /// The first search match, if any, and the current instant in seconds.
    Found { track: Option<SpotifyTrack>, now: u64 },
    /// The playlist that was created.
    Created { playlist: SpotifyPlaylist },
    /// A new access credential.
    Token { access_token: String },
    /// The call failed.
    Failed { failure: Failure },
}

/// What the reconciler wants next.
#[derive(Debug)]
pub enum Step {
    Call(Request),
    /// The group is done: the playlist made or refreshed, `None` when there was nothing to do.
    Finished(Result<Option<SpotifyPlaylist>, SyncError>),
}

/// Whether the group's playlist exists already.
#[derive(Debug, Clone, Copy, PartialEq, Eq, Structural)]
pub enum Mode {
    Update,
    Create,
}

/// Where the reconciler stands within a group.
#[derive(Debug, Clone, Copy, PartialEq, Eq, Structural)]
pub enum Phase {
    /// No group is under way.
    Idle,
    /// Listing the caller's playlists; the last page asked for starts at `offset`.
    Refreshing { offset: u64 },
    /// Listing the current tracks of the existing playlist.
    ListingTracks,
    /// Removing the chunk of current tracks that starts at `pos`.
    Clearing { pos: usize },
    /// Searching for the track at `pos`.
    Searching { pos: usize },
    /// Saving the cache; resolution goes on at `next`.
    Saving { next: usize },
    /// Pausing; resolution goes on at `next`.
    Pausing { next: usize },
    /// Adding the chunk of found references that starts at `pos`.
    Adding { pos: usize },
    /// Updating the existing playlist's description.
    Describing,
    /// Creating the playlist; `retried` once authorization was renewed.
    Creating { retried: bool },
    /// Renewing authorization after a refused creation.
    Renewing,
}

/// The texts of a sequence of strings.
pub open spec fn strs(v: Seq<String>) -> Seq<Seq<char>> {
    v.map_values(|s: String| s@)
}

/// The end of the chunk that starts at `pos` in a sequence of `len` items.
pub open spec fn chunk_end(len: int, pos: int) -> int {
    if pos + CHUNK < len { pos + CHUNK } else { len }
}

/// The first position at or after `pos` whose track the cache does not hold.
pub open spec fn first_miss(cache: Seq<(Seq<char>, EntryView)>, tracks: Seq<Track>, pos: int) -> int
    decreases tracks.len() - pos,
{
    if pos < 0 || pos >= tracks.len() {
        tracks.len() as int
    } else if cache_lookup(cache, cache_key_spec(tracks[pos])) is Some {
        first_miss(cache, tracks, pos + 1)
    } else {
        pos
    }
}

/// The references that the cache holds for the tracks in `[from, to)`, in order; a known
/// absence gives none.
pub open spec fn hit_uris(cache: Seq<(Seq<char>, EntryView)>, tracks: Seq<Track>, from: int, to: int) -> Seq<Seq<char>>
    decreases to - from,
{
    if to <= from {
        Seq::empty()
    } else {
        let prev = hit_uris(cache, tracks, from, to - 1);
        match cache_lookup(cache, cache_key_spec(tracks[to - 1])) {
            Some((Some(t), _)) => prev.push(t.3),
            _ => prev,
        }
    }
}

/// The validation failure of a new playlist's name and description, if any.
pub open spec fn invalid(name: Seq<char>, desc: Seq<char>) -> bool {
    name.len() == 0 || name.len() > NAME_MAX || desc.len() > DESCRIPTION_MAX
}

/// Checks a new playlist's name (1 to 100 characters) and description (at most 300).
pub fn validate(name: &String, description: &String) -> (r: Result<(), SyncError>)
    ensures
        r is Ok <==> !invalid(name@, description@),
        name@.len() == 0 ==> r matches Err(SyncError::NameEmpty),
        name@.len() > NAME_MAX ==> (r matches Err(SyncError::NameTooLong { len }) && len
            == name@.len()),
        1 <= name@.len() <= NAME_MAX && description@.len() > DESCRIPTION_MAX ==> (r matches Err(
            SyncError::DescriptionTooLong { len },
        ) && len == description@.len()),
{
    let n = name.as_str().unicode_len();
    let d = description.as_str().unicode_len();
    if n == 0 {
        Err(SyncError::NameEmpty)
    } else if n > NAME_MAX {
        Err(SyncError::NameTooLong { len: n as u64 })
    } else if d > DESCRIPTION_MAX {
        Err(SyncError::DescriptionTooLong { len: d as u64 })
    } else {
        Ok(())
    }
}

/// `v[from..to]`.
pub fn copy_range(v: &Vec<String>, from: usize, to: usize) -> (r: Vec<String>)
    requires
        from <= to <= v@.len(),
    ensures
        r@ == v@.subrange(from as int, to as int),
{
    let mut r: Vec<String> = Vec::new();
    let mut i: usize = from;
    while i < to
        invariant
            from <= i <= to <= v@.len(),
            r@ == v@.subrange(from as int, i as int),
        decreases to - i,
    {
        r.push(v[i].clone());
        i += 1;
        assert(r@ =~= v@.subrange(from as int, i as int));
    }
    r
}

fn search_url_of(t: &Track) -> (r: String)
    ensures
        r@ == search_url(*t),
{
    let mut q = String::from_str("track:");
    q.append(t.song.as_str());
    q.append(" artist:");
    q.append(t.artist.as_str());
    concat3("https://api.spotify.com/v1/search?q=", url_encode(q.as_str()).as_str(), "&type=track&limit=1")
}

/// Appends copies of `extra` to `v`.
pub fn append_all(v: &mut Vec<String>, extra: &Vec<String>)
    ensures
        final(v)@ == old(v)@ + extra@,
{
    let mut i: usize = 0;
    while i < extra.len()
        invariant
            i <= extra@.len(),
            v@ == old(v)@ + extra@.subrange(0, i as int),
        decreases extra@.len() - i,
    {
        v.push(extra[i].clone());
        i += 1;
        assert(v@ =~= old(v)@ + extra@.subrange(0, i as int));
    }
    assert(extra@.subrange(0, extra@.len() as int) =~= extra@);
}

fn concat_str(a: &str, b: &str) -> (r: String)
    ensures
        r@ == a@ + b@,
{
    let mut r = String::from_str(a);
    r.append(b);
    r
}

fn concat3(a: &str, b: &str, c: &str) -> (r: String)
    ensures
        r@ == a@ + b@ + c@,
{
    let mut r = String::from_str(a);
    r.append(b);
    r.append(c);
    r
}

/// The error a failed call gives.
pub open spec fn failure_error(f: Failure) -> SyncError {
    match f {
        Failure::Status { status, body } => SyncError::Api { status, body },
        Failure::Network { message } => SyncError::Network { message },
        Failure::Parse { what } => SyncError::Parse { what },
    }
}

fn error_of(f: Failure) -> (r: SyncError)
    ensures
        r == failure_error(f),
{
    match f {
        Failure::Status { status, body } => SyncError::Api { status, body },
        Failure::Network { message } => SyncError::Network { message },
        Failure::Parse { what } => SyncError::Parse { what },
    }
}

/// The error a failed call gives while authorization was being renewed or had been renewed.
pub open spec fn auth_failure_error(f: Failure) -> SyncError {
    match f {
        Failure::Status { status, body } => SyncError::Auth { status, body },
        _ => failure_error(f),
    }
}

fn auth_error_of(f: Failure) -> (r: SyncError)
    ensures
        r == auth_failure_error(f),
{
    match f {
        Failure::Status { status, body } => SyncError::Auth { status, body },
        _ => error_of(f),
    }
}

/// The reconciler's state: what persists across groups (the search cache, the playlist index,
/// the access credential, the live-search count) and the group under way.
pub struct Reconciler {
    pub user_id: String,
    pub access_token: String,
    pub cache: TrackCache,
    pub index: PlaylistIndex,
    pub live_searches: u64,
    pub listing_only: bool,
    pub phase: Phase,
    pub mode: Mode,
    pub station: String,
    pub name: String,
    pub description: String,
    pub watermark: u64,
    pub tracks: Vec<Track>,
    pub target: Option<SpotifyPlaylist>,
    pub current: Vec<String>,
    pub found: Vec<String>,
}

impl Reconciler {
    /// The positions that the phase holds are in range, and a target exists once decided.
    pub open spec fn wf(&self) -> bool {
        &&& self.cache.wf()
        &&& self.index.wf()
        &&& self.tracks@.len() <= MAX_TRACKS
        &&& match self.phase {
            Phase::Clearing { pos } => pos < self.current@.len() && self.target is Some,
            Phase::Searching { pos } => pos < self.tracks@.len() && self.found@.len() <= pos
                && self.target is Some,
            Phase::Saving { next } => next <= self.tracks@.len() && self.found@.len() <= next
                && self.target is Some,
            Phase::Pausing { next } => next <= self.tracks@.len() && self.found@.len() <= next
                && self.target is Some,
            Phase::Adding { pos } => pos < self.found@.len() && self.found@.len()
                <= self.tracks@.len() && self.target is Some,
            Phase::ListingTracks => self.target is Some,
            Phase::Describing => self.target is Some,
            _ => true,
        }
        &&& (self.phase is ListingTracks || self.phase is Clearing) ==> self.mode == Mode::Update
            && self.found@.len() == 0
    }

    /// A reconciler with an empty index, for a user, credential and loaded cache.
    pub fn new(user_id: String, access_token: String, cache: TrackCache) -> (r: Self)
        requires
            cache.wf(),
        ensures
            r.wf(),
            r.phase == Phase::Idle,
            r.user_id == user_id,
            r.access_token == access_token,
            r.cache@ == cache@,
            r.index@.len() == 0,
            r.live_searches == 0,
    {
        Reconciler {
            user_id,
            access_token,
            cache,
            index: PlaylistIndex::new(),
            live_searches: 0,
            listing_only: false,
            phase: Phase::Idle,
            mode: Mode::Create,
            station: String::new(),
            name: String::new(),
            description: String::new(),
            watermark: 0,
            tracks: Vec::new(),
            target: None,
            current: Vec::new(),
            found: Vec::new(),
        }
    }

    /// Starts on a group: with no track to publish it is done at once with no call; else the
    /// playlist listing is fetched afresh, from its first page.
    pub fn begin(&mut self, group: &ShowGroup, stamp: &str) -> (r: Step)
        requires
            old(self).wf(),
        ensures
            final(self).wf(),
            final(self).cache@ == old(self).cache@,
            final(self).user_id == old(self).user_id,
            final(self).access_token == old(self).access_token,
            final(self).live_searches == old(self).live_searches,
            final(self).name@ == canonical_name(group.station@, group.show_name@),
            final(self).description@ == description_text(
                group.station@,
                group.show_name@,
                group.episodes@.len(),
                max_id(episode_ids(group.episodes@)),
                stamp@,
            ),
            final(self).watermark == max_id(episode_ids(group.episodes@)),
            final(self).tracks@ == if dedup(flat_tracks(group.episodes@)).len() <= MAX_TRACKS {
                dedup(flat_tracks(group.episodes@))
            } else {
                dedup(flat_tracks(group.episodes@)).take(MAX_TRACKS as int)
            },
            dedup(flat_tracks(group.episodes@)).len() == 0 ==> (r matches Step::Finished(Ok(None))
                && final(self).phase == Phase::Idle && final(self).index@ == old(self).index@),
            dedup(flat_tracks(group.episodes@)).len() > 0 ==> (final(self).phase
                == Phase::Refreshing { offset: 0 } && final(self).index@.len() == 0 && (
            r matches Step::Call(Request::ListPlaylists { url }) && url@ == playlists_url(0))),
    {
        let all = group.all_tracks();
        let mut tracks: Vec<Track> = Vec::new();
        let mut i: usize = 0;
        assert(all@.take(MAX_TRACKS as int) =~= all@.subrange(0, MAX_TRACKS as int));
        while i < all.len() && i < MAX_TRACKS
            invariant
                i <= all@.len(),
                i <= MAX_TRACKS,
                tracks@ == all@.subrange(0, i as int),
            decreases all@.len() - i,
        {
            tracks.push(all[i].clone());
            i += 1;
            assert(tracks@ =~= all@.subrange(0, i as int));
        }
        assert(all@.len() <= MAX_TRACKS ==> all@.subrange(0, i as int) =~= all@);
        self.station = group.station.clone();
        self.name = group.playlist_name();
        self.description = group.description_at(stamp);
        self.watermark = group.latest_spinitron_id();
        self.tracks = tracks;
        self.target = None;
        self.current = Vec::new();
        self.found = Vec::new();
        self.mode = Mode::Create;
        self.listing_only = false;
        if all.len() == 0 {
            self.phase = Phase::Idle;
            return Step::Finished(Ok(None));
        }
        self.index.clear();
        self.phase = Phase::Refreshing { offset: 0 };
        Step::Call(Request::ListPlaylists { url: concat_str("https://api.spotify.com/v1/me/playlists?limit=50&offset=", decimal(0).as_str()) })
    }

    /// Starts a listing of the playlists this system owns for `station`, with no group: it
    /// ends once the last page is in the index.
    pub fn begin_listing(&mut self, station: &str) -> (r: Step)
        requires
            old(self).wf(),
        ensures
            final(self).wf(),
            final(self).listing_only,
            final(self).station@ == station@,
            final(self).cache@ == old(self).cache@,
            final(self).phase == (Phase::Refreshing { offset: 0 }),
            final(self).index@.len() == 0,
            r matches Step::Call(Request::ListPlaylists { url }) && url@ == playlists_url(0),
    {
        self.station = String::from_str(station);
        self.listing_only = true;
        self.index.clear();
        self.phase = Phase::Refreshing { offset: 0 };
        Step::Call(Request::ListPlaylists { url: concat_str("https://api.spotify.com/v1/me/playlists?limit=50&offset=", decimal(0).as_str()) })
    }

    /// Fields that stay put while one group is under way.
    pub open spec fn same_group(&self, o: Reconciler) -> bool {
        &&& self.user_id == o.user_id
        &&& self.station == o.station
        &&& self.name == o.name
        &&& self.description == o.description
        &&& self.watermark == o.watermark
        &&& self.tracks@ == o.tracks@
        &&& self.mode == o.mode
    }

    /// How a group ends once its tracks are in place: an existing playlist gets its new
    /// description; a new one is indexed under the watermark, with its track count.
    pub open spec fn finish_outcome(o: Reconciler, target: Option<SpotifyPlaylist>, found: Seq<Seq<char>>, n: Reconciler, r: Step) -> bool {
        let t = target->Some_0;
        if o.mode == Mode::Update {
            &&& n.phase == Phase::Describing
            &&& n.index@ == o.index@
            &&& n.target == target
            &&& r matches Step::Call(Request::UpdateDescription { url, description })
            &&& url@ == playlist_url(t.id@)
            &&& description@ == o.description@
        } else {
            let made = SpotifyPlaylist { track_count: found.len() as u64, ..t };
            &&& n.phase == Phase::Idle
            &&& n.index@ == index_insert(o.index@, decimal_spec(o.watermark as nat), made)
            &&& r matches Step::Finished(Ok(Some(p)))
            &&& p == made
        }
    }

    /// How adding starts: the first chunk of found references, or the finish when none.
    pub open spec fn adding_outcome(o: Reconciler, target: Option<SpotifyPlaylist>, found: Seq<Seq<char>>, n: Reconciler, r: Step) -> bool {
        if found.len() > 0 {
            &&& n.phase == Phase::Adding { pos: 0 }
            &&& n.index@ == o.index@
            &&& n.target == target
            &&& r matches Step::Call(Request::AddTracks { url, uris })
            &&& url@ == playlist_tracks_url(target->Some_0.id@)
            &&& strs(uris@) == found.subrange(0, chunk_end(found.len() as int, 0))
        } else {
            Self::finish_outcome(o, target, found, n, r)
        }
    }

    /// How resolution goes on from `pos`: the cache answers every track it holds, without a
    /// call, up to the first it does not hold, which is searched for.
    pub open spec fn resolve_outcome(o: Reconciler, target: Option<SpotifyPlaylist>, found: Seq<Seq<char>>, pos: int, n: Reconciler, r: Step) -> bool {
        let m = first_miss(o.cache@, o.tracks@, pos);
        let hits = found + hit_uris(o.cache@, o.tracks@, pos, m);
        &&& strs(n.found@) == hits
        &&& if m < o.tracks@.len() {
            &&& n.phase == Phase::Searching { pos: m as usize }
            &&& n.index@ == o.index@
            &&& n.target == target
            &&& r matches Step::Call(Request::Search { url })
            &&& url@ == search_url(o.tracks@[m])
        } else {
            Self::adding_outcome(o, target, hits, n, r)
        }
    }

    fn copy_target(&self) -> (r: SpotifyPlaylist)
        requires
            self.target is Some,
        ensures
            r == self.target->Some_0,
    {
        match &self.target {
            Some(t) => t.clone(),
            None => {
                proof { assert(false); }
                SpotifyPlaylist { id: String::new(), name: String::new(), description: None, uri: String::new(), external_url: None, track_count: 0 }
            },
        }
    }

    fn finish_tracks(&mut self) -> (r: Step)
        requires
            old(self).cache.wf(),
            old(self).index.wf(),
            old(self).target is Some,
            old(self).tracks@.len() <= MAX_TRACKS,
            old(self).found@.len() <= old(self).tracks@.len(),
        ensures
            final(self).current@ == old(self).current@,
            final(self).wf(),
            final(self).same_group(*old(self)),
            final(self).cache@ == old(self).cache@,
            final(self).found@ == old(self).found@,
            final(self).access_token == old(self).access_token,
            final(self).live_searches == old(self).live_searches,
            Self::finish_outcome(*old(self), old(self).target, strs(old(self).found@), *final(self), r),
    {
        let t = self.copy_target();
        match self.mode {
            Mode::Update => {
                self.phase = Phase::Describing;
                Step::Call(Request::UpdateDescription {
                    url: concat_str("https://api.spotify.com/v1/playlists/", t.id.as_str()),
                    description: self.description.clone(),
                })
            },
            Mode::Create => {
                let made = SpotifyPlaylist { track_count: self.found.len() as u64, ..t };
                self.index.insert(decimal(self.watermark), made.clone());
                self.phase = Phase::Idle;
                Step::Finished(Ok(Some(made)))
            },
        }
    }

    fn start_adding(&mut self) -> (r: Step)
        requires
            old(self).cache.wf(),
            old(self).index.wf(),
            old(self).target is Some,
            old(self).tracks@.len() <= MAX_TRACKS,
            old(self).found@.len() <= old(self).tracks@.len(),
        ensures
            final(self).current@ == old(self).current@,
            final(self).wf(),
            final(self).same_group(*old(self)),
            final(self).cache@ == old(self).cache@,
            final(self).found@ == old(self).found@,
            final(self).access_token == old(self).access_token,
            final(self).live_searches == old(self).live_searches,
            Self::adding_outcome(*old(self), old(self).target, strs(old(self).found@), *final(self), r),
    {
        if self.found.len() == 0 {
            return self.finish_tracks();
        }
        let t = self.copy_target();
        let end = if CHUNK < self.found.len() { CHUNK } else { self.found.len() };
        self.phase = Phase::Adding { pos: 0 };
        let uris = copy_range(&self.found, 0, end);
        assert(strs(uris@) =~= strs(self.found@).subrange(0, end as int));
        Step::Call(Request::AddTracks {
            url: concat3("https://api.spotify.com/v1/playlists/", t.id.as_str(), "/tracks"),
            uris,
        })
    }

    fn resolve_from(&mut self, pos: usize) -> (r: Step)
        requires
            old(self).cache.wf(),
            old(self).index.wf(),
            old(self).target is Some,
            old(self).tracks@.len() <= MAX_TRACKS,
            old(self).found@.len() <= old(self).tracks@.len(),
            pos <= old(self).tracks@.len(),
            old(self).found@.len() <= pos,
        ensures
            final(self).current@ == old(self).current@,
            final(self).wf(),
            final(self).same_group(*old(self)),
            final(self).cache@ == old(self).cache@,
            final(self).access_token == old(self).access_token,
            final(self).live_searches == old(self).live_searches,
            final(self).found@.len() <= final(self).tracks@.len(),
            Self::resolve_outcome(*old(self), old(self).target, strs(old(self).found@), pos as int, *final(self), r),
    {
        let mut i: usize = pos;
        while i < self.tracks.len()
            invariant
                pos <= i <= self.tracks@.len(),
                old(self).target is Some,
                old(self).tracks@.len() <= MAX_TRACKS,
                old(self).found@.len() <= pos,
                old(self).cache.wf(),
                old(self).index.wf(),
                self.same_group(*old(self)),
                self.cache@ == old(self).cache@,
                self.index@ == old(self).index@,
                self.current@ == old(self).current@,
                self.target == old(self).target,
                self.phase == old(self).phase,
                self.access_token == old(self).access_token,
                self.live_searches == old(self).live_searches,
                strs(self.found@) == strs(old(self).found@) + hit_uris(old(self).cache@, old(self).tracks@, pos as int, i as int),
                first_miss(old(self).cache@, old(self).tracks@, pos as int) == first_miss(old(self).cache@, old(self).tracks@, i as int),
                self.found@.len() <= old(self).found@.len() + (i - pos),
            decreases self.tracks@.len() - i,
        {
            let key = cache_key(&self.tracks[i]);
            let ghost before = self.found@;
            assert(self.tracks@[i as int] == old(self).tracks@[i as int]);
            match self.cache.lookup(&key) {
                Some(e) => {
                    match e.track {
                        Some(t) => {
                            assert(opt_track_view(e.track) == Some(t@));
                            self.found.push(t.uri);
                            assert(strs(self.found@) =~= strs(before).push(t@.3));
                        },
                        None => {},
                    }
                    i += 1;
                },
                None => {
                    let url = search_url_of(&self.tracks[i]);
                    self.phase = Phase::Searching { pos: i };
                    return Step::Call(Request::Search { url });
                },
            }
        }
        self.start_adding()
    }

    /// Whether an existing playlist already states a watermark at least `watermark`.
    pub open spec fn up_to_date(p: SpotifyPlaylist, watermark: u64) -> bool {
        match p.description {
            Some(d) => stated_watermark(d@) >= watermark,
            None => 0 >= watermark,
        }
    }

    /// How the decision after a full listing goes: an owned playlist with the canonical name is
    /// left as it is when it is up to date, else refreshed; with none, when the name and
    /// description are valid, a new one is created.
    pub open spec fn decide_outcome(o: Reconciler, idx: Seq<(Seq<char>, SpotifyPlaylist)>, n: Reconciler, r: Step) -> bool {
        &&& n.index@ == idx
        &&& match name_pos(idx, o.name@, 0) {
            Some(j) => if Self::up_to_date(idx[j].1, o.watermark) {
                &&& n.phase == Phase::Idle
                &&& r == Step::Finished(Ok(Some(idx[j].1)))
            } else {
                &&& n.mode == Mode::Update
                &&& n.target == Some(idx[j].1)
                &&& n.current@.len() == 0
                &&& n.found@.len() == 0
                &&& n.phase == Phase::ListingTracks
                &&& r matches Step::Call(Request::ListTracks { url })
                &&& url@ == first_tracks_url(idx[j].1.id@)
            },
            None => if invalid(o.name@, o.description@) {
                &&& n.phase == Phase::Idle
                &&& r matches Step::Finished(Err(e))
                &&& (e is NameEmpty || e is NameTooLong || e is DescriptionTooLong)
            } else {
                &&& n.mode == Mode::Create
                &&& n.phase == Phase::Creating { retried: false }
                &&& r matches Step::Call(Request::CreatePlaylist { url, name, description })
                &&& url@ == create_url(o.user_id@)
                &&& name@ == o.name@
                &&& description@ == o.description@
            },
        }
    }

    fn create_request(&self) -> (r: Request)
        ensures
            r matches Request::CreatePlaylist { url, name, description } && url@ == create_url(self.user_id@)
                && name@ == self.name@ && description@ == self.description@,
    {
        Request::CreatePlaylist {
            url: concat3("https://api.spotify.com/v1/users/", self.user_id.as_str(), "/playlists"),
            name: self.name.clone(),
            description: self.description.clone(),
        }
    }

    fn decide(&mut self) -> (r: Step)
        requires
            old(self).cache.wf(),
            old(self).index.wf(),
            old(self).tracks@.len() <= MAX_TRACKS,
        ensures
            final(self).wf(),
            final(self).user_id == old(self).user_id,
            final(self).station == old(self).station,
            final(self).name == old(self).name,
            final(self).description == old(self).description,
            final(self).watermark == old(self).watermark,
            final(self).tracks@ == old(self).tracks@,
            final(self).cache@ == old(self).cache@,
            final(self).access_token == old(self).access_token,
            final(self).live_searches == old(self).live_searches,
            Self::decide_outcome(*old(self), old(self).index@, *final(self), r),
    {
        match self.index.find_by_name(&self.name) {
            Some(p) => {
                let existing = match &p.description {
                    Some(d) => parse_latest_id_from_description(d.as_str()),
                    None => 0,
                };
                if existing >= self.watermark {
                    self.phase = Phase::Idle;
                    return Step::Finished(Ok(Some(p)));
                }
                let url = concat3("https://api.spotify.com/v1/playlists/", p.id.as_str(), "/tracks?limit=100");
                self.mode = Mode::Update;
                self.target = Some(p);
                self.current = Vec::new();
                self.found = Vec::new();
                self.phase = Phase::ListingTracks;
                Step::Call(Request::ListTracks { url })
            },
            None => match validate(&self.name, &self.description) {
                Err(e) => {
                    self.phase = Phase::Idle;
                    Step::Finished(Err(e))
                },
                Ok(()) => {
                    self.mode = Mode::Create;
                    self.phase = Phase::Creating { retried: false };
                    Step::Call(self.create_request())
                },
            },
        }
    }

    /// The next chunk of the references in `v` from `pos`, as a removal or addition call.
    fn chunk_call(&self, v: &Vec<String>, pos: usize, add: bool) -> (r: Step)
        requires
            self.target is Some,
            pos < v@.len(),
        ensures
            add ==> (r matches Step::Call(Request::AddTracks { url, uris })
                && url@ == playlist_tracks_url(self.target->Some_0.id@)
                && strs(uris@) == strs(v@).subrange(pos as int, chunk_end(v@.len() as int, pos as int))),
            !add ==> (r matches Step::Call(Request::RemoveTracks { url, uris })
                && url@ == playlist_tracks_url(self.target->Some_0.id@)
                && strs(uris@) == strs(v@).subrange(pos as int, chunk_end(v@.len() as int, pos as int))),
    {
        let t = self.copy_target();
        let end = if v.len() - pos > CHUNK { pos + CHUNK } else { v.len() };
        let uris = copy_range(v, pos, end);
        assert(strs(uris@) =~= strs(v@).subrange(pos as int, end as int));
        let url = concat3("https://api.spotify.com/v1/playlists/", t.id.as_str(), "/tracks");
        if add {
            Step::Call(Request::AddTracks { url, uris })
        } else {
            Step::Call(Request::RemoveTracks { url, uris })
        }
    }

    /// What follows the reply to the last call, for each phase and reply.
    pub open spec fn step_outcome(o: Reconciler, reply: Reply, n: Reconciler, r: Step) -> bool {
        match reply {
            Reply::Failed { failure } => match o.phase {
                Phase::Creating { retried } => if failure matches Failure::Status { status, .. } && status == 401 {
                    if retried {
                        n.phase == Phase::Idle && r == Step::Finished(Err(auth_failure_error(failure)))
                    } else {
                        n.phase == Phase::Renewing && r == Step::Call(Request::RenewToken)
                    }
                } else {
                    n.phase == Phase::Idle && r == Step::Finished(Err(failure_error(failure)))
                },
                Phase::Renewing => n.phase == Phase::Idle && r == Step::Finished(Err(auth_failure_error(failure))),
                _ => n.phase == Phase::Idle && r == Step::Finished(Err(failure_error(failure))),
            },
            Reply::Playlists { items } => match o.phase {
                Phase::Refreshing { offset } => {
                    let idx = absorb(o.index@, o.station@, items@);
                    if items@.len() >= PAGE && offset <= u64::MAX - PAGE {
                        &&& n.phase == Phase::Refreshing { offset: (offset + PAGE) as u64 }
                        &&& n.index@ == idx
                        &&& r matches Step::Call(Request::ListPlaylists { url })
                        &&& url@ == playlists_url((offset + PAGE) as u64)
                    } else if o.listing_only {
                        &&& n.phase == Phase::Idle
                        &&& n.index@ == idx
                        &&& r == Step::Finished(Ok(None))
                    } else {
                        Self::decide_outcome(o, idx, n, r)
                    }
                },
                _ => n.phase == Phase::Idle && r == Step::Finished(Err(SyncError::UnexpectedReply)),
            },
            Reply::Tracks { uris, next } => match o.phase {
                Phase::ListingTracks => {
                    let cur = strs(o.current@) + strs(uris@);
                    &&& strs(n.current@) == cur
                    &&& match next {
                        Some(u) => n.phase == Phase::ListingTracks && r == Step::Call(Request::ListTracks { url: u }),
                        None => if cur.len() == 0 {
                            Self::resolve_outcome(o, o.target, strs(o.found@), 0, n, r)
                        } else {
                            &&& n.phase == Phase::Clearing { pos: 0 }
                            &&& r matches Step::Call(Request::RemoveTracks { url, uris })
                            &&& url@ == playlist_tracks_url(o.target->Some_0.id@)
                            &&& strs(uris@) == cur.subrange(0, chunk_end(cur.len() as int, 0))
                        },
                    }
                },
                _ => n.phase == Phase::Idle && r == Step::Finished(Err(SyncError::UnexpectedReply)),
            },
            Reply::Found { track, now } => match o.phase {
                Phase::Searching { pos } => {
                    &&& n.cache@ == unexpired(index_insert(o.cache@, cache_key_spec(o.tracks@[pos as int]), (opt_track_view(track), expiry(now))), now)
                    &&& strs(n.found@) == strs(o.found@) + match track {
                        Some(t) => seq![t.uri@],
                        None => Seq::empty(),
                    }
                    &&& n.live_searches == if o.live_searches < u64::MAX { (o.live_searches + 1) as u64 } else { o.live_searches }
                    &&& n.phase == Phase::Saving { next: (pos + 1) as usize }
                    &&& r == Step::Call(Request::SaveCache)
                },
                _ => n.phase == Phase::Idle && r == Step::Finished(Err(SyncError::UnexpectedReply)),
            },
            Reply::Created { playlist } => match o.phase {
                Phase::Creating { .. } => Self::resolve_outcome(o, Some(playlist), Seq::empty(), 0, n, r),
                _ => n.phase == Phase::Idle && r == Step::Finished(Err(SyncError::UnexpectedReply)),
            },
            Reply::Token { access_token } => match o.phase {
                Phase::Renewing => {
                    &&& n.access_token == access_token
                    &&& n.phase == Phase::Creating { retried: true }
                    &&& r matches Step::Call(Request::CreatePlaylist { url, name, description })
                    &&& url@ == create_url(o.user_id@)
                    &&& name@ == o.name@
                    &&& description@ == o.description@
                },
                _ => n.phase == Phase::Idle && r == Step::Finished(Err(SyncError::UnexpectedReply)),
            },
            Reply::Done => match o.phase {
                Phase::Clearing { pos } => {
                    let np = chunk_end(o.current@.len() as int, pos as int);
                    if np < o.current@.len() {
                        &&& n.phase == Phase::Clearing { pos: np as usize }
                        &&& r matches Step::Call(Request::RemoveTracks { url, uris })
                        &&& url@ == playlist_tracks_url(o.target->Some_0.id@)
                        &&& strs(uris@) == strs(o.current@).subrange(np, chunk_end(o.current@.len() as int, np))
                    } else {
                        Self::resolve_outcome(o, o.target, strs(o.found@), 0, n, r)
                    }
                },
                Phase::Saving { next } => if o.live_searches % PAUSE_EVERY == 0 {
                    n.phase == Phase::Pausing { next } && r == Step::Call(Request::Pause { millis: PAUSE_MILLIS })
                } else {
                    Self::resolve_outcome(o, o.target, strs(o.found@), next as int, n, r)
                },
                Phase::Pausing { next } => Self::resolve_outcome(o, o.target, strs(o.found@), next as int, n, r),
                Phase::Adding { pos } => {
                    let np = chunk_end(o.found@.len() as int, pos as int);
                    if np < o.found@.len() {
                        &&& n.phase == Phase::Adding { pos: np as usize }
                        &&& r matches Step::Call(Request::AddTracks { url, uris })
                        &&& url@ == playlist_tracks_url(o.target->Some_0.id@)
                        &&& strs(uris@) == strs(o.found@).subrange(np, chunk_end(o.found@.len() as int, np))
                    } else {
                        Self::finish_outcome(o, o.target, strs(o.found@), n, r)
                    }
                },
                Phase::Describing => {
                    &&& n.phase == Phase::Idle
                    &&& n.index@ == index_insert(o.index@, decimal_spec(o.watermark as nat), o.target->Some_0)
                    &&& r == Step::Finished(Ok(o.target))
                },
                _ => n.phase == Phase::Idle && r == Step::Finished(Err(SyncError::UnexpectedReply)),
            },
        }
    }

    /// Takes the reply to the last call and says what comes next.
    pub fn step(&mut self, reply: Reply) -> (r: Step)
        requires
            old(self).wf(),
        ensures
            final(self).wf(),
            final(self).user_id == old(self).user_id,
            final(self).name == old(self).name,
            final(self).description == old(self).description,
            final(self).tracks@ == old(self).tracks@,
            final(self).station == old(self).station,
            final(self).watermark == old(self).watermark,
            !(reply is Found) ==> final(self).cache@ == old(self).cache@,
            !(reply is Found) ==> final(self).live_searches == old(self).live_searches,
            !(reply is Token) ==> final(self).access_token == old(self).access_token,
            Self::step_outcome(*old(self), reply, *final(self), r),
    {
        match reply {
            Reply::Failed { failure } => {
                let r = match self.phase {
                    Phase::Creating { retried } => {
                        let unauthorized = match &failure {
                            Failure::Status { status, .. } => *status == 401,
                            _ => false,
                        };
                        if unauthorized && !retried {
                            self.phase = Phase::Renewing;
                            return Step::Call(Request::RenewToken);
                        } else if unauthorized {
                            Step::Finished(Err(auth_error_of(failure)))
                        } else {
                            Step::Finished(Err(error_of(failure)))
                        }
                    },
                    Phase::Renewing => Step::Finished(Err(auth_error_of(failure))),
                    _ => Step::Finished(Err(error_of(failure))),
                };
                self.phase = Phase::Idle;
                r
            },
            Reply::Playlists { items } => match self.phase {
                Phase::Refreshing { offset } => {
                    self.index.absorb_page(self.station.as_str(), &items);
                    if items.len() as u64 >= PAGE && offset <= u64::MAX - PAGE {
                        let next = offset + PAGE;
                        self.phase = Phase::Refreshing { offset: next };
                        Step::Call(Request::ListPlaylists {
                            url: concat_str("https://api.spotify.com/v1/me/playlists?limit=50&offset=", decimal(next).as_str()),
                        })
                    } else if self.listing_only {
                        self.phase = Phase::Idle;
                        Step::Finished(Ok(None))
                    } else {
                        self.decide()
                    }
                },
                _ => self.unexpected(),
            },
            Reply::Tracks { uris, next } => match self.phase {
                Phase::ListingTracks => {
                    let ghost before = self.current@;
                    append_all(&mut self.current, &uris);
                    assert(strs(self.current@) =~= strs(before) + strs(uris@));
                    match next {
                        Some(u) => Step::Call(Request::ListTracks { url: u }),
                        None => {
                            if self.current.len() == 0 {
                                self.resolve_from(0)
                            } else {
                                let r = self.chunk_call(&self.current, 0, false);
                                self.phase = Phase::Clearing { pos: 0 };
                                r
                            }
                        },
                    }
                },
                _ => self.unexpected(),
            },
            Reply::Found { track, now } => match self.phase {
                Phase::Searching { pos } => {
                    let key = cache_key(&self.tracks[pos]);
                    let ghost before = self.found@;
                    match &track {
                        Some(t) => {
                            self.found.push(t.uri.clone());
                            assert(strs(self.found@) =~= strs(before) + seq![t.uri@]);
                        },
                        None => {
                            assert(strs(self.found@) =~= strs(before) + Seq::<Seq<char>>::empty());
                        },
                    }
                    self.cache.store(key, track, now);
                    self.cache.purge_expired(now);
                    if self.live_searches < u64::MAX {
                        self.live_searches = self.live_searches + 1;
                    }
                    self.phase = Phase::Saving { next: pos + 1 };
                    Step::Call(Request::SaveCache)
                },
                _ => self.unexpected(),
            },
            Reply::Created { playlist } => match self.phase {
                Phase::Creating { .. } => {
                    self.target = Some(playlist);
                    self.found = Vec::new();
                    assert(strs(self.found@) =~= Seq::<Seq<char>>::empty());
                    self.resolve_from(0)
                },
                _ => self.unexpected(),
            },
            Reply::Token { access_token } => match self.phase {
                Phase::Renewing => {
                    self.access_token = access_token;
                    self.phase = Phase::Creating { retried: true };
                    Step::Call(self.create_request())
                },
                _ => self.unexpected(),
            },
            Reply::Done => match self.phase {
                Phase::Clearing { pos } => {
                    let np = if self.current.len() - pos > CHUNK { pos + CHUNK } else { self.current.len() };
                    if np < self.current.len() {
                        let r = self.chunk_call(&self.current, np, false);
                        self.phase = Phase::Clearing { pos: np };
                        r
                    } else {
                        self.resolve_from(0)
                    }
                },
                Phase::Saving { next } => {
                    if self.live_searches % PAUSE_EVERY == 0 {
                        self.phase = Phase::Pausing { next };
                        Step::Call(Request::Pause { millis: PAUSE_MILLIS })
                    } else {
                        self.resolve_from(next)
                    }
                },
                Phase::Pausing { next } => self.resolve_from(next),
                Phase::Adding { pos } => {
                    let np = if self.found.len() - pos > CHUNK { pos + CHUNK } else { self.found.len() };
                    if np < self.found.len() {
                        let r = self.chunk_call(&self.found, np, true);
                        self.phase = Phase::Adding { pos: np };
                        r
                    } else {
                        self.finish_tracks()
                    }
                },
                Phase::Describing => {
                    let t = self.copy_target();
                    self.index.insert(decimal(self.watermark), t.clone());
                    self.phase = Phase::Idle;
                    Step::Finished(Ok(Some(t)))
                },
                _ => self.unexpected(),
            },
        }
    }

    fn unexpected(&mut self) -> (r: Step)
        ensures
            final(self).phase == Phase::Idle,
            final(self).cache@ == old(self).cache@,
            final(self).live_searches == old(self).live_searches,
            final(self).access_token == old(self).access_token,
            final(self).station == old(self).station,
            final(self).watermark == old(self).watermark,
            final(self).user_id == old(self).user_id,
            final(self).name == old(self).name,
            final(self).description == old(self).description,
            final(self).tracks@ == old(self).tracks@,
            old(self).tracks@.len() <= MAX_TRACKS && old(self).cache.wf() && old(self).index.wf()
                ==> final(self).wf(),
            r == Step::Finished(Err(SyncError::UnexpectedReply)),
    {
        self.phase = Phase::Idle;
        Step::Finished(Err(SyncError::UnexpectedReply))
    }
}

} // verus!
