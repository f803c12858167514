use playlist_sync::cache::{SpotifyTrack, TrackCache};
use playlist_sync::engine::{Failure, Reconciler, Reply, Request, Step};
use playlist_sync::error::SyncError;
use playlist_sync::models::{Show, ShowEpisode, ShowGroup, Track};
use playlist_sync::ownership::SpotifyPlaylist;

struct RemoteList {
    id: String,
    name: String,
    description: String,
    tracks: Vec<String>,
}

struct FakeRemote {
    lists: Vec<RemoteList>,
    other_lists: usize,
    calls: Vec<String>,
    add_sizes: Vec<usize>,
    remove_sizes: Vec<usize>,
    searches: usize,
    saves: usize,
    pauses: usize,
    now: u64,
    refuse_create: usize,
}

impl FakeRemote {
    fn new() -> Self {
        FakeRemote {
            lists: Vec::new(),
            other_lists: 0,
            calls: Vec::new(),
            add_sizes: Vec::new(),
            remove_sizes: Vec::new(),
            searches: 0,
            saves: 0,
            pauses: 0,
            now: 1_700_000_000,
            refuse_create: 0,
        }
    }

    fn listed(&self) -> Vec<SpotifyPlaylist> {
        let mut all: Vec<SpotifyPlaylist> = (0..self.other_lists)
            .map(|i| SpotifyPlaylist {
                id: format!("other{}", i),
                name: format!("Someone else {}", i),
                description: Some("mixtape".to_string()),
                uri: String::new(),
                external_url: None,
                track_count: 0,
            })
            .collect();
        for l in &self.lists {
            all.push(SpotifyPlaylist {
                id: l.id.clone(),
                name: l.name.clone(),
                description: Some(l.description.clone()),
                uri: format!("spotify:playlist:{}", l.id),
                external_url: Some(format!("https://open.example/{}", l.id)),
                track_count: l.tracks.len() as u64,
            });
        }
        all
    }

    fn list_mut(&mut self, url: &str) -> &mut RemoteList {
        let id = url
            .trim_start_matches("https://api.spotify.com/v1/playlists/")
            .split('/')
            .next()
            .unwrap()
            .to_string();
        self.lists.iter_mut().find(|l| l.id == id).expect("known playlist")
    }

    fn handle(&mut self, req: Request) -> Reply {
        match req {
            Request::ListPlaylists { url } => {
                self.calls.push("list_playlists".to_string());
                let offset: usize = url.split("offset=").nth(1).unwrap().parse().unwrap();
                let all = self.listed();
                let items = all.into_iter().skip(offset).take(50).collect();
                Reply::Playlists { items }
            }
            Request::ListTracks { url } => {
                self.calls.push("list_tracks".to_string());
                let (id_url, page) = if let Some(rest) = url.strip_prefix("page:") {
                    let mut parts = rest.split('|');
                    let page: usize = parts.next().unwrap().parse().unwrap();
                    (parts.next().unwrap().to_string(), page)
                } else {
                    (url.clone(), 0)
                };
                let list = self.list_mut(&id_url);
                let uris: Vec<String> = list.tracks.iter().skip(page * 100).take(100).cloned().collect();
                let next = if (page + 1) * 100 < list.tracks.len() {
                    Some(format!("page:{}|{}", page + 1, id_url))
                } else {
                    None
                };
                Reply::Tracks { uris, next }
            }
            Request::RemoveTracks { url, uris } => {
                self.calls.push("remove".to_string());
                self.remove_sizes.push(uris.len());
                let list = self.list_mut(&url);
                list.tracks.retain(|t| !uris.contains(t));
                Reply::Done
            }
            Request::Search { url } => {
                self.calls.push("search".to_string());
                self.searches += 1;
                let track = if url.contains("Missing") {
                    None
                } else {
                    Some(SpotifyTrack {
                        id: format!("t{}", url.len()),
                        name: String::new(),
                        artists: Vec::new(),
                        uri: format!("spotify:track:{}", url),
                    })
                };
                Reply::Found { track, now: self.now }
            }
            Request::SaveCache => {
                self.saves += 1;
                Reply::Done
            }
            Request::Pause { millis } => {
                assert_eq!(millis, 100);
                self.pauses += 1;
                Reply::Done
            }
            Request::AddTracks { url, uris } => {
                self.calls.push("add".to_string());
                self.add_sizes.push(uris.len());
                let list = self.list_mut(&url);
                list.tracks.extend(uris);
                Reply::Done
            }
            Request::CreatePlaylist { url, name, description } => {
                self.calls.push("create".to_string());
                assert!(url.ends_with("/users/me/playlists"));
                if self.refuse_create > 0 {
                    self.refuse_create -= 1;
                    return Reply::Failed {
                        failure: Failure::Status { status: 401, body: "expired".to_string() },
                    };
                }
                let id = format!("pl{}", self.lists.len());
                self.lists.push(RemoteList {
                    id: id.clone(),
                    name: name.clone(),
                    description: description.clone(),
                    tracks: Vec::new(),
                });
                Reply::Created {
                    playlist: SpotifyPlaylist {
                        id: id.clone(),
                        name,
                        description: Some(description),
                        uri: format!("spotify:playlist:{}", id),
                        external_url: None,
                        track_count: 0,
                    },
                }
            }
            Request::RenewToken => {
                self.calls.push("renew".to_string());
                Reply::Token { access_token: "fresh".to_string() }
            }
            Request::UpdateDescription { url, description } => {
                self.calls.push("describe".to_string());
                let list = self.list_mut(&url);
                list.description = description;
                Reply::Done
            }
        }
    }
}

fn run(rec: &mut Reconciler, remote: &mut FakeRemote, g: &ShowGroup) -> Result<Option<SpotifyPlaylist>, SyncError> {
    let mut step = rec.begin(g, "2024-05-01 10:00 UTC");
    loop {
        match step {
            Step::Finished(r) => return r,
            Step::Call(req) => {
                let reply = remote.handle(req);
                step = rec.step(reply);
            }
        }
    }
}

fn reconciler() -> Reconciler {
    Reconciler::new("me".to_string(), "token".to_string(), TrackCache::new())
}

fn track(artist: &str, song: &str) -> Track {
    Track {
        artist: artist.to_string(),
        song: song.to_string(),
        album: String::new(),
        label: None,
        time: None,
    }
}

fn group_of(title: &str, ids: &[u64], tracks: Vec<Track>) -> ShowGroup {
    let mut episodes: Vec<ShowEpisode> = ids
        .iter()
        .map(|&id| ShowEpisode {
            show: Show {
                id,
                title: title.to_string(),
                url: String::new(),
                start_time: String::new(),
                end_time: String::new(),
            },
            tracks: Vec::new(),
        })
        .collect();
    if let Some(first) = episodes.first_mut() {
        first.tracks = tracks;
    }
    ShowGroup { station: "KXYZ".to_string(), show_name: title.to_string(), episodes }
}

fn numbered(n: usize) -> Vec<Track> {
    (0..n).map(|i| track(&format!("Artist {}", i), &format!("Song {}", i))).collect()
}

#[test]
fn empty_group_makes_no_call() {
    let mut rec = reconciler();
    let g = group_of("Quiet", &[7], Vec::new());
    match rec.begin(&g, "2024-05-01 10:00 UTC") {
        Step::Finished(Ok(None)) => {}
        other => panic!("expected no playlist, got {:?}", other),
    }
}

#[test]
fn new_playlist_adds_in_chunks_of_one_hundred() {
    let mut rec = reconciler();
    let mut remote = FakeRemote::new();
    let g = group_of("Drone", &[3, 9], numbered(250));
    let made = run(&mut rec, &mut remote, &g).expect("ok").expect("playlist");
    assert_eq!(made.name, "KXYZ - Drone");
    assert_eq!(made.track_count, 250);
    assert_eq!(remote.add_sizes, vec![100, 100, 50]);
    assert_eq!(remote.lists.len(), 1);
    assert_eq!(remote.lists[0].tracks.len(), 250);
    assert_eq!(remote.searches, 250);
    assert_eq!(remote.saves, 250);
    assert_eq!(remote.pauses, 25);
    assert_eq!(rec.index.len(), 1);
    assert_eq!(rec.index.entries[0].0, "9");
}

#[test]
fn listing_tracks_follows_every_page() {
    let mut rec = reconciler();
    let mut remote = FakeRemote::new();
    remote.lists.push(RemoteList {
        id: "old".to_string(),
        name: "KXYZ - Drone".to_string(),
        description: "Generated from Spinitron playlists. Station: KXYZ Show: Drone Episodes: 1 Latest ID: 2 Last updated: x".to_string(),
        tracks: (0..300).map(|i| format!("spotify:track:old{}", i)).collect(),
    });
    let g = group_of("Drone", &[5], numbered(3));
    let kept = run(&mut rec, &mut remote, &g).expect("ok").expect("playlist");
    assert_eq!(kept.id, "old");
    assert_eq!(rec.current.len(), 300);
    for (i, uri) in rec.current.iter().enumerate() {
        assert_eq!(uri, &format!("spotify:track:old{}", i));
    }
    assert_eq!(remote.calls.iter().filter(|c| *c == "list_tracks").count(), 3);
    assert_eq!(remote.remove_sizes, vec![100, 100, 100]);
    assert_eq!(remote.lists[0].tracks.len(), 3);
    assert!(remote.lists[0].description.contains("Latest ID: 5 "));
}

#[test]
fn second_run_updates_the_same_playlist() {
    let mut rec = reconciler();
    let mut remote = FakeRemote::new();
    remote.other_lists = 120;
    let mut tracks = numbered(12);
    tracks.push(track("Nobody", "Missing"));
    let g = group_of("Drone", &[5, 5, 3, 9], tracks);
    run(&mut rec, &mut remote, &g).expect("first").expect("playlist");
    let first: Vec<String> = remote.lists[0].tracks.clone();
    let searches = remote.searches;
    let again = run(&mut rec, &mut remote, &g).expect("second").expect("playlist");
    assert_eq!(again.id, "pl0");
    assert_eq!(remote.lists.len(), 1);
    assert_eq!(remote.calls.iter().filter(|c| *c == "create").count(), 1);
    assert_eq!(remote.lists[0].tracks, first);
    assert_eq!(first.len(), 12);
    assert_eq!(remote.searches, searches);
}

#[test]
fn up_to_date_playlist_is_left_alone() {
    let mut rec = reconciler();
    let mut remote = FakeRemote::new();
    remote.lists.push(RemoteList {
        id: "cur".to_string(),
        name: "KXYZ - Drone".to_string(),
        description: "Generated from Spinitron playlists. Station: KXYZ Show: Drone Episodes: 2 Latest ID: 9 Last updated: x".to_string(),
        tracks: vec!["spotify:track:a".to_string()],
    });
    let g = group_of("Drone", &[3, 9], numbered(4));
    let kept = run(&mut rec, &mut remote, &g).expect("ok").expect("playlist");
    assert_eq!(kept.id, "cur");
    assert_eq!(remote.calls, vec!["list_playlists".to_string()]);
    assert_eq!(remote.lists[0].tracks, vec!["spotify:track:a".to_string()]);
}

#[test]
fn refused_creation_is_retried_once_after_renewal() {
    let mut rec = reconciler();
    let mut remote = FakeRemote::new();
    remote.refuse_create = 1;
    let g = group_of("Drone", &[1], numbered(1));
    run(&mut rec, &mut remote, &g).expect("ok").expect("playlist");
    assert_eq!(rec.access_token, "fresh");
    assert_eq!(remote.calls.iter().filter(|c| *c == "renew").count(), 1);
    assert_eq!(remote.calls.iter().filter(|c| *c == "create").count(), 2);
}

#[test]
fn second_refusal_is_an_auth_error() {
    let mut rec = reconciler();
    let mut remote = FakeRemote::new();
    remote.refuse_create = 2;
    let g = group_of("Drone", &[1], numbered(1));
    match run(&mut rec, &mut remote, &g) {
        Err(SyncError::Auth { status: 401, .. }) => {}
        other => panic!("expected an auth error, got {:?}", other),
    }
    assert_eq!(remote.lists.len(), 0);
}

#[test]
fn overlong_name_is_rejected_before_creation() {
    let mut rec = reconciler();
    let mut remote = FakeRemote::new();
    let g = group_of(&"x".repeat(120), &[1], numbered(1));
    match run(&mut rec, &mut remote, &g) {
        Err(SyncError::NameTooLong { len: 127 }) => {}
        other => panic!("expected a name error, got {:?}", other),
    }
    assert!(!remote.calls.contains(&"create".to_string()));
}

#[test]
fn overlong_description_is_rejected() {
    let mut rec = reconciler();
    let g = group_of("Drone", &[1], numbered(1));
    let stamp = "y".repeat(250);
    let step = rec.begin(&g, &stamp);
    assert!(matches!(step, Step::Call(Request::ListPlaylists { .. })));
    match rec.step(Reply::Playlists { items: Vec::new() }) {
        Step::Finished(Err(SyncError::DescriptionTooLong { len })) => assert!(len > 300),
        other => panic!("expected a description error, got {:?}", other),
    }
}

#[test]
fn failed_listing_is_an_api_error() {
    let mut rec = reconciler();
    let g = group_of("Drone", &[1], numbered(1));
    match rec.begin(&g, "now") {
        Step::Call(Request::ListPlaylists { url }) => {
            assert_eq!(url, "https://api.spotify.com/v1/me/playlists?limit=50&offset=0");
        }
        other => panic!("expected a listing, got {:?}", other),
    }
    let r = rec.step(Reply::Failed { failure: Failure::Status { status: 500, body: "boom".to_string() } });
    match r {
        Step::Finished(Err(SyncError::Api { status: 500, .. })) => {}
        other => panic!("expected an api error, got {:?}", other),
    }
}

#[test]
fn unexpected_reply_ends_the_group() {
    let mut rec = reconciler();
    let g = group_of("Drone", &[1], numbered(1));
    rec.begin(&g, "now");
    match rec.step(Reply::Done) {
        Step::Finished(Err(SyncError::UnexpectedReply)) => {}
        other => panic!("expected an error, got {:?}", other),
    }
}

#[test]
fn search_url_is_encoded() {
    let mut rec = reconciler();
    let mut remote = FakeRemote::new();
    let g = group_of("Drone", &[1], vec![track("Loscil", "Bell Flame")]);
    let mut step = rec.begin(&g, "now");
    loop {
        match step {
            Step::Call(Request::Search { url }) => {
                assert_eq!(
                    url,
                    "https://api.spotify.com/v1/search?q=track%3ABell%20Flame%20artist%3ALoscil&type=track&limit=1"
                );
                break;
            }
            Step::Call(req) => step = rec.step(remote.handle(req)),
            Step::Finished(r) => panic!("finished early: {:?}", r),
        }
    }
}
