use playlist_sync::cache::{cache_key, SpotifyTrack, TrackCache, TTL_SECS};
use playlist_sync::models::Track;

fn found(uri: &str) -> Option<SpotifyTrack> {
    Some(SpotifyTrack { id: "1".to_string(), name: "n".to_string(), artists: Vec::new(), uri: uri.to_string() })
}

#[test]
fn stale_entry_is_gone_after_a_save() {
    let t: u64 = 1_700_000_000;
    let mut cache = TrackCache::new();
    cache.store("Loscil - Bell Flame".to_string(), found("u1"), t);
    let key = "Loscil - Bell Flame".to_string();
    assert!(cache.lookup(&key).is_some());
    cache.purge_expired(t + 14 * 24 * 3600);
    assert!(cache.lookup(&key).is_some());
    cache.purge_expired(t + 14 * 24 * 3600 + 1);
    assert!(cache.lookup(&key).is_none());
    assert_eq!(cache.len(), 0);
}

#[test]
fn expired_entry_still_answers_until_purged() {
    let mut cache = TrackCache::new();
    cache.store("a - b".to_string(), None, 10);
    let e = cache.lookup(&"a - b".to_string()).expect("hit");
    assert!(e.track.is_none());
    assert_eq!(e.expires_at, 10 + TTL_SECS);
}

#[test]
fn storing_again_replaces_the_entry() {
    let mut cache = TrackCache::new();
    cache.store("k".to_string(), found("u1"), 10);
    cache.store("k".to_string(), found("u2"), 20);
    assert_eq!(cache.len(), 1);
    let e = cache.lookup(&"k".to_string()).expect("hit");
    assert_eq!(e.track.unwrap().uri, "u2");
    assert_eq!(e.expires_at, 20 + 1209600);
}

#[test]
fn expiry_saturates() {
    let mut cache = TrackCache::new();
    cache.store("k".to_string(), None, u64::MAX - 5);
    assert_eq!(cache.lookup(&"k".to_string()).unwrap().expires_at, u64::MAX);
}

#[test]
fn cache_key_trims_but_keeps_case() {
    let t = Track {
        artist: " Loscil ".to_string(),
        song: "Bell Flame ".to_string(),
        album: String::new(),
        label: None,
        time: None,
    };
    assert_eq!(cache_key(&t), "Loscil - Bell Flame");
}
