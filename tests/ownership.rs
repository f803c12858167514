use playlist_sync::index::PlaylistIndex;
use playlist_sync::ownership::{key_of, owned, owned_key, parse_latest_id_from_description, SpotifyPlaylist};

fn playlist(name: &str, desc: Option<&str>) -> SpotifyPlaylist {
    SpotifyPlaylist {
        id: "id".to_string(),
        name: name.to_string(),
        description: desc.map(|d| d.to_string()),
        uri: String::new(),
        external_url: None,
        track_count: 0,
    }
}

#[test]
fn marker_phrase_marks_ownership() {
    assert!(owned("KALX", "Anything", "Generated from Spinitron playlists. Station: KALX"));
    assert!(!owned("KALX", "Anything", "Latest ID: 3"));
    assert!(owned("KALX", "KALX - Drone", "Latest ID: 3"));
    assert!(owned("KALX", "KALX - Drone", "Spinítron ID: 3"));
    assert!(!owned("KALX", "KXYZ - Drone", "Spinítron ID: 3"));
    assert!(!owned("KALX", "KALX - Drone", "a mixtape"));
}

#[test]
fn key_comes_from_the_current_marker() {
    assert_eq!(key_of("n", "Generated from Spinitron playlists. Latest ID: 1234 Last updated: x"), "1234");
    assert_eq!(key_of("n", "Latest ID:    77"), "77");
    assert_eq!(key_of("n", "Latest ID: "), "0");
}

#[test]
fn key_comes_from_the_legacy_marker() {
    assert_eq!(key_of("n", "Generated from Spinitron playlist. Station: KALX\nSpinítron ID: [42, 43]"), "42");
    assert_eq!(key_of("n", "Spinítron ID: 7\nmore"), "7");
}

#[test]
fn key_falls_back_to_a_stable_name_hash() {
    let a = key_of("KALX - Drone", "Generated from Spinitron playlists");
    let b = key_of("KALX - Drone", "Generated from Spinitron playlists");
    let c = key_of("KALX - Other", "Generated from Spinitron playlists");
    assert_eq!(a, b);
    assert_ne!(a, c);
    assert!(a.chars().all(|ch| ch.is_ascii_digit()));
}

#[test]
fn unowned_or_undescribed_playlists_have_no_key() {
    assert_eq!(owned_key("KALX", &playlist("KALX - Drone", None)), None);
    assert_eq!(owned_key("KALX", &playlist("Mix", Some("fun"))), None);
    assert_eq!(owned_key("KALX", &playlist("KALX - Drone", Some("Latest ID: 9 x"))), Some("9".to_string()));
}

#[test]
fn index_keeps_one_entry_per_key_and_finds_by_name() {
    let mut idx = PlaylistIndex::new();
    let page = vec![
        playlist("KALX - A", Some("Latest ID: 1")),
        playlist("KALX - B", Some("Latest ID: 2")),
        playlist("Mix", Some("fun")),
        playlist("KALX - C", Some("Latest ID: 1")),
    ];
    idx.absorb_page("KALX", &page);
    assert_eq!(idx.len(), 2);
    assert!(idx.find_by_name(&"KALX - A".to_string()).is_none());
    assert_eq!(idx.find_by_name(&"KALX - C".to_string()).unwrap().name, "KALX - C");
    assert!(idx.find_by_name(&"Mix".to_string()).is_none());
}

#[test]
fn stated_watermark_is_parsed() {
    assert_eq!(parse_latest_id_from_description("x Latest ID: 123 Last updated"), 123);
    assert_eq!(parse_latest_id_from_description("Latest ID: +7"), 7);
    assert_eq!(parse_latest_id_from_description("Latest ID: 12a"), 0);
    assert_eq!(parse_latest_id_from_description("Latest ID: 18446744073709551616"), 0);
    assert_eq!(parse_latest_id_from_description("Latest ID: 18446744073709551615"), u64::MAX);
    assert_eq!(parse_latest_id_from_description("no marker"), 0);
}
