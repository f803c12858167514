use playlist_sync::models::{group_key, split_group_key, Show, ShowEpisode, ShowGroup, Track};

fn track(artist: &str, song: &str) -> Track {
    Track {
        artist: artist.to_string(),
        song: song.to_string(),
        album: String::new(),
        label: None,
        time: None,
    }
}

fn show(id: u64, title: &str) -> Show {
    Show {
        id,
        title: title.to_string(),
        url: format!("https://example.org/{}", id),
        start_time: String::new(),
        end_time: String::new(),
    }
}

fn group(station: &str, title: &str, eps: Vec<(u64, Vec<Track>)>) -> ShowGroup {
    ShowGroup {
        station: station.to_string(),
        show_name: title.to_string(),
        episodes: eps
            .into_iter()
            .map(|(id, tracks)| ShowEpisode { show: show(id, title), tracks })
            .collect(),
    }
}

#[test]
fn dedupe_keeps_first_of_each_identity() {
    let g = group(
        "KXYZ",
        "Drone",
        vec![
            (1, vec![track("Loscil", "Bell Flame"), track(" loscil ", " bell flame ")]),
            (2, vec![track("Emeralds", "Up in the Air")]),
        ],
    );
    let tracks = g.all_tracks();
    assert_eq!(tracks.len(), 2);
    assert_eq!(tracks[0].artist, "Loscil");
    assert_eq!(tracks[0].song, "Bell Flame");
    assert_eq!(tracks[1].artist, "Emeralds");
}

#[test]
fn dedupe_folds_unicode_case() {
    let g = group("KXYZ", "Drone", vec![(1, vec![track("ÉLAN", "Über"), track("élan", "über")])]);
    assert_eq!(g.all_tracks().len(), 1);
}

#[test]
fn watermark_is_largest_id() {
    let g = group("KXYZ", "Drone", vec![(5, vec![]), (5, vec![]), (3, vec![]), (9, vec![])]);
    assert_eq!(g.latest_spinitron_id(), 9);
    assert_eq!(g.spinitron_ids(), vec![5, 5, 3, 9]);
}

#[test]
fn watermark_of_no_episode_is_zero() {
    let g = group("KXYZ", "Drone", vec![]);
    assert_eq!(g.latest_spinitron_id(), 0);
}

#[test]
fn canonical_name_is_sanitized() {
    let g = group("KXYZ", "(((∞))) &amp; Friends", vec![]);
    assert_eq!(g.playlist_name(), "KXYZ - Infinity & Friends");
}

#[test]
fn canonical_name_replaces_entities_and_drops_non_ascii() {
    let g = group("KALX", "  &lt;Noise&gt; &quot;Hour&quot; café ", vec![]);
    assert_eq!(g.playlist_name(), "KALX - <Noise> \"Hour\" caf");
}

#[test]
fn description_embeds_watermark() {
    let g = group("KXYZ", "Drone", vec![(12, vec![]), (40, vec![])]);
    assert_eq!(
        g.description_at("2024-05-01 10:00 UTC"),
        "Generated from Spinitron playlists. Station: KXYZ Show: Drone Episodes: 2 Latest ID: 40 Last updated: 2024-05-01 10:00 UTC"
    );
    assert!(g.description().starts_with("Generated from Spinitron playlists. Station: KXYZ Show: Drone Episodes: 2 Latest ID: 40 Last updated: "));
}

#[test]
fn group_key_splits_back_with_dashes_in_title() {
    let key = group_key("KALX", "Drone - Night - Edition");
    assert_eq!(key, "KALX-Drone - Night - Edition");
    assert_eq!(split_group_key(&key), ("KALX".to_string(), "Drone - Night - Edition".to_string()));
    assert_eq!(split_group_key("nodash"), ("nodash".to_string(), String::new()));
}
