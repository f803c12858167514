use playlist_sync::listing::parse_playlist_html;

#[test]
fn test_parse_empty_html() {
    let empty_html = "<html><body></body></html>";
    let tracks = parse_playlist_html(empty_html).expect("Failed to parse empty HTML");
    assert!(tracks.is_empty(), "Empty HTML should result in no tracks");
}

#[test]
fn test_parse_malformed_html() {
    let malformed_html = "<html><body><div>not a playlist</div></body></html>";
    let tracks = parse_playlist_html(malformed_html).expect("Failed to parse malformed HTML");
    assert!(
        tracks.is_empty(),
        "Malformed HTML should result in no tracks"
    );
}

#[test]
fn parse_rows_trims_and_skips_incomplete() {
    let html = "<html><body><table>\
        <tr class=\"spin-item\"><td class=\"spin-time\"><a> 12:03 AM </a></td>\
        <td><span class=\"artist\"> Loscil </span><span class=\"song\">Bell Flame</span>\
        <span class=\"release\">Lake Fire</span><span class=\"label\">Kranky</span></td></tr>\
        <tr class=\"spin-item\"><td><span class=\"artist\">Nobody</span></td></tr>\
        <tr class=\"spin-item\"><td class=\"spin-time\"><a></a></td><td><span class=\"artist\">Emeralds</span>\
        <span class=\"song\">Up in the Air</span><span class=\"label\">  </span></td></tr>\
        </table></body></html>";
    let tracks = parse_playlist_html(html).expect("parse");
    assert_eq!(tracks.len(), 2);
    assert_eq!(tracks[0].artist, "Loscil");
    assert_eq!(tracks[0].song, "Bell Flame");
    assert_eq!(tracks[0].album, "Lake Fire");
    assert_eq!(tracks[0].label, Some("Kranky".to_string()));
    assert_eq!(tracks[0].time, Some("12:03 AM".to_string()));
    assert_eq!(tracks[1].artist, "Emeralds");
    assert_eq!(tracks[1].album, "");
    assert_eq!(tracks[1].label, None);
    assert_eq!(tracks[1].time, None);
}
