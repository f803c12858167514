use playlist_sync::auth::{accept_token, basic_authorization, credentials};
use playlist_sync::config::StationConfig;
use playlist_sync::error::SyncError;
use playlist_sync::models::Show;
use playlist_sync::text::{decimal, str_contains, trim_str};

#[test]
fn decimal_digits() {
    assert_eq!(decimal(0), "0");
    assert_eq!(decimal(9), "9");
    assert_eq!(decimal(10), "10");
    assert_eq!(decimal(18446744073709551615), "18446744073709551615");
}

#[test]
fn trim_uses_unicode_white_space() {
    assert_eq!(trim_str("\u{3000} a b \t\n"), "a b");
    assert_eq!(trim_str("   "), "");
}

#[test]
fn contains_finds_substrings() {
    assert!(str_contains("abcabd", "abd"));
    assert!(!str_contains("abc", "abcd"));
    assert!(str_contains("abc", ""));
}

#[test]
fn basic_authorization_is_base64_of_id_and_secret() {
    let c = credentials(Some("id".to_string()), Some("secret".to_string()), Some("r".to_string())).unwrap();
    assert_eq!(basic_authorization(&c), "Basic aWQ6c2VjcmV0");
}

#[test]
fn missing_credential_is_a_config_error() {
    match credentials(Some("id".to_string()), None, Some("r".to_string())) {
        Err(SyncError::Config { what }) => assert_eq!(what, "SPOTIFY_CLIENT_SECRET"),
        other => panic!("unexpected {:?}", other.is_ok()),
    }
    assert!(credentials(None, None, None).is_err());
}

#[test]
fn reply_without_token_is_an_auth_error() {
    assert_eq!(accept_token(200, Some("tok".to_string())).unwrap(), "tok");
    assert!(matches!(accept_token(400, None), Err(SyncError::Auth { status: 400, .. })));
}

fn show(title: &str) -> Show {
    Show { id: 1, title: title.to_string(), url: String::new(), start_time: String::new(), end_time: String::new() }
}

#[test]
fn ignore_patterns_filter_shows() {
    let c = StationConfig::new(vec!["^Rerun".to_string(), "(".to_string(), "News$".to_string()]).unwrap();
    assert_eq!(c.ignore_patterns, vec!["^Rerun".to_string(), "News$".to_string()]);
    let kept = c.filter_shows(vec![show("Rerun: Drone"), show("Drone"), show("Evening News"), show("News at noon")]);
    let titles: Vec<&str> = kept.iter().map(|s| s.title.as_str()).collect();
    assert_eq!(titles, vec!["Drone", "News at noon"]);
}
