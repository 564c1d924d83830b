use audiocontrol::fanarttv::{banners_from_text, thumbnails_from_text};
use audiocontrol::genre_cleanup::genre_config_from_text;
use audiocontrol::http_client::{json_body, HttpClientError};
use audiocontrol::json::JsonValue;
use audiocontrol::lastfm::{answer_error_in_text, session_from_text, token_from_text, LastfmError};

#[test]
fn an_empty_body_is_an_empty_response() {
    assert!(matches!(json_body(""), Err(HttpClientError::EmptyResponse)));
}

#[test]
fn a_json_body_reads_as_its_tree() {
    match json_body("{\"a\": [1, -2, \"x\"]}") {
        Ok(v) => {
            let a = v.get("a").expect("member a");
            assert!(matches!(a, JsonValue::Array(items) if items.len() == 3));
        },
        Err(_) => panic!("expected a tree"),
    }
}

#[test]
fn an_html_body_is_named_as_such() {
    match json_body("<html><body>oops</body></html>") {
        Err(HttpClientError::ParseError(m)) => assert!(m.starts_with("Response is HTML")),
        _ => panic!("expected a parse error"),
    }
    match json_body("not json") {
        Err(HttpClientError::ParseError(m)) => assert!(m.starts_with("Failed to parse response: ")),
        _ => panic!("expected a parse error"),
    }
}

#[test]
fn thumbnails_are_read_from_the_response_text() {
    let text = r#"{"artistthumb": [{"url": "https://x/1.jpg"}, {"url": "https://x/2.jpg"}]}"#;
    let (urls, failed) = thumbnails_from_text(Some(text), Some(1));
    assert_eq!(urls, vec!["https://x/1.jpg".to_string()]);
    assert!(!failed);
    let (none, failed) = thumbnails_from_text(Some("garbage"), None);
    assert!(none.is_empty() && failed);
    let (none, failed) = thumbnails_from_text(None, None);
    assert!(none.is_empty() && failed);
}

#[test]
fn banners_are_read_from_the_response_text() {
    let text = r#"{"musicbanner": [{"url": "https://x/b.jpg"}]}"#;
    let (urls, failed) = banners_from_text(Some(text));
    assert_eq!(urls, vec!["https://x/b.jpg".to_string()]);
    assert!(!failed);
}

#[test]
fn lastfm_answers_are_read_from_their_text() {
    assert_eq!(token_from_text(r#"{"token": "abc"}"#).unwrap(), "abc");
    assert!(matches!(token_from_text("nope"), Err(LastfmError::ParsingError(m)) if m.starts_with("Failed to parse token response: ")));
    let (k, n) = session_from_text(r#"{"session": {"key": "k1", "name": "bob"}}"#).unwrap();
    assert_eq!((k.as_str(), n.as_str()), ("k1", "bob"));
    assert!(matches!(answer_error_in_text(r#"{"error": 9, "message": "Invalid session key"}"#),
        Some(LastfmError::ApiError(m, 9)) if m == "Invalid session key"));
    assert!(answer_error_in_text(r#"{"token": "abc"}"#).is_none());
}

#[test]
fn a_genre_configuration_is_read_from_its_text() {
    let cfg = genre_config_from_text(r#"{"_ignore": ["Misc"], "mappings": {"hip hop": "Hip-Hop"}}"#).unwrap();
    assert_eq!(cfg.ignore, vec!["Misc".to_string()]);
    assert!(genre_config_from_text("{").unwrap_err().starts_with("Failed to parse genre config JSON: "));
}
