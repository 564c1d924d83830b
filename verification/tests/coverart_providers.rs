use std::sync::{Arc, Mutex};

use audiocontrol::coverart::{CoverartMethod, CoverartProvider};
use audiocontrol::coverart_providers::{answer_images, SpotifyCoverartProvider, SpotifySearch};
use audiocontrol::json::{JsonNumber, JsonValue};

fn to_json(v: &serde_json::Value) -> JsonValue {
    match v {
        serde_json::Value::Null => JsonValue::Null,
        serde_json::Value::Bool(b) => JsonValue::Bool(*b),
        serde_json::Value::Number(n) => JsonValue::Number(match (n.as_u64(), n.as_i64()) {
            (Some(u), _) => JsonNumber::PosInt(u),
            (None, Some(i)) => JsonNumber::NegInt(i),
            _ => JsonNumber::Float(n.to_string()),
        }),
        serde_json::Value::String(s) => JsonValue::String(s.clone()),
        serde_json::Value::Array(a) => JsonValue::Array(a.iter().map(to_json).collect()),
        serde_json::Value::Object(o) => JsonValue::Object(o.iter().map(|(k, v)| (k.clone(), to_json(v))).collect()),
    }
}

fn parse(text: &str) -> JsonValue {
    to_json(&serde_json::from_str(text).unwrap())
}

/// A search client that answers from a fixed catalogue and records what it
/// was asked.
struct Catalogue {
    asked: Mutex<Vec<(String, Vec<String>, Vec<(String, String)>)>>,
}

impl SpotifySearch for Catalogue {
    fn search(&self, query: &str, types: &Vec<String>, filters: &Vec<(String, String)>) -> Option<JsonValue> {
        self.asked.lock().unwrap().push((query.to_string(), types.clone(), filters.clone()));
        let kind = types.first().map(|s| s.as_str()).unwrap_or("");
        let answer = match (kind, query) {
            ("artist", "The Beatles") => {
                r#"{"artists": {"items": [{"name": "The Beatles", "images": [
                    {"url": "https://i.scdn.co/image/beatles-640", "width": 640},
                    {"url": "https://i.scdn.co/image/beatles-320", "width": 320}]}]}}"#
            }
            ("track", "Yellow Submarine") => {
                r#"{"tracks": {"items": [{"name": "Yellow Submarine", "album": {"images": [
                    {"url": "https://i.scdn.co/image/ys-track"}]}}]}}"#
            }
            ("album", "Yellow Submarine") => {
                r#"{"albums": {"items": [{"name": "Yellow Submarine", "images": [
                    {"url": "https://i.scdn.co/image/ys-album"}]}]}}"#
            }
            _ => r#"{"artists": {"items": []}, "tracks": {"items": []}, "albums": {"items": []}}"#,
        };
        Some(parse(answer))
    }
}

struct Shared(Arc<Catalogue>);

impl SpotifySearch for Shared {
    fn search(&self, query: &str, types: &Vec<String>, filters: &Vec<(String, String)>) -> Option<JsonValue> {
        self.0.search(query, types, filters)
    }
}

/// Credentials for the search service: a client that answers from the
/// catalogue above.
fn setup_spotify_for_test() -> Result<SpotifyCoverartProvider, String> {
    let client: Arc<Box<dyn SpotifySearch>> = Arc::new(Box::new(Catalogue { asked: Mutex::new(Vec::new()) }));
    Ok(SpotifyCoverartProvider::with_client(client))
}

#[test]
fn test_spotify_provider_creation() {
    let provider = SpotifyCoverartProvider::new();
    assert_eq!(provider.name(), "spotify");
    assert_eq!(provider.display_name(), "Spotify");

    let methods = provider.supported_methods();
    assert!(methods.contains(&CoverartMethod::Artist));
    assert!(methods.contains(&CoverartMethod::Album));
    assert!(methods.contains(&CoverartMethod::Song));
    assert_eq!(methods.len(), 3);
}

#[test]
fn test_spotify_artist_search_the_beatles() {
    let provider = match setup_spotify_for_test() {
        Ok(p) => p,
        Err(_) => return,
    };
    let results = provider.get_artist_coverart_impl("The Beatles");
    assert!(!results.is_empty(), "Expected to find cover art for The Beatles");
    for url in &results {
        assert!(url.starts_with("http://") || url.starts_with("https://"), "Expected valid URL, got: {}", url);
    }
}

#[test]
fn test_spotify_song_search_yellow_submarine() {
    let provider = match setup_spotify_for_test() {
        Ok(p) => p,
        Err(_) => return,
    };
    let results = provider.get_song_coverart_impl("Yellow Submarine", "The Beatles");
    assert!(!results.is_empty(), "Expected to find cover art for Yellow Submarine by The Beatles");
    for url in &results {
        assert!(url.starts_with("http://") || url.starts_with("https://"), "Expected valid URL, got: {}", url);
    }
}

#[test]
fn test_spotify_album_search_yellow_submarine() {
    let provider = match setup_spotify_for_test() {
        Ok(p) => p,
        Err(_) => return,
    };
    let results = provider.get_album_coverart_impl("Yellow Submarine", "The Beatles", None);
    assert!(!results.is_empty(), "Expected to find cover art for Yellow Submarine album by The Beatles");
    for url in &results {
        assert!(url.starts_with("http://") || url.starts_with("https://"), "Expected valid URL, got: {}", url);
    }
}

#[test]
fn test_spotify_provider_no_token_graceful_handling() {
    let provider = SpotifyCoverartProvider::new();
    let artist_results = provider.get_artist_coverart_impl("NonExistentArtist12345");
    let song_results = provider.get_song_coverart_impl("NonExistentSong12345", "NonExistentArtist12345");
    let album_results = provider.get_album_coverart_impl("NonExistentAlbum12345", "NonExistentArtist12345", None);
    assert!(artist_results.is_empty() || !artist_results.is_empty());
    assert!(song_results.is_empty() || !song_results.is_empty());
    assert!(album_results.is_empty() || !album_results.is_empty());
}

#[test]
fn without_a_client_the_provider_finds_nothing() {
    let provider = SpotifyCoverartProvider::new();
    assert!(provider.get_artist_coverart_impl("The Beatles").is_empty());
}

#[test]
fn an_artist_answer_gives_the_first_artists_images_in_order() {
    let answer = parse(
        r#"{"artists": {"items": [{"images": [{"url": "a"}, {"width": 3}, {"url": "b"}]}, {"images": [{"url": "c"}]}]}}"#,
    );
    assert_eq!(answer_images(&answer, "artists", false), vec!["a".to_string(), "b".to_string()]);
}

#[test]
fn a_track_answer_gives_its_albums_images() {
    let answer = parse(r#"{"tracks": {"items": [{"images": [{"url": "own"}], "album": {"images": [{"url": "alb"}]}}]}}"#);
    assert_eq!(answer_images(&answer, "tracks", true), vec!["alb".to_string()]);
}

#[test]
fn an_empty_or_malformed_answer_gives_nothing() {
    assert!(answer_images(&parse(r#"{"artists": {"items": []}}"#), "artists", false).is_empty());
    assert!(answer_images(&parse(r#"{"albums": {"items": []}}"#), "artists", false).is_empty());
    assert!(answer_images(&parse(r#"{"artists": {"items": "x"}}"#), "artists", false).is_empty());
}

#[test]
fn album_and_song_searches_send_their_filters() {
    let catalogue = Arc::new(Catalogue { asked: Mutex::new(Vec::new()) });
    let client: Arc<Box<dyn SpotifySearch>> = Arc::new(Box::new(Shared(catalogue.clone())));
    let provider = SpotifyCoverartProvider::with_client(client);
    provider.get_album_coverart_impl("Yellow Submarine", "The Beatles", None);
    provider.get_song_coverart_impl("Yellow Submarine", "The Beatles");
    let asked = catalogue.asked.lock().unwrap();
    assert_eq!(asked[0].1, vec!["album".to_string()]);
    assert_eq!(
        asked[0].2,
        vec![("artist".to_string(), "The Beatles".to_string()), ("album".to_string(), "Yellow Submarine".to_string())]
    );
    assert_eq!(asked[1].1, vec!["track".to_string()]);
    assert_eq!(
        asked[1].2,
        vec![("artist".to_string(), "The Beatles".to_string()), ("track".to_string(), "Yellow Submarine".to_string())]
    );
}
