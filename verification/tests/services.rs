use audiocontrol::http_client::{
    check_body_size, check_not_empty, json_parse_error, read_limit, redirect_limit, status_error, HttpClientError,
    UreqHttpClient, DEFAULT_REDIRECT_LIMIT,
};
use audiocontrol::json::{JsonNumber, JsonValue};
use audiocontrol::lastfm::{
    answer_error, auth_url, generate_signature, now_playing_params, scrobble_params, session_from_answer,
    session_request_params, token_from_answer, token_request_params, LastfmCredentials, LastfmError,
};
use audiocontrol::macaddress::{mac_octets_of, normalize_mac_address};
use audiocontrol::mpris::{
    basic_player, extract_metadata, find_player_by_name_or_first, flag_of, is_player_service, player_from_properties, text_of, BusType,
    MprisPlayer, PlayerProperties, PropertyValue,
};

fn pairs(v: &[(&str, &str)]) -> Vec<(String, String)> {
    v.iter().map(|(a, b)| (a.to_string(), b.to_string())).collect()
}

// --- HTTP -------------------------------------------------------------

#[test]
fn a_request_with_headers_does_not_follow_redirects() {
    assert_eq!(redirect_limit(0), DEFAULT_REDIRECT_LIMIT);
    assert_eq!(redirect_limit(1), 0);
}

#[test]
fn status_errors_name_the_status_and_the_body() {
    match status_error(500, "boom") {
        HttpClientError::ServerError(m) => assert_eq!(m, "HTTP 500 error: boom"),
        other => panic!("a server error: {:?}", other),
    }
    match status_error(401, "nope") {
        HttpClientError::ServerError(m) => assert!(m.starts_with("HTTP 401 Unauthorized") && m.ends_with("Error: nope")),
        other => panic!("a server error: {:?}", other),
    }
}

#[test]
fn an_html_body_is_reported_as_such() {
    match json_parse_error("<html><body>login</body></html>", "expected value") {
        HttpClientError::ParseError(m) => assert!(m.starts_with("Response is HTML")),
        other => panic!("a parse error: {:?}", other),
    }
    match json_parse_error("{", "EOF while parsing") {
        HttpClientError::ParseError(m) => assert_eq!(m, "Failed to parse response: EOF while parsing"),
        other => panic!("a parse error: {:?}", other),
    }
}

#[test]
fn an_empty_body_is_an_error() {
    assert!(matches!(check_not_empty(""), Err(HttpClientError::EmptyResponse)));
    assert!(check_not_empty("x").is_ok());
}

#[test]
fn a_body_over_the_cap_is_refused_and_one_at_the_cap_accepted() {
    assert!(check_body_size(10, 10).is_ok());
    match check_body_size(11, 10) {
        Err(HttpClientError::ParseError(m)) => assert_eq!(m, "Response body exceeds the 10 byte limit"),
        other => panic!("over the cap: {:?}", other),
    }
    assert_eq!(read_limit(10), 11);
    assert_eq!(read_limit(u64::MAX), u64::MAX);
}

#[test]
fn error_messages_read_as_before() {
    assert_eq!(HttpClientError::EmptyResponse.message(), "Empty response from server");
    assert_eq!(HttpClientError::RequestError("x".to_string()).message(), "HTTP request error: x");
}

#[test]
fn the_client_keeps_its_timeout() {
    assert_eq!(UreqHttpClient::new(7).timeout_secs(), 7);
    assert_eq!(UreqHttpClient::default().timeout_secs(), 5);
}

// --- Last.fm ----------------------------------------------------------

fn logged_in() -> LastfmCredentials {
    let mut c = LastfmCredentials::new("key".to_string(), "secret".to_string()).unwrap();
    c.set_session("sk1".to_string(), "alice".to_string());
    c
}

#[test]
fn credentials_need_a_key_and_a_secret() {
    assert!(LastfmCredentials::new(String::new(), "s".to_string()).is_err());
    assert!(LastfmCredentials::new("k".to_string(), String::new()).is_err());
    let c = LastfmCredentials::new("k".to_string(), "s".to_string()).unwrap();
    assert!(c.validate().is_ok());
    assert!(!c.is_authenticated());
    assert_eq!(c.get_username(), None);
}

#[test]
fn a_session_authenticates_and_clears_the_token() {
    let mut c = LastfmCredentials::new("k".to_string(), "s".to_string()).unwrap();
    c.set_auth_token("tok".to_string(), 100);
    assert_eq!(c.reusable_auth_token(200), Some("tok".to_string()));
    assert_eq!(c.reusable_auth_token(100 + 3600), None, "a token lives an hour");
    c.set_session("sk".to_string(), "alice".to_string());
    assert!(c.is_authenticated());
    assert_eq!(c.get_username(), Some("alice".to_string()));
    assert_eq!(c.auth_token, None);
}

#[test]
fn the_auth_url_carries_key_and_token() {
    assert_eq!(auth_url("k", "t"), "https://www.last.fm/api/auth/?api_key=k&token=t");
}

#[test]
fn a_signature_is_the_md5_of_the_sorted_parameters_and_the_secret() {
    let params = pairs(&[("method", "auth.getToken"), ("api_key", "k")]);
    assert_eq!(generate_signature(&params, "s"), "fcb68e4c03131d77e8851e889687a441");
}

#[test]
fn a_signature_does_not_depend_on_parameter_order() {
    let a = pairs(&[("b", "w"), ("a", "k")]);
    let b = pairs(&[("a", "k"), ("b", "w")]);
    assert_eq!(generate_signature(&a, "secret"), generate_signature(&b, "secret"));
    assert_eq!(generate_signature(&a, "secret"), "77cbf86b57e0c0ba0248ff0f1a14310e");
}

#[test]
fn token_and_session_requests_name_their_methods() {
    assert_eq!(token_request_params("k"), pairs(&[("method", "auth.getToken"), ("api_key", "k"), ("format", "json")]));
    assert_eq!(session_request_params("k", "t"), pairs(&[("method", "auth.getSession"), ("api_key", "k"), ("token", "t")]));
}

#[test]
fn a_scrobble_needs_a_session_and_carries_the_track() {
    let anonymous = LastfmCredentials::new("key".to_string(), "secret".to_string()).unwrap();
    match scrobble_params(&anonymous, "A", "T", None, None, 1, None, None) {
        Err(LastfmError::AuthError(m)) => assert_eq!(m, "Not authenticated with Last.fm"),
        other => panic!("not authenticated: {:?}", other),
    }
    let params = scrobble_params(&logged_in(), "A", "T", Some("Al"), None, 1700000000, Some(3), Some(200)).unwrap();
    assert_eq!(
        params,
        pairs(&[
            ("method", "track.scrobble"),
            ("api_key", "key"),
            ("sk", "sk1"),
            ("artist", "A"),
            ("track", "T"),
            ("timestamp", "1700000000"),
            ("album", "Al"),
            ("trackNumber", "3"),
            ("duration", "200"),
        ])
    );
}

#[test]
fn now_playing_carries_the_track_without_a_timestamp() {
    let params = now_playing_params(&logged_in(), "A", "T", None, Some("AA"), None, None).unwrap();
    assert_eq!(
        params,
        pairs(&[("method", "track.updateNowPlaying"), ("api_key", "key"), ("sk", "sk1"), ("artist", "A"), ("track", "T"), ("albumArtist", "AA")])
    );
}

#[test]
fn an_answer_error_carries_the_code_and_message() {
    let text = r#"{"error": 9, "message": "Invalid session key"}"#;
    let parsed = JsonValue::Object(vec![
        ("error".to_string(), JsonValue::Number(JsonNumber::PosInt(9))),
        ("message".to_string(), JsonValue::String("Invalid session key".to_string())),
    ]);
    match answer_error(text, Some(&parsed)) {
        Some(LastfmError::ApiError(m, c)) => {
            assert_eq!(m, "Invalid session key");
            assert_eq!(c, 9);
        }
        other => panic!("an API error: {:?}", other),
    }
    assert!(answer_error(r#"{"token": "x"}"#, None).is_none());
    match answer_error(r#""error": garbled"#, None) {
        Some(LastfmError::ApiError(m, c)) => {
            assert_eq!(c, -1);
            assert!(m.starts_with("Unknown API error: "));
        }
        other => panic!("an unknown error: {:?}", other),
    }
    assert_eq!(LastfmError::ApiError("x".to_string(), 9).message(), "Last.fm API error (9): x");
}

// --- MAC addresses ----------------------------------------------------

#[test]
fn mac_addresses_are_read_with_either_separator() {
    assert_eq!(mac_octets_of("aa:bb:cc:dd:ee:ff"), Ok([0xaa, 0xbb, 0xcc, 0xdd, 0xee, 0xff]));
    assert_eq!(mac_octets_of("AA-BB-CC-01-02-03"), Ok([0xaa, 0xbb, 0xcc, 0x01, 0x02, 0x03]));
    assert!(mac_octets_of("aa:bb:cc").is_err());
    assert!(mac_octets_of("zz:bb:cc:dd:ee:ff").is_err());
}

#[test]
fn a_normalised_mac_address_prints_in_the_usual_form() {
    let mac = normalize_mac_address("aa-bb-cc-dd-ee-ff").unwrap();
    assert_eq!(mac.bytes(), [0xaa, 0xbb, 0xcc, 0xdd, 0xee, 0xff]);
    assert!(normalize_mac_address("nonsense").is_err());
}

// --- MPRIS ------------------------------------------------------------

fn text(s: &str) -> Option<PropertyValue> {
    Some(PropertyValue { text: Some(s.to_string()), unsigned: None, signed: None, items: None })
}

fn flag(b: bool) -> Option<PropertyValue> {
    Some(PropertyValue { text: None, unsigned: Some(b as u64), signed: None, items: None })
}

#[test]
fn player_services_are_named_under_the_mpris_prefix() {
    assert!(is_player_service("org.mpris.MediaPlayer2.vlc"));
    assert!(!is_player_service("org.mpris.MediaPlayer2"));
    assert!(!is_player_service("org.freedesktop.DBus"));
    assert_eq!(BusType::Session.name(), "session");
    assert_eq!(BusType::System.name(), "system");
}

#[test]
fn property_values_read_as_flags_and_text() {
    assert_eq!(flag_of(&flag(true)), Some(true));
    assert_eq!(flag_of(&flag(false)), Some(false));
    assert_eq!(flag_of(&None), None);
    assert_eq!(text_of(&text("Playing")), Some("Playing".to_string()));
    assert_eq!(text_of(&flag(true)), None);
}

#[test]
fn a_player_is_read_from_its_properties() {
    let props = PlayerProperties {
        identity: text("VLC"),
        desktop_entry: None,
        can_control: flag(true),
        can_play: flag(true),
        can_pause: flag(false),
        can_seek: None,
        can_go_next: None,
        can_go_previous: None,
        playback_status: text("Playing"),
        metadata: Some(vec![
            ("xesam:title".to_string(), PropertyValue { text: Some("Song".to_string()), unsigned: None, signed: None, items: None }),
            (
                "xesam:artist".to_string(),
                PropertyValue { text: None, unsigned: None, signed: None, items: Some(vec![Some("First".to_string()), Some("Second".to_string())]) },
            ),
        ]),
    };
    let p = player_from_properties("org.mpris.MediaPlayer2.vlc", BusType::Session, &props);
    assert_eq!(p.identity, Some("VLC".to_string()));
    assert_eq!(p.can_pause, Some(false));
    assert_eq!(p.playback_status, Some("Playing".to_string()));
    assert_eq!(p.current_track, Some("Song".to_string()));
    assert_eq!(p.current_artist, Some("First".to_string()));
}

fn player(bus: &str, identity: Option<&str>) -> MprisPlayer {
    let mut p = basic_player(bus, BusType::Session);
    p.identity = identity.map(str::to_string);
    p
}

#[test]
fn a_player_is_found_by_bus_name_or_identity_or_else_the_first() {
    let players = || vec![player("org.mpris.MediaPlayer2.vlc", Some("VLC")), player("org.mpris.MediaPlayer2.spotify", Some("Spotify"))];
    assert_eq!(find_player_by_name_or_first(players(), Some("spotify")).unwrap().bus_name, "org.mpris.MediaPlayer2.spotify");
    assert_eq!(find_player_by_name_or_first(players(), Some("VLC")).unwrap().bus_name, "org.mpris.MediaPlayer2.vlc");
    assert!(find_player_by_name_or_first(players(), Some("mpd")).is_none());
    assert_eq!(find_player_by_name_or_first(players(), None).unwrap().bus_name, "org.mpris.MediaPlayer2.vlc");
    assert!(find_player_by_name_or_first(Vec::new(), None).is_none());
}

#[test]
fn metadata_values_read_as_text_or_the_first_list_item() {
    let value = |text: Option<&str>, items: Option<Vec<Option<&str>>>| PropertyValue {
        text: text.map(|t| t.to_string()),
        unsigned: None,
        signed: None,
        items: items.map(|v| v.into_iter().map(|i| i.map(|t| t.to_string())).collect()),
    };
    let entries = vec![
        ("xesam:title".to_string(), value(Some("Song"), None)),
        ("xesam:artist".to_string(), value(None, Some(vec![Some("First"), Some("Second")]))),
        ("xesam:genre".to_string(), value(None, Some(vec![]))),
        ("mpris:length".to_string(), PropertyValue { text: None, unsigned: Some(5), signed: None, items: None }),
    ];
    assert_eq!(
        extract_metadata(&entries),
        vec![
            ("xesam:title".to_string(), "Song".to_string()),
            ("xesam:artist".to_string(), "First".to_string()),
            ("xesam:genre".to_string(), String::new()),
            ("mpris:length".to_string(), String::new()),
        ]
    );
}

#[test]
fn token_and_session_answers_are_read() {
    let text = |t: &str| JsonValue::String(t.to_string());
    let token = JsonValue::Object(vec![("token".to_string(), text("abc123"))]);
    assert_eq!(token_from_answer(&token).unwrap(), "abc123");
    assert!(matches!(token_from_answer(&JsonValue::Object(vec![])), Err(LastfmError::ParsingError(_))));
    let session = JsonValue::Object(vec![(
        "session".to_string(),
        JsonValue::Object(vec![("name".to_string(), text("listener")), ("key".to_string(), text("sk-1"))]),
    )]);
    assert_eq!(session_from_answer(&session).unwrap(), ("sk-1".to_string(), "listener".to_string()));
    let partial = JsonValue::Object(vec![("session".to_string(), JsonValue::Object(vec![("key".to_string(), text("sk-1"))]))]);
    assert!(matches!(session_from_answer(&partial), Err(LastfmError::ParsingError(_))));
}
