use std::collections::HashMap;
use std::sync::Mutex;

use audiocontrol::coverart::{CoverartMethod, CoverartProvider, CoverartQuery};
use audiocontrol::external_coverart::config::{
    parse_endpoint, parse_endpoints, parse_method, EndpointConfig, Trigger, DEFAULT_TIMEOUT_SECONDS, ERROR_TTL_SECONDS,
    MAX_CACHE_TTL_DAYS, MAX_MAX_CONCURRENT, MAX_TIMEOUT_SECONDS,
};
use audiocontrol::external_coverart::localize::ImageSource;
use audiocontrol::external_coverart::protocol::{parse_response, ttl_seconds, Lookup, Parsed, ParsedImage};
use audiocontrol::external_coverart::stub_server::Canned;
use audiocontrol::external_coverart::template::{expand, replace_all};
use audiocontrol::external_coverart::worker::{should_look_up, InFlight};
use audiocontrol::external_coverart::{cache_key, EndpointBackend, ExternalCoverartProvider};
use audiocontrol::json::{JsonNumber, JsonValue};

fn to_json(v: &serde_json::Value) -> JsonValue {
    match v {
        serde_json::Value::Null => JsonValue::Null,
        serde_json::Value::Bool(b) => JsonValue::Bool(*b),
        serde_json::Value::Number(n) => JsonValue::Number(match (n.as_u64(), n.as_i64()) {
            (Some(u), _) => JsonNumber::PosInt(u),
            (None, Some(i)) => JsonNumber::NegInt(i),
            _ => JsonNumber::Float(n.to_string()),
        }),
        serde_json::Value::String(s) => JsonValue::String(s.clone()),
        serde_json::Value::Array(a) => JsonValue::Array(a.iter().map(to_json).collect()),
        serde_json::Value::Object(o) => JsonValue::Object(o.iter().map(|(k, v)| (k.clone(), to_json(v))).collect()),
    }
}

fn parse(text: &str) -> JsonValue {
    to_json(&serde_json::from_str(text).unwrap())
}

// --- the provider -----------------------------------------------------

fn endpoint() -> EndpointConfig {
    EndpointConfig {
        name: "llm".to_string(),
        display_name: "AI Lookup".to_string(),
        url: "https://x.example/c?artist={artist}&title={title}".to_string(),
        methods: vec![CoverartMethod::Song, CoverartMethod::Album],
        headers: Vec::new(),
        timeout_seconds: 45,
        trigger: Trigger::Fallback,
        cache_ttl_days: 30,
        negative_cache_ttl_days: 7,
        max_concurrent: 1,
        localize: false,
        max_image_bytes: 8 * 1024 * 1024,
    }
}

/// A backend held in memory: a cache, a slot count, and one canned answer.
#[derive(Default)]
struct MemoryBackend {
    cache: Mutex<HashMap<String, (Lookup, u64)>>,
    slots_taken: Mutex<usize>,
    max_slots: usize,
    answer: Option<String>,
    requests: Mutex<Vec<String>>,
}

impl ImageSource for MemoryBackend {
    fn fetch(&self, _url: &str, _headers: &[(String, String)], _max_bytes: u64) -> Result<Vec<u8>, String> {
        Err("no network here".to_string())
    }
    fn store(&self, _path: &str, _bytes: Vec<u8>, _mime: &str, _ttl_days: u64) -> Result<(), String> {
        Ok(())
    }
    fn has_file(&self, _path: &str) -> bool {
        true
    }
}

impl EndpointBackend for MemoryBackend {
    fn cached(&self, key: &str) -> Option<Lookup> {
        self.cache.lock().unwrap().get(key).map(|(l, _)| l.clone())
    }
    fn try_acquire_slot(&self) -> bool {
        let mut taken = self.slots_taken.lock().unwrap();
        if *taken < self.max_slots {
            *taken += 1;
            true
        } else {
            false
        }
    }
    fn release_slot(&self) {
        *self.slots_taken.lock().unwrap() -= 1;
    }
    fn request(&self, url: &str, _headers: &[(String, String)], _timeout_seconds: u64) -> Option<JsonValue> {
        self.requests.lock().unwrap().push(url.to_string());
        self.answer.as_deref().map(parse)
    }
    fn remember(&self, key: &str, lookup: &Lookup, ttl_seconds: u64) {
        self.cache.lock().unwrap().insert(key.to_string(), (lookup.clone(), ttl_seconds));
    }
}

fn backend(answer: Option<&str>) -> MemoryBackend {
    MemoryBackend { max_slots: 1, answer: answer.map(str::to_string), ..Default::default() }
}

fn song() -> CoverartQuery {
    CoverartQuery::Song { title: "Uni Acronym".to_string(), artist: "Alva Noto".to_string() }
}

#[test]
fn the_provider_is_slow_and_reports_its_timeout() {
    let provider = ExternalCoverartProvider::new(endpoint(), backend(None));
    assert!(provider.is_slow());
    assert_eq!(provider.timeout(), 45);
}

#[test]
fn supported_methods_come_from_the_configuration() {
    let provider = ExternalCoverartProvider::new(endpoint(), backend(None));
    let methods = provider.supported_methods();
    assert!(methods.contains(&CoverartMethod::Song));
    assert!(methods.contains(&CoverartMethod::Album));
    assert!(!methods.contains(&CoverartMethod::Artist));
}

#[test]
fn a_method_named_twice_is_supported_once() {
    let mut config = endpoint();
    config.methods = vec![CoverartMethod::Song, CoverartMethod::Song];
    let provider = ExternalCoverartProvider::new(config, backend(None));
    assert_eq!(provider.supported_methods(), vec![CoverartMethod::Song]);
}

#[test]
fn the_name_and_display_name_come_from_the_configuration() {
    let provider = ExternalCoverartProvider::new(endpoint(), backend(None));
    assert_eq!(provider.name(), "llm");
    assert_eq!(provider.display_name(), "AI Lookup");
    assert_eq!(provider.endpoint().url, endpoint().url);
}

#[test]
fn cache_keys_separate_endpoints_and_queries() {
    let a = cache_key("llm", &song());
    let b = cache_key("other", &song());
    let c = cache_key(
        "llm",
        &CoverartQuery::Song { title: "Xerrox Monophaser 1".to_string(), artist: "Alva Noto".to_string() },
    );
    assert_ne!(a, b);
    assert_ne!(a, c);
    assert!(a.starts_with("coverart::external::llm::"));
}

#[test]
fn cache_keys_ignore_case_and_surrounding_whitespace() {
    let padded = CoverartQuery::Song { title: "  uni acronym ".to_string(), artist: "ALVA NOTO".to_string() };
    assert_eq!(cache_key("llm", &song()), cache_key("llm", &padded));
}

#[test]
fn cache_keys_separate_the_fields() {
    let swapped = CoverartQuery::Song { title: "Alva Noto".to_string(), artist: "Uni Acronym".to_string() };
    assert_ne!(cache_key("llm", &song()), cache_key("llm", &swapped));
}

#[test]
fn cache_keys_include_the_album_year() {
    let with_year =
        CoverartQuery::Album { title: "Xerrox Vol. 2".to_string(), artist: "Alva Noto".to_string(), year: Some(2009) };
    let without_year =
        CoverartQuery::Album { title: "Xerrox Vol. 2".to_string(), artist: "Alva Noto".to_string(), year: None };
    assert_ne!(cache_key("llm", &with_year), cache_key("llm", &without_year));
}

#[test]
fn a_song_cache_key_reads_as_expected() {
    assert_eq!(cache_key("llm", &song()), "coverart::external::llm::song|alva noto|uni acronym");
    assert_eq!(
        cache_key("llm", &CoverartQuery::Album { title: "X".to_string(), artist: "A".to_string(), year: Some(2009) }),
        "coverart::external::llm::album|a|x|2009"
    );
}

#[test]
fn an_uncached_query_returns_none() {
    let provider = ExternalCoverartProvider::new(endpoint(), backend(None));
    let query = CoverartQuery::Song {
        title: "A Track Nothing Has Ever Looked Up".to_string(),
        artist: "No Such Artist At All".to_string(),
    };
    assert_eq!(provider.cached_coverart(&query), None);
}

#[test]
fn a_lookup_asks_once_and_then_answers_from_the_cache() {
    let provider = ExternalCoverartProvider::new(endpoint(), backend(Some(r#"{"images": [{"url": "https://img.example/a.jpg"}]}"#)));
    let first = provider.lookup(&song());
    assert_eq!(first, Lookup::Found(vec!["https://img.example/a.jpg".to_string()]));
    assert_eq!(
        provider.cached_coverart(&song()),
        Some(vec!["https://img.example/a.jpg".to_string()])
    );
    assert_eq!(provider.lookup(&song()), first);
    assert_eq!(provider.get_song_coverart_impl("Uni Acronym", "Alva Noto"), vec!["https://img.example/a.jpg".to_string()]);
}

#[test]
fn an_empty_answer_is_cached_as_no_artwork() {
    let b = backend(Some(r#"{"images": []}"#));
    let provider = ExternalCoverartProvider::new(endpoint(), b);
    assert_eq!(provider.lookup(&song()), Lookup::NoArtwork);
    assert_eq!(provider.cached_coverart(&song()), Some(Vec::new()));
}

#[test]
fn a_failed_request_is_an_error_cached_for_an_hour() {
    let provider = ExternalCoverartProvider::new(endpoint(), backend(None));
    assert_eq!(provider.lookup(&song()), Lookup::Error);
    assert_eq!(provider.cached_coverart(&song()), Some(Vec::new()));
}

#[test]
fn with_every_slot_taken_the_answer_is_an_uncached_error() {
    let mut b = backend(Some(r#"{"images": [{"url": "https://img.example/a.jpg"}]}"#));
    b.max_slots = 0;
    let provider = ExternalCoverartProvider::new(endpoint(), b);
    assert_eq!(provider.lookup(&song()), Lookup::Error);
    assert_eq!(provider.cached_coverart(&song()), None);
}

// --- the protocol -----------------------------------------------------

#[test]
fn images_are_read_in_order() {
    let body = parse(
        r#"{"images": [{"url": "https://img.example/a.jpg", "width": 1000, "height": 1000}, {"url": "https://img.example/b.jpg"}]}"#,
    );
    assert_eq!(
        parse_response(&body).into_lookup(),
        Lookup::Found(vec!["https://img.example/a.jpg".to_string(), "https://img.example/b.jpg".to_string()])
    );
}

#[test]
fn an_empty_image_list_is_no_artwork() {
    assert_eq!(parse_response(&parse(r#"{"images": []}"#)), Parsed::NoArtwork);
}

#[test]
fn a_body_without_an_images_field_is_an_error() {
    assert_eq!(parse_response(&parse(r#"{"result": "ok"}"#)), Parsed::Error);
}

#[test]
fn an_image_without_a_url_is_skipped() {
    let body = parse(r#"{"images": [{"width": 1000}, {"url": "https://img.example/a.jpg"}]}"#);
    assert_eq!(parse_response(&body).into_lookup(), Lookup::Found(vec!["https://img.example/a.jpg".to_string()]));
}

#[test]
fn an_inline_image_is_parsed_without_being_decoded() {
    let images = match parse_response(&parse(r#"{"images": [{"data": "aGVsbG8="}]}"#)) {
        Parsed::Images(images) => images,
        _ => panic!("an inline image is an answer"),
    };
    assert_eq!(images.len(), 1);
    assert_eq!(images[0].data.as_deref(), Some("aGVsbG8="));
    assert_eq!(images[0].url, None);
}

#[test]
fn a_url_and_inline_image_both_survive_parsing() {
    let images = match parse_response(&parse(r#"{"images": [{"url": "https://img.example/a.jpg", "data": "aGVsbG8="}]}"#)) {
        Parsed::Images(images) => images,
        _ => panic!("an answer"),
    };
    assert_eq!(images[0].url.as_deref(), Some("https://img.example/a.jpg"));
    assert_eq!(images[0].data.as_deref(), Some("aGVsbG8="));
}

#[test]
fn an_entry_with_neither_url_nor_data_is_skipped() {
    let images = match parse_response(&parse(r#"{"images": [{"width": 1000}, {"url": "https://img.example/a.jpg"}]}"#)) {
        Parsed::Images(images) => images,
        _ => panic!("an answer"),
    };
    assert_eq!(images.len(), 1);
    assert_eq!(images[0].url.as_deref(), Some("https://img.example/a.jpg"));
}

#[test]
fn a_list_of_only_empty_entries_is_no_artwork() {
    let body = parse(r#"{"images": [{"width": 1000}, {"url": "", "data": "  "}]}"#);
    assert_eq!(parse_response(&body), Parsed::NoArtwork);
}

#[test]
fn into_lookup_passes_urls_through_and_drops_inline_data() {
    let parsed = Parsed::Images(vec![
        ParsedImage { url: Some("https://img.example/a.jpg".into()), data: None },
        ParsedImage { url: None, data: Some("aGVsbG8=".into()) },
    ]);
    assert_eq!(parsed.into_lookup(), Lookup::Found(vec!["https://img.example/a.jpg".to_string()]));
}

#[test]
fn into_lookup_carries_the_other_two_classes_unchanged() {
    assert_eq!(Parsed::NoArtwork.into_lookup(), Lookup::NoArtwork);
    assert_eq!(Parsed::Error.into_lookup(), Lookup::Error);
}

#[test]
fn each_class_has_its_own_ttl() {
    let endpoint = endpoint();
    assert_eq!(ttl_seconds(&Lookup::Found(vec!["https://img.example/a.jpg".into()]), &endpoint), 30 * 24 * 3600);
    assert_eq!(ttl_seconds(&Lookup::NoArtwork, &endpoint), 7 * 24 * 3600);
    assert_eq!(ttl_seconds(&Lookup::Error, &endpoint), ERROR_TTL_SECONDS);
}

#[test]
fn only_found_yields_urls() {
    assert_eq!(
        Lookup::Found(vec!["https://img.example/a.jpg".into()]).urls(),
        vec!["https://img.example/a.jpg".to_string()]
    );
    assert!(Lookup::NoArtwork.urls().is_empty());
    assert!(Lookup::Error.urls().is_empty());
}

#[test]
fn lookups_compare_by_class_and_urls() {
    let a = Lookup::Found(vec!["u".to_string()]);
    assert!(a.same_as(&Lookup::Found(vec!["u".to_string()])));
    assert!(!a.same_as(&Lookup::Found(vec!["v".to_string()])));
    assert!(!Lookup::NoArtwork.same_as(&Lookup::Error));
    assert!(Lookup::Error.same_as(&Lookup::Error));
}

// --- the configuration ------------------------------------------------

fn config_with(providers: &str) -> JsonValue {
    parse(&format!(r#"{{"services": {{"external_coverart": {{"enable": true, "providers": {}}}}}}}"#, providers))
}

#[test]
fn a_minimal_endpoint_parses_with_defaults() {
    let endpoints = parse_endpoints(&config_with(r#"[{"name": "llm", "url": "https://tools.example.com/coverart?artist={artist}"}]"#));
    assert_eq!(endpoints.len(), 1);
    let endpoint = &endpoints[0];
    assert_eq!(endpoint.name, "llm");
    assert_eq!(endpoint.display_name, "llm");
    assert_eq!(endpoint.timeout_seconds, 45);
    assert_eq!(endpoint.trigger, Trigger::Fallback);
    assert_eq!(endpoint.cache_ttl_days, 30);
    assert_eq!(endpoint.negative_cache_ttl_days, 7);
    assert_eq!(endpoint.max_concurrent, 1);
    assert_eq!(endpoint.methods, vec![CoverartMethod::Song]);
}

#[test]
fn every_field_is_read() {
    let endpoints = parse_endpoints(&config_with(
        r#"[{"name": "llm", "display_name": "AI Lookup", "url": "https://tools.example.com/coverart",
            "methods": ["song", "album", "artist"], "headers": {"Authorization": "Bearer sekrit"},
            "timeout_seconds": 90, "trigger": "always", "cache_ttl_days": 10,
            "negative_cache_ttl_days": 2, "max_concurrent": 3}]"#,
    ));
    let endpoint = &endpoints[0];
    assert_eq!(endpoint.display_name, "AI Lookup");
    assert_eq!(endpoint.timeout_seconds, 90);
    assert_eq!(endpoint.trigger, Trigger::Always);
    assert_eq!(endpoint.cache_ttl_days, 10);
    assert_eq!(endpoint.negative_cache_ttl_days, 2);
    assert_eq!(endpoint.max_concurrent, 3);
    assert_eq!(endpoint.header("Authorization").map(String::as_str), Some("Bearer sekrit"));
    assert_eq!(endpoint.methods, vec![CoverartMethod::Song, CoverartMethod::Album, CoverartMethod::Artist]);
}

#[test]
fn a_malformed_endpoint_is_skipped_not_fatal() {
    let endpoints = parse_endpoints(&config_with(r#"[{"name": "broken"}, {"name": "good", "url": "https://tools.example.com/coverart"}]"#));
    assert_eq!(endpoints.len(), 1);
    assert_eq!(endpoints[0].name, "good");
}

#[test]
fn an_unknown_method_name_is_skipped() {
    let endpoints = parse_endpoints(&config_with(
        r#"[{"name": "llm", "url": "https://tools.example.com/coverart", "methods": ["song", "playlist"]}]"#,
    ));
    assert_eq!(endpoints[0].methods, vec![CoverartMethod::Song]);
}

#[test]
fn an_endpoint_with_no_usable_method_is_skipped() {
    let endpoints = parse_endpoints(&config_with(
        r#"[{"name": "llm", "url": "https://tools.example.com/coverart", "methods": ["playlist"]}]"#,
    ));
    assert!(endpoints.is_empty());
}

#[test]
fn an_invalid_numeric_value_falls_back_to_the_default() {
    let endpoints = parse_endpoints(&config_with(
        r#"[{"name": "llm", "url": "https://tools.example.com/coverart", "timeout_seconds": 0}]"#,
    ));
    assert_eq!(endpoints.len(), 1);
    assert_eq!(endpoints[0].timeout_seconds, DEFAULT_TIMEOUT_SECONDS);
}

#[test]
fn an_absurd_timeout_is_clamped_to_the_maximum() {
    let endpoints = parse_endpoints(&config_with(&format!(
        r#"[{{"name": "llm", "url": "https://tools.example.com/coverart", "timeout_seconds": {}}}]"#,
        u64::MAX
    )));
    assert_eq!(endpoints.len(), 1);
    assert_eq!(endpoints[0].timeout_seconds, MAX_TIMEOUT_SECONDS);
}

#[test]
fn a_timeout_at_the_ceiling_is_not_clamped() {
    let endpoints = parse_endpoints(&config_with(&format!(
        r#"[{{"name": "llm", "url": "https://tools.example.com/coverart", "timeout_seconds": {}}}]"#,
        MAX_TIMEOUT_SECONDS
    )));
    assert_eq!(endpoints[0].timeout_seconds, MAX_TIMEOUT_SECONDS);
}

#[test]
fn absurd_cache_ttls_are_clamped_to_the_maximum() {
    let endpoints = parse_endpoints(&config_with(&format!(
        r#"[{{"name": "llm", "url": "https://tools.example.com/coverart", "cache_ttl_days": {0}, "negative_cache_ttl_days": {0}}}]"#,
        u64::MAX
    )));
    assert_eq!(endpoints.len(), 1);
    assert_eq!(endpoints[0].cache_ttl_days, MAX_CACHE_TTL_DAYS);
    assert_eq!(endpoints[0].negative_cache_ttl_days, MAX_CACHE_TTL_DAYS);
}

#[test]
fn an_absurd_max_concurrent_is_clamped_to_the_maximum() {
    let endpoints = parse_endpoints(&config_with(&format!(
        r#"[{{"name": "llm", "url": "https://tools.example.com/coverart", "max_concurrent": {}}}]"#,
        u64::MAX
    )));
    assert_eq!(endpoints.len(), 1);
    assert_eq!(endpoints[0].max_concurrent, MAX_MAX_CONCURRENT as usize);
}

#[test]
fn disabling_the_service_yields_no_endpoints() {
    let config = parse(
        r#"{"services": {"external_coverart": {"enable": false, "providers": [{"name": "llm", "url": "https://tools.example.com/c"}]}}}"#,
    );
    assert!(parse_endpoints(&config).is_empty());
}

#[test]
fn no_configuration_at_all_yields_no_endpoints() {
    assert!(parse_endpoints(&parse("{}")).is_empty());
}

#[test]
fn a_duplicate_name_is_skipped() {
    let endpoints = parse_endpoints(&config_with(
        r#"[{"name": "llm", "url": "https://tools.example.com/one"}, {"name": "llm", "url": "https://tools.example.com/two"}]"#,
    ));
    assert_eq!(endpoints.len(), 1);
    assert_eq!(endpoints[0].url, "https://tools.example.com/one");
}

#[test]
fn localize_defaults_to_off() {
    let endpoints = parse_endpoints(&config_with(r#"[{"name": "llm", "url": "https://tools.example.com/coverart"}]"#));
    assert!(!endpoints[0].localize);
    assert_eq!(endpoints[0].max_image_bytes, 8 * 1024 * 1024);
}

#[test]
fn localize_and_max_image_bytes_are_read() {
    let endpoints = parse_endpoints(&config_with(
        r#"[{"name": "llm", "url": "https://tools.example.com/coverart", "localize": true, "max_image_bytes": 1024}]"#,
    ));
    assert!(endpoints[0].localize);
    assert_eq!(endpoints[0].max_image_bytes, 1024);
}

#[test]
fn a_non_boolean_localize_warns_and_stays_off() {
    let endpoints = parse_endpoints(&config_with(
        r#"[{"name": "llm", "url": "https://tools.example.com/coverart", "localize": "yes"}]"#,
    ));
    assert_eq!(endpoints.len(), 1, "a bad localize must not drop the endpoint");
    assert!(!endpoints[0].localize);
}

#[test]
fn an_absurd_max_image_bytes_is_clamped() {
    let endpoints = parse_endpoints(&config_with(&format!(
        r#"[{{"name": "llm", "url": "https://tools.example.com/coverart", "max_image_bytes": {}}}]"#,
        u64::MAX
    )));
    assert_eq!(endpoints[0].max_image_bytes, 64 * 1024 * 1024);
}

#[test]
fn a_single_entry_without_a_url_is_refused() {
    assert!(parse_endpoint(&parse(r#"{"name": "x"}"#)).is_none());
    assert!(parse_endpoint(&parse(r#"{"url": "https://x"}"#)).is_none());
    assert!(parse_endpoint(&parse(r#"{"name": "x", "url": "https://x"}"#)).is_some());
}

#[test]
fn method_names_are_the_four_lookups() {
    assert_eq!(parse_method("artist"), Some(CoverartMethod::Artist));
    assert_eq!(parse_method("url"), Some(CoverartMethod::Url));
    assert_eq!(parse_method("Song"), None);
}

// --- the URL template -------------------------------------------------

#[test]
fn a_song_query_fills_artist_and_title() {
    assert_eq!(
        expand("https://x.example/c?artist={artist}&title={title}", &song()),
        "https://x.example/c?artist=Alva%20Noto&title=Uni%20Acronym"
    );
}

#[test]
fn values_are_percent_encoded() {
    let query = CoverartQuery::Song { title: "A&B #1".to_string(), artist: "Fed/Up".to_string() };
    assert_eq!(expand("https://x.example/c?a={artist}&t={title}", &query), "https://x.example/c?a=Fed%2FUp&t=A%26B%20%231");
}

#[test]
fn a_placeholder_with_no_value_becomes_empty() {
    assert_eq!(expand("https://x.example/c?album={album}&year={year}", &song()), "https://x.example/c?album=&year=");
}

#[test]
fn an_album_query_puts_the_album_in_album_not_title() {
    let query = CoverartQuery::Album { title: "Xerrox Vol. 2".to_string(), artist: "Alva Noto".to_string(), year: Some(2009) };
    assert_eq!(
        expand("https://x.example/c?album={album}&title={title}&year={year}&artist={artist}", &query),
        "https://x.example/c?album=Xerrox%20Vol.%202&title=&year=2009&artist=Alva%20Noto"
    );
}

#[test]
fn an_artist_query_fills_only_the_artist() {
    assert_eq!(
        expand("https://x.example/c?artist={artist}&album={album}&title={title}", &CoverartQuery::Artist("Alva Noto".to_string())),
        "https://x.example/c?artist=Alva%20Noto&album=&title="
    );
}

#[test]
fn a_url_query_fills_the_url_placeholder() {
    assert_eq!(
        expand("https://x.example/c?src={url}", &CoverartQuery::Url("https://radio.example/logo.png".to_string())),
        "https://x.example/c?src=https%3A%2F%2Fradio.example%2Flogo.png"
    );
}

#[test]
fn a_template_without_placeholders_is_returned_unchanged() {
    assert_eq!(expand("https://x.example/coverart", &song()), "https://x.example/coverart");
}

#[test]
fn replacing_covers_every_occurrence() {
    assert_eq!(replace_all("a{x}b{x}", "{x}", "-"), "a-b-");
    assert_eq!(replace_all("abc", "{x}", "-"), "abc");
}

// --- the worker -------------------------------------------------------

/// Whether a song's artwork may be replaced: none at all, or only a
/// station logo.
fn replaceable(cover: Option<&str>, source: Option<&str>) -> bool {
    cover.is_none() || source == Some("station_logo")
}

fn named() -> (Option<String>, Option<String>) {
    (Some("Uni Acronym".to_string()), Some("Alva Noto".to_string()))
}

#[test]
fn fallback_looks_up_a_song_with_no_artwork() {
    let (t, a) = named();
    assert!(should_look_up(&t, &a, replaceable(None, None), Trigger::Fallback));
}

#[test]
fn fallback_looks_up_a_song_showing_only_a_station_logo() {
    let (t, a) = named();
    assert!(should_look_up(&t, &a, replaceable(Some("https://radio.example/logo.png"), Some("station_logo")), Trigger::Fallback));
}

#[test]
fn fallback_skips_a_song_that_already_has_its_own_artwork() {
    let (t, a) = named();
    assert!(!should_look_up(&t, &a, replaceable(Some("https://player.example/cover.jpg"), None), Trigger::Fallback));
}

#[test]
fn fallback_skips_a_song_whose_artwork_another_lookup_already_found() {
    let (t, a) = named();
    assert!(!should_look_up(&t, &a, replaceable(Some("https://lastfm.example/cover.jpg"), Some("lastfm")), Trigger::Fallback));
}

#[test]
fn always_looks_up_regardless_of_existing_artwork() {
    let (t, a) = named();
    assert!(should_look_up(&t, &a, replaceable(Some("https://player.example/cover.jpg"), None), Trigger::Always));
}

#[test]
fn a_song_without_a_title_or_artist_is_never_looked_up() {
    let (_, a) = named();
    assert!(!should_look_up(&None, &a, true, Trigger::Always));
    let (t, _) = named();
    assert!(!should_look_up(&t, &None, true, Trigger::Always));
}

#[test]
fn one_lookup_per_key_is_in_flight() {
    let mut in_flight = InFlight::new();
    assert!(in_flight.start("k"));
    assert!(!in_flight.start("k"));
    assert!(in_flight.start("other"));
    in_flight.finish("k");
    assert!(in_flight.start("k"));
}

#[test]
fn canned_answers_carry_their_content_type() {
    let json = Canned::json(200, r#"{"images": []}"#);
    assert_eq!(json.status, 200);
    assert_eq!(json.content_type, "application/json");
    assert_eq!(json.body, br#"{"images": []}"#.to_vec());
    let png = Canned::bytes(404, "image/png", vec![1, 2]);
    assert_eq!(png.content_type, "image/png");
    assert_eq!(png.body, vec![1, 2]);
}

#[test]
fn artist_and_url_keys_agree_exactly_when_the_cleaned_values_do() {
    let artist = |s: &str| cache_key("n", &CoverartQuery::Artist(s.to_string()));
    let url = |s: &str| cache_key("n", &CoverartQuery::Url(s.to_string()));
    assert_eq!(artist("  The Band "), artist("the band"));
    assert_ne!(artist("the band"), artist("the bands"));
    assert_eq!(url(" http://x/A "), url("http://x/A"));
    assert_ne!(url("http://x/A"), url("http://x/a"));
}

#[test]
fn album_keys_agree_exactly_when_artist_title_and_year_do() {
    let album = |t: &str, a: &str, y: Option<i32>| {
        cache_key("n", &CoverartQuery::Album { title: t.to_string(), artist: a.to_string(), year: y })
    };
    assert_eq!(album(" Kid A ", "RADIOHEAD", Some(2000)), album("kid a", "radiohead", Some(2000)));
    assert_ne!(album("kid a", "radiohead", Some(2000)), album("kid a", "radiohead", Some(2001)));
    assert_ne!(album("kid a", "radiohead", Some(-5)), album("kid a", "radiohead", Some(5)));
    assert_ne!(album("kid a", "radiohead", None), album("kid a", "radiohead", Some(0)));
    assert_ne!(album("amnesiac", "radiohead", None), album("kid a", "radiohead", None));
}

#[test]
fn a_separator_inside_a_field_cannot_make_two_songs_collide() {
    let song = |t: &str, a: &str| cache_key("n", &CoverartQuery::Song { title: t.to_string(), artist: a.to_string() });
    assert_ne!(song("c", "a|b"), song("b|c", "a"));
    assert_ne!(song("x|x", "x"), song("x", "x|x"));
    assert_ne!(song("\\|c", "a"), song("c", "a\\"));
    assert_eq!(song("c", "A|B"), "coverart::external::n::song|a\\|b|c");
}
