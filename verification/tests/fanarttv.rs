use std::sync::Arc;

use audiocontrol::coverart::{provider_answer, CoverartManager, CoverartMethod, CoverartProvider, CoverartQuery};
use audiocontrol::fanarttv::{
    artist_request_url, banners_from_answer, default_fanarttv_api_key, extract_extension_from_url, image_base_path,
    image_cache_path, thumbnails_from_answer, FanarttvCoverartProvider, FanarttvSettings, FanarttvUpdater,
};
use audiocontrol::json::{JsonNumber, JsonValue};

fn to_json(v: &serde_json::Value) -> JsonValue {
    match v {
        serde_json::Value::Null => JsonValue::Null,
        serde_json::Value::Bool(b) => JsonValue::Bool(*b),
        serde_json::Value::Number(n) => JsonValue::Number(match (n.as_u64(), n.as_i64()) {
            (Some(u), _) => JsonNumber::PosInt(u),
            (None, Some(i)) => JsonNumber::NegInt(i),
            _ => JsonNumber::Float(n.to_string()),
        }),
        serde_json::Value::String(s) => JsonValue::String(s.clone()),
        serde_json::Value::Array(a) => JsonValue::Array(a.iter().map(to_json).collect()),
        serde_json::Value::Object(o) => JsonValue::Object(o.iter().map(|(k, v)| (k.clone(), to_json(v))).collect()),
    }
}

fn parse(text: &str) -> JsonValue {
    to_json(&serde_json::from_str(text).unwrap())
}

#[test]
fn test_fanarttv_updater_coverart_provider_name() {
    let provider = FanarttvUpdater::new();
    assert_eq!(provider.name(), "fanarttv");
}

#[test]
fn test_fanarttv_updater_coverart_provider_display_name() {
    let provider = FanarttvUpdater::new();
    assert_eq!(provider.display_name(), "FanArt.tv");
}

#[test]
fn test_fanarttv_updater_supported_methods() {
    let provider = FanarttvUpdater::new();
    let methods = provider.supported_methods();
    assert_eq!(methods.len(), 1);
    assert!(methods.contains(&CoverartMethod::Artist));
    assert!(!methods.contains(&CoverartMethod::Song));
    assert!(!methods.contains(&CoverartMethod::Album));
    assert!(!methods.contains(&CoverartMethod::Url));
}

#[test]
fn test_fanarttv_updater_get_artist_coverart_impl() {
    let provider = FanarttvUpdater::new();
    let result = provider.get_artist_coverart_impl("Test Artist");
    assert!(result.is_empty());
}

#[test]
fn test_fanarttv_coverart_provider_name() {
    let provider = FanarttvCoverartProvider::new();
    assert_eq!(provider.name(), "fanarttv_coverart");
}

#[test]
fn test_fanarttv_coverart_provider_display_name() {
    let provider = FanarttvCoverartProvider::new();
    assert_eq!(provider.display_name(), "FanArt.tv Cover Art");
}

#[test]
fn test_fanarttv_coverart_provider_supported_methods() {
    let provider = FanarttvCoverartProvider::new();
    let methods = provider.supported_methods();
    assert_eq!(methods.len(), 1);
    assert!(methods.contains(&CoverartMethod::Artist));
    assert!(!methods.contains(&CoverartMethod::Song));
    assert!(!methods.contains(&CoverartMethod::Album));
    assert!(!methods.contains(&CoverartMethod::Url));
}

#[test]
fn test_fanarttv_coverart_provider_get_artist_coverart_impl() {
    let provider = FanarttvCoverartProvider::new();
    let result = provider.get_artist_coverart_impl("Test Artist");
    assert!(result.is_empty());
}

#[test]
fn test_fanarttv_coverart_provider_get_artist_mbid() {
    let provider = FanarttvCoverartProvider::new();
    let result = provider.get_artist_mbid("Test Artist");
    assert!(result.is_none());
}

#[test]
fn test_extract_extension_from_url() {
    assert_eq!(extract_extension_from_url("http://example.com/image.jpg"), "jpg");
    assert_eq!(extract_extension_from_url("http://example.com/image.png"), "png");
    assert_eq!(extract_extension_from_url("http://example.com/image.jpeg"), "jpeg");
    assert_eq!(extract_extension_from_url("http://example.com/image.gif"), "gif");
    assert_eq!(extract_extension_from_url("http://example.com/image.JPG"), "jpg");
    assert_eq!(extract_extension_from_url("http://example.com/image.png?size=large"), "png");
    assert_eq!(extract_extension_from_url("http://example.com/image.jpeg?quality=high&format=web"), "jpeg");
    assert_eq!(extract_extension_from_url("http://example.com/image"), "jpg");
    assert_eq!(extract_extension_from_url("http://example.com/image.verylongextension"), "jpg");
}

#[test]
fn test_coverart_manager_integration() {
    let mut manager = CoverartManager::new();
    manager.register_provider(Arc::new(Box::new(FanarttvUpdater::new()) as Box<dyn CoverartProvider>));
    manager.register_provider(Arc::new(Box::new(FanarttvCoverartProvider::new()) as Box<dyn CoverartProvider>));

    let query = CoverartQuery::Artist("Test Artist".to_string());
    let results: Vec<Vec<String>> = manager
        .get_providers()
        .iter()
        .map(|p| provider_answer(&***p, &query, false))
        .filter(|urls| !urls.is_empty())
        .collect();
    assert_eq!(manager.provider_count(), 2);
    assert_eq!(results.len(), 0);
}

#[test]
fn settings_default_when_nothing_is_configured() {
    let s = FanarttvSettings::from_config(&parse("{}"));
    assert!(s.is_enabled());
    assert_eq!(s.api_key, default_fanarttv_api_key());
    assert_eq!(s.rate_limit_ms, 500);
    assert_eq!(s.get_api_key(), Some(default_fanarttv_api_key()));
}

#[test]
fn settings_read_the_service_section() {
    let s = FanarttvSettings::from_config(&parse(
        r#"{"services": {"fanarttv": {"enable": false, "api_key": "k", "rate_limit_ms": 100}}}"#,
    ));
    assert!(!s.is_enabled());
    assert_eq!(s.api_key, "k");
    assert_eq!(s.rate_limit_ms, 100);
    let empty_key = FanarttvSettings::from_config(&parse(r#"{"services": {"fanarttv": {"api_key": ""}}}"#));
    assert_eq!(empty_key.api_key, default_fanarttv_api_key());
}

#[test]
fn the_request_names_the_artist_and_the_key() {
    assert_eq!(artist_request_url("mbid-1", "k"), "http://webservice.fanart.tv/v3/music/mbid-1?api_key=k");
}

#[test]
fn thumbnails_are_capped_and_an_empty_answer_says_so() {
    let answer = parse(
        r#"{"artistthumb": [{"url": "a"}, {"url": "b"}, {"url": "c"}], "musicbanner": [{"url": "x"}]}"#,
    );
    assert_eq!(thumbnails_from_answer(Some(&answer), Some(2)), (vec!["a".to_string(), "b".to_string()], false));
    assert_eq!(thumbnails_from_answer(Some(&answer), Some(0)), (vec!["a".to_string()], false));
    assert_eq!(thumbnails_from_answer(Some(&answer), None).0.len(), 3);
    assert_eq!(thumbnails_from_answer(None, None), (Vec::new(), true));
    assert_eq!(thumbnails_from_answer(Some(&parse("{}")), None), (Vec::new(), true));
    assert_eq!(banners_from_answer(Some(&answer)), (vec!["x".to_string()], false));
}

#[test]
fn cached_images_are_named_by_kind_index_and_extension() {
    assert_eq!(image_base_path("the_beatles", "thumb"), "artists/the_beatles/thumb");
    assert_eq!(
        image_cache_path("the_beatles", "thumb", 2, "http://x/y.PNG?s=1"),
        "artists/the_beatles/thumb.fanarttv.2.png"
    );
}

#[test]
fn an_extension_is_limited_by_its_bytes() {
    assert_eq!(extract_extension_from_url("http://example.com/a.gif"), "gif");
    // three characters, six bytes of UTF-8: too long, so the default
    assert_eq!(extract_extension_from_url("http://example.com/a.ééé"), "jpg");
}
