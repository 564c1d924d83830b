use audiocontrol::global_volume::{alsa_settings, volume_plan, VolumePlan};
use audiocontrol::json::{get_service_config, JsonNumber, JsonValue};

fn to_json(v: &serde_json::Value) -> JsonValue {
    match v {
        serde_json::Value::Null => JsonValue::Null,
        serde_json::Value::Bool(b) => JsonValue::Bool(*b),
        serde_json::Value::Number(n) => JsonValue::Number(match (n.as_u64(), n.as_i64()) {
            (Some(u), _) => JsonNumber::PosInt(u),
            (None, Some(i)) => JsonNumber::NegInt(i),
            _ => JsonNumber::Float(n.to_string()),
        }),
        serde_json::Value::String(s) => JsonValue::String(s.clone()),
        serde_json::Value::Array(a) => JsonValue::Array(a.iter().map(to_json).collect()),
        serde_json::Value::Object(o) => JsonValue::Object(o.iter().map(|(k, v)| (k.clone(), to_json(v))).collect()),
    }
}

fn parse(text: &str) -> JsonValue {
    to_json(&serde_json::from_str(text).unwrap())
}

#[test]
fn test_config_parsing() {
    let dummy_config =
        parse(r#"{"services": {"volume": {"enable": true, "type": "dummy", "display_name": "Test Volume"}}}"#);
    let volume_config = get_service_config(&dummy_config, "volume");
    assert!(volume_config.is_some());
    let enabled = volume_config.unwrap().get("enable").and_then(|v| v.as_bool()).unwrap_or(false);
    assert!(enabled);
}

#[test]
fn test_disabled_config() {
    let disabled_config = parse(r#"{"services": {"volume": {"enable": false, "type": "dummy"}}}"#);
    let volume_config = get_service_config(&disabled_config, "volume");
    assert!(volume_config.is_some());
    let enabled = volume_config.unwrap().get("enable").and_then(|v| v.as_bool()).unwrap_or(false);
    assert!(!enabled);
}

#[test]
fn no_volume_section_plans_the_working_stand_in() {
    assert!(matches!(volume_plan(&parse("{}")), VolumePlan::NoConfig));
}

#[test]
fn a_disabled_volume_section_plans_the_unavailable_stand_in() {
    assert!(matches!(volume_plan(&parse(r#"{"services": {"volume": {"enable": false}}}"#)), VolumePlan::Disabled));
}

#[test]
fn a_dummy_section_carries_its_names_and_level() {
    match volume_plan(&parse(
        r#"{"services": {"volume": {"type": "dummy", "display_name": "Test Volume", "initial_percent": 30}}}"#,
    )) {
        VolumePlan::Dummy { internal_name, display_name, initial_percent } => {
            assert_eq!(internal_name, "dummy");
            assert_eq!(display_name, "Test Volume");
            assert!(matches!(initial_percent, Some(JsonNumber::PosInt(30))));
        }
        _ => panic!("a dummy control"),
    }
    match volume_plan(&parse(r#"{"services": {"volume": {}}}"#)) {
        VolumePlan::Dummy { display_name, initial_percent, .. } => {
            assert_eq!(display_name, "Dummy Volume Control");
            assert!(initial_percent.is_none());
        }
        _ => panic!("dummy is the default type"),
    }
}

#[test]
fn an_alsa_section_carries_its_device_and_retries() {
    match volume_plan(&parse(r#"{"services": {"volume": {"type": "alsa", "device": "hw:1", "auto_detect_retry_count": 5}}}"#)) {
        VolumePlan::Alsa { device, control_name, display_name, retry_count, retry_delay_seconds } => {
            assert_eq!(device, "hw:1");
            assert_eq!(control_name, "");
            assert_eq!(display_name, "Master Volume");
            assert_eq!(retry_count, 5);
            assert_eq!(retry_delay_seconds, 10);
        }
        _ => panic!("an alsa control"),
    }
}

#[test]
fn an_unknown_type_is_named() {
    match volume_plan(&parse(r#"{"services": {"volume": {"type": "pulse"}}}"#)) {
        VolumePlan::Unknown(t) => assert_eq!(t, "pulse"),
        _ => panic!("an unknown control type"),
    }
}

#[test]
fn configured_alsa_settings_are_kept() {
    assert_eq!(alsa_settings("hw:0", "PCM", None), Some(("hw:0".to_string(), "PCM".to_string())));
}

#[test]
fn missing_alsa_settings_come_from_the_sound_card() {
    let card = Some(Some((Some(2), Some("Digital".to_string()))));
    assert_eq!(alsa_settings("", "", card), Some(("hw:2".to_string(), "Digital".to_string())));
    assert_eq!(alsa_settings("", "", Some(None)), Some(("default".to_string(), "Master".to_string())));
    assert_eq!(alsa_settings("hw:1", "", Some(Some((Some(2), None)))), Some(("hw:1".to_string(), "Master".to_string())));
}

#[test]
fn failed_detection_of_both_disables_volume_control() {
    assert_eq!(alsa_settings("", "", None), None);
    assert_eq!(alsa_settings("hw:1", "", None), Some(("hw:1".to_string(), "Master".to_string())));
}
