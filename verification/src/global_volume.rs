//! Which volume control the configuration asks for.
//!
//! The controls themselves (ALSA, or a stand-in) are made by the caller
//! from the plan decided here.

use vstd::prelude::*;
use crate::json::{get_service_config, spec_service_config, JsonNumber, JsonValue};
use crate::text::{concat2, dec, owned, u64_to_string};

verus! {

/// The volume control the configuration asks for.
#[derive(Debug, Clone)]
pub enum VolumePlan {
    /// No `volume` service: a working stand-in, `no_config`, named
    /// `Default Volume Control`, at 50%.
    NoConfig,
    /// Explicitly disabled: an unavailable stand-in, `disabled`.
    Disabled,
    /// An ALSA control; an empty device or control name is to be detected.
    Alsa {
        device: String,
        control_name: String,
        display_name: String,
        retry_count: u64,
        retry_delay_seconds: u64,
    },
    /// A stand-in control; its initial level is the configured number, 50%
    /// when none is given.
    Dummy { internal_name: String, display_name: String, initial_percent: Option<JsonNumber> },
    /// An unknown control type: an unavailable stand-in, `unknown_fallback`.
    Unknown(String),
}

/// A text setting, with its default.
pub open spec fn text_setting(v: JsonValue, key: Seq<char>, default: Seq<char>) -> Seq<char> {
    match v.spec_get(key) {
        Some(x) => match x.spec_as_str() {
            Some(s) => s,
            None => default,
        },
        None => default,
    }
}

/// A count setting, with its default.
pub open spec fn count_setting(v: JsonValue, key: Seq<char>, default: u64) -> u64 {
    match v.spec_get(key) {
        Some(x) => match x.spec_as_u64() {
            Some(n) => n,
            None => default,
        },
        None => default,
    }
}

fn text_setting_of(v: &JsonValue, key: &str, default: &str) -> (r: String)
    ensures
        r@ == text_setting(*v, key@, default@),
{
    match v.get(key) {
        Some(x) => match x.as_str() {
            Some(s) => s.clone(),
            None => owned(default),
        },
        None => owned(default),
    }
}

fn count_setting_of(v: &JsonValue, key: &str, default: u64) -> (r: u64)
    ensures
        r == count_setting(*v, key@, default),
{
    match v.get(key) {
        Some(x) => match x.as_u64() {
            Some(n) => n,
            None => default,
        },
        None => default,
    }
}

/// The plan as plain values: a tag, then the texts and numbers it carries.
pub open spec fn plan_view(p: VolumePlan) -> (int, Seq<char>, Seq<char>, Seq<char>, u64, u64, Option<JsonNumber>) {
    match p {
        VolumePlan::NoConfig => (0, Seq::empty(), Seq::empty(), Seq::empty(), 0, 0, None),
        VolumePlan::Disabled => (1, Seq::empty(), Seq::empty(), Seq::empty(), 0, 0, None),
        VolumePlan::Alsa { device, control_name, display_name, retry_count, retry_delay_seconds } =>
            (2, device@, control_name@, display_name@, retry_count, retry_delay_seconds, None),
        VolumePlan::Dummy { internal_name, display_name, initial_percent } =>
            (3, internal_name@, display_name@, Seq::empty(), 0, 0, initial_percent),
        VolumePlan::Unknown(t) => (4, t@, Seq::empty(), Seq::empty(), 0, 0, None),
    }
}

/// The plan a configuration gives: enabled unless `enable` is `false`, of
/// `type` `dummy` unless another is named.
pub open spec fn spec_volume_plan(config: JsonValue) -> (int, Seq<char>, Seq<char>, Seq<char>, u64, u64, Option<JsonNumber>) {
    match spec_service_config(config, "volume"@) {
        None => (0, Seq::empty(), Seq::empty(), Seq::empty(), 0, 0, None),
        Some(v) => {
            let enabled = match v.spec_get("enable"@) {
                Some(x) => match x.spec_as_bool() {
                    Some(b) => b,
                    None => true,
                },
                None => true,
            };
            if !enabled {
                (1, Seq::empty(), Seq::empty(), Seq::empty(), 0, 0, None)
            } else {
                let kind = text_setting(v, "type"@, "dummy"@);
                if kind == "alsa"@ {
                    (2, text_setting(v, "device"@, Seq::empty()), text_setting(v, "control_name"@, Seq::empty()),
                        text_setting(v, "display_name"@, "Master Volume"@),
                        count_setting(v, "auto_detect_retry_count"@, 2), count_setting(v, "auto_detect_retry_delay_seconds"@, 10), None)
                } else if kind == "dummy"@ {
                    (3, text_setting(v, "internal_name"@, "dummy"@), text_setting(v, "display_name"@, "Dummy Volume Control"@),
                        Seq::empty(), 0, 0, match v.spec_get("initial_percent"@) {
                        Some(JsonValue::Number(n)) => Some(n),
                        _ => None,
                    })
                } else {
                    (4, kind, Seq::empty(), Seq::empty(), 0, 0, None)
                }
            }
        },
    }
}

/// The volume control a configuration asks for.
pub fn volume_plan(config: &JsonValue) -> (r: VolumePlan)
    ensures
        plan_view(r) == spec_volume_plan(*config),
{
    let v = match get_service_config(config, "volume") {
        Some(v) => v,
        None => return VolumePlan::NoConfig,
    };
    let enabled = match v.get("enable") {
        Some(x) => match x.as_bool() {
            Some(b) => b,
            None => true,
        },
        None => true,
    };
    if !enabled {
        return VolumePlan::Disabled;
    }
    let kind = text_setting_of(v, "type", "dummy");
    proof {
        reveal_strlit("");
    }
    if crate::text::str_eq(kind.as_str(), "alsa") {
        VolumePlan::Alsa {
            device: text_setting_of(v, "device", ""),
            control_name: text_setting_of(v, "control_name", ""),
            display_name: text_setting_of(v, "display_name", "Master Volume"),
            retry_count: count_setting_of(v, "auto_detect_retry_count", 2),
            retry_delay_seconds: count_setting_of(v, "auto_detect_retry_delay_seconds", 10),
        }
    } else if crate::text::str_eq(kind.as_str(), "dummy") {
        let initial_percent = match v.get("initial_percent") {
            Some(JsonValue::Number(n)) => Some(n.duplicate()),
            _ => None,
        };
        VolumePlan::Dummy {
            internal_name: text_setting_of(v, "internal_name", "dummy"),
            display_name: text_setting_of(v, "display_name", "Dummy Volume Control"),
            initial_percent,
        }
    } else {
        VolumePlan::Unknown(kind)
    }
}

/// The ALSA device and control to use, or `None` when detection was needed
/// for both and failed, which disables volume control.
///
/// `detected` is what the system information said about the sound card
/// (its hardware index and volume control, when it names them), or `None`
/// when it could not be read after every retry. A configured value is kept;
/// a missing one comes from the sound card, else `default` and `Master`.
pub open spec fn spec_alsa_settings(device: Seq<char>, control_name: Seq<char>, detected: Option<Option<(Option<u64>, Option<Seq<char>>)>>) -> Option<(Seq<char>, Seq<char>)> {
    if device.len() > 0 && control_name.len() > 0 {
        Some((device, control_name))
    } else {
        match detected {
            Some(card) => {
                let d = if device.len() > 0 {
                    device
                } else {
                    match card {
                        Some((Some(index), _)) => "hw:"@ + dec(index as nat),
                        _ => "default"@,
                    }
                };
                let c = if control_name.len() > 0 {
                    control_name
                } else {
                    match card {
                        Some((_, Some(vc))) => vc,
                        _ => "Master"@,
                    }
                };
                Some((d, c))
            },
            None => if device.len() == 0 && control_name.len() == 0 {
                None
            } else {
                Some((if device.len() > 0 { device } else { "default"@ }, if control_name.len() > 0 { control_name } else { "Master"@ }))
            },
        }
    }
}

pub open spec fn detected_view(d: Option<Option<(Option<u64>, Option<String>)>>) -> Option<Option<(Option<u64>, Option<Seq<char>>)>> {
    match d {
        None => None,
        Some(None) => Some(None),
        Some(Some((i, c))) => Some(Some((i, match c {
            Some(s) => Some(s@),
            None => None,
        }))),
    }
}

/// The ALSA device and control to use.
pub fn alsa_settings(device: &str, control_name: &str, detected: Option<Option<(Option<u64>, Option<String>)>>) -> (r: Option<(String, String)>)
    ensures
        match r {
            Some((d, c)) => spec_alsa_settings(device@, control_name@, detected_view(detected)) == Some((d@, c@)),
            None => spec_alsa_settings(device@, control_name@, detected_view(detected)) is None,
        },
{
    let has_device = device.unicode_len() > 0;
    let has_control = control_name.unicode_len() > 0;
    if has_device && has_control {
        return Some((owned(device), owned(control_name)));
    }
    match detected {
        Some(card) => {
            let d = if has_device {
                owned(device)
            } else {
                match &card {
                    Some((Some(index), _)) => {
                        let n = u64_to_string(*index);
                        concat2("hw:", n.as_str())
                    },
                    _ => owned("default"),
                }
            };
            let c = if has_control {
                owned(control_name)
            } else {
                match card {
                    Some((_, Some(vc))) => vc,
                    _ => owned("Master"),
                }
            };
            Some((d, c))
        },
        None => if !has_device && !has_control {
            None
        } else {
            Some((
                if has_device { owned(device) } else { owned("default") },
                if has_control { owned(control_name) } else { owned("Master") },
            ))
        },
    }
}

} // verus!
