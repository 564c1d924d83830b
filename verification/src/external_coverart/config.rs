//! Parsing of `services.external_coverart` from the configuration.

use vstd::prelude::*;
use crate::coverart::CoverartMethod;
use crate::json::{get_service_config, spec_service_config, JsonValue};
use crate::text::{str_eq, trim, trim_str, views};

verus! {

/// How long an error is cached, in seconds.
pub const ERROR_TTL_SECONDS: u64 = 3600;

pub const DEFAULT_TIMEOUT_SECONDS: u64 = 45;
pub const DEFAULT_CACHE_TTL_DAYS: u64 = 30;
pub const DEFAULT_NEGATIVE_CACHE_TTL_DAYS: u64 = 7;
pub const DEFAULT_MAX_CONCURRENT: u64 = 1;
/// An hour.
pub const MAX_TIMEOUT_SECONDS: u64 = 3600;
/// Ten years.
pub const MAX_CACHE_TTL_DAYS: u64 = 3650;
pub const MAX_MAX_CONCURRENT: u64 = 16;
pub const DEFAULT_MAX_IMAGE_BYTES: u64 = 8388608;
/// 64 MiB.
pub const MAX_MAX_IMAGE_BYTES: u64 = 67108864;

/// When an endpoint is worth asking.
#[derive(Debug, Clone, Copy, PartialEq, Eq, Structural)]
pub enum Trigger {
    /// Ask only when the song has no artwork, or only a placeholder.
    Fallback,
    /// Ask for every song.
    Always,
}

/// One configured endpoint.
#[derive(Debug, Clone)]
pub struct EndpointConfig {
    pub name: String,
    pub display_name: String,
    pub url: String,
    pub methods: Vec<CoverartMethod>,
    /// Request headers, in configuration order, each sent as it stands. A
    /// JSON object holds each member once, so headers read from the
    /// configuration have distinct names; where two entries share a name
    /// anyway, both are sent and [`EndpointConfig::header`] gives the first.
    pub headers: Vec<(String, String)>,
    pub timeout_seconds: u64,
    pub trigger: Trigger,
    pub cache_ttl_days: u64,
    pub negative_cache_ttl_days: u64,
    pub max_concurrent: usize,
    /// Store this endpoint's `url` images locally and serve them from the daemon.
    pub localize: bool,
    /// The largest image this endpoint may deliver, inline or by URL.
    pub max_image_bytes: u64,
}

/// An endpoint as plain values.
pub struct EndpointView {
    pub name: Seq<char>,
    pub display_name: Seq<char>,
    pub url: Seq<char>,
    pub methods: Seq<CoverartMethod>,
    pub headers: Seq<(Seq<char>, Seq<char>)>,
    pub timeout_seconds: u64,
    pub trigger: Trigger,
    pub cache_ttl_days: u64,
    pub negative_cache_ttl_days: u64,
    pub max_concurrent: usize,
    pub localize: bool,
    pub max_image_bytes: u64,
}

pub open spec fn header_views(h: Seq<(String, String)>) -> Seq<(Seq<char>, Seq<char>)> {
    h.map_values(|p: (String, String)| (p.0@, p.1@))
}

impl View for EndpointConfig {
    type V = EndpointView;

    open spec fn view(&self) -> EndpointView {
        EndpointView {
            name: self.name@,
            display_name: self.display_name@,
            url: self.url@,
            methods: self.methods@,
            headers: header_views(self.headers@),
            timeout_seconds: self.timeout_seconds,
            trigger: self.trigger,
            cache_ttl_days: self.cache_ttl_days,
            negative_cache_ttl_days: self.negative_cache_ttl_days,
            max_concurrent: self.max_concurrent,
            localize: self.localize,
            max_image_bytes: self.max_image_bytes,
        }
    }
}

impl EndpointConfig {
    /// The value of header `name`, if the endpoint sends one.
    pub fn header(&self, name: &str) -> (r: Option<&String>)
        ensures
            r matches Some(v) ==> exists|i: int| 0 <= i < self.headers@.len()
                && self.headers@[i].0@ == name@ && #[trigger] self.headers@[i].1 == *v,
            r is None ==> forall|i: int| 0 <= i < self.headers@.len() ==> #[trigger] self.headers@[i].0@ != name@,
    {
        let mut i: usize = 0;
        while i < self.headers.len()
            invariant
                i <= self.headers.len(),
                forall|k: int| 0 <= k < i ==> #[trigger] self.headers@[k].0@ != name@,
            decreases self.headers.len() - i,
        {
            if str_eq(self.headers[i].0.as_str(), name) {
                return Some(&self.headers[i].1);
            }
            i = i + 1;
        }
        None
    }
}

pub open spec fn spec_parse_method(name: Seq<char>) -> Option<CoverartMethod> {
    if name == "artist"@ {
        Some(CoverartMethod::Artist)
    } else if name == "song"@ {
        Some(CoverartMethod::Song)
    } else if name == "album"@ {
        Some(CoverartMethod::Album)
    } else if name == "url"@ {
        Some(CoverartMethod::Url)
    } else {
        None
    }
}

/// The method a configuration names.
pub fn parse_method(name: &str) -> (r: Option<CoverartMethod>)
    ensures
        r == spec_parse_method(name@),
{
    if str_eq(name, "artist") {
        Some(CoverartMethod::Artist)
    } else if str_eq(name, "song") {
        Some(CoverartMethod::Song)
    } else if str_eq(name, "album") {
        Some(CoverartMethod::Album)
    } else if str_eq(name, "url") {
        Some(CoverartMethod::Url)
    } else {
        None
    }
}

/// The known methods named by string entries of a list, in order.
pub open spec fn listed_methods(entries: Seq<JsonValue>) -> Seq<CoverartMethod>
    decreases entries.len(),
{
    if entries.len() == 0 {
        Seq::empty()
    } else {
        let rest = listed_methods(entries.drop_last());
        match entries.last().spec_as_str() {
            Some(name) => match spec_parse_method(name) {
                Some(m) => rest.push(m),
                None => rest,
            },
            None => rest,
        }
    }
}

/// The members of an object whose values are strings, in order.
pub open spec fn string_members(es: Seq<(String, JsonValue)>) -> Seq<(Seq<char>, Seq<char>)>
    decreases es.len(),
{
    if es.len() == 0 {
        Seq::empty()
    } else {
        let rest = string_members(es.drop_last());
        match es.last().1.spec_as_str() {
            Some(v) => rest.push((es.last().0@, v)),
            None => rest,
        }
    }
}

/// A numeric setting: the default when absent or not a positive integer,
/// the value when within the maximum, and the maximum above it.
pub open spec fn spec_number(v: JsonValue, key: Seq<char>, default: u64, max: u64) -> u64 {
    match v.spec_get(key) {
        None => default,
        Some(raw) => match raw.spec_as_u64() {
            Some(n) => if n == 0 {
                default
            } else if n <= max {
                n
            } else {
                max
            },
            None => default,
        },
    }
}

/// The endpoint a configuration entry describes, or `None` when it has no
/// name, an empty name, no url, or no known method.
pub open spec fn spec_parse_endpoint(v: JsonValue) -> Option<EndpointView> {
    match v.spec_get("name"@) {
        None => None,
        Some(n) => match n.spec_as_str() {
            None => None,
            Some(raw_name) => {
                let name = trim(raw_name);
                if name.len() == 0 {
                    None
                } else {
                    match v.spec_get("url"@) {
                        None => None,
                        Some(u) => match u.spec_as_str() {
                            None => None,
                            Some(url) => {
                                let display_name = match v.spec_get("display_name"@) {
                                    Some(d) => match d.spec_as_str() {
                                        Some(d) => d,
                                        None => name,
                                    },
                                    None => name,
                                };
                                let methods = match v.spec_get("methods"@) {
                                    Some(JsonValue::Array(entries)) => listed_methods(entries@),
                                    _ => seq![CoverartMethod::Song],
                                };
                                if methods.len() == 0 {
                                    None
                                } else {
                                    let headers = match v.spec_get("headers"@) {
                                        Some(JsonValue::Object(es)) => string_members(es@),
                                        _ => Seq::empty(),
                                    };
                                    let trigger = match v.spec_get("trigger"@) {
                                        Some(t) => if t.spec_as_str() == Some("always"@) {
                                            Trigger::Always
                                        } else {
                                            Trigger::Fallback
                                        },
                                        None => Trigger::Fallback,
                                    };
                                    let localize = match v.spec_get("localize"@) {
                                        Some(JsonValue::Bool(b)) => b,
                                        _ => false,
                                    };
                                    Some(EndpointView {
                                        name,
                                        display_name,
                                        url,
                                        methods,
                                        headers,
                                        timeout_seconds: spec_number(v, "timeout_seconds"@, DEFAULT_TIMEOUT_SECONDS, MAX_TIMEOUT_SECONDS),
                                        trigger,
                                        cache_ttl_days: spec_number(v, "cache_ttl_days"@, DEFAULT_CACHE_TTL_DAYS, MAX_CACHE_TTL_DAYS),
                                        negative_cache_ttl_days: spec_number(v, "negative_cache_ttl_days"@, DEFAULT_NEGATIVE_CACHE_TTL_DAYS, MAX_CACHE_TTL_DAYS),
                                        max_concurrent: spec_number(v, "max_concurrent"@, DEFAULT_MAX_CONCURRENT, MAX_MAX_CONCURRENT) as usize,
                                        localize,
                                        max_image_bytes: spec_number(v, "max_image_bytes"@, DEFAULT_MAX_IMAGE_BYTES, MAX_MAX_IMAGE_BYTES),
                                    })
                                }
                            },
                        },
                    }
                }
            },
        },
    }
}

/// Read a numeric setting.
fn number(value: &JsonValue, key: &str, default: u64, max: u64) -> (r: u64)
    ensures
        r == spec_number(*value, key@, default, max),
{
    match value.get(key) {
        None => default,
        Some(raw) => match raw.as_u64() {
            Some(n) => {
                if n == 0 {
                    default
                } else if n <= max {
                    n
                } else {
                    max
                }
            },
            None => default,
        },
    }
}

/// Read one endpoint entry; a malformed entry is `None`.
pub fn parse_endpoint(value: &JsonValue) -> (r: Option<EndpointConfig>)
    ensures
        r matches Some(e) ==> spec_parse_endpoint(*value) == Some(e@),
        r is None <==> spec_parse_endpoint(*value) is None,
{
    let raw_name = match value.get("name") {
        Some(n) => match n.as_str() {
            Some(s) => s,
            None => return None,
        },
        None => return None,
    };
    let name = trim_str(raw_name.as_str());
    if name.as_str().unicode_len() == 0 {
        return None;
    }
    let url = match value.get("url") {
        Some(u) => match u.as_str() {
            Some(s) => s.clone(),
            None => return None,
        },
        None => return None,
    };
    let display_name = match value.get("display_name") {
        Some(d) => match d.as_str() {
            Some(s) => s.clone(),
            None => name.clone(),
        },
        None => name.clone(),
    };
    let methods: Vec<CoverartMethod> = match value.get("methods") {
        Some(JsonValue::Array(entries)) => {
            let mut methods: Vec<CoverartMethod> = Vec::new();
            let mut i: usize = 0;
            while i < entries.len()
                invariant
                    i <= entries.len(),
                    methods@ == listed_methods(entries@.take(i as int)),
                decreases entries.len() - i,
            {
                proof {
                    assert(entries@.take(i + 1).drop_last() == entries@.take(i as int));
                }
                match entries[i].as_str() {
                    Some(s) => match parse_method(s.as_str()) {
                        Some(m) => methods.push(m),
                        None => {},
                    },
                    None => {},
                }
                i = i + 1;
            }
            assert(entries@.take(entries@.len() as int) == entries@);
            methods
        },
        _ => {
            let v = vec![CoverartMethod::Song];
            assert(v@ == seq![CoverartMethod::Song]);
            v
        },
    };
    if methods.len() == 0 {
        return None;
    }
    let headers: Vec<(String, String)> = match value.get("headers") {
        Some(JsonValue::Object(es)) => {
            let mut headers: Vec<(String, String)> = Vec::new();
            let mut i: usize = 0;
            while i < es.len()
                invariant
                    i <= es.len(),
                    header_views(headers@) == string_members(es@.take(i as int)),
                decreases es.len() - i,
            {
                proof {
                    assert(es@.take(i + 1).drop_last() == es@.take(i as int));
                }
                match es[i].1.as_str() {
                    Some(v) => {
                        headers.push((es[i].0.clone(), v.clone()));
                        assert(header_views(headers@) == header_views(headers@.drop_last()).push((es@[i as int].0@, v@)));
                    },
                    None => {},
                }
                i = i + 1;
            }
            assert(es@.take(es@.len() as int) == es@);
            headers
        },
        _ => Vec::new(),
    };
    let trigger = match value.get("trigger") {
        Some(t) => match t.as_str() {
            Some(s) => if str_eq(s.as_str(), "always") {
                Trigger::Always
            } else {
                Trigger::Fallback
            },
            None => Trigger::Fallback,
        },
        None => Trigger::Fallback,
    };
    let timeout_seconds = number(value, "timeout_seconds", DEFAULT_TIMEOUT_SECONDS, MAX_TIMEOUT_SECONDS);
    let cache_ttl_days = number(value, "cache_ttl_days", DEFAULT_CACHE_TTL_DAYS, MAX_CACHE_TTL_DAYS);
    let negative_cache_ttl_days = number(value, "negative_cache_ttl_days", DEFAULT_NEGATIVE_CACHE_TTL_DAYS, MAX_CACHE_TTL_DAYS);
    let max_concurrent = number(value, "max_concurrent", DEFAULT_MAX_CONCURRENT, MAX_MAX_CONCURRENT) as usize;
    let max_image_bytes = number(value, "max_image_bytes", DEFAULT_MAX_IMAGE_BYTES, MAX_MAX_IMAGE_BYTES);
    let localize = match value.get("localize") {
        Some(JsonValue::Bool(b)) => *b,
        _ => false,
    };
    proof {
        let sp = spec_parse_endpoint(*value);
        assert(sp is Some);
        assert(sp->0.name == name@);
        assert(sp->0.display_name == display_name@);
        assert(sp->0.url == url@);
        assert(sp->0.methods == methods@);
        assert(sp->0.headers == header_views(headers@));
        assert(sp->0.trigger == trigger);
        assert(sp->0.localize == localize);
        assert(sp->0.max_concurrent == max_concurrent);
    }
    let r = EndpointConfig {
        name,
        display_name,
        url,
        methods,
        headers,
        timeout_seconds,
        trigger,
        cache_ttl_days,
        negative_cache_ttl_days,
        max_concurrent,
        localize,
        max_image_bytes,
    };
    Some(r)
}

/// The endpoints of a list of entries: each well-formed entry whose name
/// was not already taken by an earlier accepted entry, in order.
pub open spec fn accepted_endpoints(entries: Seq<JsonValue>) -> Seq<EndpointView>
    decreases entries.len(),
{
    if entries.len() == 0 {
        Seq::empty()
    } else {
        let rest = accepted_endpoints(entries.drop_last());
        match spec_parse_endpoint(entries.last()) {
            Some(e) => if exists|k: int| 0 <= k < rest.len() && #[trigger] rest[k].name == e.name {
                rest
            } else {
                rest.push(e)
            },
            None => rest,
        }
    }
}

/// Every endpoint the configuration names: none unless the service is
/// present, enabled and lists providers.
pub open spec fn spec_parse_endpoints(config: JsonValue) -> Seq<EndpointView> {
    match spec_service_config(config, "external_coverart"@) {
        None => Seq::empty(),
        Some(service) => {
            let enabled = match service.spec_get("enable"@) {
                Some(JsonValue::Bool(b)) => b,
                _ => false,
            };
            if !enabled {
                Seq::empty()
            } else {
                match service.spec_get("providers"@) {
                    Some(JsonValue::Array(entries)) => accepted_endpoints(entries@),
                    _ => Seq::empty(),
                }
            }
        },
    }
}

pub open spec fn endpoint_views(v: Seq<EndpointConfig>) -> Seq<EndpointView> {
    v.map_values(|e: EndpointConfig| e@)
}

/// Read every configured endpoint. A malformed entry, or one reusing an
/// accepted endpoint's name, is skipped rather than failing the service.
pub fn parse_endpoints(config: &JsonValue) -> (r: Vec<EndpointConfig>)
    ensures
        endpoint_views(r@) == spec_parse_endpoints(*config),
{
    let service = match get_service_config(config, "external_coverart") {
        Some(s) => s,
        None => return Vec::new(),
    };
    let enabled = match service.get("enable") {
        Some(JsonValue::Bool(b)) => *b,
        _ => false,
    };
    if !enabled {
        return Vec::new();
    }
    let entries = match service.get("providers") {
        Some(JsonValue::Array(entries)) => entries,
        _ => return Vec::new(),
    };
    let mut endpoints: Vec<EndpointConfig> = Vec::new();
    let mut i: usize = 0;
    while i < entries.len()
        invariant
            i <= entries.len(),
            endpoint_views(endpoints@) == accepted_endpoints(entries@.take(i as int)),
        decreases entries.len() - i,
    {
        proof {
            assert(entries@.take(i + 1).drop_last() == entries@.take(i as int));
        }
        match parse_endpoint(&entries[i]) {
            Some(endpoint) => {
                let mut seen = false;
                let mut k: usize = 0;
                while k < endpoints.len()
                    invariant
                        k <= endpoints.len(),
                        seen == exists|m: int| 0 <= m < k && #[trigger] endpoints@[m].name@ == endpoint.name@,
                    decreases endpoints.len() - k,
                {
                    if str_eq(endpoints[k].name.as_str(), endpoint.name.as_str()) {
                        seen = true;
                    }
                    k = k + 1;
                }
                proof {
                    let rest = endpoint_views(endpoints@);
                    assert(seen == exists|m: int| 0 <= m < rest.len() && #[trigger] rest[m].name == endpoint@.name) by {
                        if seen {
                            let m = choose|m: int| 0 <= m < endpoints@.len() && #[trigger] endpoints@[m].name@ == endpoint.name@;
                            assert(rest[m].name == endpoint@.name);
                        }
                        if exists|m: int| 0 <= m < rest.len() && #[trigger] rest[m].name == endpoint@.name {
                            let m = choose|m: int| 0 <= m < rest.len() && #[trigger] rest[m].name == endpoint@.name;
                            assert(endpoints@[m].name@ == endpoint.name@);
                        }
                    }
                }
                if !seen {
                    endpoints.push(endpoint);
                    assert(endpoint_views(endpoints@) == endpoint_views(endpoints@.drop_last()).push(endpoints@.last()@));
                }
            },
            None => {},
        }
        i = i + 1;
    }
    assert(entries@.take(entries@.len() as int) == entries@);
    endpoints
}

} // verus!
