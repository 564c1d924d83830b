//! FanArt.tv: artist thumbnails and banners by MusicBrainz id.
//!
//! The service's settings, the request URL, reading its answer, and naming
//! the files its images are cached under are decided here; the requests and
//! the writes are the caller's.

use vstd::prelude::*;
use crate::coverart::{CoverartMethod, CoverartProvider};
use crate::json::{get_service_config, read_json, spec_service_config, tree_of_text, JsonValue};
use crate::text::{chars_of, dec, owned, push_str, spec_to_lowercase, string_of_range, to_lowercase, u64_to_string, views};

verus! {

/// The provider name images are cached under.
pub open spec fn provider_name() -> Seq<char> {
    "fanarttv"@
}

/// The API key used when none is configured.
pub fn default_fanarttv_api_key() -> (r: String)
    ensures
        r@ == "749a8fca4f2d3b0462b287820ad6ab06"@,
{
    owned("749a8fca4f2d3b0462b287820ad6ab06")
}

/// FanArt.tv settings.
#[derive(Debug, Clone)]
pub struct FanarttvSettings {
    pub enabled: bool,
    pub api_key: String,
    /// Minimum interval between requests, in milliseconds.
    pub rate_limit_ms: u64,
}

/// The settings a configuration gives: enabled unless `enable` is `false`,
/// the configured API key unless it is missing or empty, and a rate limit
/// of 500 ms unless one is configured.
pub open spec fn spec_fanarttv_settings(config: JsonValue) -> (bool, Seq<char>, u64) {
    match spec_service_config(config, "fanarttv"@) {
        None => (true, "749a8fca4f2d3b0462b287820ad6ab06"@, 500),
        Some(service) => {
            let enabled = match service.spec_get("enable"@) {
                Some(v) => match v.spec_as_bool() {
                    Some(b) => b,
                    None => true,
                },
                None => true,
            };
            let key = match service.spec_get("api_key"@) {
                Some(v) => match v.spec_as_str() {
                    Some(k) => if k.len() == 0 {
                        "749a8fca4f2d3b0462b287820ad6ab06"@
                    } else {
                        k
                    },
                    None => "749a8fca4f2d3b0462b287820ad6ab06"@,
                },
                None => "749a8fca4f2d3b0462b287820ad6ab06"@,
            };
            let rate = match service.spec_get("rate_limit_ms"@) {
                Some(v) => match v.spec_as_u64() {
                    Some(n) => n,
                    None => 500,
                },
                None => 500,
            };
            (enabled, key, rate)
        },
    }
}

impl FanarttvSettings {
    /// The settings `services.fanarttv` describes.
    pub fn from_config(config: &JsonValue) -> (r: FanarttvSettings)
        ensures
            (r.enabled, r.api_key@, r.rate_limit_ms) == spec_fanarttv_settings(*config),
    {
        let service = match get_service_config(config, "fanarttv") {
            Some(s) => s,
            None => return FanarttvSettings { enabled: true, api_key: default_fanarttv_api_key(), rate_limit_ms: 500 },
        };
        let enabled = match service.get("enable") {
            Some(v) => match v.as_bool() {
                Some(b) => b,
                None => true,
            },
            None => true,
        };
        let api_key = match service.get("api_key") {
            Some(v) => match v.as_str() {
                Some(k) => if k.as_str().unicode_len() == 0 {
                    default_fanarttv_api_key()
                } else {
                    k.clone()
                },
                None => default_fanarttv_api_key(),
            },
            None => default_fanarttv_api_key(),
        };
        let rate_limit_ms = match service.get("rate_limit_ms") {
            Some(v) => match v.as_u64() {
                Some(n) => n,
                None => 500,
            },
            None => 500,
        };
        FanarttvSettings { enabled, api_key, rate_limit_ms }
    }

    /// Whether lookups are enabled.
    pub fn is_enabled(&self) -> (r: bool)
        ensures
            r == self.enabled,
    {
        self.enabled
    }

    /// The configured API key, unless it is empty.
    pub fn get_api_key(&self) -> (r: Option<String>)
        ensures
            r is None <==> self.api_key@.len() == 0,
            r matches Some(k) ==> k@ == self.api_key@,
    {
        if self.api_key.as_str().unicode_len() == 0 {
            None
        } else {
            Some(self.api_key.clone())
        }
    }
}

/// The request for an artist's images.
pub fn artist_request_url(artist_mbid: &str, api_key: &str) -> (r: String)
    ensures
        r@ == "http://webservice.fanart.tv/v3/music/"@ + artist_mbid@ + "?api_key="@ + api_key@,
{
    let mut url = owned("http://webservice.fanart.tv/v3/music/");
    push_str(&mut url, artist_mbid);
    push_str(&mut url, "?api_key=");
    push_str(&mut url, api_key);
    url
}

/// The `url` strings of the entries of a list, in order, stopping once
/// `max` are collected.
pub open spec fn listed_urls(entries: Seq<JsonValue>, max: nat) -> Seq<Seq<char>>
    decreases entries.len(),
{
    if entries.len() == 0 {
        Seq::empty()
    } else {
        let rest = listed_urls(entries.drop_last(), max);
        if rest.len() >= max {
            rest
        } else {
            match entries.last().spec_get("url"@) {
                Some(u) => match u.spec_as_str() {
                    Some(s) => rest.push(s),
                    None => rest,
                },
                None => rest,
            }
        }
    }
}

proof fn lemma_listed_urls_bounded(entries: Seq<JsonValue>, max: nat)
    requires
        max > 0,
    ensures
        listed_urls(entries, max).len() <= max,
    decreases entries.len(),
{
    if entries.len() > 0 {
        lemma_listed_urls_bounded(entries.drop_last(), max);
    }
}

/// What an answer offers under `section`: its URLs (at most `max`), or
/// `None` when the answer has no such list.
pub open spec fn section_urls(data: JsonValue, section: Seq<char>, max: nat) -> Option<Seq<Seq<char>>> {
    match data.spec_get(section) {
        Some(v) => match v.spec_as_array() {
            Some(entries) => Some(listed_urls(entries, max)),
            None => None,
        },
        None => None,
    }
}

fn urls_in_section(data: &JsonValue, section: &str, max: usize) -> (r: Option<Vec<String>>)
    requires
        max > 0,
    ensures
        r is None <==> section_urls(*data, section@, max as nat) is None,
        r matches Some(v) ==> section_urls(*data, section@, max as nat) == Some(views(v@)),
{
    let entries = match data.get(section) {
        Some(v) => match v.as_array() {
            Some(e) => e,
            None => return None,
        },
        None => return None,
    };
    let mut urls: Vec<String> = Vec::new();
    let mut i: usize = 0;
    while i < entries.len()
        invariant
            max > 0,
            i <= entries.len(),
            views(urls@) == listed_urls(entries@.take(i as int), max as nat),
        decreases entries.len() - i,
    {
        assert(entries@.take(i + 1).drop_last() =~= entries@.take(i as int));
        proof {
            lemma_listed_urls_bounded(entries@.take(i as int), max as nat);
        }
        if urls.len() < max {
            match entries[i].get("url") {
                Some(u) => match u.as_str() {
                    Some(s) => {
                        let ghost before = views(urls@);
                        urls.push(s.clone());
                        assert(views(urls@) =~= before.push(s@));
                    },
                    None => {},
                },
                None => {},
            }
        }
        i = i + 1;
    }
    assert(entries@.take(entries@.len() as int) =~= entries@);
    Some(urls)
}

/// What a lookup learned: the URLs found, and whether the artist should be
/// remembered as having nothing (no such list, or an empty one).
pub open spec fn spec_answer(data: Option<JsonValue>, section: Seq<char>, max: nat) -> (Seq<Seq<char>>, bool) {
    match data {
        None => (Seq::empty(), true),
        Some(d) => match section_urls(d, section, max) {
            None => (Seq::empty(), true),
            Some(urls) => (urls, urls.len() == 0),
        },
    }
}

/// How many thumbnails a lookup keeps: `max_images` (10 unless given), and
/// at least the first one.
pub open spec fn thumbnail_cap(max_images: Option<usize>) -> nat {
    match max_images {
        Some(m) => if m == 0 {
            1
        } else {
            m as nat
        },
        None => 10,
    }
}

/// Read an answer for its `artistthumb` list, keeping the first
/// [`thumbnail_cap`] URLs. `data` is `None` when the request or its parse
/// failed.
pub fn thumbnails_from_answer(data: Option<&JsonValue>, max_images: Option<usize>) -> (r: (Vec<String>, bool))
    ensures
        (views(r.0@), r.1) == spec_answer(match data {
            Some(d) => Some(*d),
            None => None,
        }, "artistthumb"@, thumbnail_cap(max_images)),
{
    let cap: usize = match max_images {
        Some(m) => if m == 0 {
            1
        } else {
            m
        },
        None => 10,
    };
    let d = match data {
        Some(d) => d,
        None => return (Vec::new(), true),
    };
    match urls_in_section(d, "artistthumb", cap) {
        Some(urls) => {
            let empty = urls.len() == 0;
            (urls, empty)
        },
        None => (Vec::new(), true),
    }
}

/// Read an answer for its `musicbanner` list, every URL of it. `data` is
/// `None` when the request or its parse failed.
pub fn banners_from_answer(data: Option<&JsonValue>) -> (r: (Vec<String>, bool))
    ensures
        (views(r.0@), r.1) == spec_answer(match data {
            Some(d) => Some(*d),
            None => None,
        }, "musicbanner"@, usize::MAX as nat),
{
    let d = match data {
        Some(d) => d,
        None => return (Vec::new(), true),
    };
    match urls_in_section(d, "musicbanner", usize::MAX) {
        Some(urls) => {
            let empty = urls.len() == 0;
            (urls, empty)
        },
        None => (Vec::new(), true),
    }
}

/// The answer a response text stands for: its tree when there was a text
/// and it reads, and none otherwise.
pub open spec fn text_answer(text: Option<&str>) -> Option<JsonValue> {
    match text {
        Some(t) => tree_of_text(t@),
        None => None,
    }
}

fn answer_of_text(text: Option<&str>) -> (r: Option<JsonValue>)
    ensures
        r == text_answer(text),
{
    match text {
        Some(t) => read_json(t),
        None => None,
    }
}

/// The artist thumbnails in a response text (`None` when the request
/// failed), as [`thumbnails_from_answer`] reads them from its tree.
pub fn thumbnails_from_text(text: Option<&str>, max_images: Option<usize>) -> (r: (Vec<String>, bool))
    ensures
        (views(r.0@), r.1) == spec_answer(text_answer(text), "artistthumb"@, thumbnail_cap(max_images)),
{
    let answer = answer_of_text(text);
    thumbnails_from_answer(answer.as_ref(), max_images)
}

/// The music banners in a response text (`None` when the request failed),
/// as [`banners_from_answer`] reads them from its tree.
pub fn banners_from_text(text: Option<&str>) -> (r: (Vec<String>, bool))
    ensures
        (views(r.0@), r.1) == spec_answer(text_answer(text), "musicbanner"@, usize::MAX as nat),
{
    let answer = answer_of_text(text);
    banners_from_answer(answer.as_ref())
}

/// The extension of the last `.`-separated part of a URL, without a query
/// and lower-cased, when at most four bytes long; `jpg` otherwise.
pub open spec fn spec_extension(url: Seq<char>) -> Seq<char> {
    let last = url.subrange(last_dot(url) + 1, url.len() as int);
    let clean = last.subrange(0, first_question(last));
    if vstd::utf8::encode_utf8(clean).len() <= 4 {
        spec_to_lowercase(clean)
    } else {
        "jpg"@
    }
}

/// The index of the last `.`, or -1.
pub open spec fn last_dot(s: Seq<char>) -> int
    decreases s.len(),
{
    if s.len() == 0 {
        -1
    } else if s.last() == '.' {
        s.len() - 1
    } else {
        last_dot(s.drop_last())
    }
}

/// The index of the first `?`, or the length.
pub open spec fn first_question(s: Seq<char>) -> int
    decreases s.len(),
{
    if s.len() == 0 {
        0
    } else if s[0] == '?' {
        0
    } else {
        1 + first_question(s.drop_first())
    }
}

proof fn lemma_last_dot(s: Seq<char>)
    ensures
        -1 <= last_dot(s) < s.len(),
        last_dot(s) >= 0 ==> s[last_dot(s)] == '.',
        forall|k: int| last_dot(s) < k < s.len() ==> s[k] != '.',
    decreases s.len(),
{
    if s.len() > 0 {
        lemma_last_dot(s.drop_last());
        assert forall|k: int| last_dot(s) < k < s.len() implies s[k] != '.' by {
            if k < s.len() - 1 {
                assert(s.drop_last()[k] == s[k]);
            }
        }
    }
}

proof fn lemma_first_question(s: Seq<char>)
    ensures
        0 <= first_question(s) <= s.len(),
        first_question(s) < s.len() ==> s[first_question(s)] == '?',
        forall|k: int| 0 <= k < first_question(s) ==> s[k] != '?',
    decreases s.len(),
{
    if s.len() > 0 && s[0] != '?' {
        lemma_first_question(s.drop_first());
        assert forall|k: int| 0 <= k < first_question(s) implies s[k] != '?' by {
            if k > 0 {
                assert(s.drop_first()[k - 1] == s[k]);
            }
        }
    }
}

/// Extract a file extension from a URL, `jpg` by default.
pub fn extract_extension_from_url(url: &str) -> (r: String)
    ensures
        r@ == spec_extension(url@),
{
    let cs = chars_of(url);
    proof {
        lemma_last_dot(cs@);
    }
    let mut start: usize = cs.len();
    while start > 0 && cs[start - 1] != '.'
        invariant
            start <= cs.len(),
            cs@ == url@,
            -1 <= last_dot(cs@) < cs@.len(),
            forall|k: int| start <= k < cs.len() ==> cs@[k] != '.',
            last_dot(cs@) < start,
            last_dot(cs@) >= 0 ==> cs@[last_dot(cs@)] == '.',
            forall|k: int| last_dot(cs@) < k < cs@.len() ==> cs@[k] != '.',
        decreases start,
    {
        start = start - 1;
    }
    assert(start == last_dot(cs@) + 1);
    let ghost last = cs@.subrange(start as int, cs@.len() as int);
    proof {
        lemma_first_question(last);
    }
    let mut end: usize = start;
    while end < cs.len() && cs[end] != '?'
        invariant
            start <= end <= cs.len(),
            last == cs@.subrange(start as int, cs@.len() as int),
            forall|k: int| start <= k < end ==> cs@[k] != '?',
            0 <= first_question(last) <= last.len(),
            first_question(last) < last.len() ==> last[first_question(last)] == '?',
            forall|k: int| 0 <= k < first_question(last) ==> last[k] != '?',
        decreases cs.len() - end,
    {
        end = end + 1;
    }
    proof {
        if end < cs.len() {
            assert(last[end - start] == '?');
        }
        if first_question(last) < end - start {
            assert(cs@[start + first_question(last)] == '?');
        }
        assert(first_question(last) == end - start);
        assert(last.subrange(0, first_question(last)) =~= cs@.subrange(start as int, end as int));
    }
    let clean = string_of_range(&cs, start, end);
    let bytes = clean.as_str().as_bytes_vec();
    if bytes.len() <= 4 {
        to_lowercase(clean.as_str())
    } else {
        owned("jpg")
    }
}

/// `artists/{basename}/{kind}`: where a provider's files of one kind live.
pub fn image_base_path(artist_basename: &str, kind: &str) -> (r: String)
    ensures
        r@ == "artists/"@ + artist_basename@ + "/"@ + kind@,
{
    let mut p = owned("artists/");
    push_str(&mut p, artist_basename);
    push_str(&mut p, "/");
    push_str(&mut p, kind);
    p
}

/// `artists/{basename}/{kind}.fanarttv.{index}.{extension}`: the cache path of
/// the `index`-th image of a kind.
pub fn image_cache_path(artist_basename: &str, kind: &str, index: usize, url: &str) -> (r: String)
    ensures
        r@ == "artists/"@ + artist_basename@ + "/"@ + kind@ + "."@ + provider_name() + "."@
            + dec(index as nat) + "."@ + spec_extension(url@),
{
    let mut p = image_base_path(artist_basename, kind);
    push_str(&mut p, ".");
    push_str(&mut p, "fanarttv");
    push_str(&mut p, ".");
    let n = u64_to_string(index as u64);
    push_str(&mut p, n.as_str());
    push_str(&mut p, ".");
    let ext = extract_extension_from_url(url);
    push_str(&mut p, ext.as_str());
    p
}

/// Artist images through FanArt.tv, as an artist updater.
pub struct FanarttvUpdater;

impl FanarttvUpdater {
    pub fn new() -> (r: FanarttvUpdater) {
        FanarttvUpdater
    }
}

impl CoverartProvider for FanarttvUpdater {
    fn name(&self) -> (r: &str)
        ensures
            r@ == "fanarttv"@,
    {
        "fanarttv"
    }

    fn display_name(&self) -> (r: &str)
        ensures
            r@ == "FanArt.tv"@,
    {
        "FanArt.tv"
    }

    fn supported_methods(&self) -> (r: Vec<CoverartMethod>)
        ensures
            r@ == seq![CoverartMethod::Artist],
    {
        let r = vec![CoverartMethod::Artist];
        assert(r@ =~= seq![CoverartMethod::Artist]);
        r
    }

    /// FanArt.tv is keyed by MusicBrainz id, which an artist name alone
    /// does not give: nothing.
    fn get_artist_coverart_impl(&self, _artist: &str) -> (r: Vec<String>)
        ensures
            r@.len() == 0,
    {
        Vec::new()
    }
}

/// Cover art through FanArt.tv.
pub struct FanarttvCoverartProvider;

impl FanarttvCoverartProvider {
    pub fn new() -> (r: FanarttvCoverartProvider) {
        FanarttvCoverartProvider
    }

    /// The MusicBrainz id of an artist: this provider has no lookup for it.
    pub fn get_artist_mbid(&self, _artist_name: &str) -> (r: Option<String>)
        ensures
            r is None,
    {
        None
    }
}

impl CoverartProvider for FanarttvCoverartProvider {
    fn name(&self) -> (r: &str)
        ensures
            r@ == "fanarttv_coverart"@,
    {
        "fanarttv_coverart"
    }

    fn display_name(&self) -> (r: &str)
        ensures
            r@ == "FanArt.tv Cover Art"@,
    {
        "FanArt.tv Cover Art"
    }

    fn supported_methods(&self) -> (r: Vec<CoverartMethod>)
        ensures
            r@ == seq![CoverartMethod::Artist],
    {
        let r = vec![CoverartMethod::Artist];
        assert(r@ =~= seq![CoverartMethod::Artist]);
        r
    }

    /// Without a MusicBrainz id there is nothing to ask for.
    fn get_artist_coverart_impl(&self, artist: &str) -> (r: Vec<String>)
        ensures
            r@.len() == 0,
    {
        let _mbid = self.get_artist_mbid(artist);
        Vec::new()
    }
}

} // verus!
