//! The JSON contract an external cover art endpoint speaks, and how each
//! kind of answer is cached.

use vstd::prelude::*;
use crate::json::{JsonValue, member};
use crate::text::{trim, trim_str, views};
use super::config::{EndpointConfig, ERROR_TTL_SECONDS};

verus! {

/// What an endpoint said, as three distinct classes.
#[derive(Debug, Clone, PartialEq)]
pub enum Lookup {
    /// Artwork, in the order the service ranked it.
    Found(Vec<String>),
    /// The service looked and there is none.
    NoArtwork,
    /// The service could not be reached, refused, or did not answer in the
    /// contract's shape.
    Error,
}

/// The URLs of a lookup: those of `Found`, none otherwise.
pub open spec fn spec_urls(l: Lookup) -> Seq<Seq<char>> {
    match l {
        Lookup::Found(urls) => views(urls@),
        _ => Seq::empty(),
    }
}

impl Lookup {
    /// The URLs to show. An error yields none.
    pub fn urls(&self) -> (r: Vec<String>)
        ensures
            views(r@) == spec_urls(*self),
    {
        match self {
            Lookup::Found(urls) => crate::text::clone_strings(urls),
            _ => Vec::new(),
        }
    }

    /// Whether two lookups are the same answer.
    pub fn same_as(&self, other: &Lookup) -> (r: bool)
        ensures
            r == (lookup_view(*self) == lookup_view(*other)),
    {
        match (self, other) {
            (Lookup::Found(a), Lookup::Found(b)) => crate::text::same_strings(a, b),
            (Lookup::NoArtwork, Lookup::NoArtwork) => true,
            (Lookup::Error, Lookup::Error) => true,
            _ => false,
        }
    }
}

/// A lookup as plain values: `Some(urls)` for `Found`, and a tag otherwise.
pub open spec fn lookup_view(l: Lookup) -> (int, Seq<Seq<char>>) {
    match l {
        Lookup::Found(urls) => (0, views(urls@)),
        Lookup::NoArtwork => (1, Seq::empty()),
        Lookup::Error => (2, Seq::empty()),
    }
}

/// One usable image from a response, before the daemon decides how to
/// serve it. `data` is still base64.
#[derive(Debug, Clone, PartialEq)]
pub struct ParsedImage {
    pub url: Option<String>,
    pub data: Option<String>,
}

/// A classified response, before localisation.
#[derive(Debug, Clone, PartialEq)]
pub enum Parsed {
    /// Entries the endpoint offered, in the order it ranked them.
    Images(Vec<ParsedImage>),
    /// The service looked and there is none.
    NoArtwork,
    /// The service could not be reached, refused, or did not answer in the
    /// contract's shape.
    Error,
}

pub open spec fn opt_view(o: Option<String>) -> Option<Seq<char>> {
    match o {
        Some(s) => Some(s@),
        None => None,
    }
}

pub open spec fn image_view(i: ParsedImage) -> (Option<Seq<char>>, Option<Seq<char>>) {
    (opt_view(i.url), opt_view(i.data))
}

pub open spec fn images_view(s: Seq<ParsedImage>) -> Seq<(Option<Seq<char>>, Option<Seq<char>>)> {
    s.map_values(|i: ParsedImage| image_view(i))
}

/// The URLs among parsed images, in order.
pub open spec fn parsed_urls(s: Seq<ParsedImage>) -> Seq<Seq<char>>
    decreases s.len(),
{
    if s.len() == 0 {
        Seq::empty()
    } else {
        let rest = parsed_urls(s.drop_last());
        match s.last().url {
            Some(u) => rest.push(u@),
            None => rest,
        }
    }
}

/// The lookup a parsed answer gives when every entry is passed through as a URL.
pub open spec fn spec_into_lookup(p: Parsed) -> (int, Seq<Seq<char>>) {
    match p {
        Parsed::Images(images) => if parsed_urls(images@).len() == 0 {
            (1, Seq::empty())
        } else {
            (0, parsed_urls(images@))
        },
        Parsed::NoArtwork => (1, Seq::empty()),
        Parsed::Error => (2, Seq::empty()),
    }
}

impl Parsed {
    /// Treat every entry as a URL to pass straight through; inline bytes
    /// have no URL, so they are dropped.
    pub fn into_lookup(self) -> (r: Lookup)
        ensures
            lookup_view(r) == spec_into_lookup(self),
    {
        match self {
            Parsed::Images(images) => {
                let mut urls: Vec<String> = Vec::new();
                let mut i: usize = 0;
                while i < images.len()
                    invariant
                        i <= images.len(),
                        views(urls@) == parsed_urls(images@.take(i as int)),
                    decreases images.len() - i,
                {
                    proof {
                        assert(images@.take(i + 1).drop_last() == images@.take(i as int));
                    }
                    match &images[i].url {
                        Some(u) => {
                            urls.push(u.clone());
                            assert(views(urls@) == views(urls@.drop_last()).push(u@));
                        },
                        None => {},
                    }
                    i = i + 1;
                }
                assert(images@.take(images@.len() as int) == images@);
                if urls.len() == 0 {
                    Lookup::NoArtwork
                } else {
                    Lookup::Found(urls)
                }
            },
            Parsed::NoArtwork => Lookup::NoArtwork,
            Parsed::Error => Lookup::Error,
        }
    }
}

/// An optional string field of a wire image: absent or null is `None`, a
/// string is its text, anything else does not fit the contract.
pub open spec fn wire_field(v: JsonValue, key: Seq<char>) -> Option<Option<Seq<char>>> {
    match v.spec_get(key) {
        None => Some(None),
        Some(JsonValue::Null) => Some(None),
        Some(JsonValue::String(s)) => Some(Some(s@)),
        Some(_) => None,
    }
}

/// A field's text, trimmed; empty text counts as absent.
pub open spec fn cleaned(o: Option<Seq<char>>) -> Option<Seq<char>> {
    match o {
        Some(s) => if trim(s).len() == 0 {
            None
        } else {
            Some(trim(s))
        },
        None => None,
    }
}

/// The usable images of a list of wire images, or `None` when an entry does
/// not fit the contract (not an object, or a field that is not a string).
pub open spec fn wire_images(entries: Seq<JsonValue>) -> Option<Seq<(Option<Seq<char>>, Option<Seq<char>>)>>
    decreases entries.len(),
{
    if entries.len() == 0 {
        Some(Seq::empty())
    } else {
        match wire_images(entries.drop_last()) {
            None => None,
            Some(rest) => {
                let e = entries.last();
                if !(e is Object) {
                    None
                } else {
                    match (wire_field(e, "url"@), wire_field(e, "data"@)) {
                        (Some(url), Some(data)) => {
                            let (u, d) = (cleaned(url), cleaned(data));
                            if u is Some || d is Some {
                                Some(rest.push((u, d)))
                            } else {
                                Some(rest)
                            }
                        },
                        _ => None,
                    }
                }
            },
        }
    }
}

/// The images a response body offers, or `None` when the body does not
/// speak the contract: an object whose `images` member is a list of
/// objects with optional string `url` and `data`.
pub open spec fn spec_response_images(body: JsonValue) -> Option<Seq<(Option<Seq<char>>, Option<Seq<char>>)>> {
    if !(body is Object) {
        None
    } else {
        match body.spec_get("images"@) {
            Some(JsonValue::Array(entries)) => wire_images(entries@),
            _ => None,
        }
    }
}

/// Read an optional string field of a wire image.
fn read_wire_field(v: &JsonValue, key: &str) -> (r: Result<Option<String>, ()>)
    ensures
        r matches Ok(o) ==> wire_field(*v, key@) == Some(opt_view(o)),
        r is Err <==> wire_field(*v, key@) is None,
{
    match v.get(key) {
        None => Ok(None),
        Some(JsonValue::Null) => Ok(None),
        Some(JsonValue::String(s)) => Ok(Some(s.clone())),
        Some(_) => Err(()),
    }
}

fn clean_field(o: Option<String>) -> (r: Option<String>)
    ensures
        opt_view(r) == cleaned(opt_view(o)),
{
    match o {
        Some(s) => {
            let t = trim_str(s.as_str());
            if t.as_str().unicode_len() == 0 {
                None
            } else {
                Some(t)
            }
        },
        None => None,
    }
}

/// Classify a 2xx response body. A body that does not speak the contract
/// is `Error`; one that does but offers nothing usable is `NoArtwork`.
pub fn parse_response(body: &JsonValue) -> (r: Parsed)
    ensures
        spec_response_images(*body) is None ==> r is Error,
        spec_response_images(*body) matches Some(imgs) ==> (if imgs.len() == 0 {
            r is NoArtwork
        } else {
            r matches Parsed::Images(v) && images_view(v@) == imgs
        }),
{
    if !body.is_object() {
        return Parsed::Error;
    }
    let entries = match body.get("images") {
        Some(JsonValue::Array(entries)) => entries,
        _ => return Parsed::Error,
    };
    let mut images: Vec<ParsedImage> = Vec::new();
    let mut i: usize = 0;
    while i < entries.len()
        invariant
            i <= entries.len(),
            wire_images(entries@.take(i as int)) == Some(images_view(images@)),
            spec_response_images(*body) == wire_images(entries@),
        decreases entries.len() - i,
    {
        proof {
            assert(entries@.take(i + 1).drop_last() == entries@.take(i as int));
            assert(entries@.take(i + 1).last() == entries@[i as int]);
        }
        let e = &entries[i];
        if !e.is_object() {
            proof {
                lemma_wire_images_prefix_error(entries@, (i + 1) as int);
            }
            return Parsed::Error;
        }
        let url = match read_wire_field(e, "url") {
            Ok(u) => u,
            Err(()) => {
                proof {
                    lemma_wire_images_prefix_error(entries@, (i + 1) as int);
                }
                return Parsed::Error;
            },
        };
        let data = match read_wire_field(e, "data") {
            Ok(d) => d,
            Err(()) => {
                proof {
                    lemma_wire_images_prefix_error(entries@, (i + 1) as int);
                }
                return Parsed::Error;
            },
        };
        let url = clean_field(url);
        let data = clean_field(data);
        if url.is_some() || data.is_some() {
            let ghost before = images@;
            images.push(ParsedImage { url, data });
            assert(images_view(images@) == images_view(before).push(image_view(images@.last())));
        }
        i = i + 1;
    }
    assert(entries@.take(entries@.len() as int) == entries@);
    if images.len() == 0 {
        Parsed::NoArtwork
    } else {
        Parsed::Images(images)
    }
}

/// A prefix that does not fit the contract spoils the whole list.
pub proof fn lemma_wire_images_prefix_error(entries: Seq<JsonValue>, m: int)
    requires
        0 <= m <= entries.len(),
        wire_images(entries.take(m)) is None,
    ensures
        wire_images(entries) is None,
    decreases entries.len() - m,
{
    if m < entries.len() {
        assert(entries.take(m + 1).drop_last() == entries.take(m));
        lemma_wire_images_prefix_error(entries, m + 1);
    } else {
        assert(entries.take(m) == entries);
    }
}

/// Seconds in a day.
pub const DAY_SECONDS: u64 = 86400;

/// How long a lookup is kept, in seconds: artwork for the endpoint's cache
/// lifetime, no artwork for its negative one, an error briefly.
pub open spec fn spec_ttl_seconds(lookup: Lookup, endpoint: EndpointConfig) -> int {
    match lookup {
        Lookup::Found(_) => endpoint.cache_ttl_days * DAY_SECONDS,
        Lookup::NoArtwork => endpoint.negative_cache_ttl_days * DAY_SECONDS,
        Lookup::Error => ERROR_TTL_SECONDS as int,
    }
}

/// How long an answer is worth keeping: an answer with artwork for the
/// endpoint's cache lifetime, an answer without for its negative cache
/// lifetime, and an error for an hour.
pub fn ttl_seconds(lookup: &Lookup, endpoint: &EndpointConfig) -> (r: u64)
    requires
        endpoint.cache_ttl_days * DAY_SECONDS <= u64::MAX,
        endpoint.negative_cache_ttl_days * DAY_SECONDS <= u64::MAX,
    ensures
        r == spec_ttl_seconds(*lookup, *endpoint),
{
    match lookup {
        Lookup::Found(_) => endpoint.cache_ttl_days * DAY_SECONDS,
        Lookup::NoArtwork => endpoint.negative_cache_ttl_days * DAY_SECONDS,
        Lookup::Error => ERROR_TTL_SECONDS,
    }
}

} // verus!
