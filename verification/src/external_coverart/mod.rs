//! Cover art from HTTP endpoints named in the configuration.
//!
//! An endpoint speaks a fixed JSON contract; it is assumed slow, so it is
//! never on a request path unless a caller opts in. Everything an endpoint
//! needs from the outside world -- its answer cache, its request slots, the
//! HTTP request and the image store -- is an [`EndpointBackend`]; what to
//! ask, how to read the answer and how long to keep it are decided here.

pub mod config;
pub mod protocol;
pub mod template;
pub mod localize;
pub mod worker;
pub mod stub_server;

use vstd::prelude::*;
use crate::coverart::{spec_lookup_call, CallView, CoverartMethod, CoverartProvider, CoverartQuery};
use crate::json::JsonValue;
use crate::text::{chars_of, concat2, i32_to_string, lemma_dec_shape, owned, push_char, push_str, spec_to_lowercase, to_lowercase, trim, trim_str, dec, dec_i32, is_ascii_digit, views};
use config::{header_views, EndpointConfig, EndpointView};
use localize::{resolve_with, resolved_images, ImageSource};
use protocol::{parse_response, spec_response_images, spec_ttl_seconds, spec_urls, ttl_seconds, Lookup, DAY_SECONDS};
use template::{expand, spec_expand};

verus! {

/// A query value as it enters a cache key: trimmed and lower-cased.
pub open spec fn cleaned_value(v: Seq<char>) -> Seq<char> {
    spec_to_lowercase(trim(v))
}

/// The part of a cache key that names the query.
pub open spec fn key_body(q: CoverartQuery) -> Seq<char> {
    match q {
        CoverartQuery::Artist(artist) => "artist|"@ + cleaned_value(artist@),
        CoverartQuery::Song { title, artist } => "song|"@ + escaped(cleaned_value(artist@)) + "|"@
            + escaped(cleaned_value(title@)),
        CoverartQuery::Album { title, artist, year } => "album|"@ + escaped(cleaned_value(artist@)) + "|"@
            + escaped(cleaned_value(title@)) + "|"@ + year_part(year),
        CoverartQuery::Url(url) => "url|"@ + trim(url@),
    }
}

/// The cache key for one lookup against one endpoint.
pub open spec fn spec_cache_key(endpoint_name: Seq<char>, q: CoverartQuery) -> Seq<char> {
    "coverart::external::"@ + endpoint_name + "::"@ + key_body(q)
}

/// How one character of a field is written in a key: the separator `|`
/// and the escape `\\` itself are escaped, everything else stands as is.
pub open spec fn escaped_char(c: char) -> Seq<char> {
    if c == '\\' || c == '|' {
        seq!['\\', c]
    } else {
        seq![c]
    }
}

/// A field as written in a key, so that no field can hold a bare separator.
pub open spec fn escaped(s: Seq<char>) -> Seq<char>
    decreases s.len(),
{
    if s.len() == 0 {
        Seq::empty()
    } else {
        escaped(s.drop_last()) + escaped_char(s.last())
    }
}

proof fn lemma_escaped_concat(a: Seq<char>, b: Seq<char>)
    ensures
        escaped(a + b) == escaped(a) + escaped(b),
    decreases b.len(),
{
    if b.len() == 0 {
        assert(a + b =~= a);
        assert(escaped(a) + escaped(b) =~= escaped(a));
    } else {
        lemma_escaped_concat(a, b.drop_last());
        assert((a + b).drop_last() =~= a + b.drop_last());
        assert((a + b).last() == b.last());
        assert(escaped(a) + escaped(b) =~= escaped(a) + escaped(b.drop_last()) + escaped_char(b.last()));
    }
}

proof fn lemma_escaped_front(s: Seq<char>)
    requires
        s.len() > 0,
    ensures
        escaped(s) == escaped_char(s[0]) + escaped(s.drop_first()),
{
    lemma_escaped_concat(seq![s[0]], s.drop_first());
    assert(seq![s[0]] + s.drop_first() =~= s);
    let one = seq![s[0]];
    assert(one.drop_last() =~= Seq::<char>::empty());
    assert(one.last() == s[0]);
    assert(escaped(one.drop_last()) == Seq::<char>::empty());
    assert(escaped(one) == escaped(one.drop_last()) + escaped_char(one.last()));
    assert(Seq::<char>::empty() + escaped_char(s[0]) =~= escaped_char(s[0]));
}

/// An escaped field followed by a separator can be read back: what comes
/// before the first bare `|` is the field, and what follows is the rest.
proof fn lemma_escaped_split(x: Seq<char>, r1: Seq<char>, y: Seq<char>, r2: Seq<char>)
    requires
        r1.len() > 0 && r1[0] == '|',
        r2.len() > 0 && r2[0] == '|',
        escaped(x) + r1 == escaped(y) + r2,
    ensures
        x == y,
        r1 == r2,
    decreases x.len() + y.len(),
{
    let l = escaped(x) + r1;
    if x.len() == 0 && y.len() == 0 {
        assert(l =~= r1);
        assert(escaped(y) + r2 =~= r2);
    } else if x.len() == 0 {
        lemma_escaped_front(y);
        assert(l =~= r1);
        assert((escaped(y) + r2)[0] == escaped_char(y[0])[0]);
    } else if y.len() == 0 {
        lemma_escaped_front(x);
        assert(escaped(y) + r2 =~= r2);
        assert(l[0] == escaped_char(x[0])[0]);
    } else {
        lemma_escaped_front(x);
        lemma_escaped_front(y);
        let ex = escaped_char(x[0]);
        let ey = escaped_char(y[0]);
        let tx = escaped(x.drop_first()) + r1;
        let ty = escaped(y.drop_first()) + r2;
        assert(l =~= ex + tx);
        assert(escaped(y) + r2 =~= ey + ty);
        assert(l[0] == ex[0]);
        assert(l[0] == ey[0]);
        if ex.len() == 2 {
            assert(l[1] == ex[1]);
            assert(l[1] == ey[1]);
        }
        assert(ex == ey);
        assert(tx =~= l.subrange(ex.len() as int, l.len() as int));
        assert(ty =~= l.subrange(ey.len() as int, l.len() as int));
        lemma_escaped_split(x.drop_first(), r1, y.drop_first(), r2);
        assert(x =~= seq![x[0]] + x.drop_first());
        assert(y =~= seq![y[0]] + y.drop_first());
    }
}

/// A field as written in a key.
fn escape_field(s: &str) -> (r: String)
    ensures
        r@ == escaped(s@),
{
    let cs = chars_of(s);
    let mut out = String::new();
    let mut i: usize = 0;
    while i < cs.len()
        invariant
            i <= cs.len(),
            cs@ == s@,
            out@ == escaped(cs@.take(i as int)),
        decreases cs.len() - i,
    {
        assert(cs@.take(i + 1).drop_last() =~= cs@.take(i as int));
        let c = cs[i];
        if c == '\\' || c == '|' {
            push_char(&mut out, '\\');
        }
        push_char(&mut out, c);
        assert(out@ =~= escaped(cs@.take(i as int)) + escaped_char(c));
        i = i + 1;
    }
    assert(cs@.take(cs@.len() as int) =~= cs@);
    out
}

fn clean(value: &str) -> (r: String)
    ensures
        r@ == cleaned_value(value@),
{
    let t = trim_str(value);
    to_lowercase(t.as_str())
}

/// The cache key for one lookup against one endpoint: values trimmed and
/// lower-cased, fields separated by `|`, which (like the escape `\\`) is
/// escaped inside a field, so no two lookups share a key.
pub fn cache_key(endpoint_name: &str, query: &CoverartQuery) -> (r: String)
    ensures
        r@ == spec_cache_key(endpoint_name@, *query),
{
    let body = match query {
        CoverartQuery::Artist(artist) => {
            let a = clean(artist.as_str());
            concat2("artist|", a.as_str())
        },
        CoverartQuery::Song { title, artist } => {
            let mut b = owned("song|");
            let a = escape_field(clean(artist.as_str()).as_str());
            push_str(&mut b, a.as_str());
            push_str(&mut b, "|");
            let t = escape_field(clean(title.as_str()).as_str());
            push_str(&mut b, t.as_str());
            b
        },
        CoverartQuery::Album { title, artist, year } => {
            let mut b = owned("album|");
            let a = escape_field(clean(artist.as_str()).as_str());
            push_str(&mut b, a.as_str());
            push_str(&mut b, "|");
            let t = escape_field(clean(title.as_str()).as_str());
            push_str(&mut b, t.as_str());
            push_str(&mut b, "|");
            match year {
                Some(y) => {
                    let ys = i32_to_string(*y);
                    push_str(&mut b, ys.as_str());
                },
                None => {
                    assert(b@ + Seq::<char>::empty() =~= b@);
                },
            }
            b
        },
        CoverartQuery::Url(url) => {
            let u = trim_str(url.as_str());
            concat2("url|", u.as_str())
        },
    };
    let mut key = owned("coverart::external::");
    push_str(&mut key, endpoint_name);
    push_str(&mut key, "::");
    push_str(&mut key, body.as_str());
    key
}

/// A key names its endpoint: one lookup against two endpoints shares a
/// cache entry only when they are the same endpoint.
pub proof fn law_cache_key_names_its_endpoint(n1: Seq<char>, n2: Seq<char>, q: CoverartQuery)
    ensures
        spec_cache_key(n1, q) == spec_cache_key(n2, q) <==> n1 == n2,
        spec_cache_key(n1, q).take(("coverart::external::"@ + n1 + "::"@).len() as int) == "coverart::external::"@ + n1 + "::"@,
{
    let k1 = spec_cache_key(n1, q);
    let k2 = spec_cache_key(n2, q);
    let p = "coverart::external::"@;
    assert(k1 =~= p + n1 + ("::"@ + key_body(q)));
    assert(k2 =~= p + n2 + ("::"@ + key_body(q)));
    assert(k1.take((p + n1 + "::"@).len() as int) =~= p + n1 + "::"@);
    if k1 == k2 {
        assert(n1 =~= k1.subrange(p.len() as int, (p.len() + n1.len()) as int));
        assert(n2 =~= k2.subrange(p.len() as int, (p.len() + n2.len()) as int));
    }
}

/// Song lookups against one endpoint share a cache entry exactly when their
/// artists and their titles agree once trimmed and lower-cased; so swapping
/// a song's title and artist changes its key unless the two agree.
pub proof fn law_cache_key_song(name: Seq<char>, t1: String, a1: String, t2: String, a2: String)
    ensures
        spec_cache_key(name, CoverartQuery::Song { title: t1, artist: a1 })
            == spec_cache_key(name, CoverartQuery::Song { title: t2, artist: a2 })
            <==> (cleaned_value(a1@) == cleaned_value(a2@) && cleaned_value(t1@) == cleaned_value(t2@)),
{
    reveal_strlit("|");
    let head = "coverart::external::"@ + name + "::"@ + "song|"@;
    let k1 = spec_cache_key(name, CoverartQuery::Song { title: t1, artist: a1 });
    let k2 = spec_cache_key(name, CoverartQuery::Song { title: t2, artist: a2 });
    let ea1 = escaped(cleaned_value(a1@));
    let ea2 = escaped(cleaned_value(a2@));
    let et1 = escaped(cleaned_value(t1@));
    let et2 = escaped(cleaned_value(t2@));
    let rest1 = ea1 + (seq!['|'] + et1);
    let rest2 = ea2 + (seq!['|'] + et2);
    assert(k1 =~= head + rest1);
    assert(k2 =~= head + rest2);
    if k1 == k2 {
        assert(rest1 =~= k1.subrange(head.len() as int, k1.len() as int));
        assert(rest2 =~= k2.subrange(head.len() as int, k2.len() as int));
        lemma_escaped_split(cleaned_value(a1@), seq!['|'] + et1, cleaned_value(a2@), seq!['|'] + et2);
        assert(et1 =~= (seq!['|'] + et1).drop_first());
        assert(et2 =~= (seq!['|'] + et2).drop_first());
        assert(et1 + seq!['|'] == et2 + seq!['|']);
        lemma_escaped_split(cleaned_value(t1@), seq!['|'], cleaned_value(t2@), seq!['|']);
    }
}

/// Artist lookups against one endpoint share a cache entry exactly when the
/// artists agree once trimmed and lower-cased, and URL lookups exactly when
/// the URLs agree once trimmed.
pub proof fn law_cache_key_single_field(name: Seq<char>, v1: String, v2: String)
    ensures
        spec_cache_key(name, CoverartQuery::Artist(v1)) == spec_cache_key(name, CoverartQuery::Artist(v2))
            <==> cleaned_value(v1@) == cleaned_value(v2@),
        spec_cache_key(name, CoverartQuery::Url(v1)) == spec_cache_key(name, CoverartQuery::Url(v2))
            <==> trim(v1@) == trim(v2@),
{
    let head = "coverart::external::"@ + name + "::"@;
    let pa = head + "artist|"@;
    let pu = head + "url|"@;
    let ka1 = spec_cache_key(name, CoverartQuery::Artist(v1));
    let ka2 = spec_cache_key(name, CoverartQuery::Artist(v2));
    let ku1 = spec_cache_key(name, CoverartQuery::Url(v1));
    let ku2 = spec_cache_key(name, CoverartQuery::Url(v2));
    assert(ka1 =~= pa + cleaned_value(v1@));
    assert(ka2 =~= pa + cleaned_value(v2@));
    assert(ku1 =~= pu + trim(v1@));
    assert(ku2 =~= pu + trim(v2@));
    assert(cleaned_value(v1@) =~= ka1.subrange(pa.len() as int, ka1.len() as int));
    assert(cleaned_value(v2@) =~= ka2.subrange(pa.len() as int, ka2.len() as int));
    assert(trim(v1@) =~= ku1.subrange(pu.len() as int, ku1.len() as int));
    assert(trim(v2@) =~= ku2.subrange(pu.len() as int, ku2.len() as int));
}

/// The year part of an album's cache key.
pub open spec fn year_part(year: Option<i32>) -> Seq<char> {
    match year {
        Some(y) => dec_i32(y),
        None => Seq::empty(),
    }
}

/// Different years give different year parts.
proof fn lemma_year_part_injective(y1: Option<i32>, y2: Option<i32>)
    requires
        year_part(y1) == year_part(y2),
    ensures
        y1 == y2,
{
    match (y1, y2) {
        (Some(a), Some(b)) => {
            let na: nat = if a < 0 { (-(a as int)) as nat } else { a as nat };
            let nb: nat = if b < 0 { (-(b as int)) as nat } else { b as nat };
            lemma_dec_shape(na);
            lemma_dec_shape(nb);
            if a < 0 && b < 0 {
                assert(dec(na) =~= dec_i32(a).drop_first());
                assert(dec(nb) =~= dec_i32(b).drop_first());
            } else if a < 0 {
                assert(dec_i32(a)[0] == '-');
                assert(is_ascii_digit(dec(nb)[0]));
            } else if b < 0 {
                assert(dec_i32(b)[0] == '-');
                assert(is_ascii_digit(dec(na)[0]));
            }
        },
        (Some(a), None) => {
            if a < 0 {
                lemma_dec_shape((-(a as int)) as nat);
            } else {
                lemma_dec_shape(a as nat);
            }
        },
        (None, Some(b)) => {
            if b < 0 {
                lemma_dec_shape((-(b as int)) as nat);
            } else {
                lemma_dec_shape(b as nat);
            }
        },
        (None, None) => {},
    }
}

/// Album lookups against one endpoint share a cache entry exactly when the
/// artists and the titles agree once trimmed and lower-cased and the years
/// are the same.
pub proof fn law_cache_key_album(
    name: Seq<char>,
    t1: String,
    a1: String,
    y1: Option<i32>,
    t2: String,
    a2: String,
    y2: Option<i32>,
)
    ensures
        spec_cache_key(name, CoverartQuery::Album { title: t1, artist: a1, year: y1 })
            == spec_cache_key(name, CoverartQuery::Album { title: t2, artist: a2, year: y2 })
            <==> (cleaned_value(a1@) == cleaned_value(a2@) && cleaned_value(t1@) == cleaned_value(t2@) && y1 == y2),
{
    reveal_strlit("|");
    let head = "coverart::external::"@ + name + "::"@ + "album|"@;
    let k1 = spec_cache_key(name, CoverartQuery::Album { title: t1, artist: a1, year: y1 });
    let k2 = spec_cache_key(name, CoverartQuery::Album { title: t2, artist: a2, year: y2 });
    let et1 = escaped(cleaned_value(t1@));
    let et2 = escaped(cleaned_value(t2@));
    let tail1 = seq!['|'] + (et1 + (seq!['|'] + year_part(y1)));
    let tail2 = seq!['|'] + (et2 + (seq!['|'] + year_part(y2)));
    let rest1 = escaped(cleaned_value(a1@)) + tail1;
    let rest2 = escaped(cleaned_value(a2@)) + tail2;
    assert(k1 =~= head + rest1);
    assert(k2 =~= head + rest2);
    if k1 == k2 {
        assert(rest1 =~= k1.subrange(head.len() as int, k1.len() as int));
        assert(rest2 =~= k2.subrange(head.len() as int, k2.len() as int));
        lemma_escaped_split(cleaned_value(a1@), tail1, cleaned_value(a2@), tail2);
        assert(et1 + (seq!['|'] + year_part(y1)) =~= tail1.drop_first());
        assert(et2 + (seq!['|'] + year_part(y2)) =~= tail2.drop_first());
        lemma_escaped_split(cleaned_value(t1@), seq!['|'] + year_part(y1), cleaned_value(t2@), seq!['|'] + year_part(y2));
        assert(year_part(y1) =~= (seq!['|'] + year_part(y1)).drop_first());
        assert(year_part(y2) =~= (seq!['|'] + year_part(y2)).drop_first());
        lemma_year_part_injective(y1, y2);
    }
}

/// An album with a year and the same album without one never share a cache
/// entry.
pub proof fn law_cache_key_includes_the_album_year(name: Seq<char>, title: String, artist: String, year: i32)
    ensures
        spec_cache_key(name, CoverartQuery::Album { title, artist, year: Some(year) })
            != spec_cache_key(name, CoverartQuery::Album { title, artist, year: None }),
{
    if year < 0 {
        lemma_dec_shape((-(year as int)) as nat);
    } else {
        lemma_dec_shape(year as nat);
    }
    assert(dec_i32(year).len() > 0);
    let with = spec_cache_key(name, CoverartQuery::Album { title, artist, year: Some(year) });
    let without = spec_cache_key(name, CoverartQuery::Album { title, artist, year: None });
    assert(with.len() == without.len() + dec_i32(year).len());
}

/// An endpoint's request slots: at most `limit` lookups at once, and never
/// fewer than one slot.
pub struct SlotCount {
    in_use: usize,
    limit: usize,
}

impl SlotCount {
    #[verifier::type_invariant]
    closed spec fn inv(self) -> bool {
        self.limit >= 1 && self.in_use <= self.limit
    }

    /// Slots taken.
    pub closed spec fn taken(self) -> nat {
        self.in_use as nat
    }

    /// Slots there are.
    pub closed spec fn capacity(self) -> nat {
        self.limit as nat
    }

    /// `limit` slots (one when zero is asked for), none taken.
    pub fn new(limit: usize) -> (r: SlotCount)
        ensures
            r.capacity() == if limit == 0 {
                1
            } else {
                limit
            },
            r.taken() == 0,
    {
        SlotCount { in_use: 0, limit: if limit == 0 { 1 } else { limit } }
    }

    /// Take a slot: `false`, taking nothing, when all are taken.
    pub fn try_acquire(&mut self) -> (r: bool)
        ensures
            r == (old(self).taken() < old(self).capacity()),
            r ==> final(self).taken() == old(self).taken() + 1,
            !r ==> final(self).taken() == old(self).taken(),
            final(self).capacity() == old(self).capacity(),
            final(self).taken() <= final(self).capacity(),
    {
        proof {
            use_type_invariant(&*self);
        }
        if self.in_use >= self.limit {
            return false;
        }
        self.in_use = self.in_use + 1;
        true
    }

    /// Give back a slot (nothing when none is taken).
    pub fn release(&mut self)
        ensures
            old(self).taken() > 0 ==> final(self).taken() == old(self).taken() - 1,
            old(self).taken() == 0 ==> final(self).taken() == 0,
            final(self).capacity() == old(self).capacity(),
    {
        proof {
            use_type_invariant(&*self);
        }
        if self.in_use > 0 {
            self.in_use = self.in_use - 1;
        }
    }
}

/// What the outside world does for an endpoint.
///
/// Its cache, its request slots and the network answer as they will, so the
/// contracts speak of their answers through the relations below: each holds
/// of an answer the backend may give to that call (`remembered`, of what it
/// was asked to keep). A backend that refines none may give any answer; the
/// contracts still fix what is asked and what is done with the answers.
pub trait EndpointBackend: ImageSource + Send + Sync {
    open spec fn cached_answer(&self, key: Seq<char>, r: Option<Lookup>) -> bool {
        true
    }

    open spec fn slot_answer(&self, r: bool) -> bool {
        true
    }

    open spec fn request_answer(
        &self,
        url: Seq<char>,
        headers: Seq<(Seq<char>, Seq<char>)>,
        timeout_seconds: u64,
        r: Option<JsonValue>,
    ) -> bool {
        true
    }

    open spec fn remembered(&self, key: Seq<char>, lookup: Lookup, ttl_seconds: u64) -> bool {
        true
    }

    /// The answer cached under `key`, if there is one.
    fn cached(&self, key: &str) -> (r: Option<Lookup>)
        ensures
            self.cached_answer(key@, r),
    ;

    /// Take one of the endpoint's request slots; `false` when all are taken.
    fn try_acquire_slot(&self) -> (r: bool)
        ensures
            self.slot_answer(r),
    ;

    /// Give back a slot taken by `try_acquire_slot`.
    fn release_slot(&self);

    /// Ask the endpoint; `None` when the request failed.
    fn request(&self, url: &str, headers: &[(String, String)], timeout_seconds: u64) -> (r: Option<JsonValue>)
        ensures
            self.request_answer(url@, header_views(headers@), timeout_seconds, r),
    ;

    /// Cache an answer under `key` for `ttl_seconds`.
    fn remember(&self, key: &str, lookup: &Lookup, ttl_seconds: u64)
        ensures
            self.remembered(key@, *lookup, ttl_seconds),
    ;
}

/// What an endpoint's answer to a request gives: no answer, or one that does
/// not speak the contract, is an error; one offering no images is no
/// artwork; otherwise its images, resolved against `source`.
pub open spec fn answered<S: ImageSource>(
    source: &S,
    body: Option<JsonValue>,
    endpoint: EndpointView,
    cache_key: Seq<char>,
    r: Lookup,
) -> bool {
    match body {
        None => r is Error,
        Some(b) => match spec_response_images(b) {
            None => r is Error,
            Some(images) => if images.len() == 0 {
                r is NoArtwork
            } else {
                resolved_images(source, images, endpoint, cache_key, r)
            },
        },
    }
}

/// Each cache lifetime, in seconds, fits a `u64`.
pub open spec fn ttls_fit(endpoint: EndpointConfig) -> bool {
    &&& endpoint.cache_ttl_days * DAY_SECONDS <= u64::MAX
    &&& endpoint.negative_cache_ttl_days * DAY_SECONDS <= u64::MAX
}

/// The methods an endpoint supports, each once, in configuration order.
pub open spec fn distinct_methods(s: Seq<CoverartMethod>) -> Seq<CoverartMethod>
    decreases s.len(),
{
    if s.len() == 0 {
        Seq::empty()
    } else if distinct_methods(s.drop_last()).contains(s.last()) {
        distinct_methods(s.drop_last())
    } else {
        distinct_methods(s.drop_last()).push(s.last())
    }
}

proof fn lemma_distinct_methods(s: Seq<CoverartMethod>)
    ensures
        forall|m: CoverartMethod| distinct_methods(s).contains(m) <==> s.contains(m),
    decreases s.len(),
{
    if s.len() > 0 {
        let dl = s.drop_last();
        lemma_distinct_methods(dl);
        let d = distinct_methods(dl);
        assert forall|m: CoverartMethod| s.contains(m) <==> (dl.contains(m) || m == s.last()) by {
            if s.contains(m) && m != s.last() {
                let k = choose|k: int| 0 <= k < s.len() && s[k] == m;
                assert(k != s.len() - 1);
                assert(dl[k] == m);
            }
            if dl.contains(m) {
                let k = choose|k: int| 0 <= k < dl.len() && dl[k] == m;
                assert(s[k] == m);
            }
            if m == s.last() {
                assert(s[s.len() - 1] == m);
            }
        }
        assert forall|m: CoverartMethod| d.push(s.last()).contains(m) <==> (d.contains(m) || m == s.last()) by {
            if d.push(s.last()).contains(m) && m != s.last() {
                let k = choose|k: int| 0 <= k < d.push(s.last()).len() && d.push(s.last())[k] == m;
                assert(k != d.len());
                assert(d[k] == m);
            }
            if d.contains(m) {
                let k = choose|k: int| 0 <= k < d.len() && d[k] == m;
                assert(d.push(s.last())[k] == m);
            }
            if m == s.last() {
                assert(d.push(s.last())[d.len() as int] == m);
            }
        }
    }
}

fn dedup_methods(methods: &Vec<CoverartMethod>) -> (r: Vec<CoverartMethod>)
    ensures
        r@ == distinct_methods(methods@),
{
    let mut out: Vec<CoverartMethod> = Vec::new();
    let mut i: usize = 0;
    while i < methods.len()
        invariant
            i <= methods.len(),
            out@ == distinct_methods(methods@.take(i as int)),
        decreases methods.len() - i,
    {
        assert(methods@.take(i + 1).drop_last() =~= methods@.take(i as int));
        let m = methods[i];
        let mut seen = false;
        let mut k: usize = 0;
        while k < out.len()
            invariant
                k <= out.len(),
                seen == exists|j: int| 0 <= j < k && out@[j] == m,
            decreases out.len() - k,
        {
            if out[k] == m {
                seen = true;
            }
            k = k + 1;
        }
        if !seen {
            out.push(m);
        }
        i = i + 1;
    }
    assert(methods@.take(methods@.len() as int) =~= methods@);
    out
}

/// One configured endpoint, as a cover art provider.
pub struct ExternalCoverartProvider<B: EndpointBackend> {
    endpoint: EndpointConfig,
    methods: Vec<CoverartMethod>,
    backend: B,
}

impl<B: EndpointBackend> ExternalCoverartProvider<B> {
    #[verifier::type_invariant]
    closed spec fn inv(self) -> bool {
        ttls_fit(self.endpoint)
    }

    /// The endpoint's configuration.
    pub closed spec fn spec_endpoint(self) -> EndpointConfig {
        self.endpoint
    }

    /// What a lookup of `q` may give: the answer cached under its key; an
    /// error when no request slot is free; or what the request for the
    /// endpoint's URL, expanded for `q`, resolves to, remembered for its
    /// lifetime.
    pub open spec fn looked_up(&self, q: CoverartQuery, r: Lookup) -> bool {
        let endpoint = self.spec_endpoint();
        let key = spec_cache_key(endpoint.name@, q);
        let backend = self.spec_backend();
        ||| backend.cached_answer(key, Some(r))
        ||| backend.cached_answer(key, None) && backend.slot_answer(false) && r is Error
        ||| backend.cached_answer(key, None) && backend.slot_answer(true)
            && requested(backend, spec_expand(endpoint.url@, q), endpoint, key, r)
            && backend.remembered(key, r, spec_ttl_seconds(r, endpoint) as u64)
    }

    /// What the provider reaches the outside world through.
    pub closed spec fn spec_backend(&self) -> &B {
        &self.backend
    }

    /// The methods the provider answers.
    pub closed spec fn spec_methods(self) -> Seq<CoverartMethod> {
        self.methods@
    }

    /// A provider for this endpoint, reaching the outside world through
    /// `backend`. Its methods are the configured ones, each once.
    pub fn new(endpoint: EndpointConfig, backend: B) -> (r: Self)
        requires
            ttls_fit(endpoint),
        ensures
            r.spec_endpoint() == endpoint,
            r.spec_methods() == distinct_methods(endpoint.methods@),
            forall|m: CoverartMethod| r.spec_methods().contains(m) <==> endpoint.methods@.contains(m),
    {
        proof {
            lemma_distinct_methods(endpoint.methods@);
        }
        let methods = dedup_methods(&endpoint.methods);
        ExternalCoverartProvider { endpoint, methods, backend }
    }

    /// The endpoint's configuration.
    pub fn endpoint(&self) -> (r: &EndpointConfig)
        ensures
            *r == self.spec_endpoint(),
    {
        &self.endpoint
    }

    /// Ask the endpoint, and cache whatever it says. A cached answer is
    /// returned without a request, a cached error included; when every
    /// request slot is taken the answer is an error that is not cached.
    /// Otherwise the endpoint's URL template, expanded for the query, is
    /// requested with the endpoint's headers and timeout, the answer is
    /// resolved, and what it resolved to is remembered for its lifetime.
    pub fn lookup(&self, query: &CoverartQuery) -> (r: Lookup)
        ensures
            self.looked_up(*query, r),
    {
        proof {
            use_type_invariant(self);
        }
        let key = cache_key(self.endpoint.name.as_str(), query);
        if let Some(cached) = self.backend.cached(key.as_str()) {
            return cached;
        }
        if !self.backend.try_acquire_slot() {
            return Lookup::Error;
        }
        let url = expand(self.endpoint.url.as_str(), query);
        let body = self.backend.request(url.as_str(), self.endpoint.headers.as_slice(), self.endpoint.timeout_seconds);
        let ghost answer = body;
        let lookup = match body {
            Some(body) => resolve_with(parse_response(&body), &self.endpoint, key.as_str(), &self.backend),
            None => Lookup::Error,
        };
        proof {
            assert(answered(&self.backend, answer, self.endpoint@, key@, lookup));
            assert(self.backend.request_answer(url@, self.endpoint@.headers, self.endpoint.timeout_seconds, answer));
            assert(requested(&self.backend, url@, self.endpoint, key@, lookup));
        }
        let ttl = ttl_seconds(&lookup, &self.endpoint);
        self.backend.remember(key.as_str(), &lookup, ttl);
        self.backend.release_slot();
        lookup
    }
}

/// What a request gives: an answer the backend may give to the request for
/// `url` with the endpoint's headers and timeout, answered.
pub open spec fn requested<B: EndpointBackend>(
    backend: &B,
    url: Seq<char>,
    endpoint: EndpointConfig,
    cache_key: Seq<char>,
    r: Lookup,
) -> bool {
    exists|body: Option<JsonValue>|
        #[trigger] backend.request_answer(url, endpoint@.headers, endpoint.timeout_seconds, body)
        && answered(backend, body, endpoint@, cache_key, r)
}

impl<B: EndpointBackend> CoverartProvider for ExternalCoverartProvider<B> {
    /// An endpoint's cache answers what its backend holds under the query's
    /// key.
    open spec fn cache_answer(&self, query: CoverartQuery, urls: Seq<Seq<char>>) -> bool {
        exists|l: Lookup|
            #[trigger] self.spec_backend().cached_answer(spec_cache_key(self.spec_endpoint().name@, query), Some(l))
            && urls == spec_urls(l)
    }

    /// An endpoint's lookup answers what [`ExternalCoverartProvider::lookup`]
    /// may give for a query with the call's fields.
    open spec fn lookup_answer(&self, call: CallView, urls: Seq<Seq<char>>) -> bool {
        exists|q: CoverartQuery, l: Lookup|
            spec_lookup_call(q) == call && #[trigger] self.looked_up(q, l) && urls == spec_urls(l)
    }

    /// The endpoint's name.
    fn name(&self) -> (r: &str)
        ensures
            r@ == self.spec_endpoint().name@,
    {
        self.endpoint.name.as_str()
    }

    /// The endpoint's display name.
    fn display_name(&self) -> (r: &str)
        ensures
            r@ == self.spec_endpoint().display_name@,
    {
        self.endpoint.display_name.as_str()
    }

    /// The configured methods, each once, in configuration order.
    fn supported_methods(&self) -> (r: Vec<CoverartMethod>)
        ensures
            r@ == self.spec_methods(),
    {
        let r = self.methods.clone();
        assert(r@ =~= self.methods@);
        r
    }

    /// The endpoint's configured timeout.
    fn timeout(&self) -> (r: u64)
        ensures
            r == self.spec_endpoint().timeout_seconds,
    {
        self.endpoint.timeout_seconds
    }

    /// An endpoint is always slow: it is never waited for on a request path
    /// unless the caller opts in.
    fn is_slow(&self) -> (r: bool)
        ensures
            r,
    {
        true
    }

    /// The URLs of the answer cached for the query, if one is.
    fn cached_coverart(&self, query: &CoverartQuery) -> (r: Option<Vec<String>>)
        ensures
            r is None ==> self.spec_backend().cached_answer(spec_cache_key(self.spec_endpoint().name@, *query), None),
            r matches Some(urls) ==> exists|l: Lookup|
                #[trigger] self.spec_backend().cached_answer(spec_cache_key(self.spec_endpoint().name@, *query), Some(l))
                && views(urls@) == spec_urls(l),
    {
        let key = cache_key(self.endpoint.name.as_str(), query);
        let cached = self.backend.cached(key.as_str());
        assert(self.spec_backend().cached_answer(key@, cached));
        match cached {
            Some(c) => {
                let urls = c.urls();
                assert(self.spec_backend().cached_answer(key@, Some(c)));
                Some(urls)
            },
            None => None,
        }
    }

    /// The URLs a lookup of the artist gives.
    fn get_artist_coverart_impl(&self, artist: &str) -> (r: Vec<String>)
        ensures
            exists|a: String, l: Lookup| a@ == artist@ && #[trigger] self.looked_up(CoverartQuery::Artist(a), l)
                && views(r@) == spec_urls(l),
    {
        let q = CoverartQuery::Artist(owned(artist));
        let l = self.lookup(&q);
        let r = l.urls();
        assert(self.looked_up(q, l));
        r
    }

    /// The URLs a lookup of the song gives.
    fn get_song_coverart_impl(&self, title: &str, artist: &str) -> (r: Vec<String>)
        ensures
            exists|t: String, a: String, l: Lookup| t@ == title@ && a@ == artist@
                && #[trigger] self.looked_up(CoverartQuery::Song { title: t, artist: a }, l) && views(r@) == spec_urls(l),
    {
        let q = CoverartQuery::Song { title: owned(title), artist: owned(artist) };
        let l = self.lookup(&q);
        let r = l.urls();
        assert(self.looked_up(q, l));
        r
    }

    /// The URLs a lookup of the album gives.
    fn get_album_coverart_impl(&self, title: &str, artist: &str, year: Option<i32>) -> (r: Vec<String>)
        ensures
            exists|t: String, a: String, l: Lookup| t@ == title@ && a@ == artist@
                && #[trigger] self.looked_up(CoverartQuery::Album { title: t, artist: a, year }, l) && views(r@) == spec_urls(l),
    {
        let q = CoverartQuery::Album { title: owned(title), artist: owned(artist), year };
        let l = self.lookup(&q);
        let r = l.urls();
        assert(self.looked_up(q, l));
        r
    }

    /// The URLs a lookup of the URL gives.
    fn get_url_coverart_impl(&self, url: &str) -> (r: Vec<String>)
        ensures
            exists|u: String, l: Lookup| u@ == url@ && #[trigger] self.looked_up(CoverartQuery::Url(u), l)
                && views(r@) == spec_urls(l),
    {
        let q = CoverartQuery::Url(owned(url));
        let l = self.lookup(&q);
        let r = l.urls();
        assert(self.looked_up(q, l));
        r
    }
}

} // verus!
