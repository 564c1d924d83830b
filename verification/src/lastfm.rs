//! Last.fm: credentials, request parameters, call signatures and error
//! answers.
//!
//! The requests themselves are the caller's; what is sent, how a call is
//! signed and what an answer means are decided here.

use vstd::prelude::*;
use crate::codec::{lower_hex, md5_hex, md5_of};
use crate::json::{parse_json, parsed_json, read_json, tree_of_text, JsonValue};
use crate::text::{concat2, dec, has_sub, i32_to_string, lemma_lex_asymmetric, lemma_lex_irreflexive, lemma_lex_total,
    lemma_lex_transitive, lex_less, lex_lt, owned, push_str, str_eq, u64_to_string, contains_str, dec_i32};

verus! {

/// Errors of the Last.fm API.
#[derive(Debug, Clone)]
pub enum LastfmError {
    ApiError(String, i32),
    NetworkError(String),
    ParsingError(String),
    AuthError(String),
    ConfigError(String),
}

/// The text an error is shown as.
pub open spec fn error_text(e: LastfmError) -> Seq<char> {
    match e {
        LastfmError::ApiError(m, code) => "Last.fm API error ("@ + dec_i32(code) + "): "@ + m@,
        LastfmError::NetworkError(m) => "Network error: "@ + m@,
        LastfmError::ParsingError(m) => "Parsing error: "@ + m@,
        LastfmError::AuthError(m) => "Authentication error: "@ + m@,
        LastfmError::ConfigError(m) => "Configuration error: "@ + m@,
    }
}

impl LastfmError {
    /// The text the error is shown as.
    pub fn message(&self) -> (r: String)
        ensures
            r@ == error_text(*self),
    {
        match self {
            LastfmError::ApiError(m, code) => {
                let mut s = owned("Last.fm API error (");
                let c = i32_to_string(*code);
                push_str(&mut s, c.as_str());
                push_str(&mut s, "): ");
                push_str(&mut s, m.as_str());
                s
            },
            LastfmError::NetworkError(m) => concat2("Network error: ", m.as_str()),
            LastfmError::ParsingError(m) => concat2("Parsing error: ", m.as_str()),
            LastfmError::AuthError(m) => concat2("Authentication error: ", m.as_str()),
            LastfmError::ConfigError(m) => concat2("Configuration error: ", m.as_str()),
        }
    }
}

/// What the client keeps about the user's Last.fm account.
#[derive(Debug, Clone)]
pub struct LastfmCredentials {
    pub api_key: String,
    pub api_secret: String,
    pub session_key: Option<String>,
    pub username: Option<String>,
    pub auth_token: Option<String>,
    /// When the auth token was issued, in seconds since the Unix epoch.
    pub token_created: Option<u64>,
}

impl LastfmCredentials {
    /// Fresh credentials for an application: an API key and secret, both
    /// required.
    pub fn new(api_key: String, api_secret: String) -> (r: Result<LastfmCredentials, LastfmError>)
        ensures
            r is Ok <==> (api_key@.len() > 0 && api_secret@.len() > 0),
            r matches Ok(c) ==> c.api_key == api_key && c.api_secret == api_secret && c.session_key is None
                && c.username is None && c.auth_token is None && c.token_created is None,
            r matches Err(e) ==> (e matches LastfmError::ConfigError(m) && m@ == "API key and secret are required"@),
    {
        if api_key.as_str().unicode_len() == 0 || api_secret.as_str().unicode_len() == 0 {
            return Err(LastfmError::ConfigError(owned("API key and secret are required")));
        }
        Ok(LastfmCredentials { api_key, api_secret, session_key: None, username: None, auth_token: None, token_created: None })
    }

    /// Stored credentials are usable when they have an API key and secret.
    pub fn validate(&self) -> (r: Result<(), LastfmError>)
        ensures
            r is Ok <==> (self.api_key@.len() > 0 && self.api_secret@.len() > 0),
            r matches Err(e) ==> (e matches LastfmError::ConfigError(m) && m@ == "API key and secret are required"@),
    {
        if self.api_key.as_str().unicode_len() == 0 || self.api_secret.as_str().unicode_len() == 0 {
            return Err(LastfmError::ConfigError(owned("API key and secret are required")));
        }
        Ok(())
    }

    /// Whether a user is logged in: a session key and a user name.
    pub fn is_authenticated(&self) -> (r: bool)
        ensures
            r == (self.session_key is Some && self.username is Some),
    {
        self.session_key.is_some() && self.username.is_some()
    }

    /// The logged-in user's name.
    pub fn get_username(&self) -> (r: Option<String>)
        ensures
            r == self.username,
    {
        crate::text::clone_opt_string(&self.username)
    }

    /// The auth token to reuse at `now`: one issued less than an hour ago.
    pub fn reusable_auth_token(&self, now: u64) -> (r: Option<String>)
        ensures
            r is Some <==> (self.auth_token is Some && (self.token_created matches Some(t) && t <= now && now - t < 3600)),
            r matches Some(tok) ==> self.auth_token == Some(tok),
    {
        match (&self.auth_token, self.token_created) {
            (Some(token), Some(created)) => if created <= now && now - created < 3600 {
                Some(token.clone())
            } else {
                None
            },
            _ => None,
        }
    }

    /// Record a new auth token, issued at `now`.
    pub fn set_auth_token(&mut self, token: String, now: u64)
        ensures
            final(self).auth_token == Some(token),
            final(self).token_created == Some(now),
            final(self).api_key == old(self).api_key,
            final(self).api_secret == old(self).api_secret,
            final(self).session_key == old(self).session_key,
            final(self).username == old(self).username,
    {
        self.auth_token = Some(token);
        self.token_created = Some(now);
    }

    /// Record a session: the token it consumed is forgotten.
    pub fn set_session(&mut self, key: String, name: String)
        ensures
            final(self).session_key == Some(key),
            final(self).username == Some(name),
            final(self).auth_token is None,
            final(self).token_created is None,
            final(self).api_key == old(self).api_key,
            final(self).api_secret == old(self).api_secret,
    {
        self.session_key = Some(key);
        self.username = Some(name);
        self.auth_token = None;
        self.token_created = None;
    }
}

/// The page a user authorises the application at.
pub fn auth_url(api_key: &str, token: &str) -> (r: String)
    ensures
        r@ == "https://www.last.fm/api/auth/?api_key="@ + api_key@ + "&token="@ + token@,
{
    let mut url = owned("https://www.last.fm/api/auth/?api_key=");
    push_str(&mut url, api_key);
    push_str(&mut url, "&token=");
    push_str(&mut url, token);
    url
}

// ---------------------------------------------------------------------------
// Signatures
// ---------------------------------------------------------------------------

pub open spec fn pair_view(p: (String, String)) -> (Seq<char>, Seq<char>) {
    (p.0@, p.1@)
}

/// The parameters as a map: a later value for a name replaces an earlier one.
pub open spec fn param_map(params: Seq<(Seq<char>, Seq<char>)>) -> Map<Seq<char>, Seq<char>>
    decreases params.len(),
{
    if params.len() == 0 {
        Map::empty()
    } else {
        param_map(params.drop_last()).insert(params.last().0, params.last().1)
    }
}

/// Entries strictly sorted by name.
pub open spec fn sorted_by_name(entries: Seq<(Seq<char>, Seq<char>)>) -> bool {
    forall|i: int, j: int| 0 <= i < j < entries.len() ==> lex_lt(#[trigger] entries[i].0, #[trigger] entries[j].0)
}

/// The entries are exactly the map's, by name.
pub open spec fn entries_of(entries: Seq<(Seq<char>, Seq<char>)>, m: Map<Seq<char>, Seq<char>>) -> bool {
    &&& forall|i: int| 0 <= i < entries.len() ==> m.contains_key(#[trigger] entries[i].0) && m[entries[i].0] == entries[i].1
    &&& forall|k: Seq<char>| #[trigger] m.contains_key(k) ==> exists|i: int| 0 <= i < entries.len() && entries[i].0 == k
}

/// Each entry as its name followed by its value.
pub open spec fn joined_entries(entries: Seq<(Seq<char>, Seq<char>)>) -> Seq<char>
    decreases entries.len(),
{
    if entries.len() == 0 {
        Seq::empty()
    } else {
        joined_entries(entries.drop_last()) + entries.last().0 + entries.last().1
    }
}

/// Two name-sorted listings of one map are the same listing.
pub proof fn lemma_sorted_listing_unique(a: Seq<(Seq<char>, Seq<char>)>, b: Seq<(Seq<char>, Seq<char>)>, m: Map<Seq<char>, Seq<char>>)
    requires
        sorted_by_name(a),
        sorted_by_name(b),
        entries_of(a, m),
        entries_of(b, m),
    ensures
        a == b,
    decreases a.len() + b.len(),
{
    if a.len() == 0 || b.len() == 0 {
        if a.len() > 0 {
            assert(m.contains_key(a[0].0));
        }
        if b.len() > 0 {
            assert(m.contains_key(b[0].0));
        }
        assert(a =~= b);
        return;
    }
    let la = a.last().0;
    let lb = b.last().0;
    assert(m.contains_key(la));
    assert(m.contains_key(lb));
    let ib = choose|i: int| 0 <= i < b.len() && b[i].0 == la;
    let ia = choose|i: int| 0 <= i < a.len() && a[i].0 == lb;
    if la != lb {
        lemma_lex_total(la, lb);
        if lex_lt(la, lb) {
            if ia < a.len() - 1 {
                assert(lex_lt(a[ia].0, a[a.len() - 1].0));
                lemma_lex_asymmetric(la, lb);
            } else {
                lemma_lex_irreflexive(la);
            }
        } else {
            if ib < b.len() - 1 {
                assert(lex_lt(b[ib].0, b[b.len() - 1].0));
                lemma_lex_asymmetric(lb, la);
            } else {
                lemma_lex_irreflexive(lb);
            }
        }
    }
    assert(la == lb);
    let m2 = m.remove(la);
    let a2 = a.drop_last();
    let b2 = b.drop_last();
    assert forall|i: int| 0 <= i < a2.len() implies m2.contains_key(#[trigger] a2[i].0) && m2[a2[i].0] == a2[i].1 by {
        assert(lex_lt(a[i].0, a[a.len() - 1].0));
        lemma_lex_irreflexive(la);
    }
    assert forall|i: int| 0 <= i < b2.len() implies m2.contains_key(#[trigger] b2[i].0) && m2[b2[i].0] == b2[i].1 by {
        assert(lex_lt(b[i].0, b[b.len() - 1].0));
        lemma_lex_irreflexive(lb);
    }
    assert forall|k: Seq<char>| #[trigger] m2.contains_key(k) implies exists|i: int| 0 <= i < a2.len() && a2[i].0 == k by {
        let i = choose|i: int| 0 <= i < a.len() && a[i].0 == k;
        assert(i != a.len() - 1);
        assert(a2[i].0 == k);
    }
    assert forall|k: Seq<char>| #[trigger] m2.contains_key(k) implies exists|i: int| 0 <= i < b2.len() && b2[i].0 == k by {
        let i = choose|i: int| 0 <= i < b.len() && b[i].0 == k;
        assert(i != b.len() - 1);
        assert(b2[i].0 == k);
    }
    lemma_sorted_listing_unique(a2, b2, m2);
    assert(a.last() == b.last());
    assert(a =~= a2.push(a.last()));
    assert(b =~= b2.push(b.last()));
}

/// The signature of a call: the hex MD5 of each parameter's name and value
/// in name order (a later value for a name replacing an earlier one),
/// followed by the secret.
pub open spec fn signature_of(entries: Seq<(Seq<char>, Seq<char>)>, secret: Seq<char>) -> Seq<char> {
    lower_hex(md5_of(vstd::utf8::encode_utf8(joined_entries(entries) + secret)))
}

/// Add or replace one parameter in a name-sorted listing.
fn upsert_sorted(entries: &mut Vec<(String, String)>, name: String, value: String)
    requires
        sorted_by_name(old(entries)@.map_values(|p: (String, String)| pair_view(p))),
    ensures
        sorted_by_name(final(entries)@.map_values(|p: (String, String)| pair_view(p))),
        forall|m: Map<Seq<char>, Seq<char>>| entries_of(old(entries)@.map_values(|p: (String, String)| pair_view(p)), m)
            ==> entries_of(final(entries)@.map_values(|p: (String, String)| pair_view(p)), m.insert(name@, value@)),
{
    let ghost before = entries@.map_values(|p: (String, String)| pair_view(p));
    let mut i: usize = 0;
    while i < entries.len() && lex_less(entries[i].0.as_str(), name.as_str())
        invariant
            i <= entries.len(),
            before == entries@.map_values(|p: (String, String)| pair_view(p)),
            forall|k: int| 0 <= k < i ==> lex_lt(#[trigger] before[k].0, name@),
        decreases entries.len() - i,
    {
        i = i + 1;
    }
    if i < entries.len() && str_eq(entries[i].0.as_str(), name.as_str()) {
        let ghost n = name@;
        let ghost v = value@;
        entries.set(i, (name, value));
        proof {
            let after = entries@.map_values(|p: (String, String)| pair_view(p));
            assert(after =~= before.update(i as int, (n, v)));
            assert forall|a: int, b: int| 0 <= a < b < after.len() implies lex_lt(#[trigger] after[a].0, #[trigger] after[b].0) by {
                assert(after[a].0 == before[a].0 && after[b].0 == before[b].0);
            }
            assert forall|m: Map<Seq<char>, Seq<char>>| entries_of(before, m) implies entries_of(after, m.insert(n, v)) by {
                let m2 = m.insert(n, v);
                assert forall|k: int| 0 <= k < after.len() implies m2.contains_key(#[trigger] after[k].0) && m2[after[k].0] == after[k].1 by {
                    if k != i {
                        assert(after[k] == before[k]);
                        if before[k].0 == n {
                            if k < i {
                                assert(lex_lt(before[k].0, before[i as int].0));
                            } else {
                                assert(lex_lt(before[i as int].0, before[k].0));
                            }
                            lemma_lex_irreflexive(n);
                        }
                    }
                }
                assert forall|key: Seq<char>| #[trigger] m2.contains_key(key) implies exists|k: int| 0 <= k < after.len() && after[k].0 == key by {
                    if key == n {
                        assert(after[i as int].0 == key);
                    } else {
                        let k = choose|k: int| 0 <= k < before.len() && before[k].0 == key;
                        assert(after[k].0 == key);
                    }
                }
            }
        }
        return;
    }
    let ghost n = name@;
    let ghost v = value@;
    proof {
        assert forall|k: int| i <= k < before.len() implies lex_lt(n, #[trigger] before[k].0) by {
            lemma_lex_total(n, before[i as int].0);
            if k > i {
                lemma_lex_transitive(n, before[i as int].0, before[k].0);
            }
        }
    }
    entries.insert(i, (name, value));
    proof {
        let after = entries@.map_values(|p: (String, String)| pair_view(p));
        assert(after =~= before.insert(i as int, (n, v)));
        assert forall|a: int, b: int| 0 <= a < b < after.len() implies lex_lt(#[trigger] after[a].0, #[trigger] after[b].0) by {
            if b < i {
            } else if b == i {
            } else if a < i {
                lemma_lex_transitive(before[a].0, n, before[b - 1].0);
            } else if a == i {
            } else {
            }
        }
        assert forall|m: Map<Seq<char>, Seq<char>>| entries_of(before, m) implies entries_of(after, m.insert(n, v)) by {
            let m2 = m.insert(n, v);
            assert forall|k: int| 0 <= k < after.len() implies m2.contains_key(#[trigger] after[k].0) && m2[after[k].0] == after[k].1 by {
                if k < i {
                    assert(after[k] == before[k]);
                    lemma_lex_irreflexive(n);
                } else if k > i {
                    assert(after[k] == before[k - 1]);
                    lemma_lex_irreflexive(n);
                }
            }
            assert forall|key: Seq<char>| #[trigger] m2.contains_key(key) implies exists|k: int| 0 <= k < after.len() && after[k].0 == key by {
                if key == n {
                    assert(after[i as int].0 == key);
                } else {
                    let k = choose|k: int| 0 <= k < before.len() && before[k].0 == key;
                    if k < i {
                        assert(after[k].0 == key);
                    } else {
                        assert(after[k + 1].0 == key);
                    }
                }
            }
        }
    }
}

/// Sign a call: the hex MD5 of the parameters' names and values in name
/// order, followed by the secret.
pub fn generate_signature(params: &Vec<(String, String)>, api_secret: &str) -> (r: String)
    ensures
        exists|entries: Seq<(Seq<char>, Seq<char>)>| sorted_by_name(entries)
            && entries_of(entries, param_map(params@.map_values(|p: (String, String)| pair_view(p))))
            && r@ == signature_of(entries, api_secret@),
{
    let ghost ps = params@.map_values(|p: (String, String)| pair_view(p));
    let mut entries: Vec<(String, String)> = Vec::new();
    let mut i: usize = 0;
    proof {
        assert(entries@.map_values(|p: (String, String)| pair_view(p)) =~= Seq::<(Seq<char>, Seq<char>)>::empty());
        assert(ps.take(0) =~= Seq::<(Seq<char>, Seq<char>)>::empty());
        assert(param_map(ps.take(0)) =~= Map::<Seq<char>, Seq<char>>::empty());
    }
    while i < params.len()
        invariant
            i <= params.len(),
            ps == params@.map_values(|p: (String, String)| pair_view(p)),
            sorted_by_name(entries@.map_values(|p: (String, String)| pair_view(p))),
            entries_of(entries@.map_values(|p: (String, String)| pair_view(p)), param_map(ps.take(i as int))),
        decreases params.len() - i,
    {
        assert(ps.take(i + 1).drop_last() =~= ps.take(i as int));
        assert(ps.take(i + 1).last() == pair_view(params@[i as int]));
        upsert_sorted(&mut entries, params[i].0.clone(), params[i].1.clone());
        i = i + 1;
    }
    assert(ps.take(ps.len() as int) =~= ps);
    let mut base = String::new();
    let mut k: usize = 0;
    let ghost es = entries@.map_values(|p: (String, String)| pair_view(p));
    while k < entries.len()
        invariant
            k <= entries.len(),
            es == entries@.map_values(|p: (String, String)| pair_view(p)),
            base@ == joined_entries(es.take(k as int)),
        decreases entries.len() - k,
    {
        assert(es.take(k + 1).drop_last() =~= es.take(k as int));
        push_str(&mut base, entries[k].0.as_str());
        push_str(&mut base, entries[k].1.as_str());
        k = k + 1;
    }
    assert(es.take(es.len() as int) =~= es);
    push_str(&mut base, api_secret);
    let bytes = base.as_str().as_bytes_vec();
    md5_hex(bytes.as_slice())
}

/// The signature does not depend on how the parameters were listed: two
/// listings that give the same parameters sign the same.
pub proof fn law_signature_ignores_listing_order(
    a: Seq<(Seq<char>, Seq<char>)>,
    b: Seq<(Seq<char>, Seq<char>)>,
    params: Seq<(Seq<char>, Seq<char>)>,
    secret: Seq<char>,
)
    requires
        sorted_by_name(a),
        sorted_by_name(b),
        entries_of(a, param_map(params)),
        entries_of(b, param_map(params)),
    ensures
        signature_of(a, secret) == signature_of(b, secret),
{
    lemma_sorted_listing_unique(a, b, param_map(params));
}

// ---------------------------------------------------------------------------
// Requests and answers
// ---------------------------------------------------------------------------

pub open spec fn params_view(v: Seq<(String, String)>) -> Seq<(Seq<char>, Seq<char>)> {
    v.map_values(|p: (String, String)| pair_view(p))
}

fn pair(name: &str, value: &str) -> (r: (String, String))
    ensures
        pair_view(r) == (name@, value@),
{
    (owned(name), owned(value))
}

/// The parameters asking for an auth token.
pub fn token_request_params(api_key: &str) -> (r: Vec<(String, String)>)
    ensures
        params_view(r@) == seq![("method"@, "auth.getToken"@), ("api_key"@, api_key@), ("format"@, "json"@)],
{
    let v = vec![pair("method", "auth.getToken"), pair("api_key", api_key), pair("format", "json")];
    assert(params_view(v@) =~= seq![("method"@, "auth.getToken"@), ("api_key"@, api_key@), ("format"@, "json"@)]);
    v
}

/// The parameters exchanging a token for a session.
pub fn session_request_params(api_key: &str, token: &str) -> (r: Vec<(String, String)>)
    ensures
        params_view(r@) == seq![("method"@, "auth.getSession"@), ("api_key"@, api_key@), ("token"@, token@)],
{
    let v = vec![pair("method", "auth.getSession"), pair("api_key", api_key), pair("token", token)];
    assert(params_view(v@) =~= seq![("method"@, "auth.getSession"@), ("api_key"@, api_key@), ("token"@, token@)]);
    v
}

/// The optional parameters of a track, in order.
pub open spec fn track_extras(album: Option<Seq<char>>, album_artist: Option<Seq<char>>, track_number: Option<u32>, duration: Option<u32>) -> Seq<(Seq<char>, Seq<char>)> {
    (match album {
        Some(a) => seq![("album"@, a)],
        None => Seq::empty(),
    }) + (match album_artist {
        Some(a) => seq![("albumArtist"@, a)],
        None => Seq::empty(),
    }) + (match track_number {
        Some(n) => seq![("trackNumber"@, dec(n as nat))],
        None => Seq::empty(),
    }) + (match duration {
        Some(d) => seq![("duration"@, dec(d as nat))],
        None => Seq::empty(),
    })
}

pub open spec fn opt_str(o: Option<&str>) -> Option<Seq<char>> {
    match o {
        Some(s) => Some(s@),
        None => None,
    }
}

/// The parameter names an optional track parameter can carry.
proof fn lemma_extra_names_differ()
    ensures
        "album"@ != "albumArtist"@,
        "trackNumber"@ != "albumArtist"@,
        "duration"@ != "albumArtist"@,
        "albumArtist"@ != "album"@,
        "trackNumber"@ != "album"@,
        "duration"@ != "album"@,
{
    reveal_strlit("album");
    reveal_strlit("albumArtist");
    reveal_strlit("trackNumber");
    reveal_strlit("duration");
    assert("album"@.len() == 5);
    assert("albumArtist"@.len() == 11);
    assert("trackNumber"@[0] != "albumArtist"@[0]);
}

/// Among a track's optional parameters the album artist is sent exactly
/// when one is given, whatever the album is, and the album exactly when
/// one is given, whatever the album artist is.
pub proof fn law_album_and_album_artist_are_sent_independently(
    album: Option<Seq<char>>,
    album_artist: Option<Seq<char>>,
    track_number: Option<u32>,
    duration: Option<u32>,
    a: Seq<char>,
)
    ensures
        track_extras(album, album_artist, track_number, duration).contains(("albumArtist"@, a)) <==> album_artist == Some(a),
        track_extras(album, album_artist, track_number, duration).contains(("album"@, a)) <==> album == Some(a),
{
    lemma_extra_names_differ();
    let e1: Seq<(Seq<char>, Seq<char>)> = match album {
        Some(x) => seq![("album"@, x)],
        None => Seq::empty(),
    };
    let e2: Seq<(Seq<char>, Seq<char>)> = match album_artist {
        Some(x) => seq![("albumArtist"@, x)],
        None => Seq::empty(),
    };
    let e3: Seq<(Seq<char>, Seq<char>)> = match track_number {
        Some(n) => seq![("trackNumber"@, dec(n as nat))],
        None => Seq::empty(),
    };
    let e4: Seq<(Seq<char>, Seq<char>)> = match duration {
        Some(n) => seq![("duration"@, dec(n as nat))],
        None => Seq::empty(),
    };
    let t = track_extras(album, album_artist, track_number, duration);
    assert(t =~= e1 + e2 + e3 + e4);
    let l1 = e1.len() as int;
    let l2 = l1 + e2.len();
    let l3 = l2 + e3.len();
    assert forall|i: int| 0 <= i < t.len() implies
        (i < l1 ==> t[i] == e1[i]) && (l1 <= i < l2 ==> t[i] == e2[i - l1])
        && (l2 <= i < l3 ==> t[i] == e3[i - l2]) && (l3 <= i ==> t[i] == e4[i - l3]) by {}
    if album_artist == Some(a) {
        assert(t[l1] == ("albumArtist"@, a));
    }
    if t.contains(("albumArtist"@, a)) {
        let i = choose|i: int| 0 <= i < t.len() && t[i] == ("albumArtist"@, a);
        assert(l1 <= i < l2);
    }
    if album == Some(a) {
        assert(t[0] == ("album"@, a));
    }
    if t.contains(("album"@, a)) {
        let i = choose|i: int| 0 <= i < t.len() && t[i] == ("album"@, a);
        assert(i < l1);
    }
}

fn push_extras(v: &mut Vec<(String, String)>, album: Option<&str>, album_artist: Option<&str>, track_number: Option<u32>, duration: Option<u32>)
    ensures
        params_view(final(v)@) == params_view(old(v)@) + track_extras(opt_str(album), opt_str(album_artist), track_number, duration),
{
    let ghost start = params_view(v@);
    if let Some(a) = album {
        v.push(pair("album", a));
    }
    let ghost s1 = params_view(v@);
    if let Some(a) = album_artist {
        v.push(pair("albumArtist", a));
    }
    let ghost s2 = params_view(v@);
    if let Some(n) = track_number {
        let t = u64_to_string(n as u64);
        v.push(pair("trackNumber", t.as_str()));
    }
    let ghost s3 = params_view(v@);
    if let Some(d) = duration {
        let t = u64_to_string(d as u64);
        v.push(pair("duration", t.as_str()));
    }
    proof {
        let e1 = match opt_str(album) { Some(a) => seq![("album"@, a)], None => Seq::empty() };
        let e2 = match opt_str(album_artist) { Some(a) => seq![("albumArtist"@, a)], None => Seq::empty() };
        let e3 = match track_number { Some(n) => seq![("trackNumber"@, dec(n as nat))], None => Seq::empty() };
        let e4 = match duration { Some(d) => seq![("duration"@, dec(d as nat))], None => Seq::empty() };
        assert(s1 =~= start + e1);
        assert(s2 =~= s1 + e2);
        assert(s3 =~= s2 + e3);
        assert(params_view(v@) =~= s3 + e4);
        assert(params_view(v@) =~= start + (e1 + e2 + e3 + e4));
    }
}

/// The parameters of a scrobble, or an error when no user is logged in.
pub fn scrobble_params(
    credentials: &LastfmCredentials,
    artist: &str,
    track: &str,
    album: Option<&str>,
    album_artist: Option<&str>,
    timestamp: u64,
    track_number: Option<u32>,
    duration: Option<u32>,
) -> (r: Result<Vec<(String, String)>, LastfmError>)
    ensures
        r is Ok <==> (credentials.session_key is Some && credentials.username is Some),
        r matches Err(e) ==> (e matches LastfmError::AuthError(m) && m@ == "Not authenticated with Last.fm"@),
        r matches Ok(v) ==> params_view(v@) == seq![("method"@, "track.scrobble"@), ("api_key"@, credentials.api_key@),
            ("sk"@, credentials.session_key->0@), ("artist"@, artist@), ("track"@, track@), ("timestamp"@, dec(timestamp as nat))]
            + track_extras(opt_str(album), opt_str(album_artist), track_number, duration),
{
    if !credentials.is_authenticated() {
        return Err(LastfmError::AuthError(owned("Not authenticated with Last.fm")));
    }
    let sk = match &credentials.session_key {
        Some(k) => k,
        None => return Err(LastfmError::AuthError(owned("Not authenticated with Last.fm"))),
    };
    let ts = u64_to_string(timestamp);
    let mut v = vec![
        pair("method", "track.scrobble"),
        pair("api_key", credentials.api_key.as_str()),
        pair("sk", sk.as_str()),
        pair("artist", artist),
        pair("track", track),
        pair("timestamp", ts.as_str()),
    ];
    assert(params_view(v@) =~= seq![("method"@, "track.scrobble"@), ("api_key"@, credentials.api_key@),
        ("sk"@, credentials.session_key->0@), ("artist"@, artist@), ("track"@, track@), ("timestamp"@, dec(timestamp as nat))]);
    push_extras(&mut v, album, album_artist, track_number, duration);
    Ok(v)
}

/// The parameters of a now-playing update, or an error when no user is
/// logged in.
pub fn now_playing_params(
    credentials: &LastfmCredentials,
    artist: &str,
    track: &str,
    album: Option<&str>,
    album_artist: Option<&str>,
    track_number: Option<u32>,
    duration: Option<u32>,
) -> (r: Result<Vec<(String, String)>, LastfmError>)
    ensures
        r is Ok <==> (credentials.session_key is Some && credentials.username is Some),
        r matches Err(e) ==> (e matches LastfmError::AuthError(m) && m@ == "Not authenticated with Last.fm"@),
        r matches Ok(v) ==> params_view(v@) == seq![("method"@, "track.updateNowPlaying"@), ("api_key"@, credentials.api_key@),
            ("sk"@, credentials.session_key->0@), ("artist"@, artist@), ("track"@, track@)]
            + track_extras(opt_str(album), opt_str(album_artist), track_number, duration),
{
    if !credentials.is_authenticated() {
        return Err(LastfmError::AuthError(owned("Not authenticated with Last.fm")));
    }
    let sk = match &credentials.session_key {
        Some(k) => k,
        None => return Err(LastfmError::AuthError(owned("Not authenticated with Last.fm"))),
    };
    let mut v = vec![
        pair("method", "track.updateNowPlaying"),
        pair("api_key", credentials.api_key.as_str()),
        pair("sk", sk.as_str()),
        pair("artist", artist),
        pair("track", track),
    ];
    assert(params_view(v@) =~= seq![("method"@, "track.updateNowPlaying"@), ("api_key"@, credentials.api_key@),
        ("sk"@, credentials.session_key->0@), ("artist"@, artist@), ("track"@, track@)]);
    push_extras(&mut v, album, album_artist, track_number, duration);
    Ok(v)
}

/// The error an answer carries: none unless it mentions `"error":`; then
/// the code and message it gives, or an unknown error quoting it.
pub open spec fn spec_answer_error(text: Seq<char>, parsed: Option<JsonValue>) -> Option<(Seq<char>, int)> {
    if !has_sub(text, "\"error\":"@) {
        None
    } else {
        match parsed {
            Some(v) => match (v.spec_get("error"@), v.spec_get("message"@)) {
                (Some(JsonValue::Number(crate::json::JsonNumber::PosInt(c))), Some(JsonValue::String(m))) => if c <= i64::MAX {
                    Some((m@, (c as i64) as i32 as int))
                } else {
                    Some(("Unknown API error: "@ + text, -1))
                },
                (Some(JsonValue::Number(crate::json::JsonNumber::NegInt(c))), Some(JsonValue::String(m))) => Some((m@, c as i32 as int)),
                _ => Some(("Unknown API error: "@ + text, -1)),
            },
            None => Some(("Unknown API error: "@ + text, -1)),
        }
    }
}

/// The error an answer carries, if it carries one. `parsed` is the answer
/// read as JSON, when it is JSON.
pub fn answer_error(text: &str, parsed: Option<&JsonValue>) -> (r: Option<LastfmError>)
    ensures
        r is None <==> spec_answer_error(text@, match parsed {
            Some(v) => Some(*v),
            None => None,
        }) is None,
        r matches Some(e) ==> (e matches LastfmError::ApiError(m, c) && spec_answer_error(text@, match parsed {
            Some(v) => Some(*v),
            None => None,
        }) == Some((m@, c as int))),
{
    if !contains_str(text, "\"error\":") {
        return None;
    }
    let unknown = LastfmError::ApiError(concat2("Unknown API error: ", text), -1);
    let v = match parsed {
        Some(v) => v,
        None => return Some(unknown),
    };
    match (v.get("error"), v.get("message")) {
        (Some(JsonValue::Number(crate::json::JsonNumber::PosInt(c))), Some(JsonValue::String(m))) => {
            if *c <= i64::MAX as u64 {
                let code: i64 = *c as i64;
                Some(LastfmError::ApiError(m.clone(), #[verifier::truncate] (code as i32)))
            } else {
                Some(unknown)
            }
        },
        (Some(JsonValue::Number(crate::json::JsonNumber::NegInt(c))), Some(JsonValue::String(m))) => {
            Some(LastfmError::ApiError(m.clone(), #[verifier::truncate] (*c as i32)))
        },
        _ => Some(unknown),
    }
}

/// The text under `key` in a JSON answer, when it is text.
pub open spec fn answer_text(answer: JsonValue, key: Seq<char>) -> Option<Seq<char>> {
    match answer.spec_get(key) {
        Some(v) => v.spec_as_str(),
        None => None,
    }
}

/// The token an `auth.getToken` answer carries.
pub fn token_from_answer(answer: &JsonValue) -> (r: Result<String, LastfmError>)
    ensures
        r is Ok <==> answer_text(*answer, "token"@) is Some,
        r matches Ok(t) ==> answer_text(*answer, "token"@) == Some(t@),
        r matches Err(e) ==> (e matches LastfmError::ParsingError(m) && m@ == "Failed to parse token response: no token"@),
{
    match answer.get("token") {
        Some(v) => match v.as_str() {
            Some(t) => Ok(t.clone()),
            None => Err(LastfmError::ParsingError(owned("Failed to parse token response: no token"))),
        },
        None => Err(LastfmError::ParsingError(owned("Failed to parse token response: no token"))),
    }
}

/// The session key and user name an `auth.getSession` answer carries under
/// `session`.
pub fn session_from_answer(answer: &JsonValue) -> (r: Result<(String, String), LastfmError>)
    ensures
        r is Ok <==> (answer.spec_get("session"@) matches Some(s) && answer_text(s, "key"@) is Some
            && answer_text(s, "name"@) is Some),
        r matches Ok((k, n)) ==> (answer.spec_get("session"@) matches Some(s) && answer_text(s, "key"@) == Some(k@)
            && answer_text(s, "name"@) == Some(n@)),
        r matches Err(e) ==> (e matches LastfmError::ParsingError(m)
            && m@ == "Failed to parse session response: incomplete session"@),
{
    let incomplete = LastfmError::ParsingError(owned("Failed to parse session response: incomplete session"));
    let session = match answer.get("session") {
        Some(s) => s,
        None => return Err(incomplete),
    };
    let key = match session.get("key") {
        Some(v) => match v.as_str() {
            Some(k) => k.clone(),
            None => return Err(incomplete),
        },
        None => return Err(incomplete),
    };
    let name = match session.get("name") {
        Some(v) => match v.as_str() {
            Some(n) => n.clone(),
            None => return Err(incomplete),
        },
        None => return Err(incomplete),
    };
    Ok((key, name))
}

/// The error an answer text carries, if it carries one, as
/// [`answer_error`] reads it together with the text's tree.
pub fn answer_error_in_text(text: &str) -> (r: Option<LastfmError>)
    ensures
        r is None <==> spec_answer_error(text@, tree_of_text(text@)) is None,
        r matches Some(e) ==> (e matches LastfmError::ApiError(m, c)
            && spec_answer_error(text@, tree_of_text(text@)) == Some((m@, c as int))),
{
    let parsed = read_json(text);
    answer_error(text, parsed.as_ref())
}

/// The token in a token answer's text: a text that does not read is a
/// parsing error naming the reader's complaint.
pub fn token_from_text(text: &str) -> (r: Result<String, LastfmError>)
    ensures
        match parsed_json(text@) {
            Ok(answer) => r is Ok <==> answer_text(answer, "token"@) is Some,
            Err(e) => r matches Err(LastfmError::ParsingError(m)) && m@ == "Failed to parse token response: "@ + e,
        },
        r matches Ok(t) ==> (parsed_json(text@) matches Ok(answer) && answer_text(answer, "token"@) == Some(t@)),
{
    match parse_json(text) {
        Ok(answer) => token_from_answer(&answer),
        Err(e) => Err(LastfmError::ParsingError(concat2("Failed to parse token response: ", e.as_str()))),
    }
}

/// The session key and user name in a session answer's text: a text that
/// does not read is a parsing error naming the reader's complaint.
pub fn session_from_text(text: &str) -> (r: Result<(String, String), LastfmError>)
    ensures
        match parsed_json(text@) {
            Ok(answer) => r is Ok <==> (answer.spec_get("session"@) matches Some(s) && answer_text(s, "key"@) is Some
                && answer_text(s, "name"@) is Some),
            Err(e) => r matches Err(LastfmError::ParsingError(m)) && m@ == "Failed to parse session response: "@ + e,
        },
        r matches Ok((k, n)) ==> (parsed_json(text@) matches Ok(answer) && answer.spec_get("session"@) matches Some(s)
            && answer_text(s, "key"@) == Some(k@) && answer_text(s, "name"@) == Some(n@)),
{
    match parse_json(text) {
        Ok(answer) => session_from_answer(&answer),
        Err(e) => Err(LastfmError::ParsingError(concat2("Failed to parse session response: ", e.as_str()))),
    }
}

} // verus!
