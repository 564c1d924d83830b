//! Consolidation and normalisation of genre tags: ignored genres are
//! dropped, mapped genres are renamed, and lists come back deduplicated and
//! sorted.

use vstd::prelude::*;
use crate::json::{get_service_config, parse_json, parsed_json, spec_service_config, JsonValue};
use crate::text::{owned, views, holds, insert_sorted_unique, spec_to_lowercase, str_eq, strictly_sorted,
    to_lowercase, trim, trim_str};

verus! {

/// Configuration for genre cleanup.
#[derive(Debug, Clone)]
pub struct GenreConfig {
    pub comment: Option<String>,
    /// Genres to drop, compared case-insensitively.
    pub ignore: Vec<String>,
    /// Genre renames, in configuration order; the key is compared
    /// case-insensitively, and where several keys match a genre the last
    /// of them wins (see [`mapped`]).
    pub mappings: Vec<(String, String)>,
}

/// Genre cleanup service that consolidates and normalizes genre tags.
pub struct GenreCleanup {
    ignore_set: Vec<String>,
    mapping_lowercase: Vec<(String, String)>,
    config: Ghost<GenreConfig>,
}

/// The lower-cased key is ignored by some entry of `ignore`.
pub open spec fn ignores(ignore: Seq<String>, lower: Seq<char>) -> bool {
    exists|i: int| 0 <= i < ignore.len() && spec_to_lowercase(#[trigger] ignore[i]@) == lower
}

/// What the mappings rename the lower-cased key to: the last mapping whose
/// lower-cased key matches.
pub open spec fn mapped(mappings: Seq<(String, String)>, lower: Seq<char>) -> Option<Seq<char>>
    decreases mappings.len(),
{
    if mappings.len() == 0 {
        None
    } else if spec_to_lowercase(mappings.last().0@) == lower {
        Some(mappings.last().1@)
    } else {
        mapped(mappings.drop_last(), lower)
    }
}

/// What cleanup makes of one genre under a configuration: `None` when it is
/// ignored, its mapping when it has one, and otherwise the genre trimmed.
pub open spec fn spec_clean_genre(config: GenreConfig, genre: Seq<char>) -> Option<Seq<char>> {
    let lower = spec_to_lowercase(trim(genre));
    if ignores(config.ignore@, lower) {
        None
    } else {
        match mapped(config.mappings@, lower) {
            Some(m) => Some(m),
            None => Some(trim(genre)),
        }
    }
}

/// `r` lists, sorted and without duplicates, exactly what `clean` makes of
/// the genres it keeps.
pub open spec fn cleaned_list(config: GenreConfig, genres: Seq<String>, r: Seq<String>) -> bool {
    &&& strictly_sorted(r)
    &&& forall|x: Seq<char>| #[trigger] holds(r, x) <==> exists|i: int|
        0 <= i < genres.len() && spec_clean_genre(config, #[trigger] genres[i]@) == Some(x)
}

impl GenreCleanup {
    /// The configuration this cleanup applies.
    pub closed spec fn config(&self) -> GenreConfig {
        self.config@
    }

    pub closed spec fn wf(&self) -> bool {
        &&& self.ignore_set@.len() == self.config().ignore@.len()
        &&& forall|i: int| 0 <= i < self.ignore_set@.len() ==> #[trigger] self.ignore_set@[i]@
            == spec_to_lowercase(self.config().ignore@[i]@)
        &&& self.mapping_lowercase@.len() == self.config().mappings@.len()
        &&& forall|i: int| 0 <= i < self.mapping_lowercase@.len() ==> {
            &&& #[trigger] self.mapping_lowercase@[i].0@ == spec_to_lowercase(self.config().mappings@[i].0@)
            &&& self.mapping_lowercase@[i].1@ == self.config().mappings@[i].1@
        }
    }
}


impl GenreCleanup {
    /// Create a cleanup from a configuration; case-insensitive lookups are
    /// prepared by lower-casing the ignore entries and the mapping keys.
    pub fn from_config(config: GenreConfig) -> (r: Result<GenreCleanup, String>)
        ensures
            r matches Ok(c) ==> c.wf() && c.config() == config,
            r is Ok,
    {
        let mut ignore_set: Vec<String> = Vec::new();
        let mut i: usize = 0;
        while i < config.ignore.len()
            invariant
                i <= config.ignore.len(),
                ignore_set@.len() == i,
                forall|k: int| 0 <= k < i ==> #[trigger] ignore_set@[k]@ == spec_to_lowercase(config.ignore@[k]@),
            decreases config.ignore.len() - i,
        {
            ignore_set.push(to_lowercase(config.ignore[i].as_str()));
            i = i + 1;
        }
        let mut mapping_lowercase: Vec<(String, String)> = Vec::new();
        let mut j: usize = 0;
        while j < config.mappings.len()
            invariant
                j <= config.mappings.len(),
                mapping_lowercase@.len() == j,
                forall|k: int| 0 <= k < j ==> {
                    &&& #[trigger] mapping_lowercase@[k].0@ == spec_to_lowercase(config.mappings@[k].0@)
                    &&& mapping_lowercase@[k].1@ == config.mappings@[k].1@
                },
            decreases config.mappings.len() - j,
        {
            let key = to_lowercase(config.mappings[j].0.as_str());
            let value = config.mappings[j].1.clone();
            mapping_lowercase.push((key, value));
            j = j + 1;
        }
        let ghost g = config;
        Ok(GenreCleanup { ignore_set, mapping_lowercase, config: Ghost(g) })
    }

    /// Clean up a single genre: `None` when it is ignored, its mapping when
    /// it has one, and otherwise the genre trimmed.
    pub fn clean_genre(&self, genre: &str) -> (r: Option<String>)
        requires
            self.wf(),
        ensures
            r matches Some(s) ==> spec_clean_genre(self.config(), genre@) == Some(s@),
            r is None <==> spec_clean_genre(self.config(), genre@) is None,
    {
        let trimmed = trim_str(genre);
        let lower = to_lowercase(trimmed.as_str());
        let ghost cfg = self.config();
        let mut i: usize = 0;
        while i < self.ignore_set.len()
            invariant
                self.wf(),
                cfg == self.config(),
                lower@ == spec_to_lowercase(trim(genre@)),
                i <= self.ignore_set.len(),
                forall|k: int| 0 <= k < i ==> spec_to_lowercase(#[trigger] cfg.ignore@[k]@) != lower@,
            decreases self.ignore_set.len() - i,
        {
            if str_eq(self.ignore_set[i].as_str(), lower.as_str()) {
                proof {
                    assert(spec_to_lowercase(cfg.ignore@[i as int]@) == lower@);
                }
                return None;
            }
            i = i + 1;
        }
        let mut j: usize = self.mapping_lowercase.len();
        proof {
            assert(cfg.mappings@.take(cfg.mappings@.len() as int) == cfg.mappings@);
        }
        while j > 0
            invariant
                self.wf(),
                cfg == self.config(),
                lower@ == spec_to_lowercase(trim(genre@)),
                j <= self.mapping_lowercase.len(),
                !ignores(cfg.ignore@, lower@),
                mapped(cfg.mappings@, lower@) == mapped(cfg.mappings@.take(j as int), lower@),
            decreases j,
        {
            proof {
                assert(cfg.mappings@.take(j as int).drop_last() == cfg.mappings@.take(j - 1));
                assert(cfg.mappings@.take(j as int).last() == cfg.mappings@[j - 1]);
            }
            if str_eq(self.mapping_lowercase[j - 1].0.as_str(), lower.as_str()) {
                return Some(self.mapping_lowercase[j - 1].1.clone());
            }
            j = j - 1;
        }
        proof {
            assert(cfg.mappings@.take(cfg.mappings@.len() as int) == cfg.mappings@);
        }
        Some(trimmed)
    }

    /// Clean up a list of genres: apply the cleanup to each, drop duplicates
    /// and sort.
    pub fn clean_genres(&self, genres: Vec<String>) -> (r: Vec<String>)
        requires
            self.wf(),
        ensures
            cleaned_list(self.config(), genres@, r@),
    {
        let mut result: Vec<String> = Vec::new();
        let mut i: usize = 0;
        while i < genres.len()
            invariant
                self.wf(),
                i <= genres.len(),
                strictly_sorted(result@),
                forall|x: Seq<char>| #[trigger] holds(result@, x) <==> exists|k: int|
                    0 <= k < i && spec_clean_genre(self.config(), #[trigger] genres@[k]@) == Some(x),
            decreases genres.len() - i,
        {
            let ghost before = result@;
            match self.clean_genre(genres[i].as_str()) {
                Some(cleaned) => {
                    insert_sorted_unique(&mut result, cleaned);
                },
                None => {},
            }
            proof {
                assert forall|x: Seq<char>| #[trigger] holds(result@, x) <==> exists|k: int|
                    0 <= k < i + 1 && spec_clean_genre(self.config(), #[trigger] genres@[k]@) == Some(x) by {
                    if spec_clean_genre(self.config(), genres@[i as int]@) == Some(x) {
                        assert(holds(result@, x));
                    }
                    if exists|k: int| 0 <= k < i + 1 && spec_clean_genre(self.config(), #[trigger] genres@[k]@) == Some(x) {
                        let k = choose|k: int| 0 <= k < i + 1 && spec_clean_genre(self.config(), #[trigger] genres@[k]@) == Some(x);
                        if k < i {
                            assert(holds(before, x));
                        }
                    }
                }
            }
            i = i + 1;
        }
        result
    }

    /// Clean up genres from a slice of strings.
    pub fn clean_genres_slice(&self, genres: &[String]) -> (r: Vec<String>)
        requires
            self.wf(),
        ensures
            cleaned_list(self.config(), genres@, r@),
    {
        let mut v: Vec<String> = Vec::new();
        let mut i: usize = 0;
        while i < genres.len()
            invariant
                i <= genres.len(),
                v@ == genres@.take(i as int),
            decreases genres.len() - i,
        {
            v.push(genres[i].clone());
            i = i + 1;
            assert(v@ == genres@.take(i as int));
        }
        assert(genres@.take(genres@.len() as int) == genres@);
        self.clean_genres(v)
    }
}

/// `r` lists, sorted and without duplicates, the genres themselves.
pub open spec fn deduplicated_list(genres: Seq<String>, r: Seq<String>) -> bool {
    &&& strictly_sorted(r)
    &&& forall|x: Seq<char>| #[trigger] holds(r, x) <==> holds(genres, x)
}

/// Clean up genres with the active cleanup, if there is one; without one,
/// the genres are only deduplicated and sorted.
pub fn clean_genres_global(active: Option<&GenreCleanup>, genres: Vec<String>) -> (r: Vec<String>)
    requires
        active matches Some(c) ==> c.wf(),
    ensures
        active matches Some(c) ==> cleaned_list(c.config(), genres@, r@),
        active is None ==> deduplicated_list(genres@, r@),
{
    match active {
        Some(cleanup) => cleanup.clean_genres(genres),
        None => {
            let mut result: Vec<String> = Vec::new();
            let mut i: usize = 0;
            while i < genres.len()
                invariant
                    i <= genres.len(),
                    strictly_sorted(result@),
                    forall|x: Seq<char>| #[trigger] holds(result@, x) <==> holds(genres@.take(i as int), x),
                decreases genres.len() - i,
            {
                let ghost before = result@;
                insert_sorted_unique(&mut result, genres[i].clone());
                proof {
                    assert forall|x: Seq<char>| #[trigger] holds(result@, x) <==> holds(genres@.take(i + 1), x) by {
                        if holds(genres@.take(i + 1), x) {
                            let k = choose|k: int| 0 <= k < i + 1 && #[trigger] genres@.take(i + 1)[k]@ == x;
                            if k < i {
                                assert(genres@.take(i as int)[k]@ == x);
                            }
                        }
                        if holds(genres@.take(i as int), x) {
                            let k = choose|k: int| 0 <= k < i && #[trigger] genres@.take(i as int)[k]@ == x;
                            assert(genres@.take(i + 1)[k]@ == x);
                        }
                        if x == genres@[i as int]@ {
                            assert(genres@.take(i + 1)[i as int]@ == x);
                        }
                    }
                }
                i = i + 1;
            }
            assert(genres@.take(genres@.len() as int) == genres@);
            result
        },
    }
}

/// Clean up a single genre with the active cleanup, if there is one;
/// without one, the genre is only trimmed.
pub fn clean_genre_global(active: Option<&GenreCleanup>, genre: &str) -> (r: Option<String>)
    requires
        active matches Some(c) ==> c.wf(),
    ensures
        active matches Some(c) ==> (r matches Some(s) ==> spec_clean_genre(c.config(), genre@) == Some(s@))
            && (r is None <==> spec_clean_genre(c.config(), genre@) is None),
        active is None ==> (r matches Some(s) && s@ == trim(genre@)),
{
    match active {
        Some(cleanup) => cleanup.clean_genre(genre),
        None => Some(trim_str(genre)),
    }
}

// ---------------------------------------------------------------------------
// Reading the configuration
// ---------------------------------------------------------------------------

/// The genre configuration file used when the configuration names none that
/// exists.
pub open spec fn spec_default_genre_config_path() -> Seq<char> {
    "/etc/audiocontrol/genres.json"@
}

/// The genre configuration files to try, in order: the one
/// `services.genre_cleanup.config_path` names, when it names one, then the
/// default.
pub fn genre_config_candidates(config: Option<&JsonValue>) -> (r: Vec<String>)
    ensures
        views(r@) == (match config {
            Some(c) => match spec_service_config(*c, "genre_cleanup"@) {
                Some(g) => match g.spec_get("config_path"@) {
                    Some(p) => match p.spec_as_str() {
                        Some(path) => seq![path],
                        None => Seq::empty(),
                    },
                    None => Seq::empty(),
                },
                None => Seq::empty(),
            },
            None => Seq::empty(),
        }) + seq![spec_default_genre_config_path()],
{
    let mut r: Vec<String> = Vec::new();
    if let Some(c) = config {
        if let Some(g) = get_service_config(c, "genre_cleanup") {
            if let Some(p) = g.get("config_path") {
                if let Some(path) = p.as_str() {
                    r.push(path.clone());
                }
            }
        }
    }
    let ghost before = views(r@);
    r.push(owned("/etc/audiocontrol/genres.json"));
    assert(views(r@) =~= before.push(spec_default_genre_config_path()));
    r
}

/// The texts of a list whose items are all strings.
pub open spec fn string_items(items: Seq<JsonValue>) -> Option<Seq<Seq<char>>>
    decreases items.len(),
{
    if items.len() == 0 {
        Some(Seq::empty())
    } else {
        match (string_items(items.drop_last()), items.last().spec_as_str()) {
            (Some(rest), Some(t)) => Some(rest.push(t)),
            _ => None,
        }
    }
}

/// The pairs of an object whose values are all strings.
pub open spec fn string_pairs(members: Seq<(String, JsonValue)>) -> Option<Seq<(Seq<char>, Seq<char>)>>
    decreases members.len(),
{
    if members.len() == 0 {
        Some(Seq::empty())
    } else {
        match (string_pairs(members.drop_last()), members.last().1.spec_as_str()) {
            (Some(rest), Some(t)) => Some(rest.push((members.last().0@, t))),
            _ => None,
        }
    }
}

/// A configuration as plain values: `(comment, ignore, mappings)`.
pub open spec fn config_view(c: GenreConfig) -> (Option<Seq<char>>, Seq<Seq<char>>, Seq<(Seq<char>, Seq<char>)>) {
    (match c.comment {
        Some(t) => Some(t@),
        None => None,
    }, views(c.ignore@), c.mappings@.map_values(|p: (String, String)| (p.0@, p.1@)))
}

/// The configuration a JSON document describes: an object with an
/// `_ignore` list of strings, a `mappings` object of strings and an
/// optional `_comment` string (null counting as absent); `None` for any
/// other document.
pub open spec fn spec_genre_config(v: JsonValue) -> Option<(Option<Seq<char>>, Seq<Seq<char>>, Seq<(Seq<char>, Seq<char>)>)> {
    let comment = match v.spec_get("_comment"@) {
        None => Some(None::<Seq<char>>),
        Some(JsonValue::Null) => Some(None::<Seq<char>>),
        Some(JsonValue::String(t)) => Some(Some(t@)),
        Some(_) => None,
    };
    let ignore = match v.spec_get("_ignore"@) {
        Some(JsonValue::Array(items)) => string_items(items@),
        _ => None,
    };
    let mappings = match v.spec_get("mappings"@) {
        Some(JsonValue::Object(ms)) => string_pairs(ms@),
        _ => None,
    };
    match (v, comment, ignore, mappings) {
        (JsonValue::Object(_), Some(c), Some(i), Some(m)) => Some((c, i, m)),
        _ => None,
    }
}

fn read_string_items(items: &Vec<JsonValue>) -> (r: Option<Vec<String>>)
    ensures
        r is None <==> string_items(items@) is None,
        r matches Some(v) ==> string_items(items@) == Some(views(v@)),
{
    let mut out: Vec<String> = Vec::new();
    let mut i: usize = 0;
    while i < items.len()
        invariant
            i <= items.len(),
            string_items(items@.take(i as int)) == Some(views(out@)),
        decreases items.len() - i,
    {
        assert(items@.take(i + 1).drop_last() =~= items@.take(i as int));
        assert(items@.take(i + 1).last() == items@[i as int]);
        match items[i].as_str() {
            Some(t) => {
                let ghost before = views(out@);
                out.push(t.clone());
                assert(views(out@) =~= before.push(t@));
            },
            None => {
                proof {
                    lemma_string_items_prefix(items@, i as int + 1);
                }
                return None;
            },
        }
        i = i + 1;
    }
    assert(items@.take(items@.len() as int) =~= items@);
    Some(out)
}

proof fn lemma_string_items_prefix(items: Seq<JsonValue>, m: int)
    requires
        0 <= m <= items.len(),
        string_items(items.take(m)) is None,
    ensures
        string_items(items) is None,
    decreases items.len() - m,
{
    if m < items.len() {
        assert(items.take(m + 1).drop_last() =~= items.take(m));
        lemma_string_items_prefix(items, m + 1);
    } else {
        assert(items.take(m) =~= items);
    }
}

proof fn lemma_string_pairs_prefix(members: Seq<(String, JsonValue)>, m: int)
    requires
        0 <= m <= members.len(),
        string_pairs(members.take(m)) is None,
    ensures
        string_pairs(members) is None,
    decreases members.len() - m,
{
    if m < members.len() {
        assert(members.take(m + 1).drop_last() =~= members.take(m));
        lemma_string_pairs_prefix(members, m + 1);
    } else {
        assert(members.take(m) =~= members);
    }
}

fn read_string_pairs(members: &Vec<(String, JsonValue)>) -> (r: Option<Vec<(String, String)>>)
    ensures
        r is None <==> string_pairs(members@) is None,
        r matches Some(v) ==> string_pairs(members@) == Some(v@.map_values(|p: (String, String)| (p.0@, p.1@))),
{
    let mut out: Vec<(String, String)> = Vec::new();
    let mut i: usize = 0;
    while i < members.len()
        invariant
            i <= members.len(),
            string_pairs(members@.take(i as int)) == Some(out@.map_values(|p: (String, String)| (p.0@, p.1@))),
        decreases members.len() - i,
    {
        assert(members@.take(i + 1).drop_last() =~= members@.take(i as int));
        assert(members@.take(i + 1).last() == members@[i as int]);
        match members[i].1.as_str() {
            Some(t) => {
                let ghost before = out@.map_values(|p: (String, String)| (p.0@, p.1@));
                out.push((members[i].0.clone(), t.clone()));
                assert(out@.map_values(|p: (String, String)| (p.0@, p.1@)) =~= before.push((members@[i as int].0@, t@)));
            },
            None => {
                proof {
                    lemma_string_pairs_prefix(members@, i as int + 1);
                }
                return None;
            },
        }
        i = i + 1;
    }
    assert(members@.take(members@.len() as int) =~= members@);
    Some(out)
}

/// Read a genre configuration from its JSON document, or say why it is not
/// one.
pub fn genre_config_from_json(v: &JsonValue) -> (r: Result<GenreConfig, String>)
    ensures
        r is Ok <==> spec_genre_config(*v) is Some,
        r matches Ok(c) ==> spec_genre_config(*v) == Some(config_view(c)),
        r matches Err(m) ==> m@ == "Failed to parse genre config JSON"@,
{
    let fail = owned("Failed to parse genre config JSON");
    if !v.is_object() {
        return Err(fail);
    }
    let comment = match v.get("_comment") {
        None => None,
        Some(JsonValue::Null) => None,
        Some(JsonValue::String(t)) => Some(t.clone()),
        Some(_) => return Err(fail),
    };
    let ignore = match v.get("_ignore") {
        Some(JsonValue::Array(items)) => match read_string_items(items) {
            Some(i) => i,
            None => return Err(fail),
        },
        _ => return Err(fail),
    };
    let mappings = match v.get("mappings") {
        Some(JsonValue::Object(ms)) => match read_string_pairs(ms) {
            Some(m) => m,
            None => return Err(fail),
        },
        _ => return Err(fail),
    };
    Ok(GenreConfig { comment, ignore, mappings })
}

/// The genre configuration in a configuration file's text: a text that does
/// not read is an error naming the reader's complaint.
pub fn genre_config_from_text(text: &str) -> (r: Result<GenreConfig, String>)
    ensures
        match parsed_json(text@) {
            Ok(v) => (r is Ok <==> spec_genre_config(v) is Some)
                && (r matches Ok(c) ==> spec_genre_config(v) == Some(config_view(c)))
                && (r matches Err(m) ==> m@ == "Failed to parse genre config JSON"@),
            Err(e) => r matches Err(m) && m@ == "Failed to parse genre config JSON: "@ + e,
        },
{
    match parse_json(text) {
        Ok(v) => genre_config_from_json(&v),
        Err(e) => Err(crate::text::concat2("Failed to parse genre config JSON: ", e.as_str())),
    }
}

} // verus!
