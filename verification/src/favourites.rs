//! Favourite songs across several providers.
//!
//! A song is a favourite when any enabled provider says so; marking or
//! unmarking one goes to every enabled provider, and fails only when every
//! provider that was asked failed.

use vstd::prelude::*;
use std::sync::Arc;
use crate::text::{concat2, is_blank, owned, push_str, trim, views};

verus! {

/// The parts of a song the favourite providers are keyed by.
#[derive(Debug, Clone)]
pub struct Song {
    pub title: Option<String>,
    pub artist: Option<String>,
}

/// Error types for favourite operations.
#[derive(Debug, Clone)]
pub enum FavouriteError {
    /// Network-related error (for remote providers).
    NetworkError(String),
    /// Database or storage error (for local providers).
    StorageError(String),
    /// Authentication error.
    AuthError(String),
    /// Provider not configured or disabled.
    NotConfigured(String),
    /// Invalid song data (missing artist or title).
    InvalidSong(String),
    /// Anything else.
    Other(String),
}

/// The text an error is shown as.
pub open spec fn error_text(e: FavouriteError) -> Seq<char> {
    match e {
        FavouriteError::NetworkError(m) => "Network error: "@ + m@,
        FavouriteError::StorageError(m) => "Storage error: "@ + m@,
        FavouriteError::AuthError(m) => "Authentication error: "@ + m@,
        FavouriteError::NotConfigured(m) => "Not configured: "@ + m@,
        FavouriteError::InvalidSong(m) => "Invalid song: "@ + m@,
        FavouriteError::Other(m) => "Error: "@ + m@,
    }
}

impl FavouriteError {
    /// The text the error is shown as.
    pub fn message(&self) -> (r: String)
        ensures
            r@ == error_text(*self),
    {
        match self {
            FavouriteError::NetworkError(m) => concat2("Network error: ", m.as_str()),
            FavouriteError::StorageError(m) => concat2("Storage error: ", m.as_str()),
            FavouriteError::AuthError(m) => concat2("Authentication error: ", m.as_str()),
            FavouriteError::NotConfigured(m) => concat2("Not configured: ", m.as_str()),
            FavouriteError::InvalidSong(m) => concat2("Invalid song: ", m.as_str()),
            FavouriteError::Other(m) => concat2("Error: ", m.as_str()),
        }
    }
}

/// A service that can keep favourite songs.
///
/// What a provider answers is its own, so the manager's contracts speak of
/// the answers through the relations below: each holds of an answer the
/// provider may give to that call. A provider that refines none may give
/// any answer; the contracts still fix what the manager asks and what it
/// makes of the answers.
pub trait FavouriteProvider: Send + Sync {
    open spec fn favourite_answer(&self, song: Song, r: Result<bool, FavouriteError>) -> bool {
        true
    }

    open spec fn change_answer(&self, song: Song, add: bool, r: Result<(), FavouriteError>) -> bool {
        true
    }

    open spec fn enabled_answer(&self, r: bool) -> bool {
        true
    }

    open spec fn name_answer(&self, r: Seq<char>) -> bool {
        true
    }

    open spec fn display_answer(&self, r: Seq<char>) -> bool {
        true
    }

    /// Whether a song is marked as favourite.
    fn is_favourite(&self, song: &Song) -> (r: Result<bool, FavouriteError>)
        ensures
            self.favourite_answer(*song, r),
    ;

    /// Mark a song as favourite.
    fn add_favourite(&self, song: &Song) -> (r: Result<(), FavouriteError>)
        ensures
            self.change_answer(*song, true, r),
    ;

    /// Unmark a song.
    fn remove_favourite(&self, song: &Song) -> (r: Result<(), FavouriteError>)
        ensures
            self.change_answer(*song, false, r),
    ;

    /// How many favourites there are, when the provider can count them.
    fn get_favourite_count(&self) -> Option<usize>;

    /// The provider's identifier.
    fn provider_name(&self) -> (r: &'static str)
        ensures
            self.name_answer(r@),
    ;

    /// The provider's human-readable name.
    fn display_name(&self) -> (r: &'static str)
        ensures
            self.display_answer(r@),
    ;

    /// Whether the provider is configured and enabled.
    fn is_enabled(&self) -> (r: bool)
        ensures
            self.enabled_answer(r),
    ;

    /// Whether the provider is active (for example, a user is logged in).
    fn is_active(&self) -> bool;
}

/// The elements of `xs` whose flag in `keep` is set, in order.
pub open spec fn picked<T>(xs: Seq<T>, keep: Seq<bool>) -> Seq<T>
    decreases xs.len(),
{
    if xs.len() == 0 || keep.len() != xs.len() {
        Seq::empty()
    } else if keep.last() {
        picked(xs.drop_last(), keep.drop_last()).push(xs.last())
    } else {
        picked(xs.drop_last(), keep.drop_last())
    }
}

proof fn lemma_picked_push<T>(xs: Seq<T>, keep: Seq<bool>, x: T, b: bool)
    requires
        xs.len() == keep.len(),
    ensures
        picked(xs.push(x), keep.push(b)) == if b {
            picked(xs, keep).push(x)
        } else {
            picked(xs, keep)
        },
{
    assert(xs.push(x).drop_last() =~= xs);
    assert(keep.push(b).drop_last() =~= keep);
}

/// The provider is enabled and has the song.
pub open spec fn says_yes(p: Arc<Box<dyn FavouriteProvider>>, song: Song) -> bool {
    p.enabled_answer(true) && p.favourite_answer(song, Ok(true))
}

/// The provider is disabled, or answered anything but that it has the song.
pub open spec fn says_no(p: Arc<Box<dyn FavouriteProvider>>, song: Song) -> bool {
    ||| p.enabled_answer(false)
    ||| exists|a: Result<bool, FavouriteError>| #[trigger] p.favourite_answer(song, a) && !(a matches Ok(true))
}

/// What one provider said about a song, and the name it is shown under
/// when it has it.
pub open spec fn named(p: Arc<Box<dyn FavouriteProvider>>, song: Song, has: bool, name: Seq<char>) -> bool {
    if has {
        says_yes(p, song) && p.display_answer(name)
    } else {
        says_no(p, song)
    }
}

/// What every provider said about a song, in order.
pub open spec fn all_named(
    ps: Seq<Arc<Box<dyn FavouriteProvider>>>,
    song: Song,
    has: Seq<bool>,
    names: Seq<Seq<char>>,
) -> bool {
    &&& has.len() == ps.len()
    &&& names.len() == ps.len()
    &&& forall|k: int| 0 <= k < ps.len() ==> named(#[trigger] ps[k], song, has[k], names[k])
}

/// What a change answered, as the manager reports it.
pub open spec fn change_text(res: Result<(), FavouriteError>) -> Option<Seq<char>> {
    match res {
        Ok(()) => None,
        Err(e) => Some(error_text(e)),
    }
}

/// What one provider did with a change: a disabled one is not asked; an
/// enabled one reports its name and what the change answered.
pub open spec fn changed(
    p: Arc<Box<dyn FavouriteProvider>>,
    song: Song,
    add: bool,
    asked: bool,
    outcome: (Seq<char>, Option<Seq<char>>),
) -> bool {
    if asked {
        &&& p.enabled_answer(true)
        &&& p.name_answer(outcome.0)
        &&& exists|res: Result<(), FavouriteError>| #[trigger] p.change_answer(song, add, res) && outcome.1 == change_text(res)
    } else {
        p.enabled_answer(false)
    }
}

/// What every provider did with a change, in order.
pub open spec fn all_changed(
    ps: Seq<Arc<Box<dyn FavouriteProvider>>>,
    song: Song,
    add: bool,
    asked: Seq<bool>,
    outcomes: Seq<(Seq<char>, Option<Seq<char>>)>,
) -> bool {
    &&& asked.len() == ps.len()
    &&& outcomes.len() == ps.len()
    &&& forall|k: int| 0 <= k < ps.len() ==> changed(#[trigger] ps[k], song, add, asked[k], outcomes[k])
}

/// Why a song cannot be a favourite, if it cannot: it needs an artist and a
/// title, neither blank.
pub open spec fn song_problem(song: Song) -> Option<Seq<char>> {
    match song.artist {
        None => Some("Artist is required"@),
        Some(artist) => match song.title {
            None => Some("Title is required"@),
            Some(title) => if trim(artist@).len() == 0 {
                Some("Artist cannot be empty"@)
            } else if trim(title@).len() == 0 {
                Some("Title cannot be empty"@)
            } else {
                None
            },
        },
    }
}

/// Check that a song has an artist and a title, neither blank.
pub fn validate_song(song: &Song) -> (r: Result<(), FavouriteError>)
    ensures
        r is Ok <==> song_problem(*song) is None,
        r matches Err(e) ==> (e matches FavouriteError::InvalidSong(m) && song_problem(*song) == Some(m@)),
{
    let artist = match &song.artist {
        Some(a) => a,
        None => return Err(FavouriteError::InvalidSong(owned("Artist is required"))),
    };
    let title = match &song.title {
        Some(t) => t,
        None => return Err(FavouriteError::InvalidSong(owned("Title is required"))),
    };
    if is_blank(artist.as_str()) {
        return Err(FavouriteError::InvalidSong(owned("Artist cannot be empty")));
    }
    if is_blank(title.as_str()) {
        return Err(FavouriteError::InvalidSong(owned("Title cannot be empty")));
    }
    Ok(())
}

/// What one provider said about a change: its name, and the error text when
/// it failed.
pub open spec fn outcome_view(o: (String, Option<String>)) -> (Seq<char>, Option<Seq<char>>) {
    (o.0@, match o.1 {
        Some(e) => Some(e@),
        None => None,
    })
}

/// The providers that succeeded, in order.
pub open spec fn succeeded(outcomes: Seq<(Seq<char>, Option<Seq<char>>)>) -> Seq<Seq<char>>
    decreases outcomes.len(),
{
    if outcomes.len() == 0 {
        Seq::empty()
    } else if outcomes.last().1 is None {
        succeeded(outcomes.drop_last()).push(outcomes.last().0)
    } else {
        succeeded(outcomes.drop_last())
    }
}

/// The failures as `name: error`, joined by `, `, in order.
pub open spec fn failure_list(outcomes: Seq<(Seq<char>, Option<Seq<char>>)>) -> Seq<char>
    decreases outcomes.len(),
{
    if outcomes.len() == 0 {
        Seq::empty()
    } else {
        let rest = failure_list(outcomes.drop_last());
        match outcomes.last().1 {
            None => rest,
            Some(e) => {
                let item = outcomes.last().0 + ": "@ + e;
                if !has_failure(outcomes.drop_last()) {
                    item
                } else {
                    rest + ", "@ + item
                }
            },
        }
    }
}

/// Some provider failed.
pub open spec fn has_failure(outcomes: Seq<(Seq<char>, Option<Seq<char>>)>) -> bool {
    exists|i: int| 0 <= i < outcomes.len() && #[trigger] outcomes[i].1 is Some
}

/// What a change comes to, given what each asked provider said.
pub open spec fn merged(os: Seq<(Seq<char>, Option<Seq<char>>)>, verb: Seq<char>, r: Result<Vec<String>, FavouriteError>) -> bool {
    &&& (r is Err <==> (succeeded(os).len() == 0 && has_failure(os)))
    &&& (r matches Ok(v) ==> views(v@) == succeeded(os))
    &&& (r matches Err(e) ==> (e matches FavouriteError::Other(m)
        && m@ == "Failed to "@ + verb + " favourite in all providers: "@ + failure_list(os)))
}

/// What a change to every enabled provider comes to: the providers that
/// succeeded; or, when none did and some failed, an error listing the
/// failures after `Failed to {verb} favourite in all providers: `.
pub fn merge_outcomes(outcomes: &Vec<(String, Option<String>)>, verb: &str) -> (r: Result<Vec<String>, FavouriteError>)
    ensures
        merged(outcomes@.map_values(|o: (String, Option<String>)| outcome_view(o)), verb@, r),
{
    let ghost os = outcomes@.map_values(|o: (String, Option<String>)| outcome_view(o));
    let mut ok: Vec<String> = Vec::new();
    let mut errors = String::new();
    let mut any_error = false;
    let mut i: usize = 0;
    while i < outcomes.len()
        invariant
            i <= outcomes.len(),
            os == outcomes@.map_values(|o: (String, Option<String>)| outcome_view(o)),
            views(ok@) == succeeded(os.take(i as int)),
            errors@ == failure_list(os.take(i as int)),
            any_error == has_failure(os.take(i as int)),
        decreases outcomes.len() - i,
    {
        let ghost prefix = os.take(i as int);
        let ghost next = os.take(i + 1);
        assert(next.drop_last() =~= prefix);
        assert(next.last() == outcome_view(outcomes@[i as int]));
        match &outcomes[i].1 {
            None => {
                let ghost before = views(ok@);
                ok.push(outcomes[i].0.clone());
                assert(views(ok@) =~= before.push(outcomes@[i as int].0@));
                proof {
                    if has_failure(next) {
                        let k = choose|k: int| 0 <= k < next.len() && #[trigger] next[k].1 is Some;
                        assert(k != i);
                        assert(prefix[k] == next[k]);
                    }
                }
            },
            Some(e) => {
                let ghost before = errors@;
                proof {
                    if !any_error {
                        lemma_no_failure_no_list(prefix);
                    }
                }
                if any_error {
                    push_str(&mut errors, ", ");
                }
                push_str(&mut errors, outcomes[i].0.as_str());
                push_str(&mut errors, ": ");
                push_str(&mut errors, e.as_str());
                proof {
                    let item = outcomes@[i as int].0@ + ": "@ + e@;
                    assert(next.last().1 == Some(e@));
                    assert(next.last().0 == outcomes@[i as int].0@);
                    if any_error {
                        assert(errors@ =~= before + ", "@ + item);
                    } else {
                        assert(errors@ =~= item);
                    }
                    assert(next[i as int].1 is Some);
                    if has_failure(prefix) {
                        let k = choose|k: int| 0 <= k < prefix.len() && #[trigger] prefix[k].1 is Some;
                        assert(next[k] == prefix[k]);
                    }
                }
                any_error = true;
            },
        }
        i = i + 1;
    }
    assert(os.take(os.len() as int) =~= os);
    if ok.len() == 0 && any_error {
        let mut m = owned("Failed to ");
        push_str(&mut m, verb);
        push_str(&mut m, " favourite in all providers: ");
        push_str(&mut m, errors.as_str());
        return Err(FavouriteError::Other(m));
    }
    Ok(ok)
}

/// One provider, as plain values.
#[derive(Debug, Clone)]
pub struct ProviderDetails {
    pub name: String,
    pub display_name: String,
    pub enabled: bool,
    pub active: bool,
    pub favourite_count: Option<usize>,
}

/// Favourites across every registered provider, in registration order.
pub struct FavouriteManager {
    providers: Vec<Arc<Box<dyn FavouriteProvider>>>,
}

impl FavouriteManager {
    /// How many providers are registered.
    pub closed spec fn spec_count(&self) -> nat {
        self.providers@.len()
    }

    /// The registered providers, in order.
    pub closed spec fn spec_providers(&self) -> Seq<Arc<Box<dyn FavouriteProvider>>> {
        self.providers@
    }

    /// A manager with no providers.
    pub fn new() -> (r: FavouriteManager)
        ensures
            r.spec_count() == 0,
    {
        FavouriteManager { providers: Vec::new() }
    }

    /// Register a provider after the others.
    pub fn add_provider(&mut self, provider: Box<dyn FavouriteProvider>)
        ensures
            final(self).spec_count() == old(self).spec_count() + 1,
    {
        self.providers.push(Arc::new(provider));
    }

    /// Remove every provider.
    pub fn clear_providers(&mut self)
        ensures
            final(self).spec_count() == 0,
    {
        self.providers.clear();
    }

    /// Whether any enabled provider has the song as a favourite; a provider
    /// that fails to answer counts as not having it. The providers are
    /// asked in order, and no further once one has the song.
    pub fn is_favourite(&self, song: &Song) -> (r: Result<bool, FavouriteError>)
        ensures
            r is Err <==> song_problem(*song) is Some,
            r matches Err(e) ==> (e matches FavouriteError::InvalidSong(m) && song_problem(*song) == Some(m@)),
            r matches Ok(true) ==> exists|k: int| 0 <= k < self.spec_count()
                && #[trigger] says_yes(self.spec_providers()[k], *song)
                && forall|j: int| 0 <= j < k ==> #[trigger] says_no(self.spec_providers()[j], *song),
            r matches Ok(false) ==> forall|k: int| 0 <= k < self.spec_count() ==> #[trigger] says_no(self.spec_providers()[k], *song),
    {
        match validate_song(song) {
            Ok(()) => {},
            Err(e) => return Err(e),
        }
        let mut i: usize = 0;
        while i < self.providers.len()
            invariant
                i <= self.providers.len(),
                song_problem(*song) is None,
                forall|j: int| 0 <= j < i ==> #[trigger] says_no(self.providers@[j], *song),
            decreases self.providers.len() - i,
        {
            let provider = &self.providers[i];
            let enabled = provider.is_enabled();
            assert(self.providers@[i as int].enabled_answer(enabled));
            if enabled {
                let a = provider.is_favourite(song);
                assert(self.providers@[i as int].favourite_answer(*song, a));
                match a {
                    Ok(true) => {
                        assert(says_yes(self.spec_providers()[i as int], *song));
                        return Ok(true);
                    },
                    _ => {},
                }
            }
            assert(says_no(self.providers@[i as int], *song));
            i = i + 1;
        }
        Ok(false)
    }

    /// Whether the song is a favourite, and the display names of the enabled
    /// providers that have it, in order.
    pub fn get_favourite_providers_display_names(&self, song: &Song) -> (r: Result<(bool, Vec<String>), FavouriteError>)
        ensures
            r is Err <==> song_problem(*song) is Some,
            r matches Err(e) ==> (e matches FavouriteError::InvalidSong(m) && song_problem(*song) == Some(m@)),
            r matches Ok((fav, names)) ==> fav == (names@.len() > 0),
            r matches Ok((fav, names)) ==> exists|has: Seq<bool>, shown: Seq<Seq<char>>|
                #[trigger] all_named(self.spec_providers(), *song, has, shown) && views(names@) == picked(shown, has),
    {
        match validate_song(song) {
            Ok(()) => {},
            Err(e) => return Err(e),
        }
        let mut names: Vec<String> = Vec::new();
        let ghost mut has: Seq<bool> = Seq::empty();
        let ghost mut shown: Seq<Seq<char>> = Seq::empty();
        let mut i: usize = 0;
        while i < self.providers.len()
            invariant
                i <= self.providers.len(),
                has.len() == i,
                shown.len() == i,
                forall|k: int| 0 <= k < i ==> named(#[trigger] self.providers@[k], *song, has[k], shown[k]),
                views(names@) == picked(shown, has),
            decreases self.providers.len() - i,
        {
            let provider = &self.providers[i];
            let enabled = provider.is_enabled();
            assert(self.providers@[i as int].enabled_answer(enabled));
            let mut yes = false;
            let mut shown_as = String::new();
            if enabled {
                let a = provider.is_favourite(song);
                assert(self.providers@[i as int].favourite_answer(*song, a));
                match a {
                    Ok(true) => {
                        yes = true;
                        let d = provider.display_name();
                        assert(self.providers@[i as int].display_answer(d@));
                        shown_as = owned(d);
                    },
                    _ => {},
                }
            }
            proof {
                assert(named(self.providers@[i as int], *song, yes, shown_as@));
                lemma_picked_push(shown, has, shown_as@, yes);
            }
            let ghost before = views(names@);
            if yes {
                names.push(shown_as);
                assert(views(names@) =~= before.push(shown_as@));
            }
            proof {
                has = has.push(yes);
                shown = shown.push(shown_as@);
            }
            i = i + 1;
        }
        assert(all_named(self.spec_providers(), *song, has, shown));
        let fav = names.len() > 0;
        Ok((fav, names))
    }

    /// Mark or unmark a song in every enabled provider, collecting what each
    /// said.
    fn change_everywhere(&self, song: &Song, add: bool) -> (r: Vec<(String, Option<String>)>)
        ensures
            exists|asked: Seq<bool>, all: Seq<(Seq<char>, Option<Seq<char>>)>|
                #[trigger] all_changed(self.spec_providers(), *song, add, asked, all)
                && r@.map_values(|o: (String, Option<String>)| outcome_view(o)) == picked(all, asked),
    {
        let mut outcomes: Vec<(String, Option<String>)> = Vec::new();
        let ghost mut asked: Seq<bool> = Seq::empty();
        let ghost mut all: Seq<(Seq<char>, Option<Seq<char>>)> = Seq::empty();
        let mut i: usize = 0;
        while i < self.providers.len()
            invariant
                i <= self.providers.len(),
                asked.len() == i,
                all.len() == i,
                forall|k: int| 0 <= k < i ==> changed(#[trigger] self.providers@[k], *song, add, asked[k], all[k]),
                outcomes@.map_values(|o: (String, Option<String>)| outcome_view(o)) == picked(all, asked),
            decreases self.providers.len() - i,
        {
            let provider = &self.providers[i];
            let enabled = provider.is_enabled();
            assert(self.providers@[i as int].enabled_answer(enabled));
            let ghost before = outcomes@.map_values(|o: (String, Option<String>)| outcome_view(o));
            if enabled {
                let result = if add {
                    provider.add_favourite(song)
                } else {
                    provider.remove_favourite(song)
                };
                assert(self.providers@[i as int].change_answer(*song, add, result));
                let name = owned(provider.provider_name());
                assert(self.providers@[i as int].name_answer(name@));
                let outcome = match result {
                    Ok(()) => (name, None),
                    Err(e) => (name, Some(e.message())),
                };
                let ghost o = outcome_view(outcome);
                assert(o.1 == change_text(result));
                assert(changed(self.providers@[i as int], *song, add, true, o));
                outcomes.push(outcome);
                proof {
                    assert(outcomes@.map_values(|o: (String, Option<String>)| outcome_view(o)) =~= before.push(o));
                    lemma_picked_push(all, asked, o, true);
                    asked = asked.push(true);
                    all = all.push(o);
                }
            } else {
                proof {
                    let o: (Seq<char>, Option<Seq<char>>) = (Seq::empty(), None);
                    assert(changed(self.providers@[i as int], *song, add, false, o));
                    lemma_picked_push(all, asked, o, false);
                    asked = asked.push(false);
                    all = all.push(o);
                }
            }
            i = i + 1;
        }
        assert(all_changed(self.spec_providers(), *song, add, asked, all));
        outcomes
    }

    /// Mark a song as favourite in every enabled provider: the providers
    /// that succeeded, or an error when every provider asked failed.
    pub fn add_favourite(&self, song: &Song) -> (r: Result<Vec<String>, FavouriteError>)
        ensures
            song_problem(*song) is Some ==> (r matches Err(FavouriteError::InvalidSong(m)) && song_problem(*song) == Some(m@)),
            r matches Err(FavouriteError::InvalidSong(_)) ==> song_problem(*song) is Some,
            song_problem(*song) is None ==> exists|asked: Seq<bool>, all: Seq<(Seq<char>, Option<Seq<char>>)>|
                #[trigger] all_changed(self.spec_providers(), *song, true, asked, all) && merged(picked(all, asked), "add"@, r),
    {
        match validate_song(song) {
            Ok(()) => {},
            Err(e) => return Err(e),
        }
        let outcomes = self.change_everywhere(song, true);
        merge_outcomes(&outcomes, "add")
    }

    /// Unmark a song in every enabled provider: the providers that
    /// succeeded, or an error when every provider asked failed.
    pub fn remove_favourite(&self, song: &Song) -> (r: Result<Vec<String>, FavouriteError>)
        ensures
            song_problem(*song) is Some ==> (r matches Err(FavouriteError::InvalidSong(m)) && song_problem(*song) == Some(m@)),
            r matches Err(FavouriteError::InvalidSong(_)) ==> song_problem(*song) is Some,
            song_problem(*song) is None ==> exists|asked: Seq<bool>, all: Seq<(Seq<char>, Option<Seq<char>>)>|
                #[trigger] all_changed(self.spec_providers(), *song, false, asked, all) && merged(picked(all, asked), "remove"@, r),
    {
        match validate_song(song) {
            Ok(()) => {},
            Err(e) => return Err(e),
        }
        let outcomes = self.change_everywhere(song, false);
        merge_outcomes(&outcomes, "remove")
    }

    /// The names of the enabled providers, in order.
    pub fn get_enabled_providers(&self) -> (r: Vec<&'static str>)
        ensures
            r@.len() <= self.spec_count(),
    {
        let mut names: Vec<&'static str> = Vec::new();
        let mut i: usize = 0;
        while i < self.providers.len()
            invariant
                i <= self.providers.len(),
                names@.len() <= i,
            decreases self.providers.len() - i,
        {
            if self.providers[i].is_enabled() {
                names.push(self.providers[i].provider_name());
            }
            i = i + 1;
        }
        names
    }

    /// How many providers are registered, enabled or not.
    pub fn provider_count(&self) -> (r: usize)
        ensures
            r == self.spec_count(),
    {
        self.providers.len()
    }

    /// How many providers are enabled.
    pub fn enabled_provider_count(&self) -> (r: usize)
        ensures
            r <= self.spec_count(),
    {
        let mut n: usize = 0;
        let mut i: usize = 0;
        while i < self.providers.len()
            invariant
                i <= self.providers.len(),
                n <= i,
            decreases self.providers.len() - i,
        {
            if self.providers[i].is_enabled() {
                n = n + 1;
            }
            i = i + 1;
        }
        n
    }

    /// Each provider's name, display name, state and favourite count, in
    /// order.
    pub fn get_provider_details(&self) -> (r: Vec<ProviderDetails>)
        ensures
            r@.len() == self.spec_count(),
    {
        let mut out: Vec<ProviderDetails> = Vec::new();
        let mut i: usize = 0;
        while i < self.providers.len()
            invariant
                i <= self.providers.len(),
                out@.len() == i,
            decreases self.providers.len() - i,
        {
            let p = &self.providers[i];
            out.push(ProviderDetails {
                name: owned(p.provider_name()),
                display_name: owned(p.display_name()),
                enabled: p.is_enabled(),
                active: p.is_active(),
                favourite_count: p.get_favourite_count(),
            });
            i = i + 1;
        }
        out
    }
}

proof fn lemma_no_failure_no_list(os: Seq<(Seq<char>, Option<Seq<char>>)>)
    requires
        !has_failure(os),
    ensures
        failure_list(os).len() == 0,
    decreases os.len(),
{
    if os.len() > 0 {
        assert(os[os.len() - 1].1 is None);
        assert forall|i: int| 0 <= i < os.drop_last().len() implies !(#[trigger] os.drop_last()[i].1 is Some) by {
            assert(os.drop_last()[i] == os[i]);
        }
        lemma_no_failure_no_list(os.drop_last());
    }
}


} // verus!
