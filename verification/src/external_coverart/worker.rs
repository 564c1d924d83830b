//! What the background lookup decides: which songs are worth a slow lookup,
//! and which lookups are already in flight.

use vstd::prelude::*;
use crate::claims::ClaimSet;
use super::config::Trigger;

verus! {

/// Whether a song is worth spending a slow lookup on: it needs a title and
/// an artist to key the lookup by, and under `Fallback` its artwork must be
/// replaceable.
pub open spec fn spec_should_look_up(has_title: bool, has_artist: bool, replaceable: bool, trigger: Trigger) -> bool {
    has_title && has_artist && match trigger {
        Trigger::Always => true,
        Trigger::Fallback => replaceable,
    }
}

/// Whether this song is worth spending a slow lookup on.
/// `cover_art_replaceable` is the song's own replaceability marker.
pub fn should_look_up(title: &Option<String>, artist: &Option<String>, cover_art_replaceable: bool, trigger: Trigger) -> (r: bool)
    ensures
        r == spec_should_look_up(title is Some, artist is Some, cover_art_replaceable, trigger),
{
    if title.is_none() || artist.is_none() {
        return false;
    }
    match trigger {
        Trigger::Always => true,
        Trigger::Fallback => cover_art_replaceable,
    }
}

/// The cache keys being looked up right now, so that one answer is never
/// bought twice at once.
pub struct InFlight {
    keys: ClaimSet,
}

impl InFlight {
    pub closed spec fn wf(&self) -> bool {
        self.keys.wf()
    }

    /// The keys in flight.
    pub closed spec fn keys(&self) -> Set<Seq<char>> {
        self.keys@
    }

    /// Nothing in flight.
    pub fn new() -> (r: InFlight)
        ensures
            r.wf(),
            r.keys() == crate::text::no_names(),
    {
        InFlight { keys: ClaimSet::new() }
    }

    /// Start a lookup for `key`: `false` when one is already in flight.
    pub fn start(&mut self, key: &str) -> (r: bool)
        requires
            old(self).wf(),
        ensures
            final(self).wf(),
            r == !old(self).keys().contains(key@),
            final(self).keys() == old(self).keys().insert(key@),
    {
        self.keys.claim(key)
    }

    /// A lookup for `key` is done.
    pub fn finish(&mut self, key: &str)
        requires
            old(self).wf(),
        ensures
            final(self).wf(),
            final(self).keys() == old(self).keys().remove(key@),
    {
        self.keys.release(key)
    }
}

} // verus!
