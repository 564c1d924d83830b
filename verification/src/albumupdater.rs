//! Genre tags for albums, fetched once and remembered.
//!
//! The background sweep reads the cache, asks MusicBrainz and writes the
//! library; what it does for each album is decided here.

use vstd::prelude::*;
use crate::text::{concat2, owned};

verus! {

/// The attribute cache key for an album's genres.
pub fn cache_key(album_id: &str) -> (r: String)
    ensures
        r@ == "album::genres::"@ + album_id@,
{
    concat2("album::genres::", album_id)
}

/// The library's version: it moves whenever the library changes, so that
/// clients holding a copy know to fetch it again.
#[derive(Debug)]
pub struct LibraryVersion {
    value: u64,
}

impl LibraryVersion {
    pub closed spec fn spec_value(&self) -> u64 {
        self.value
    }

    /// The value after one more change: one up, wrapping at the top of the
    /// range.
    pub open spec fn next_value(&self) -> u64 {
        if self.spec_value() == u64::MAX {
            0
        } else {
            (self.spec_value() + 1) as u64
        }
    }

    /// A fresh version, 0.
    pub fn new() -> (r: LibraryVersion)
        ensures
            r.spec_value() == 0,
    {
        LibraryVersion { value: 0 }
    }

    /// The current version.
    pub fn get(&self) -> (r: u64)
        ensures
            r == self.spec_value(),
    {
        self.value
    }

    /// Move the version on (wrapping at the top of the range).
    pub fn bump(&mut self)
        ensures
            final(self).spec_value() == old(self).next_value(),
    {
        self.value = self.value.wrapping_add(1);
    }
}

/// Write genres and record that the library changed; writing no genres
/// changes nothing. `version` is `None` for a library that keeps no
/// version.
pub fn set_genres(target: &mut Vec<String>, genres: Vec<String>, version: &mut Option<LibraryVersion>)
    ensures
        genres@.len() == 0 ==> final(target)@ == old(target)@ && *final(version) == *old(version),
        genres@.len() > 0 ==> final(target)@ == genres@,
        genres@.len() > 0 ==> match *old(version) {
            Some(v) => (*final(version)) matches Some(w) && w.spec_value() == v.next_value(),
            None => (*final(version)) is None,
        },
{
    if genres.len() == 0 {
        return;
    }
    *target = genres;
    match version {
        Some(v) => v.bump(),
        None => {},
    }
}

/// Give an album genres only when it has none yet: whether they were
/// written. An album that already has genres keeps them.
pub fn fill_missing_genres(target: &mut Vec<String>, genres: Vec<String>, version: &mut Option<LibraryVersion>) -> (r: bool)
    ensures
        r == (old(target)@.len() == 0),
        !r ==> final(target)@ == old(target)@ && *final(version) == *old(version),
        r && genres@.len() == 0 ==> final(target)@ == old(target)@ && *final(version) == *old(version),
        r && genres@.len() > 0 ==> final(target)@ == genres@,
        r && genres@.len() > 0 ==> match *old(version) {
            Some(v) => (*final(version)) matches Some(w) && w.spec_value() == v.next_value(),
            None => (*final(version)) is None,
        },
{
    if target.len() > 0 {
        return false;
    }
    set_genres(target, genres, version);
    true
}

/// What the sweep does for one album.
#[derive(Debug, Clone, PartialEq, Eq)]
pub enum GenreStep {
    /// A cached empty answer: nothing to do.
    SkipCachedEmpty,
    /// Apply cached genres.
    ApplyCached(Vec<String>),
    /// No artist or no name to ask with: remember that there is nothing.
    RecordEmpty,
    /// Ask MusicBrainz.
    Fetch,
}

/// What the sweep does for an album, given what the cache holds for it.
pub fn genre_step(cached: Option<Vec<String>>, artist: &str, album_name: &str) -> (r: GenreStep)
    ensures
        match cached {
            Some(g) => if g@.len() == 0 {
                r is SkipCachedEmpty
            } else {
                r matches GenreStep::ApplyCached(h) && h@ == g@
            },
            None => if artist@.len() == 0 || album_name@.len() == 0 {
                r is RecordEmpty
            } else {
                r is Fetch
            },
        },
{
    match cached {
        Some(g) => if g.len() == 0 {
            GenreStep::SkipCachedEmpty
        } else {
            GenreStep::ApplyCached(g)
        },
        None => if artist.unicode_len() == 0 || album_name.unicode_len() == 0 {
            GenreStep::RecordEmpty
        } else {
            GenreStep::Fetch
        },
    }
}

/// The artist an album is asked by: its first, or none.
pub fn lookup_artist(artists: &Vec<String>) -> (r: String)
    ensures
        artists@.len() > 0 ==> r@ == artists@[0]@,
        artists@.len() == 0 ==> r@.len() == 0,
{
    if artists.len() > 0 {
        artists[0].clone()
    } else {
        String::new()
    }
}

/// Progress is reported every fifty albums and at the last one.
pub fn should_report(count: usize, total: usize) -> (r: bool)
    ensures
        r == (count % 50 == 0 || count == total),
{
    count % 50 == 0 || count == total
}

} // verus!
