//! Cover art from Spotify's search.
//!
//! The search itself is a [`SpotifySearch`]; which part of an answer holds
//! the images, and which images are offered, is decided here.

use vstd::prelude::*;
use std::sync::Arc;
use crate::coverart::{CallView, CoverartMethod, CoverartProvider};
use crate::json::JsonValue;
use crate::text::{owned, views};

verus! {

/// Spotify's search: the answer for a query over some result types, with
/// optional field filters; `None` when no client is available or the search
/// failed.
///
/// What the service answers is its own: `search_answer` holds of an answer
/// it may give to a search with those arguments, and a client that does not
/// refine it may give any.
pub trait SpotifySearch: Send + Sync {
    open spec fn search_answer(
        &self,
        query: Seq<char>,
        types: Seq<Seq<char>>,
        filters: Seq<(Seq<char>, Seq<char>)>,
        r: Option<JsonValue>,
    ) -> bool {
        true
    }

    fn search(&self, query: &str, types: &Vec<String>, filters: &Vec<(String, String)>) -> (r: Option<JsonValue>)
        ensures
            self.search_answer(query@, views(types@), filter_views(filters@), r),
    ;
}

/// Search filters as plain values.
pub open spec fn filter_views(f: Seq<(String, String)>) -> Seq<(Seq<char>, Seq<char>)> {
    f.map_values(|p: (String, String)| (p.0@, p.1@))
}

/// The `url` of each image of a list that has one, in order.
pub open spec fn image_urls(images: Seq<JsonValue>) -> Seq<Seq<char>>
    decreases images.len(),
{
    if images.len() == 0 {
        Seq::empty()
    } else {
        let rest = image_urls(images.drop_last());
        match images.last().spec_get("url"@) {
            Some(u) => match u.spec_as_str() {
                Some(s) => rest.push(s),
                None => rest,
            },
            None => rest,
        }
    }
}

/// The images of the first item under `section.items`, or of that item's
/// album when `via_album`: `None` when the answer has no such list.
pub open spec fn first_item_images(answer: JsonValue, section: Seq<char>, via_album: bool) -> Option<Seq<Seq<char>>> {
    match answer.spec_get(section) {
        None => None,
        Some(s) => match s.spec_get("items"@) {
            None => None,
            Some(items) => match items.spec_as_array() {
                None => None,
                Some(list) => if list.len() == 0 {
                    None
                } else {
                    let holder = if via_album {
                        list[0].spec_get("album"@)
                    } else {
                        Some(list[0])
                    };
                    match holder {
                        None => None,
                        Some(h) => match h.spec_get("images"@) {
                            None => None,
                            Some(imgs) => match imgs.spec_as_array() {
                                None => None,
                                Some(images) => Some(image_urls(images)),
                            },
                        },
                    }
                },
            },
        },
    }
}

fn urls_of(images: &Vec<JsonValue>) -> (r: Vec<String>)
    ensures
        views(r@) == image_urls(images@),
{
    let mut urls: Vec<String> = Vec::new();
    let mut i: usize = 0;
    while i < images.len()
        invariant
            i <= images.len(),
            views(urls@) == image_urls(images@.take(i as int)),
        decreases images.len() - i,
    {
        assert(images@.take(i + 1).drop_last() =~= images@.take(i as int));
        match images[i].get("url") {
            Some(u) => match u.as_str() {
                Some(s) => {
                    let ghost before = views(urls@);
                    urls.push(s.clone());
                    assert(views(urls@) =~= before.push(s@));
                },
                None => {},
            },
            None => {},
        }
        i = i + 1;
    }
    assert(images@.take(images@.len() as int) =~= images@);
    urls
}

/// The image URLs a search answer offers: those of its first item under
/// `section`, or of that item's album; none when there are none.
pub fn answer_images(answer: &JsonValue, section: &str, via_album: bool) -> (r: Vec<String>)
    ensures
        views(r@) == match first_item_images(*answer, section@, via_album) {
            Some(urls) => urls,
            None => Seq::empty(),
        },
{
    let s = match answer.get(section) {
        Some(s) => s,
        None => return Vec::new(),
    };
    let items = match s.get("items") {
        Some(i) => i,
        None => return Vec::new(),
    };
    let list = match items.as_array() {
        Some(l) => l,
        None => return Vec::new(),
    };
    if list.len() == 0 {
        return Vec::new();
    }
    let holder = if via_album {
        match list[0].get("album") {
            Some(a) => a,
            None => return Vec::new(),
        }
    } else {
        &list[0]
    };
    let imgs = match holder.get("images") {
        Some(i) => i,
        None => return Vec::new(),
    };
    match imgs.as_array() {
        Some(images) => urls_of(images),
        None => Vec::new(),
    }
}

/// The URLs `answer_images` reads from a search answer.
pub open spec fn answer_urls(answer: JsonValue, section: Seq<char>, via_album: bool) -> Seq<Seq<char>> {
    match first_item_images(answer, section, via_album) {
        Some(urls) => urls,
        None => Seq::empty(),
    }
}

/// What a search through `client` can give: the URLs read under `section`
/// from an answer the client may give to that search, or nothing when it
/// gave none.
pub open spec fn searched(
    client: Arc<Box<dyn SpotifySearch>>,
    query: Seq<char>,
    kind: Seq<char>,
    filters: Seq<(Seq<char>, Seq<char>)>,
    section: Seq<char>,
    via_album: bool,
    urls: Seq<Seq<char>>,
) -> bool {
    exists|answer: Option<JsonValue>| {
        &&& #[trigger] client.search_answer(query, seq![kind], filters, answer)
        &&& urls == match answer {
            Some(a) => answer_urls(a, section, via_album),
            None => Seq::empty(),
        }
    }
}

/// Cover art through Spotify's search API.
pub struct SpotifyCoverartProvider {
    name: String,
    display_name: String,
    client: Option<Arc<Box<dyn SpotifySearch>>>,
}

impl SpotifyCoverartProvider {
    /// Whether the provider searches through a client.
    pub closed spec fn has_client(&self) -> bool {
        self.client is Some
    }

    /// The client the provider searches through, where it has one.
    pub closed spec fn spec_client(&self) -> Arc<Box<dyn SpotifySearch>> {
        self.client->0
    }

    /// The provider's name and display name.
    pub closed spec fn names(&self) -> (Seq<char>, Seq<char>) {
        (self.name@, self.display_name@)
    }

    /// The provider without a Spotify client: it finds nothing.
    pub fn new() -> (r: SpotifyCoverartProvider)
        ensures
            !r.has_client(),
            r.names() == ("spotify"@, "Spotify"@),
    {
        SpotifyCoverartProvider { name: owned("spotify"), display_name: owned("Spotify"), client: None }
    }

    /// The provider searching through `client`.
    pub fn with_client(client: Arc<Box<dyn SpotifySearch>>) -> (r: SpotifyCoverartProvider)
        ensures
            r.has_client(),
            r.names() == ("spotify"@, "Spotify"@),
    {
        SpotifyCoverartProvider { name: owned("spotify"), display_name: owned("Spotify"), client: Some(client) }
    }

    /// Search for `query` as a `kind` and read the images under `section`
    /// of the answer; nothing without a client or without an answer.
    fn search_images(&self, query: &str, kind: &str, filters: Vec<(String, String)>, section: &str, via_album: bool) -> (r: Vec<String>)
        ensures
            !self.has_client() ==> r@.len() == 0,
            self.has_client() ==> searched(self.spec_client(), query@, kind@, filter_views(filters@), section@, via_album, views(r@)),
    {
        let client = match &self.client {
            Some(c) => c,
            None => return Vec::new(),
        };
        let types = vec![owned(kind)];
        assert(views(types@) =~= seq![kind@]);
        let ghost held = filter_views(filters@);
        let answer = client.search(query, &types, &filters);
        assert(self.spec_client().search_answer(query@, seq![kind@], held, answer));
        match answer {
            Some(a) => {
                let r = answer_images(&a, section, via_album);
                assert(views(r@) == answer_urls(a, section@, via_album));
                r
            },
            None => {
                let r: Vec<String> = Vec::new();
                assert(views(r@) =~= Seq::<Seq<char>>::empty());
                r
            },
        }
    }
}

impl CoverartProvider for SpotifyCoverartProvider {
    /// A lookup answers what a search through the client gives: an artist
    /// by name, an album or the album of a track by title and artist.
    open spec fn lookup_answer(&self, call: CallView, urls: Seq<Seq<char>>) -> bool {
        self.has_client() && match call {
            CallView::Artist(artist) => searched(self.spec_client(), artist, "artist"@, Seq::empty(), "artists"@, false, urls),
            CallView::Album(title, artist, _) => searched(self.spec_client(), title, "album"@,
                seq![("artist"@, artist), ("album"@, title)], "albums"@, false, urls),
            CallView::Song(title, artist) => searched(self.spec_client(), title, "track"@,
                seq![("artist"@, artist), ("track"@, title)], "tracks"@, true, urls),
            _ => false,
        }
    }

    fn name(&self) -> (r: &str)
        ensures
            r@ == self.names().0,
    {
        self.name.as_str()
    }

    fn display_name(&self) -> (r: &str)
        ensures
            r@ == self.names().1,
    {
        self.display_name.as_str()
    }

    fn supported_methods(&self) -> (r: Vec<CoverartMethod>)
        ensures
            r@ == seq![CoverartMethod::Artist, CoverartMethod::Album, CoverartMethod::Song],
    {
        let r = vec![CoverartMethod::Artist, CoverartMethod::Album, CoverartMethod::Song];
        assert(r@ =~= seq![CoverartMethod::Artist, CoverartMethod::Album, CoverartMethod::Song]);
        r
    }

    /// The first artist found, by name.
    fn get_artist_coverart_impl(&self, artist: &str) -> (r: Vec<String>)
        ensures
            !self.has_client() ==> r@.len() == 0,
            self.has_client() ==> searched(self.spec_client(), artist@, "artist"@, Seq::empty(), "artists"@, false, views(r@)),
    {
        let none: Vec<(String, String)> = Vec::new();
        assert(filter_views(none@) =~= Seq::empty());
        self.search_images(artist, "artist", none, "artists", false)
    }

    /// The first album found for the title and artist.
    fn get_album_coverart_impl(&self, title: &str, artist: &str, _year: Option<i32>) -> (r: Vec<String>)
        ensures
            !self.has_client() ==> r@.len() == 0,
            self.has_client() ==> searched(self.spec_client(), title@, "album"@,
                seq![("artist"@, artist@), ("album"@, title@)], "albums"@, false, views(r@)),
    {
        let filters = vec![(owned("artist"), owned(artist)), (owned("album"), owned(title))];
        assert(filter_views(filters@) =~= seq![("artist"@, artist@), ("album"@, title@)]);
        self.search_images(title, "album", filters, "albums", false)
    }

    /// The album of the first track found for the title and artist.
    fn get_song_coverart_impl(&self, title: &str, artist: &str) -> (r: Vec<String>)
        ensures
            !self.has_client() ==> r@.len() == 0,
            self.has_client() ==> searched(self.spec_client(), title@, "track"@,
                seq![("artist"@, artist@), ("track"@, title@)], "tracks"@, true, views(r@)),
    {
        let filters = vec![(owned("artist"), owned(artist)), (owned("track"), owned(title))];
        assert(filter_views(filters@) =~= seq![("artist"@, artist@), ("track"@, title@)]);
        self.search_images(title, "track", filters, "tracks", true)
    }
}

} // verus!
