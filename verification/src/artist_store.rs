//! Artist images: where they live, which one an artist shows, and who may
//! download one.
//!
//! The store decides; it never touches the disk or the network itself. Each
//! decision takes what the filesystem and the settings say right now as
//! plain values ([`ImageFacts`]), so that the whole precedence chain, the
//! path memo and the download claims are verified, and the caller carries
//! out whatever the decision asks for.

use vstd::prelude::*;
use crate::claims::ClaimSet;
use crate::codec::{encode_url_safe, guess_image_kind, guessed_image_kind, lower_hex, md5_hex, md5_of, url_safe_name, ImageKind};
use crate::text::{chars_of, concat2, concat3, contains_char, is_prefix, lemma_lex_asymmetric, lemma_lex_irreflexive, lemma_lex_total, lemma_lex_transitive, lex_less, lex_lt, owned, push_char, push_str, str_eq, strip_prefix};
use crate::text_map::TextMap;
use crate::coverart::{CoverartResult, ImageInfo};
use crate::musicbrainz::MusicBrainzSearchResult;

verus! {

/// Result of an artist image operation.
#[derive(Debug)]
pub enum ArtistImageResult {
    /// Image found and cached successfully.
    Found { cache_path: String },
    /// Image not found.
    NotFound,
    /// Error occurred during the operation.
    Error(String),
}

/// The path an image result names, if it names one.
pub open spec fn found_path(r: ArtistImageResult) -> Option<Seq<char>> {
    match r {
        ArtistImageResult::Found { cache_path } => Some(cache_path@),
        _ => None,
    }
}

/// Where a downloaded image is stored.
#[derive(Debug, Clone, Copy, PartialEq, Eq, Structural)]
pub enum ImageDestination {
    /// The provider cache, `{cache_dir}/{artist}/{type}.jpg`.
    Cache,
    /// The user directory, which wins the lookup.
    UserDirectory,
}

/// What an artist image lookup needs next.
#[derive(Debug, PartialEq, Eq)]
pub enum ImageStep {
    /// Already on disk at this path.
    Ready(String),
    /// Fetch this URL and commit it.
    Fetch { url: String, image_type: String, destination: ImageDestination },
    /// Nothing recorded for this artist; ask the providers.
    AskProviders,
    /// Nothing to do.
    NotFound,
}

/// How many uploaded images one artist may keep.
pub const MAX_UPLOADS_PER_ARTIST: usize = 10;

/// The largest artist image the daemon takes from a URL, in bytes.
pub const MAX_IMAGE_DOWNLOAD_BYTES: u64 = 16777216;

/// Where one member of an artist's image set came from.
#[derive(Debug, Clone, Copy, PartialEq, Eq, Structural)]
pub enum ArtistImageSource {
    /// `custom.jpg` or `cover.jpg`: fetched by the daemon from a URL.
    Download,
    /// A file the user uploaded, named by the hash of its own bytes.
    Upload,
}

/// One member of an artist's image set.
#[derive(Debug, Clone)]
pub struct ArtistImage {
    /// The file stem: `custom`, `cover`, or an upload's content hash.
    pub id: String,
    /// Absolute path on disk.
    pub path: String,
    pub source: ArtistImageSource,
}

impl ArtistImage {
    /// An equal copy.
    pub fn duplicate(&self) -> (r: ArtistImage)
        ensures
            r == *self,
    {
        ArtistImage { id: self.id.clone(), path: self.path.clone(), source: self.source }
    }
}

/// Configuration for the artist store.
#[derive(Debug, Clone)]
pub struct ArtistStoreConfig {
    /// Base cache directory for artist images.
    pub cache_dir: String,
    /// User directory for custom artist images (takes precedence over cache).
    pub user_dir: String,
    /// Whether to enable custom artist images from settings.
    pub enable_custom_images: bool,
    /// Whether to automatically download missing images.
    pub auto_download: bool,
}

impl ArtistStoreConfig {
    /// The configuration the settings describe, each missing setting taking
    /// its default.
    pub fn from_settings(
        cache_dir: Option<String>,
        user_dir: Option<String>,
        enable_custom_images: Option<bool>,
        auto_download: Option<bool>,
    ) -> (r: ArtistStoreConfig)
        ensures
            r.cache_dir@ == (match cache_dir {
                Some(d) => d@,
                None => "/var/lib/audiocontrol/cache/artists"@,
            }),
            r.user_dir@ == (match user_dir {
                Some(d) => d@,
                None => "/var/lib/audiocontrol/user/images"@,
            }),
            r.enable_custom_images == (match enable_custom_images {
                Some(b) => b,
                None => true,
            }),
            r.auto_download == (match auto_download {
                Some(b) => b,
                None => true,
            }),
    {
        ArtistStoreConfig {
            cache_dir: match cache_dir {
                Some(d) => d,
                None => owned("/var/lib/audiocontrol/cache/artists"),
            },
            user_dir: match user_dir {
                Some(d) => d,
                None => owned("/var/lib/audiocontrol/user/images"),
            },
            enable_custom_images: match enable_custom_images {
                Some(b) => b,
                None => true,
            },
            auto_download: match auto_download {
                Some(b) => b,
                None => true,
            },
        }
    }
}

// ---------------------------------------------------------------------------
// File names and paths
// ---------------------------------------------------------------------------

/// One character of a directory name made from an artist name: ASCII
/// letters lower-cased, digits, `-` and `_` kept, anything else `_`.
pub open spec fn file_name_char(c: char) -> char {
    if ('a' <= c <= 'z') || ('0' <= c <= '9') || c == '-' || c == '_' {
        c
    } else if 'A' <= c <= 'Z' {
        ((c as u32) + 32) as char
    } else {
        '_'
    }
}

/// A text reduced to something safe to use as one directory name.
pub open spec fn file_name_of(s: Seq<char>) -> Seq<char> {
    s.map_values(|c: char| file_name_char(c))
}

fn file_name_char_exec(c: char) -> (r: char)
    ensures
        r == file_name_char(c),
{
    if ('a' <= c && c <= 'z') || ('0' <= c && c <= '9') || c == '-' || c == '_' {
        c
    } else if 'A' <= c && c <= 'Z' {
        let lower: u8 = (c as u8) + 32;
        lower as char
    } else {
        '_'
    }
}

/// The directory name an artist's images are kept under.
pub fn filename_from_string(s: &str) -> (r: String)
    ensures
        r@ == file_name_of(s@),
{
    let cs = chars_of(s);
    let mut out = String::new();
    let mut i: usize = 0;
    while i < cs.len()
        invariant
            i <= cs.len(),
            cs@ == s@,
            out@ == file_name_of(cs@.take(i as int)),
        decreases cs.len() - i,
    {
        push_char(&mut out, file_name_char_exec(cs[i]));
        i = i + 1;
        assert(file_name_of(cs@.take(i as int)) =~= file_name_of(cs@.take(i - 1)).push(file_name_char(cs@[i - 1])));
    }
    assert(cs@.take(cs@.len() as int) == cs@);
    out
}

/// `{cache_dir}/{artist}/{type}.jpg`.
pub open spec fn cache_image_path(cache_dir: Seq<char>, artist: Seq<char>, image_type: Seq<char>) -> Seq<char> {
    cache_dir + "/"@ + file_name_of(artist) + "/"@ + image_type + ".jpg"@
}

/// `{user_dir}/artists/{artist}/{type}.jpg`.
pub open spec fn user_image_path(user_dir: Seq<char>, artist: Seq<char>, image_type: Seq<char>) -> Seq<char> {
    user_dir + "/artists/"@ + file_name_of(artist) + "/"@ + image_type + ".jpg"@
}

/// `{user_dir}/artists/{artist}/uploads`.
pub open spec fn uploads_dir(user_dir: Seq<char>, artist: Seq<char>) -> Seq<char> {
    user_dir + "/artists/"@ + file_name_of(artist) + "/uploads"@
}

// ---------------------------------------------------------------------------
// The daemon's own image URLs
// ---------------------------------------------------------------------------

/// The URL prefix under which the daemon serves one artist's images.
pub open spec fn local_image_prefix(artist: Seq<char>) -> Seq<char> {
    "/api/coverart/artist/"@ + url_safe_name(artist) + "/image/"@
}

/// The id one of the daemon's own artist-image URLs names: the URL must be
/// exactly the serving route for this artist followed by a non-empty id
/// without `/` or `?`.
pub open spec fn spec_local_image_id(url: Seq<char>, artist: Seq<char>) -> Option<Seq<char>> {
    let p = local_image_prefix(artist);
    if is_prefix(p, url) {
        let id = url.subrange(p.len() as int, url.len() as int);
        if id.len() == 0 || id.contains('/') || id.contains('?') {
            None
        } else {
            Some(id)
        }
    } else {
        None
    }
}

/// The serving-route prefix for an artist's images.
pub fn image_url_prefix(artist_name: &str) -> (r: String)
    ensures
        r@ == local_image_prefix(artist_name@),
{
    let mut p = owned("/api/coverart/artist/");
    let encoded = encode_url_safe(artist_name);
    push_str(&mut p, encoded.as_str());
    push_str(&mut p, "/image/");
    p
}

/// The id named by one of this daemon's own artist-image URLs.
pub fn local_image_id(url: &str, artist_name: &str) -> (r: Option<String>)
    ensures
        r is None <==> spec_local_image_id(url@, artist_name@) is None,
        r matches Some(id) ==> spec_local_image_id(url@, artist_name@) == Some(id@),
{
    let prefix = image_url_prefix(artist_name);
    let id = match strip_prefix(url, prefix.as_str()) {
        Some(id) => id,
        None => return None,
    };
    if id.as_str().unicode_len() == 0 || contains_char(id.as_str(), '/') || contains_char(id.as_str(), '?') {
        return None;
    }
    Some(id)
}

/// The URL that selects member `id` of an artist's set.
pub fn selection_url(artist_name: &str, id: &str) -> (r: String)
    ensures
        r@ == local_image_prefix(artist_name@) + id@,
{
    let mut url = image_url_prefix(artist_name);
    push_str(&mut url, id);
    url
}

/// The URL under which the daemon serves an artist's image.
pub fn artist_image_api_url(artist_name: &str) -> (r: String)
    ensures
        r@ == "/api/coverart/artist/"@ + url_safe_name(artist_name@) + "/image"@,
{
    let mut url = owned("/api/coverart/artist/");
    let encoded = encode_url_safe(artist_name);
    push_str(&mut url, encoded.as_str());
    push_str(&mut url, "/image");
    url
}

/// A URL recorded for a member names that member: the selection a client
/// makes through [`selection_url`] reads back as the same id.
pub proof fn law_selection_url_names_its_member(artist: Seq<char>, id: Seq<char>)
    requires
        id.len() > 0,
        !id.contains('/'),
        !id.contains('?'),
    ensures
        spec_local_image_id(local_image_prefix(artist) + id, artist) == Some(id),
{
    let p = local_image_prefix(artist);
    let url = p + id;
    assert(url.subrange(0, p.len() as int) =~= p);
    assert(url.subrange(p.len() as int, url.len() as int) =~= id);
}

// ---------------------------------------------------------------------------
// Members of an artist's set
// ---------------------------------------------------------------------------

/// `i` is the first member with this id.
pub open spec fn is_first_with_id(images: Seq<ArtistImage>, id: Seq<char>, i: int) -> bool {
    &&& 0 <= i < images.len()
    &&& images[i].id@ == id
    &&& forall|j: int| 0 <= j < i ==> #[trigger] images[j].id@ != id
}

/// Some member has this id.
pub open spec fn has_id(images: Seq<ArtistImage>, id: Seq<char>) -> bool {
    exists|i: int| 0 <= i < images.len() && #[trigger] images[i].id@ == id
}

/// The path of the first member with this id.
pub open spec fn member_path(images: Seq<ArtistImage>, id: Seq<char>) -> Option<Seq<char>> {
    if has_id(images, id) {
        Some(images[choose|i: int| is_first_with_id(images, id, i)].path@)
    } else {
        None
    }
}

proof fn lemma_first_is_unique(images: Seq<ArtistImage>, id: Seq<char>, i: int, j: int)
    requires
        is_first_with_id(images, id, i),
        is_first_with_id(images, id, j),
    ensures
        i == j,
{
    if i < j {
        assert(images[i].id@ != id);
    }
    if j < i {
        assert(images[j].id@ != id);
    }
}

/// The index of the first member with id `id`.
pub fn find_member(images: &Vec<ArtistImage>, id: &str) -> (r: Option<usize>)
    ensures
        r matches Some(i) ==> is_first_with_id(images@, id@, i as int)
            && member_path(images@, id@) == Some(images@[i as int].path@),
        r is None <==> !has_id(images@, id@),
        r is None ==> member_path(images@, id@) is None,
{
    let mut i: usize = 0;
    while i < images.len()
        invariant
            i <= images.len(),
            forall|j: int| 0 <= j < i ==> #[trigger] images@[j].id@ != id@,
        decreases images.len() - i,
    {
        if str_eq(images[i].id.as_str(), id) {
            proof {
                assert(is_first_with_id(images@, id@, i as int));
                let c = choose|k: int| is_first_with_id(images@, id@, k);
                lemma_first_is_unique(images@, id@, i as int, c);
            }
            return Some(i);
        }
        i = i + 1;
    }
    None
}

/// The selection a stored settings value makes: an empty value is no
/// selection at all.
pub open spec fn real_selection(raw: Option<Seq<char>>) -> Option<Seq<char>> {
    match raw {
        Some(s) => if s.len() == 0 {
            None
        } else {
            Some(s)
        },
        None => None,
    }
}

pub open spec fn opt_text(o: Option<String>) -> Option<Seq<char>> {
    match o {
        Some(s) => Some(s@),
        None => None,
    }
}

/// The id a stored selection points at: one of our own URLs names its
/// member; any other URL was downloaded to `custom`.
pub open spec fn wanted_member(stored: Seq<char>, artist: Seq<char>) -> Seq<char> {
    match spec_local_image_id(stored, artist) {
        Some(id) => id,
        None => "custom"@,
    }
}

/// The id of the member a stored selection resolves to, if it resolves.
pub open spec fn selected_id(raw: Option<Seq<char>>, artist: Seq<char>, images: Seq<ArtistImage>) -> Option<Seq<char>> {
    match real_selection(raw) {
        Some(stored) => if has_id(images, wanted_member(stored, artist)) {
            Some(wanted_member(stored, artist))
        } else {
            None
        },
        None => None,
    }
}

/// The path of the member a stored selection resolves to, if it resolves.
pub open spec fn selected_path(raw: Option<Seq<char>>, artist: Seq<char>, images: Seq<ArtistImage>) -> Option<Seq<char>> {
    match real_selection(raw) {
        Some(stored) => member_path(images, wanted_member(stored, artist)),
        None => None,
    }
}

/// The selection a stored value makes.
pub fn stored_selection(raw: &Option<String>) -> (r: Option<String>)
    ensures
        opt_text(r) == real_selection(opt_text(*raw)),
{
    match raw {
        Some(s) => if s.as_str().unicode_len() == 0 {
            None
        } else {
            Some(s.clone())
        },
        None => None,
    }
}

/// The index of the member `stored` selects among `images`.
pub fn selection_member(artist_name: &str, stored: &str, images: &Vec<ArtistImage>) -> (r: Option<usize>)
    ensures
        r matches Some(i) ==> is_first_with_id(images@, wanted_member(stored@, artist_name@), i as int)
            && member_path(images@, wanted_member(stored@, artist_name@)) == Some(images@[i as int].path@),
        r is None <==> !has_id(images@, wanted_member(stored@, artist_name@)),
        r is None ==> member_path(images@, wanted_member(stored@, artist_name@)) is None,
{
    let wanted = match local_image_id(stored, artist_name) {
        Some(id) => id,
        None => owned("custom"),
    };
    find_member(images, wanted.as_str())
}

/// What the filesystem and the settings say about one artist right now.
pub struct ImageFacts {
    /// Whether the path memoised for the artist, if one is, is still on disk.
    pub memo_present: bool,
    /// The stored selection, as read from the settings.
    pub selection: Option<String>,
    /// The artist's image set.
    pub images: Vec<ArtistImage>,
    /// Whether `custom.jpg` is in the user directory.
    pub user_custom: bool,
    /// Whether `cover.jpg` is in the user directory.
    pub user_cover: bool,
    /// Whether `custom.jpg` is in the cache directory.
    pub cache_custom: bool,
    /// Whether `cover.jpg` is in the cache directory.
    pub cache_cover: bool,
}

/// The precedence chain below the memo: the selected member, then the user
/// directory's `custom` and `cover`, then the cache's `custom` (when custom
/// images are enabled) and `cover`.
pub open spec fn chain_pick(cfg: ArtistStoreConfig, artist: Seq<char>, facts: ImageFacts) -> Option<Seq<char>> {
    let sel = selected_path(opt_text(facts.selection), artist, facts.images@);
    if sel is Some {
        sel
    } else if facts.user_custom {
        Some(user_image_path(cfg.user_dir@, artist, "custom"@))
    } else if facts.user_cover {
        Some(user_image_path(cfg.user_dir@, artist, "cover"@))
    } else if cfg.enable_custom_images && facts.cache_custom {
        Some(cache_image_path(cfg.cache_dir@, artist, "custom"@))
    } else if facts.cache_cover {
        Some(cache_image_path(cfg.cache_dir@, artist, "cover"@))
    } else {
        None
    }
}

/// What resolving an artist's image gives, and the memo afterwards: a
/// memoised path still on disk wins; otherwise the chain decides, and the
/// memo then holds what it found or nothing.
pub open spec fn resolution(
    memo: Map<Seq<char>, Seq<char>>,
    cfg: ArtistStoreConfig,
    artist: Seq<char>,
    facts: ImageFacts,
) -> (Option<Seq<char>>, Map<Seq<char>, Seq<char>>) {
    if memo.contains_key(artist) && facts.memo_present {
        (Some(memo[artist]), memo)
    } else {
        match chain_pick(cfg, artist, facts) {
            Some(p) => (Some(p), memo.insert(artist, p)),
            None => (None, memo.remove(artist)),
        }
    }
}

/// Whatever resolution finds is what the memo holds for the artist
/// afterwards, and when it finds nothing the memo holds nothing for them.
pub proof fn law_memo_agrees_with_resolution(
    memo: Map<Seq<char>, Seq<char>>,
    cfg: ArtistStoreConfig,
    artist: Seq<char>,
    facts: ImageFacts,
)
    ensures
        resolution(memo, cfg, artist, facts).0 matches Some(p) ==> resolution(memo, cfg, artist, facts).1.contains_key(artist)
            && resolution(memo, cfg, artist, facts).1[artist] == p,
        resolution(memo, cfg, artist, facts).0 is None ==> !resolution(memo, cfg, artist, facts).1.contains_key(artist),
        forall|other: Seq<char>| other != artist ==> (#[trigger] resolution(memo, cfg, artist, facts).1.contains_key(other)
            == memo.contains_key(other)),
{
}

/// A selection that resolves to a member wins over every file of the
/// precedence chain, unless a memoised path is still on disk.
pub proof fn law_selection_wins(
    memo: Map<Seq<char>, Seq<char>>,
    cfg: ArtistStoreConfig,
    artist: Seq<char>,
    facts: ImageFacts,
)
    requires
        !(memo.contains_key(artist) && facts.memo_present),
        selected_path(opt_text(facts.selection), artist, facts.images@) is Some,
    ensures
        resolution(memo, cfg, artist, facts).0 == selected_path(opt_text(facts.selection), artist, facts.images@),
{
}

/// With custom images enabled, the cache's custom image wins over the
/// cache's cover: when nothing memoised is on disk, no selection resolves
/// and the user directory holds neither image, an artist whose cache holds
/// `custom.jpg` resolves to it whether or not the cache also holds
/// `cover.jpg`, and resolves to the cache's cover only when the custom
/// image is not in play.
pub proof fn law_custom_image_wins_over_the_cover(
    memo: Map<Seq<char>, Seq<char>>,
    cfg: ArtistStoreConfig,
    artist: Seq<char>,
    facts: ImageFacts,
)
    requires
        !(memo.contains_key(artist) && facts.memo_present),
        selected_path(opt_text(facts.selection), artist, facts.images@) is None,
        !facts.user_custom,
        !facts.user_cover,
    ensures
        cfg.enable_custom_images && facts.cache_custom ==> resolution(memo, cfg, artist, facts).0
            == Some(cache_image_path(cfg.cache_dir@, artist, "custom"@)),
        resolution(memo, cfg, artist, facts).0 == Some(cache_image_path(cfg.cache_dir@, artist, "cover"@))
            ==> !(cfg.enable_custom_images && facts.cache_custom),
{
    reveal_strlit("custom");
    reveal_strlit("cover");
    assert(cache_image_path(cfg.cache_dir@, artist, "custom"@).len() != cache_image_path(cfg.cache_dir@, artist, "cover"@).len());
}

// ---------------------------------------------------------------------------
// The store
// ---------------------------------------------------------------------------

/// The artist store: its configuration, the path memoised per artist, and
/// the artists with a download claimed right now.
pub struct ArtistStore {
    config: ArtistStoreConfig,
    image_cache: TextMap<String>,
    downloading: ClaimSet,
}

impl ArtistStore {
    /// The configuration.
    pub closed spec fn configuration(&self) -> ArtistStoreConfig {
        self.config
    }

    /// The configuration.
    pub fn config(&self) -> (r: &ArtistStoreConfig)
        ensures
            *r == self.configuration(),
    {
        &self.config
    }

    /// The memoised paths, by artist name.
    pub closed spec fn memo(&self) -> Map<Seq<char>, Seq<char>> {
        self.image_cache@
    }

    /// The artists with a download claimed.
    pub closed spec fn claims(&self) -> Set<Seq<char>> {
        self.downloading@
    }

    pub closed spec fn wf(&self) -> bool {
        self.image_cache.wf() && self.downloading.wf()
    }

    /// A store with the default configuration.
    pub fn new() -> (r: ArtistStore)
        ensures
            r.wf(),
            r.memo() == crate::text::no_text_entries(),
            r.claims() == crate::text::no_names(),
            r.configuration().cache_dir@ == "/var/lib/audiocontrol/cache/artists"@,
            r.configuration().user_dir@ == "/var/lib/audiocontrol/user/images"@,
            r.configuration().enable_custom_images,
            r.configuration().auto_download,
    {
        ArtistStore::with_config(ArtistStoreConfig::from_settings(None, None, None, None))
    }

    /// A store with this configuration, nothing memoised and nothing claimed.
    pub fn with_config(config: ArtistStoreConfig) -> (r: ArtistStore)
        ensures
            r.wf(),
            r.configuration() == config,
            r.memo() == crate::text::no_text_entries(),
            r.claims() == crate::text::no_names(),
    {
        ArtistStore { config, image_cache: TextMap::new(), downloading: ClaimSet::new() }
    }

    /// The local cache path for an artist's image of a type.
    pub fn get_artist_image_path(&self, artist_name: &str, image_type: &str) -> (r: String)
        ensures
            r@ == cache_image_path(self.configuration().cache_dir@, artist_name@, image_type@),
    {
        let name = filename_from_string(artist_name);
        let mut p = self.config.cache_dir.clone();
        push_str(&mut p, "/");
        push_str(&mut p, name.as_str());
        push_str(&mut p, "/");
        push_str(&mut p, image_type);
        push_str(&mut p, ".jpg");
        p
    }

    /// The user directory path for an artist's image of a type.
    pub fn get_artist_user_image_path(&self, artist_name: &str, image_type: &str) -> (r: String)
        ensures
            r@ == user_image_path(self.configuration().user_dir@, artist_name@, image_type@),
    {
        let name = filename_from_string(artist_name);
        let mut p = self.config.user_dir.clone();
        push_str(&mut p, "/artists/");
        push_str(&mut p, name.as_str());
        push_str(&mut p, "/");
        push_str(&mut p, image_type);
        push_str(&mut p, ".jpg");
        p
    }

    /// The directory an artist's uploaded images live in.
    pub fn artist_uploads_dir(&self, artist_name: &str) -> (r: String)
        ensures
            r@ == uploads_dir(self.configuration().user_dir@, artist_name@),
    {
        let name = filename_from_string(artist_name);
        let mut p = self.config.user_dir.clone();
        push_str(&mut p, "/artists/");
        push_str(&mut p, name.as_str());
        push_str(&mut p, "/uploads");
        p
    }

    /// The uploads directory, under the name the tests use.
    pub fn artist_uploads_dir_for_test(&self, artist_name: &str) -> (r: String)
        ensures
            r@ == uploads_dir(self.configuration().user_dir@, artist_name@),
    {
        self.artist_uploads_dir(artist_name)
    }

    /// The path memoised for an artist, if any.
    pub fn memoised_path(&self, artist_name: &str) -> (r: Option<String>)
        requires
            self.wf(),
        ensures
            r is Some <==> self.memo().contains_key(artist_name@),
            r matches Some(p) ==> self.memo()[artist_name@] == p@,
    {
        match self.image_cache.get(artist_name) {
            Some(p) => Some(p.clone()),
            None => None,
        }
    }

    /// Forget the path memoised for this artist.
    pub fn forget_memoised_path(&mut self, artist_name: &str)
        requires
            old(self).wf(),
        ensures
            final(self).wf(),
            final(self).memo() == old(self).memo().remove(artist_name@),
            final(self).claims() == old(self).claims(),
            final(self).configuration() == old(self).configuration(),
    {
        self.image_cache.remove(artist_name);
    }

    /// The path of one member of the set, or `None` when the id is not in it.
    pub fn artist_image_path(&self, images: &Vec<ArtistImage>, id: &str) -> (r: Option<String>)
        ensures
            opt_text(r) == member_path(images@, id@),
    {
        match find_member(images, id) {
            Some(i) => Some(images[i].path.clone()),
            None => None,
        }
    }

    /// Which member is selected, or `None` when nothing is.
    pub fn selected_image_id(&self, artist_name: &str, stored: &Option<String>, images: &Vec<ArtistImage>) -> (r: Option<String>)
        ensures
            opt_text(r) == selected_id(opt_text(*stored), artist_name@, images@),
    {
        let sel = match stored_selection(stored) {
            Some(s) => s,
            None => return None,
        };
        match selection_member(artist_name, sel.as_str(), images) {
            Some(i) => {
                assert(images@[i as int].id@ == wanted_member(sel@, artist_name@));
                Some(images[i].id.clone())
            },
            None => None,
        }
    }

    /// An artist's whole set together with the id of the selected member.
    pub fn artist_images_with_selection(
        &self,
        artist_name: &str,
        stored: &Option<String>,
        images: Vec<ArtistImage>,
    ) -> (r: (Vec<ArtistImage>, Option<String>))
        ensures
            r.0@ == images@,
            opt_text(r.1) == selected_id(opt_text(*stored), artist_name@, images@),
    {
        let selected = self.selected_image_id(artist_name, stored, &images);
        (images, selected)
    }

    /// Record which member of the set is chosen: the URL to store as the
    /// selection, or an error naming the unknown id. A successful choice
    /// forgets the memoised path.
    pub fn select_artist_image(&mut self, artist_name: &str, id: &str, images: &Vec<ArtistImage>) -> (r: Result<String, String>)
        requires
            old(self).wf(),
        ensures
            final(self).wf(),
            final(self).configuration() == old(self).configuration(),
            final(self).claims() == old(self).claims(),
            r is Ok <==> has_id(images@, id@),
            r matches Ok(url) ==> url@ == local_image_prefix(artist_name@) + id@
                && final(self).memo() == old(self).memo().remove(artist_name@),
            r matches Err(msg) ==> msg@ == "No image '"@ + id@ + "' for artist '"@ + artist_name@ + "'"@
                && final(self).memo() == old(self).memo(),
    {
        match find_member(images, id) {
            None => {
                let mut msg = owned("No image '");
                push_str(&mut msg, id);
                push_str(&mut msg, "' for artist '");
                push_str(&mut msg, artist_name);
                push_str(&mut msg, "'");
                Err(msg)
            },
            Some(_) => {
                let url = selection_url(artist_name, id);
                self.image_cache.remove(artist_name);
                Ok(url)
            },
        }
    }

    /// Resolve the image an artist shows, updating the memo: see
    /// [`resolution`].
    pub fn get_cached_image(&mut self, artist_name: &str, facts: &ImageFacts) -> (r: ArtistImageResult)
        requires
            old(self).wf(),
        ensures
            final(self).wf(),
            final(self).configuration() == old(self).configuration(),
            final(self).claims() == old(self).claims(),
            found_path(r) == resolution(old(self).memo(), old(self).configuration(), artist_name@, *facts).0,
            r is Found || r is NotFound,
            final(self).memo() == resolution(old(self).memo(), old(self).configuration(), artist_name@, *facts).1,
    {
        if let Some(cached) = self.image_cache.get(artist_name) {
            if facts.memo_present {
                return ArtistImageResult::Found { cache_path: cached.clone() };
            }
        }
        let picked = self.chain_pick(artist_name, facts);
        match picked {
            Some(p) => {
                self.image_cache.insert(owned(artist_name), p.clone());
                ArtistImageResult::Found { cache_path: p }
            },
            None => {
                self.image_cache.remove(artist_name);
                ArtistImageResult::NotFound
            },
        }
    }

    fn chain_pick(&self, artist_name: &str, facts: &ImageFacts) -> (r: Option<String>)
        ensures
            opt_text(r) == chain_pick(self.configuration(), artist_name@, *facts),
    {
        if let Some(stored) = stored_selection(&facts.selection) {
            if let Some(i) = selection_member(artist_name, stored.as_str(), &facts.images) {
                return Some(facts.images[i].path.clone());
            }
        }
        if facts.user_custom {
            return Some(self.get_artist_user_image_path(artist_name, "custom"));
        }
        if facts.user_cover {
            return Some(self.get_artist_user_image_path(artist_name, "cover"));
        }
        if self.config.enable_custom_images && facts.cache_custom {
            return Some(self.get_artist_image_path(artist_name, "custom"));
        }
        if facts.cache_cover {
            return Some(self.get_artist_image_path(artist_name, "cover"));
        }
        None
    }

    /// Claim the right to download this artist's image: `false` when
    /// another caller already holds the claim.
    pub fn begin_download(&mut self, artist_name: &str) -> (r: bool)
        requires
            old(self).wf(),
        ensures
            final(self).wf(),
            r == !old(self).claims().contains(artist_name@),
            final(self).claims() == old(self).claims().insert(artist_name@),
            final(self).memo() == old(self).memo(),
            final(self).configuration() == old(self).configuration(),
    {
        self.downloading.claim(artist_name)
    }

    /// Release the claim taken by [`Self::begin_download`].
    pub fn finish_download(&mut self, artist_name: &str)
        requires
            old(self).wf(),
        ensures
            final(self).wf(),
            final(self).claims() == old(self).claims().remove(artist_name@),
            final(self).memo() == old(self).memo(),
            final(self).configuration() == old(self).configuration(),
    {
        self.downloading.release(artist_name)
    }

    /// Whether a download is claimed for this artist right now.
    pub fn is_downloading(&self, artist_name: &str) -> (r: bool)
        ensures
            r == self.claims().contains(artist_name@),
    {
        self.downloading.contains(artist_name)
    }
}

// ---------------------------------------------------------------------------
// Deciding and committing a lookup
// ---------------------------------------------------------------------------

/// The remote URL a stored selection asks to fetch: a real selection that is
/// not one of the daemon's own URLs, when custom images are enabled.
pub open spec fn remote_selection(cfg: ArtistStoreConfig, artist: Seq<char>, facts: ImageFacts) -> Option<Seq<char>> {
    if cfg.enable_custom_images {
        match real_selection(opt_text(facts.selection)) {
            Some(url) => if spec_local_image_id(url, artist) is None {
                Some(url)
            } else {
                None
            },
            None => None,
        }
    } else {
        None
    }
}

/// The path a committed download is written to.
pub open spec fn commit_target(cfg: ArtistStoreConfig, artist: Seq<char>, image_type: Seq<char>, destination: ImageDestination) -> Seq<char> {
    match destination {
        ImageDestination::Cache => cache_image_path(cfg.cache_dir@, artist, image_type),
        ImageDestination::UserDirectory => user_image_path(cfg.user_dir@, artist, image_type),
    }
}

/// What a successful commit resolves to: whatever the chain finds now (a
/// selection made while the download was in flight wins), or else the file
/// just written.
pub open spec fn committed_path(cfg: ArtistStoreConfig, artist: Seq<char>, written: Seq<char>, facts: ImageFacts) -> Seq<char> {
    match chain_pick(cfg, artist, facts) {
        Some(p) => p,
        None => written,
    }
}

/// A download refused by the checks on its body.
pub open spec fn download_problem(len: nat) -> Option<Seq<char>> {
    if len > MAX_IMAGE_DOWNLOAD_BYTES {
        Some("Downloaded image exceeds the "@ + crate::text::dec(MAX_IMAGE_DOWNLOAD_BYTES as nat) + " byte limit"@)
    } else if len == 0 {
        Some("Downloaded image is empty"@)
    } else {
        None
    }
}

/// Check a downloaded body: not over the size cap, and not empty.
pub fn validate_download(bytes: &[u8]) -> (r: Result<(), String>)
    ensures
        r is Ok <==> download_problem(bytes@.len()) is None,
        r matches Err(m) ==> download_problem(bytes@.len()) == Some(m@),
{
    if bytes.len() as u64 > MAX_IMAGE_DOWNLOAD_BYTES {
        let mut m = owned("Downloaded image exceeds the ");
        let n = crate::text::u64_to_string(MAX_IMAGE_DOWNLOAD_BYTES);
        push_str(&mut m, n.as_str());
        push_str(&mut m, " byte limit");
        return Err(m);
    }
    if bytes.len() == 0 {
        return Err(owned("Downloaded image is empty"));
    }
    Ok(())
}

// ---------------------------------------------------------------------------
// Uploads
// ---------------------------------------------------------------------------

/// The extension an uploaded image is stored under, from its signature:
/// only the formats the resizer can decode.
pub open spec fn upload_extension(kind: Option<ImageKind>) -> Option<Seq<char>> {
    match kind {
        Some(ImageKind::Jpeg) => Some("jpg"@),
        Some(ImageKind::Png) => Some("png"@),
        Some(ImageKind::WebP) => Some("webp"@),
        _ => None,
    }
}

/// The file extension for these bytes, if they are an image we can serve.
pub fn image_extension(bytes: &[u8]) -> (r: Option<&'static str>)
    ensures
        r is None <==> upload_extension(guessed_image_kind(bytes@)) is None,
        r matches Some(e) ==> upload_extension(guessed_image_kind(bytes@)) == Some(e@),
{
    match guess_image_kind(bytes) {
        Some(ImageKind::Jpeg) => Some("jpg"),
        Some(ImageKind::Png) => Some("png"),
        Some(ImageKind::WebP) => Some("webp"),
        _ => None,
    }
}

/// The id of an uploaded image: the hex MD5 of its bytes.
pub fn upload_id(bytes: &[u8]) -> (r: String)
    ensures
        r@ == lower_hex(md5_of(bytes@)),
{
    md5_hex(bytes)
}

/// How many members of a set are uploads.
pub open spec fn uploads_in(images: Seq<ArtistImage>) -> nat
    decreases images.len(),
{
    if images.len() == 0 {
        0
    } else {
        uploads_in(images.drop_last()) + if images.last().source == ArtistImageSource::Upload {
            1nat
        } else {
            0nat
        }
    }
}

fn count_uploads(images: &Vec<ArtistImage>) -> (r: usize)
    ensures
        r == uploads_in(images@),
{
    let mut n: usize = 0;
    let mut i: usize = 0;
    while i < images.len()
        invariant
            i <= images.len(),
            n == uploads_in(images@.take(i as int)),
            n <= i,
        decreases images.len() - i,
    {
        assert(images@.take(i + 1).drop_last() == images@.take(i as int));
        if images[i].source == ArtistImageSource::Upload {
            n = n + 1;
        }
        i = i + 1;
    }
    assert(images@.take(images@.len() as int) == images@);
    n
}

/// Why an upload is refused, or where it goes: `(id, path)`.
pub open spec fn upload_plan(user_dir: Seq<char>, artist: Seq<char>, bytes: Seq<u8>, images: Seq<ArtistImage>) -> Result<(Seq<char>, Seq<char>), Seq<char>> {
    match upload_extension(guessed_image_kind(bytes)) {
        None => Err("Not a recognised image format"@),
        Some(ext) => {
            let id = lower_hex(md5_of(bytes));
            if !has_id(images, id) && uploads_in(images) >= MAX_UPLOADS_PER_ARTIST {
                Err("This artist already has the maximum of "@ + crate::text::dec(MAX_UPLOADS_PER_ARTIST as nat)
                    + " uploaded images; delete one first"@)
            } else {
                Ok((id, uploads_dir(user_dir, artist) + "/"@ + id + "."@ + ext))
            }
        },
    }
}

/// Uploading the same bytes again names the same member at the same path,
/// and is never refused by the cap once the first upload is in the set.
pub proof fn law_reupload_is_the_same_member(
    user_dir: Seq<char>,
    artist: Seq<char>,
    bytes: Seq<u8>,
    before: Seq<ArtistImage>,
    after: Seq<ArtistImage>,
)
    requires
        upload_plan(user_dir, artist, bytes, before) is Ok,
        has_id(after, upload_plan(user_dir, artist, bytes, before)->Ok_0.0),
    ensures
        upload_plan(user_dir, artist, bytes, after) == upload_plan(user_dir, artist, bytes, before),
{
}

/// An accepted upload keeps an artist's set within the cap: adding the new
/// member to a set within the cap leaves it within the cap.
pub proof fn law_uploads_stay_within_the_cap(
    user_dir: Seq<char>,
    artist: Seq<char>,
    bytes: Seq<u8>,
    images: Seq<ArtistImage>,
    member: ArtistImage,
)
    requires
        uploads_in(images) <= MAX_UPLOADS_PER_ARTIST,
        upload_plan(user_dir, artist, bytes, images) is Ok,
        member.id@ == upload_plan(user_dir, artist, bytes, images)->Ok_0.0,
        member.source == ArtistImageSource::Upload,
    ensures
        uploads_in(if has_id(images, member.id@) { images } else { images.push(member) }) <= MAX_UPLOADS_PER_ARTIST,
{
    assert(images.push(member).drop_last() =~= images);
}

pub open spec fn plan_view(r: Result<(String, String), String>) -> Result<(Seq<char>, Seq<char>), Seq<char>> {
    match r {
        Ok((a, b)) => Ok((a@, b@)),
        Err(e) => Err(e@),
    }
}

impl ArtistStore {
    /// What an artist image lookup needs next, resolving (and memoising) the
    /// image first.
    pub fn next_image_step(&mut self, artist_name: &str, facts: &ImageFacts) -> (r: ImageStep)
        requires
            old(self).wf(),
        ensures
            final(self).wf(),
            final(self).configuration() == old(self).configuration(),
            final(self).claims() == old(self).claims(),
            final(self).memo() == resolution(old(self).memo(), old(self).configuration(), artist_name@, *facts).1,
            match resolution(old(self).memo(), old(self).configuration(), artist_name@, *facts).0 {
                Some(p) => r matches ImageStep::Ready(q) && q@ == p,
                None => if !old(self).configuration().auto_download {
                    r is NotFound
                } else {
                    match remote_selection(old(self).configuration(), artist_name@, *facts) {
                        Some(url) => r matches ImageStep::Fetch { url: u, image_type: t, destination: d }
                            && u@ == url && t@ == "custom"@ && d == ImageDestination::Cache,
                        None => r is AskProviders,
                    }
                },
            },
    {
        if let ArtistImageResult::Found { cache_path } = self.get_cached_image(artist_name, facts) {
            return ImageStep::Ready(cache_path);
        }
        if !self.config.auto_download {
            return ImageStep::NotFound;
        }
        if self.config.enable_custom_images {
            if let Some(custom_url) = stored_selection(&facts.selection) {
                if local_image_id(custom_url.as_str(), artist_name).is_none() {
                    return ImageStep::Fetch {
                        url: custom_url,
                        image_type: owned("custom"),
                        destination: ImageDestination::Cache,
                    };
                }
            }
        }
        ImageStep::AskProviders
    }

    /// The path a download of this type is written to.
    pub fn commit_path(&self, artist_name: &str, image_type: &str, destination: ImageDestination) -> (r: String)
        ensures
            r@ == commit_target(self.configuration(), artist_name@, image_type@, destination),
    {
        match destination {
            ImageDestination::Cache => self.get_artist_image_path(artist_name, image_type),
            ImageDestination::UserDirectory => self.get_artist_user_image_path(artist_name, image_type),
        }
    }

    /// Record a download once its bytes have been written (or failed to be):
    /// a failed write is an error and changes nothing; a successful one
    /// resolves the artist afresh, so that a selection made meanwhile wins
    /// over the file just written.
    pub fn commit_downloaded_image(
        &mut self,
        artist_name: &str,
        image_type: &str,
        destination: ImageDestination,
        stored: Result<(), String>,
        facts: &ImageFacts,
    ) -> (r: ArtistImageResult)
        requires
            old(self).wf(),
        ensures
            final(self).wf(),
            final(self).configuration() == old(self).configuration(),
            final(self).claims() == old(self).claims(),
            match stored {
                Err(e) => (r matches ArtistImageResult::Error(m) && m@ == "Failed to store image: "@ + e@)
                    && final(self).memo() == old(self).memo(),
                Ok(()) => {
                    let p = committed_path(old(self).configuration(), artist_name@,
                        commit_target(old(self).configuration(), artist_name@, image_type@, destination), *facts);
                    found_path(r) == Some(p) && final(self).memo() == old(self).memo().insert(artist_name@, p)
                },
            },
    {
        let path = self.commit_path(artist_name, image_type, destination);
        match stored {
            Err(e) => ArtistImageResult::Error(concat2("Failed to store image: ", e.as_str())),
            Ok(()) => {
                let ghost m0 = self.memo();
                self.image_cache.remove(artist_name);
                let picked = self.chain_pick(artist_name, facts);
                let chosen = match picked {
                    Some(p) => p,
                    None => path,
                };
                self.image_cache.insert(owned(artist_name), chosen.clone());
                assert(m0.remove(artist_name@).insert(artist_name@, chosen@) =~= m0.insert(artist_name@, chosen@));
                ArtistImageResult::Found { cache_path: chosen }
            },
        }
    }

    /// Where an upload of these bytes goes, or why it is refused: `(id, path)`.
    /// The same bytes are the same member, so a re-upload is never refused
    /// by the cap.
    pub fn upload_target(&self, artist_name: &str, bytes: &[u8], images: &Vec<ArtistImage>) -> (r: Result<(String, String), String>)
        ensures
            plan_view(r) == upload_plan(self.configuration().user_dir@, artist_name@, bytes@, images@),
    {
        let extension = match image_extension(bytes) {
            Some(e) => e,
            None => return Err(owned("Not a recognised image format")),
        };
        let id = upload_id(bytes);
        let already_stored = find_member(images, id.as_str()).is_some();
        let uploads = count_uploads(images);
        if !already_stored && uploads >= MAX_UPLOADS_PER_ARTIST {
            let mut m = owned("This artist already has the maximum of ");
            let n = crate::text::u64_to_string(MAX_UPLOADS_PER_ARTIST as u64);
            push_str(&mut m, n.as_str());
            push_str(&mut m, " uploaded images; delete one first");
            return Err(m);
        }
        let mut path = self.artist_uploads_dir(artist_name);
        push_str(&mut path, "/");
        push_str(&mut path, id.as_str());
        push_str(&mut path, ".");
        push_str(&mut path, extension);
        Ok((id, path))
    }

    /// The member to delete and whether it is the selected one, or an error
    /// naming the unknown id.
    pub fn delete_target(&self, artist_name: &str, id: &str, stored: &Option<String>, images: &Vec<ArtistImage>) -> (r: Result<(String, bool), String>)
        ensures
            r is Ok <==> has_id(images@, id@),
            r matches Ok((path, was_selected)) ==> member_path(images@, id@) == Some(path@)
                && was_selected == (selected_id(opt_text(*stored), artist_name@, images@) == Some(id@)),
            r matches Err(msg) ==> msg@ == "No image '"@ + id@ + "' for artist '"@ + artist_name@ + "'"@,
    {
        let i = match find_member(images, id) {
            Some(i) => i,
            None => {
                let mut msg = owned("No image '");
                push_str(&mut msg, id);
                push_str(&mut msg, "' for artist '");
                push_str(&mut msg, artist_name);
                push_str(&mut msg, "'");
                return Err(msg);
            },
        };
        let path = images[i].path.clone();
        let selected = self.selected_image_id(artist_name, stored, images);
        let was_selected = match &selected {
            Some(s) => str_eq(s.as_str(), id),
            None => false,
        };
        Ok((path, was_selected))
    }
}

// ---------------------------------------------------------------------------
// Sequencing a download
// ---------------------------------------------------------------------------

/// What to fetch once the download is claimed: the selection's URL as the
/// step named it, or the best provider image as the artist's `cover` in the
/// cache; nothing when the step needs no download or no provider had an
/// image.
pub fn download_target(step: ImageStep, best_provider: Option<String>) -> (r: Option<(String, String, ImageDestination)>)
    ensures
        match step {
            ImageStep::Fetch { url, image_type, destination } => r == Some((url, image_type, destination)),
            ImageStep::AskProviders => match best_provider {
                Some(u) => (r matches Some((x, t, d)) && x == u && t@ == "cover"@ && d == ImageDestination::Cache),
                None => r is None,
            },
            _ => r is None,
        },
{
    match step {
        ImageStep::Fetch { url, image_type, destination } => Some((url, image_type, destination)),
        ImageStep::AskProviders => match best_provider {
            Some(u) => Some((u, owned("cover"), ImageDestination::Cache)),
            None => None,
        },
        _ => None,
    }
}

/// What a caller waiting for another caller's download does after one
/// look: `Some(answer)` to stop with that answer, `None` to wait on. It
/// stops with the image once the artist is ready, and with nothing once the
/// other download's claim is gone or the deadline has passed.
pub fn wait_outcome(step: ImageStep, still_downloading: bool, past_deadline: bool) -> (r: Option<Option<String>>)
    ensures
        step matches ImageStep::Ready(p) ==> r == Some(Some(p)),
        !(step is Ready) ==> (r == if !still_downloading || past_deadline {
            Some(None::<String>)
        } else {
            None
        }),
{
    match step {
        ImageStep::Ready(path) => Some(Some(path)),
        _ => if !still_downloading || past_deadline {
            Some(None)
        } else {
            None
        },
    }
}

// ---------------------------------------------------------------------------
// Listing an artist's set
// ---------------------------------------------------------------------------

/// An extension the daemon serves images under, in any case.
pub open spec fn servable_extension(e: Option<Seq<char>>) -> bool {
    match e {
        Some(x) => {
            let l = crate::text::spec_to_lowercase(x);
            l == "jpg"@ || l == "jpeg"@ || l == "png"@ || l == "webp"@
        },
        None => false,
    }
}

fn has_servable_extension(file_name: &str) -> (r: bool)
    ensures
        r == servable_extension(crate::paths::spec_extension(file_name@)),
{
    match crate::paths::extension(file_name) {
        Some(e) => {
            let l = crate::text::to_lowercase(e.as_str());
            str_eq(l.as_str(), "jpg") || str_eq(l.as_str(), "jpeg") || str_eq(l.as_str(), "png") || str_eq(l.as_str(), "webp")
        },
        None => false,
    }
}

/// A directory entry of the uploads directory that is a member: a file,
/// not a variant (`<stem>@<size>`), named like an image we serve. The name
/// is enough: the extension was sniffed from the bytes when the file was
/// written, so no file is read to classify it. A leftover temporary file
/// (`.<id>.png.<n>.tmp`) is not named like an image and is left out.
pub open spec fn upload_entry(name: Seq<char>, is_file: bool) -> bool {
    &&& is_file
    &&& crate::paths::spec_file_stem(name) is Some
    &&& crate::imageresize::spec_variant_size_of(crate::paths::spec_file_stem(name)->0) is None
    &&& servable_extension(crate::paths::spec_extension(name))
}

/// A member as plain values: `(id, path, source)`.
pub open spec fn image_view(i: ArtistImage) -> (Seq<char>, Seq<char>, ArtistImageSource) {
    (i.id@, i.path@, i.source)
}

/// Members as plain values.
pub open spec fn image_views(s: Seq<ArtistImage>) -> Seq<(Seq<char>, Seq<char>, ArtistImageSource)> {
    s.map_values(|i: ArtistImage| image_view(i))
}

/// The member an accepted upload entry stands for.
pub open spec fn upload_member(dir: Seq<char>, name: Seq<char>) -> (Seq<char>, Seq<char>, ArtistImageSource) {
    (crate::paths::spec_file_stem(name)->0, dir + "/"@ + name, ArtistImageSource::Upload)
}

/// The members the uploads listing holds, in listing order.
pub open spec fn upload_members(dir: Seq<char>, entries: Seq<(String, bool)>) -> Seq<(Seq<char>, Seq<char>, ArtistImageSource)>
    decreases entries.len(),
{
    if entries.len() == 0 {
        Seq::empty()
    } else {
        let rest = upload_members(dir, entries.drop_last());
        if upload_entry(entries.last().0@, entries.last().1) {
            rest.push(upload_member(dir, entries.last().0@))
        } else {
            rest
        }
    }
}

/// The downloaded members: `custom`, then `cover`, each when it is on disk.
pub open spec fn download_members(user_dir: Seq<char>, artist: Seq<char>, custom: bool, cover: bool) -> Seq<(Seq<char>, Seq<char>, ArtistImageSource)> {
    (if custom {
        seq![("custom"@, user_image_path(user_dir, artist, "custom"@), ArtistImageSource::Download)]
    } else {
        Seq::empty()
    }) + (if cover {
        seq![("cover"@, user_image_path(user_dir, artist, "cover"@), ArtistImageSource::Download)]
    } else {
        Seq::empty()
    })
}

/// Ids never decrease along the sequence.
pub open spec fn ids_sorted(s: Seq<(Seq<char>, Seq<char>, ArtistImageSource)>) -> bool {
    forall|i: int, j: int| 0 <= i < j < s.len() ==> !lex_lt(#[trigger] s[j].0, #[trigger] s[i].0)
}

/// Insert a member after every member whose id does not sort after it.
fn insert_by_id(v: &mut Vec<ArtistImage>, x: ArtistImage)
    requires
        ids_sorted(image_views(old(v)@)),
    ensures
        ids_sorted(image_views(final(v)@)),
        final(v)@.len() == old(v)@.len() + 1,
        forall|m: (Seq<char>, Seq<char>, ArtistImageSource)| #[trigger] image_views(final(v)@).contains(m)
            <==> (image_views(old(v)@).contains(m) || m == image_view(x)),
{
    let ghost before = image_views(v@);
    let mut k: usize = 0;
    while k < v.len() && !lex_less(x.id.as_str(), v[k].id.as_str())
        invariant
            k <= v.len(),
            image_views(v@) == before,
            forall|j: int| 0 <= j < k ==> !lex_lt(x.id@, #[trigger] before[j].0),
        decreases v.len() - k,
    {
        k = k + 1;
    }
    let ghost xv = image_view(x);
    v.insert(k, x);
    let ghost after = image_views(v@);
    proof {
        assert(after.len() == before.len() + 1);
        assert forall|j: int| 0 <= j < after.len() implies #[trigger] after[j] == (if j < k {
            before[j]
        } else if j == k {
            xv
        } else {
            before[j - 1]
        }) by {}
        // everything after the insertion point sorts after x
        if k < before.len() {
            assert(lex_lt(xv.0, before[k as int].0));
        }
        assert forall|i: int, j: int| 0 <= i < j < after.len() implies !lex_lt(#[trigger] after[j].0, #[trigger] after[i].0) by {
            if i < k && j < k {
            } else if i < k && j == k {
                lemma_lex_total(xv.0, before[i].0);
                if lex_lt(xv.0, before[i].0) {
                } else if xv.0 == before[i].0 {
                    lemma_lex_irreflexive(xv.0);
                } else {
                    lemma_lex_asymmetric(before[i].0, xv.0);
                }
            } else if i < k && j > k {
                assert(after[j] == before[j - 1]);
            } else if i == k {
                assert(after[j] == before[j - 1]);
                if lex_lt(before[j - 1].0, xv.0) {
                    if j - 1 == k {
                        lemma_lex_asymmetric(xv.0, before[k as int].0);
                    } else {
                        assert(!lex_lt(before[j - 1].0, before[k as int].0));
                        lemma_lex_transitive(before[j - 1].0, xv.0, before[k as int].0);
                    }
                }
            } else {
                assert(after[i] == before[i - 1]);
                assert(after[j] == before[j - 1]);
            }
        }
        assert forall|m: (Seq<char>, Seq<char>, ArtistImageSource)| #[trigger] after.contains(m)
            <==> (before.contains(m) || m == xv) by {
            if after.contains(m) {
                let j = choose|j: int| 0 <= j < after.len() && after[j] == m;
                if j < k {
                    assert(before[j] == m);
                } else if j > k {
                    assert(before[j - 1] == m);
                }
            }
            if before.contains(m) {
                let j = choose|j: int| 0 <= j < before.len() && before[j] == m;
                if j < k {
                    assert(after[j] == m);
                } else {
                    assert(after[j + 1] == m);
                }
            }
            if m == xv {
                assert(after[k as int] == m);
            }
        }
    }
}

impl ArtistStore {
    /// An artist's image set, from what the user directory holds: whether
    /// `custom.jpg` and `cover.jpg` are on disk, and the uploads directory's
    /// listing as `(file name, is a regular file)`. The downloads come
    /// first, `custom` then `cover`; the uploads follow, ordered by id.
    pub fn artist_images_from(&self, artist_name: &str, custom: bool, cover: bool, uploads: &Vec<(String, bool)>) -> (r: Vec<ArtistImage>)
        ensures
            ({
                let d = download_members(self.configuration().user_dir@, artist_name@, custom, cover);
                let u = upload_members(uploads_dir(self.configuration().user_dir@, artist_name@), uploads@);
                let rv = image_views(r@);
                &&& rv.len() == d.len() + u.len()
                &&& rv.take(d.len() as int) == d
                &&& ids_sorted(rv.skip(d.len() as int))
                &&& forall|m: (Seq<char>, Seq<char>, ArtistImageSource)| #[trigger] rv.skip(d.len() as int).contains(m) <==> u.contains(m)
            }),
    {
        let ghost udir = uploads_dir(self.configuration().user_dir@, artist_name@);
        let mut images: Vec<ArtistImage> = Vec::new();
        if custom {
            images.push(ArtistImage { id: owned("custom"), path: self.get_artist_user_image_path(artist_name, "custom"), source: ArtistImageSource::Download });
        }
        if cover {
            images.push(ArtistImage { id: owned("cover"), path: self.get_artist_user_image_path(artist_name, "cover"), source: ArtistImageSource::Download });
        }
        let ghost d = download_members(self.configuration().user_dir@, artist_name@, custom, cover);
        assert(image_views(images@) =~= d);
        let dir = self.artist_uploads_dir(artist_name);
        let mut found: Vec<ArtistImage> = Vec::new();
        let mut i: usize = 0;
        while i < uploads.len()
            invariant
                i <= uploads.len(),
                dir@ == udir,
                found@.len() == upload_members(udir, uploads@.take(i as int)).len(),
                ids_sorted(image_views(found@)),
                forall|m: (Seq<char>, Seq<char>, ArtistImageSource)| #[trigger] image_views(found@).contains(m)
                    <==> upload_members(udir, uploads@.take(i as int)).contains(m),
            decreases uploads.len() - i,
        {
            assert(uploads@.take(i + 1).drop_last() =~= uploads@.take(i as int));
            let name = &uploads[i].0;
            let is_file = uploads[i].1;
            let ghost prev = upload_members(udir, uploads@.take(i as int));
            if is_file {
                match crate::paths::file_stem(name.as_str()) {
                    Some(stem) => {
                        if crate::imageresize::variant_size_of(stem.as_str()).is_none() && has_servable_extension(name.as_str()) {
                            let path = concat3(dir.as_str(), "/", name.as_str());
                            let member = ArtistImage { id: stem, path, source: ArtistImageSource::Upload };
                            assert(image_view(member) == upload_member(udir, name@));
                            insert_by_id(&mut found, member);
                            proof {
                                let now = upload_members(udir, uploads@.take(i + 1));
                                assert(now == prev.push(upload_member(udir, name@)));
                                assert forall|m: (Seq<char>, Seq<char>, ArtistImageSource)| #[trigger] now.contains(m)
                                    <==> (prev.contains(m) || m == upload_member(udir, name@)) by {
                                    if now.contains(m) {
                                        let j = choose|j: int| 0 <= j < now.len() && now[j] == m;
                                        if j < prev.len() {
                                            assert(prev[j] == m);
                                        }
                                    }
                                    if prev.contains(m) {
                                        let j = choose|j: int| 0 <= j < prev.len() && prev[j] == m;
                                        assert(now[j] == m);
                                    }
                                    if m == upload_member(udir, name@) {
                                        assert(now[prev.len() as int] == m);
                                    }
                                }
                            }
                        }
                    },
                    None => {},
                }
            }
            i = i + 1;
        }
        assert(uploads@.take(uploads@.len() as int) =~= uploads@);
        let ghost fv = image_views(found@);
        let mut k: usize = 0;
        let ghost dlen = images@.len();
        while k < found.len()
            invariant
                k <= found.len(),
                dlen == d.len(),
                images@.len() == dlen + k,
                image_views(images@) =~= d + fv.take(k as int),
                fv == image_views(found@),
            decreases found.len() - k,
        {
            let ghost old_images = images@;
            images.push(found[k].duplicate());
            assert(image_views(images@) =~= image_views(old_images).push(image_view(found@[k as int])));
            assert(fv[k as int] == image_view(found@[k as int]));
            assert(fv.take(k + 1) =~= fv.take(k as int).push(fv[k as int]));
            k = k + 1;
        }
        proof {
            let rv = image_views(images@);
            assert(fv.take(fv.len() as int) =~= fv);
            assert(rv.take(d.len() as int) =~= d);
            assert(rv.skip(d.len() as int) =~= fv);
        }
        images
    }
}

// ---------------------------------------------------------------------------
// Choosing among the providers' images
// ---------------------------------------------------------------------------

/// An image's grade, an ungraded image counting as 0.
pub open spec fn grade_or_zero(g: Option<i32>) -> int {
    match g {
        Some(x) => x as int,
        None => 0,
    }
}

/// Every image of every result as `(grade, url)`, results in order and each
/// result's images in order.
pub open spec fn graded_urls(results: Seq<CoverartResult>) -> Seq<(int, Seq<char>)>
    decreases results.len(),
{
    if results.len() == 0 {
        Seq::empty()
    } else {
        graded_urls(results.drop_last()) + results.last().images@.map_values(
            |im: ImageInfo| (grade_or_zero(im.grade), im.url@),
        )
    }
}

/// The URL of the first image whose grade beats every earlier one, starting
/// from `grade`.
pub open spec fn best_from(s: Seq<(int, Seq<char>)>, best: Option<Seq<char>>, grade: int) -> Option<Seq<char>>
    decreases s.len(),
{
    if s.len() == 0 {
        best
    } else if s[0].0 > grade {
        best_from(s.drop_first(), Some(s[0].1), s[0].0)
    } else {
        best_from(s.drop_first(), best, grade)
    }
}

pub open spec fn pair_views(v: Seq<(i32, String)>) -> Seq<(int, Seq<char>)> {
    v.map_values(|p: (i32, String)| (p.0 as int, p.1@))
}

/// The highest-graded image the providers offered (the first of equals),
/// among grades above -10.
pub fn best_provider_image(results: &Vec<CoverartResult>) -> (r: Option<String>)
    ensures
        opt_text(r) == best_from(graded_urls(results@), None, -10),
{
    let mut flat: Vec<(i32, String)> = Vec::new();
    let mut i: usize = 0;
    while i < results.len()
        invariant
            i <= results.len(),
            pair_views(flat@) == graded_urls(results@.take(i as int)),
        decreases results.len() - i,
    {
        let images = &results[i].images;
        let ghost before = pair_views(flat@);
        let mut j: usize = 0;
        while j < images.len()
            invariant
                j <= images.len(),
                images == &results@[i as int].images,
                pair_views(flat@) == before + images@.take(j as int).map_values(
                    |im: ImageInfo| (grade_or_zero(im.grade), im.url@),
                ),
            decreases images.len() - j,
        {
            let g: i32 = match images[j].grade {
                Some(x) => x,
                None => 0,
            };
            let ghost prev = pair_views(flat@);
            let ghost elem = (grade_or_zero(images@[j as int].grade), images@[j as int].url@);
            let ghost a = images@.take(j as int).map_values(|im: ImageInfo| (grade_or_zero(im.grade), im.url@));
            flat.push((g, images[j].url.clone()));
            j = j + 1;
            proof {
                assert(pair_views(flat@) =~= prev.push(elem));
                assert(images@.take(j as int).map_values(|im: ImageInfo| (grade_or_zero(im.grade), im.url@))
                    =~= a.push(elem));
                assert((before + a).push(elem) =~= before + a.push(elem));
            }
        }
        assert(images@.take(images@.len() as int) == images@);
        assert(results@.take(i + 1).drop_last() == results@.take(i as int));
        i = i + 1;
    }
    assert(results@.take(results@.len() as int) == results@);
    let ghost all = pair_views(flat@);
    let mut best: Option<String> = None;
    let mut best_grade: i32 = -10;
    let mut k: usize = 0;
    assert(all.skip(0) =~= all);
    while k < flat.len()
        invariant
            k <= flat.len(),
            all == pair_views(flat@),
            best_from(all, None, -10) == best_from(all.skip(k as int), opt_text(best), best_grade as int),
        decreases flat.len() - k,
    {
        assert(all.skip(k as int).drop_first() =~= all.skip(k + 1));
        assert(all.skip(k as int)[0] == all[k as int]);
        if flat[k].0 > best_grade {
            best_grade = flat[k].0;
            best = Some(flat[k].1.clone());
        }
        k = k + 1;
    }
    assert(all.skip(all.len() as int) =~= Seq::<(int, Seq<char>)>::empty());
    best
}

impl ArtistStore {
    /// The MusicBrainz ids a search found, and whether only some of the
    /// artists of a multi-artist name were found.
    pub fn lookup_artist_mbids(&self, search_result: MusicBrainzSearchResult) -> (r: (Vec<String>, bool))
        ensures
            match search_result {
                MusicBrainzSearchResult::Found(ids, _) => r.0@ == ids@ && !r.1,
                MusicBrainzSearchResult::FoundPartial(ids, _) => r.0@ == ids@ && r.1,
                _ => r.0@.len() == 0 && !r.1,
            },
    {
        match search_result {
            MusicBrainzSearchResult::Found(ids, _) => (ids, false),
            MusicBrainzSearchResult::FoundPartial(ids, _) => (ids, true),
            MusicBrainzSearchResult::NotFound => (Vec::new(), false),
            MusicBrainzSearchResult::Error(_) => (Vec::new(), false),
        }
    }
}

} // verus!
