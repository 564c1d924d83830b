//! The image cache's bookkeeping: where a cached image lives, what it is
//! recorded as, when it expires, and what the cache adds up to.
//!
//! The files themselves are written and read by the caller; everything the
//! cache decides about them is here.

use vstd::prelude::*;
use crate::imageresize::{is_variant_file_name, last_index_of, lemma_last_index_of, spec_variant_size_of, variant_size_of};
use crate::paths::{extension, file_stem, spec_extension, spec_file_stem};
use crate::text::{chars_of, string_of_range, concat3, ends_with, is_prefix, is_suffix, owned, push_str, spec_to_lowercase, starts_with, str_eq, to_lowercase, views};
use crate::text_map::TextMap;

verus! {

/// Seconds since the Unix epoch, by the system clock; 0 for a clock set
/// before the epoch.
#[verifier::external_body]
pub(crate) fn now_secs() -> (r: u64) {
    std::time::SystemTime::now()
        .duration_since(std::time::UNIX_EPOCH)
        .unwrap_or_default()
        .as_secs()
}

/// Metadata for a cached image.
#[derive(Debug, Clone)]
pub struct ImageMetadata {
    /// The image's cache-relative path.
    pub name: String,
    /// Size of the image in bytes.
    pub size: u64,
    pub mime_type: String,
    /// When the image was cached, in seconds since the Unix epoch.
    pub cached_at: u64,
    /// When it expires, in seconds since the Unix epoch.
    pub expires_at: Option<u64>,
}

/// Statistics about the image cache.
#[derive(Debug, Clone)]
pub struct ImageCacheStats {
    /// Cached images, variants included.
    pub total_images: usize,
    /// Their bytes, variants included.
    pub total_size: u64,
    /// How many of those are generated variants.
    pub variant_images: usize,
    /// How many of those bytes are generated variants.
    pub variant_size: u64,
    /// When the statistics were taken, in seconds since the Unix epoch.
    pub last_updated: u64,
}

impl ImageCacheStats {
    /// Empty statistics, taken now.
    pub fn new() -> (r: ImageCacheStats)
        ensures
            r.total_images == 0 && r.total_size == 0 && r.variant_images == 0 && r.variant_size == 0,
    {
        ImageCacheStats::empty_at(now_secs())
    }

    /// Empty statistics taken at `now`.
    pub fn empty_at(now: u64) -> (r: ImageCacheStats)
        ensures
            r.total_images == 0 && r.total_size == 0 && r.variant_images == 0 && r.variant_size == 0,
            r.last_updated == now,
    {
        ImageCacheStats { total_images: 0, total_size: 0, variant_images: 0, variant_size: 0, last_updated: now }
    }
}

/// Whether a cached image name is a generated variant.
pub open spec fn names_variant(name: Seq<char>) -> bool {
    match spec_file_stem(name) {
        Some(stem) => spec_variant_size_of(stem) is Some,
        None => false,
    }
}

/// The counts a list of image records adds up to:
/// `(images, bytes, variant images, variant bytes)`.
pub open spec fn tally(entries: Seq<ImageMetadata>) -> (int, int, int, int)
    decreases entries.len(),
{
    if entries.len() == 0 {
        (0, 0, 0, 0)
    } else {
        let (n, b, vn, vb) = tally(entries.drop_last());
        let e = entries.last();
        if names_variant(e.name@) {
            (n + 1, b + e.size, vn + 1, vb + e.size)
        } else {
            (n + 1, b + e.size, vn, vb)
        }
    }
}

proof fn lemma_tally_bounds(entries: Seq<ImageMetadata>)
    ensures
        tally(entries).0 == entries.len(),
        0 <= tally(entries).2 <= tally(entries).0,
        0 <= tally(entries).3 <= tally(entries).1,
        0 <= tally(entries).1,
    decreases entries.len(),
{
    if entries.len() > 0 {
        lemma_tally_bounds(entries.drop_last());
    }
}

/// What the records of the cached images add up to, taken at `now`.
pub fn stats_from_metadata(entries: &Vec<ImageMetadata>, now: u64) -> (r: ImageCacheStats)
    requires
        tally(entries@).1 <= u64::MAX,
    ensures
        (r.total_images as int, r.total_size as int, r.variant_images as int, r.variant_size as int) == tally(entries@),
        r.last_updated == now,
{
    let mut stats = ImageCacheStats::empty_at(now);
    let mut i: usize = 0;
    proof {
        lemma_tally_bounds(entries@);
    }
    while i < entries.len()
        invariant
            i <= entries.len(),
            tally(entries@).1 <= u64::MAX,
            (stats.total_images as int, stats.total_size as int, stats.variant_images as int, stats.variant_size as int)
                == tally(entries@.take(i as int)),
            stats.last_updated == now,
        decreases entries.len() - i,
    {
        proof {
            assert(entries@.take(i + 1).drop_last() =~= entries@.take(i as int));
            lemma_tally_bounds(entries@.take(i + 1));
            lemma_tally_prefix(entries@, i + 1);
        }
        let size = entries[i].size;
        stats.total_images = stats.total_images + 1;
        stats.total_size = stats.total_size + size;
        if is_variant_file_name(entries[i].name.as_str()) {
            stats.variant_images = stats.variant_images + 1;
            stats.variant_size = stats.variant_size + size;
        }
        i = i + 1;
    }
    assert(entries@.take(entries@.len() as int) =~= entries@);
    stats
}

proof fn lemma_tally_prefix(entries: Seq<ImageMetadata>, k: int)
    requires
        0 <= k <= entries.len(),
    ensures
        tally(entries.take(k)).1 <= tally(entries).1,
    decreases entries.len() - k,
{
    if k < entries.len() {
        lemma_tally_prefix(entries, k + 1);
        assert(entries.take(k + 1).drop_last() =~= entries.take(k));
    } else {
        assert(entries.take(k) =~= entries);
    }
}

/// Statistics are reused for five minutes.
pub const STATS_MAX_AGE_SECS: u64 = 300;

/// The cached statistics, when they were taken less than five minutes
/// before `now`; statistics from the future are not reused.
pub fn fresh_cached_stats(cached: Option<ImageCacheStats>, now: u64) -> (r: Option<ImageCacheStats>)
    ensures
        r is Some <==> (cached matches Some(s) && s.last_updated <= now && now - s.last_updated < STATS_MAX_AGE_SECS),
        r matches Some(s) ==> cached == Some(s),
{
    match cached {
        Some(s) => if s.last_updated <= now && now - s.last_updated < STATS_MAX_AGE_SECS {
            Some(s)
        } else {
            None
        },
        None => None,
    }
}

// ---------------------------------------------------------------------------
// Mime types and extensions
// ---------------------------------------------------------------------------

/// The extension an image of a mime type is stored under.
pub open spec fn spec_mime_extension(mime: Seq<char>) -> Seq<char> {
    if mime == "image/jpeg"@ {
        "jpg"@
    } else if mime == "image/png"@ {
        "png"@
    } else if mime == "image/gif"@ {
        "gif"@
    } else if mime == "image/webp"@ {
        "webp"@
    } else if mime == "image/bmp"@ {
        "bmp"@
    } else if mime == "image/svg+xml"@ {
        "svg"@
    } else {
        "bin"@
    }
}

/// The image types the cache names an extension for.
pub open spec fn known_image_mime(m: Seq<char>) -> bool {
    ||| m == "image/jpeg"@
    ||| m == "image/png"@
    ||| m == "image/gif"@
    ||| m == "image/webp"@
    ||| m == "image/bmp"@
    ||| m == "image/svg+xml"@
}

/// Each known image type is stored under an extension of its own, never the
/// unknown type's `bin`; and the extension read back names the type it was
/// made from (as it does whenever lower-casing leaves the extension as it
/// is, which it does for these lower-case ASCII names).
pub proof fn law_known_image_types_round_trip(m: Seq<char>, n: Seq<char>)
    requires
        known_image_mime(m),
    ensures
        spec_mime_extension(m) != "bin"@,
        known_image_mime(n) && m != n ==> spec_mime_extension(m) != spec_mime_extension(n),
        spec_to_lowercase(spec_mime_extension(m)) == spec_mime_extension(m)
            ==> spec_extension_mime(spec_mime_extension(m)) == m,
{
    reveal_strlit("image/jpeg");
    reveal_strlit("image/png");
    reveal_strlit("image/gif");
    reveal_strlit("image/webp");
    reveal_strlit("image/bmp");
    reveal_strlit("image/svg+xml");
    reveal_strlit("jpg");
    reveal_strlit("jpeg");
    reveal_strlit("png");
    reveal_strlit("gif");
    reveal_strlit("webp");
    reveal_strlit("bmp");
    reveal_strlit("svg");
    reveal_strlit("bin");
    assert("jpg"@[0] != "png"@[0] && "jpg"@[0] != "gif"@[0] && "jpg"@[0] != "bmp"@[0] && "jpg"@[0] != "svg"@[0]);
    assert("png"@[0] != "gif"@[0] && "png"@[0] != "bmp"@[0] && "png"@[0] != "svg"@[0] && "gif"@[0] != "bmp"@[0]);
    assert("gif"@[0] != "svg"@[0] && "bmp"@[0] != "svg"@[0] && "bin"@[1] != "bmp"@[1]);
    assert("bin"@[0] != "jpg"@[0] && "bin"@[0] != "png"@[0] && "bin"@[0] != "gif"@[0] && "bin"@[0] != "svg"@[0]);
    assert("image/jpeg"@[6] != "image/png"@[6] && "image/jpeg"@[6] != "image/gif"@[6] && "image/jpeg"@[6] != "image/webp"@[6]);
    assert("image/jpeg"@[6] != "image/bmp"@[6] && "image/jpeg"@[6] != "image/svg+xml"@[6]);
    assert("image/png"@[6] != "image/gif"@[6] && "image/png"@[6] != "image/webp"@[6] && "image/png"@[6] != "image/bmp"@[6]);
    assert("image/png"@[6] != "image/svg+xml"@[6] && "image/gif"@[6] != "image/webp"@[6] && "image/gif"@[6] != "image/bmp"@[6]);
    assert("image/gif"@[6] != "image/svg+xml"@[6] && "image/webp"@[6] != "image/bmp"@[6] && "image/webp"@[6] != "image/svg+xml"@[6]);
    assert("image/bmp"@[6] != "image/svg+xml"@[6]);
    assert("jpg"@.len() == 3 && "png"@.len() == 3 && "gif"@.len() == 3 && "bmp"@.len() == 3);
    assert("svg"@.len() == 3 && "bin"@.len() == 3 && "jpeg"@.len() == 4 && "webp"@.len() == 4);
    assert("jpeg"@[0] != "webp"@[0]);
}

/// Convert a mime type to a file extension (`bin` when unknown).
pub fn mime_type_to_extension(mime_type: &str) -> (r: &'static str)
    ensures
        r@ == spec_mime_extension(mime_type@),
{
    if str_eq(mime_type, "image/jpeg") {
        "jpg"
    } else if str_eq(mime_type, "image/png") {
        "png"
    } else if str_eq(mime_type, "image/gif") {
        "gif"
    } else if str_eq(mime_type, "image/webp") {
        "webp"
    } else if str_eq(mime_type, "image/bmp") {
        "bmp"
    } else if str_eq(mime_type, "image/svg+xml") {
        "svg"
    } else {
        "bin"
    }
}

/// The mime type of an extension, compared lower-cased.
pub open spec fn spec_extension_mime(ext: Seq<char>) -> Seq<char> {
    let e = spec_to_lowercase(ext);
    if e == "jpg"@ || e == "jpeg"@ {
        "image/jpeg"@
    } else if e == "png"@ {
        "image/png"@
    } else if e == "gif"@ {
        "image/gif"@
    } else if e == "webp"@ {
        "image/webp"@
    } else if e == "bmp"@ {
        "image/bmp"@
    } else if e == "svg"@ {
        "image/svg+xml"@
    } else {
        "application/octet-stream"@
    }
}

/// Convert a file extension to a mime type (`application/octet-stream`
/// when unknown).
pub fn extension_to_mime_type(extension: &str) -> (r: &'static str)
    ensures
        r@ == spec_extension_mime(extension@),
{
    let e = to_lowercase(extension);
    let e = e.as_str();
    if str_eq(e, "jpg") || str_eq(e, "jpeg") {
        "image/jpeg"
    } else if str_eq(e, "png") {
        "image/png"
    } else if str_eq(e, "gif") {
        "image/gif"
    } else if str_eq(e, "webp") {
        "image/webp"
    } else if str_eq(e, "bmp") {
        "image/bmp"
    } else if str_eq(e, "svg") {
        "image/svg+xml"
    } else {
        "application/octet-stream"
    }
}

/// The mime type a path's extension names.
pub open spec fn spec_guess_mime(path: Seq<char>) -> Seq<char> {
    match spec_extension(path) {
        Some(e) => spec_extension_mime(e),
        None => "application/octet-stream"@,
    }
}

/// Guess the mime type of a path from its extension.
pub fn guess_mime_type(path: &str) -> (r: String)
    ensures
        r@ == spec_guess_mime(path@),
{
    match extension(path) {
        Some(e) => owned(extension_to_mime_type(e.as_str())),
        None => owned("application/octet-stream"),
    }
}

// ---------------------------------------------------------------------------
// The cache
// ---------------------------------------------------------------------------

/// `base` joined with `path` as std's `Path::join` does for plain text: an
/// absolute `path` replaces `base`; otherwise a `/` separates them unless
/// `base` is empty or already ends in one.
pub open spec fn joined(base: Seq<char>, path: Seq<char>) -> Seq<char> {
    if is_prefix("/"@, path) {
        path
    } else if base.len() == 0 || is_suffix("/"@, base) {
        base + path
    } else {
        base + "/"@ + path
    }
}

/// Join a relative path onto a base directory.
pub fn join_path(base: &str, path: &str) -> (r: String)
    ensures
        r@ == joined(base@, path@),
{
    if starts_with(path, "/") {
        return owned(path);
    }
    if base.unicode_len() == 0 || ends_with(base, "/") {
        let mut r = owned(base);
        push_str(&mut r, path);
        return r;
    }
    concat3(base, "/", path)
}

/// A cache for storing image files under one directory.
#[derive(Debug, Clone)]
pub struct ImageCache {
    base_path: String,
    enabled: bool,
    expiry_metadata_path: String,
}

impl ImageCache {
    pub closed spec fn spec_base_path(&self) -> Seq<char> {
        self.base_path@
    }

    pub closed spec fn spec_enabled(&self) -> bool {
        self.enabled
    }

    pub closed spec fn spec_expiry_path(&self) -> Seq<char> {
        self.expiry_metadata_path@
    }

    /// A cache in the default directory, enabled.
    pub fn new() -> (r: ImageCache)
        ensures
            r.spec_base_path() == "/var/lib/audiocontrol/cache/images"@,
            r.spec_enabled(),
            r.spec_expiry_path() == joined("/var/lib/audiocontrol/cache/images"@, ".expiry_metadata.json"@),
    {
        ImageCache::with_directory("/var/lib/audiocontrol/cache/images")
    }

    /// A cache in `dir`, enabled, keeping its expiry records beside the images.
    pub fn with_directory(dir: &str) -> (r: ImageCache)
        ensures
            r.spec_base_path() == dir@,
            r.spec_enabled(),
            r.spec_expiry_path() == joined(dir@, ".expiry_metadata.json"@),
    {
        ImageCache {
            base_path: owned(dir),
            enabled: true,
            expiry_metadata_path: join_path(dir, ".expiry_metadata.json"),
        }
    }

    /// Enable or disable the cache.
    /// A cache in `dir` whose expiry times are kept at `expiry_path`.
    pub fn with_custom_expiry_path(dir: &str, expiry_path: &str) -> (r: ImageCache)
        ensures
            r.spec_base_path() == dir@,
            r.spec_enabled(),
            r.spec_expiry_path() == expiry_path@,
    {
        ImageCache { base_path: owned(dir), enabled: true, expiry_metadata_path: owned(expiry_path) }
    }

    pub fn enable(&mut self, enabled: bool)
        ensures
            final(self).spec_enabled() == enabled,
            final(self).spec_base_path() == old(self).spec_base_path(),
            final(self).spec_expiry_path() == old(self).spec_expiry_path(),
    {
        self.enabled = enabled;
    }

    /// Whether the cache is enabled.
    pub fn is_enabled(&self) -> (r: bool)
        ensures
            r == self.spec_enabled(),
    {
        self.enabled
    }

    /// The directory this cache stores images under.
    pub fn base_path(&self) -> (r: &String)
        ensures
            r@ == self.spec_base_path(),
    {
        &self.base_path
    }

    /// Where the expiry records are kept.
    pub fn expiry_metadata_path(&self) -> (r: &String)
        ensures
            r@ == self.spec_expiry_path(),
    {
        &self.expiry_metadata_path
    }

    /// The full path of a cache-relative path.
    pub fn get_full_path(&self, path: &str) -> (r: String)
        ensures
            r@ == joined(self.spec_base_path(), path@),
    {
        join_path(self.base_path.as_str(), path)
    }

    /// The record of an image just stored at a cache-relative path.
    pub fn metadata_for(&self, path: &str, size: u64, mime_type: String, cached_at: u64, expires_at: Option<u64>) -> (r: ImageMetadata)
        ensures
            r.name@ == path@,
            r.size == size,
            r.mime_type@ == mime_type@,
            r.cached_at == cached_at,
            r.expires_at == expires_at,
    {
        ImageMetadata { name: owned(path), size, mime_type, cached_at, expires_at }
    }

    /// The path an image of a mime type is stored at: the base path with the
    /// type's extension.
    pub fn path_with_extension(&self, path: &str, mime_type: &str) -> (r: String)
        ensures
            r@ == path@ + "."@ + spec_mime_extension(mime_type@),
    {
        concat3(path, ".", mime_type_to_extension(mime_type))
    }

    /// Whether an image with this expiry has expired at `now`: never for a
    /// disabled cache or an image without an expiry.
    pub fn is_image_expired(&self, expires_at: Option<u64>, now: u64) -> (r: bool)
        ensures
            r == (self.spec_enabled() && (expires_at matches Some(t) && now >= t)),
    {
        if !self.enabled {
            return false;
        }
        match expires_at {
            Some(t) => now >= t,
            None => false,
        }
    }
}

/// Whether a file name in a directory is one of a provider's files for a
/// base name: it starts with `{base}.{provider}`.
/// When cached images expire: for each cache-relative path, a time in
/// seconds since the Unix epoch. A path with no entry does not expire.
pub struct ImageExpiryMetadata {
    expiry_map: TextMap<u64>,
}

impl ImageExpiryMetadata {
    pub closed spec fn wf(&self) -> bool {
        self.expiry_map.wf()
    }

    /// The expiry time of each path that has one.
    pub closed spec fn expiries(&self) -> Map<Seq<char>, u64> {
        self.expiry_map@
    }

    /// No image expires.
    pub fn new() -> (r: ImageExpiryMetadata)
        ensures
            r.wf(),
            r.expiries() =~= Map::empty(),
    {
        ImageExpiryMetadata { expiry_map: TextMap::new() }
    }

    /// The expiry time of `path`, if it has one.
    pub fn get(&self, path: &str) -> (r: Option<u64>)
        requires
            self.wf(),
        ensures
            r is Some <==> self.expiries().contains_key(path@),
            r matches Some(t) ==> self.expiries()[path@] == t,
    {
        match self.expiry_map.get(path) {
            Some(t) => Some(*t),
            None => None,
        }
    }

    /// `path` expires at `expires_at`, whatever was recorded before.
    pub fn set(&mut self, path: &str, expires_at: u64)
        requires
            old(self).wf(),
        ensures
            final(self).wf(),
            final(self).expiries() == old(self).expiries().insert(path@, expires_at),
    {
        self.expiry_map.insert(owned(path), expires_at);
    }

    /// `path` no longer expires.
    pub fn remove(&mut self, path: &str)
        requires
            old(self).wf(),
        ensures
            final(self).wf(),
            final(self).expiries() == old(self).expiries().remove(path@),
    {
        self.expiry_map.remove(path);
    }

    /// Every path with an expiry time, each once.
    pub fn paths(&self) -> (r: Vec<String>)
        requires
            self.wf(),
        ensures
            views(r@).no_duplicates(),
            forall|p: Seq<char>| views(r@).contains(p) <==> self.expiries().contains_key(p),
    {
        self.expiry_map.keys()
    }

    /// The paths expired at `now`: those whose expiry time is not after it.
    pub fn expired(&self, now: u64) -> (r: Vec<String>)
        requires
            self.wf(),
        ensures
            forall|p: Seq<char>| views(r@).contains(p) <==> (self.expiries().contains_key(p) && now >= self.expiries()[p]),
    {
        let all = self.paths();
        let mut out: Vec<String> = Vec::new();
        let mut i: usize = 0;
        while i < all.len()
            invariant
                self.wf(),
                i <= all.len(),
                forall|p: Seq<char>| views(all@).contains(p) <==> self.expiries().contains_key(p),
                forall|p: Seq<char>| views(out@).contains(p) <==> (views(all@).take(i as int).contains(p)
                    && now >= self.expiries()[p]),
            decreases all.len() - i,
        {
            let ghost before = out@;
            let p = &all[i];
            assert(views(all@)[i as int] == p@);
            assert(views(all@).contains(p@));
            let t = match self.get(p.as_str()) {
                Some(t) => t,
                None => {
                    assert(false);
                    0
                },
            };
            if now >= t {
                out.push(p.clone());
                assert(views(out@) =~= views(before).push(p@));
            }
            proof {
                let taken = views(all@).take(i + 1);
                assert(taken =~= views(all@).take(i as int).push(p@));
                assert forall|q: Seq<char>| views(out@).contains(q) <==> (taken.contains(q) && now >= self.expiries()[q]) by {
                    assert(views(before).contains(q) <==> (views(all@).take(i as int).contains(q) && now >= self.expiries()[q]));
                    assert(taken.contains(q) <==> (views(all@).take(i as int).contains(q) || q == p@)) by {
                        if taken.contains(q) {
                            let w = choose|w: int| 0 <= w < taken.len() && taken[w] == q;
                            if w < i {
                                assert(views(all@).take(i as int)[w] == q);
                            }
                        }
                        if views(all@).take(i as int).contains(q) {
                            let w = choose|w: int| 0 <= w < i && views(all@).take(i as int)[w] == q;
                            assert(taken[w] == q);
                        }
                        if q == p@ {
                            assert(taken[i as int] == q);
                        }
                    }
                    if now >= t {
                        assert(views(out@) == views(before).push(p@));
                        assert(views(out@).contains(q) <==> (views(before).contains(q) || q == p@)) by {
                            if views(out@).contains(q) {
                                let w = choose|w: int| 0 <= w < views(out@).len() && views(out@)[w] == q;
                                if w < views(before).len() {
                                    assert(views(before)[w] == q);
                                }
                            }
                            if views(before).contains(q) {
                                let w = choose|w: int| 0 <= w < views(before).len() && views(before)[w] == q;
                                assert(views(out@)[w] == q);
                            }
                            if q == p@ {
                                assert(views(out@)[views(before).len() as int] == q);
                            }
                        }
                    } else {
                        assert(out@ == before);
                    }
                }
            }
            i = i + 1;
        }
        assert(views(all@).take(all.len() as int) =~= views(all@));
        out
    }
}

pub open spec fn spec_is_provider_file(file_name: Seq<char>, base_name: Seq<char>, provider: Seq<char>) -> bool {
    is_prefix(base_name + "."@ + provider, file_name)
}

/// Whether a file name is one of a provider's files for a base name.
pub fn is_provider_file(file_name: &str, base_name: &str, provider: &str) -> (r: bool)
    ensures
        r == spec_is_provider_file(file_name@, base_name@, provider@),
{
    let pattern = concat3(base_name, ".", provider);
    starts_with(file_name, pattern.as_str())
}

/// How many of a directory's file names are a provider's files.
pub open spec fn provider_file_count(names: Seq<Seq<char>>, base_name: Seq<char>, provider: Seq<char>) -> nat
    decreases names.len(),
{
    if names.len() == 0 {
        0
    } else {
        provider_file_count(names.drop_last(), base_name, provider)
            + if spec_is_provider_file(names.last(), base_name, provider) {
            1nat
        } else {
            0nat
        }
    }
}

/// Count a provider's files among a directory's file names.
pub fn count_provider_files(names: &Vec<String>, base_name: &str, provider: &str) -> (r: usize)
    ensures
        r == provider_file_count(crate::text::views(names@), base_name@, provider@),
{
    let mut n: usize = 0;
    let mut i: usize = 0;
    while i < names.len()
        invariant
            i <= names.len(),
            n <= i,
            n == provider_file_count(crate::text::views(names@.take(i as int)), base_name@, provider@),
        decreases names.len() - i,
    {
        assert(crate::text::views(names@.take(i + 1)).drop_last() =~= crate::text::views(names@.take(i as int)));
        if is_provider_file(names[i].as_str(), base_name, provider) {
            n = n + 1;
        }
        i = i + 1;
    }
    assert(names@.take(names@.len() as int) =~= names@);
    n
}

/// Whether any of a directory's file names is a provider's file.
pub fn provider_files_exist(names: &Vec<String>, base_name: &str, provider: &str) -> (r: bool)
    ensures
        r == (provider_file_count(crate::text::views(names@), base_name@, provider@) > 0),
{
    count_provider_files(names, base_name, provider) > 0
}

// ---------------------------------------------------------------------------
// Which files a sweep touches
// ---------------------------------------------------------------------------

/// A file counts in the statistics unless its name starts with `.` (the
/// cache's own bookkeeping files).
pub fn counts_in_statistics(file_name: &str) -> (r: bool)
    ensures
        r == !(file_name@.len() > 0 && file_name@[0] == '.'),
{
    proof {
        reveal_strlit(".");
    }
    let r = !starts_with(file_name, ".");
    assert(file_name@.len() > 0 ==> file_name@.subrange(0, 1)[0] == file_name@[0]);
    assert(file_name@.len() > 0 && file_name@[0] == '.' ==> file_name@.subrange(0, 1) =~= "."@);
    r
}

/// What comes before the last `@` of a stem.
pub open spec fn variant_base(stem: Seq<char>) -> Option<Seq<char>> {
    match last_index_of(stem, '@') {
        Some(k) => Some(stem.subrange(0, k)),
        None => None,
    }
}

fn base_before_last_at(stem: &str) -> (r: Option<String>)
    ensures
        r matches Some(b) ==> variant_base(stem@) == Some(b@),
        r is None <==> variant_base(stem@) is None,
{
    let cs = chars_of(stem);
    let mut k: usize = cs.len();
    assert(cs@.take(k as int) =~= cs@);
    while k > 0 && cs[k - 1] != '@'
        invariant
            k <= cs.len(),
            cs@ == stem@,
            last_index_of(cs@, '@') == last_index_of(cs@.take(k as int), '@'),
        decreases k,
    {
        assert(cs@.take(k as int).drop_last() =~= cs@.take(k - 1));
        k = k - 1;
    }
    if k == 0 {
        assert(cs@.take(0) =~= Seq::<char>::empty());
        None
    } else {
        assert(cs@.take(k as int).last() == '@');
        Some(string_of_range(&cs, 0, k - 1))
    }
}

/// The name of a variant of `base_stem`: its stem names a size, and what
/// precedes the size is `base_stem` (`cover@400.jpg` belongs to `cover`).
pub open spec fn spec_is_variant_of(file_name: Seq<char>, base_stem: Seq<char>) -> bool {
    match spec_file_stem(file_name) {
        Some(stem) => spec_variant_size_of(stem) is Some && variant_base(stem) == Some(base_stem),
        None => false,
    }
}

/// Whether a file in an original's directory is one of its variants.
pub fn is_variant_of(file_name: &str, base_stem: &str) -> (r: bool)
    ensures
        r == spec_is_variant_of(file_name@, base_stem@),
{
    let stem = match file_stem(file_name) {
        Some(s) => s,
        None => return false,
    };
    if variant_size_of(stem.as_str()).is_none() {
        return false;
    }
    match base_before_last_at(stem.as_str()) {
        Some(b) => str_eq(b.as_str(), base_stem),
        None => false,
    }
}

/// A variant at a size the ladder no longer offers.
pub open spec fn spec_is_retired_variant(file_name: Seq<char>, offered: Seq<u32>) -> bool {
    match spec_file_stem(file_name) {
        Some(stem) => match spec_variant_size_of(stem) {
            Some(size) => !offered.contains(size),
            None => false,
        },
        None => false,
    }
}

/// Whether a file is a variant at a size the ladder no longer offers: the
/// files a purge after a ladder change deletes. Originals are never
/// retired.
pub fn is_retired_variant(file_name: &str, offered: &Vec<u32>) -> (r: bool)
    ensures
        r == spec_is_retired_variant(file_name@, offered@),
{
    let stem = match file_stem(file_name) {
        Some(s) => s,
        None => return false,
    };
    match variant_size_of(stem.as_str()) {
        Some(size) => !crate::imageresize::contains_u32(offered, size),
        None => false,
    }
}

/// Growing the ladder retires nothing: a variant kept under one ladder is
/// kept under any ladder that offers every size the first one did.
pub proof fn law_a_superset_ladder_retires_nothing(file_name: Seq<char>, before: Seq<u32>, after: Seq<u32>)
    requires
        forall|x: u32| before.contains(x) ==> after.contains(x),
        !spec_is_retired_variant(file_name, before),
    ensures
        !spec_is_retired_variant(file_name, after),
{
}

} // verus!
