//! Cover art results, queries and the provider registry.
//!
//! A query is answered by every registered provider that supports its
//! method; each provider's images are graded and ordered best first. The
//! network fan-out itself runs outside the library; what it decides -- which
//! providers to ask, how long to wait, what to ask a slow provider, and the
//! order of the answers -- is decided here.

use std::sync::Arc;
use vstd::prelude::*;
use crate::image_grader::{provider_score, resolution_score, score_parts, size_score, ImageGrader, ImageInfo as GraderImageInfo, MAX_SCORE, MIN_SCORE};
use crate::text::{clone_opt_string, spec_to_lowercase, views};

verus! {

/// Provider information.
#[derive(Debug, Clone)]
pub struct ProviderInfo {
    pub name: String,
    pub display_name: String,
}

/// Image information with URL and metadata.
#[derive(Debug, Clone)]
pub struct ImageInfo {
    pub url: String,
    pub width: Option<u32>,
    pub height: Option<u32>,
    pub size_bytes: Option<u64>,
    pub format: Option<String>,
    pub grade: Option<i32>,
}

/// Measured properties of an image.
#[derive(Debug, Clone)]
pub struct ImageMetadata {
    pub width: u32,
    pub height: u32,
    pub size_bytes: u64,
    pub format: String,
}

/// What reading image bytes for their dimensions gives: the width, the
/// height and the format's first file extension (when the format names
/// one), or the reader's error text.
pub uninterp spec fn spec_measured(bytes: Seq<u8>) -> Result<(u32, u32, Option<Seq<char>>), Seq<char>>;

/// A reading of image dimensions as plain values.
pub open spec fn dims_view(r: Result<(u32, u32, Option<String>), String>) -> Result<(u32, u32, Option<Seq<char>>), Seq<char>> {
    match r {
        Ok((w, h, Some(f))) => Ok((w, h, Some(f@))),
        Ok((w, h, None)) => Ok((w, h, None)),
        Err(e) => Err(e@),
    }
}

/// Read the dimensions of image bytes (the `image` crate's `ImageReader`,
/// with the format guessed from the bytes, then `into_dimensions`).
#[verifier::external_body]
fn read_dimensions(bytes: &[u8]) -> (r: Result<(u32, u32, Option<String>), String>)
    ensures
        dims_view(r) == spec_measured(bytes@),
{
    let reader = image::ImageReader::new(std::io::Cursor::new(bytes)).with_guessed_format().map_err(|e| e.to_string())?;
    let format = reader.format().and_then(|f| f.extensions_str().first().map(|e| e.to_string()));
    let (w, h) = reader.into_dimensions().map_err(|e| e.to_string())?;
    Ok((w, h, format))
}

/// The width, height, size and format of image bytes; a format with no file
/// extension of its own is "unknown".
pub fn measure_image(bytes: &[u8]) -> (r: Result<ImageMetadata, String>)
    ensures
        match spec_measured(bytes@) {
            Ok((w, h, f)) => r matches Ok(m) && m.width == w && m.height == h && m.size_bytes == bytes@.len()
                && m.format@ == (match f {
                    Some(e) => e,
                    None => "unknown"@,
                }),
            Err(e) => r matches Err(m) && m@ == e,
        },
{
    match read_dimensions(bytes) {
        Ok((width, height, format)) => {
            let format = match format {
                Some(e) => e,
                None => crate::text::owned("unknown"),
            };
            Ok(ImageMetadata { width, height, size_bytes: bytes.len() as u64, format })
        },
        Err(e) => Err(e),
    }
}

impl ImageInfo {
    /// An image with just a URL (no metadata).
    pub fn new(url: String) -> (r: Self)
        ensures
            r == (ImageInfo { url, width: None, height: None, size_bytes: None, format: None, grade: None }),
    {
        ImageInfo { url, width: None, height: None, size_bytes: None, format: None, grade: None }
    }

    /// An image with a URL and measured metadata.
    pub fn with_metadata(url: String, metadata: ImageMetadata) -> (r: Self)
        ensures
            r == (ImageInfo {
                url,
                width: Some(metadata.width),
                height: Some(metadata.height),
                size_bytes: Some(metadata.size_bytes),
                format: Some(metadata.format),
                grade: None,
            }),
    {
        ImageInfo {
            url,
            width: Some(metadata.width),
            height: Some(metadata.height),
            size_bytes: Some(metadata.size_bytes),
            format: Some(metadata.format),
            grade: None,
        }
    }

    /// Record measured metadata; a failed measurement leaves the image as it was.
    pub fn fetch_metadata(&mut self, measured: Option<ImageMetadata>)
        ensures
            measured matches Some(m) ==> *final(self) == (ImageInfo {
                width: Some(m.width),
                height: Some(m.height),
                size_bytes: Some(m.size_bytes),
                format: Some(m.format),
                ..*old(self)
            }),
            measured is None ==> *final(self) == *old(self),
    {
        if let Some(metadata) = measured {
            self.width = Some(metadata.width);
            self.height = Some(metadata.height);
            self.size_bytes = Some(metadata.size_bytes);
            self.format = Some(metadata.format);
        }
    }

    /// Set the grade for this image.
    pub fn set_grade(&mut self, grade: i32)
        ensures
            *final(self) == (ImageInfo { grade: Some(grade), ..*old(self) }),
    {
        self.grade = Some(grade);
    }

    /// A field-by-field copy.
    pub fn duplicate(&self) -> (r: Self)
        ensures
            r == *self,
    {
        ImageInfo {
            url: self.url.clone(),
            width: self.width,
            height: self.height,
            size_bytes: self.size_bytes,
            format: clone_opt_string(&self.format),
            grade: self.grade,
        }
    }
}

/// Cover art result from a specific provider.
#[derive(Debug, Clone)]
pub struct CoverartResult {
    pub provider: ProviderInfo,
    pub images: Vec<ImageInfo>,
}

/// The grade an image offered by `provider` receives.
pub open spec fn grade_for(image: ImageInfo, provider: Seq<char>) -> i32 {
    score_parts(provider, image.width, image.height, image.size_bytes)
}

/// Each image with its grade set.
pub open spec fn with_grades(images: Seq<ImageInfo>, provider: Seq<char>) -> Seq<ImageInfo> {
    images.map_values(|i: ImageInfo| ImageInfo { grade: Some(grade_for(i, provider)), ..i })
}

/// The sort key of an image: its grade, or 0 when it has none.
pub open spec fn grade_key(i: ImageInfo) -> i32 {
    match i.grade {
        Some(g) => g,
        None => 0,
    }
}

/// The images whose sort key is `v`, in order.
pub open spec fn grade_bucket(s: Seq<ImageInfo>, v: i32) -> Seq<ImageInfo> {
    s.filter(|i: ImageInfo| grade_key(i) == v)
}

pub open spec fn grade_buckets_from(s: Seq<ImageInfo>, hi: int, lo: int) -> Seq<ImageInfo>
    decreases hi - lo + 1,
{
    if hi < lo {
        Seq::empty()
    } else {
        grade_bucket(s, hi as i32) + grade_buckets_from(s, hi - 1, lo)
    }
}

/// Images ordered by grade, highest first, ties in input order, for images
/// whose grades all lie between the lowest and highest possible scores.
pub open spec fn sorted_by_grade(s: Seq<ImageInfo>) -> Seq<ImageInfo> {
    grade_buckets_from(s, MAX_SCORE as int, MIN_SCORE as int)
}

/// An image graded as an image offered by `provider`: its grade is what
/// the grader scores for the provider's name, plus what it scores for the
/// image's file size and for its resolution.
pub open spec fn graded_with(i: ImageInfo, provider: Seq<char>) -> bool {
    i.grade matches Some(g) && g as int == provider_score(spec_to_lowercase(provider)) + size_score(i.size_bytes)
        + resolution_score(i.width, i.height)
}

proof fn lemma_filter_keeps_grading(s: Seq<ImageInfo>, f: spec_fn(ImageInfo) -> bool, provider: Seq<char>)
    requires
        forall|i: int| 0 <= i < s.len() ==> graded_with(#[trigger] s[i], provider),
    ensures
        forall|k: int| 0 <= k < s.filter(f).len() ==> graded_with(#[trigger] s.filter(f)[k], provider),
{
    assert forall|k: int| 0 <= k < s.filter(f).len() implies graded_with(#[trigger] s.filter(f)[k], provider) by {
        let e = s.filter(f)[k];
        assert(s.filter(f).contains(e));
        s.lemma_filter_contains_rev(f, e);
        let i = choose|i: int| 0 <= i < s.len() && s[i] == e;
        assert(graded_with(s[i], provider));
    }
}

proof fn lemma_buckets_keep_grading(s: Seq<ImageInfo>, hi: int, lo: int, provider: Seq<char>)
    requires
        forall|i: int| 0 <= i < s.len() ==> graded_with(#[trigger] s[i], provider),
    ensures
        forall|k: int| 0 <= k < grade_buckets_from(s, hi, lo).len() ==> graded_with(#[trigger] grade_buckets_from(s, hi, lo)[k], provider),
    decreases hi - lo + 1,
{
    if hi >= lo {
        let b = grade_bucket(s, hi as i32);
        lemma_filter_keeps_grading(s, |i: ImageInfo| grade_key(i) == hi as i32, provider);
        lemma_buckets_keep_grading(s, hi - 1, lo, provider);
        let rest = grade_buckets_from(s, hi - 1, lo);
        assert forall|k: int| 0 <= k < grade_buckets_from(s, hi, lo).len() implies graded_with(#[trigger] grade_buckets_from(s, hi, lo)[k], provider) by {
            if k < b.len() {
                assert(grade_buckets_from(s, hi, lo)[k] == b[k]);
            } else {
                assert(grade_buckets_from(s, hi, lo)[k] == rest[k - b.len()]);
            }
        }
    }
}

/// Every image of a provider's result carries the grade the grader gives
/// it as that provider's image: the provider's own score plus the scores
/// for the image's size and resolution, whatever order the images end in.
pub proof fn law_grades_include_the_provider(images: Seq<ImageInfo>, provider: Seq<char>)
    ensures
        forall|k: int| 0 <= k < sorted_by_grade(with_grades(images, provider)).len()
            ==> graded_with(#[trigger] sorted_by_grade(with_grades(images, provider))[k], provider),
{
    let g = with_grades(images, provider);
    assert forall|i: int| 0 <= i < g.len() implies graded_with(#[trigger] g[i], provider) by {
        let x = images[i];
        let p = provider_score(spec_to_lowercase(provider));
        assert(0 <= p <= 3);
        assert(-1 <= size_score(x.size_bytes) <= 1);
        assert(-2 <= resolution_score(x.width, x.height) <= 2);
    }
    lemma_buckets_keep_grading(g, MAX_SCORE as int, MIN_SCORE as int, provider);
}

impl CoverartResult {
    /// A result whose images are graded and ordered by grade, highest
    /// first; images with equal grades keep their order.
    pub fn with_images(provider: ProviderInfo, images: Vec<ImageInfo>) -> (r: Self)
        ensures
            r.provider == provider,
            r.images@ == sorted_by_grade(with_grades(images@, provider.name@)),
            forall|i: int, j: int| 0 <= i < j < r.images@.len() ==> grade_key(r.images@[i]) >= grade_key(r.images@[j]),
    {
        let grader = ImageGrader::new();
        let mut graded: Vec<ImageInfo> = Vec::new();
        let mut k: usize = 0;
        while k < images.len()
            invariant
                k <= images.len(),
                graded@ == with_grades(images@, provider.name@).take(k as int),
                forall|m: int| 0 <= m < graded@.len() ==> MIN_SCORE <= grade_key(#[trigger] graded@[m]) <= MAX_SCORE,
            decreases images.len() - k,
        {
            let image = &images[k];
            let info = GraderImageInfo {
                url: image.url.clone(),
                width: image.width,
                height: image.height,
                size_bytes: image.size_bytes,
                provider: provider.name.clone(),
            };
            let grade = grader.grade_image(&info);
            let mut copy = image.duplicate();
            copy.set_grade(grade.score);
            graded.push(copy);
            k = k + 1;
            assert(graded@ == with_grades(images@, provider.name@).take(k as int));
        }
        assert(with_grades(images@, provider.name@).take(images@.len() as int) == with_grades(images@, provider.name@));
        let sorted = sort_by_grade(&graded);
        CoverartResult { provider, images: sorted }
    }
}

/// The images of `s` whose sort key is `v`, appended to `out`.
fn grade_bucket_into(s: &Vec<ImageInfo>, v: i32, out: &mut Vec<ImageInfo>)
    ensures
        final(out)@ == old(out)@ + grade_bucket(s@, v),
{
    let ghost start = old(out)@;
    let mut i: usize = 0;
    while i < s.len()
        invariant
            i <= s.len(),
            out@ == start + grade_bucket(s@.take(i as int), v),
        decreases s.len() - i,
    {
        proof {
            reveal(Seq::filter);
            assert(s@.take(i + 1).drop_last() == s@.take(i as int));
        }
        let key = match s[i].grade {
            Some(g) => g,
            None => 0,
        };
        if key == v {
            out.push(s[i].duplicate());
        }
        i = i + 1;
    }
    assert(s@.take(s@.len() as int) == s@);
}

pub proof fn lemma_grade_bucket_keys(s: Seq<ImageInfo>, v: i32)
    ensures
        forall|k: int| 0 <= k < grade_bucket(s, v).len() ==> grade_key(#[trigger] grade_bucket(s, v)[k]) == v,
{
    broadcast use vstd::seq_lib::group_filter_ensures;
    let f = |i: ImageInfo| grade_key(i) == v;
    assert forall|k: int| 0 <= k < grade_bucket(s, v).len() implies grade_key(#[trigger] grade_bucket(s, v)[k]) == v by {
        s.lemma_filter_pred(f, k);
    }
}

/// `s` ordered by grade, highest first, ties in input order.
fn sort_by_grade(s: &Vec<ImageInfo>) -> (r: Vec<ImageInfo>)
    requires
        forall|k: int| 0 <= k < s@.len() ==> MIN_SCORE <= grade_key(#[trigger] s@[k]) <= MAX_SCORE,
    ensures
        r@ == sorted_by_grade(s@),
        forall|i: int, j: int| 0 <= i < j < r@.len() ==> grade_key(r@[i]) >= grade_key(r@[j]),
{
    let mut out: Vec<ImageInfo> = Vec::new();
    let mut v: i32 = MAX_SCORE;
    while v >= MIN_SCORE
        invariant
            MIN_SCORE - 1 <= v <= MAX_SCORE,
            out@ + grade_buckets_from(s@, v as int, MIN_SCORE as int) == sorted_by_grade(s@),
            forall|k: int| 0 <= k < out@.len() ==> v < grade_key(#[trigger] out@[k]),
            forall|i: int, j: int| 0 <= i < j < out@.len() ==> grade_key(out@[i]) >= grade_key(out@[j]),
        decreases v - MIN_SCORE + 1,
    {
        let ghost before = out@;
        grade_bucket_into(s, v, &mut out);
        proof {
            let b = grade_bucket(s@, v);
            lemma_grade_bucket_keys(s@, v);
            assert(before + b + grade_buckets_from(s@, v - 1, MIN_SCORE as int)
                == before + (b + grade_buckets_from(s@, v - 1, MIN_SCORE as int)));
            assert forall|i: int, j: int| 0 <= i < j < out@.len() implies grade_key(out@[i]) >= grade_key(out@[j]) by {
                if j < before.len() {
                    assert(out@[i] == before[i]);
                    assert(out@[j] == before[j]);
                } else if i < before.len() {
                    assert(out@[i] == before[i]);
                    assert(out@[j] == b[j - before.len()]);
                } else {
                    assert(out@[i] == b[i - before.len()]);
                    assert(out@[j] == b[j - before.len()]);
                }
            }
            assert forall|k: int| 0 <= k < out@.len() implies v - 1 < grade_key(#[trigger] out@[k]) by {
                if k < before.len() {
                    assert(out@[k] == before[k]);
                } else {
                    assert(out@[k] == b[k - before.len()]);
                }
            }
        }
        v = v - 1;
    }
    assert(grade_buckets_from(s@, v as int, MIN_SCORE as int) == Seq::<ImageInfo>::empty());
    assert(out@ + Seq::<ImageInfo>::empty() == out@);
    out
}

/// A cover art retrieval method.
#[derive(Debug, Clone, Copy, PartialEq, Eq, Hash, Structural)]
pub enum CoverartMethod {
    Artist,
    Song,
    Album,
    Url,
}

/// A cover art lookup.
#[derive(Debug, Clone, PartialEq, Eq, Hash)]
pub enum CoverartQuery {
    Artist(String),
    Song { title: String, artist: String },
    Album { title: String, artist: String, year: Option<i32> },
    Url(String),
}

pub open spec fn spec_method(q: CoverartQuery) -> CoverartMethod {
    match q {
        CoverartQuery::Artist(_) => CoverartMethod::Artist,
        CoverartQuery::Song { .. } => CoverartMethod::Song,
        CoverartQuery::Album { .. } => CoverartMethod::Album,
        CoverartQuery::Url(_) => CoverartMethod::Url,
    }
}

impl CoverartQuery {
    /// The method a provider must support to answer this query.
    pub fn method(&self) -> (r: CoverartMethod)
        ensures
            r == spec_method(*self),
    {
        match self {
            CoverartQuery::Artist(_) => CoverartMethod::Artist,
            CoverartQuery::Song { .. } => CoverartMethod::Song,
            CoverartQuery::Album { .. } => CoverartMethod::Album,
            CoverartQuery::Url(_) => CoverartMethod::Url,
        }
    }
}

/// How long the fast path waits for the whole fan-out, in seconds.
pub const DEFAULT_FAST_DEADLINE_SECS: u64 = 5;

/// What a caller wants from a fan-out.
#[derive(Debug, Clone)]
pub struct QueryOptions {
    /// Wait for providers that declare themselves slow.
    pub include_slow: bool,
    /// The deadline for the fast path, in seconds.
    pub fast_deadline_secs: u64,
}

impl Default for QueryOptions {
    fn default() -> (r: Self)
        ensures
            r.include_slow == false,
            r.fast_deadline_secs == DEFAULT_FAST_DEADLINE_SECS,
    {
        QueryOptions { include_slow: false, fast_deadline_secs: DEFAULT_FAST_DEADLINE_SECS }
    }
}

/// Whether `methods` lists `m`.
pub fn supports(methods: &Vec<CoverartMethod>, m: CoverartMethod) -> (r: bool)
    ensures
        r == methods@.contains(m),
{
    let mut i: usize = 0;
    while i < methods.len()
        invariant
            i <= methods.len(),
            forall|k: int| 0 <= k < i ==> methods@[k] != m,
        decreases methods.len() - i,
    {
        if methods[i] == m {
            return true;
        }
        i = i + 1;
    }
    false
}

/// A source of cover art.
pub trait CoverartProvider: Send + Sync {
    /// The internal name identifier for this provider.
    fn name(&self) -> &str;

    /// The human-readable display name for this provider.
    fn display_name(&self) -> &str;

    /// Whether the provider may answer `r` when asked which methods it
    /// supports; a provider that does not refine it may answer anything.
    open spec fn methods_answer(&self, r: Seq<CoverartMethod>) -> bool {
        true
    }

    /// Whether the provider's own cache may answer `urls` for `query`.
    open spec fn cache_answer(&self, query: CoverartQuery, urls: Seq<Seq<char>>) -> bool {
        true
    }

    /// Whether a lookup may answer `urls` for `call`; a provider that does
    /// not refine it may answer anything. An empty answer, finding nothing,
    /// is always possible.
    open spec fn lookup_answer(&self, call: CallView, urls: Seq<Seq<char>>) -> bool {
        true
    }

    /// The methods this provider supports.
    fn supported_methods(&self) -> (r: Vec<CoverartMethod>)
        ensures
            self.methods_answer(r@),
    ;

    /// How long a call to this provider may take, in seconds.
    fn timeout(&self) -> (r: u64)
        default_ensures
            r == DEFAULT_FAST_DEADLINE_SECS,
    {
        DEFAULT_FAST_DEADLINE_SECS
    }

    /// Whether a call to this provider may take too long for a request path.
    fn is_slow(&self) -> (r: bool)
        default_ensures
            !r,
    {
        false
    }

    /// An answer from this provider's own cache, without a network round trip.
    fn cached_coverart(&self, _query: &CoverartQuery) -> (r: Option<Vec<String>>)
        ensures
            r matches Some(urls) ==> self.cache_answer(*_query, views(urls@)),
        default_ensures
            r is None,
    {
        None
    }

    /// Cover art for an artist, when the provider supports artist lookups.
    fn get_artist_coverart(&self, artist: &str) -> (r: Vec<String>)
        ensures
            r@.len() > 0 ==> self.lookup_answer(CallView::Artist(artist@), views(r@)) && exists|ms: Seq<CoverartMethod>|
                #[trigger] self.methods_answer(ms) && ms.contains(CoverartMethod::Artist),
    {
        let methods = self.supported_methods();
        if supports(&methods, CoverartMethod::Artist) {
            self.get_artist_coverart_impl(artist)
        } else {
            Vec::new()
        }
    }

    /// Cover art for a song, when the provider supports song lookups.
    fn get_song_coverart(&self, title: &str, artist: &str) -> (r: Vec<String>)
        ensures
            r@.len() > 0 ==> self.lookup_answer(CallView::Song(title@, artist@), views(r@)) && exists|ms: Seq<CoverartMethod>|
                #[trigger] self.methods_answer(ms) && ms.contains(CoverartMethod::Song),
    {
        let methods = self.supported_methods();
        if supports(&methods, CoverartMethod::Song) {
            self.get_song_coverart_impl(title, artist)
        } else {
            Vec::new()
        }
    }

    /// Cover art for an album, when the provider supports album lookups.
    fn get_album_coverart(&self, title: &str, artist: &str, year: Option<i32>) -> (r: Vec<String>)
        ensures
            r@.len() > 0 ==> self.lookup_answer(CallView::Album(title@, artist@, year), views(r@)) && exists|ms: Seq<CoverartMethod>|
                #[trigger] self.methods_answer(ms) && ms.contains(CoverartMethod::Album),
    {
        let methods = self.supported_methods();
        if supports(&methods, CoverartMethod::Album) {
            self.get_album_coverart_impl(title, artist, year)
        } else {
            Vec::new()
        }
    }

    /// Cover art from a URL, when the provider supports URL lookups.
    fn get_url_coverart(&self, url: &str) -> (r: Vec<String>)
        ensures
            r@.len() > 0 ==> self.lookup_answer(CallView::Url(url@), views(r@)) && exists|ms: Seq<CoverartMethod>|
                #[trigger] self.methods_answer(ms) && ms.contains(CoverartMethod::Url),
    {
        let methods = self.supported_methods();
        if supports(&methods, CoverartMethod::Url) {
            self.get_url_coverart_impl(url)
        } else {
            Vec::new()
        }
    }

    fn get_artist_coverart_impl(&self, _artist: &str) -> (r: Vec<String>)
        ensures
            r@.len() > 0 ==> self.lookup_answer(CallView::Artist(_artist@), views(r@)),
        default_ensures
            r@.len() == 0,
    {
        Vec::new()
    }

    fn get_song_coverart_impl(&self, _title: &str, _artist: &str) -> (r: Vec<String>)
        ensures
            r@.len() > 0 ==> self.lookup_answer(CallView::Song(_title@, _artist@), views(r@)),
        default_ensures
            r@.len() == 0,
    {
        Vec::new()
    }

    fn get_album_coverart_impl(&self, _title: &str, _artist: &str, _year: Option<i32>) -> (r: Vec<String>)
        ensures
            r@.len() > 0 ==> self.lookup_answer(CallView::Album(_title@, _artist@, _year), views(r@)),
        default_ensures
            r@.len() == 0,
    {
        Vec::new()
    }

    fn get_url_coverart_impl(&self, _url: &str) -> (r: Vec<String>)
        ensures
            r@.len() > 0 ==> self.lookup_answer(CallView::Url(_url@), views(r@)),
        default_ensures
            r@.len() == 0,
    {
        Vec::new()
    }
}

/// A shared handle on a registered provider.
pub type ProviderHandle = Arc<Box<dyn CoverartProvider>>;

/// The registry of cover art providers, in registration order.
pub struct CoverartManager {
    providers: Vec<ProviderHandle>,
}

impl CoverartManager {
    pub closed spec fn spec_providers(&self) -> Seq<ProviderHandle> {
        self.providers@
    }

    /// An empty registry.
    pub fn new() -> (r: Self)
        ensures
            r.spec_providers().len() == 0,
    {
        CoverartManager { providers: Vec::new() }
    }

    /// Register a provider after those already registered.
    pub fn register_provider(&mut self, provider: ProviderHandle)
        ensures
            final(self).spec_providers() == old(self).spec_providers().push(provider),
    {
        self.providers.push(provider);
    }

    /// The registered providers, in registration order.
    pub fn get_providers(&self) -> (r: &Vec<ProviderHandle>)
        ensures
            r@ == self.spec_providers(),
    {
        &self.providers
    }

    /// The number of registered providers.
    pub fn provider_count(&self) -> (r: usize)
        ensures
            r == self.spec_providers().len(),
    {
        self.providers.len()
    }
}

/// The provider says it supports `m`.
pub open spec fn offers(p: ProviderHandle, m: CoverartMethod) -> bool {
    exists|ms: Seq<CoverartMethod>| #[trigger] p.methods_answer(ms) && ms.contains(m)
}

/// The provider says it does not support `m`.
pub open spec fn declines(p: ProviderHandle, m: CoverartMethod) -> bool {
    exists|ms: Seq<CoverartMethod>| #[trigger] p.methods_answer(ms) && !ms.contains(m)
}

/// The registration indices, in order, of the providers that say they
/// support `method`: each provider is asked once.
pub fn supporting_indices(providers: &Vec<ProviderHandle>, method: CoverartMethod) -> (r: Vec<usize>)
    ensures
        forall|k: int| 0 <= k < r@.len() ==> #[trigger] r@[k] < providers@.len()
            && offers(providers@[r@[k] as int], method),
        forall|j: int, k: int| 0 <= j < k < r@.len() ==> r@[j] < r@[k],
        forall|i: int| 0 <= i < providers@.len() && !r@.contains(i as usize) ==> #[trigger] declines(providers@[i], method),
{
    let mut r: Vec<usize> = Vec::new();
    let mut i: usize = 0;
    while i < providers.len()
        invariant
            i <= providers.len(),
            forall|k: int| 0 <= k < r@.len() ==> #[trigger] r@[k] < i && offers(providers@[r@[k] as int], method),
            forall|j: int, k: int| 0 <= j < k < r@.len() ==> r@[j] < r@[k],
            forall|x: int| 0 <= x < i && !r@.contains(x as usize) ==> #[trigger] declines(providers@[x], method),
        decreases providers.len() - i,
    {
        let methods = providers[i].supported_methods();
        assert(providers@[i as int].methods_answer(methods@));
        let ghost before = r@;
        if supports(&methods, method) {
            r.push(i);
            assert(offers(providers@[i as int], method));
            assert forall|x: int| 0 <= x < i + 1 && !r@.contains(x as usize) implies #[trigger] declines(providers@[x], method) by {
                if x < i {
                    if before.contains(x as usize) {
                        let k = choose|k: int| 0 <= k < before.len() && before[k] == x as usize;
                        assert(r@[k] == x as usize);
                    }
                } else {
                    assert(r@[before.len() as int] == i);
                }
            }
        } else {
            assert(declines(providers@[i as int], method));
            assert forall|x: int| 0 <= x < i + 1 && !r@.contains(x as usize) implies #[trigger] declines(providers@[x], method) by {
                if x < i {
                    assert(!before.contains(x as usize));
                }
            }
        }
        i = i + 1;
    }
    r
}

impl Default for CoverartManager {
    fn default() -> (r: Self)
        ensures
            r.spec_providers().len() == 0,
    {
        CoverartManager::new()
    }
}

/// The call a provider is asked, with the query's fields: its own cache, or
/// the lookup for the query's kind.
pub enum ProviderCall {
    Cached,
    Artist(String),
    Song { title: String, artist: String },
    Album { title: String, artist: String, year: Option<i32> },
    Url(String),
}

/// A call as plain values.
pub enum CallView {
    Cached,
    Artist(Seq<char>),
    Song(Seq<char>, Seq<char>),
    Album(Seq<char>, Seq<char>, Option<i32>),
    Url(Seq<char>),
}

pub open spec fn call_view(c: ProviderCall) -> CallView {
    match c {
        ProviderCall::Cached => CallView::Cached,
        ProviderCall::Artist(a) => CallView::Artist(a@),
        ProviderCall::Song { title, artist } => CallView::Song(title@, artist@),
        ProviderCall::Album { title, artist, year } => CallView::Album(title@, artist@, year),
        ProviderCall::Url(u) => CallView::Url(u@),
    }
}

/// The lookup that answers a query: the one for its kind, with its fields.
pub open spec fn spec_lookup_call(q: CoverartQuery) -> CallView {
    match q {
        CoverartQuery::Artist(a) => CallView::Artist(a@),
        CoverartQuery::Song { title, artist } => CallView::Song(title@, artist@),
        CoverartQuery::Album { title, artist, year } => CallView::Album(title@, artist@, year),
        CoverartQuery::Url(u) => CallView::Url(u@),
    }
}

/// The call that answers a query in a fan-out: a slow provider's cache when
/// slow providers are not being waited for, and otherwise its lookup.
pub open spec fn spec_provider_call(q: CoverartQuery, slow: bool, include_slow: bool) -> CallView {
    if slow && !include_slow {
        CallView::Cached
    } else {
        spec_lookup_call(q)
    }
}

/// The lookup that answers a query.
pub fn lookup_call(query: &CoverartQuery) -> (r: ProviderCall)
    ensures
        call_view(r) == spec_lookup_call(*query),
{
    match query {
        CoverartQuery::Artist(artist) => ProviderCall::Artist(artist.clone()),
        CoverartQuery::Song { title, artist } => ProviderCall::Song { title: title.clone(), artist: artist.clone() },
        CoverartQuery::Album { title, artist, year } => ProviderCall::Album { title: title.clone(), artist: artist.clone(), year: *year },
        CoverartQuery::Url(url) => ProviderCall::Url(url.clone()),
    }
}

/// The call that answers a query for a provider that is, or is not, slow.
pub fn provider_call(query: &CoverartQuery, slow: bool, include_slow: bool) -> (r: ProviderCall)
    ensures
        call_view(r) == spec_provider_call(*query, slow, include_slow),
{
    if slow && !include_slow {
        ProviderCall::Cached
    } else {
        lookup_call(query)
    }
}

/// What a provider's cache answer gives: its URLs, or none.
pub fn cached_urls(cached: Option<Vec<String>>) -> (r: Vec<String>)
    ensures
        r@ == match cached {
            Some(urls) => urls@,
            None => Seq::empty(),
        },
{
    match cached {
        Some(urls) => urls,
        None => Vec::new(),
    }
}

/// The method a lookup call is for.
pub open spec fn call_method(call: CallView) -> CoverartMethod {
    match call {
        CallView::Song(_, _) => CoverartMethod::Song,
        CallView::Album(_, _, _) => CoverartMethod::Album,
        CallView::Url(_) => CoverartMethod::Url,
        _ => CoverartMethod::Artist,
    }
}

/// What a provider may answer to a call: nothing; or, from its cache, an
/// answer its cache may give for the query; or, from a lookup, an answer
/// the lookup may give, by a provider that says it supports the lookup's
/// method.
pub open spec fn call_answer<P: CoverartProvider + ?Sized>(p: &P, query: CoverartQuery, call: CallView, urls: Seq<Seq<char>>) -> bool {
    urls.len() == 0 || match call {
        CallView::Cached => p.cache_answer(query, urls),
        _ => p.lookup_answer(call, urls) && says_it_offers(p, call_method(call)),
    }
}

/// The provider says it supports `m`.
pub open spec fn says_it_offers<P: CoverartProvider + ?Sized>(p: &P, m: CoverartMethod) -> bool {
    exists|ms: Seq<CoverartMethod>| #[trigger] p.methods_answer(ms) && ms.contains(m)
}

/// Make a call on a provider.
fn perform<P: CoverartProvider + ?Sized>(provider: &P, query: &CoverartQuery, call: ProviderCall) -> (r: Vec<String>)
    ensures
        call_answer(provider, *query, call_view(call), views(r@)),
{
    let ghost c = call_view(call);
    match call {
        ProviderCall::Cached => {
            assert(c is Cached);
            let cached = provider.cached_coverart(query);
            let ghost answer = cached;
            let r = cached_urls(cached);
            proof {
                match answer {
                    Some(urls) => {
                        assert(provider.cache_answer(*query, views(urls@)));
                        assert(views(r@) == views(urls@));
                    },
                    None => {
                        assert(views(r@) =~= Seq::<Seq<char>>::empty());
                    },
                }
            }
            r
        },
        ProviderCall::Artist(artist) => provider.get_artist_coverart(artist.as_str()),
        ProviderCall::Song { title, artist } => provider.get_song_coverart(title.as_str(), artist.as_str()),
        ProviderCall::Album { title, artist, year } => provider.get_album_coverart(title.as_str(), artist.as_str(), year),
        ProviderCall::Url(url) => provider.get_url_coverart(url.as_str()),
    }
}

/// Ask one provider the query it was selected for: the lookup that
/// [`lookup_call`] names.
pub fn run_query<P: CoverartProvider + ?Sized>(provider: &P, query: &CoverartQuery) -> (r: Vec<String>)
    ensures
        call_answer(provider, *query, spec_lookup_call(*query), views(r@)),
{
    let call = lookup_call(query);
    let ghost view = call_view(call);
    let r = perform(provider, query, call);
    assert(call_answer(provider, *query, view, views(r@)));
    r
}

/// What one selected provider contributes to a fan-out: the call that
/// [`provider_call`] names for it, given whether it says it is slow -- its
/// cached answer (or none) when it is slow and slow providers are not being
/// waited for, and otherwise the answer to the query's lookup.
pub fn provider_answer<P: CoverartProvider + ?Sized>(provider: &P, query: &CoverartQuery, include_slow: bool) -> (r: Vec<String>)
    ensures
        exists|slow: bool| #[trigger] call_answer(provider, *query, spec_provider_call(*query, slow, include_slow), views(r@)),
{
    let slow = provider.is_slow();
    let call = provider_call(query, slow, include_slow);
    let ghost view = call_view(call);
    let r = perform(provider, query, call);
    assert(call_answer(provider, *query, view, views(r@)));
    assert(call_answer(provider, *query, spec_provider_call(*query, slow, include_slow), views(r@)));
    r
}

/// What one selected provider contributes to a fan-out: its answer, as
/// [`provider_answer`] gets it, when that holds any URLs, and nothing
/// otherwise.
pub fn provider_contribution<P: CoverartProvider + ?Sized>(provider: &P, query: &CoverartQuery, include_slow: bool) -> (r: Option<Vec<String>>)
    ensures
        r matches Some(found) ==> found@.len() > 0
            && exists|slow: bool| #[trigger] call_answer(provider, *query, spec_provider_call(*query, slow, include_slow), views(found@)),
{
    let urls = provider_answer(provider, query, include_slow);
    if urls.len() == 0 {
        None
    } else {
        let r = Some(urls);
        assert(r matches Some(found) && found@ == urls@);
        r
    }
}

/// How long a fan-out waits, in seconds: the fast deadline, or, when slow
/// providers are included, the longest of the fast deadline and the
/// selected providers' own timeouts.
pub open spec fn spec_fan_out_deadline(timeouts: Seq<u64>, include_slow: bool, fast: u64) -> u64
    decreases timeouts.len(),
{
    if !include_slow || timeouts.len() == 0 {
        fast
    } else {
        let rest = spec_fan_out_deadline(timeouts.drop_last(), include_slow, fast);
        if timeouts.last() > rest {
            timeouts.last()
        } else {
            rest
        }
    }
}

pub fn fan_out_deadline(timeouts: &Vec<u64>, include_slow: bool, fast_deadline_secs: u64) -> (r: u64)
    ensures
        r == spec_fan_out_deadline(timeouts@, include_slow, fast_deadline_secs),
        r >= fast_deadline_secs,
        include_slow ==> forall|i: int| 0 <= i < timeouts@.len() ==> r >= #[trigger] timeouts@[i],
        !include_slow ==> r == fast_deadline_secs,
{
    let mut best = fast_deadline_secs;
    if !include_slow {
        return best;
    }
    let mut i: usize = 0;
    while i < timeouts.len()
        invariant
            i <= timeouts.len(),
            include_slow,
            best == spec_fan_out_deadline(timeouts@.take(i as int), include_slow, fast_deadline_secs),
            best >= fast_deadline_secs,
            forall|k: int| 0 <= k < i ==> best >= #[trigger] timeouts@[k],
        decreases timeouts.len() - i,
    {
        proof {
            assert(timeouts@.take(i + 1).drop_last() == timeouts@.take(i as int));
        }
        if timeouts[i] > best {
            best = timeouts[i];
        }
        i = i + 1;
    }
    assert(timeouts@.take(timeouts@.len() as int) == timeouts@);
    best
}

/// The answers of a fan-out in registration order, whatever order they
/// arrived in. Each answer carries its provider's registration index.
pub fn in_registration_order(collected: Vec<(usize, CoverartResult)>) -> (r: Vec<CoverartResult>)
    requires
        forall|i: int, j: int| 0 <= i < j < collected@.len() ==> collected@[i].0 != collected@[j].0,
    ensures
        r@.len() == collected@.len(),
        exists|order: Seq<int>| #[trigger] is_index_order(collected@, order) && forall|k: int|
            0 <= k < r@.len() ==> r@[k] == collected@[order[k]].1,
{
    let n = collected.len();
    let mut pending = collected;
    let ghost original = pending@;
    // positions of the remaining entries in the original list
    let ghost mut remaining: Seq<int> = Seq::new(n as nat, |i: int| i);
    let ghost mut order: Seq<int> = Seq::empty();
    let mut out: Vec<CoverartResult> = Vec::new();
    while pending.len() > 0
        invariant
            pending@.len() == remaining.len(),
            out@.len() == order.len(),
            out@.len() + pending@.len() == n,
            original.len() == n,
            forall|i: int, j: int| 0 <= i < j < original.len() ==> original[i].0 != original[j].0,
            forall|k: int| 0 <= k < remaining.len() ==> 0 <= #[trigger] remaining[k] < n && pending@[k] == original[remaining[k]],
            forall|k: int| 0 <= k < order.len() ==> 0 <= #[trigger] order[k] < n && out@[k] == original[order[k]].1,
            forall|a: int, b: int| 0 <= a < b < order.len() ==> original[order[a]].0 < original[order[b]].0,
            forall|a: int, b: int| 0 <= a < order.len() && 0 <= b < remaining.len() ==> original[order[a]].0 < original[remaining[b]].0,
            forall|a: int, b: int| 0 <= a < b < remaining.len() ==> remaining[a] != remaining[b],
            forall|a: int, b: int| 0 <= a < order.len() && 0 <= b < remaining.len() ==> order[a] != remaining[b],
            forall|a: int, b: int| 0 <= a < b < order.len() ==> order[a] != order[b],
        decreases pending@.len(),
    {
        // find the smallest index among the pending entries
        let mut best: usize = 0;
        let mut k: usize = 1;
        while k < pending.len()
            invariant
                0 <= best < pending@.len(),
                1 <= k <= pending@.len(),
                forall|m: int| 0 <= m < k ==> pending@[best as int].0 <= #[trigger] pending@[m].0,
            decreases pending@.len() - k,
        {
            if pending[k].0 < pending[best].0 {
                best = k;
            }
            k = k + 1;
        }
        let ghost chosen = remaining[best as int];
        let ghost old_remaining = remaining;
        let ghost old_order = order;
        let ghost old_pending = pending@;
        let (_, result) = pending.remove(best);
        proof {
            remaining = remaining.remove(best as int);
            order = order.push(chosen);
            assert forall|b: int| 0 <= b < remaining.len() implies original[chosen].0 < original[#[trigger] remaining[b]].0 by {
                let ob = if b < best { b } else { b + 1 };
                assert(remaining[b] == old_remaining[ob]);
                assert(old_pending[best as int].0 <= old_pending[ob].0);
                assert(old_remaining[ob] != chosen);
            }
            assert forall|k2: int| 0 <= k2 < remaining.len() implies 0 <= #[trigger] remaining[k2] < n && pending@[k2] == original[remaining[k2]] by {
                let ob = if k2 < best { k2 } else { k2 + 1 };
                assert(remaining[k2] == old_remaining[ob]);
                assert(pending@[k2] == old_pending[ob]);
            }
            assert forall|a: int, b: int| 0 <= a < b < remaining.len() implies remaining[a] != remaining[b] by {
                let oa = if a < best { a } else { a + 1 };
                let ob = if b < best { b } else { b + 1 };
                assert(remaining[a] == old_remaining[oa]);
                assert(remaining[b] == old_remaining[ob]);
            }
            assert forall|a: int, b: int| 0 <= a < order.len() && 0 <= b < remaining.len() implies order[a] != remaining[b] by {
                let ob = if b < best { b } else { b + 1 };
                assert(remaining[b] == old_remaining[ob]);
                if a < old_order.len() {
                    assert(order[a] == old_order[a]);
                } else {
                    assert(order[a] == chosen);
                }
            }
            assert forall|a: int, b: int| 0 <= a < order.len() && 0 <= b < remaining.len() implies original[order[a]].0 < original[remaining[b]].0 by {
                let ob = if b < best { b } else { b + 1 };
                assert(remaining[b] == old_remaining[ob]);
                if a < old_order.len() {
                    assert(order[a] == old_order[a]);
                }
            }
            assert forall|a: int, b: int| 0 <= a < b < order.len() implies original[order[a]].0 < original[order[b]].0 by {
                if b < old_order.len() {
                } else {
                    assert(order[b] == chosen);
                    assert(old_remaining[best as int] == chosen);
                }
            }
            assert forall|a: int, b: int| 0 <= a < b < order.len() implies order[a] != order[b] by {
                if b == old_order.len() {
                    assert(old_remaining[best as int] == chosen);
                }
            }
        }
        out.push(result);
    }
    proof {
        assert(is_index_order(original, order));
    }
    out
}

/// `order` lists every position of `entries` exactly once, by ascending
/// index.
pub open spec fn is_index_order(entries: Seq<(usize, CoverartResult)>, order: Seq<int>) -> bool {
    &&& order.len() == entries.len()
    &&& forall|k: int| 0 <= k < order.len() ==> 0 <= #[trigger] order[k] < entries.len()
    &&& forall|a: int, b: int| 0 <= a < b < order.len() ==> order[a] != order[b]
    &&& forall|a: int, b: int| 0 <= a < b < order.len() ==> entries[order[a]].0 < entries[order[b]].0
}

} // verus!
