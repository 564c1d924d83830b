//! Grading of cover art candidates by provider, file size and resolution.

use vstd::prelude::*;
use crate::text::{spec_to_lowercase, str_eq, to_lowercase};

verus! {

/// Image grader for evaluating cover art quality.
#[derive(Debug, Clone)]
pub struct ImageGrader;

/// Image metadata for grading.
#[derive(Debug, Clone)]
pub struct ImageInfo {
    pub url: String,
    pub width: Option<u32>,
    pub height: Option<u32>,
    pub size_bytes: Option<u64>,
    pub provider: String,
}

/// The result of grading an image, with its breakdown.
#[derive(Debug, Clone, Copy)]
pub struct ImageGrade {
    pub score: i32,
    pub provider_score: i32,
    pub size_score: i32,
    pub resolution_score: i32,
}

impl ImageInfo {
    /// A field-by-field copy.
    pub fn duplicate(&self) -> (r: Self)
        ensures
            r == *self,
    {
        ImageInfo {
            url: self.url.clone(),
            width: self.width,
            height: self.height,
            size_bytes: self.size_bytes,
            provider: self.provider.clone(),
        }
    }
}

/// The score of a provider, given its lower-cased name.
pub open spec fn provider_score(lower: Seq<char>) -> i32 {
    if lower == "spotify"@ {
        1
    } else if lower == "theaudiodb"@ {
        2
    } else if lower == "fanarttv"@ || lower == "fanart.tv"@ {
        3
    } else {
        0
    }
}

/// The score of a file size: small files lose a point, large ones gain one.
pub open spec fn size_score(size_bytes: Option<u64>) -> i32 {
    match size_bytes {
        Some(size) => if size < 10_240 {
            -1i32
        } else if size > 102_400 {
            1
        } else {
            0
        },
        None => 0,
    }
}

/// The score of a resolution, judged by the smaller dimension.
pub open spec fn resolution_score(width: Option<u32>, height: Option<u32>) -> i32 {
    match (width, height) {
        (Some(w), Some(h)) => {
            let m = if w <= h { w } else { h };
            if m < 100 {
                -2i32
            } else if m < 300 {
                -1i32
            } else if m > 1000 {
                2
            } else if m > 600 {
                1
            } else {
                0
            }
        },
        _ => 0,
    }
}

/// The total score of an image offered by `provider` with these measurements.
pub open spec fn score_parts(provider: Seq<char>, width: Option<u32>, height: Option<u32>, size_bytes: Option<u64>) -> i32 {
    (provider_score(spec_to_lowercase(provider)) + size_score(size_bytes) + resolution_score(width, height)) as i32
}

/// The total score of an image.
pub open spec fn image_score(info: ImageInfo) -> i32 {
    score_parts(info.provider@, info.width, info.height, info.size_bytes)
}

/// The graded pairs of score `v`, in input order.
pub open spec fn score_bucket(s: Seq<(ImageInfo, ImageGrade)>, v: i32) -> Seq<(ImageInfo, ImageGrade)> {
    s.filter(|p: (ImageInfo, ImageGrade)| p.1.score == v)
}

/// The graded pairs from score `hi` down to score `lo`, each score's pairs in
/// input order.
pub open spec fn buckets_from(s: Seq<(ImageInfo, ImageGrade)>, hi: int, lo: int) -> Seq<(ImageInfo, ImageGrade)>
    decreases hi - lo + 1,
{
    if hi < lo {
        Seq::empty()
    } else {
        score_bucket(s, hi as i32) + buckets_from(s, hi - 1, lo)
    }
}

/// Graded pairs ordered by score, highest first, ties in input order. Every
/// score lies between `MIN_SCORE` and `MAX_SCORE`.
pub open spec fn sorted_by_score(s: Seq<(ImageInfo, ImageGrade)>) -> Seq<(ImageInfo, ImageGrade)> {
    buckets_from(s, MAX_SCORE as int, MIN_SCORE as int)
}

/// The highest total score an image can have.
pub const MAX_SCORE: i32 = 6;
/// The lowest total score an image can have.
pub const MIN_SCORE: i32 = -3;

impl ImageGrader {
    pub fn new() -> (r: Self)
        ensures
            r == ImageGrader,
    {
        ImageGrader
    }

    /// Grade an image by provider, size and resolution.
    pub fn grade_image(&self, info: &ImageInfo) -> (r: ImageGrade)
        ensures
            r.provider_score == provider_score(spec_to_lowercase(info.provider@)),
            r.size_score == size_score(info.size_bytes),
            r.resolution_score == resolution_score(info.width, info.height),
            r.score == image_score(*info),
            MIN_SCORE <= r.score <= MAX_SCORE,
    {
        let provider_score = self.grade_provider(info.provider.as_str());
        let size_score = self.grade_size(info.size_bytes);
        let resolution_score = self.grade_resolution(info.width, info.height);
        let score = provider_score + size_score + resolution_score;
        ImageGrade { score, provider_score, size_score, resolution_score }
    }

    /// Spotify +1, TheAudioDB +2, FanArt.tv +3, anything else 0; case-insensitive.
    pub fn grade_provider(&self, provider: &str) -> (r: i32)
        ensures
            r == provider_score(spec_to_lowercase(provider@)),
            0 <= r <= 3,
    {
        let lower = to_lowercase(provider);
        let l = lower.as_str();
        if str_eq(l, "spotify") {
            1
        } else if str_eq(l, "theaudiodb") {
            2
        } else if str_eq(l, "fanarttv") || str_eq(l, "fanart.tv") {
            3
        } else {
            0
        }
    }

    /// Under 10KB -1, over 100KB +1, otherwise or unknown 0.
    pub fn grade_size(&self, size_bytes: Option<u64>) -> (r: i32)
        ensures
            r == size_score(size_bytes),
            -1 <= r <= 1,
    {
        match size_bytes {
            Some(size) => {
                if size < 10_240 {
                    -1
                } else if size > 102_400 {
                    1
                } else {
                    0
                }
            },
            None => 0,
        }
    }

    /// By the smaller dimension: under 100 -2, under 300 -1, over 1000 +2,
    /// over 600 +1, otherwise or unknown 0.
    pub fn grade_resolution(&self, width: Option<u32>, height: Option<u32>) -> (r: i32)
        ensures
            r == resolution_score(width, height),
            -2 <= r <= 2,
    {
        match (width, height) {
            (Some(w), Some(h)) => {
                let m = if w <= h { w } else { h };
                if m < 100 {
                    -2
                } else if m < 300 {
                    -1
                } else if m > 1000 {
                    2
                } else if m > 600 {
                    1
                } else {
                    0
                }
            },
            _ => 0,
        }
    }

    /// Grade every image and order them by score, highest first; images
    /// with equal scores keep their input order.
    pub fn grade_and_sort_images(&self, images: Vec<ImageInfo>) -> (r: Vec<(ImageInfo, ImageGrade)>)
        ensures
            r@ == sorted_by_score(graded(images@)),
            forall|i: int, j: int| 0 <= i < j < r@.len() ==> r@[i].1.score >= r@[j].1.score,
    {
        let mut graded_images: Vec<(ImageInfo, ImageGrade)> = Vec::new();
        let mut i: usize = 0;
        while i < images.len()
            invariant
                i <= images.len(),
                graded_images@ == graded(images@.take(i as int)),
                forall|k: int| 0 <= k < graded_images@.len() ==>
                    MIN_SCORE <= #[trigger] graded_images@[k].1.score <= MAX_SCORE,
            decreases images.len() - i,
        {
            let grade = self.grade_image(&images[i]);
            graded_images.push((images[i].duplicate(), grade));
            proof {
                assert(images@.take(i + 1).drop_last() == images@.take(i as int));
            }
            i = i + 1;
        }
        assert(images@.take(images@.len() as int) == images@);
        let r = sort_by_score(&graded_images);
        r
    }
}

/// Each image with its grade, in order.
pub open spec fn graded(images: Seq<ImageInfo>) -> Seq<(ImageInfo, ImageGrade)>
    decreases images.len(),
{
    if images.len() == 0 {
        Seq::empty()
    } else {
        graded(images.drop_last()).push((images.last(), grade_of(images.last())))
    }
}

/// The grade of an image, with its breakdown.
pub open spec fn grade_of(info: ImageInfo) -> ImageGrade {
    ImageGrade {
        score: image_score(info),
        provider_score: provider_score(spec_to_lowercase(info.provider@)),
        size_score: size_score(info.size_bytes),
        resolution_score: resolution_score(info.width, info.height),
    }
}

/// The pairs of `s` with score `v`, in order.
fn bucket(s: &Vec<(ImageInfo, ImageGrade)>, v: i32, out: &mut Vec<(ImageInfo, ImageGrade)>)
    ensures
        final(out)@ == old(out)@ + score_bucket(s@, v),
{
    let ghost start = old(out)@;
    let mut i: usize = 0;
    while i < s.len()
        invariant
            i <= s.len(),
            out@ == start + score_bucket(s@.take(i as int), v),
        decreases s.len() - i,
    {
        proof {
            reveal(Seq::filter);
            assert(s@.take(i + 1).drop_last() == s@.take(i as int));
        }
        if s[i].1.score == v {
            out.push((s[i].0.duplicate(), s[i].1));
        }
        i = i + 1;
    }
    assert(s@.take(s@.len() as int) == s@);
}

/// `s` ordered by score, highest first, ties in input order.
fn sort_by_score(s: &Vec<(ImageInfo, ImageGrade)>) -> (r: Vec<(ImageInfo, ImageGrade)>)
    requires
        forall|k: int| 0 <= k < s@.len() ==> MIN_SCORE <= #[trigger] s@[k].1.score <= MAX_SCORE,
    ensures
        r@ == sorted_by_score(s@),
        forall|i: int, j: int| 0 <= i < j < r@.len() ==> r@[i].1.score >= r@[j].1.score,
{
    let mut out: Vec<(ImageInfo, ImageGrade)> = Vec::new();
    let mut v: i32 = MAX_SCORE;
    while v >= MIN_SCORE
        invariant
            MIN_SCORE - 1 <= v <= MAX_SCORE,
            out@ + buckets_from(s@, v as int, MIN_SCORE as int) == sorted_by_score(s@),
            forall|k: int| 0 <= k < out@.len() ==> v < #[trigger] out@[k].1.score,
            forall|i: int, j: int| 0 <= i < j < out@.len() ==> out@[i].1.score >= out@[j].1.score,
        decreases v - MIN_SCORE + 1,
    {
        let ghost before = out@;
        bucket(s, v, &mut out);
        proof {
            let b = score_bucket(s@, v);
            lemma_bucket_scores(s@, v);
            assert(out@ == before + b);
            assert(before + b + buckets_from(s@, v - 1, MIN_SCORE as int)
                == before + (b + buckets_from(s@, v - 1, MIN_SCORE as int)));
            assert forall|i: int, j: int| 0 <= i < j < out@.len() implies out@[i].1.score
                >= out@[j].1.score by {
                if j < before.len() {
                    assert(out@[i] == before[i]);
                    assert(out@[j] == before[j]);
                } else if i < before.len() {
                    assert(out@[i] == before[i]);
                    assert(out@[j] == b[j - before.len()]);
                } else {
                    assert(out@[i] == b[i - before.len()]);
                    assert(out@[j] == b[j - before.len()]);
                }
            }
            assert forall|k: int| 0 <= k < out@.len() implies v - 1 < #[trigger] out@[k].1.score by {
                if k < before.len() {
                    assert(out@[k] == before[k]);
                } else {
                    assert(out@[k] == b[k - before.len()]);
                }
            }
        }
        v = v - 1;
    }
    assert(buckets_from(s@, v as int, MIN_SCORE as int) == Seq::<(ImageInfo, ImageGrade)>::empty());
    assert(out@ + Seq::<(ImageInfo, ImageGrade)>::empty() == out@);
    out
}

/// Every pair of a score bucket has that score.
pub proof fn lemma_bucket_scores(s: Seq<(ImageInfo, ImageGrade)>, v: i32)
    ensures
        forall|k: int| 0 <= k < score_bucket(s, v).len() ==> #[trigger] score_bucket(s, v)[k].1.score == v,
{
    broadcast use vstd::seq_lib::group_filter_ensures;
    let f = |p: (ImageInfo, ImageGrade)| p.1.score == v;
    assert forall|k: int| 0 <= k < score_bucket(s, v).len() implies #[trigger] score_bucket(s, v)[k].1.score == v by {
        s.lemma_filter_pred(f, k);
    }
}

impl Default for ImageGrader {
    fn default() -> (r: Self)
        ensures
            r == ImageGrader,
    {
        ImageGrader
    }
}

} // verus!
