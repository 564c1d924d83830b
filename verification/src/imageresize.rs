//! The resize ladder: which variant sizes exist, how requests snap to them,
//! how variants are named, and the bounded decode behind resizing.

use vstd::prelude::*;
use crate::json::JsonValue;
use crate::paths::{file_stem, spec_file_stem};
use crate::text::{all_digits, dec, dec_value, is_ascii_digit, lemma_dec_shape, push_char, push_str,
    string_of_range, chars_of, u64_to_string};

verus! {

/// JPEG quality for generated variants.
pub const JPEG_QUALITY: u8 = 82;

/// Largest edge, in pixels, that will be decoded.
pub const MAX_DECODE_EDGE: u32 = 4096;

/// Ceiling on what a single decode may allocate.
pub const MAX_DECODE_ALLOC: u64 = 134217728;

/// The outcome of a resize request.
#[derive(Debug)]
pub enum Resized {
    /// The source is already at or below the target size; serve it unchanged.
    Original,
    /// Re-encoded image data and its MIME type.
    Image(Vec<u8>, String),
}

/// Why a resize failed.
#[derive(Debug)]
pub enum ResizeError {
    Decode(String),
    Encode(String),
}

/// The text a resize error is shown as.
pub open spec fn resize_error_text(e: ResizeError) -> Seq<char> {
    match e {
        ResizeError::Decode(m) => "failed to decode image: "@ + m@,
        ResizeError::Encode(m) => "failed to encode image: "@ + m@,
    }
}

impl ResizeError {
    /// The text the error is shown as.
    pub fn message(&self) -> (r: String)
        ensures
            r@ == resize_error_text(*self),
    {
        match self {
            ResizeError::Decode(m) => crate::text::concat2("failed to decode image: ", m.as_str()),
            ResizeError::Encode(m) => crate::text::concat2("failed to encode image: ", m.as_str()),
        }
    }
}

/// What serving a size variant comes to once its original has been resized.
pub enum VariantStep {
    /// The original is small enough: serve it as it is.
    ServeOriginal,
    /// Serve these bytes of this type, and store them as the variant.
    StoreAndServe(Vec<u8>, String),
    /// Resizing failed: this error.
    Fail(String),
}

/// What serving a variant of the original at `base_path` comes to, given
/// what resizing the original gave.
pub fn variant_step(base_path: &str, resized: Result<Resized, ResizeError>) -> (r: VariantStep)
    ensures
        match resized {
            Ok(Resized::Original) => r is ServeOriginal,
            Ok(Resized::Image(d, m)) => r matches VariantStep::StoreAndServe(d2, m2) && d2@ == d@ && m2@ == m@,
            Err(e) => r matches VariantStep::Fail(t) && t@ == "Failed to resize "@ + base_path@ + ": "@ + resize_error_text(e),
        },
{
    match resized {
        Ok(Resized::Original) => VariantStep::ServeOriginal,
        Ok(Resized::Image(d, m)) => VariantStep::StoreAndServe(d, m),
        Err(e) => {
            let mut t = crate::text::concat2("Failed to resize ", base_path);
            push_str(&mut t, ": ");
            let m = e.message();
            push_str(&mut t, m.as_str());
            VariantStep::Fail(t)
        },
    }
}

// ---------------------------------------------------------------------------
// The ladder
// ---------------------------------------------------------------------------

pub open spec fn strictly_increasing(s: Seq<u32>) -> bool {
    forall|i: int, j: int| 0 <= i < j < s.len() ==> s[i] < s[j]
}

pub open spec fn spec_default_sizes() -> Seq<u32> {
    seq![100u32, 140, 200, 280, 400, 800]
}

pub open spec fn spec_default_prewarm_sizes() -> Seq<u32> {
    seq![140u32, 200, 280]
}

/// The ladder used when configuration does not specify one.
pub fn default_sizes() -> (r: Vec<u32>)
    ensures
        r@ == spec_default_sizes(),
{
    let r = vec![100u32, 140, 200, 280, 400, 800];
    assert(r@ == spec_default_sizes());
    r
}

/// The pre-warm rungs used when configuration does not specify them.
pub fn default_prewarm_sizes() -> (r: Vec<u32>)
    ensures
        r@ == spec_default_prewarm_sizes(),
{
    let r = vec![140u32, 200, 280];
    assert(r@ == spec_default_prewarm_sizes());
    r
}

/// The configured ladder and pre-warm rungs.
///
/// The sizes are positive and strictly increasing and never empty; the
/// pre-warm rungs are strictly increasing and each one is a size.
pub struct ImageLadder {
    sizes: Vec<u32>,
    prewarm: Vec<u32>,
}

impl ImageLadder {
    pub open spec fn wf(&self) -> bool {
        &&& self.spec_sizes().len() > 0
        &&& strictly_increasing(self.spec_sizes())
        &&& forall|i: int| 0 <= i < self.spec_sizes().len() ==> #[trigger] self.spec_sizes()[i] > 0
        &&& strictly_increasing(self.spec_prewarm())
        &&& forall|x: u32| #[trigger] self.spec_prewarm().contains(x) ==> self.spec_sizes().contains(x)
    }

    pub closed spec fn spec_sizes(&self) -> Seq<u32> {
        self.sizes@
    }

    pub closed spec fn spec_prewarm(&self) -> Seq<u32> {
        self.prewarm@
    }

    /// The ladder in effect when configuration was never applied.
    pub fn unconfigured() -> (r: Self)
        ensures
            r.wf(),
            r.spec_sizes() == spec_default_sizes(),
            r.spec_prewarm() == spec_default_prewarm_sizes(),
    {
        let r = ImageLadder { sizes: default_sizes(), prewarm: default_prewarm_sizes() };
        assert(r.prewarm@.contains(140u32) ==> r.sizes@[1] == 140);
        assert forall|x: u32| #[trigger] r.prewarm@.contains(x) implies r.sizes@.contains(x) by {
            if x == 140 {
                assert(r.sizes@[1] == 140);
            } else if x == 200 {
                assert(r.sizes@[2] == 200);
            } else if x == 280 {
                assert(r.sizes@[3] == 280);
            }
        }
        r
    }
}

/// The ladder a process runs with: the built-in one until configuration is
/// applied, then the first configuration applied; a later one is ignored.
pub struct LadderSetting {
    ladder: ImageLadder,
    configured: bool,
}

impl LadderSetting {
    pub closed spec fn spec_ladder(&self) -> ImageLadder {
        self.ladder
    }

    pub closed spec fn spec_configured(&self) -> bool {
        self.configured
    }

    /// The built-in ladder, no configuration applied yet.
    pub fn new() -> (r: Self)
        ensures
            !r.spec_configured(),
            r.spec_ladder().wf(),
            r.spec_ladder().spec_sizes() == spec_default_sizes(),
            r.spec_ladder().spec_prewarm() == spec_default_prewarm_sizes(),
    {
        LadderSetting { ladder: ImageLadder::unconfigured(), configured: false }
    }

    /// Apply configuration, unless some was applied before: whether this
    /// one took effect. Once configured, the ladder never changes again.
    pub fn apply(&mut self, raw_sizes: Option<Vec<u32>>, raw_prewarm: Option<Vec<u32>>) -> (applied: bool)
        ensures
            applied == !old(self).spec_configured(),
            final(self).spec_configured(),
            !applied ==> final(self).spec_ladder() == old(self).spec_ladder(),
            applied ==> ({
                let l = final(self).spec_ladder();
                &&& l.wf()
                &&& (raw_sizes is None ==> l.spec_sizes() == spec_default_sizes())
                &&& (raw_sizes matches Some(v) ==> sanitised_sizes(v@, l.spec_sizes()))
                &&& (raw_prewarm matches Some(p) ==> sanitised_prewarm(p@, l.spec_sizes(), l.spec_prewarm()))
                &&& (raw_prewarm is None ==> l.spec_prewarm() == spec_default_prewarm_sizes().filter(
                    |x: u32| l.spec_sizes().contains(x),
                ))
            }),
    {
        if self.configured {
            return false;
        }
        self.ladder = configure(raw_sizes, raw_prewarm);
        self.configured = true;
        true
    }

    /// The ladder in effect.
    pub fn ladder(&self) -> (r: &ImageLadder)
        ensures
            *r == self.spec_ladder(),
    {
        &self.ladder
    }
}

/// The sizes this daemon offers, in ascending order.
pub fn sizes(ladder: &ImageLadder) -> (r: &Vec<u32>)
    ensures
        r@ == ladder.spec_sizes(),
{
    &ladder.sizes
}

/// The sizes the pre-warm job generates. May legitimately be empty.
pub fn prewarm_sizes(ladder: &ImageLadder) -> (r: &Vec<u32>)
    ensures
        r@ == ladder.spec_prewarm(),
{
    &ladder.prewarm
}

/// The ladder that configuration yields: sanitised sizes (default when
/// absent), and pre-warm rungs kept to the ladder (the default's rungs that
/// the ladder offers, when absent).
pub fn configure(raw_sizes: Option<Vec<u32>>, raw_prewarm: Option<Vec<u32>>) -> (r: ImageLadder)
    ensures
        r.wf(),
        raw_sizes is None ==> r.spec_sizes() == spec_default_sizes(),
        raw_sizes matches Some(v) ==> sanitised_sizes(v@, r.spec_sizes()),
        raw_prewarm matches Some(p) ==> sanitised_prewarm(p@, r.spec_sizes(), r.spec_prewarm()),
        raw_prewarm is None ==> r.spec_prewarm() == spec_default_prewarm_sizes().filter(
            |x: u32| r.spec_sizes().contains(x),
        ),
{
    let ladder = match raw_sizes {
        Some(v) => sanitise_sizes(v),
        None => default_sizes(),
    };
    let prewarm = match raw_prewarm {
        Some(v) => sanitise_prewarm(v, &ladder),
        None => {
            let d = default_prewarm_sizes();
            let mut out: Vec<u32> = Vec::new();
            let mut i: usize = 0;
            while i < d.len()
                invariant
                    i <= d.len(),
                    d@ == spec_default_prewarm_sizes(),
                    out@ == d@.take(i as int).filter(|x: u32| ladder@.contains(x)),
                decreases d.len() - i,
            {
                proof {
                    reveal(Seq::filter);
                    assert(d@.take(i + 1).drop_last() == d@.take(i as int));
                }
                if contains_u32(&ladder, d[i]) {
                    out.push(d[i]);
                }
                i = i + 1;
            }
            assert(d@.take(d@.len() as int) == d@);
            proof {
                broadcast use vstd::seq_lib::group_filter_ensures;
                let f = |x: u32| ladder@.contains(x);
                assert forall|a: int, b: int| 0 <= a < b < out@.len() implies out@[a] < out@[b] by {
                    lemma_filter_increasing(d@, f);
                }
                assert forall|x: u32| #[trigger] out@.contains(x) implies ladder@.contains(x) by {
                    let k = choose|k: int| 0 <= k < out@.len() && out@[k] == x;
                    d@.lemma_filter_pred(f, k);
                }
            }
            out
        },
    };
    ImageLadder { sizes: ladder, prewarm }
}

/// Filtering keeps a strictly increasing sequence strictly increasing.
pub proof fn lemma_filter_increasing(s: Seq<u32>, f: spec_fn(u32) -> bool)
    requires
        strictly_increasing(s),
    ensures
        strictly_increasing(s.filter(f)),
        forall|x: u32| #[trigger] s.filter(f).contains(x) ==> s.contains(x) && f(x),
    decreases s.len(),
{
    reveal(Seq::filter);
    broadcast use vstd::seq_lib::group_filter_ensures;
    if s.len() > 0 {
        let t = s.drop_last();
        assert(strictly_increasing(t));
        lemma_filter_increasing(t, f);
        let ft = t.filter(f);
        if f(s.last()) {
            assert forall|a: int, b: int| 0 <= a < b < ft.push(s.last()).len() implies ft.push(
                s.last(),
            )[a] < ft.push(s.last())[b] by {
                if b == ft.len() {
                    assert(ft.contains(ft[a]));
                    let k = choose|k: int| 0 <= k < t.len() && t[k] == ft[a];
                    assert(s[k] == t[k]);
                }
            }
        }
        assert forall|x: u32| #[trigger] s.filter(f).contains(x) implies s.contains(x) && f(x) by {
            if f(s.last()) && x == s.last() {
                assert(s[s.len() - 1] == x);
            } else {
                assert(ft.contains(x));
                let k = choose|k: int| 0 <= k < t.len() && t[k] == x;
                assert(s[k] == x);
            }
        }
    }
}

/// Whether `x` is one of `v`'s elements.
pub fn contains_u32(v: &Vec<u32>, x: u32) -> (r: bool)
    ensures
        r == v@.contains(x),
{
    let mut i: usize = 0;
    while i < v.len()
        invariant
            i <= v.len(),
            forall|k: int| 0 <= k < i ==> v@[k] != x,
        decreases v.len() - i,
    {
        if v[i] == x {
            return true;
        }
        i = i + 1;
    }
    false
}

/// Insert `x` into a strictly increasing vector that lacks it, keeping it so.
fn insert_sorted(v: &mut Vec<u32>, x: u32)
    requires
        strictly_increasing(old(v)@),
        !old(v)@.contains(x),
    ensures
        strictly_increasing(final(v)@),
        forall|y: u32| #[trigger] final(v)@.contains(y) <==> (old(v)@.contains(y) || y == x),
        final(v)@.len() == old(v)@.len() + 1,
{
    let mut i: usize = 0;
    while i < v.len() && v[i] < x
        invariant
            i <= v.len(),
            forall|k: int| 0 <= k < i ==> v@[k] < x,
        decreases v.len() - i,
    {
        i = i + 1;
    }
    let ghost before = v@;
    v.insert(i, x);
    proof {
        assert(forall|k: int| i <= k < before.len() ==> before[k] > x) by {
            assert forall|k: int| i <= k < before.len() implies before[k] > x by {
                if k > i {
                    assert(before[i as int] < before[k]);
                }
                assert(before[i as int] != x);
            }
        }
        assert forall|y: u32| #[trigger] v@.contains(y) <==> (before.contains(y) || y == x) by {
            if v@.contains(y) {
                let k = choose|k: int| 0 <= k < v@.len() && v@[k] == y;
                if k < i {
                    assert(before[k] == y);
                } else if k > i {
                    assert(before[k - 1] == y);
                }
            }
            if before.contains(y) {
                let k = choose|k: int| 0 <= k < before.len() && before[k] == y;
                if k < i {
                    assert(v@[k] == y);
                } else {
                    assert(v@[k + 1] == y);
                }
            }
            if y == x {
                assert(v@[i as int] == x);
            }
        }
    }
}

/// `r` is the ascending list of the distinct positive sizes of `raw`, or the
/// default ladder when `raw` has no positive size.
pub open spec fn sanitised_sizes(raw: Seq<u32>, r: Seq<u32>) -> bool {
    &&& strictly_increasing(r)
    &&& (exists|i: int| 0 <= i < raw.len() && raw[i] > 0) ==> (forall|x: u32|
        #[trigger] r.contains(x) <==> (x > 0 && raw.contains(x)))
    &&& !(exists|i: int| 0 <= i < raw.len() && raw[i] > 0) ==> r == spec_default_sizes()
}

/// `r` is the ascending list of the distinct entries of `raw` that the
/// ladder offers.
pub open spec fn sanitised_prewarm(raw: Seq<u32>, ladder: Seq<u32>, r: Seq<u32>) -> bool {
    &&& strictly_increasing(r)
    &&& forall|x: u32| #[trigger] r.contains(x) <==> (raw.contains(x) && ladder.contains(x))
}


/// Extending a prefix by one element adds exactly that element.
pub proof fn lemma_take_succ_contains<T>(s: Seq<T>, i: int)
    requires
        0 <= i < s.len(),
    ensures
        forall|x: T| #[trigger] s.take(i + 1).contains(x) <==> (s.take(i).contains(x) || x == s[i]),
{
    assert(s.take(i + 1) == s.take(i).push(s[i]));
    assert forall|x: T| #[trigger] s.take(i + 1).contains(x) <==> (s.take(i).contains(x) || x == s[i]) by {
        if s.take(i + 1).contains(x) {
            let k = choose|k: int| 0 <= k < i + 1 && #[trigger] s.take(i + 1)[k] == x;
            if k < i {
                assert(s.take(i)[k] == x);
            }
        }
        if s.take(i).contains(x) {
            let k = choose|k: int| 0 <= k < i && #[trigger] s.take(i)[k] == x;
            assert(s.take(i + 1)[k] == x);
        }
        if x == s[i] {
            assert(s.take(i + 1)[i] == x);
        }
    }
}

/// Two strictly increasing sequences with the same elements are equal.
pub proof fn lemma_increasing_unique(a: Seq<u32>, b: Seq<u32>)
    requires
        strictly_increasing(a),
        strictly_increasing(b),
        forall|x: u32| #[trigger] a.contains(x) <==> b.contains(x),
    ensures
        a == b,
    decreases a.len(),
{
    if a.len() == 0 {
        if b.len() > 0 {
            assert(b.contains(b[0]));
            assert(a.contains(b[0]));
        }
        assert(a =~= b);
    } else if b.len() == 0 {
        assert(a.contains(a[0]));
    } else {
        // the first elements are both the minimum
        assert(a.contains(a[0]));
        assert(b.contains(b[0]));
        assert(a.contains(b[0]));
        assert(b.contains(a[0]));
        let ka = choose|k: int| 0 <= k < a.len() && a[k] == b[0];
        let kb = choose|k: int| 0 <= k < b.len() && b[k] == a[0];
        if ka > 0 {
            assert(a[0] < a[ka]);
        }
        if kb > 0 {
            assert(b[0] < b[kb]);
        }
        assert(a[0] == b[0]);
        let ta = a.drop_first();
        let tb = b.drop_first();
        assert forall|x: u32| #[trigger] ta.contains(x) <==> tb.contains(x) by {
            if ta.contains(x) {
                let k = choose|k: int| 0 <= k < ta.len() && ta[k] == x;
                assert(a[k + 1] == x);
                assert(a[0] < a[k + 1]);
                assert(a.contains(x));
                assert(x != a[0]);
                assert(a.contains(x));
                let m = choose|m: int| 0 <= m < b.len() && b[m] == x;
                assert(m != 0);
                assert(tb[m - 1] == x);
            }
            if tb.contains(x) {
                let k = choose|k: int| 0 <= k < tb.len() && tb[k] == x;
                assert(b[k + 1] == x);
                assert(b[0] < b[k + 1]);
                assert(b.contains(x));
                assert(x != b[0]);
                assert(x != a[0]);
                assert(a.contains(x));
                let m = choose|m: int| 0 <= m < a.len() && a[m] == x;
                assert(m != 0);
                assert(ta[m - 1] == x);
            }
        }
        lemma_increasing_unique(ta, tb);
        assert(a == seq![a[0]] + ta);
        assert(b == seq![b[0]] + tb);
        assert(a =~= b);
    }
}

/// Drop invalid and duplicate rungs, sort, and fall back to the default
/// ladder if nothing survives.
pub fn sanitise_sizes(raw: Vec<u32>) -> (r: Vec<u32>)
    ensures
        sanitised_sizes(raw@, r@),
        r@.len() > 0,
        forall|i: int| 0 <= i < r@.len() ==> #[trigger] r@[i] > 0,
{
    let mut cleaned: Vec<u32> = Vec::new();
    let mut i: usize = 0;
    while i < raw.len()
        invariant
            i <= raw.len(),
            strictly_increasing(cleaned@),
            forall|x: u32| #[trigger] cleaned@.contains(x) <==> (x > 0 && raw@.take(i as int).contains(x)),
        decreases raw.len() - i,
    {
        let size = raw[i];
        proof {
            lemma_take_succ_contains(raw@, i as int);
        }
        if size != 0 && !contains_u32(&cleaned, size) {
            insert_sorted(&mut cleaned, size);
        }
        i = i + 1;
    }
    assert(raw@.take(raw@.len() as int) == raw@);
    if cleaned.len() == 0 {
        proof {
            if exists|k: int| 0 <= k < raw@.len() && raw@[k] > 0 {
                let k = choose|k: int| 0 <= k < raw@.len() && raw@[k] > 0;
                assert(raw@.contains(raw@[k]));
                assert(cleaned@.contains(raw@[k]));
            }
        }
        return default_sizes();
    }
    proof {
        assert(cleaned@.contains(cleaned@[0]));
        assert forall|k: int| 0 <= k < cleaned@.len() implies #[trigger] cleaned@[k] > 0 by {
            assert(cleaned@.contains(cleaned@[k]));
        }
    }
    cleaned
}

/// Keep only pre-warm rungs the ladder offers, without duplicates, in
/// ascending order. An empty result is legitimate: pre-warming is off.
pub fn sanitise_prewarm(raw: Vec<u32>, ladder: &Vec<u32>) -> (r: Vec<u32>)
    ensures
        sanitised_prewarm(raw@, ladder@, r@),
{
    let mut cleaned: Vec<u32> = Vec::new();
    let mut i: usize = 0;
    while i < raw.len()
        invariant
            i <= raw.len(),
            strictly_increasing(cleaned@),
            forall|x: u32| #[trigger] cleaned@.contains(x) <==> (raw@.take(i as int).contains(x) && ladder@.contains(x)),
        decreases raw.len() - i,
    {
        let size = raw[i];
        proof {
            lemma_take_succ_contains(raw@, i as int);
        }
        if contains_u32(ladder, size) && !contains_u32(&cleaned, size) {
            insert_sorted(&mut cleaned, size);
        }
        i = i + 1;
    }
    assert(raw@.take(raw@.len() as int) == raw@);
    cleaned
}

/// The first rung of `ladder` at or above `requested`, in ladder order.
pub open spec fn first_at_least(ladder: Seq<u32>, requested: u32) -> Option<u32>
    decreases ladder.len(),
{
    if ladder.len() == 0 {
        None
    } else if ladder[0] >= requested {
        Some(ladder[0])
    } else {
        first_at_least(ladder.drop_first(), requested)
    }
}

/// Round a requested size up to the next ladder rung; `None` when the
/// request is larger than the biggest rung (serve the original untouched).
pub fn snap_to_rung(ladder: &ImageLadder, requested: u32) -> (r: Option<u32>)
    requires
        ladder.wf(),
    ensures
        r == first_at_least(ladder.spec_sizes(), requested),
        r matches Some(rung) ==> ladder.spec_sizes().contains(rung) && rung >= requested
            && forall|x: u32| #[trigger] ladder.spec_sizes().contains(x) && x >= requested ==> rung <= x,
        r is None ==> forall|x: u32| #[trigger] ladder.spec_sizes().contains(x) ==> x < requested,
{
    let s = &ladder.sizes;
    let mut i: usize = 0;
    assert(s@.subrange(0, s@.len() as int) == s@);
    while i < s.len() && s[i] < requested
        invariant
            i <= s.len(),
            s@ == ladder.spec_sizes(),
            first_at_least(s@, requested) == first_at_least(s@.subrange(i as int, s@.len() as int), requested),
            forall|k: int| 0 <= k < i ==> s@[k] < requested,
        decreases s.len() - i,
    {
        assert(s@.subrange(i as int, s@.len() as int).drop_first() == s@.subrange(i + 1, s@.len() as int));
        i = i + 1;
    }
    if i < s.len() {
        assert(s@.subrange(i as int, s@.len() as int)[0] == s@[i as int]);
        proof {
            assert forall|x: u32| #[trigger] s@.contains(x) && x >= requested implies s@[i as int] <= x by {
                let k = choose|k: int| 0 <= k < s@.len() && s@[k] == x;
                if k < i {
                } else if k > i {
                    assert(s@[i as int] < s@[k]);
                }
            }
            assert(s@.contains(s@[i as int]));
        }
        Some(s[i])
    } else {
        None
    }
}

// ---------------------------------------------------------------------------
// Variant names
// ---------------------------------------------------------------------------

/// `base@size`: the stem of a variant file.
pub open spec fn spec_variant_stem(base: Seq<char>, size: u32) -> Seq<char> {
    base + seq!['@'] + dec(size as nat)
}

/// Build the file stem for a variant: `("cover", 400)` becomes `"cover@400"`.
pub fn variant_stem(base_stem: &str, size: u32) -> (r: String)
    ensures
        r@ == spec_variant_stem(base_stem@, size),
{
    let mut r = String::new();
    push_str(&mut r, base_stem);
    push_char(&mut r, '@');
    let digits = u64_to_string(size as u64);
    push_str(&mut r, digits.as_str());
    r
}

/// The index of the last `c` in `s`.
pub open spec fn last_index_of(s: Seq<char>, c: char) -> Option<int>
    decreases s.len(),
{
    if s.len() == 0 {
        None
    } else if s.last() == c {
        Some(s.len() - 1)
    } else {
        last_index_of(s.drop_last(), c)
    }
}

/// The size a variant stem names: the digits after its last `@`, when
/// there are some, there is nothing else, and they fit a `u32`.
pub open spec fn spec_variant_size_of(stem: Seq<char>) -> Option<u32> {
    match last_index_of(stem, '@') {
        None => None,
        Some(k) => {
            let tail = stem.subrange(k + 1, stem.len() as int);
            if tail.len() > 0 && all_digits(tail) && dec_value(tail) <= u32::MAX {
                Some(dec_value(tail) as u32)
            } else {
                None
            }
        },
    }
}

pub proof fn lemma_last_index_of(s: Seq<char>, c: char)
    ensures
        last_index_of(s, c) matches Some(k) ==> 0 <= k < s.len() && s[k] == c && forall|j: int|
            k < j < s.len() ==> s[j] != c,
        last_index_of(s, c) is None ==> forall|j: int| 0 <= j < s.len() ==> s[j] != c,
    decreases s.len(),
{
    if s.len() > 0 && s.last() != c {
        let t = s.drop_last();
        lemma_last_index_of(t, c);
        assert forall|j: int| 0 <= j < s.len() - 1 implies s[j] == #[trigger] t[j] by {}
        match last_index_of(t, c) {
            Some(k) => {
                assert forall|j: int| k < j < s.len() implies s[j] != c by {
                    if j < s.len() - 1 {
                        assert(s[j] == t[j]);
                    }
                }
            },
            None => {
                assert forall|j: int| 0 <= j < s.len() implies s[j] != c by {
                    if j < s.len() - 1 {
                        assert(s[j] == t[j]);
                    }
                }
            },
        }
    }
}

/// Extract the size from a variant stem, or `None` if this is not a variant.
pub fn variant_size_of(stem: &str) -> (r: Option<u32>)
    ensures
        r == spec_variant_size_of(stem@),
{
    let cs = chars_of(stem);
    let n = cs.len();
    let mut k: usize = n;
    assert(stem@.subrange(0, n as int) == stem@);
    // find the last '@'
    while k > 0 && cs[k - 1] != '@'
        invariant
            k <= n == cs.len(),
            cs@ == stem@,
            last_index_of(stem@, '@') == last_index_of(stem@.subrange(0, k as int), '@'),
        decreases k,
    {
        assert(stem@.subrange(0, k as int).drop_last() == stem@.subrange(0, k - 1));
        k = k - 1;
    }
    if k == 0 {
        assert(stem@.subrange(0, 0).len() == 0);
        return None;
    }
    assert(stem@.subrange(0, k as int).last() == '@');
    assert(last_index_of(stem@.subrange(0, k as int), '@') == Some(k - 1));
    let ghost tail = stem@.subrange(k as int, n as int);
    if k == n {
        return None;
    }
    let mut value: u64 = 0;
    let mut i: usize = k;
    while i < n
        invariant
            k <= i <= n == cs.len(),
            cs@ == stem@,
            tail == stem@.subrange(k as int, n as int),
            last_index_of(stem@, '@') == Some(k - 1),
            all_digits(stem@.subrange(k as int, i as int)),
            value == dec_value(stem@.subrange(k as int, i as int)),
            value <= u32::MAX,
        decreases n - i,
    {
        let c = cs[i];
        if !('0' <= c && c <= '9') {
            proof {
                assert(tail[i - k] == c);
                assert(!is_ascii_digit(tail[i - k]));
            }
            return None;
        }
        let d: u64 = (c as u32 - '0' as u32) as u64;
        proof {
            let t = stem@.subrange(k as int, i + 1);
            assert(t.drop_last() == stem@.subrange(k as int, i as int));
            assert(t.last() == c);
            assert(dec_value(t) == dec_value(t.drop_last()) * 10 + d);
            assert forall|j: int| 0 <= j < t.len() implies is_ascii_digit(#[trigger] t[j]) by {
                if j < t.len() - 1 {
                    assert(t[j] == stem@.subrange(k as int, i as int)[j]);
                }
            }
        }
        if value > 429496729 || (value == 429496729 && d > 5) {
            // the numeral is already past u32::MAX, and digits only grow it
            proof {
                lemma_dec_value_grows(tail, (i + 1 - k) as int);
                assert(stem@.subrange(k as int, i + 1) == tail.take((i + 1 - k) as int));
            }
            return None;
        }
        value = value * 10 + d;
        i = i + 1;
    }
    assert(stem@.subrange(k as int, n as int) == tail);
    Some(value as u32)
}

/// The value of a digit run never drops as digits are appended.
pub proof fn lemma_dec_value_grows(s: Seq<char>, m: int)
    requires
        0 <= m <= s.len(),
        all_digits(s.take(m)) || true,
    ensures
        all_digits(s) ==> dec_value(s.take(m)) <= dec_value(s),
    decreases s.len() - m,
{
    if m < s.len() {
        lemma_dec_value_grows(s, m + 1);
        if all_digits(s) {
            assert(s.take(m + 1).drop_last() == s.take(m));
            assert(is_ascii_digit(s[m]));
        }
    } else {
        assert(s.take(m) == s);
    }
}

/// A variant stem names its own size back: `variant_size_of(variant_stem(b, n)) == Some(n)`.
pub proof fn law_variant_stem_round_trip(base: Seq<char>, size: u32)
    ensures
        spec_variant_size_of(spec_variant_stem(base, size)) == Some(size),
{
    let d = dec(size as nat);
    let s = spec_variant_stem(base, size);
    lemma_dec_shape(size as nat);
    let k = base.len() as int;
    assert(s[k] == '@');
    assert forall|j: int| k < j < s.len() implies s[j] != '@' by {
        assert(s[j] == d[j - k - 1]);
        assert(is_ascii_digit(d[j - k - 1]));
    }
    lemma_last_index_of_at(s, '@', k);
    assert(s.subrange(k + 1, s.len() as int) == d);
}

proof fn lemma_last_index_of_at(s: Seq<char>, c: char, k: int)
    requires
        0 <= k < s.len(),
        s[k] == c,
        forall|j: int| k < j < s.len() ==> s[j] != c,
    ensures
        last_index_of(s, c) == Some(k),
    decreases s.len(),
{
    if s.last() != c {
        lemma_last_index_of_at(s.drop_last(), c, k);
    }
}


/// Whether a file name is a generated variant: its stem names a size.
pub fn is_variant_file_name(file_name: &str) -> (r: bool)
    ensures
        r == (match spec_file_stem(file_name@) {
            Some(stem) => spec_variant_size_of(stem) is Some,
            None => false,
        }),
{
    match file_stem(file_name) {
        Some(stem) => variant_size_of(stem.as_str()).is_some(),
        None => false,
    }
}

/// The rungs joined by `-`, each as its decimal numeral.
pub open spec fn spec_fingerprint(s: Seq<u32>) -> Seq<char>
    decreases s.len(),
{
    if s.len() == 0 {
        Seq::empty()
    } else if s.len() == 1 {
        dec(s[0] as nat)
    } else {
        spec_fingerprint(s.drop_last()) + seq!['-'] + dec(s.last() as nat)
    }
}

/// A stable description of the ladder, e.g. `100-140-200-280-400-800`.
pub fn ladder_fingerprint(ladder: &ImageLadder) -> (r: String)
    ensures
        r@ == spec_fingerprint(ladder.spec_sizes()),
{
    let s = &ladder.sizes;
    let mut r = String::new();
    let mut i: usize = 0;
    while i < s.len()
        invariant
            i <= s.len(),
            r@ == spec_fingerprint(s@.take(i as int)),
        decreases s.len() - i,
    {
        if i > 0 {
            push_char(&mut r, '-');
        }
        let d = u64_to_string(s[i] as u64);
        push_str(&mut r, d.as_str());
        proof {
            assert(s@.take(i + 1).drop_last() == s@.take(i as int));
            if i == 0 {
                assert(s@.take(0).len() == 0);
            }
        }
        i = i + 1;
    }
    assert(s@.take(s@.len() as int) == s@);
    r
}

/// The entries of a JSON array that are non-negative integers within `u32`.
pub open spec fn accepted_sizes(entries: Seq<JsonValue>) -> Seq<u32>
    decreases entries.len(),
{
    if entries.len() == 0 {
        Seq::empty()
    } else {
        let rest = accepted_sizes(entries.drop_last());
        match entries.last().spec_as_u64() {
            Some(n) => if n <= u32::MAX {
                rest.push(n as u32)
            } else {
                rest
            },
            None => rest,
        }
    }
}

/// The sizes listed under `key` in the `images` section, or `None` when the
/// section or the key is absent or the section is not an object or the
/// value is not an array.
pub open spec fn spec_sizes_from_json(key: Seq<char>, value: Option<&JsonValue>) -> Option<Seq<u32>> {
    match value {
        None => None,
        Some(images) => if !(images is Object) {
            None
        } else {
            match images.spec_get(key) {
                None => None,
                Some(field) => match field.spec_as_array() {
                    None => None,
                    Some(entries) => Some(accepted_sizes(entries)),
                },
            }
        },
    }
}

/// Read a list of sizes out of the `images` configuration section. Entries
/// that are not non-negative integers within `u32` are rejected.
pub fn sizes_from_json(key: &str, value: Option<&JsonValue>) -> (r: Option<Vec<u32>>)
    ensures
        r matches Some(v) ==> spec_sizes_from_json(key@, value) == Some(v@),
        r is None <==> spec_sizes_from_json(key@, value) is None,
{
    let images = match value {
        Some(v) => v,
        None => return None,
    };
    if !images.is_object() {
        return None;
    }
    let field = match images.get(key) {
        Some(f) => f,
        None => return None,
    };
    let array = match field.as_array() {
        Some(a) => a,
        None => return None,
    };
    let mut accepted: Vec<u32> = Vec::new();
    let mut i: usize = 0;
    while i < array.len()
        invariant
            i <= array.len(),
            accepted@ == accepted_sizes(array@.take(i as int)),
        decreases array.len() - i,
    {
        proof {
            assert(array@.take(i + 1).drop_last() == array@.take(i as int));
        }
        match array[i].as_u64() {
            Some(n) => {
                if n <= 4294967295u64 {
                    accepted.push(n as u32);
                }
            },
            None => {},
        }
        i = i + 1;
    }
    assert(array@.take(array@.len() as int) == array@);
    Some(accepted)
}

// ---------------------------------------------------------------------------
// Bounded decoding and re-encoding
// ---------------------------------------------------------------------------

/// What decoding `data` gives when neither edge may exceed `max_edge` pixels
/// and the decoder may allocate at most `max_alloc` bytes: the image as
/// RGBA pixels (four bytes each, row by row), its width and height, and
/// whether its own format has an alpha channel; or the decoder's error text.
pub uninterp spec fn spec_decode(data: Seq<u8>, max_edge: u32, max_alloc: u64) -> Result<(Seq<u8>, u32, u32, bool), Seq<char>>;

/// What scaling a `w` by `h` RGBA image so that its longest edge is
/// `target` gives: the scaled pixels, width and height.
pub uninterp spec fn spec_scaled(pixels: Seq<u8>, w: u32, h: u32, target: u32) -> (Seq<u8>, u32, u32);

/// What PNG encoding of a `w` by `h` RGBA image gives.
pub uninterp spec fn spec_png(pixels: Seq<u8>, w: u32, h: u32) -> Result<Seq<u8>, Seq<char>>;

/// What JPEG encoding, at `quality`, of the colour of a `w` by `h` RGBA
/// image gives.
pub uninterp spec fn spec_jpeg(pixels: Seq<u8>, w: u32, h: u32, quality: u8) -> Result<Seq<u8>, Seq<char>>;

/// A successful decode.
pub open spec fn decoded(pixels: Seq<u8>, w: u32, h: u32, alpha: bool) -> Result<(Seq<u8>, u32, u32, bool), Seq<char>> {
    Ok((pixels, w, h, alpha))
}

/// A decode that failed with this error text.
pub open spec fn undecodable(e: Seq<char>) -> Result<(Seq<u8>, u32, u32, bool), Seq<char>> {
    Err(e)
}

/// An encoder's outcome as plain values.
pub open spec fn bytes_view(r: Result<Vec<u8>, String>) -> Result<Seq<u8>, Seq<char>> {
    match r {
        Ok(b) => Ok(b@),
        Err(e) => Err(e@),
    }
}

/// `pixels` holds a `w` by `h` RGBA image.
pub open spec fn rgba_fits(pixels: Seq<u8>, w: u32, h: u32) -> bool {
    pixels.len() == w * h * 4
}

/// Decode image bytes under the given edge and allocation limits into RGBA
/// pixels (the `image` crate's `ImageReader` with `Limits`, after guessing
/// the format; then `to_rgba8`).
#[verifier::external_body]
fn decode_within_limits(data: &[u8], max_edge: u32, max_alloc: u64) -> (r: Result<(Vec<u8>, u32, u32, bool), String>)
    ensures
        match r {
            Ok((px, w, h, a)) => spec_decode(data@, max_edge, max_alloc) == decoded(px@, w, h, a) && rgba_fits(px@, w, h),
            Err(e) => spec_decode(data@, max_edge, max_alloc) == undecodable(e@),
        },
{
    let mut limits = image::Limits::no_limits();
    limits.max_image_width = Some(max_edge);
    limits.max_image_height = Some(max_edge);
    limits.max_alloc = Some(max_alloc);
    let mut reader = image::ImageReader::new(std::io::Cursor::new(data)).with_guessed_format().map_err(|e| e.to_string())?;
    reader.limits(limits);
    let img = reader.decode().map_err(|e| e.to_string())?;
    let rgba = img.to_rgba8();
    Ok((rgba.as_raw().clone(), rgba.width(), rgba.height(), img.color().has_alpha()))
}

/// Scale an RGBA image so its longest edge is `target`, keeping the aspect
/// ratio (the `image` crate's `resize` with the CatmullRom filter).
#[verifier::external_body]
fn scale(pixels: &[u8], w: u32, h: u32, target: u32) -> (r: (Vec<u8>, u32, u32))
    requires
        rgba_fits(pixels@, w, h),
    ensures
        (r.0@, r.1, r.2) == spec_scaled(pixels@, w, h, target),
        rgba_fits(r.0@, r.1, r.2),
{
    let img = image::DynamicImage::ImageRgba8(image::RgbaImage::from_raw(w, h, pixels.to_vec()).unwrap());
    let scaled = img.resize(target, target, image::imageops::FilterType::CatmullRom).to_rgba8();
    (scaled.as_raw().clone(), scaled.width(), scaled.height())
}

/// PNG encoding of an RGBA image (the `image` crate's `write_to`).
#[verifier::external_body]
fn encode_png(pixels: &[u8], w: u32, h: u32) -> (r: Result<Vec<u8>, String>)
    requires
        rgba_fits(pixels@, w, h),
    ensures
        bytes_view(r) == spec_png(pixels@, w, h),
{
    let img = image::DynamicImage::ImageRgba8(image::RgbaImage::from_raw(w, h, pixels.to_vec()).unwrap());
    let mut buf = std::io::Cursor::new(Vec::new());
    img.write_to(&mut buf, image::ImageFormat::Png).map_err(|e| e.to_string())?;
    Ok(buf.into_inner())
}

/// JPEG encoding of an RGBA image's colour (the `image` crate's
/// `JpegEncoder`, on `to_rgb8`).
#[verifier::external_body]
fn encode_jpeg(pixels: &[u8], w: u32, h: u32, quality: u8) -> (r: Result<Vec<u8>, String>)
    requires
        rgba_fits(pixels@, w, h),
    ensures
        bytes_view(r) == spec_jpeg(pixels@, w, h, quality),
{
    let img = image::DynamicImage::ImageRgba8(image::RgbaImage::from_raw(w, h, pixels.to_vec()).unwrap());
    let mut buf = std::io::Cursor::new(Vec::new());
    image::codecs::jpeg::JpegEncoder::new_with_quality(&mut buf, quality)
        .encode_image(&img.to_rgb8()).map_err(|e| e.to_string())?;
    Ok(buf.into_inner())
}

/// Validate that `data` decodes as an image within the limits.
pub fn validate(data: &[u8]) -> (r: Result<(), ResizeError>)
    ensures
        r is Ok <==> spec_decode(data@, MAX_DECODE_EDGE, MAX_DECODE_ALLOC) is Ok,
        r matches Err(ResizeError::Decode(e)) ==> spec_decode(data@, MAX_DECODE_EDGE, MAX_DECODE_ALLOC) == undecodable(e@),
        !(r matches Err(ResizeError::Encode(_))),
{
    match decode_within_limits(data, MAX_DECODE_EDGE, MAX_DECODE_ALLOC) {
        Ok(_) => Ok(()),
        Err(e) => Err(ResizeError::Decode(e)),
    }
}

/// What resizing gives for a decoded image whose longest edge exceeds the
/// target: the scaled image, PNG when the source has alpha and JPEG
/// otherwise, or the encoder's error.
pub open spec fn resized_outcome(pixels: Seq<u8>, w: u32, h: u32, alpha: bool, target: u32, r: Result<Resized, ResizeError>) -> bool {
    let (sp, sw, sh) = spec_scaled(pixels, w, h, target);
    let (encoded, mime) = if alpha {
        (spec_png(sp, sw, sh), "image/png"@)
    } else {
        (spec_jpeg(sp, sw, sh, JPEG_QUALITY), "image/jpeg"@)
    };
    match encoded {
        Ok(bytes) => r matches Ok(Resized::Image(d, m)) && d@ == bytes && m@ == mime,
        Err(e) => r matches Err(ResizeError::Encode(m)) && m@ == e,
    }
}

/// Scale an image so its longest edge is at most `target_px`. Opaque sources
/// are re-encoded as JPEG and sources with an alpha channel stay PNG; a
/// source already small enough is `Original` (an image is never scaled
/// up). An image the bounded decoder refuses is a `Decode` error.
pub fn resize(data: &[u8], target_px: u32) -> (r: Result<Resized, ResizeError>)
    ensures
        spec_decode(data@, MAX_DECODE_EDGE, MAX_DECODE_ALLOC) matches Err(e) ==> r matches Err(ResizeError::Decode(m)) && m@ == e,
        spec_decode(data@, MAX_DECODE_EDGE, MAX_DECODE_ALLOC) matches Ok((px, w, h, alpha)) ==> if (if w >= h { w } else { h }) <= target_px {
            r is Ok && r->Ok_0 is Original
        } else {
            resized_outcome(px, w, h, alpha, target_px, r)
        },
{
    let (px, w, h, alpha) = match decode_within_limits(data, MAX_DECODE_EDGE, MAX_DECODE_ALLOC) {
        Ok(decoded) => decoded,
        Err(e) => return Err(ResizeError::Decode(e)),
    };
    let longest = if w >= h { w } else { h };
    if longest <= target_px {
        return Ok(Resized::Original);
    }
    let (sp, sw, sh) = scale(px.as_slice(), w, h, target_px);
    let encoded = if alpha {
        encode_png(sp.as_slice(), sw, sh)
    } else {
        encode_jpeg(sp.as_slice(), sw, sh, JPEG_QUALITY)
    };
    match encoded {
        Ok(bytes) => Ok(Resized::Image(bytes, crate::text::owned(if alpha { "image/png" } else { "image/jpeg" }))),
        Err(e) => Err(ResizeError::Encode(e)),
    }
}

} // verus!
