//! Artist names as MusicBrainz sees them: how a combined name is split into
//! artists, how a name is normalised for comparison, and what a lookup's
//! answers add up to. The lookups themselves are made by the caller.

use vstd::prelude::*;
use crate::json::JsonValue;
use crate::text::{chars_of, concat3, contains_str, has_sub, is_blank, is_prefix, owned, spec_to_lowercase, starts_with, string_of_range, str_eq, to_lowercase, trim, trim_str, views};

verus! {

/// The result of a MusicBrainz artist search.
#[derive(Debug, Clone, PartialEq)]
pub enum MusicBrainzSearchResult {
    /// Artist(s) found: their MusicBrainz ids, and whether the answer came
    /// from the cache.
    Found(Vec<String>, bool),
    /// Only some artists of a multi-artist name were found: their ids, and
    /// whether the answer came from the cache.
    FoundPartial(Vec<String>, bool),
    /// The artist could not be found.
    NotFound,
    /// The search failed.
    Error(String),
}

// ---------------------------------------------------------------------------
// Splitting a text on a separator (std's `str::split`)
// ---------------------------------------------------------------------------

/// Where `sep` first occurs in `s`.
pub open spec fn first_occurrence(s: Seq<char>, sep: Seq<char>) -> Option<int>
    decreases s.len(),
{
    if s.len() < sep.len() {
        None
    } else if is_prefix(sep, s) {
        Some(0)
    } else if s.len() == 0 {
        None
    } else {
        match first_occurrence(s.drop_first(), sep) {
            Some(k) => Some(k + 1),
            None => None,
        }
    }
}

/// The pieces of `s` between occurrences of `sep`, as `str::split` yields
/// them: for an empty `sep`, an empty piece, each character, and an empty
/// piece.
pub open spec fn split_on(s: Seq<char>, sep: Seq<char>) -> Seq<Seq<char>>
    decreases s.len(),
{
    if sep.len() == 0 {
        seq![Seq::<char>::empty()] + s.map_values(|c: char| seq![c]) + seq![Seq::<char>::empty()]
    } else {
        match first_occurrence(s, sep) {
            None => seq![s],
            Some(k) => if 0 <= k && k + sep.len() <= s.len() {
                seq![s.take(k)] + split_on(s.skip(k + sep.len()), sep)
            } else {
                seq![s]
            },
        }
    }
}

proof fn lemma_first_occurrence(s: Seq<char>, sep: Seq<char>)
    ensures
        first_occurrence(s, sep) matches Some(k) ==> 0 <= k && k + sep.len() <= s.len() && is_prefix(sep, s.skip(k))
            && forall|j: int| 0 <= j < k ==> !is_prefix(sep, #[trigger] s.skip(j)),
        first_occurrence(s, sep) is None ==> forall|j: int| 0 <= j <= s.len() ==> !is_prefix(sep, #[trigger] s.skip(j)),
    decreases s.len(),
{
    if s.len() < sep.len() {
        assert forall|j: int| 0 <= j <= s.len() implies !is_prefix(sep, #[trigger] s.skip(j)) by {}
    } else if is_prefix(sep, s) {
        assert(s.skip(0) =~= s);
    } else if s.len() == 0 {
        assert forall|j: int| 0 <= j <= s.len() implies !is_prefix(sep, #[trigger] s.skip(j)) by {
            assert(s.skip(j) =~= s);
        }
    } else {
        let t = s.drop_first();
        lemma_first_occurrence(t, sep);
        assert forall|j: int| 1 <= j <= s.len() implies #[trigger] s.skip(j) =~= t.skip(j - 1) by {}
        assert(s.skip(0) =~= s);
        match first_occurrence(t, sep) {
            Some(k) => {
                assert forall|j: int| 0 <= j < k + 1 implies !is_prefix(sep, #[trigger] s.skip(j)) by {
                    if j > 0 {
                        assert(s.skip(j) =~= t.skip(j - 1));
                    }
                }
                assert(s.skip(k + 1) =~= t.skip(k));
            },
            None => {
                assert forall|j: int| 0 <= j <= s.len() implies !is_prefix(sep, #[trigger] s.skip(j)) by {
                    if j > 0 {
                        assert(s.skip(j) =~= t.skip(j - 1));
                    }
                }
            },
        }
    }
}

/// No occurrence before `m`, and one at `m`: `m` is the first.
proof fn lemma_first_occurrence_at(s: Seq<char>, sep: Seq<char>, m: int)
    requires
        sep.len() > 0,
        0 <= m,
        m + sep.len() <= s.len(),
        is_prefix(sep, s.skip(m)),
        forall|j: int| 0 <= j < m ==> !is_prefix(sep, #[trigger] s.skip(j)),
    ensures
        first_occurrence(s, sep) == Some(m),
{
    lemma_first_occurrence(s, sep);
    match first_occurrence(s, sep) {
        Some(k) => {
            if k < m {
                assert(!is_prefix(sep, s.skip(k)));
            } else if k > m {
                assert(!is_prefix(sep, s.skip(m)));
            }
        },
        None => {
            assert(!is_prefix(sep, s.skip(m)));
        },
    }
}

/// No occurrence anywhere: there is none.
proof fn lemma_no_occurrence(s: Seq<char>, sep: Seq<char>)
    requires
        sep.len() > 0,
        forall|j: int| 0 <= j && j + sep.len() <= s.len() ==> !is_prefix(sep, #[trigger] s.skip(j)),
    ensures
        first_occurrence(s, sep) is None,
{
    lemma_first_occurrence(s, sep);
    match first_occurrence(s, sep) {
        Some(k) => {
            assert(!is_prefix(sep, s.skip(k)));
        },
        None => {},
    }
}

fn occurs_at(cs: &Vec<char>, i: usize, ps: &Vec<char>) -> (r: bool)
    requires
        i <= cs.len(),
    ensures
        r == is_prefix(ps@, cs@.skip(i as int)),
{
    if ps.len() > cs.len() - i {
        return false;
    }
    let mut k: usize = 0;
    while k < ps.len()
        invariant
            i + ps.len() <= cs.len(),
            k <= ps.len(),
            forall|m: int| 0 <= m < k ==> cs@[i + m] == ps@[m],
        decreases ps.len() - k,
    {
        if cs[i + k] != ps[k] {
            assert(cs@.skip(i as int).subrange(0, ps@.len() as int)[k as int] != ps@[k as int]);
            return false;
        }
        k = k + 1;
    }
    assert(cs@.skip(i as int).subrange(0, ps@.len() as int) =~= ps@);
    true
}

/// The pieces of `s` between occurrences of `sep` (std's `str::split`).
pub fn split_text(s: &str, sep: &str) -> (r: Vec<String>)
    ensures
        views(r@) == split_on(s@, sep@),
{
    let cs = chars_of(s);
    let ps = chars_of(sep);
    let mut out: Vec<String> = Vec::new();
    if ps.len() == 0 {
        out.push(String::new());
        let mut i: usize = 0;
        while i < cs.len()
            invariant
                i <= cs.len(),
                cs@ == s@,
                views(out@) == seq![Seq::<char>::empty()] + cs@.take(i as int).map_values(|c: char| seq![c]),
            decreases cs.len() - i,
        {
            let piece = string_of_range(&cs, i, i + 1);
            assert(piece@ =~= seq![cs@[i as int]]);
            let ghost before = views(out@);
            out.push(piece);
            assert(views(out@) =~= before.push(seq![cs@[i as int]]));
            assert(cs@.take(i + 1).map_values(|c: char| seq![c]) =~= cs@.take(i as int).map_values(|c: char| seq![c]).push(seq![cs@[i as int]]));
            i = i + 1;
        }
        let ghost before = views(out@);
        out.push(String::new());
        assert(views(out@) =~= before.push(Seq::<char>::empty()));
        assert(cs@.take(cs@.len() as int) =~= cs@);
        assert(views(out@) =~= split_on(s@, sep@));
        return out;
    }
    let mut start: usize = 0;
    let mut i: usize = 0;
    assert(cs@.skip(0) =~= cs@);
    while i < cs.len()
        invariant
            cs@ == s@,
            ps@ == sep@,
            ps@.len() > 0,
            start <= i <= cs.len(),
            views(out@) + split_on(cs@.skip(start as int), ps@) == split_on(s@, sep@),
            forall|j: int| start <= j < i ==> !is_prefix(ps@, #[trigger] cs@.skip(j)),
        decreases cs.len() - i + (if i < cs.len() { 1int } else { 0int }),
    {
        if occurs_at(&cs, i, &ps) {
            let ghost rest = cs@.skip(start as int);
            proof {
                let m = i - start;
                assert forall|j: int| 0 <= j < m implies !is_prefix(ps@, #[trigger] rest.skip(j)) by {
                    assert(rest.skip(j) =~= cs@.skip(start + j));
                }
                assert(rest.skip(m) =~= cs@.skip(i as int));
                lemma_first_occurrence_at(rest, ps@, m);
                assert(rest.take(m) =~= cs@.subrange(start as int, i as int));
                assert(rest.skip(m + ps@.len()) =~= cs@.skip(i + ps@.len()));
            }
            let piece = string_of_range(&cs, start, i);
            let ghost before = views(out@);
            out.push(piece);
            assert(views(out@) =~= before.push(cs@.subrange(start as int, i as int)));
            i = i + ps.len();
            start = i;
        } else {
            i = i + 1;
        }
    }
    proof {
        let rest = cs@.skip(start as int);
        assert forall|j: int| 0 <= j && j + ps@.len() <= rest.len() implies !is_prefix(ps@, #[trigger] rest.skip(j)) by {
            assert(rest.skip(j) =~= cs@.skip(start + j));
        }
        lemma_no_occurrence(rest, ps@);
        assert(rest =~= cs@.subrange(start as int, cs@.len() as int));
    }
    let piece = string_of_range(&cs, start, cs.len());
    let ghost before = views(out@);
    out.push(piece);
    assert(views(out@) =~= before.push(cs@.subrange(start as int, cs@.len() as int)));
    out
}

// ---------------------------------------------------------------------------
// Splitting a combined artist name
// ---------------------------------------------------------------------------

/// The separators a combined artist name is split on, in the order they
/// are applied.
pub open spec fn spec_artist_separators() -> Seq<Seq<char>> {
    seq![","@, "&"@, " feat "@, " feat."@, " featuring "@, " with "@]
}

/// The separators a combined artist name is split on.
pub fn artist_separators() -> (r: Vec<String>)
    ensures
        views(r@) == spec_artist_separators(),
{
    let r = vec![owned(","), owned("&"), owned(" feat "), owned(" feat."), owned(" featuring "), owned(" with ")];
    assert(views(r@) =~= spec_artist_separators());
    r
}

/// The pieces, trimmed, without the empty ones.
pub open spec fn trimmed_pieces(pieces: Seq<Seq<char>>) -> Seq<Seq<char>>
    decreases pieces.len(),
{
    if pieces.len() == 0 {
        Seq::empty()
    } else {
        let rest = trimmed_pieces(pieces.drop_last());
        if trim(pieces.last()).len() > 0 {
            rest.push(trim(pieces.last()))
        } else {
            rest
        }
    }
}

/// One round of splitting: blank parts go; a part holding `sep` becomes its
/// trimmed, non-empty pieces; any other part stays as it is.
pub open spec fn split_round(parts: Seq<Seq<char>>, sep: Seq<char>) -> Seq<Seq<char>>
    decreases parts.len(),
{
    if parts.len() == 0 {
        Seq::empty()
    } else {
        let rest = split_round(parts.drop_last(), sep);
        let p = parts.last();
        if trim(p).len() == 0 {
            rest
        } else if has_sub(p, sep) {
            rest + trimmed_pieces(split_on(p, sep))
        } else {
            rest.push(p)
        }
    }
}

/// The name split on each separator in turn.
pub open spec fn split_rounds(name: Seq<char>, seps: Seq<Seq<char>>) -> Seq<Seq<char>>
    decreases seps.len(),
{
    if seps.len() == 0 {
        seq![name]
    } else {
        split_round(split_rounds(name, seps.drop_last()), seps.last())
    }
}

/// The parts, trimmed, without the empty ones and without those starting
/// (in any case) with `feat.`.
pub open spec fn named_artists(parts: Seq<Seq<char>>) -> Seq<Seq<char>>
    decreases parts.len(),
{
    if parts.len() == 0 {
        Seq::empty()
    } else {
        let rest = named_artists(parts.drop_last());
        let t = trim(parts.last());
        if t.len() > 0 && !is_prefix("feat."@, spec_to_lowercase(t)) {
            rest.push(t)
        } else {
            rest
        }
    }
}

/// The artists a name holds, split on the given separators.
pub open spec fn spec_split_artist(name: Seq<char>, seps: Seq<Seq<char>>) -> Seq<Seq<char>> {
    named_artists(split_rounds(name, seps))
}

fn trimmed_pieces_of(pieces: Vec<String>, out: &mut Vec<String>)
    ensures
        views(final(out)@) == views(old(out)@) + trimmed_pieces(views(pieces@)),
{
    let mut i: usize = 0;
    let ghost start = views(out@);
    while i < pieces.len()
        invariant
            i <= pieces.len(),
            views(out@) == start + trimmed_pieces(views(pieces@).take(i as int)),
        decreases pieces.len() - i,
    {
        assert(views(pieces@).take(i + 1).drop_last() =~= views(pieces@).take(i as int));
        assert(views(pieces@).take(i + 1).last() == pieces@[i as int]@);
        let t = trim_str(pieces[i].as_str());
        if !is_blank(t.as_str()) {
            proof {
                crate::text::lemma_trim_idempotent(pieces@[i as int]@);
            }
            let ghost before = views(out@);
            out.push(t);
            assert(views(out@) =~= before.push(trim(pieces@[i as int]@)));
        } else {
            proof {
                crate::text::lemma_trim_idempotent(pieces@[i as int]@);
            }
        }
        i = i + 1;
    }
    assert(views(pieces@).take(pieces@.len() as int) =~= views(pieces@));
}

fn split_round_of(parts: &Vec<String>, sep: &str) -> (r: Vec<String>)
    ensures
        views(r@) == split_round(views(parts@), sep@),
{
    let mut out: Vec<String> = Vec::new();
    let mut i: usize = 0;
    while i < parts.len()
        invariant
            i <= parts.len(),
            views(out@) == split_round(views(parts@).take(i as int), sep@),
        decreases parts.len() - i,
    {
        assert(views(parts@).take(i + 1).drop_last() =~= views(parts@).take(i as int));
        assert(views(parts@).take(i + 1).last() == parts@[i as int]@);
        let part = &parts[i];
        if is_blank(part.as_str()) {
        } else if contains_str(part.as_str(), sep) {
            let pieces = split_text(part.as_str(), sep);
            trimmed_pieces_of(pieces, &mut out);
        } else {
            let ghost before = views(out@);
            out.push(part.clone());
            assert(views(out@) =~= before.push(parts@[i as int]@));
        }
        i = i + 1;
    }
    assert(views(parts@).take(parts@.len() as int) =~= views(parts@));
    out
}

/// Split an artist name on custom separators: each separator in turn
/// splits every part holding it into its trimmed, non-empty pieces; what
/// remains is trimmed, and empty parts and `feat.` parts are dropped.
pub fn split_artist_with_separators(artist_name: &str, separators: &Vec<String>) -> (r: Vec<String>)
    ensures
        views(r@) == spec_split_artist(artist_name@, views(separators@)),
{
    let mut result: Vec<String> = vec![owned(artist_name)];
    assert(views(result@) =~= split_rounds(artist_name@, views(separators@).take(0)));
    let mut k: usize = 0;
    while k < separators.len()
        invariant
            k <= separators.len(),
            views(result@) == split_rounds(artist_name@, views(separators@).take(k as int)),
        decreases separators.len() - k,
    {
        assert(views(separators@).take(k + 1).drop_last() =~= views(separators@).take(k as int));
        assert(views(separators@).take(k + 1).last() == separators@[k as int]@);
        result = split_round_of(&result, separators[k].as_str());
        k = k + 1;
    }
    assert(views(separators@).take(separators@.len() as int) =~= views(separators@));
    proof {
        reveal_strlit("feat.");
    }
    let mut out: Vec<String> = Vec::new();
    let mut i: usize = 0;
    while i < result.len()
        invariant
            i <= result.len(),
            views(out@) == named_artists(views(result@).take(i as int)),
        decreases result.len() - i,
    {
        assert(views(result@).take(i + 1).drop_last() =~= views(result@).take(i as int));
        assert(views(result@).take(i + 1).last() == result@[i as int]@);
        let t = trim_str(result[i].as_str());
        let lower = to_lowercase(t.as_str());
        if t.as_str().unicode_len() > 0 && !starts_with(lower.as_str(), "feat.") {
            let ghost before = views(out@);
            out.push(t);
            assert(views(out@) =~= before.push(trim(result@[i as int]@)));
        }
        i = i + 1;
    }
    assert(views(result@).take(result@.len() as int) =~= views(result@));
    out
}

/// Split a name that may hold several artists on the usual separators
/// (`,`, `&`, ` feat `, ` feat.`, ` featuring `, ` with `).
pub fn split_artist(artist_name: &str) -> (r: Vec<String>)
    ensures
        views(r@) == spec_split_artist(artist_name@, spec_artist_separators()),
{
    let seps = artist_separators();
    split_artist_with_separators(artist_name, &seps)
}

/// A name prepared for a MusicBrainz search: `&` spelled `and`.
pub fn sanitize_artist_name_for_search(artist_name: &str) -> (r: String)
    ensures
        r@ == crate::external_coverart::template::replaced(artist_name@, "&"@, "and"@),
{
    proof {
        reveal_strlit("&");
    }
    crate::external_coverart::template::replace_all(artist_name, "&", "and")
}

// ---------------------------------------------------------------------------
// Comparing artist names
// ---------------------------------------------------------------------------

/// What `deunicode::deunicode` makes of a text: its ASCII transliteration.
pub uninterp spec fn deunicoded(s: Seq<char>) -> Seq<char>;

/// ASCII transliteration of a text (`deunicode::deunicode`).
#[verifier::external_body]
fn deunicode_text(s: &str) -> (r: String)
    ensures
        r@ == deunicoded(s@),
{
    deunicode::deunicode(s)
}

/// Whether std's `char::is_alphanumeric` holds of a character (Unicode
/// `Alphabetic` or `Numeric`).
pub uninterp spec fn unicode_alphanumeric(c: char) -> bool;

/// std's `char::is_alphanumeric`.
#[verifier::external_body]
fn is_alphanumeric(c: char) -> (r: bool)
    ensures
        r == unicode_alphanumeric(c),
{
    c.is_alphanumeric()
}

/// The letters, digits and whitespace of a text, ASCII letters lower-cased.
pub open spec fn comparison_chars(s: Seq<char>) -> Seq<char>
    decreases s.len(),
{
    if s.len() == 0 {
        Seq::empty()
    } else {
        let rest = comparison_chars(s.drop_last());
        let c = s.last();
        if unicode_alphanumeric(c) || crate::text::is_ws(c) {
            rest.push(crate::text::ascii_lower_char(c))
        } else {
            rest
        }
    }
}

/// A text with every run of whitespace made one space and leading
/// whitespace dropped, and whether it ends in whitespace.
pub open spec fn collapse_prefix(s: Seq<char>) -> (Seq<char>, bool)
    decreases s.len(),
{
    if s.len() == 0 {
        (Seq::empty(), true)
    } else {
        let (out, in_space) = collapse_prefix(s.drop_last());
        let c = s.last();
        if crate::text::is_ws(c) {
            if !in_space {
                (out.push(' '), true)
            } else {
                (out, true)
            }
        } else {
            (out.push(c), false)
        }
    }
}

/// A text with its whitespace runs collapsed to single spaces and trimmed.
pub open spec fn collapsed(s: Seq<char>) -> Seq<char> {
    let out = collapse_prefix(s).0;
    if out.len() > 0 && out.last() == ' ' {
        out.drop_last()
    } else {
        out
    }
}

/// The words that are not `the` or `and`.
pub open spec fn without_common_words(words: Seq<Seq<char>>) -> Seq<Seq<char>>
    decreases words.len(),
{
    if words.len() == 0 {
        Seq::empty()
    } else {
        let rest = without_common_words(words.drop_last());
        let w = words.last();
        if w != "the"@ && w != "and"@ {
            rest.push(w)
        } else {
            rest
        }
    }
}

/// Words run together.
pub open spec fn run_together(words: Seq<Seq<char>>) -> Seq<char>
    decreases words.len(),
{
    if words.len() == 0 {
        Seq::empty()
    } else {
        run_together(words.drop_last()) + words.last()
    }
}

/// The words of a name as normalisation sees them: transliterated, only
/// letters, digits and whitespace, lower-cased, split at single spaces.
pub open spec fn comparison_words(name: Seq<char>) -> Seq<Seq<char>> {
    split_on(collapsed(comparison_chars(deunicoded(name))), " "@)
}

/// The comparison words of a name other than `the` and `and`, in order.
pub open spec fn uncommon_words(name: Seq<char>) -> Seq<Seq<char>> {
    comparison_words(name).filter(|w: Seq<char>| w != "the"@ && w != "and"@)
}

proof fn lemma_common_words_filtered(words: Seq<Seq<char>>, f: spec_fn(Seq<char>) -> bool)
    requires
        forall|w: Seq<char>| #[trigger] f(w) == (w != "the"@ && w != "and"@),
    ensures
        without_common_words(words) == words.filter(f),
    decreases words.len(),
{
    reveal(Seq::filter);
    if words.len() > 0 {
        lemma_common_words_filtered(words.drop_last(), f);
        assert(f(words.last()) == (words.last() != "the"@ && words.last() != "and"@));
    }
}

/// Normalising drops exactly the words `the` and `and`: when any other word
/// is left, the result is the remaining words run together in order, so two
/// names whose words differ only in `the` and `and` normalise alike (as
/// "Simon and Garfunkel" and "Simon & Garfunkel" do); when no other word is
/// left, the collapsed text is kept whole.
pub proof fn law_normalized_name_drops_the_and_and(name: Seq<char>, other: Seq<char>)
    ensures
        uncommon_words(name).len() > 0 ==> spec_normalized_name(name) == run_together(uncommon_words(name)),
        uncommon_words(name).len() == 0
            ==> spec_normalized_name(name) == collapsed(comparison_chars(deunicoded(name))),
        uncommon_words(name).len() > 0 && uncommon_words(name) == uncommon_words(other)
            ==> spec_normalized_name(name) == spec_normalized_name(other),
{
    let f = |w: Seq<char>| w != "the"@ && w != "and"@;
    lemma_common_words_filtered(comparison_words(name), f);
    lemma_common_words_filtered(comparison_words(other), f);
    assert(uncommon_words(name) == comparison_words(name).filter(f));
    assert(uncommon_words(other) == comparison_words(other).filter(f));
}

/// An artist name normalised for comparison: transliterated to ASCII, only
/// letters, digits and whitespace kept, lower-cased, whitespace collapsed;
/// then the words other than `the` and `and` run together (or, when no
/// other word is left, the collapsed text itself).
pub open spec fn spec_normalized_name(name: Seq<char>) -> Seq<char> {
    let c = collapsed(comparison_chars(deunicoded(name)));
    let kept = without_common_words(split_on(c, " "@));
    if kept.len() == 0 {
        c
    } else {
        run_together(kept)
    }
}

/// Normalise an artist name for comparison.
pub fn normalize_artist_name_for_comparison(artist_name: &str) -> (r: String)
    ensures
        r@ == spec_normalized_name(artist_name@),
{
    let ascii = deunicode_text(artist_name);
    let cs = chars_of(ascii.as_str());
    // letters, digits and whitespace, lower-cased, whitespace collapsed
    let mut out: Vec<char> = Vec::new();
    let mut in_space = true;
    let mut i: usize = 0;
    let ghost kept_s = comparison_chars(deunicoded(artist_name@));
    while i < cs.len()
        invariant
            i <= cs.len(),
            cs@ == deunicoded(artist_name@),
            (out@, in_space) == collapse_prefix(comparison_chars(cs@.take(i as int))),
        decreases cs.len() - i,
    {
        assert(cs@.take(i + 1).drop_last() =~= cs@.take(i as int));
        assert(cs@.take(i + 1).last() == cs@[i as int]);
        let c = cs[i];
        if is_alphanumeric(c) || crate::text::is_whitespace(c) {
            let l = crate::text::to_ascii_lower_char(c);
            let ghost k0 = comparison_chars(cs@.take(i as int));
            assert(comparison_chars(cs@.take(i + 1)) == k0.push(l));
            assert(k0.push(l).drop_last() =~= k0);
            if crate::text::is_whitespace(l) {
                if !in_space {
                    out.push(' ');
                }
                in_space = true;
            } else {
                out.push(l);
                in_space = false;
            }
        }
        i = i + 1;
    }
    assert(cs@.take(cs@.len() as int) =~= cs@);
    if out.len() > 0 && out[out.len() - 1] == ' ' {
        out.pop();
    }
    let c = crate::text::string_of(&out);
    proof {
        reveal_strlit(" ");
        reveal_strlit("the");
        reveal_strlit("and");
    }
    let words = split_text(c.as_str(), " ");
    let mut kept: Vec<String> = Vec::new();
    let mut joined = String::new();
    let mut k: usize = 0;
    while k < words.len()
        invariant
            k <= words.len(),
            views(kept@) == without_common_words(views(words@).take(k as int)),
            joined@ == run_together(views(kept@)),
        decreases words.len() - k,
    {
        assert(views(words@).take(k + 1).drop_last() =~= views(words@).take(k as int));
        assert(views(words@).take(k + 1).last() == words@[k as int]@);
        let w = &words[k];
        if !str_eq(w.as_str(), "the") && !str_eq(w.as_str(), "and") {
            let ghost before = views(kept@);
            crate::text::push_str(&mut joined, w.as_str());
            kept.push(w.clone());
            assert(views(kept@) =~= before.push(words@[k as int]@));
            assert(views(kept@).drop_last() =~= before);
        }
        k = k + 1;
    }
    assert(views(words@).take(words@.len() as int) =~= views(words@));
    if kept.len() == 0 {
        c
    } else {
        joined
    }
}

/// Whether one of the aliases equals the name once both are normalised.
pub open spec fn alias_matches(query: Seq<char>, aliases: Seq<Seq<char>>) -> bool {
    exists|i: int| 0 <= i < aliases.len() && #[trigger] spec_normalized_name(aliases[i]) == spec_normalized_name(query)
}

/// Whether two names, or the name and one of the aliases, are equal once
/// normalised.
pub open spec fn spec_names_match_exactly(query: Seq<char>, response: Seq<char>, aliases: Option<Seq<Seq<char>>>) -> bool {
    spec_normalized_name(query) == spec_normalized_name(response) || match aliases {
        Some(a) => alias_matches(query, a),
        None => false,
    }
}

/// Whether the name MusicBrainz answered with, or one of its aliases, is
/// the name asked for once both are normalised. (A near match by string
/// similarity is judged by the caller.)
pub fn names_match_exactly(query_name: &str, response_name: &str, response_aliases: Option<&Vec<String>>) -> (r: bool)
    ensures
        r == spec_names_match_exactly(query_name@, response_name@, match response_aliases {
            Some(a) => Some(views(a@)),
            None => None,
        }),
{
    let q = normalize_artist_name_for_comparison(query_name);
    let n = normalize_artist_name_for_comparison(response_name);
    if str_eq(q.as_str(), n.as_str()) {
        return true;
    }
    match response_aliases {
        None => false,
        Some(aliases) => {
            let mut i: usize = 0;
            while i < aliases.len()
                invariant
                    i <= aliases.len(),
                    response_aliases == Some(aliases),
                    q@ == spec_normalized_name(query_name@),
                    forall|j: int| 0 <= j < i ==> #[trigger] spec_normalized_name(views(aliases@)[j]) != spec_normalized_name(query_name@),
                decreases aliases.len() - i,
            {
                let a = normalize_artist_name_for_comparison(aliases[i].as_str());
                if str_eq(q.as_str(), a.as_str()) {
                    assert(views(aliases@)[i as int] == aliases@[i as int]@);
                    assert(spec_normalized_name(query_name@) == spec_normalized_name(views(aliases@)[i as int]));
                    assert(alias_matches(query_name@, views(aliases@)));
                    return true;
                }
                assert(views(aliases@)[i as int] == aliases@[i as int]@);
                i = i + 1;
            }
            false
        },
    }
}

// ---------------------------------------------------------------------------
// Lookups
// ---------------------------------------------------------------------------

/// What the configuration says of lookups: `Some(flag)` to set them on or
/// off, `None` to leave them as they are. Without a `musicbrainz` section
/// they are off; a section whose `enable` is not a boolean changes nothing.
pub fn enabled_setting(config: &JsonValue) -> (r: Option<bool>)
    ensures
        r == match config.spec_get("musicbrainz"@) {
            None => Some(false),
            Some(section) => match section.spec_get("enable"@) {
                Some(v) => match v.spec_as_bool() {
                    Some(b) => Some(b),
                    None => None,
                },
                None => None,
            },
        },
{
    match config.get("musicbrainz") {
        None => Some(false),
        Some(section) => match section.get("enable") {
            Some(v) => v.as_bool(),
            None => None,
        },
    }
}

/// The attribute cache key under which an artist's ids are kept.
pub fn mbid_cache_key(artist_name: &str) -> (r: String)
    ensures
        r@ == "artist::"@ + artist_name@ + "::mbid"@,
{
    concat3("artist::", artist_name, "::mbid")
}

/// The attribute cache key marking an artist as not found.
pub fn not_found_cache_key(artist_name: &str) -> (r: String)
    ensures
        r@ == "artist::"@ + artist_name@ + "::not_found"@,
{
    concat3("artist::", artist_name, "::not_found")
}

/// The ids the found lookups gave, in order.
pub open spec fn found_ids(results: Seq<MusicBrainzSearchResult>) -> Seq<Seq<char>>
    decreases results.len(),
{
    if results.len() == 0 {
        Seq::empty()
    } else {
        found_ids(results.drop_last()) + match results.last() {
            MusicBrainzSearchResult::Found(ids, _) => views(ids@),
            _ => Seq::empty(),
        }
    }
}

/// Whether any lookup found its artist.
pub open spec fn any_found(results: Seq<MusicBrainzSearchResult>) -> bool {
    exists|i: int| 0 <= i < results.len() && #[trigger] results[i] is Found
}

/// What looking up each artist of a split name comes to: the ids of those
/// found, in order, when any was; `None` when none was.
pub fn collect_split_lookups(results: &Vec<MusicBrainzSearchResult>) -> (r: Option<Vec<String>>)
    ensures
        r is Some <==> any_found(results@),
        r matches Some(ids) ==> views(ids@) == found_ids(results@),
{
    let mut ids: Vec<String> = Vec::new();
    let mut any = false;
    let mut i: usize = 0;
    while i < results.len()
        invariant
            i <= results.len(),
            views(ids@) == found_ids(results@.take(i as int)),
            any <==> any_found(results@.take(i as int)),
        decreases results.len() - i,
    {
        assert(results@.take(i + 1).drop_last() =~= results@.take(i as int));
        assert(results@.take(i + 1).last() == results@[i as int]);
        match &results[i] {
            MusicBrainzSearchResult::Found(found, _) => {
                let mut k: usize = 0;
                let ghost before = views(ids@);
                while k < found.len()
                    invariant
                        k <= found.len(),
                        views(ids@) == before + views(found@).take(k as int),
                    decreases found.len() - k,
                {
                    let ghost prev = views(ids@);
                    ids.push(found[k].clone());
                    assert(views(ids@) =~= prev.push(found@[k as int]@));
                    assert(views(found@).take(k + 1) =~= views(found@).take(k as int).push(found@[k as int]@));
                    assert(views(ids@) =~= before + views(found@).take(k + 1));
                    k = k + 1;
                }
                assert(views(found@).take(found@.len() as int) =~= views(found@));
                assert(results@.take(i + 1)[i as int] is Found);
                any = true;
            },
            _ => {
                assert(views(ids@) =~= views(ids@) + Seq::<Seq<char>>::empty());
                proof {
                    if any_found(results@.take(i + 1)) {
                        let j = choose|j: int| 0 <= j < i + 1 && #[trigger] results@.take(i + 1)[j] is Found;
                        assert(results@.take(i as int)[j] is Found);
                    }
                }
            },
        }
        proof {
            if any_found(results@.take(i as int)) {
                let j = choose|j: int| 0 <= j < i && #[trigger] results@.take(i as int)[j] is Found;
                assert(results@.take(i + 1)[j] is Found);
            }
        }
        i = i + 1;
    }
    assert(results@.take(results@.len() as int) =~= results@);
    if any {
        Some(ids)
    } else {
        None
    }
}

/// Whether a name holds any of the separators.
pub fn contains_any_separator(artist_name: &str, separators: &Vec<String>) -> (r: bool)
    ensures
        r == exists|i: int| 0 <= i < separators@.len() && has_sub(artist_name@, #[trigger] separators@[i]@),
{
    let mut i: usize = 0;
    while i < separators.len()
        invariant
            i <= separators.len(),
            forall|j: int| 0 <= j < i ==> !has_sub(artist_name@, #[trigger] separators@[j]@),
        decreases separators.len() - i,
    {
        if contains_str(artist_name, separators[i].as_str()) {
            return true;
        }
        i = i + 1;
    }
    false
}

/// The artists a name splits into, when it splits into more than one.
pub fn split_into_several(artist_name: &str, separators: &Vec<String>) -> (r: Option<Vec<String>>)
    ensures
        r is Some <==> spec_split_artist(artist_name@, views(separators@)).len() > 1,
        r matches Some(v) ==> views(v@) == spec_split_artist(artist_name@, views(separators@)),
{
    let parts = split_artist_with_separators(artist_name, separators);
    if parts.len() > 1 {
        Some(parts)
    } else {
        None
    }
}

/// The artists a name holds, judged by what looking the whole name up
/// gave: only a lookup that found several ids for it splits it.
pub fn split_after_lookup(artist_name: &str, separators: &Vec<String>, lookup: &MusicBrainzSearchResult) -> (r: Option<Vec<String>>)
    ensures
        r is Some <==> (lookup matches MusicBrainzSearchResult::Found(ids, _) && ids@.len() > 1
            && spec_split_artist(artist_name@, views(separators@)).len() > 1),
        r matches Some(v) ==> views(v@) == spec_split_artist(artist_name@, views(separators@)),
{
    match lookup {
        MusicBrainzSearchResult::Found(ids, _) => if ids.len() > 1 {
            split_into_several(artist_name, separators)
        } else {
            None
        },
        _ => None,
    }
}

/// What a search for a possibly combined name comes to: the lookup of the
/// whole name, unless it found nothing and the lookups of its parts (made
/// when the name splits into several) found some, in which case the ids of
/// the parts found, as a partial answer.
pub fn combine_lookups(whole: MusicBrainzSearchResult, parts: Option<Vec<MusicBrainzSearchResult>>) -> (r: MusicBrainzSearchResult)
    ensures
        ({
            let partial = whole is NotFound && (parts matches Some(p) && any_found(p@));
            &&& partial ==> (r matches MusicBrainzSearchResult::FoundPartial(ids, cached)
                && views(ids@) == found_ids(parts->0@) && !cached)
            &&& !partial ==> r == whole
        }),
{
    match whole {
        MusicBrainzSearchResult::NotFound => match parts {
            Some(p) => match collect_split_lookups(&p) {
                Some(ids) => MusicBrainzSearchResult::FoundPartial(ids, false),
                None => MusicBrainzSearchResult::NotFound,
            },
            None => MusicBrainzSearchResult::NotFound,
        },
        other => other,
    }
}

} // verus!
