//! Substitution of query values into a configured URL template.

use vstd::prelude::*;
use crate::codec::{percent_encoded, url_encode};
use crate::coverart::CoverartQuery;
use crate::text::{chars_of, dec_i32, i32_to_string, is_prefix, owned, push_char, push_str, string_of};

verus! {

/// `s` with every occurrence of `from` replaced by `to`, scanning left to
/// right without overlaps (what `str::replace` does for a non-empty pattern).
pub open spec fn replaced(s: Seq<char>, from: Seq<char>, to: Seq<char>) -> Seq<char>
    recommends
        from.len() > 0,
    decreases s.len(),
{
    if s.len() == 0 || from.len() == 0 {
        s
    } else if is_prefix(from, s) {
        to + replaced(s.subrange(from.len() as int, s.len() as int), from, to)
    } else {
        seq![s[0]] + replaced(s.subrange(1, s.len() as int), from, to)
    }
}

fn prefix_at(cs: &Vec<char>, i: usize, p: &Vec<char>) -> (r: bool)
    requires
        i <= cs.len(),
    ensures
        r == is_prefix(p@, cs@.subrange(i as int, cs@.len() as int)),
{
    if p.len() > cs.len() - i {
        return false;
    }
    let mut k: usize = 0;
    while k < p.len()
        invariant
            i + p.len() <= cs.len(),
            k <= p.len(),
            forall|m: int| 0 <= m < k ==> cs@[i + m] == p@[m],
        decreases p.len() - k,
    {
        if cs[i + k] != p[k] {
            assert(cs@.subrange(i as int, cs@.len() as int)[k as int] != p@[k as int]);
            return false;
        }
        k = k + 1;
    }
    assert(cs@.subrange(i as int, cs@.len() as int).subrange(0, p@.len() as int) =~= p@);
    true
}

/// Replace every occurrence of a non-empty `from` in `s` with `to`.
pub fn replace_all(s: &str, from: &str, to: &str) -> (r: String)
    requires
        from@.len() > 0,
    ensures
        r@ == replaced(s@, from@, to@),
{
    let cs = chars_of(s);
    let ps = chars_of(from);
    let mut out = String::new();
    let mut i: usize = 0;
    assert(cs@.subrange(0, cs@.len() as int) =~= cs@);
    assert(out@ + cs@ =~= cs@);
    while i < cs.len()
        invariant
            cs@ == s@,
            ps@ == from@,
            ps@.len() > 0,
            i <= cs.len(),
            out@ + replaced(cs@.subrange(i as int, cs@.len() as int), ps@, to@) == replaced(s@, from@, to@),
        decreases cs.len() - i,
    {
        let ghost rest = cs@.subrange(i as int, cs@.len() as int);
        if prefix_at(&cs, i, &ps) {
            let ghost before = out@;
            push_str(&mut out, to);
            assert(rest.subrange(ps@.len() as int, rest.len() as int) =~= cs@.subrange(i + ps@.len(), cs@.len() as int));
            assert(before + (to@ + replaced(rest.subrange(ps@.len() as int, rest.len() as int), ps@, to@))
                =~= out@ + replaced(cs@.subrange(i + ps@.len(), cs@.len() as int), ps@, to@));
            i = i + ps.len();
        } else {
            let ghost before = out@;
            push_char(&mut out, cs[i]);
            assert(rest.subrange(1, rest.len() as int) =~= cs@.subrange(i + 1, cs@.len() as int));
            assert(before + (seq![rest[0]] + replaced(rest.subrange(1, rest.len() as int), ps@, to@))
                =~= out@ + replaced(cs@.subrange(i + 1, cs@.len() as int), ps@, to@));
            i = i + 1;
        }
    }
    assert(cs@.subrange(i as int, cs@.len() as int) =~= Seq::<char>::empty());
    assert(out@ + Seq::<char>::empty() =~= out@);
    out
}

/// The values a query offers the placeholders, in the order
/// `(artist, album, title, year, url)`. An album's name fills `{album}`,
/// never `{title}`.
pub open spec fn template_values(q: CoverartQuery) -> (Seq<char>, Seq<char>, Seq<char>, Seq<char>, Seq<char>) {
    match q {
        CoverartQuery::Artist(artist) => (artist@, Seq::empty(), Seq::empty(), Seq::empty(), Seq::empty()),
        CoverartQuery::Song { title, artist } => (artist@, Seq::empty(), title@, Seq::empty(), Seq::empty()),
        CoverartQuery::Album { title, artist, year } => (
            artist@,
            title@,
            Seq::empty(),
            match year {
                Some(y) => dec_i32(y),
                None => Seq::empty(),
            },
            Seq::empty(),
        ),
        CoverartQuery::Url(url) => (Seq::empty(), Seq::empty(), Seq::empty(), Seq::empty(), url@),
    }
}

/// A value percent-encoded.
pub open spec fn encoded(v: Seq<char>) -> Seq<char> {
    percent_encoded(vstd::utf8::encode_utf8(v))
}

/// A template with each placeholder replaced by its percent-encoded value,
/// `{artist}` first, then `{album}`, `{title}`, `{year}` and `{url}`.
pub open spec fn spec_expand(template: Seq<char>, q: CoverartQuery) -> Seq<char> {
    let (artist, album, title, year, url) = template_values(q);
    replaced(
        replaced(
            replaced(
                replaced(replaced(template, "{artist}"@, encoded(artist)), "{album}"@, encoded(album)),
                "{title}"@,
                encoded(title),
            ),
            "{year}"@,
            encoded(year),
        ),
        "{url}"@,
        encoded(url),
    )
}

/// A text without the first character of the pattern has nothing to
/// replace.
proof fn lemma_nothing_to_replace(s: Seq<char>, from: Seq<char>, to: Seq<char>)
    requires
        from.len() > 0,
        !s.contains(from[0]),
    ensures
        replaced(s, from, to) == s,
    decreases s.len(),
{
    if s.len() > 0 {
        assert(s.contains(s[0]));
        assert(!is_prefix(from, s));
        let rest = s.subrange(1, s.len() as int);
        assert forall|x: char| rest.contains(x) implies s.contains(x) by {
            let k = choose|k: int| 0 <= k < rest.len() && rest[k] == x;
            assert(s[k + 1] == x);
        }
        lemma_nothing_to_replace(rest, from, to);
        assert(seq![s[0]] + rest =~= s);
    }
}

/// A template that names no placeholder -- one without a `{` -- is a fixed
/// endpoint: expanding it leaves it as it is, whatever the query.
pub proof fn law_template_without_placeholders_is_unchanged(template: Seq<char>, q: CoverartQuery)
    requires
        !template.contains('{'),
    ensures
        spec_expand(template, q) == template,
{
    reveal_strlit("{artist}");
    reveal_strlit("{album}");
    reveal_strlit("{title}");
    reveal_strlit("{year}");
    reveal_strlit("{url}");
    let (artist, album, title, year, url) = template_values(q);
    lemma_nothing_to_replace(template, "{artist}"@, encoded(artist));
    lemma_nothing_to_replace(template, "{album}"@, encoded(album));
    lemma_nothing_to_replace(template, "{title}"@, encoded(title));
    lemma_nothing_to_replace(template, "{year}"@, encoded(year));
    lemma_nothing_to_replace(template, "{url}"@, encoded(url));
}

/// Expand `{artist}`, `{album}`, `{title}`, `{year}` and `{url}` in a
/// configured template; a placeholder the query has no value for becomes
/// empty.
pub fn expand(template: &str, query: &CoverartQuery) -> (r: String)
    ensures
        r@ == spec_expand(template@, *query),
{
    let empty = String::new();
    let (artist, album, title, year, url): (String, String, String, String, String) = match query {
        CoverartQuery::Artist(artist) => (artist.clone(), empty.clone(), empty.clone(), empty.clone(), empty.clone()),
        CoverartQuery::Song { title, artist } => (artist.clone(), empty.clone(), title.clone(), empty.clone(), empty.clone()),
        CoverartQuery::Album { title, artist, year } => (
            artist.clone(),
            title.clone(),
            empty.clone(),
            match year {
                Some(y) => i32_to_string(*y),
                None => empty.clone(),
            },
            empty.clone(),
        ),
        CoverartQuery::Url(url) => (empty.clone(), empty.clone(), empty.clone(), empty.clone(), url.clone()),
    };
    proof {
        reveal_strlit("{artist}");
        reveal_strlit("{album}");
        reveal_strlit("{title}");
        reveal_strlit("{year}");
        reveal_strlit("{url}");
    }
    let a = url_encode(artist.as_str());
    let step1 = replace_all(template, "{artist}", a.as_str());
    let b = url_encode(album.as_str());
    let step2 = replace_all(step1.as_str(), "{album}", b.as_str());
    let c = url_encode(title.as_str());
    let step3 = replace_all(step2.as_str(), "{title}", c.as_str());
    let d = url_encode(year.as_str());
    let step4 = replace_all(step3.as_str(), "{year}", d.as_str());
    let e = url_encode(url.as_str());
    replace_all(step4.as_str(), "{url}", e.as_str())
}

} // verus!
