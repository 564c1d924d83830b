//! Turning an endpoint's answer into images the daemon can actually serve.
//!
//! Inline image data is always stored locally; an image URL is passed through
//! unless the endpoint asks for its images to be localised, in which case the
//! daemon fetches it with the endpoint's own headers and stores it. Where the
//! bytes come from and where they go is an [`ImageSource`], so every branch
//! is decided here without a network or a disk.

use vstd::prelude::*;
use crate::codec::{decode_inline, guess_image_kind, guessed_image_kind, inline_decoded, lower_hex, md5_hex, md5_of, ImageKind};
use crate::text::{chars_of, dec, is_prefix, owned, push_char, push_str, strip_prefix, u64_to_string, views};
use super::config::{header_views, EndpointConfig, EndpointView};
use super::protocol::{image_view, images_view, opt_view, Lookup, Parsed, ParsedImage};

verus! {

/// Where an image's bytes come from and where they go.
///
/// What the network and the disk answer is not the library's to decide, so
/// the contracts speak of it through two relations: `fetch_answer` holds of
/// an answer the source may give to a fetch with those arguments, and
/// `store_answer` of whether a store with those arguments may succeed, and
/// `file_answer` of whether a path may be found to hold a file. A source that refines
/// neither may give any answer; the contracts still fix what is asked.
pub trait ImageSource {
    open spec fn fetch_answer(
        &self,
        url: Seq<char>,
        headers: Seq<(Seq<char>, Seq<char>)>,
        max_bytes: u64,
        r: Result<Vec<u8>, String>,
    ) -> bool {
        true
    }

    open spec fn store_answer(
        &self,
        path: Seq<char>,
        bytes: Seq<u8>,
        mime: Seq<char>,
        ttl_days: u64,
        stored: bool,
    ) -> bool {
        true
    }

    /// Fetch `url` with these request headers, reading at most `max_bytes`.
    fn fetch(&self, url: &str, headers: &[(String, String)], max_bytes: u64) -> (r: Result<Vec<u8>, String>)
        ensures
            self.fetch_answer(url@, header_views(headers@), max_bytes, r),
    ;

    /// Store bytes at an image cache path, to expire after `ttl_days`.
    fn store(&self, path: &str, bytes: Vec<u8>, mime: &str, ttl_days: u64) -> (r: Result<(), String>)
        ensures
            self.store_answer(path@, bytes@, mime@, ttl_days, r is Ok),
    ;

    open spec fn file_answer(&self, path: Seq<char>, r: bool) -> bool {
        true
    }

    /// Whether an image cache path holds a file.
    fn has_file(&self, path: &str) -> (r: bool)
        ensures
            self.file_answer(path@, r),
    ;
}

/// The image cache directory localised images live under.
pub open spec fn cache_dir() -> Seq<char> {
    "external"@
}

/// The extension and mime type a recognised image is stored and served
/// under.
pub open spec fn sniffed(kind: Option<ImageKind>) -> Option<(Seq<char>, Seq<char>)> {
    match kind {
        Some(ImageKind::Jpeg) => Some(("jpg"@, "image/jpeg"@)),
        Some(ImageKind::Png) => Some(("png"@, "image/png"@)),
        Some(ImageKind::WebP) => Some(("webp"@, "image/webp"@)),
        Some(ImageKind::Gif) => Some(("gif"@, "image/gif"@)),
        Some(ImageKind::Bmp) => Some(("bmp"@, "image/bmp"@)),
        _ => None,
    }
}

/// One of the extensions an image can be stored under.
pub open spec fn servable_extension(e: Seq<char>) -> bool {
    e == "jpg"@ || e == "png"@ || e == "webp"@ || e == "gif"@ || e == "bmp"@
}

/// The file extension and mime type for these bytes, if they are an image we
/// recognise.
pub fn sniff(bytes: &[u8]) -> (r: Option<(&'static str, &'static str)>)
    ensures
        r is None <==> sniffed(guessed_image_kind(bytes@)) is None,
        r matches Some((e, m)) ==> sniffed(guessed_image_kind(bytes@)) == Some((e@, m@)),
{
    match guess_image_kind(bytes) {
        Some(ImageKind::Jpeg) => Some(("jpg", "image/jpeg")),
        Some(ImageKind::Png) => Some(("png", "image/png")),
        Some(ImageKind::WebP) => Some(("webp", "image/webp")),
        Some(ImageKind::Gif) => Some(("gif", "image/gif")),
        Some(ImageKind::Bmp) => Some(("bmp", "image/bmp")),
        _ => None,
    }
}

/// One character of a directory name made from an endpoint name.
pub open spec fn segment_char(c: char) -> char {
    if ('a' <= c <= 'z') || ('A' <= c <= 'Z') || ('0' <= c <= '9') || c == '-' || c == '_' {
        c
    } else {
        '_'
    }
}

/// An endpoint name reduced to one safe directory name: ASCII letters,
/// digits, `-` and `_` kept, anything else `_`, and `unnamed` for an empty
/// name.
pub open spec fn spec_path_segment(name: Seq<char>) -> Seq<char> {
    if name.len() == 0 {
        "unnamed"@
    } else {
        name.map_values(|c: char| segment_char(c))
    }
}

/// An endpoint name, reduced to something safe to use as one directory name.
pub fn path_segment(name: &str) -> (r: String)
    ensures
        r@ == spec_path_segment(name@),
{
    let cs = chars_of(name);
    if cs.len() == 0 {
        return owned("unnamed");
    }
    let mut out = String::new();
    let mut i: usize = 0;
    while i < cs.len()
        invariant
            i <= cs.len(),
            cs@ == name@,
            out@ == cs@.take(i as int).map_values(|c: char| segment_char(c)),
        decreases cs.len() - i,
    {
        let c = cs[i];
        let d = if ('a' <= c && c <= 'z') || ('A' <= c && c <= 'Z') || ('0' <= c && c <= '9') || c == '-' || c == '_' {
            c
        } else {
            '_'
        };
        push_char(&mut out, d);
        i = i + 1;
        assert(cs@.take(i as int).map_values(|c: char| segment_char(c))
            =~= cs@.take(i - 1).map_values(|c: char| segment_char(c)).push(segment_char(cs@[i - 1])));
    }
    assert(cs@.take(cs@.len() as int) == cs@);
    out
}

/// The image cache path the `index`-th image of an answer is stored at:
/// named by the query, so a re-lookup overwrites its own file.
pub open spec fn stored_path(endpoint_name: Seq<char>, cache_key: Seq<char>, index: nat, extension: Seq<char>) -> Seq<char> {
    cache_dir() + "/"@ + spec_path_segment(endpoint_name) + "/"@
        + lower_hex(md5_of(vstd::utf8::encode_utf8(cache_key + "::"@ + dec(index)))) + "."@ + extension
}

/// The URL the daemon serves an image cache path at.
pub open spec fn served_url(path: Seq<char>) -> Seq<char> {
    "/api/imagecache/"@ + path
}

/// What storing these bytes can give: nothing when they are not a
/// recognised image; otherwise they are handed to the source under their
/// stored path, sniffed mime type and the endpoint's cache lifetime, and
/// whether the source stored them decides: the served URL of that path when
/// it did, nothing when it did not.
pub open spec fn store_outcome<S: ImageSource>(
    source: &S,
    bytes: Seq<u8>,
    endpoint: EndpointView,
    cache_key: Seq<char>,
    index: nat,
    o: Option<Seq<char>>,
) -> bool {
    match sniffed(guessed_image_kind(bytes)) {
        None => o is None,
        Some((ext, mime)) => {
            let path = stored_path(endpoint.name, cache_key, index, ext);
            &&& source.store_answer(path, bytes, mime, endpoint.cache_ttl_days, o is Some)
            &&& (o matches Some(v) ==> v == served_url(path))
        },
    }
}

fn stored_file_path(endpoint_name: &str, cache_key: &str, index: usize, extension: &str) -> (r: String)
    ensures
        r@ == stored_path(endpoint_name@, cache_key@, index as nat, extension@),
{
    let mut named = owned(cache_key);
    push_str(&mut named, "::");
    let n = u64_to_string(index as u64);
    push_str(&mut named, n.as_str());
    let bytes = named.as_str().as_bytes_vec();
    let digest = md5_hex(bytes.as_slice());
    let mut path = owned("external");
    push_str(&mut path, "/");
    let segment = path_segment(endpoint_name);
    push_str(&mut path, segment.as_str());
    push_str(&mut path, "/");
    push_str(&mut path, digest.as_str());
    push_str(&mut path, ".");
    push_str(&mut path, extension);
    path
}

/// Store the bytes and return the URL the daemon serves them at.
fn store_locally<S: ImageSource>(
    bytes: Vec<u8>,
    endpoint: &EndpointConfig,
    cache_key: &str,
    index: usize,
    source: &S,
) -> (r: Option<String>)
    ensures
        store_outcome(source, bytes@, endpoint@, cache_key@, index as nat, opt_view(r)),
{
    let (extension, mime) = match sniff(bytes.as_slice()) {
        Some(found) => found,
        None => return None,
    };
    let path = stored_file_path(endpoint.name.as_str(), cache_key, index, extension);
    let ghost held = bytes@;
    let stored = source.store(path.as_str(), bytes, mime, endpoint.cache_ttl_days);
    let ghost ext = extension@;
    assert(sniffed(guessed_image_kind(held)) == Some((ext, mime@)));
    assert(path@ == stored_path(endpoint@.name, cache_key@, index as nat, ext));
    assert(source.store_answer(stored_path(endpoint@.name, cache_key@, index as nat, ext), held, mime@, endpoint@.cache_ttl_days, stored is Ok));
    match stored {
        Ok(()) => {
            let mut url = owned("/api/imagecache/");
            push_str(&mut url, path.as_str());
            Some(url)
        },
        Err(_) => None,
    }
}

/// What one entry of an answer can give. Inline data wins and is always
/// stored: undecodable or over the endpoint's byte limit it gives nothing.
/// A URL is passed through unchanged unless the endpoint localises; then
/// it is fetched and stored, and whatever came back can only be served under
/// its stored path.
pub open spec fn image_outcome<S: ImageSource>(
    source: &S,
    image: (Option<Seq<char>>, Option<Seq<char>>),
    endpoint: EndpointView,
    cache_key: Seq<char>,
    index: nat,
    o: Option<Seq<char>>,
) -> bool {
    let (url, data) = image;
    match data {
        Some(d) => match inline_decoded(d) {
            None => o is None,
            Some(bytes) => if bytes.len() > endpoint.max_image_bytes {
                o is None
            } else {
                store_outcome(source, bytes, endpoint, cache_key, index, o)
            },
        },
        None => match url {
            None => o is None,
            Some(u) => if !endpoint.localize {
                o == Some(u)
            } else {
                localized_outcome(source, u, endpoint, cache_key, index, o)
            },
        },
    }
}

/// What an image URL gives when the endpoint localises: it is fetched with
/// the endpoint's headers and byte limit, and an answer the source may give
/// decides; whatever came back is served under its stored path, with a
/// recognised extension.
pub open spec fn localized_outcome<S: ImageSource>(
    source: &S,
    url: Seq<char>,
    endpoint: EndpointView,
    cache_key: Seq<char>,
    index: nat,
    o: Option<Seq<char>>,
) -> bool {
    &&& exists|fetched: Result<Vec<u8>, String>|
        #[trigger] source.fetch_answer(url, endpoint.headers, endpoint.max_image_bytes, fetched)
        && fetched_outcome(source, fetched, endpoint, cache_key, index, o)
    &&& (o matches Some(v) ==> exists|e: Seq<char>| servable_extension(e)
        && v == #[trigger] served_url(stored_path(endpoint.name, cache_key, index, e)))
}

/// What a fetched answer gives: a failed fetch gives nothing, fetched bytes
/// are stored.
pub open spec fn fetched_outcome<S: ImageSource>(
    source: &S,
    fetched: Result<Vec<u8>, String>,
    endpoint: EndpointView,
    cache_key: Seq<char>,
    index: nat,
    o: Option<Seq<char>>,
) -> bool {
    match fetched {
        Ok(bytes) => store_outcome(source, bytes@, endpoint, cache_key, index, o),
        Err(_) => o is None,
    }
}

proof fn lemma_store_outcome_servable<S: ImageSource>(
    source: &S,
    bytes: Seq<u8>,
    endpoint: EndpointView,
    key: Seq<char>,
    index: nat,
    o: Option<Seq<char>>,
)
    requires
        store_outcome(source, bytes, endpoint, key, index, o),
    ensures
        o matches Some(v) ==> exists|e: Seq<char>| servable_extension(e)
            && v == #[trigger] served_url(stored_path(endpoint.name, key, index, e)),
{
    if let Some(v) = o {
        let (ext, _) = sniffed(guessed_image_kind(bytes))->0;
        assert(servable_extension(ext));
        assert(v == served_url(stored_path(endpoint.name, key, index, ext)));
    }
}

/// What to do with one entry of the endpoint's answer.
fn resolve_image<S: ImageSource>(
    image: &ParsedImage,
    endpoint: &EndpointConfig,
    cache_key: &str,
    index: usize,
    source: &S,
) -> (r: Option<String>)
    ensures
        image_outcome(source, image_view(*image), endpoint@, cache_key@, index as nat, opt_view(r)),
{
    if let Some(d) = &image.data {
        let bytes = match decode_inline(d.as_str()) {
            Some(b) => b,
            None => return None,
        };
        if bytes.len() as u64 > endpoint.max_image_bytes {
            return None;
        }
        let ghost held = bytes@;
        let r = store_locally(bytes, endpoint, cache_key, index, source);
        assert(store_outcome(source, held, endpoint@, cache_key@, index as nat, opt_view(r)));
        assert(image_view(*image).1 == Some(d@));
        assert(inline_decoded(d@) == Some(held));
        assert(image_outcome(source, image_view(*image), endpoint@, cache_key@, index as nat, opt_view(r)));
        return r;
    }
    let u = match &image.url {
        Some(u) => u.clone(),
        None => return None,
    };
    if !endpoint.localize {
        return Some(u);
    }
    let fetched = source.fetch(u.as_str(), endpoint.headers.as_slice(), endpoint.max_image_bytes);
    let ghost answer = fetched;
    assert(source.fetch_answer(u@, endpoint@.headers, endpoint@.max_image_bytes, answer));
    match fetched {
        Ok(bytes) => {
            let ghost held = bytes@;
            let r = store_locally(bytes, endpoint, cache_key, index, source);
            proof {
                lemma_store_outcome_servable(source, held, endpoint@, cache_key@, index as nat, opt_view(r));
                assert(endpoint@.name == endpoint.name@);
                assert(image_view(*image).1 is None);
                assert(image_view(*image).0 == Some(u@));
                assert(endpoint@.localize);
                assert(answer matches Ok(b) && b@ == held);
                assert(fetched_outcome(source, answer, endpoint@, cache_key@, index as nat, opt_view(r)));
                assert(localized_outcome(source, u@, endpoint@, cache_key@, index as nat, opt_view(r)));
                assert(image_outcome(source, image_view(*image), endpoint@, cache_key@, index as nat, opt_view(r)));
            }
            r
        },
        Err(_) => {
            assert(fetched_outcome(source, answer, endpoint@, cache_key@, index as nat, None));
            assert(localized_outcome(source, u@, endpoint@, cache_key@, index as nat, None));
            assert(image_outcome(source, image_view(*image), endpoint@, cache_key@, index as nat, None));
            None
        },
    }
}

/// The present outcomes, in order.
pub open spec fn present(outs: Seq<Option<Seq<char>>>) -> Seq<Seq<char>>
    decreases outs.len(),
{
    if outs.len() == 0 {
        Seq::empty()
    } else {
        match outs.last() {
            Some(u) => present(outs.drop_last()).push(u),
            None => present(outs.drop_last()),
        }
    }
}

/// What a list of images resolves to: each entry gives its outcome, and
/// the lookup is the URLs that came of them, in order, or an error when
/// none did.
pub open spec fn resolved_images<S: ImageSource>(
    source: &S,
    images: Seq<(Option<Seq<char>>, Option<Seq<char>>)>,
    endpoint: EndpointView,
    cache_key: Seq<char>,
    r: Lookup,
) -> bool {
    exists|outs: Seq<Option<Seq<char>>>| {
        &&& outs.len() == images.len()
        &&& forall|i: int| 0 <= i < outs.len() ==> image_outcome(source, #[trigger] images[i], endpoint, cache_key, i as nat, outs[i])
        &&& (present(outs).len() == 0 ==> r is Error)
        &&& (present(outs).len() > 0 ==> (r matches Lookup::Found(urls) && views(urls@) == present(outs)))
    }
}

/// Turn a parsed answer into the URLs to cache and serve, against a given
/// source. The other two classes pass through; an answer none of whose
/// images could be served is an error, not an absence of artwork.
pub fn resolve_with<S: ImageSource>(parsed: Parsed, endpoint: &EndpointConfig, cache_key: &str, source: &S) -> (r: Lookup)
    ensures
        parsed is NoArtwork ==> r is NoArtwork,
        parsed is Error ==> r is Error,
        parsed matches Parsed::Images(images) ==> resolved_images(source, images_view(images@), endpoint@, cache_key@, r),
{
    let images = match parsed {
        Parsed::Images(images) => images,
        Parsed::NoArtwork => return Lookup::NoArtwork,
        Parsed::Error => return Lookup::Error,
    };
    let ghost all = images@;
    let mut urls: Vec<String> = Vec::new();
    let ghost mut outs: Seq<Option<Seq<char>>> = Seq::empty();
    let mut i: usize = 0;
    while i < images.len()
        invariant
            all == images@,
            i <= images.len(),
            outs.len() == i,
            forall|k: int| 0 <= k < i ==> image_outcome(source, image_view(#[trigger] all[k]), endpoint@, cache_key@, k as nat, outs[k]),
            views(urls@) == present(outs),
        decreases images.len() - i,
    {
        let o = resolve_image(&images[i], endpoint, cache_key, i, source);
        let ghost before = outs;
        proof {
            outs = outs.push(opt_view(o));
            assert(outs.drop_last() =~= before);
        }
        match o {
            Some(u) => {
                urls.push(u);
            },
            None => {},
        }
        i = i + 1;
    }
    let r = if urls.len() == 0 {
        Lookup::Error
    } else {
        Lookup::Found(urls)
    };
    proof {
        let imgs = images_view(all);
        assert forall|k: int| 0 <= k < outs.len() implies image_outcome(source, #[trigger] imgs[k], endpoint@, cache_key@, k as nat, outs[k]) by {
            assert(imgs[k] == image_view(all[k]));
        }
        assert(resolved_images(source, imgs, endpoint@, cache_key@, r));
    }
    r
}

/// The image cache path a locally served URL names, if it names one.
pub open spec fn spec_local_path(url: Seq<char>) -> Option<Seq<char>> {
    if is_prefix("/api/imagecache/"@, url) {
        Some(url.subrange(16, url.len() as int))
    } else {
        None
    }
}

fn local_path(url: &str) -> (r: Option<String>)
    ensures
        opt_view(r) == spec_local_path(url@),
{
    proof {
        reveal_strlit("/api/imagecache/");
    }
    strip_prefix(url, "/api/imagecache/")
}

/// The URLs kept: `keep[i]` says whether the `i`-th survives.
pub open spec fn kept(urls: Seq<Seq<char>>, keep: Seq<bool>) -> Seq<Seq<char>>
    decreases urls.len(),
{
    if urls.len() == 0 || keep.len() != urls.len() {
        Seq::empty()
    } else if keep.last() {
        kept(urls.drop_last(), keep.drop_last()).push(urls.last())
    } else {
        kept(urls.drop_last(), keep.drop_last())
    }
}

/// Drop cached URLs whose files have gone, against a given source: a URL
/// with a local path is kept exactly when the source says its file is
/// there. An external URL is kept without being checked; the other two
/// classes pass through; losing every URL is an error.
pub fn prune_missing_with<S: ImageSource>(lookup: Lookup, source: &S) -> (r: Lookup)
    ensures
        lookup is NoArtwork ==> r is NoArtwork,
        lookup is Error ==> r is Error,
        lookup matches Lookup::Found(urls) ==> exists|keep: Seq<bool>| {
            &&& keep.len() == urls@.len()
            &&& forall|i: int| 0 <= i < keep.len() && spec_local_path(#[trigger] urls@[i]@) is None ==> keep[i]
            &&& forall|i: int| 0 <= i < keep.len() && spec_local_path(#[trigger] urls@[i]@) is Some
                ==> source.file_answer(spec_local_path(urls@[i]@)->0, keep[i])
            &&& (kept(views(urls@), keep).len() == 0 ==> r is Error)
            &&& (kept(views(urls@), keep).len() > 0 ==> (r matches Lookup::Found(s) && views(s@) == kept(views(urls@), keep)))
        },
{
    let urls = match lookup {
        Lookup::Found(urls) => urls,
        Lookup::NoArtwork => return Lookup::NoArtwork,
        Lookup::Error => return Lookup::Error,
    };
    let ghost all = views(urls@);
    let mut surviving: Vec<String> = Vec::new();
    let ghost mut keep: Seq<bool> = Seq::empty();
    let mut i: usize = 0;
    while i < urls.len()
        invariant
            i <= urls.len(),
            all == views(urls@),
            keep.len() == i,
            forall|k: int| 0 <= k < i && spec_local_path(#[trigger] urls@[k]@) is None ==> keep[k],
            forall|k: int| 0 <= k < i && spec_local_path(#[trigger] urls@[k]@) is Some
                ==> source.file_answer(spec_local_path(urls@[k]@)->0, keep[k]),
            views(surviving@) == kept(all.take(i as int), keep),
        decreases urls.len() - i,
    {
        let present = match local_path(urls[i].as_str()) {
            Some(path) => {
                let found = source.has_file(path.as_str());
                assert(source.file_answer(spec_local_path(urls@[i as int]@)->0, found));
                found
            },
            None => true,
        };
        let ghost keep_old = keep;
        proof {
            keep = keep.push(present);
            assert(all.take(i + 1).drop_last() =~= all.take(i as int));
            assert(keep.drop_last() =~= keep_old);
            assert(all.take(i + 1).last() == urls@[i as int]@);
        }
        let ghost before = views(surviving@);
        if present {
            surviving.push(urls[i].clone());
            assert(views(surviving@) =~= before.push(urls@[i as int]@));
        }
        proof {
            assert(kept(all.take(i + 1), keep) == if present {
                kept(all.take(i as int), keep.drop_last()).push(urls@[i as int]@)
            } else {
                kept(all.take(i as int), keep.drop_last())
            });
        }
        i = i + 1;
    }
    assert(all.take(all.len() as int) =~= all);
    if surviving.len() == 0 {
        Lookup::Error
    } else {
        Lookup::Found(surviving)
    }
}

} // verus!
