//! Byte-level encodings: base64, percent-encoding, hex and MD5 digests, and
//! recognising image bytes by their signature.
//!
//! The encoders and the digest are the outside crates' own; each is reached
//! through one small trusted item below, and the verified helpers around them
//! deal only in the library's plain values.

use vstd::prelude::*;
use base64::Engine as _;
use crate::text::str_eq;

verus! {

// ---------------------------------------------------------------------------
// Percent-encoding (urlencoding)
// ---------------------------------------------------------------------------

/// A byte that percent-encoding leaves as it is: an ASCII letter or digit,
/// `-`, `.`, `_` or `~`.
pub open spec fn unreserved(b: u8) -> bool {
    (48 <= b <= 57) || (65 <= b <= 90) || (97 <= b <= 122) || b == 45 || b == 46 || b == 95 || b == 126
}

/// An upper-case hexadecimal digit for `d < 16`.
pub open spec fn upper_hex_digit(d: int) -> char {
    if d < 10 {
        (48 + d) as char
    } else {
        (55 + d) as char
    }
}

/// One byte, percent-encoded.
pub open spec fn percent_encode_byte(b: u8) -> Seq<char> {
    if unreserved(b) {
        seq![b as char]
    } else {
        seq!['%', upper_hex_digit((b / 16) as int), upper_hex_digit((b % 16) as int)]
    }
}

/// Every byte percent-encoded, in order.
pub open spec fn percent_encoded(bytes: Seq<u8>) -> Seq<char>
    decreases bytes.len(),
{
    if bytes.len() == 0 {
        Seq::empty()
    } else {
        percent_encoded(bytes.drop_last()) + percent_encode_byte(bytes.last())
    }
}

/// Percent-encodes the UTF-8 bytes of `s` (`urlencoding::encode`): every
/// byte but the unreserved ones becomes `%` and two upper-case hex digits.
#[verifier::external_body]
pub(crate) fn url_encode(s: &str) -> (r: String)
    ensures
        r@ == percent_encoded(vstd::utf8::encode_utf8(s@)),
{
    urlencoding::encode(s).into_owned()
}

// ---------------------------------------------------------------------------
// Hexadecimal (hex)
// ---------------------------------------------------------------------------

/// The value of a hex digit in either case.
pub open spec fn hex_digit_value(c: u8) -> Option<u8> {
    if 48 <= c <= 57 {
        Some((c - 48) as u8)
    } else if 97 <= c <= 102 {
        Some((c - 87) as u8)
    } else if 65 <= c <= 70 {
        Some((c - 55) as u8)
    } else {
        None
    }
}

/// The bytes a hex text stands for: `None` when its length is odd or a
/// character is not a hex digit.
pub open spec fn hex_decoded(text: Seq<u8>) -> Option<Seq<u8>> {
    if text.len() % 2 != 0 {
        None
    } else if exists|i: int| 0 <= i < text.len() && #[trigger] hex_digit_value(text[i]) is None {
        None
    } else {
        Some(Seq::new((text.len() / 2) as nat, |i: int|
            (hex_digit_value(text[2 * i])->0 * 16 + hex_digit_value(text[2 * i + 1])->0) as u8))
    }
}

/// Decodes hex text (`hex::decode`); the error is the crate's message.
#[verifier::external_body]
pub(crate) fn hex_decode(text: &str) -> (r: Result<Vec<u8>, String>)
    ensures
        r is Ok <==> hex_decoded(vstd::utf8::encode_utf8(text@)) is Some,
        r matches Ok(v) ==> hex_decoded(vstd::utf8::encode_utf8(text@)) == Some(v@),
{
    hex::decode(text).map_err(|e| e.to_string())
}

/// A lower-case hexadecimal digit for `d < 16`.
pub open spec fn lower_hex_digit(d: int) -> char {
    if d < 10 {
        (48 + d) as char
    } else {
        (87 + d) as char
    }
}

/// Each byte as two lower-case hex digits, in order.
pub open spec fn lower_hex(bytes: Seq<u8>) -> Seq<char>
    decreases bytes.len(),
{
    if bytes.len() == 0 {
        Seq::empty()
    } else {
        lower_hex(bytes.drop_last()) + seq![lower_hex_digit((bytes.last() / 16) as int), lower_hex_digit((bytes.last() % 16) as int)]
    }
}

fn lower_hex_char(d: u8) -> (r: char)
    requires
        d < 16,
    ensures
        r == lower_hex_digit(d as int),
{
    if d < 10 {
        (48u8 + d) as char
    } else {
        (87u8 + d) as char
    }
}

/// The lower-case hex text of some bytes (what `{:x}` prints for a digest).
pub fn to_lower_hex(bytes: &[u8]) -> (r: String)
    ensures
        r@ == lower_hex(bytes@),
{
    let mut s = String::new();
    let mut i: usize = 0;
    while i < bytes.len()
        invariant
            i <= bytes.len(),
            s@ == lower_hex(bytes@.take(i as int)),
        decreases bytes.len() - i,
    {
        proof {
            assert(bytes@.take(i + 1).drop_last() == bytes@.take(i as int));
        }
        let b = bytes[i];
        crate::text::push_char(&mut s, lower_hex_char(b / 16));
        crate::text::push_char(&mut s, lower_hex_char(b % 16));
        i = i + 1;
    }
    assert(bytes@.take(bytes@.len() as int) == bytes@);
    s
}

// ---------------------------------------------------------------------------
// MD5 (md5)
// ---------------------------------------------------------------------------

/// The MD5 digest of some bytes.
pub uninterp spec fn md5_of(bytes: Seq<u8>) -> Seq<u8>;

/// The sixteen bytes of the MD5 digest (`md5::compute`).
#[verifier::external_body]
pub(crate) fn md5_digest(bytes: &[u8]) -> (r: Vec<u8>)
    ensures
        r@ == md5_of(bytes@),
        r@.len() == 16,
{
    md5::compute(bytes).0.to_vec()
}

/// The MD5 digest of some bytes as 32 lower-case hex digits.
pub fn md5_hex(bytes: &[u8]) -> (r: String)
    ensures
        r@ == lower_hex(md5_of(bytes@)),
{
    let digest = md5_digest(bytes);
    to_lower_hex(digest.as_slice())
}

// ---------------------------------------------------------------------------
// Base64 (base64)
// ---------------------------------------------------------------------------

/// The character of the URL-safe base64 alphabet for a six-bit value.
pub open spec fn url_safe_digit(v: int) -> char {
    if v < 26 {
        (65 + v) as char
    } else if v < 52 {
        (97 + v - 26) as char
    } else if v < 62 {
        (48 + v - 52) as char
    } else if v == 62 {
        '-'
    } else {
        '_'
    }
}

/// The URL-safe, unpadded base64 text of some bytes: each group of three
/// bytes gives four characters, a last group of one or two gives two or
/// three.
pub open spec fn base64_url_safe_no_pad(bytes: Seq<u8>) -> Seq<char>
    decreases bytes.len(),
{
    let b0 = bytes[0] as int;
    let b1 = bytes[1] as int;
    let b2 = bytes[2] as int;
    if bytes.len() == 0 {
        Seq::empty()
    } else if bytes.len() == 1 {
        seq![url_safe_digit(b0 / 4), url_safe_digit((b0 % 4) * 16)]
    } else if bytes.len() == 2 {
        seq![url_safe_digit(b0 / 4), url_safe_digit((b0 % 4) * 16 + b1 / 16), url_safe_digit((b1 % 16) * 4)]
    } else {
        seq![
            url_safe_digit(b0 / 4),
            url_safe_digit((b0 % 4) * 16 + b1 / 16),
            url_safe_digit((b1 % 16) * 4 + b2 / 64),
            url_safe_digit(b2 % 64),
        ] + base64_url_safe_no_pad(bytes.subrange(3, bytes.len() as int))
    }
}

/// The bytes of standard, padded base64 text, or `None` when it is not that.
pub uninterp spec fn base64_standard_decoded(text: Seq<u8>) -> Option<Seq<u8>>;

/// The bytes of standard, unpadded base64 text, or `None` when it is not that.
pub uninterp spec fn base64_standard_no_pad_decoded(text: Seq<u8>) -> Option<Seq<u8>>;

/// Encodes with the URL-safe alphabet and no padding
/// (`base64::engine::general_purpose::URL_SAFE_NO_PAD.encode`).
#[verifier::external_body]
fn base64_url_safe_encode(bytes: &[u8]) -> (r: String)
    ensures
        r@ == base64_url_safe_no_pad(bytes@),
{
    base64::engine::general_purpose::URL_SAFE_NO_PAD.encode(bytes)
}

/// Decodes padded standard base64
/// (`base64::engine::general_purpose::STANDARD.decode`).
#[verifier::external_body]
fn base64_standard_decode(text: &[u8]) -> (r: Option<Vec<u8>>)
    ensures
        r is Some <==> base64_standard_decoded(text@) is Some,
        r matches Some(v) ==> base64_standard_decoded(text@) == Some(v@),
{
    base64::engine::general_purpose::STANDARD.decode(text).ok()
}

/// Decodes unpadded standard base64
/// (`base64::engine::general_purpose::STANDARD_NO_PAD.decode`).
#[verifier::external_body]
fn base64_standard_no_pad_decode(text: &[u8]) -> (r: Option<Vec<u8>>)
    ensures
        r is Some <==> base64_standard_no_pad_decoded(text@) is Some,
        r matches Some(v) ==> base64_standard_no_pad_decoded(text@) == Some(v@),
{
    base64::engine::general_purpose::STANDARD_NO_PAD.decode(text).ok()
}

/// The URL-safe base64 name of a text, as used in the daemon's own URLs.
pub open spec fn url_safe_name(s: Seq<char>) -> Seq<char> {
    base64_url_safe_no_pad(vstd::utf8::encode_utf8(s))
}

/// Encodes the UTF-8 bytes of `s` as URL-safe, unpadded base64.
pub fn encode_url_safe(s: &str) -> (r: String)
    ensures
        r@ == url_safe_name(s@),
{
    let bytes = s.as_bytes_vec();
    base64_url_safe_encode(bytes.as_slice())
}

/// Inline image data decoded as standard base64, padded or not.
pub open spec fn inline_decoded(text: Seq<char>) -> Option<Seq<u8>> {
    let bytes = vstd::utf8::encode_utf8(text);
    match base64_standard_decoded(bytes) {
        Some(v) => Some(v),
        None => base64_standard_no_pad_decoded(bytes),
    }
}

/// Decodes standard base64 text, accepting a missing pad.
pub fn decode_inline(text: &str) -> (r: Option<Vec<u8>>)
    ensures
        r is Some <==> inline_decoded(text@) is Some,
        r matches Some(v) ==> inline_decoded(text@) == Some(v@),
{
    let bytes = text.as_bytes_vec();
    match base64_standard_decode(bytes.as_slice()) {
        Some(v) => Some(v),
        None => base64_standard_no_pad_decode(bytes.as_slice()),
    }
}

// ---------------------------------------------------------------------------
// Image signatures (image)
// ---------------------------------------------------------------------------

/// The image formats the library tells apart.
#[derive(Debug, Clone, Copy, PartialEq, Eq, Structural)]
pub enum ImageKind {
    Jpeg,
    Png,
    WebP,
    Gif,
    Bmp,
    /// Recognised, but none of the above.
    Other,
}

/// The mime type the `image` crate gives the format the leading bytes
/// announce, or `None` when no known signature matches.
pub uninterp spec fn guessed_mime(bytes: Seq<u8>) -> Option<Seq<char>>;

/// The mime type of the format the leading bytes announce
/// (`image::guess_format`, then `ImageFormat::to_mime_type`).
#[verifier::external_body]
fn guess_format_mime(bytes: &[u8]) -> (r: Option<&'static str>)
    ensures
        match r {
            Some(m) => guessed_mime(bytes@) == Some(m@),
            None => guessed_mime(bytes@) is None,
        },
{
    match image::guess_format(bytes) {
        Ok(format) => Some(format.to_mime_type()),
        Err(_) => None,
    }
}

/// The kind of image a mime type names.
pub open spec fn kind_of_mime(m: Seq<char>) -> ImageKind {
    if m == "image/jpeg"@ {
        ImageKind::Jpeg
    } else if m == "image/png"@ {
        ImageKind::Png
    } else if m == "image/webp"@ {
        ImageKind::WebP
    } else if m == "image/gif"@ {
        ImageKind::Gif
    } else if m == "image/bmp"@ {
        ImageKind::Bmp
    } else {
        ImageKind::Other
    }
}

/// The format the leading bytes announce, or `None` when no known
/// signature matches.
pub open spec fn guessed_image_kind(bytes: Seq<u8>) -> Option<ImageKind> {
    match guessed_mime(bytes) {
        Some(m) => Some(kind_of_mime(m)),
        None => None,
    }
}

fn kind_from_mime(m: &str) -> (r: ImageKind)
    ensures
        r == kind_of_mime(m@),
{
    if str_eq(m, "image/jpeg") {
        ImageKind::Jpeg
    } else if str_eq(m, "image/png") {
        ImageKind::Png
    } else if str_eq(m, "image/webp") {
        ImageKind::WebP
    } else if str_eq(m, "image/gif") {
        ImageKind::Gif
    } else if str_eq(m, "image/bmp") {
        ImageKind::Bmp
    } else {
        ImageKind::Other
    }
}

/// Recognises an image by its leading signature bytes.
pub(crate) fn guess_image_kind(bytes: &[u8]) -> (r: Option<ImageKind>)
    ensures
        r == guessed_image_kind(bytes@),
{
    match guess_format_mime(bytes) {
        Some(m) => Some(kind_from_mime(m)),
        None => None,
    }
}

} // verus!
