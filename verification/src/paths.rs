//! File name components of paths, as std's `Path` computes them.

use vstd::prelude::*;

verus! {

/// What std's `Path::file_stem` yields for a path: the final component
/// without its extension.
pub uninterp spec fn spec_file_stem(path: Seq<char>) -> Option<Seq<char>>;

/// What std's `Path::extension` yields for a path.
pub uninterp spec fn spec_extension(path: Seq<char>) -> Option<Seq<char>>;

/// The final component of `path` without its extension (std's `Path::file_stem`).
#[verifier::external_body]
pub(crate) fn file_stem(path: &str) -> (r: Option<String>)
    ensures
        r matches Some(s) ==> spec_file_stem(path@) == Some(s@),
        r is None <==> spec_file_stem(path@) is None,
{
    std::path::Path::new(path).file_stem().and_then(|s| s.to_str()).map(|s| s.to_string())
}

/// The extension of `path`'s final component (std's `Path::extension`).
#[verifier::external_body]
pub(crate) fn extension(path: &str) -> (r: Option<String>)
    ensures
        r matches Some(s) ==> spec_extension(path@) == Some(s@),
        r is None <==> spec_extension(path@) is None,
{
    std::path::Path::new(path).extension().and_then(|s| s.to_str()).map(|s| s.to_string())
}

} // verus!
