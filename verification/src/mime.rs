//! Content types, looked up by a path's extension.

use vstd::prelude::*;

verus! {

/// The content type that the lookup table gives for the path `path`.
pub uninterp spec fn mime_of_path(path: Seq<char>) -> Seq<char>;

/// Calls `mime_guess::from_path` and takes the first guess, or
/// `application/octet-stream` where there is none
/// (`MimeGuess::first_or_octet_stream`). The lookup reads the extension of
/// `path` only and touches no disk, so the result is a function of the text
/// of `path`: that is all the contract claims, under the name
/// [`mime_of_path`].
#[verifier::external_body]
pub fn guess_mime_type(path: &str) -> (out: String)
    ensures
        out@ == mime_of_path(path@),
{
    mime_guess::from_path(path).first_or_octet_stream().to_string()
}

} // verus!
