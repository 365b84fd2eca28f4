//! The media types of files.
use vstd::prelude::*;

verus! {

/// The media type, as type and subtype, that `mime_guess` names first for a file called `file_name`, and
/// `application/octet-stream` where it knows none.
pub uninterp spec fn guessed_mime_type(file_name: Seq<char>) -> Seq<char>;

/// `mime_guess::from_path`, `MimeGuess::first_or_octet_stream` and `Mime::essence_str`. They look the
/// extension of the name up in a fixed table, so the result is a function of the name; the directories
/// that lead to a file play no part.
#[verifier::external_body]
pub(crate) fn guess_mime_type(file_name: &str) -> (out: String)
    ensures
        out@ == guessed_mime_type(file_name@),
{
    mime_guess::from_path(file_name).first_or_octet_stream().essence_str().to_owned()
}

} // verus!
