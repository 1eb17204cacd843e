//! Content type of a file, guessed from its extension.

use crate::text::text_of;
use vstd::prelude::*;

verus! {

/// The first media type that the table of `mime_guess` lists for an
/// extension, `None` where the table has no entry for it.
pub uninterp spec fn media_type_of(extension: Seq<char>) -> Option<Seq<char>>;

/// Calls `mime_guess::from_ext` and takes the first guess as text. The
/// contract only names the result: the table of media types is not
/// restated here.
#[verifier::external_body]
pub(crate) fn guess_media_type(extension: &str) -> (media_type: Option<String>)
    ensures
        text_of(media_type) == media_type_of(extension@),
{
    match mime_guess::from_ext(extension).first() {
        Some(mime) => Some(mime.to_string()),
        None => None,
    }
}

} // verus!
