//! The media type of a file, guessed from the extension of its path.

use vstd::prelude::*;

verus! {

/// `mime_guess::MimeGuess`: the media types that the crate knows for one
/// extension. Nothing of what is inside is visible here.
#[verifier::external_type_specification]
#[verifier::external_body]
pub struct ExMimeGuess(mime_guess::MimeGuess);

/// The media types that a guess of `mime_guess` holds, in its order, each as
/// the text that it is written as in a header.
pub uninterp spec fn guessed_types(guess: mime_guess::MimeGuess) -> Seq<Seq<char>>;

/// The media types that `mime_guess` knows for the extension of `path`, as
/// `std::path::Path::extension` finds it. There is none for a path without an
/// extension or with one that the crate does not know.
pub uninterp spec fn media_types_of(path: Seq<char>) -> Seq<Seq<char>>;

/// The media type of a stream of bytes of which no more is known.
pub open spec fn octet_stream() -> Seq<char> {
    "application/octet-stream"@
}

/// The media type that is announced for the content of the file at `path`:
/// the first one known for its extension, or that of a stream of bytes.
pub open spec fn content_type_of(path: Seq<char>) -> Seq<char> {
    if media_types_of(path).len() == 0 {
        octet_stream()
    } else {
        media_types_of(path)[0]
    }
}

/// Calls `mime_guess::from_path`, which looks the extension of `path` up in
/// its table without touching the disk. That the guess holds the media types
/// named by `media_types_of` is taken from the crate, not proved.
#[verifier::external_body]
fn guess_from_path(path: &str) -> (guess: mime_guess::MimeGuess)
    ensures
        guessed_types(guess) == media_types_of(path@),
{
    mime_guess::from_path(path)
}

/// Calls `MimeGuess::first_or_octet_stream` and writes the media type out.
/// That it is the first of the guess, and `application/octet-stream` for an
/// empty one, is taken from the crate, not proved. The first of a guess is
/// parsed from the crate's own table, whose entries the crate keeps well
/// formed.
#[verifier::external_body]
fn first_or_octet_stream(guess: &mime_guess::MimeGuess) -> (media_type: String)
    ensures
        media_type@ == if guessed_types(*guess).len() == 0 {
            octet_stream()
        } else {
            guessed_types(*guess)[0]
        },
{
    guess.first_or_octet_stream().to_string()
}

/// The media type to announce for the content of the file at `path`.
pub fn content_type(path: &str) -> (media_type: String)
    ensures
        media_type@ == content_type_of(path@),
{
    let guess = guess_from_path(path);
    first_or_octet_stream(&guess)
}

} // verus!
