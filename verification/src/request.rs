//! The request line: the method and the path that a client asks for.

use crate::text::{
    first_line, is_word, leading_line, lemma_line_len_is, lemma_words_after_space,
    lemma_words_after_word, split_whitespace, strip_slash, without_slash, words,
};
use vstd::prelude::*;

verus! {

/// Why a request names no path to look up.
#[derive(Clone, Copy, Debug, PartialEq, Eq, Structural)]
pub enum RequestError {
    /// The text is empty: it has no first line.
    NoRequestLine,
    /// The first line is not made of three words, or its first word is not
    /// `GET`.
    Malformed,
}

/// The only method that is served.
pub open spec fn get_method() -> Seq<char> {
    seq!['G', 'E', 'T']
}

/// The path that the request in `text` asks for.
///
/// The first line is to hold three words: `GET`, the path and the protocol
/// version, which is not looked at. One leading slash is taken off the path.
pub open spec fn requested_path(text: Seq<char>) -> Result<Seq<char>, RequestError> {
    match leading_line(text) {
        None => Err(RequestError::NoRequestLine),
        Some(line) => {
            let parts = words(line);
            if parts.len() == 3 && parts[0] == get_method() {
                Ok(without_slash(parts[1]))
            } else {
                Err(RequestError::Malformed)
            }
        },
    }
}

/// The request line that names a method, a target and a protocol version,
/// with one space between them.
pub open spec fn request_line(method: Seq<char>, target: Seq<char>, version: Seq<char>) -> Seq<
    char,
> {
    method + seq![' '] + target + seq![' '] + version
}

/// A request as a client writes it: the request line, a carriage return and a
/// line feed, and whatever follows.
pub open spec fn request(
    method: Seq<char>,
    target: Seq<char>,
    version: Seq<char>,
    rest: Seq<char>,
) -> Seq<char> {
    request_line(method, target, version) + seq!['\r', '\n'] + rest
}

/// The words of a request line are its method, its target and its version.
pub proof fn lemma_words_of_request_line(
    method: Seq<char>,
    target: Seq<char>,
    version: Seq<char>,
)
    requires
        is_word(method),
        is_word(target),
        is_word(version),
    ensures
        words(request_line(method, target, version)) == seq![method, target, version],
{
    let space = seq![' '];
    let after_method = space + target + space + version;
    let after_target = space + version;
    assert(words(version) == seq![version]) by {
        lemma_words_after_word(version, Seq::empty());
    }
    assert(words(after_target) == seq![version]) by {
        lemma_words_after_space(' ', version);
    }
    assert(words(target + after_target) == seq![target, version]) by {
        lemma_words_after_word(target, after_target);
    }
    assert(words(after_method) == seq![target, version]) by {
        lemma_words_after_space(' ', target + after_target);
        assert(space + (target + after_target) == after_method);
    }
    assert(words(method + after_method) == seq![method, target, version]) by {
        lemma_words_after_word(method, after_method);
    }
    assert(method + after_method == request_line(method, target, version));
}

/// The first line of a request is its request line.
pub proof fn lemma_leading_line_of_request(
    method: Seq<char>,
    target: Seq<char>,
    version: Seq<char>,
    rest: Seq<char>,
)
    requires
        is_word(method),
        is_word(target),
        is_word(version),
    ensures
        leading_line(request(method, target, version, rest)) == Some(
            request_line(method, target, version),
        ),
{
    let line = request_line(method, target, version);
    let text = request(method, target, version, rest);
    lemma_line_len_is(text, line.len() as int + 1);
}

/// What a request asks for: the target without its leading slash where the
/// method is `GET`, and nothing that can be read where it is another.
pub proof fn lemma_requested_path_of_request(
    method: Seq<char>,
    target: Seq<char>,
    version: Seq<char>,
    rest: Seq<char>,
)
    requires
        is_word(method),
        is_word(target),
        is_word(version),
    ensures
        requested_path(request(method, target, version, rest)) == if method == get_method() {
            Ok::<Seq<char>, RequestError>(without_slash(target))
        } else {
            Err::<Seq<char>, RequestError>(RequestError::Malformed)
        },
{
    lemma_leading_line_of_request(method, target, version, rest);
    lemma_words_of_request_line(method, target, version);
}

/// Tells whether `word` is `GET`, in capitals.
pub fn is_get(word: &[char]) -> (b: bool)
    ensures
        b == (word@ == get_method()),
{
    let b = word.len() == 3 && word[0] == 'G' && word[1] == 'E' && word[2] == 'T';
    assert(b ==> word@ =~= get_method());
    b
}

/// Reads the request line of `text` and gives the path it asks for.
pub fn parse_request<'a>(text: &'a [char]) -> (path: Result<&'a [char], RequestError>)
    ensures
        match path {
            Ok(p) => requested_path(text@) == Ok::<Seq<char>, RequestError>(p@),
            Err(e) => requested_path(text@) == Err::<Seq<char>, RequestError>(e),
        },
{
    match first_line(text) {
        None => Err(RequestError::NoRequestLine),
        Some(line) => {
            let parts = split_whitespace(line);
            if parts.len() == 3 && is_get(parts[0]) {
                Ok(strip_slash(parts[1]))
            } else {
                Err(RequestError::Malformed)
            }
        },
    }
}

} // verus!
