//! What holds of every request and every table of allowed files.

use crate::allow_list::{
    candidates, existing, is_first_match, lemma_allowed_first_or_none,
    lemma_allowed_is_first_match, lemma_existing_keeps_order,
};
use crate::connection::{action_for, response_to, ActionView, HEADER_PACKET_LENGTH};
use crate::media_type::content_type_of;
use crate::request::{get_method, lemma_requested_path_of_request, request, requested_path};
use crate::response::{
    bad_request_packet, content_packet, forbidden_packet, head_of, is_response,
    lemma_bad_request_packet_is_response, lemma_forbidden_packet_is_response,
};
use crate::text::{is_word, leading_line, white_space, words};
use vstd::prelude::*;
use vstd::utf8::{encode_utf8, encode_utf8_decode_utf8, encode_utf8_valid_utf8};

verus! {

/// A request that is sent as the UTF-8 encoding of a text, in no more bytes
/// than are read, is answered as that text.
pub proof fn theorem_encoded_request_is_read_as_its_text(text: Seq<char>, table: Seq<Seq<char>>)
    requires
        0 < encode_utf8(text).len() <= HEADER_PACKET_LENGTH,
    ensures
        action_for(Some(encode_utf8(text)), table) == response_to(text, table),
{
    encode_utf8_valid_utf8(text);
    encode_utf8_decode_utf8(text);
}

/// A `GET` request for a slash and a path that some entry of the table ends
/// with is answered with a file: the first entry that ends with the path.
/// When the file was read, the response is `200 OK` with the media type of
/// the entry, the length of the content in bytes, and the content as its
/// body.
pub proof fn theorem_allowed_request_is_served(
    table: Seq<Seq<char>>,
    i: int,
    path: Seq<char>,
    version: Seq<char>,
    rest: Seq<char>,
    content: Seq<u8>,
)
    requires
        0 <= i < table.len(),
        path.is_suffix_of(table[i]),
        forall|j: int| 0 <= j < path.len() ==> !white_space(#[trigger] path[j]),
        is_word(version),
    ensures
        ({
            &&& response_to(request(get_method(), seq!['/'] + path, version, rest), table)
                matches ActionView::Read(entry)
            &&& exists|k: int| #[trigger] is_first_match(table, path, k) && k <= i && table[k] == entry
            &&& content_packet(entry, Some(content)).head == head_of(
                "200 OK"@,
                content_type_of(entry),
                content.len(),
                "Access-Control-Allow-Origin: *\r\n"@,
            )
            &&& content_packet(entry, Some(content)).body == content
        }),
{
    let target = seq!['/'] + path;
    assert(is_word(target));
    assert(target.skip(1) == path);
    lemma_requested_path_of_request(get_method(), target, version, rest);
    lemma_allowed_first_or_none(table, path);
}

/// A `GET` request for a slash alone is answered with the first file of the
/// table.
pub proof fn theorem_empty_path_is_first_entry(
    table: Seq<Seq<char>>,
    version: Seq<char>,
    rest: Seq<char>,
)
    requires
        table.len() > 0,
        is_word(version),
    ensures
        response_to(request(get_method(), seq!['/'], version, rest), table) == ActionView::Read(
            table[0],
        ),
{
    lemma_requested_path_of_request(get_method(), seq!['/'], version, rest);
    lemma_allowed_is_first_match(table, Seq::empty(), 0);
}

/// A request for a path that no entry of the table ends with is answered
/// with `403 Forbidden` and no body.
pub proof fn theorem_unlisted_path_is_forbidden(text: Seq<char>, table: Seq<Seq<char>>)
    requires
        requested_path(text) matches Ok(path) && forall|i: int|
            0 <= i < table.len() ==> !path.is_suffix_of(#[trigger] table[i]),
    ensures
        response_to(text, table) == ActionView::Send(forbidden_packet()),
        forbidden_packet().body.len() == 0,
{
    lemma_allowed_first_or_none(table, requested_path(text)->Ok_0);
}

/// A request whose first line is not made of three words is answered with
/// `400 Bad Request`.
pub proof fn theorem_wrong_word_count_is_bad_request(text: Seq<char>, table: Seq<Seq<char>>)
    requires
        leading_line(text) matches Some(line) && words(line).len() != 3,
    ensures
        response_to(text, table) == ActionView::Send(bad_request_packet()),
{
}

/// A request with a method other than `GET` is answered with
/// `400 Bad Request`.
pub proof fn theorem_other_method_is_bad_request(
    table: Seq<Seq<char>>,
    method: Seq<char>,
    target: Seq<char>,
    version: Seq<char>,
    rest: Seq<char>,
)
    requires
        is_word(method),
        is_word(target),
        is_word(version),
        method != get_method(),
    ensures
        response_to(request(method, target, version, rest), table) == ActionView::Send(
            bad_request_packet(),
        ),
{
    lemma_requested_path_of_request(method, target, version, rest);
}

/// A file is read only where the request names a path and the file is the
/// first entry of the table that ends with it.
pub proof fn theorem_only_entries_are_read(text: Seq<char>, table: Seq<Seq<char>>)
    ensures
        response_to(text, table) matches ActionView::Read(entry) ==> requested_path(text)
            matches Ok(path) && exists|i: int| #[trigger]
            is_first_match(table, path, i) && table[i] == entry,
{
    if let Ok(path) = requested_path(text) {
        lemma_allowed_first_or_none(table, path);
    }
}

/// Whichever of the candidates exist when the table is made, a file that is
/// read is one of the candidates.
pub proof fn theorem_only_candidates_are_read(text: Seq<char>, present: Seq<bool>)
    ensures
        response_to(text, existing(candidates(), present)) matches ActionView::Read(entry)
            ==> candidates().contains(entry),
{
    let table = existing(candidates(), present);
    theorem_only_entries_are_read(text, table);
    lemma_existing_keeps_order(candidates(), present);
}

/// A packet that is sent without a file being read has the status
/// `403 Forbidden` or `400 Bad Request`, the type `text/html`, no further
/// header and no body.
pub proof fn theorem_refusals_have_no_body(text: Seq<char>, table: Seq<Seq<char>>)
    ensures
        response_to(text, table) matches ActionView::Send(packet) ==> packet.body.len() == 0 && (
        is_response(packet, "403 Forbidden"@, "text/html"@, Seq::empty()) || is_response(
            packet,
            "400 Bad Request"@,
            "text/html"@,
            Seq::empty(),
        )),
{
    lemma_forbidden_packet_is_response();
    lemma_bad_request_packet_is_response();
}

/// What is sent for a file that was to be read gives the length of its body
/// as `Content-Length`: with the content, `200 OK` with the media type of the
/// path and a header that lets any origin read it; without, `403 Forbidden`.
pub proof fn theorem_content_length_is_body_length(path: Seq<char>, content: Option<Seq<u8>>)
    ensures
        match content {
            Some(bytes) => content_packet(path, content).body == bytes && is_response(
                content_packet(path, content),
                "200 OK"@,
                content_type_of(path),
                "Access-Control-Allow-Origin: *\r\n"@,
            ),
            None => content_packet(path, content).body.len() == 0 && is_response(
                content_packet(path, content),
                "403 Forbidden"@,
                "text/html"@,
                Seq::empty(),
            ),
        },
{
    lemma_forbidden_packet_is_response();
}

} // verus!
