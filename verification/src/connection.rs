//! One connection: from the bytes of the one read to what is done next.

use crate::allow_list::{allowed, find_allowed};
use crate::request::{parse_request, requested_path, RequestError};
use crate::response::{
    bad_request_packet, forbidden_packet, send_bad_request_packet, send_forbidden_packet, Packet,
    PacketView,
};
use crate::text::{chars_of, views};
use vstd::prelude::*;
use vstd::utf8::{decode_utf8, valid_utf8};

verus! {

/// The number of bytes that are read of a request. What a client sends beyond
/// them is not looked at.
pub const HEADER_PACKET_LENGTH: usize = 1024;

/// What the server does with a connection after the one read.
#[derive(Debug, PartialEq, Eq)]
pub enum Action {
    /// The connection is closed without a response.
    Close,
    /// The packet is sent, then the connection is closed.
    Send(Packet),
    /// The file at this path, an entry of the table, is read; what
    /// `send_content` makes of it is sent, then the connection is closed.
    Read(String),
}

/// What an action holds.
pub enum ActionView {
    Close,
    Send(PacketView),
    Read(Seq<char>),
}

impl View for Action {
    type V = ActionView;

    open spec fn view(&self) -> ActionView {
        match self {
            Action::Close => ActionView::Close,
            Action::Send(packet) => ActionView::Send(packet@),
            Action::Read(path) => ActionView::Read(path@),
        }
    }
}

/// What `String::from_utf8_lossy` makes of `bytes`: the text they encode, with
/// U+FFFD in place of each sequence that is not valid UTF-8.
pub uninterp spec fn utf8_lossy(bytes: Seq<u8>) -> Seq<char>;

/// The text that a request of these bytes is read as: the text they encode
/// where they are valid UTF-8, else that text with replacement characters.
pub open spec fn request_text(bytes: Seq<u8>) -> Seq<char> {
    if valid_utf8(bytes) {
        decode_utf8(bytes)
    } else {
        utf8_lossy(bytes)
    }
}

/// The bytes of `received` that are read as the request.
pub open spec fn request_bytes(received: Seq<u8>) -> Seq<u8> {
    if received.len() <= HEADER_PACKET_LENGTH {
        received
    } else {
        received.take(HEADER_PACKET_LENGTH as int)
    }
}

/// What is done for a request of the text `text`, given the table of allowed
/// files.
///
/// No text, no response. A request line that cannot be read is answered with
/// `400 Bad Request`. A path that no entry of the table ends with is answered
/// with `403 Forbidden`. Else the first entry that ends with the path is the
/// file to read.
pub open spec fn response_to(text: Seq<char>, table: Seq<Seq<char>>) -> ActionView {
    match requested_path(text) {
        Err(RequestError::NoRequestLine) => ActionView::Close,
        Err(RequestError::Malformed) => ActionView::Send(bad_request_packet()),
        Ok(path) => match allowed(table, path) {
            Some(entry) => ActionView::Read(entry),
            None => ActionView::Send(forbidden_packet()),
        },
    }
}

/// What is done after the one read of a connection. `received` is `None`
/// where the read failed, else the bytes that it brought.
pub open spec fn action_for(received: Option<Seq<u8>>, table: Seq<Seq<char>>) -> ActionView {
    match received {
        None => ActionView::Close,
        Some(bytes) => if bytes.len() == 0 {
            ActionView::Close
        } else {
            response_to(request_text(request_bytes(bytes)), table)
        },
    }
}

/// Calls `String::from_utf8_lossy` and owns the result. Taken from the
/// documentation of std, not proved: the result is the text named
/// `utf8_lossy`, and valid UTF-8 is decoded as it is.
#[verifier::external_body]
fn decode_lossy(bytes: &[u8]) -> (text: String)
    ensures
        text@ == utf8_lossy(bytes@),
        valid_utf8(bytes@) ==> text@ == decode_utf8(bytes@),
{
    String::from_utf8_lossy(bytes).into_owned()
}

/// Decides what is done for a request of the text `text`.
pub fn handle_request(text: &str, allowed_file_table: &[String]) -> (action: Action)
    ensures
        action@ == response_to(text@, views(allowed_file_table@)),
{
    let chars = chars_of(text);
    match parse_request(chars.as_slice()) {
        Err(RequestError::NoRequestLine) => Action::Close,
        Err(RequestError::Malformed) => Action::Send(send_bad_request_packet()),
        Ok(path) => match find_allowed(allowed_file_table, path) {
            Some(entry) => Action::Read(entry),
            None => Action::Send(send_forbidden_packet()),
        },
    }
}

/// Decides what is done with a connection after the one read. `received` is
/// `None` where the read failed, else the bytes that it brought.
pub fn handle_client(received: Option<&[u8]>, allowed_file_table: &[String]) -> (action: Action)
    ensures
        action@ == action_for(
            match received {
                Some(bytes) => Some(bytes@),
                None => None,
            },
            views(allowed_file_table@),
        ),
        received is None ==> action@ == ActionView::Close,
        received matches Some(bytes) && bytes@.len() == 0 ==> action@ == ActionView::Close,
{
    match received {
        None => Action::Close,
        Some(bytes) => {
            if bytes.len() == 0 {
                Action::Close
            } else {
                let request = if bytes.len() <= HEADER_PACKET_LENGTH {
                    bytes
                } else {
                    &bytes[0..HEADER_PACKET_LENGTH]
                };
                let text = decode_lossy(request);
                handle_request(text.as_str(), allowed_file_table)
            }
        },
    }
}

} // verus!
