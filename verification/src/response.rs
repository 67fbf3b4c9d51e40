//! The three responses of the server: the content of a file, `403 Forbidden`
//! and `400 Bad Request`.

use crate::media_type::{content_type, content_type_of};
use vstd::prelude::*;
use vstd::string::StringExecFns;

verus! {

/// A complete HTTP/1.1 response: the status line and the headers up to and
/// with the empty line that ends them, and the body that follows.
#[derive(Debug, PartialEq, Eq)]
pub struct Packet {
    /// Status line, headers and the empty line, each ended by `\r\n`.
    pub head: String,
    /// The bytes after the head; their number is what `Content-Length` says.
    pub body: Vec<u8>,
}

/// What a packet holds.
pub struct PacketView {
    pub head: Seq<char>,
    pub body: Seq<u8>,
}

impl View for Packet {
    type V = PacketView;

    open spec fn view(&self) -> PacketView {
        PacketView { head: self.head@, body: self.body@ }
    }
}

/// The character that stands for a digit below ten.
pub open spec fn digit(d: nat) -> char {
    if d == 0 {
        '0'
    } else if d == 1 {
        '1'
    } else if d == 2 {
        '2'
    } else if d == 3 {
        '3'
    } else if d == 4 {
        '4'
    } else if d == 5 {
        '5'
    } else if d == 6 {
        '6'
    } else if d == 7 {
        '7'
    } else if d == 8 {
        '8'
    } else {
        '9'
    }
}

/// `n` written in decimal digits, without leading zeros.
pub open spec fn decimal(n: nat) -> Seq<char>
    decreases n,
{
    if n < 10 {
        seq![digit(n)]
    } else {
        decimal(n / 10).push(digit(n % 10))
    }
}

/// The response to a request that is not allowed.
pub open spec fn forbidden_packet() -> PacketView {
    PacketView {
        head: "HTTP/1.1 403 Forbidden\r\nContent-Type: text/html\r\nContent-Length: 0\r\n\r\n"@,
        body: Seq::empty(),
    }
}

/// The response to a request that cannot be read.
pub open spec fn bad_request_packet() -> PacketView {
    PacketView {
        head: "HTTP/1.1 400 Bad Request\r\nContent-Type: text/html\r\nContent-Length: 0\r\n\r\n"@,
        body: Seq::empty(),
    }
}

/// The head of a response: the status line, the media type and the length
/// of the body, the header lines in `more`, and the empty line.
pub open spec fn head_of(
    status: Seq<char>,
    media_type: Seq<char>,
    length: nat,
    more: Seq<char>,
) -> Seq<char> {
    "HTTP/1.1 "@ + status + "\r\nContent-Type: "@ + media_type + "\r\nContent-Length: "@ + decimal(
        length,
    ) + "\r\n"@ + more + "\r\n"@
}

/// Whether `packet` is a response with this status and this media type that
/// gives the length of its body as `Content-Length`.
pub open spec fn is_response(
    packet: PacketView,
    status: Seq<char>,
    media_type: Seq<char>,
    more: Seq<char>,
) -> bool {
    packet.head == head_of(status, media_type, packet.body.len(), more)
}

/// The response that carries `content` as a body of the type `media_type`,
/// and that lets any origin read it.
pub open spec fn ok_packet(media_type: Seq<char>, content: Seq<u8>) -> PacketView {
    PacketView {
        head: head_of("200 OK"@, media_type, content.len(), "Access-Control-Allow-Origin: *\r\n"@),
        body: content,
    }
}

/// The response to an allowed request for the file at `path`, once the file
/// was read: its content where there is one, else the same as for a request
/// that is not allowed.
pub open spec fn content_packet(path: Seq<char>, content: Option<Seq<u8>>) -> PacketView {
    match content {
        Some(bytes) => ok_packet(content_type_of(path), bytes),
        None => forbidden_packet(),
    }
}

/// `403 Forbidden` is a response of type `text/html` that announces its empty
/// body.
pub proof fn lemma_forbidden_packet_is_response()
    ensures
        is_response(forbidden_packet(), "403 Forbidden"@, "text/html"@, Seq::empty()),
        forbidden_packet().body.len() == 0,
{
    reveal_strlit("HTTP/1.1 403 Forbidden\r\nContent-Type: text/html\r\nContent-Length: 0\r\n\r\n");
    reveal_strlit("HTTP/1.1 ");
    reveal_strlit("403 Forbidden");
    reveal_strlit("\r\nContent-Type: ");
    reveal_strlit("text/html");
    reveal_strlit("\r\nContent-Length: ");
    reveal_strlit("\r\n");
    assert(forbidden_packet().head =~= head_of(
        "403 Forbidden"@,
        "text/html"@,
        0,
        Seq::empty(),
    ));
}

/// `400 Bad Request` is a response of type `text/html` that announces its
/// empty body.
pub proof fn lemma_bad_request_packet_is_response()
    ensures
        is_response(bad_request_packet(), "400 Bad Request"@, "text/html"@, Seq::empty()),
        bad_request_packet().body.len() == 0,
{
    reveal_strlit(
        "HTTP/1.1 400 Bad Request\r\nContent-Type: text/html\r\nContent-Length: 0\r\n\r\n",
    );
    reveal_strlit("HTTP/1.1 ");
    reveal_strlit("400 Bad Request");
    reveal_strlit("\r\nContent-Type: ");
    reveal_strlit("text/html");
    reveal_strlit("\r\nContent-Length: ");
    reveal_strlit("\r\n");
    assert(bad_request_packet().head =~= head_of(
        "400 Bad Request"@,
        "text/html"@,
        0,
        Seq::empty(),
    ));
}

/// The digit `d` as text.
fn digit_str(d: usize) -> (s: &'static str)
    requires
        d < 10,
    ensures
        s@ == seq![digit(d as nat)],
{
    proof {
        reveal_strlit("0");
        reveal_strlit("1");
        reveal_strlit("2");
        reveal_strlit("3");
        reveal_strlit("4");
        reveal_strlit("5");
        reveal_strlit("6");
        reveal_strlit("7");
        reveal_strlit("8");
        reveal_strlit("9");
    }
    if d == 0 {
        "0"
    } else if d == 1 {
        "1"
    } else if d == 2 {
        "2"
    } else if d == 3 {
        "3"
    } else if d == 4 {
        "4"
    } else if d == 5 {
        "5"
    } else if d == 6 {
        "6"
    } else if d == 7 {
        "7"
    } else if d == 8 {
        "8"
    } else {
        "9"
    }
}

/// Writes `n` in decimal digits.
pub fn decimal_string(n: usize) -> (s: String)
    ensures
        s@ == decimal(n as nat),
    decreases n,
{
    if n < 10 {
        let mut s = String::new();
        s.append(digit_str(n));
        s
    } else {
        let mut s = decimal_string(n / 10);
        s.append(digit_str(n % 10));
        s
    }
}

/// The response to a request that is not allowed: `403 Forbidden`, no body.
pub fn send_forbidden_packet() -> (packet: Packet)
    ensures
        packet@ == forbidden_packet(),
{
    Packet {
        head: String::from_str(
            "HTTP/1.1 403 Forbidden\r\nContent-Type: text/html\r\nContent-Length: 0\r\n\r\n",
        ),
        body: Vec::new(),
    }
}

/// The response to a request that cannot be read: `400 Bad Request`, no
/// body.
pub fn send_bad_request_packet() -> (packet: Packet)
    ensures
        packet@ == bad_request_packet(),
{
    Packet {
        head: String::from_str(
            "HTTP/1.1 400 Bad Request\r\nContent-Type: text/html\r\nContent-Length: 0\r\n\r\n",
        ),
        body: Vec::new(),
    }
}

/// The response `200 OK` that carries `content`, announced as `media_type`
/// and with its length in bytes, and that lets any origin read it.
pub fn send_ok_packet(media_type: &str, content: Vec<u8>) -> (packet: Packet)
    ensures
        packet@ == ok_packet(media_type@, content@),
{
    let mut head = String::from_str("HTTP/1.1 ");
    head.append("200 OK");
    head.append("\r\nContent-Type: ");
    head.append(media_type);
    head.append("\r\nContent-Length: ");
    let length = decimal_string(content.len());
    head.append(length.as_str());
    head.append("\r\n");
    head.append("Access-Control-Allow-Origin: *\r\n");
    head.append("\r\n");
    Packet { head, body: content }
}

/// The response to an allowed request for the file at `path`, given what
/// reading the file brought: `Some` content, or `None` where it could not be
/// read.
pub fn send_content(path: &str, content: Option<Vec<u8>>) -> (packet: Packet)
    ensures
        packet@ == content_packet(
            path@,
            match content {
                Some(bytes) => Some(bytes@),
                None => None,
            },
        ),
        content is None ==> packet@ == forbidden_packet(),
        content matches Some(bytes) ==> packet@.body == bytes@,
{
    match content {
        Some(bytes) => {
            let media_type = content_type(path);
            send_ok_packet(media_type.as_str(), bytes)
        },
        None => send_forbidden_packet(),
    }
}

} // verus!
