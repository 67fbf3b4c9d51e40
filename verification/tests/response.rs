use static_file_server::media_type::content_type;
use static_file_server::response::{
    decimal_string, send_bad_request_packet, send_content, send_forbidden_packet, send_ok_packet,
    Packet,
};

#[test]
fn forbidden_packet_is_403_without_body() {
    let packet = send_forbidden_packet();
    assert_eq!(
        packet.head,
        "HTTP/1.1 403 Forbidden\r\nContent-Type: text/html\r\nContent-Length: 0\r\n\r\n"
    );
    assert!(packet.body.is_empty());
}

#[test]
fn bad_request_packet_is_400_without_body() {
    let packet = send_bad_request_packet();
    assert_eq!(
        packet.head,
        "HTTP/1.1 400 Bad Request\r\nContent-Type: text/html\r\nContent-Length: 0\r\n\r\n"
    );
    assert!(packet.body.is_empty());
}

#[test]
fn ok_packet_announces_type_and_length() {
    let packet = send_ok_packet("text/plain", b"hello".to_vec());
    assert_eq!(
        packet.head,
        "HTTP/1.1 200 OK\r\nContent-Type: text/plain\r\nContent-Length: 5\r\nAccess-Control-Allow-Origin: *\r\n\r\n"
    );
    assert_eq!(packet.body, b"hello");
}

#[test]
fn ok_packet_of_no_content_has_length_zero() {
    let packet = send_ok_packet("text/css", Vec::new());
    assert_eq!(
        packet.head,
        "HTTP/1.1 200 OK\r\nContent-Type: text/css\r\nContent-Length: 0\r\nAccess-Control-Allow-Origin: *\r\n\r\n"
    );
    assert!(packet.body.is_empty());
}

#[test]
fn ok_packet_counts_bytes() {
    let content = "caf\u{e9}\n".as_bytes().to_vec();
    let packet = send_ok_packet("text/plain", content.clone());
    assert!(packet.head.contains("\r\nContent-Length: 6\r\n"));
    assert_eq!(packet.body, content);
    let large = vec![0xABu8; 123_456];
    let packet = send_ok_packet("application/octet-stream", large.clone());
    assert!(packet.head.contains("\r\nContent-Length: 123456\r\n"));
    assert_eq!(packet.body, large);
}

#[test]
fn decimal_string_writes_numbers() {
    assert_eq!(decimal_string(0), "0");
    assert_eq!(decimal_string(7), "7");
    assert_eq!(decimal_string(9), "9");
    assert_eq!(decimal_string(10), "10");
    assert_eq!(decimal_string(11), "11");
    assert_eq!(decimal_string(99), "99");
    assert_eq!(decimal_string(100), "100");
    assert_eq!(decimal_string(1024), "1024");
    assert_eq!(decimal_string(1234567890), "1234567890");
    assert_eq!(decimal_string(usize::MAX), usize::MAX.to_string());
}

#[test]
fn decimal_string_is_what_std_gives() {
    let mut n: usize = 1;
    for _ in 0..60 {
        assert_eq!(decimal_string(n), n.to_string());
        assert_eq!(decimal_string(n - 1), (n - 1).to_string());
        n = n.wrapping_mul(3).wrapping_add(1);
    }
}

#[test]
fn content_is_sent_with_the_type_of_its_extension() {
    let packet = send_content("./public/index.html", Some(b"<h1>Hi</h1>".to_vec()));
    assert_eq!(
        packet.head,
        "HTTP/1.1 200 OK\r\nContent-Type: text/html\r\nContent-Length: 11\r\nAccess-Control-Allow-Origin: *\r\n\r\n"
    );
    assert_eq!(packet.body, b"<h1>Hi</h1>");
    let packet = send_content("./public/style.css", Some(b"body{}".to_vec()));
    assert_eq!(
        packet.head,
        "HTTP/1.1 200 OK\r\nContent-Type: text/css\r\nContent-Length: 6\r\nAccess-Control-Allow-Origin: *\r\n\r\n"
    );
    assert_eq!(packet.body, b"body{}");
}

#[test]
fn content_of_unknown_type_is_sent_as_octet_stream() {
    let packet = send_content("./public/data.unknownext", Some(vec![1, 2, 3]));
    assert_eq!(
        packet.head,
        "HTTP/1.1 200 OK\r\nContent-Type: application/octet-stream\r\nContent-Length: 3\r\nAccess-Control-Allow-Origin: *\r\n\r\n"
    );
    assert_eq!(packet.body, vec![1, 2, 3]);
    let packet = send_content("README", Some(Vec::new()));
    assert!(packet.head.contains("\r\nContent-Type: application/octet-stream\r\n"));
}

#[test]
fn content_that_could_not_be_read_is_forbidden() {
    assert_eq!(send_content("./public/index.html", None), send_forbidden_packet());
    assert_eq!(send_content("whatever", None), send_forbidden_packet());
}

#[test]
fn only_ok_lets_any_origin_read() {
    assert!(send_ok_packet("text/html", Vec::new()).head.contains("Access-Control-Allow-Origin: *"));
    assert!(!send_forbidden_packet().head.contains("Access-Control-Allow-Origin"));
    assert!(!send_bad_request_packet().head.contains("Access-Control-Allow-Origin"));
}

#[test]
fn packets_compare_by_head_and_body() {
    let a = Packet { head: "h".to_string(), body: vec![1] };
    let b = Packet { head: "h".to_string(), body: vec![2] };
    assert_ne!(a, b);
    assert_ne!(send_forbidden_packet(), send_bad_request_packet());
}

#[test]
fn content_type_is_guessed_from_the_extension() {
    assert_eq!(content_type("./public/index.html"), "text/html");
    assert_eq!(content_type("./public/style.css"), "text/css");
    assert_eq!(content_type("a/b/photo.PNG"), "image/png");
    assert_eq!(content_type("x.json"), "application/json");
}

#[test]
fn content_type_without_known_extension_is_octet_stream() {
    assert_eq!(content_type("./public/index"), "application/octet-stream");
    assert_eq!(content_type(""), "application/octet-stream");
    assert_eq!(content_type("file.nosuchextension"), "application/octet-stream");
    assert_eq!(content_type(".html"), "application/octet-stream");
    assert_eq!(content_type("dir.html/file"), "application/octet-stream");
}

#[test]
fn content_type_is_what_mime_guess_gives() {
    for path in ["./public/index.html", "./public/style.css", "a.txt", "b.svg", "c.wasm", "d",
        "e.tar.gz", "f.JPEG", "g.", "h.mp4"]
    {
        assert_eq!(
            content_type(path),
            mime_guess::from_path(path).first_or_octet_stream().to_string(),
            "{:?}",
            path
        );
    }
}
