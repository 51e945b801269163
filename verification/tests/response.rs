use webserver::request::Request;
use webserver::response::{
    build_response, document_for, handle_request, respond, status_not_found_bytes,
    status_ok_bytes, Document,
};
use webserver::text::decimal_bytes;

const HELLO: &[u8] = b"<html><body>Hello!</body></html>";
const NOT_FOUND: &[u8] = b"<html><body>Oops!</body></html>";

#[test]
fn decimal_rendering_is_exact() {
    assert_eq!(decimal_bytes(0).as_slice(), b"0");
    assert_eq!(decimal_bytes(5).as_slice(), b"5");
    assert_eq!(decimal_bytes(7878).as_slice(), b"7878");
    assert_eq!(decimal_bytes(1024).as_slice(), b"1024");
    assert_eq!(
        decimal_bytes(u64::MAX).as_slice(),
        b"18446744073709551615"
    );
}

#[test]
fn a_response_is_status_length_blank_line_body() {
    let r = build_response(b"HTTP/1.1 200 OK", b"hello");
    assert_eq!(r.as_slice(), b"HTTP/1.1 200 OK\r\nContent-Length: 5\r\n\r\nhello");
    let empty = build_response(b"HTTP/1.1 200 OK", b"");
    assert_eq!(empty.as_slice(), b"HTTP/1.1 200 OK\r\nContent-Length: 0\r\n\r\n");
}

#[test]
fn status_lines_are_the_two_documented_ones() {
    assert_eq!(status_ok_bytes().as_slice(), b"HTTP/1.1 200 OK");
    assert_eq!(status_not_found_bytes().as_slice(), b"HTTP/1.1 404 NOT FOUND");
}

#[test]
fn each_request_is_served_its_document() {
    assert_eq!(document_for(Request::Root), Document::Hello);
    assert_eq!(document_for(Request::Sleep), Document::Hello);
    assert_eq!(document_for(Request::NotFound), Document::NotFoundPage);
}

#[test]
fn the_plain_page_is_ok_with_the_hello_document() {
    let (response, delay) = handle_request(b"GET / HTTP/1.1\r\n\r\n", HELLO, NOT_FOUND);
    let mut expected = b"HTTP/1.1 200 OK\r\nContent-Length: 32\r\n\r\n".to_vec();
    expected.extend_from_slice(HELLO);
    assert_eq!(response, expected);
    assert!(!delay);
}

#[test]
fn the_slow_page_is_the_plain_page_after_a_delay() {
    let (plain, _) = handle_request(b"GET / HTTP/1.1\r\n\r\n", HELLO, NOT_FOUND);
    let (slow, delay) = handle_request(b"GET /sleep HTTP/1.1\r\n\r\n", HELLO, NOT_FOUND);
    // Identical bytes; only the delay differs.
    assert_eq!(plain, slow);
    assert!(delay);
}

#[test]
fn anything_else_is_not_found_with_its_document() {
    let (response, delay) = handle_request(b"GET /missing HTTP/1.1\r\n\r\n", HELLO, NOT_FOUND);
    let mut expected = b"HTTP/1.1 404 NOT FOUND\r\nContent-Length: 31\r\n\r\n".to_vec();
    expected.extend_from_slice(NOT_FOUND);
    assert_eq!(response, expected);
    assert!(!delay);
}

#[test]
fn respond_frames_the_chosen_document() {
    let ok = respond(Request::Root, HELLO, NOT_FOUND);
    assert!(ok.starts_with(b"HTTP/1.1 200 OK\r\n"));
    assert!(ok.ends_with(HELLO));
    let missing = respond(Request::NotFound, HELLO, NOT_FOUND);
    assert!(missing.starts_with(b"HTTP/1.1 404 NOT FOUND\r\n"));
    assert!(missing.ends_with(NOT_FOUND));
}
