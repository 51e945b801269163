//! Building the response bytes.
//!
//! Every answer has the shape `<status-line>\r\nContent-Length: <n>\r\n\r\n<body>`:
//! the hello document under `HTTP/1.1 200 OK` for the plain and the slow
//! page, the not-found document under `HTTP/1.1 404 NOT FOUND` for
//! everything else, with the length header counting the body's bytes.

use vstd::prelude::*;
use crate::request::Request;
use crate::request::classify;
use crate::text::decimal_digits;
use crate::text::push_decimal;

verus! {

/// Which fixed document a response serves.
#[derive(Clone, Copy, Debug, PartialEq, Eq, Structural)]
pub enum Document {
    /// The configured hello document.
    Hello,
    /// The configured not-found document.
    NotFoundPage,
}

/// The bytes of `HTTP/1.1 200 OK`.
pub open spec fn status_ok() -> Seq<u8> {
    seq![72u8, 84u8, 84u8, 80u8, 47u8, 49u8, 46u8, 49u8, 32u8, 50u8, 48u8, 48u8, 32u8, 79u8, 75u8]
}

/// The bytes of `HTTP/1.1 404 NOT FOUND`.
pub open spec fn status_not_found() -> Seq<u8> {
    seq![
        72u8, 84u8, 84u8, 80u8, 47u8, 49u8, 46u8, 49u8, 32u8, 52u8, 48u8, 52u8, 32u8, 78u8, 79u8,
        84u8, 32u8, 70u8, 79u8, 85u8, 78u8, 68u8,
    ]
}

/// The bytes of `Content-Length: `.
pub open spec fn content_length_label() -> Seq<u8> {
    seq![
        67u8, 111u8, 110u8, 116u8, 101u8, 110u8, 116u8, 45u8, 76u8, 101u8, 110u8, 103u8, 116u8,
        104u8, 58u8, 32u8,
    ]
}

/// The bytes of `\r\n`.
pub open spec fn crlf() -> Seq<u8> {
    seq![13u8, 10u8]
}

/// A whole response: status line, length header, blank line, body.
pub open spec fn response_bytes(status: Seq<u8>, body: Seq<u8>) -> Seq<u8> {
    status + crlf() + content_length_label() + decimal_digits(body.len()) + crlf() + crlf() + body
}

/// The status line a request is answered with.
pub open spec fn status_of(r: Request) -> Seq<u8> {
    if r is NotFound {
        status_not_found()
    } else {
        status_ok()
    }
}

/// The document a request is answered with.
pub open spec fn document_of(r: Request) -> Document {
    if r is NotFound {
        Document::NotFoundPage
    } else {
        Document::Hello
    }
}

/// The full answer to a classified request, given both documents.
pub open spec fn response_to(r: Request, hello: Seq<u8>, not_found: Seq<u8>) -> Seq<u8> {
    if r is NotFound {
        response_bytes(status_not_found(), not_found)
    } else {
        response_bytes(status_ok(), hello)
    }
}

/// The bytes of `HTTP/1.1 200 OK`, as a value.
pub fn status_ok_bytes() -> (r: Vec<u8>)
    ensures
        r@ == status_ok(),
{
    let r: Vec<u8> = vec![72, 84, 84, 80, 47, 49, 46, 49, 32, 50, 48, 48, 32, 79, 75];
    proof {
        assert(r@ =~= status_ok());
    }
    r
}

/// The bytes of `HTTP/1.1 404 NOT FOUND`, as a value.
pub fn status_not_found_bytes() -> (r: Vec<u8>)
    ensures
        r@ == status_not_found(),
{
    let r: Vec<u8> = vec![
        72, 84, 84, 80, 47, 49, 46, 49, 32, 52, 48, 52, 32, 78, 79, 84, 32, 70, 79, 85, 78, 68,
    ];
    proof {
        assert(r@ =~= status_not_found());
    }
    r
}

/// The bytes of `Content-Length: `, as a value.
fn content_length_label_bytes() -> (r: Vec<u8>)
    ensures
        r@ == content_length_label(),
{
    let r: Vec<u8> = vec![67, 111, 110, 116, 101, 110, 116, 45, 76, 101, 110, 103, 116, 104, 58, 32];
    proof {
        assert(r@ =~= content_length_label());
    }
    r
}

/// Frames a body under a status line, with the length header counting the
/// body's bytes.
pub fn build_response(status: &[u8], body: &[u8]) -> (r: Vec<u8>)
    ensures
        r@ == response_bytes(status@, body@),
{
    let mut r: Vec<u8> = Vec::new();
    r.extend_from_slice(status);
    r.push(13);
    r.push(10);
    let label = content_length_label_bytes();
    r.extend_from_slice(label.as_slice());
    push_decimal(body.len() as u64, &mut r);
    r.push(13);
    r.push(10);
    r.push(13);
    r.push(10);
    r.extend_from_slice(body);
    proof {
        assert(body@.len() == (body.len() as u64) as nat);
        assert(r@ =~= response_bytes(status@, body@));
    }
    r
}

/// Which document serves a classified request.
pub fn document_for(r: Request) -> (d: Document)
    ensures
        d == document_of(r),
{
    if let Request::NotFound = r {
        Document::NotFoundPage
    } else {
        Document::Hello
    }
}

/// The full answer to a classified request.
pub fn respond(r: Request, hello: &[u8], not_found: &[u8]) -> (v: Vec<u8>)
    ensures
        v@ == response_to(r, hello@, not_found@),
{
    if let Request::NotFound = r {
        let status = status_not_found_bytes();
        build_response(status.as_slice(), not_found)
    } else {
        let status = status_ok_bytes();
        build_response(status.as_slice(), hello)
    }
}

/// From the received bytes straight to the answer: the response to send,
/// and whether to hold it back for the configured delay first.
pub fn handle_request(buffer: &[u8], hello: &[u8], not_found: &[u8]) -> (r: (Vec<u8>, bool))
    ensures
        r.0@ == response_to(classify(buffer@), hello@, not_found@),
        r.1 == (classify(buffer@) is Sleep),
{
    let req = crate::request::classify_request(buffer);
    let delay = matches!(req, Request::Sleep);
    let response = respond(req, hello, not_found);
    (response, delay)
}

} // verus!
