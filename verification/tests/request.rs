use webserver::request::{classify_request, Request};

/// The fixed-size read buffer the server fills from a connection: the
/// request occupies the front, the rest stays zero.
fn read_buffer(request: &[u8]) -> [u8; 1024] {
    let mut buffer = [0u8; 1024];
    buffer[..request.len()].copy_from_slice(request);
    buffer
}

#[test]
fn root_request_line_is_the_plain_page() {
    let buffer = read_buffer(b"GET / HTTP/1.1\r\nHost: localhost:7878\r\n\r\n");
    assert_eq!(classify_request(&buffer), Request::Root);
}

#[test]
fn sleep_request_line_is_the_slow_page() {
    let buffer = read_buffer(b"GET /sleep HTTP/1.1\r\nHost: localhost:7878\r\n\r\n");
    assert_eq!(classify_request(&buffer), Request::Sleep);
}

#[test]
fn any_other_request_line_is_not_found() {
    let buffer = read_buffer(b"GET /missing HTTP/1.1\r\nHost: localhost:7878\r\n\r\n");
    assert_eq!(classify_request(&buffer), Request::NotFound);
    let post = read_buffer(b"POST / HTTP/1.1\r\n\r\n");
    assert_eq!(classify_request(&post), Request::NotFound);
}

#[test]
fn the_bare_prefix_is_enough() {
    assert_eq!(classify_request(b"GET / HTTP/1.1\r\n"), Request::Root);
    assert_eq!(classify_request(b"GET /sleep HTTP/1.1\r\n"), Request::Sleep);
}

#[test]
fn a_shorter_or_twisted_prefix_is_not() {
    assert_eq!(classify_request(b""), Request::NotFound);
    assert_eq!(classify_request(b"GET / HTTP/1.1"), Request::NotFound);
    assert_eq!(classify_request(b"GET /sleep HTTP/1.0\r\n"), Request::NotFound);
    assert_eq!(classify_request(b"GET /sleepy HTTP/1.1\r\n"), Request::NotFound);
    assert_eq!(classify_request(b"get / HTTP/1.1\r\n"), Request::NotFound);
}
