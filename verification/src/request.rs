//! Classification of a request line.
//!
//! A connection hands the server the first bytes it sent. The server serves
//! the hello document when those bytes start with `GET / HTTP/1.1\r\n`,
//! serves it after a deliberate delay when they start with
//! `GET /sleep HTTP/1.1\r\n`, and answers not-found otherwise.

use vstd::prelude::*;

verus! {

/// What a request asks for.
#[derive(Clone, Copy, Debug, PartialEq, Eq, Structural)]
pub enum Request {
    /// The plain page: serve the hello document at once.
    Root,
    /// The slow page: wait for the configured delay, then serve the hello document.
    Sleep,
    /// Anything else: answer not-found.
    NotFound,
}

/// The bytes of `GET / HTTP/1.1\r\n`.
pub open spec fn root_prefix() -> Seq<u8> {
    seq![
        71u8, 69u8, 84u8, 32u8, 47u8, 32u8, 72u8, 84u8, 84u8, 80u8, 47u8, 49u8, 46u8, 49u8, 13u8,
        10u8,
    ]
}

/// The bytes of `GET /sleep HTTP/1.1\r\n`.
pub open spec fn sleep_prefix() -> Seq<u8> {
    seq![
        71u8, 69u8, 84u8, 32u8, 47u8, 115u8, 108u8, 101u8, 101u8, 112u8, 32u8, 72u8, 84u8, 84u8,
        80u8, 47u8, 49u8, 46u8, 49u8, 13u8, 10u8,
    ]
}

/// `p` is an initial segment of `b`.
pub open spec fn is_prefix_of(p: Seq<u8>, b: Seq<u8>) -> bool {
    p.len() <= b.len() && forall|i: int| 0 <= i < p.len() ==> b[i] == p[i]
}

/// The request that a buffer of received bytes stands for.
pub open spec fn classify(b: Seq<u8>) -> Request {
    if is_prefix_of(root_prefix(), b) {
        Request::Root
    } else if is_prefix_of(sleep_prefix(), b) {
        Request::Sleep
    } else {
        Request::NotFound
    }
}

/// The bytes of `GET / HTTP/1.1\r\n`, as a value.
fn root_prefix_bytes() -> (r: Vec<u8>)
    ensures
        r@ == root_prefix(),
{
    let r: Vec<u8> = vec![71, 69, 84, 32, 47, 32, 72, 84, 84, 80, 47, 49, 46, 49, 13, 10];
    proof {
        assert(r@ =~= root_prefix());
    }
    r
}

/// The bytes of `GET /sleep HTTP/1.1\r\n`, as a value.
fn sleep_prefix_bytes() -> (r: Vec<u8>)
    ensures
        r@ == sleep_prefix(),
{
    let r: Vec<u8> = vec![
        71, 69, 84, 32, 47, 115, 108, 101, 101, 112, 32, 72, 84, 84, 80, 47, 49, 46, 49, 13, 10,
    ];
    proof {
        assert(r@ =~= sleep_prefix());
    }
    r
}

/// Whether `prefix` is an initial segment of `buffer`.
fn starts_with(buffer: &[u8], prefix: &[u8]) -> (r: bool)
    ensures
        r == is_prefix_of(prefix@, buffer@),
{
    if prefix.len() > buffer.len() {
        return false;
    }
    let mut i: usize = 0;
    while i < prefix.len()
        invariant
            prefix@.len() <= buffer@.len(),
            i <= prefix@.len(),
            forall|j: int| 0 <= j < i ==> buffer@[j] == prefix@[j],
        decreases prefix@.len() - i,
    {
        if buffer[i] != prefix[i] {
            return false;
        }
        i = i + 1;
    }
    true
}

/// Classifies the first bytes received on a connection.
pub fn classify_request(buffer: &[u8]) -> (r: Request)
    ensures
        r == classify(buffer@),
{
    let root = root_prefix_bytes();
    let sleep = sleep_prefix_bytes();
    if starts_with(buffer, root.as_slice()) {
        Request::Root
    } else if starts_with(buffer, sleep.as_slice()) {
        Request::Sleep
    } else {
        Request::NotFound
    }
}

} // verus!
