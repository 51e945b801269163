//! A minimal TCP-serving worker pool, verified.
//!
//! The library holds the logic of the server: classifying a request line,
//! building the response bytes, and the state machines that coordinate a
//! fixed-size worker pool, its job queue, the accept loop and a one-shot
//! shutdown signal. The sockets, threads and files live outside the library
//! and drive these state machines with plain values.

pub mod acceptor;
pub mod pool;
pub mod request;
pub mod response;
pub mod shutdown;
pub mod text;
