//! A minimal embeddable HTTP server core: request-line parsing, a
//! (method, path) router with exact-match lookup, and the server
//! lifecycle (start/stop) around a connection-dispatch step.
//!
//! The library holds the verified request-dispatch logic; socket I/O
//! and the worker pool that runs each connection live in the embedding
//! program, which feeds raw bytes in and writes response bytes out.

pub mod handlers;
pub mod request;
pub mod router;
pub mod server;
