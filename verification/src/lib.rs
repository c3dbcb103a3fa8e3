//! The request-handling core of a forwarding HTTP proxy that keeps what it
//! fetches in a cache directory.
//!
//! The library holds every decision that the proxy takes for one client
//! connection: how a request is read apart, which cache entry and which
//! origin host it names, what is sent to the origin, how the origin's reply
//! is read, and what is stored and sent back. Sockets and files stay with
//! the caller, which performs the actions that `handler::step` hands out
//! and reports what happened.
pub mod cache;
pub mod encoding;
pub mod error;
pub mod handler;
pub mod logging;
pub mod origin;
pub mod relay;
pub mod request;
pub mod text;
