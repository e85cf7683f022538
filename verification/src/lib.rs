//! Request-authorization and reverse-proxy gateway core.
//!
//! The library holds the pure, verified part of an HTTP gateway: deciding
//! whether a path is public, internal-only or protected; resolving the
//! upstream service and rewriting the path; encoding and decoding the
//! identity envelope that is attached to forwarded requests; and the
//! per-request pipeline that ties these together.  The surrounding binary
//! performs the actual network I/O and feeds plain values in and out.

pub mod classify;
pub mod codec;
pub mod identity;
pub mod messages;
pub mod pipeline;
pub mod resolve;
pub mod text;
