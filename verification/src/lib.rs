//! An authenticating reverse-proxy gateway library.
//!
//! The crate covers the session-token engine (issuing and verifying signed
//! access and refresh credentials), the per-request authentication gate, the
//! route resolver that maps the first path segment to a configured backend,
//! the pure planning half of the HTTP forwarder (path rewriting and
//! hop-by-hop header filtering) and the frame-level state machine of the
//! WebSocket bridge. Network transport around these pieces lives outside the
//! library.

pub mod bridge;
pub mod claims;
pub mod config;
pub mod codec;
pub mod errors;
pub mod forward;
pub mod gate;
pub mod jellyfin;
pub mod jwt;
pub mod login;
pub mod resolve;
