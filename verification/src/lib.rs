//! Sliding-window state for serving a live audio stream over HTTP Live Streaming.
//!
//! The crate keeps the window of advertised segments, names each new segment
//! after the moment it was created, stamps its payload with a timing tag, keeps
//! the tagged bytes available for lookup, and decides what every request for a
//! path is answered with. Every function states its effect over a mathematical
//! view of the state, and the bounds the protocol relies on are proved.

pub mod decimal;
mod text;
pub mod m3u8;
pub mod timing;
pub mod playback;
pub mod server;
