//! Connection-handling core of a game server that speaks a length-prefixed,
//! stateful binary protocol: the primitive codec, the packet framing, the
//! typed packets, the per-connection state machine and the shared server
//! state.

pub mod error;
pub mod stream;
pub mod mctypes;
pub mod protocol;
pub mod config;
pub mod net;
pub mod server;

pub use config::Config;
pub mod packets;
pub mod status;
