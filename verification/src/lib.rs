//! Control channel for an external image-processing engine.
//!
//! The engine runs as an independent operating-system process and reads
//! newline-terminated text commands from a named pipe. This crate holds the
//! verified core of a wrapper around such a session: generation of a unique
//! channel identity, framing of commands onto the byte stream, and the
//! lifecycle protocol (open, send, teardown). The unverified shell that
//! performs the actual process and filesystem work lives outside the library
//! and drives these functions.

pub mod channel;
pub mod codec;
pub mod session;

pub use channel::MAX_SUFFIX;
pub use channel::channel_path;
pub use channel::fresh_channel_path;
pub use codec::is_single_line;
pub use session::Milk;
pub use session::OpenPhase;
pub use session::SessionError;
pub use session::open_advance;
pub use session::write_outcome;
