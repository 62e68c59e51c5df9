//! Verified core of an SMS-to-push forwarder.
//!
//! The library covers the modem command/response protocol engine (command
//! framing, timeout-bounded response collection, listing parse, text
//! decoding), the emergency keyword classifier, and the encrypted
//! push-delivery construction.  I/O (serial port, HTTP, configuration files)
//! lives outside the library; callers hand in bytes and take back values.

pub mod classify;
pub mod config;
pub mod crypto;
pub mod poll;
pub mod push;
pub mod strutil;
pub mod listing;
pub mod protocol;
pub mod text;

pub use config::Config;
