//! Drives the per-key LEDs of a keyboard through a local lighting daemon.
//!
//! The crate holds the wire codec of the daemon's binary protocol, the
//! handshake that discovers and selects a keyboard, the map from printable
//! keys to LED positions, and the compositor that turns overlapping highlight
//! requests into one frame of colours per tick. Nothing here touches a socket
//! or a clock: callers hand in bytes and elapsed time, and send what comes back.

pub mod chance;
pub mod compositor;
pub mod config;
pub mod controller;
pub mod cursor;
pub mod directory;
pub mod error;
pub mod frame;
pub mod games;
pub mod handshake;
pub mod le;
pub mod packet;
pub mod record_model;
pub mod session;
pub mod text;
