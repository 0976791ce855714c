//! The failures that the library reports.

use vstd::prelude::*;

verus! {

/// What can be wrong with bytes received from the daemon.
#[derive(Clone, Copy, Debug, PartialEq, Eq, Structural)]
pub enum ProtocolError {
    /// A packet did not start with the protocol's four-byte tag.
    BadMagic,
    /// A read would have run past the end of the bytes at hand.
    Truncated,
    /// The reply that a request calls for did not arrive among the packets
    /// that were allowed for it.
    UnexpectedReply,
}

/// Why a connection to the daemon could not be set up.
#[derive(Clone, Copy, Debug, PartialEq, Eq, Structural)]
pub enum ConnectError {
    /// The transport failed or timed out where a reply was required.
    Transport,
    /// The daemon sent something that the protocol does not allow.
    Protocol(ProtocolError),
    /// The daemon reports no controller at all.
    NoControllers,
    /// A controller's description could not be parsed.
    MalformedDevice,
    /// None of the controllers is a keyboard.
    NoKeyboard,
    /// No LED of the keyboard has a name that identifies a key.
    NoUsableLeds,
}

/// Why the daemon's endpoint could not be determined.
#[derive(Clone, Copy, Debug, PartialEq, Eq, Structural)]
pub enum ConfigError {
    /// The port override is not a decimal number between 0 and 65535.
    InvalidPort,
}

} // verus!
