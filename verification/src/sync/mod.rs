//! Client side of the real-time sync : connection state, errors, the
//! cursor throttle and the connection URL.
//!
//! The [`ConnectionState`] and [`SyncError`] at this level are the first,
//! minimal public API of the sync crate ; [`state`] and [`error`] hold the
//! current ones used by the client.

pub mod state;
pub mod error;
pub mod cursor;
pub mod client;

use vstd::prelude::*;

verus! {

/// Errors produced by the first sync client.
#[derive(Debug)]
pub enum SyncError {
    /// The server is unreachable.
    Connection(String),
    /// Feature not yet implemented at this milestone.
    NotImplemented(&'static str),
}

/// The message of an error of the first sync client.
pub open spec fn first_sync_error_text(e: SyncError) -> Seq<char> {
    match e {
        SyncError::Connection(m) => "connection failed : "@ + m@,
        SyncError::NotImplemented(m) => "not yet implemented : "@ + m@,
    }
}

impl SyncError {
    /// Human-readable message, e.g. `"connection failed : refused"`.
    pub fn to_string(&self) -> (s: String)
        ensures
            s@ == first_sync_error_text(*self),
    {
        match self {
            SyncError::Connection(m) => "connection failed : ".to_owned().concat(m.as_str()),
            SyncError::NotImplemented(m) => "not yet implemented : ".to_owned().concat(m),
        }
    }
}

/// Coarse-grained connection state, displayed to the user.
#[derive(Clone, Copy, Debug, PartialEq, Eq, Structural)]
pub enum ConnectionState {
    /// No server configured.
    Offline,
    /// Currently attempting to connect.
    Connecting,
    /// Connected and synchronizing.
    Connected,
    /// Lost connection, retrying with exponential backoff.
    Reconnecting,
}

impl Default for ConnectionState {
    fn default() -> (s: Self)
        ensures
            s == ConnectionState::Offline,
    {
        ConnectionState::Offline
    }
}

impl ConnectionState {
    /// Short human-readable label.
    pub fn label(self) -> (s: &'static str)
        ensures
            s@ == state::state_label(state::ConnectionState::from_first(self)),
    {
        match self {
            ConnectionState::Offline => "Offline",
            ConnectionState::Connecting => "Connecting...",
            ConnectionState::Connected => "Connected",
            ConnectionState::Reconnecting => "Reconnecting...",
        }
    }
}

} // verus!
