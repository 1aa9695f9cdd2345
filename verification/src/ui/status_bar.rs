//! Connection status shown in the bottom status bar.

use vstd::prelude::*;
use crate::color::Color;
use crate::sync::state::ConnectionState;

verus! {

/// Connection status mirrored from the sync client's [`ConnectionState`].
#[derive(Clone, Copy, Debug, PartialEq, Eq, Structural)]
pub enum ConnectionStatus {
    /// No server configured or user not signed in.
    Offline,
    /// Currently attempting to connect.
    Connecting,
    /// Connected and synchronizing.
    Connected,
    /// Lost connection, retrying with exponential backoff.
    Reconnecting,
}

impl Default for ConnectionStatus {
    fn default() -> (s: Self)
        ensures
            s == ConnectionStatus::Offline,
    {
        ConnectionStatus::Offline
    }
}

impl ConnectionStatus {
    /// The status shown for a connection state : the variant of the same name.
    pub fn from_state(state: ConnectionState) -> (s: ConnectionStatus)
        ensures
            s == match state {
                ConnectionState::Offline => ConnectionStatus::Offline,
                ConnectionState::Connecting => ConnectionStatus::Connecting,
                ConnectionState::Connected => ConnectionStatus::Connected,
                ConnectionState::Reconnecting => ConnectionStatus::Reconnecting,
            },
    {
        match state {
            ConnectionState::Offline => ConnectionStatus::Offline,
            ConnectionState::Connecting => ConnectionStatus::Connecting,
            ConnectionState::Connected => ConnectionStatus::Connected,
            ConnectionState::Reconnecting => ConnectionStatus::Reconnecting,
        }
    }
}

/// The text and colour of the connection pill of the status bar.
pub fn connection_pill(status: ConnectionStatus) -> (r: (&'static str, Color))
    ensures
        match status {
            ConnectionStatus::Offline => r.0@ == "● Offline"@ && r.1 == (Color {
                r: 0xA5,
                g: 0xA8,
                b: 0xB5,
                a: 255,
            }),
            ConnectionStatus::Connecting => r.0@ == "● Connecting…"@ && r.1 == (Color {
                r: 0xFF,
                g: 0xD0,
                b: 0x2F,
                a: 255,
            }),
            ConnectionStatus::Connected => r.0@ == "● Connected"@ && r.1 == (Color {
                r: 0x00,
                g: 0xB4,
                b: 0x73,
                a: 255,
            }),
            ConnectionStatus::Reconnecting => r.0@ == "● Reconnecting…"@ && r.1 == (Color {
                r: 0xE6,
                g: 0x9A,
                b: 0x00,
                a: 255,
            }),
        },
{
    match status {
        ConnectionStatus::Offline => ("● Offline", Color::rgb(0xA5, 0xA8, 0xB5)),
        ConnectionStatus::Connecting => ("● Connecting…", Color::rgb(0xFF, 0xD0, 0x2F)),
        ConnectionStatus::Connected => ("● Connected", Color::rgb(0x00, 0xB4, 0x73)),
        ConnectionStatus::Reconnecting => ("● Reconnecting…", Color::rgb(0xE6, 0x9A, 0x00)),
    }
}

} // verus!
