//! Connection state visible to the rest of the app (status bar, ...).
//!
//! The variants and their labels are a stable public contract : the
//! status bar matches on them and shows the labels.

use vstd::prelude::*;

verus! {

/// Coarse-grained connection state, displayed to the user.
#[derive(Clone, Copy, Debug, PartialEq, Eq, Structural)]
pub enum ConnectionState {
    /// No server configured.
    Offline,
    /// Currently attempting to connect.
    Connecting,
    /// Connected and synchronizing.
    Connected,
    /// Lost connection, retrying with exponential backoff.
    Reconnecting,
}

/// The label shown for each state.
pub open spec fn state_label(s: ConnectionState) -> Seq<char> {
    match s {
        ConnectionState::Offline => "Offline"@,
        ConnectionState::Connecting => "Connecting..."@,
        ConnectionState::Connected => "Connected"@,
        ConnectionState::Reconnecting => "Reconnecting..."@,
    }
}

impl ConnectionState {
    /// The same state, from the first API's enum.
    pub open spec fn from_first(s: super::ConnectionState) -> ConnectionState {
        match s {
            super::ConnectionState::Offline => ConnectionState::Offline,
            super::ConnectionState::Connecting => ConnectionState::Connecting,
            super::ConnectionState::Connected => ConnectionState::Connected,
            super::ConnectionState::Reconnecting => ConnectionState::Reconnecting,
        }
    }

    /// Short human-readable label.
    pub fn label(self) -> (s: &'static str)
        ensures
            s@ == state_label(self),
    {
        match self {
            ConnectionState::Offline => "Offline",
            ConnectionState::Connecting => "Connecting...",
            ConnectionState::Connected => "Connected",
            ConnectionState::Reconnecting => "Reconnecting...",
        }
    }
}

impl Default for ConnectionState {
    fn default() -> (s: Self)
        ensures
            s == ConnectionState::Offline,
    {
        ConnectionState::Offline
    }
}

/// Distinct states have distinct labels, so the status bar can tell
/// every state apart from its label alone.
pub proof fn lemma_labels_distinct(a: ConnectionState, b: ConnectionState)
    requires
        a != b,
    ensures
        state_label(a) != state_label(b),
{
    reveal_strlit("Offline");
    reveal_strlit("Connecting...");
    reveal_strlit("Connected");
    reveal_strlit("Reconnecting...");
    if state_label(a) == state_label(b) {
        assert(state_label(a).len() == state_label(b).len());
        assert(state_label(a)[0] == state_label(b)[0]);
        assert(state_label(a)[9] == state_label(b)[9]) by {
            match a {
                ConnectionState::Offline => {},
                _ => {},
            }
        }
    }
}

} // verus!
