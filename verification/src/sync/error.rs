//! Error type returned by every fallible operation of the sync client.
//!
//! All variants carry plain text so that transport and wire-format
//! errors of the underlying libraries do not leak into the public API.

use vstd::prelude::*;

verus! {

/// Errors produced by the sync client.
#[derive(Debug)]
pub enum SyncError {
    /// Transport-level failure : the WebSocket could not be opened, or
    /// the peer closed the connection unexpectedly.
    Connection(String),
    /// Wire-format error : MessagePack encode/decode failed, or a frame
    /// arrived with an unsupported type.
    Protocol(String),
    /// Feature not yet implemented at this milestone.
    NotImplemented(&'static str),
}

/// The message of a sync error.
pub open spec fn sync_error_text(e: SyncError) -> Seq<char> {
    match e {
        SyncError::Connection(m) => "connection failed : "@ + m@,
        SyncError::Protocol(m) => "protocol error : "@ + m@,
        SyncError::NotImplemented(m) => "not yet implemented : "@ + m@,
    }
}

impl SyncError {
    /// Human-readable message, e.g. `"protocol error : bad msgpack"`.
    pub fn to_string(&self) -> (s: String)
        ensures
            s@ == sync_error_text(*self),
    {
        match self {
            SyncError::Connection(m) => "connection failed : ".to_owned().concat(m.as_str()),
            SyncError::Protocol(m) => "protocol error : ".to_owned().concat(m.as_str()),
            SyncError::NotImplemented(m) => "not yet implemented : ".to_owned().concat(m),
        }
    }
}

} // verus!
