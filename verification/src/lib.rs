//! Verified core of the BSE collaborative whiteboard.
//!
//! The crate holds the parts of BSE that decide or compute something :
//! colour packing, identifiers, the room broadcast registry, the user
//! directory, the command-palette ranking, request validation and the
//! small wire-format helpers shared by the client and the server.

pub mod color;
pub mod text;
pub mod ui;
pub mod server;
pub mod ids;
pub mod sync;
pub mod storage;
