//! Decisions of the BSE collaboration server : the room broadcast
//! registry, the user directory, the stored row types and the request
//! validation behind the HTTP handlers.

pub mod rooms;
pub mod socket;
pub mod store;
pub mod users;
pub mod handlers;
pub mod routes;
pub mod state;
