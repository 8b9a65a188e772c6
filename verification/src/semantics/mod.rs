//! Rules shared by the transports that serve a filesystem.
pub mod access;
pub mod access_laws;
pub mod durability;
pub mod handle_laws;
pub mod handles;
pub mod recency;
