//! The five operations on a client's record, one module each, as the
//! transport layer calls them.

pub mod authenticated;
pub mod handshake;
pub mod healthcheck;
pub mod pick_choice;
pub mod public_key;
pub mod verify;
