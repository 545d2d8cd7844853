//! The client side of a session: joining, presenting, watching, and being seen
//! by friends.
pub mod audio_apps;
pub mod audio_laws;
pub mod cli;
pub mod cli_laws;
pub mod invite;
pub mod laws;
pub mod presence;
pub mod presenter;
pub mod rooms;
pub mod signaling;
pub mod terminal;
pub mod urls;
pub mod viewer;
