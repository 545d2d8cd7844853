//! Hosting a room as its presenter: admitting viewers and streaming one
//! broadcast to every approved viewer until the room ends.
//!
//! The room's life is independent of sharing. The set of viewer connections
//! always follows the room snapshots of the server, so approvals, departures,
//! kicks and capacity changes converge from one authority.
pub mod effects;
pub mod laws;
pub mod model;
pub mod session;
pub mod types;

pub use session::{PresenterSession, PresenterSessionConfig};
pub use types::{
    BroadcastEvent, ConnectionState, PresenterAction, PresenterCall, PresenterCommand,
    PresenterEnd, PresenterError, PresenterOutcome, PresenterUpdate,
};
