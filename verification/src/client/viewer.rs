//! Joining a room as a viewer and playing the presenter's stream until the
//! room ends, the viewer is removed, playback fails, or the host leaves.
//!
//! Every offer of the presenter renegotiates the same playback, unless it comes
//! from a rebuilt connection. Signaling drops are ridden out while media keeps
//! flowing.
pub mod effects;
pub mod laws;
pub mod model;
pub mod session;
pub mod types;

pub use session::{ViewerSession, ViewerSessionConfig};
pub use types::{
    EndReason, PlaybackEvent, ViewerAction, ViewerCall, ViewerCommand, ViewerError, ViewerOutcome,
    ViewerPhase, ViewerUpdate,
};
