//! Rooms: who is admitted, who may act, and what every peer is told.

pub mod actor;
pub mod effects;
pub mod laws;
pub mod model;
pub mod state;
pub mod types;
pub mod validity;

pub use types::{
    AuthOutcome, CommandResult, ConnectionIdentity, CreateRoomOutcome, DomainError, Outgoing,
    RoomActorConfig, RoomEvent, RoutedSignal, SessionHandle, DEFAULT_APPROVAL_VIEWERS,
    DEFAULT_PUBLIC_VIEWERS, MAXIMUM_VIEWERS_LIMIT,
};
