//! Friend presence: who among a person's mutually-added friends is online and
//! what they are sharing.
//!
//! A connection authenticates as an identity and subscribes to a set of friend
//! codes. A friend's presence is revealed to a subscriber only when the
//! interest is mutual: both must have added each other.
pub mod effects;
pub mod identity;
pub mod laws;
pub mod model;
pub mod state;

pub use identity::{
    new_challenge, verify_identity, verify_identity_for_hosts, PresenceAuthError,
    PresenceUnavailable,
};
pub use model::REQUEST_TTL;
pub use state::{Notice, PresenceCommand, PresenceState, SessionId};
