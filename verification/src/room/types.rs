//! The values that a room takes in and hands out.
use vstd::prelude::*;
use vstd::string::*;

use crate::clock;
use crate::clock::{Span, Timestamp};
use crate::crypto::Secret;
use crate::protocol::{
    ErrorCode, PeerRole, RoomAccessPolicy, RoomSnapshot, RoomSnapshotView, ServerMessage,
    ServerMessageView, SharingState,
};
use crate::text;

verus! {

pub const MAXIMUM_VIEWERS_LIMIT: u8 = 10;

pub const DEFAULT_PUBLIC_VIEWERS: u8 = 10;

pub const DEFAULT_APPROVAL_VIEWERS: u8 = 4;

/// Why a room refuses a command.
#[derive(Debug, Clone, Copy, PartialEq, Eq, Structural)]
pub enum DomainError {
    AuthenticationFailed,
    IdentityRequired,
    SessionExpired,
    AuthorizationDenied,
    RoomFull,
    RoomExpired,
    RoomClosed,
    ViewerNotFound,
    ViewerNotApproved,
    PendingViewerLimitReached,
    InvalidDestination,
    InvalidCapacity,
    RoomNotFound,
    Unavailable,
    MessageTooLarge,
}

impl DeepView for DomainError {
    type V = DomainError;

    open spec fn deep_view(&self) -> DomainError {
        *self
    }
}

/// The outcome of a command.
pub type CommandResult<T> = Result<T, DomainError>;

impl DomainError {
    /// The code that a refusal has on the wire.
    pub open spec fn wire_code(self) -> ErrorCode {
        match self {
            DomainError::AuthenticationFailed => ErrorCode::AuthenticationFailed,
            DomainError::IdentityRequired => ErrorCode::AuthenticationRequired,
            DomainError::SessionExpired => ErrorCode::SessionExpired,
            DomainError::AuthorizationDenied => ErrorCode::AuthorizationDenied,
            DomainError::RoomFull => ErrorCode::RoomFull,
            DomainError::RoomExpired => ErrorCode::RoomExpired,
            DomainError::RoomClosed => ErrorCode::RoomClosed,
            DomainError::ViewerNotFound => ErrorCode::ViewerNotFound,
            DomainError::ViewerNotApproved => ErrorCode::ViewerNotApproved,
            DomainError::PendingViewerLimitReached => ErrorCode::PendingViewerLimitReached,
            DomainError::InvalidDestination => ErrorCode::InvalidDestination,
            DomainError::InvalidCapacity => ErrorCode::InvalidCapacity,
            DomainError::RoomNotFound => ErrorCode::RoomNotFound,
            DomainError::Unavailable => ErrorCode::Internal,
            DomainError::MessageTooLarge => ErrorCode::MessageTooLarge,
        }
    }

    /// The sentence that describes the refusal.
    pub open spec fn sentence(self) -> Seq<char> {
        match self {
            DomainError::AuthenticationFailed => "authentication failed"@,
            DomainError::IdentityRequired => "a proven identity is required to join this room"@,
            DomainError::SessionExpired => "the resumable session has expired"@,
            DomainError::AuthorizationDenied => "authorization denied"@,
            DomainError::RoomFull => "room is full"@,
            DomainError::RoomExpired => "room expired"@,
            DomainError::RoomClosed => "room closed"@,
            DomainError::ViewerNotFound => "viewer not found"@,
            DomainError::ViewerNotApproved => "viewer is not approved"@,
            DomainError::PendingViewerLimitReached => "pending viewer limit reached"@,
            DomainError::InvalidDestination => "invalid destination"@,
            DomainError::InvalidCapacity => "capacity must be between one and ten"@,
            DomainError::RoomNotFound => "room not found"@,
            DomainError::Unavailable => "room command channel is unavailable"@,
            DomainError::MessageTooLarge => "message exceeds the configured size limit"@,
        }
    }

    pub fn code(&self) -> (r: ErrorCode)
        ensures
            r == self.wire_code(),
    {
        match self {
            DomainError::AuthenticationFailed => ErrorCode::AuthenticationFailed,
            DomainError::IdentityRequired => ErrorCode::AuthenticationRequired,
            DomainError::SessionExpired => ErrorCode::SessionExpired,
            DomainError::AuthorizationDenied => ErrorCode::AuthorizationDenied,
            DomainError::RoomFull => ErrorCode::RoomFull,
            DomainError::RoomExpired => ErrorCode::RoomExpired,
            DomainError::RoomClosed => ErrorCode::RoomClosed,
            DomainError::ViewerNotFound => ErrorCode::ViewerNotFound,
            DomainError::ViewerNotApproved => ErrorCode::ViewerNotApproved,
            DomainError::PendingViewerLimitReached => ErrorCode::PendingViewerLimitReached,
            DomainError::InvalidDestination => ErrorCode::InvalidDestination,
            DomainError::InvalidCapacity => ErrorCode::InvalidCapacity,
            DomainError::RoomNotFound => ErrorCode::RoomNotFound,
            DomainError::Unavailable => ErrorCode::Internal,
            DomainError::MessageTooLarge => ErrorCode::MessageTooLarge,
        }
    }

    pub fn message(&self) -> (r: &'static str)
        ensures
            r@ == self.sentence(),
    {
        match self {
            DomainError::AuthenticationFailed => "authentication failed",
            DomainError::IdentityRequired => "a proven identity is required to join this room",
            DomainError::SessionExpired => "the resumable session has expired",
            DomainError::AuthorizationDenied => "authorization denied",
            DomainError::RoomFull => "room is full",
            DomainError::RoomExpired => "room expired",
            DomainError::RoomClosed => "room closed",
            DomainError::ViewerNotFound => "viewer not found",
            DomainError::ViewerNotApproved => "viewer is not approved",
            DomainError::PendingViewerLimitReached => "pending viewer limit reached",
            DomainError::InvalidDestination => "invalid destination",
            DomainError::InvalidCapacity => "capacity must be between one and ten",
            DomainError::RoomNotFound => "room not found",
            DomainError::Unavailable => "room command channel is unavailable",
            DomainError::MessageTooLarge => "message exceeds the configured size limit",
        }
    }
}

/// A piece of negotiation that one peer sends another.
#[derive(Debug, PartialEq, Eq)]
pub enum RoutedSignal {
    Offer {
        sdp: String,
        ice_restart: bool,
    },
    Answer {
        sdp: String,
    },
    IceCandidate {
        candidate: String,
        sdp_mid: Option<String>,
        sdp_m_line_index: Option<u16>,
    },
    IceRestart,
}

/// What a [`RoutedSignal`] holds.
#[verifier::ext_equal]
pub enum RoutedSignalView {
    Offer { sdp: Seq<char>, ice_restart: bool },
    Answer { sdp: Seq<char> },
    IceCandidate { candidate: Seq<char>, sdp_mid: Option<Seq<char>>, sdp_m_line_index: Option<u16> },
    IceRestart,
}

impl View for RoutedSignal {
    type V = RoutedSignalView;

    open spec fn view(&self) -> RoutedSignalView {
        match self {
            RoutedSignal::Offer { sdp, ice_restart } => RoutedSignalView::Offer {
                sdp: sdp@,
                ice_restart: *ice_restart,
            },
            RoutedSignal::Answer { sdp } => RoutedSignalView::Answer {
                sdp: sdp@,
            },
            RoutedSignal::IceCandidate { candidate, sdp_mid, sdp_m_line_index } => RoutedSignalView::IceCandidate {
                candidate: candidate@,
                sdp_mid: sdp_mid.deep_view(),
                sdp_m_line_index: *sdp_m_line_index,
            },
            RoutedSignal::IceRestart => RoutedSignalView::IceRestart,
        }
    }
}

impl DeepView for RoutedSignal {
    type V = RoutedSignalView;

    open spec fn deep_view(&self) -> RoutedSignalView {
        self@
    }
}

impl Clone for RoutedSignal {
    fn clone(&self) -> (r: Self)
        ensures
            r@ == self@,
    {
        match self {
            RoutedSignal::Offer { sdp, ice_restart } => RoutedSignal::Offer {
                sdp: sdp.clone(),
                ice_restart: *ice_restart,
            },
            RoutedSignal::Answer { sdp } => RoutedSignal::Answer {
                sdp: sdp.clone(),
            },
            RoutedSignal::IceCandidate { candidate, sdp_mid, sdp_m_line_index } => RoutedSignal::IceCandidate {
                candidate: candidate.clone(),
                sdp_mid: sdp_mid.clone(),
                sdp_m_line_index: *sdp_m_line_index,
            },
            RoutedSignal::IceRestart => RoutedSignal::IceRestart,
        }
    }
}

/// One concrete transport connection for a peer. Peer ids survive reconnects;
/// connection ids do not, so superseded sockets cannot act as their replacement.
#[derive(Debug, PartialEq, Eq)]
pub struct ConnectionIdentity {
    pub peer_id: String,
    pub connection_id: String,
}

/// What a [`ConnectionIdentity`] holds.
#[verifier::ext_equal]
pub struct ConnectionIdentityView {
    pub peer_id: Seq<char>,
    pub connection_id: Seq<char>,
}

impl View for ConnectionIdentity {
    type V = ConnectionIdentityView;

    open spec fn view(&self) -> ConnectionIdentityView {
        ConnectionIdentityView {
            peer_id: self.peer_id@,
            connection_id: self.connection_id@,
        }
    }
}

impl DeepView for ConnectionIdentity {
    type V = ConnectionIdentityView;

    open spec fn deep_view(&self) -> ConnectionIdentityView {
        self@
    }
}

impl Clone for ConnectionIdentity {
    fn clone(&self) -> (r: Self)
        ensures
            r@ == self@,
    {
        let r = ConnectionIdentity {
            peer_id: self.peer_id.clone(),
            connection_id: self.connection_id.clone(),
        };
        r
    }
}

/// What the transport has to do for a connection, in the order it was decided.
#[derive(Debug, PartialEq, Eq)]
pub enum Outgoing {
    /// Hand over one message. There was room for it.
    Deliver {
        connection_id: String,
        message: ServerMessage,
    },
    /// Shut the connection down: it could not take a message.
    Close {
        connection_id: String,
    },
}

/// What a [`Outgoing`] holds.
#[verifier::ext_equal]
pub enum OutgoingView {
    Deliver { connection_id: Seq<char>, message: ServerMessageView },
    Close { connection_id: Seq<char> },
}

impl View for Outgoing {
    type V = OutgoingView;

    open spec fn view(&self) -> OutgoingView {
        match self {
            Outgoing::Deliver { connection_id, message } => OutgoingView::Deliver {
                connection_id: connection_id@,
                message: message@,
            },
            Outgoing::Close { connection_id } => OutgoingView::Close {
                connection_id: connection_id@,
            },
        }
    }
}

impl DeepView for Outgoing {
    type V = OutgoingView;

    open spec fn deep_view(&self) -> OutgoingView {
        self@
    }
}

impl Clone for Outgoing {
    fn clone(&self) -> (r: Self)
        ensures
            r@ == self@,
    {
        match self {
            Outgoing::Deliver { connection_id, message } => Outgoing::Deliver {
                connection_id: connection_id.clone(),
                message: message.clone(),
            },
            Outgoing::Close { connection_id } => Outgoing::Close {
                connection_id: connection_id.clone(),
            },
        }
    }
}

/// A change of observable room state, for listeners outside the room (such as
/// friend presence).
#[derive(Debug, PartialEq, Eq)]
pub enum RoomEvent {
    /// The approved viewer count or sharing state changed.
    Updated {
        room_id: String,
        approved_viewers: u32,
        sharing_state: SharingState,
    },
    /// The room closed or expired.
    Closed {
        room_id: String,
    },
}

/// What a [`RoomEvent`] holds.
#[verifier::ext_equal]
pub enum RoomEventView {
    Updated { room_id: Seq<char>, approved_viewers: u32, sharing_state: SharingState },
    Closed { room_id: Seq<char> },
}

impl View for RoomEvent {
    type V = RoomEventView;

    open spec fn view(&self) -> RoomEventView {
        match self {
            RoomEvent::Updated { room_id, approved_viewers, sharing_state } => RoomEventView::Updated {
                room_id: room_id@,
                approved_viewers: *approved_viewers,
                sharing_state: *sharing_state,
            },
            RoomEvent::Closed { room_id } => RoomEventView::Closed {
                room_id: room_id@,
            },
        }
    }
}

impl DeepView for RoomEvent {
    type V = RoomEventView;

    open spec fn deep_view(&self) -> RoomEventView {
        self@
    }
}

impl Clone for RoomEvent {
    fn clone(&self) -> (r: Self)
        ensures
            r@ == self@,
    {
        match self {
            RoomEvent::Updated { room_id, approved_viewers, sharing_state } => RoomEvent::Updated {
                room_id: room_id.clone(),
                approved_viewers: *approved_viewers,
                sharing_state: *sharing_state,
            },
            RoomEvent::Closed { room_id } => RoomEvent::Closed {
                room_id: room_id.clone(),
            },
        }
    }
}

/// The limits that every room of a server shares.
#[derive(Debug, Clone, Copy)]
pub struct RoomActorConfig {
    pub maximum_viewers_hard_limit: u8,
    pub maximum_pending_viewers: usize,
    pub pending_viewer_ttl: Span,
    pub presenter_resume_grace: Span,
    pub viewer_resume_grace: Span,
    pub outbound_capacity: usize,
}

impl Default for RoomActorConfig {
    fn default() -> (r: Self)
        ensures
            r.maximum_viewers_hard_limit == 10,
            r.maximum_pending_viewers == 16,
            r.pending_viewer_ttl == crate::clock::seconds(120),
            r.presenter_resume_grace == crate::clock::seconds(60),
            r.viewer_resume_grace == crate::clock::seconds(60),
            r.outbound_capacity == 128,
    {
        RoomActorConfig {
            maximum_viewers_hard_limit: MAXIMUM_VIEWERS_LIMIT,
            maximum_pending_viewers: 16,
            pending_viewer_ttl: 120_000_000_000,
            presenter_resume_grace: 60_000_000_000,
            viewer_resume_grace: 60_000_000_000,
            outbound_capacity: 128,
        }
    }
}

/// A transport connection that asks to be admitted, and how many messages it
/// can take before it is full.
#[derive(Debug, PartialEq, Eq)]
pub struct SessionHandle {
    pub connection_id: String,
    pub capacity: usize,
}

/// What a [`SessionHandle`] holds.
#[verifier::ext_equal]
pub struct SessionHandleView {
    pub connection_id: Seq<char>,
    pub capacity: usize,
}

impl View for SessionHandle {
    type V = SessionHandleView;

    open spec fn view(&self) -> SessionHandleView {
        SessionHandleView {
            connection_id: self.connection_id@,
            capacity: self.capacity,
        }
    }
}

impl DeepView for SessionHandle {
    type V = SessionHandleView;

    open spec fn deep_view(&self) -> SessionHandleView {
        self@
    }
}

impl Clone for SessionHandle {
    fn clone(&self) -> (r: Self)
        ensures
            r@ == self@,
    {
        let r = SessionHandle {
            connection_id: self.connection_id.clone(),
            capacity: self.capacity,
        };
        r
    }
}

/// What a peer gets when it is admitted.
pub struct AuthOutcome {
    pub room_id: String,
    pub peer_id: String,
    pub connection_id: String,
    pub role: PeerRole,
    pub resume_token: Secret,
    pub resume_expires_at: Timestamp,
    pub snapshot: RoomSnapshot,
    pub resumed: bool,
}

/// What an [`AuthOutcome`] holds.
#[verifier::ext_equal]
pub struct AuthOutcomeView {
    pub room_id: Seq<char>,
    pub peer_id: Seq<char>,
    pub connection_id: Seq<char>,
    pub role: PeerRole,
    pub resume_token: Seq<char>,
    pub resume_expires_at: int,
    pub snapshot: RoomSnapshotView,
    pub resumed: bool,
}

impl View for AuthOutcome {
    type V = AuthOutcomeView;

    open spec fn view(&self) -> AuthOutcomeView {
        AuthOutcomeView {
            room_id: self.room_id@,
            peer_id: self.peer_id@,
            connection_id: self.connection_id@,
            role: self.role,
            resume_token: self.resume_token@,
            resume_expires_at: self.resume_expires_at as int,
            snapshot: self.snapshot@,
            resumed: self.resumed,
        }
    }
}

/// An admission in words, for logs: nothing of the resume token.
pub open spec fn outcome_shown(m: AuthOutcomeView) -> Seq<char> {
    "AuthOutcome { room_id: "@ + text::quoted_of(m.room_id) + ", peer_id: "@ + text::quoted_of(
        m.peer_id,
    ) + ", role: "@ + (match m.role {
        PeerRole::Presenter => "Presenter"@,
        PeerRole::Viewer => "Viewer"@,
    }) + ", resume_token: \"[REDACTED]\", resume_expires_at: "@ + clock::shown_date(
        m.resume_expires_at,
    ) + ", resumed: "@ + (if m.resumed {
        "true"@
    } else {
        "false"@
    }) + ", .. }"@
}

impl AuthOutcome {
    /// The admission in words, for logs.
    pub fn describe(&self) -> (r: String)
        requires
            clock::is_timestamp(self@.resume_expires_at),
        ensures
            r@ == outcome_shown(self@),
    {
        let mut r = "AuthOutcome { room_id: ".to_owned();
        r.push_str(text::quoted(self.room_id.as_str()).as_str());
        r.push_str(", peer_id: ");
        r.push_str(text::quoted(self.peer_id.as_str()).as_str());
        r.push_str(", role: ");
        r.push_str(
            match self.role {
                PeerRole::Presenter => "Presenter",
                PeerRole::Viewer => "Viewer",
            },
        );
        r.push_str(", resume_token: \"[REDACTED]\", resume_expires_at: ");
        r.push_str(clock::date_shown(self.resume_expires_at).as_str());
        r.push_str(", resumed: ");
        r.push_str(
            if self.resumed {
                "true"
            } else {
                "false"
            },
        );
        r.push_str(", .. }");
        r
    }
}

/// The outcome of an admission, by what it holds.
pub open spec fn admission(r: CommandResult<AuthOutcome>) -> CommandResult<AuthOutcomeView> {
    match r {
        Ok(outcome) => Ok(outcome@),
        Err(error) => Err(error),
    }
}

/// A room that was just created, with the secrets that open it.
pub struct CreateRoomOutcome {
    pub room_id: String,
    pub presenter_secret: Secret,
    pub viewer_secret: Secret,
    pub expires_at: Timestamp,
    pub maximum_viewers: u8,
    pub access_policy: RoomAccessPolicy,
}

} // verus!
