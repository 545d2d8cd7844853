//! The messages that servers and clients exchange, as plain values.
//!
//! Framing is left to the transport: the protocol version that every message
//! carries, and the identifier under which a client sends a request, are added
//! where a message is written to the wire.
use vstd::prelude::*;

verus! {

/// Whether a room shows something.
#[derive(Debug, Clone, Copy, PartialEq, Eq, Structural)]
pub enum SharingState {
    Idle,
    Live,
    Paused,
}

impl DeepView for SharingState {
    type V = SharingState;

    open spec fn deep_view(&self) -> SharingState {
        *self
    }
}

/// Who may join a room.
#[derive(Debug, Clone, Copy, PartialEq, Eq, Structural)]
pub enum RoomAccessPolicy {
    /// Everyone who holds the link.
    Public,
    /// Whoever the presenter lets in.
    ApprovalRequired,
    /// The friends on the allowlist, with a proven identity.
    FriendsOnly,
}

impl DeepView for RoomAccessPolicy {
    type V = RoomAccessPolicy;

    open spec fn deep_view(&self) -> RoomAccessPolicy {
        *self
    }
}

/// Whether a room is still there.
#[derive(Debug, Clone, Copy, PartialEq, Eq, Structural)]
pub enum RoomLifecycle {
    Open,
    Closed,
    Expired,
}

impl DeepView for RoomLifecycle {
    type V = RoomLifecycle;

    open spec fn deep_view(&self) -> RoomLifecycle {
        *self
    }
}

/// What a peer does in a room.
#[derive(Debug, Clone, Copy, PartialEq, Eq, Structural)]
pub enum PeerRole {
    Presenter,
    Viewer,
}

impl DeepView for PeerRole {
    type V = PeerRole;

    open spec fn deep_view(&self) -> PeerRole {
        *self
    }
}

/// How far a viewer has been admitted.
#[derive(Debug, Clone, Copy, PartialEq, Eq, Structural)]
pub enum ViewerState {
    Pending,
    Approved,
    Rejected,
    Kicked,
    /// Approved, and inside its resume grace window.
    Disconnected,
}

impl DeepView for ViewerState {
    type V = ViewerState;

    open spec fn deep_view(&self) -> ViewerState {
        *self
    }
}

/// Why a request was refused.
#[derive(Debug, Clone, Copy, PartialEq, Eq, Structural)]
pub enum ErrorCode {
    AuthenticationFailed,
    AuthenticationRequired,
    SessionExpired,
    AuthorizationDenied,
    RoomFull,
    RoomExpired,
    RoomClosed,
    ViewerNotFound,
    ViewerNotApproved,
    PendingViewerLimitReached,
    InvalidDestination,
    InvalidCapacity,
    RoomNotFound,
    Internal,
    MessageTooLarge,
}

impl DeepView for ErrorCode {
    type V = ErrorCode;

    open spec fn deep_view(&self) -> ErrorCode {
        *self
    }
}

/// One peer of a room, as the others see it.
#[derive(Debug, PartialEq, Eq)]
pub struct PeerSnapshot {
    pub peer_id: String,
    pub display_name: Option<String>,
    pub role: PeerRole,
    pub viewer_state: Option<ViewerState>,
    pub connected: bool,
    pub joined_at: String,
    pub friend_code: Option<String>,
}

/// What a [`PeerSnapshot`] holds.
#[verifier::ext_equal]
pub struct PeerSnapshotView {
    pub peer_id: Seq<char>,
    pub display_name: Option<Seq<char>>,
    pub role: PeerRole,
    pub viewer_state: Option<ViewerState>,
    pub connected: bool,
    pub joined_at: Seq<char>,
    pub friend_code: Option<Seq<char>>,
}

impl View for PeerSnapshot {
    type V = PeerSnapshotView;

    open spec fn view(&self) -> PeerSnapshotView {
        PeerSnapshotView {
            peer_id: self.peer_id@,
            display_name: self.display_name.deep_view(),
            role: self.role,
            viewer_state: self.viewer_state,
            connected: self.connected,
            joined_at: self.joined_at@,
            friend_code: self.friend_code.deep_view(),
        }
    }
}

impl DeepView for PeerSnapshot {
    type V = PeerSnapshotView;

    open spec fn deep_view(&self) -> PeerSnapshotView {
        self@
    }
}

impl Clone for PeerSnapshot {
    fn clone(&self) -> (r: Self)
        ensures
            r@ == self@,
    {
        let r = PeerSnapshot {
            peer_id: self.peer_id.clone(),
            display_name: self.display_name.clone(),
            role: self.role,
            viewer_state: self.viewer_state,
            connected: self.connected,
            joined_at: self.joined_at.clone(),
            friend_code: self.friend_code.clone(),
        };
        r
    }
}

/// A room as its peers see it.
#[derive(Debug, PartialEq, Eq)]
pub struct RoomSnapshot {
    pub room_id: String,
    pub lifecycle: RoomLifecycle,
    pub sharing_state: SharingState,
    pub access_policy: RoomAccessPolicy,
    pub maximum_viewers: u8,
    pub expires_at: String,
    pub expires_in_seconds: u64,
    pub presenter_connected: bool,
    pub pending_viewers: Vec<PeerSnapshot>,
    pub approved_viewers: Vec<PeerSnapshot>,
}

/// What a [`RoomSnapshot`] holds.
#[verifier::ext_equal]
pub struct RoomSnapshotView {
    pub room_id: Seq<char>,
    pub lifecycle: RoomLifecycle,
    pub sharing_state: SharingState,
    pub access_policy: RoomAccessPolicy,
    pub maximum_viewers: u8,
    pub expires_at: Seq<char>,
    pub expires_in_seconds: u64,
    pub presenter_connected: bool,
    pub pending_viewers: Seq<PeerSnapshotView>,
    pub approved_viewers: Seq<PeerSnapshotView>,
}

impl View for RoomSnapshot {
    type V = RoomSnapshotView;

    open spec fn view(&self) -> RoomSnapshotView {
        RoomSnapshotView {
            room_id: self.room_id@,
            lifecycle: self.lifecycle,
            sharing_state: self.sharing_state,
            access_policy: self.access_policy,
            maximum_viewers: self.maximum_viewers,
            expires_at: self.expires_at@,
            expires_in_seconds: self.expires_in_seconds,
            presenter_connected: self.presenter_connected,
            pending_viewers: self.pending_viewers.deep_view(),
            approved_viewers: self.approved_viewers.deep_view(),
        }
    }
}

impl DeepView for RoomSnapshot {
    type V = RoomSnapshotView;

    open spec fn deep_view(&self) -> RoomSnapshotView {
        self@
    }
}

impl Clone for RoomSnapshot {
    fn clone(&self) -> (r: Self)
        ensures
            r@ == self@,
    {
        let r = RoomSnapshot {
            room_id: self.room_id.clone(),
            lifecycle: self.lifecycle,
            sharing_state: self.sharing_state,
            access_policy: self.access_policy,
            maximum_viewers: self.maximum_viewers,
            expires_at: self.expires_at.clone(),
            expires_in_seconds: self.expires_in_seconds,
            presenter_connected: self.presenter_connected,
            pending_viewers: self.pending_viewers.clone(),
            approved_viewers: self.approved_viewers.clone(),
        };
        assert(r.pending_viewers.deep_view() =~= self.pending_viewers.deep_view());
        assert(r.approved_viewers.deep_view() =~= self.approved_viewers.deep_view());
        r
    }
}

/// One STUN or TURN server.
#[derive(Debug, PartialEq, Eq)]
pub struct IceServer {
    pub urls: Vec<String>,
    pub username: Option<String>,
    pub credential: Option<String>,
}

/// What a [`IceServer`] holds.
#[verifier::ext_equal]
pub struct IceServerView {
    pub urls: Seq<Seq<char>>,
    pub username: Option<Seq<char>>,
    pub credential: Option<Seq<char>>,
}

impl View for IceServer {
    type V = IceServerView;

    open spec fn view(&self) -> IceServerView {
        IceServerView {
            urls: self.urls.deep_view(),
            username: self.username.deep_view(),
            credential: self.credential.deep_view(),
        }
    }
}

impl DeepView for IceServer {
    type V = IceServerView;

    open spec fn deep_view(&self) -> IceServerView {
        self@
    }
}

impl Clone for IceServer {
    fn clone(&self) -> (r: Self)
        ensures
            r@ == self@,
    {
        let r = IceServer {
            urls: self.urls.clone(),
            username: self.username.clone(),
            credential: self.credential.clone(),
        };
        assert(r.urls.deep_view() =~= self.urls.deep_view());
        r
    }
}

/// The servers to gather candidates with, and until when they may be used.
#[derive(Debug, PartialEq, Eq)]
pub struct IceConfiguration {
    pub expires_at: String,
    pub ice_servers: Vec<IceServer>,
}

/// What a [`IceConfiguration`] holds.
#[verifier::ext_equal]
pub struct IceConfigurationView {
    pub expires_at: Seq<char>,
    pub ice_servers: Seq<IceServerView>,
}

impl View for IceConfiguration {
    type V = IceConfigurationView;

    open spec fn view(&self) -> IceConfigurationView {
        IceConfigurationView {
            expires_at: self.expires_at@,
            ice_servers: self.ice_servers.deep_view(),
        }
    }
}

impl DeepView for IceConfiguration {
    type V = IceConfigurationView;

    open spec fn deep_view(&self) -> IceConfigurationView {
        self@
    }
}

impl Clone for IceConfiguration {
    fn clone(&self) -> (r: Self)
        ensures
            r@ == self@,
    {
        let r = IceConfiguration {
            expires_at: self.expires_at.clone(),
            ice_servers: self.ice_servers.clone(),
        };
        assert(r.ice_servers.deep_view() =~= self.ice_servers.deep_view());
        r
    }
}

/// What a server tells a client.
#[derive(Debug, PartialEq, Eq)]
#[allow(inconsistent_fields)]
pub enum ServerMessage {
    AuthSucceeded {
        request_id: String,
        server_timestamp: String,
        room_id: String,
        peer_id: String,
        role: PeerRole,
        resume_token: String,
        resume_expires_at: String,
        snapshot: RoomSnapshot,
        ice_configuration: IceConfiguration,
    },
    AuthFailed {
        request_id: String,
        server_timestamp: String,
        code: ErrorCode,
        message: String,
    },
    AuthIdentityChallenge {
        server_timestamp: String,
        nonce: String,
    },
    HeartbeatPing {
        server_timestamp: String,
        nonce: String,
    },
    RoomSnapshot {
        server_timestamp: String,
        snapshot: RoomSnapshot,
    },
    RoomCapacityUpdated {
        request_id: String,
        server_timestamp: String,
        maximum_viewers: u8,
    },
    RoomSharingStateUpdated {
        request_id: String,
        server_timestamp: String,
        sharing_state: SharingState,
    },
    RoomClosed {
        server_timestamp: String,
    },
    RoomExpired {
        server_timestamp: String,
    },
    PresenterDisconnected {
        server_timestamp: String,
    },
    PresenterResumed {
        server_timestamp: String,
    },
    ViewerPending {
        server_timestamp: String,
        viewer: PeerSnapshot,
    },
    ViewerApproved {
        request_id: Option<String>,
        server_timestamp: String,
        peer_id: String,
    },
    ViewerRejected {
        request_id: Option<String>,
        server_timestamp: String,
        peer_id: String,
    },
    ViewerKicked {
        request_id: Option<String>,
        server_timestamp: String,
        peer_id: String,
    },
    ViewerLeft {
        server_timestamp: String,
        peer_id: String,
    },
    ViewerResumed {
        server_timestamp: String,
        peer_id: String,
    },
    ViewerDisplayNameUpdated {
        request_id: String,
        server_timestamp: String,
        peer_id: String,
        display_name: Option<String>,
    },
    SignalOffer {
        request_id: String,
        server_timestamp: String,
        source_peer_id: String,
        sdp: String,
        ice_restart: bool,
    },
    SignalAnswer {
        request_id: String,
        server_timestamp: String,
        source_peer_id: String,
        sdp: String,
    },
    SignalIceCandidate {
        request_id: String,
        server_timestamp: String,
        source_peer_id: String,
        candidate: String,
        sdp_mid: Option<String>,
        sdp_m_line_index: Option<u16>,
    },
    SignalIceRestart {
        request_id: String,
        server_timestamp: String,
        source_peer_id: String,
    },
    IceConfiguration {
        server_timestamp: String,
        configuration: IceConfiguration,
    },
    Error {
        request_id: Option<String>,
        server_timestamp: String,
        code: ErrorCode,
        message: String,
    },
}

/// What a [`ServerMessage`] holds.
#[verifier::ext_equal]
#[allow(inconsistent_fields)]
pub enum ServerMessageView {
    AuthSucceeded { request_id: Seq<char>, server_timestamp: Seq<char>, room_id: Seq<char>, peer_id: Seq<char>, role: PeerRole, resume_token: Seq<char>, resume_expires_at: Seq<char>, snapshot: RoomSnapshotView, ice_configuration: IceConfigurationView },
    AuthFailed { request_id: Seq<char>, server_timestamp: Seq<char>, code: ErrorCode, message: Seq<char> },
    AuthIdentityChallenge { server_timestamp: Seq<char>, nonce: Seq<char> },
    HeartbeatPing { server_timestamp: Seq<char>, nonce: Seq<char> },
    RoomSnapshot { server_timestamp: Seq<char>, snapshot: RoomSnapshotView },
    RoomCapacityUpdated { request_id: Seq<char>, server_timestamp: Seq<char>, maximum_viewers: u8 },
    RoomSharingStateUpdated { request_id: Seq<char>, server_timestamp: Seq<char>, sharing_state: SharingState },
    RoomClosed { server_timestamp: Seq<char> },
    RoomExpired { server_timestamp: Seq<char> },
    PresenterDisconnected { server_timestamp: Seq<char> },
    PresenterResumed { server_timestamp: Seq<char> },
    ViewerPending { server_timestamp: Seq<char>, viewer: PeerSnapshotView },
    ViewerApproved { request_id: Option<Seq<char>>, server_timestamp: Seq<char>, peer_id: Seq<char> },
    ViewerRejected { request_id: Option<Seq<char>>, server_timestamp: Seq<char>, peer_id: Seq<char> },
    ViewerKicked { request_id: Option<Seq<char>>, server_timestamp: Seq<char>, peer_id: Seq<char> },
    ViewerLeft { server_timestamp: Seq<char>, peer_id: Seq<char> },
    ViewerResumed { server_timestamp: Seq<char>, peer_id: Seq<char> },
    ViewerDisplayNameUpdated { request_id: Seq<char>, server_timestamp: Seq<char>, peer_id: Seq<char>, display_name: Option<Seq<char>> },
    SignalOffer { request_id: Seq<char>, server_timestamp: Seq<char>, source_peer_id: Seq<char>, sdp: Seq<char>, ice_restart: bool },
    SignalAnswer { request_id: Seq<char>, server_timestamp: Seq<char>, source_peer_id: Seq<char>, sdp: Seq<char> },
    SignalIceCandidate { request_id: Seq<char>, server_timestamp: Seq<char>, source_peer_id: Seq<char>, candidate: Seq<char>, sdp_mid: Option<Seq<char>>, sdp_m_line_index: Option<u16> },
    SignalIceRestart { request_id: Seq<char>, server_timestamp: Seq<char>, source_peer_id: Seq<char> },
    IceConfiguration { server_timestamp: Seq<char>, configuration: IceConfigurationView },
    Error { request_id: Option<Seq<char>>, server_timestamp: Seq<char>, code: ErrorCode, message: Seq<char> },
}

impl View for ServerMessage {
    type V = ServerMessageView;

    open spec fn view(&self) -> ServerMessageView {
        match self {
            ServerMessage::AuthSucceeded { request_id, server_timestamp, room_id, peer_id, role, resume_token, resume_expires_at, snapshot, ice_configuration } => ServerMessageView::AuthSucceeded {
                request_id: request_id@,
                server_timestamp: server_timestamp@,
                room_id: room_id@,
                peer_id: peer_id@,
                role: *role,
                resume_token: resume_token@,
                resume_expires_at: resume_expires_at@,
                snapshot: snapshot@,
                ice_configuration: ice_configuration@,
            },
            ServerMessage::AuthFailed { request_id, server_timestamp, code, message } => ServerMessageView::AuthFailed {
                request_id: request_id@,
                server_timestamp: server_timestamp@,
                code: *code,
                message: message@,
            },
            ServerMessage::AuthIdentityChallenge { server_timestamp, nonce } => ServerMessageView::AuthIdentityChallenge {
                server_timestamp: server_timestamp@,
                nonce: nonce@,
            },
            ServerMessage::HeartbeatPing { server_timestamp, nonce } => ServerMessageView::HeartbeatPing {
                server_timestamp: server_timestamp@,
                nonce: nonce@,
            },
            ServerMessage::RoomSnapshot { server_timestamp, snapshot } => ServerMessageView::RoomSnapshot {
                server_timestamp: server_timestamp@,
                snapshot: snapshot@,
            },
            ServerMessage::RoomCapacityUpdated { request_id, server_timestamp, maximum_viewers } => ServerMessageView::RoomCapacityUpdated {
                request_id: request_id@,
                server_timestamp: server_timestamp@,
                maximum_viewers: *maximum_viewers,
            },
            ServerMessage::RoomSharingStateUpdated { request_id, server_timestamp, sharing_state } => ServerMessageView::RoomSharingStateUpdated {
                request_id: request_id@,
                server_timestamp: server_timestamp@,
                sharing_state: *sharing_state,
            },
            ServerMessage::RoomClosed { server_timestamp } => ServerMessageView::RoomClosed {
                server_timestamp: server_timestamp@,
            },
            ServerMessage::RoomExpired { server_timestamp } => ServerMessageView::RoomExpired {
                server_timestamp: server_timestamp@,
            },
            ServerMessage::PresenterDisconnected { server_timestamp } => ServerMessageView::PresenterDisconnected {
                server_timestamp: server_timestamp@,
            },
            ServerMessage::PresenterResumed { server_timestamp } => ServerMessageView::PresenterResumed {
                server_timestamp: server_timestamp@,
            },
            ServerMessage::ViewerPending { server_timestamp, viewer } => ServerMessageView::ViewerPending {
                server_timestamp: server_timestamp@,
                viewer: viewer@,
            },
            ServerMessage::ViewerApproved { request_id, server_timestamp, peer_id } => ServerMessageView::ViewerApproved {
                request_id: request_id.deep_view(),
                server_timestamp: server_timestamp@,
                peer_id: peer_id@,
            },
            ServerMessage::ViewerRejected { request_id, server_timestamp, peer_id } => ServerMessageView::ViewerRejected {
                request_id: request_id.deep_view(),
                server_timestamp: server_timestamp@,
                peer_id: peer_id@,
            },
            ServerMessage::ViewerKicked { request_id, server_timestamp, peer_id } => ServerMessageView::ViewerKicked {
                request_id: request_id.deep_view(),
                server_timestamp: server_timestamp@,
                peer_id: peer_id@,
            },
            ServerMessage::ViewerLeft { server_timestamp, peer_id } => ServerMessageView::ViewerLeft {
                server_timestamp: server_timestamp@,
                peer_id: peer_id@,
            },
            ServerMessage::ViewerResumed { server_timestamp, peer_id } => ServerMessageView::ViewerResumed {
                server_timestamp: server_timestamp@,
                peer_id: peer_id@,
            },
            ServerMessage::ViewerDisplayNameUpdated { request_id, server_timestamp, peer_id, display_name } => ServerMessageView::ViewerDisplayNameUpdated {
                request_id: request_id@,
                server_timestamp: server_timestamp@,
                peer_id: peer_id@,
                display_name: display_name.deep_view(),
            },
            ServerMessage::SignalOffer { request_id, server_timestamp, source_peer_id, sdp, ice_restart } => ServerMessageView::SignalOffer {
                request_id: request_id@,
                server_timestamp: server_timestamp@,
                source_peer_id: source_peer_id@,
                sdp: sdp@,
                ice_restart: *ice_restart,
            },
            ServerMessage::SignalAnswer { request_id, server_timestamp, source_peer_id, sdp } => ServerMessageView::SignalAnswer {
                request_id: request_id@,
                server_timestamp: server_timestamp@,
                source_peer_id: source_peer_id@,
                sdp: sdp@,
            },
            ServerMessage::SignalIceCandidate { request_id, server_timestamp, source_peer_id, candidate, sdp_mid, sdp_m_line_index } => ServerMessageView::SignalIceCandidate {
                request_id: request_id@,
                server_timestamp: server_timestamp@,
                source_peer_id: source_peer_id@,
                candidate: candidate@,
                sdp_mid: sdp_mid.deep_view(),
                sdp_m_line_index: *sdp_m_line_index,
            },
            ServerMessage::SignalIceRestart { request_id, server_timestamp, source_peer_id } => ServerMessageView::SignalIceRestart {
                request_id: request_id@,
                server_timestamp: server_timestamp@,
                source_peer_id: source_peer_id@,
            },
            ServerMessage::IceConfiguration { server_timestamp, configuration } => ServerMessageView::IceConfiguration {
                server_timestamp: server_timestamp@,
                configuration: configuration@,
            },
            ServerMessage::Error { request_id, server_timestamp, code, message } => ServerMessageView::Error {
                request_id: request_id.deep_view(),
                server_timestamp: server_timestamp@,
                code: *code,
                message: message@,
            },
        }
    }
}

impl DeepView for ServerMessage {
    type V = ServerMessageView;

    open spec fn deep_view(&self) -> ServerMessageView {
        self@
    }
}

impl Clone for ServerMessage {
    fn clone(&self) -> (r: Self)
        ensures
            r@ == self@,
    {
        match self {
            ServerMessage::AuthSucceeded { request_id, server_timestamp, room_id, peer_id, role, resume_token, resume_expires_at, snapshot, ice_configuration } => ServerMessage::AuthSucceeded {
                request_id: request_id.clone(),
                server_timestamp: server_timestamp.clone(),
                room_id: room_id.clone(),
                peer_id: peer_id.clone(),
                role: *role,
                resume_token: resume_token.clone(),
                resume_expires_at: resume_expires_at.clone(),
                snapshot: snapshot.clone(),
                ice_configuration: ice_configuration.clone(),
            },
            ServerMessage::AuthFailed { request_id, server_timestamp, code, message } => ServerMessage::AuthFailed {
                request_id: request_id.clone(),
                server_timestamp: server_timestamp.clone(),
                code: *code,
                message: message.clone(),
            },
            ServerMessage::AuthIdentityChallenge { server_timestamp, nonce } => ServerMessage::AuthIdentityChallenge {
                server_timestamp: server_timestamp.clone(),
                nonce: nonce.clone(),
            },
            ServerMessage::HeartbeatPing { server_timestamp, nonce } => ServerMessage::HeartbeatPing {
                server_timestamp: server_timestamp.clone(),
                nonce: nonce.clone(),
            },
            ServerMessage::RoomSnapshot { server_timestamp, snapshot } => ServerMessage::RoomSnapshot {
                server_timestamp: server_timestamp.clone(),
                snapshot: snapshot.clone(),
            },
            ServerMessage::RoomCapacityUpdated { request_id, server_timestamp, maximum_viewers } => ServerMessage::RoomCapacityUpdated {
                request_id: request_id.clone(),
                server_timestamp: server_timestamp.clone(),
                maximum_viewers: *maximum_viewers,
            },
            ServerMessage::RoomSharingStateUpdated { request_id, server_timestamp, sharing_state } => ServerMessage::RoomSharingStateUpdated {
                request_id: request_id.clone(),
                server_timestamp: server_timestamp.clone(),
                sharing_state: *sharing_state,
            },
            ServerMessage::RoomClosed { server_timestamp } => ServerMessage::RoomClosed {
                server_timestamp: server_timestamp.clone(),
            },
            ServerMessage::RoomExpired { server_timestamp } => ServerMessage::RoomExpired {
                server_timestamp: server_timestamp.clone(),
            },
            ServerMessage::PresenterDisconnected { server_timestamp } => ServerMessage::PresenterDisconnected {
                server_timestamp: server_timestamp.clone(),
            },
            ServerMessage::PresenterResumed { server_timestamp } => ServerMessage::PresenterResumed {
                server_timestamp: server_timestamp.clone(),
            },
            ServerMessage::ViewerPending { server_timestamp, viewer } => ServerMessage::ViewerPending {
                server_timestamp: server_timestamp.clone(),
                viewer: viewer.clone(),
            },
            ServerMessage::ViewerApproved { request_id, server_timestamp, peer_id } => ServerMessage::ViewerApproved {
                request_id: request_id.clone(),
                server_timestamp: server_timestamp.clone(),
                peer_id: peer_id.clone(),
            },
            ServerMessage::ViewerRejected { request_id, server_timestamp, peer_id } => ServerMessage::ViewerRejected {
                request_id: request_id.clone(),
                server_timestamp: server_timestamp.clone(),
                peer_id: peer_id.clone(),
            },
            ServerMessage::ViewerKicked { request_id, server_timestamp, peer_id } => ServerMessage::ViewerKicked {
                request_id: request_id.clone(),
                server_timestamp: server_timestamp.clone(),
                peer_id: peer_id.clone(),
            },
            ServerMessage::ViewerLeft { server_timestamp, peer_id } => ServerMessage::ViewerLeft {
                server_timestamp: server_timestamp.clone(),
                peer_id: peer_id.clone(),
            },
            ServerMessage::ViewerResumed { server_timestamp, peer_id } => ServerMessage::ViewerResumed {
                server_timestamp: server_timestamp.clone(),
                peer_id: peer_id.clone(),
            },
            ServerMessage::ViewerDisplayNameUpdated { request_id, server_timestamp, peer_id, display_name } => ServerMessage::ViewerDisplayNameUpdated {
                request_id: request_id.clone(),
                server_timestamp: server_timestamp.clone(),
                peer_id: peer_id.clone(),
                display_name: display_name.clone(),
            },
            ServerMessage::SignalOffer { request_id, server_timestamp, source_peer_id, sdp, ice_restart } => ServerMessage::SignalOffer {
                request_id: request_id.clone(),
                server_timestamp: server_timestamp.clone(),
                source_peer_id: source_peer_id.clone(),
                sdp: sdp.clone(),
                ice_restart: *ice_restart,
            },
            ServerMessage::SignalAnswer { request_id, server_timestamp, source_peer_id, sdp } => ServerMessage::SignalAnswer {
                request_id: request_id.clone(),
                server_timestamp: server_timestamp.clone(),
                source_peer_id: source_peer_id.clone(),
                sdp: sdp.clone(),
            },
            ServerMessage::SignalIceCandidate { request_id, server_timestamp, source_peer_id, candidate, sdp_mid, sdp_m_line_index } => ServerMessage::SignalIceCandidate {
                request_id: request_id.clone(),
                server_timestamp: server_timestamp.clone(),
                source_peer_id: source_peer_id.clone(),
                candidate: candidate.clone(),
                sdp_mid: sdp_mid.clone(),
                sdp_m_line_index: *sdp_m_line_index,
            },
            ServerMessage::SignalIceRestart { request_id, server_timestamp, source_peer_id } => ServerMessage::SignalIceRestart {
                request_id: request_id.clone(),
                server_timestamp: server_timestamp.clone(),
                source_peer_id: source_peer_id.clone(),
            },
            ServerMessage::IceConfiguration { server_timestamp, configuration } => ServerMessage::IceConfiguration {
                server_timestamp: server_timestamp.clone(),
                configuration: configuration.clone(),
            },
            ServerMessage::Error { request_id, server_timestamp, code, message } => ServerMessage::Error {
                request_id: request_id.clone(),
                server_timestamp: server_timestamp.clone(),
                code: *code,
                message: message.clone(),
            },
        }
    }
}

/// What a client asks of a server.
#[derive(Debug, PartialEq, Eq)]
pub enum ClientMessage {
    AuthPresenter {
        room_id: String,
        presenter_secret: String,
    },
    AuthViewer {
        room_id: String,
        viewer_secret: String,
        display_name: Option<String>,
    },
    AuthIdentity {
        public_key: String,
        signature: String,
    },
    SessionResume {
        room_id: String,
        resume_token: String,
    },
    PeerLeave,
    HeartbeatPong {
        nonce: String,
    },
    RoomClose,
    RoomUpdateSharingState {
        sharing_state: SharingState,
    },
    RoomUpdateCapacity {
        maximum_viewers: u8,
    },
    ViewerUpdateDisplayName {
        display_name: Option<String>,
    },
    ViewerApprove {
        peer_id: String,
    },
    ViewerReject {
        peer_id: String,
    },
    ViewerKick {
        peer_id: String,
    },
    SignalOffer {
        destination_peer_id: String,
        sdp: String,
        ice_restart: bool,
    },
    SignalAnswer {
        destination_peer_id: String,
        sdp: String,
    },
    SignalIceCandidate {
        destination_peer_id: String,
        candidate: String,
        sdp_mid: Option<String>,
        sdp_m_line_index: Option<u16>,
    },
    SignalIceRestart {
        destination_peer_id: String,
    },
    IceRefresh,
}

/// What a [`ClientMessage`] holds.
#[verifier::ext_equal]
pub enum ClientMessageView {
    AuthPresenter { room_id: Seq<char>, presenter_secret: Seq<char> },
    AuthViewer { room_id: Seq<char>, viewer_secret: Seq<char>, display_name: Option<Seq<char>> },
    AuthIdentity { public_key: Seq<char>, signature: Seq<char> },
    SessionResume { room_id: Seq<char>, resume_token: Seq<char> },
    PeerLeave,
    HeartbeatPong { nonce: Seq<char> },
    RoomClose,
    RoomUpdateSharingState { sharing_state: SharingState },
    RoomUpdateCapacity { maximum_viewers: u8 },
    ViewerUpdateDisplayName { display_name: Option<Seq<char>> },
    ViewerApprove { peer_id: Seq<char> },
    ViewerReject { peer_id: Seq<char> },
    ViewerKick { peer_id: Seq<char> },
    SignalOffer { destination_peer_id: Seq<char>, sdp: Seq<char>, ice_restart: bool },
    SignalAnswer { destination_peer_id: Seq<char>, sdp: Seq<char> },
    SignalIceCandidate { destination_peer_id: Seq<char>, candidate: Seq<char>, sdp_mid: Option<Seq<char>>, sdp_m_line_index: Option<u16> },
    SignalIceRestart { destination_peer_id: Seq<char> },
    IceRefresh,
}

impl View for ClientMessage {
    type V = ClientMessageView;

    open spec fn view(&self) -> ClientMessageView {
        match self {
            ClientMessage::AuthPresenter { room_id, presenter_secret } => ClientMessageView::AuthPresenter {
                room_id: room_id@,
                presenter_secret: presenter_secret@,
            },
            ClientMessage::AuthViewer { room_id, viewer_secret, display_name } => ClientMessageView::AuthViewer {
                room_id: room_id@,
                viewer_secret: viewer_secret@,
                display_name: display_name.deep_view(),
            },
            ClientMessage::AuthIdentity { public_key, signature } => ClientMessageView::AuthIdentity {
                public_key: public_key@,
                signature: signature@,
            },
            ClientMessage::SessionResume { room_id, resume_token } => ClientMessageView::SessionResume {
                room_id: room_id@,
                resume_token: resume_token@,
            },
            ClientMessage::PeerLeave => ClientMessageView::PeerLeave,
            ClientMessage::HeartbeatPong { nonce } => ClientMessageView::HeartbeatPong {
                nonce: nonce@,
            },
            ClientMessage::RoomClose => ClientMessageView::RoomClose,
            ClientMessage::RoomUpdateSharingState { sharing_state } => ClientMessageView::RoomUpdateSharingState {
                sharing_state: *sharing_state,
            },
            ClientMessage::RoomUpdateCapacity { maximum_viewers } => ClientMessageView::RoomUpdateCapacity {
                maximum_viewers: *maximum_viewers,
            },
            ClientMessage::ViewerUpdateDisplayName { display_name } => ClientMessageView::ViewerUpdateDisplayName {
                display_name: display_name.deep_view(),
            },
            ClientMessage::ViewerApprove { peer_id } => ClientMessageView::ViewerApprove {
                peer_id: peer_id@,
            },
            ClientMessage::ViewerReject { peer_id } => ClientMessageView::ViewerReject {
                peer_id: peer_id@,
            },
            ClientMessage::ViewerKick { peer_id } => ClientMessageView::ViewerKick {
                peer_id: peer_id@,
            },
            ClientMessage::SignalOffer { destination_peer_id, sdp, ice_restart } => ClientMessageView::SignalOffer {
                destination_peer_id: destination_peer_id@,
                sdp: sdp@,
                ice_restart: *ice_restart,
            },
            ClientMessage::SignalAnswer { destination_peer_id, sdp } => ClientMessageView::SignalAnswer {
                destination_peer_id: destination_peer_id@,
                sdp: sdp@,
            },
            ClientMessage::SignalIceCandidate { destination_peer_id, candidate, sdp_mid, sdp_m_line_index } => ClientMessageView::SignalIceCandidate {
                destination_peer_id: destination_peer_id@,
                candidate: candidate@,
                sdp_mid: sdp_mid.deep_view(),
                sdp_m_line_index: *sdp_m_line_index,
            },
            ClientMessage::SignalIceRestart { destination_peer_id } => ClientMessageView::SignalIceRestart {
                destination_peer_id: destination_peer_id@,
            },
            ClientMessage::IceRefresh => ClientMessageView::IceRefresh,
        }
    }
}

impl DeepView for ClientMessage {
    type V = ClientMessageView;

    open spec fn deep_view(&self) -> ClientMessageView {
        self@
    }
}

impl Clone for ClientMessage {
    fn clone(&self) -> (r: Self)
        ensures
            r@ == self@,
    {
        match self {
            ClientMessage::AuthPresenter { room_id, presenter_secret } => ClientMessage::AuthPresenter {
                room_id: room_id.clone(),
                presenter_secret: presenter_secret.clone(),
            },
            ClientMessage::AuthViewer { room_id, viewer_secret, display_name } => ClientMessage::AuthViewer {
                room_id: room_id.clone(),
                viewer_secret: viewer_secret.clone(),
                display_name: display_name.clone(),
            },
            ClientMessage::AuthIdentity { public_key, signature } => ClientMessage::AuthIdentity {
                public_key: public_key.clone(),
                signature: signature.clone(),
            },
            ClientMessage::SessionResume { room_id, resume_token } => ClientMessage::SessionResume {
                room_id: room_id.clone(),
                resume_token: resume_token.clone(),
            },
            ClientMessage::PeerLeave => ClientMessage::PeerLeave,
            ClientMessage::HeartbeatPong { nonce } => ClientMessage::HeartbeatPong {
                nonce: nonce.clone(),
            },
            ClientMessage::RoomClose => ClientMessage::RoomClose,
            ClientMessage::RoomUpdateSharingState { sharing_state } => ClientMessage::RoomUpdateSharingState {
                sharing_state: *sharing_state,
            },
            ClientMessage::RoomUpdateCapacity { maximum_viewers } => ClientMessage::RoomUpdateCapacity {
                maximum_viewers: *maximum_viewers,
            },
            ClientMessage::ViewerUpdateDisplayName { display_name } => ClientMessage::ViewerUpdateDisplayName {
                display_name: display_name.clone(),
            },
            ClientMessage::ViewerApprove { peer_id } => ClientMessage::ViewerApprove {
                peer_id: peer_id.clone(),
            },
            ClientMessage::ViewerReject { peer_id } => ClientMessage::ViewerReject {
                peer_id: peer_id.clone(),
            },
            ClientMessage::ViewerKick { peer_id } => ClientMessage::ViewerKick {
                peer_id: peer_id.clone(),
            },
            ClientMessage::SignalOffer { destination_peer_id, sdp, ice_restart } => ClientMessage::SignalOffer {
                destination_peer_id: destination_peer_id.clone(),
                sdp: sdp.clone(),
                ice_restart: *ice_restart,
            },
            ClientMessage::SignalAnswer { destination_peer_id, sdp } => ClientMessage::SignalAnswer {
                destination_peer_id: destination_peer_id.clone(),
                sdp: sdp.clone(),
            },
            ClientMessage::SignalIceCandidate { destination_peer_id, candidate, sdp_mid, sdp_m_line_index } => ClientMessage::SignalIceCandidate {
                destination_peer_id: destination_peer_id.clone(),
                candidate: candidate.clone(),
                sdp_mid: sdp_mid.clone(),
                sdp_m_line_index: *sdp_m_line_index,
            },
            ClientMessage::SignalIceRestart { destination_peer_id } => ClientMessage::SignalIceRestart {
                destination_peer_id: destination_peer_id.clone(),
            },
            ClientMessage::IceRefresh => ClientMessage::IceRefresh,
        }
    }
}

/// One line of chat, as it travels between peers.
#[derive(Debug, PartialEq, Eq)]
pub struct ChatMessage {
    pub sender: String,
    pub text: String,
}

/// What a [`ChatMessage`] holds.
#[verifier::ext_equal]
pub struct ChatMessageView {
    pub sender: Seq<char>,
    pub text: Seq<char>,
}

impl View for ChatMessage {
    type V = ChatMessageView;

    open spec fn view(&self) -> ChatMessageView {
        ChatMessageView {
            sender: self.sender@,
            text: self.text@,
        }
    }
}

impl DeepView for ChatMessage {
    type V = ChatMessageView;

    open spec fn deep_view(&self) -> ChatMessageView {
        self@
    }
}

impl Clone for ChatMessage {
    fn clone(&self) -> (r: Self)
        ensures
            r@ == self@,
    {
        let r = ChatMessage {
            sender: self.sender.clone(),
            text: self.text.clone(),
        };
        r
    }
}

/// A room that a friend is hosting.
#[derive(Debug, PartialEq, Eq)]
pub struct HostedRoom {
    pub room_id: String,
    pub viewer_url: String,
    pub viewer_count: u32,
    pub sharing_state: SharingState,
}

/// What a [`HostedRoom`] holds.
#[verifier::ext_equal]
pub struct HostedRoomView {
    pub room_id: Seq<char>,
    pub viewer_url: Seq<char>,
    pub viewer_count: u32,
    pub sharing_state: SharingState,
}

impl View for HostedRoom {
    type V = HostedRoomView;

    open spec fn view(&self) -> HostedRoomView {
        HostedRoomView {
            room_id: self.room_id@,
            viewer_url: self.viewer_url@,
            viewer_count: self.viewer_count,
            sharing_state: self.sharing_state,
        }
    }
}

impl DeepView for HostedRoom {
    type V = HostedRoomView;

    open spec fn deep_view(&self) -> HostedRoomView {
        self@
    }
}

impl Clone for HostedRoom {
    fn clone(&self) -> (r: Self)
        ensures
            r@ == self@,
    {
        let r = HostedRoom {
            room_id: self.room_id.clone(),
            viewer_url: self.viewer_url.clone(),
            viewer_count: self.viewer_count,
            sharing_state: self.sharing_state,
        };
        r
    }
}

/// Whether a friend is there, and what it is hosting.
#[derive(Debug, PartialEq, Eq)]
pub struct FriendPresence {
    pub code: String,
    pub online: bool,
    pub hosting: Option<HostedRoom>,
    pub last_seen_seconds_ago: Option<u64>,
}

/// What a [`FriendPresence`] holds.
#[verifier::ext_equal]
pub struct FriendPresenceView {
    pub code: Seq<char>,
    pub online: bool,
    pub hosting: Option<HostedRoomView>,
    pub last_seen_seconds_ago: Option<u64>,
}

impl View for FriendPresence {
    type V = FriendPresenceView;

    open spec fn view(&self) -> FriendPresenceView {
        FriendPresenceView {
            code: self.code@,
            online: self.online,
            hosting: self.hosting.deep_view(),
            last_seen_seconds_ago: self.last_seen_seconds_ago,
        }
    }
}

impl DeepView for FriendPresence {
    type V = FriendPresenceView;

    open spec fn deep_view(&self) -> FriendPresenceView {
        self@
    }
}

impl Clone for FriendPresence {
    fn clone(&self) -> (r: Self)
        ensures
            r@ == self@,
    {
        let r = FriendPresence {
            code: self.code.clone(),
            online: self.online,
            hosting: self.hosting.clone(),
            last_seen_seconds_ago: self.last_seen_seconds_ago,
        };
        r
    }
}

/// What a server says on the presence channel.
#[derive(Debug, PartialEq, Eq)]
pub enum PresenceServerMessage {
    Challenge {
        server_timestamp: String,
        nonce: String,
    },
    Ready {
        server_timestamp: String,
        code: String,
    },
    Snapshot {
        server_timestamp: String,
        friends: Vec<FriendPresence>,
    },
    Update {
        server_timestamp: String,
        friend: FriendPresence,
    },
    Requests {
        server_timestamp: String,
        codes: Vec<String>,
    },
}

/// What a [`PresenceServerMessage`] holds.
#[verifier::ext_equal]
pub enum PresenceServerMessageView {
    Challenge { server_timestamp: Seq<char>, nonce: Seq<char> },
    Ready { server_timestamp: Seq<char>, code: Seq<char> },
    Snapshot { server_timestamp: Seq<char>, friends: Seq<FriendPresenceView> },
    Update { server_timestamp: Seq<char>, friend: FriendPresenceView },
    Requests { server_timestamp: Seq<char>, codes: Seq<Seq<char>> },
}

impl View for PresenceServerMessage {
    type V = PresenceServerMessageView;

    open spec fn view(&self) -> PresenceServerMessageView {
        match self {
            PresenceServerMessage::Challenge { server_timestamp, nonce } => PresenceServerMessageView::Challenge {
                server_timestamp: server_timestamp@,
                nonce: nonce@,
            },
            PresenceServerMessage::Ready { server_timestamp, code } => PresenceServerMessageView::Ready {
                server_timestamp: server_timestamp@,
                code: code@,
            },
            PresenceServerMessage::Snapshot { server_timestamp, friends } => PresenceServerMessageView::Snapshot {
                server_timestamp: server_timestamp@,
                friends: friends.deep_view(),
            },
            PresenceServerMessage::Update { server_timestamp, friend } => PresenceServerMessageView::Update {
                server_timestamp: server_timestamp@,
                friend: friend@,
            },
            PresenceServerMessage::Requests { server_timestamp, codes } => PresenceServerMessageView::Requests {
                server_timestamp: server_timestamp@,
                codes: codes.deep_view(),
            },
        }
    }
}

impl DeepView for PresenceServerMessage {
    type V = PresenceServerMessageView;

    open spec fn deep_view(&self) -> PresenceServerMessageView {
        self@
    }
}

impl Clone for PresenceServerMessage {
    fn clone(&self) -> (r: Self)
        ensures
            r@ == self@,
    {
        match self {
            PresenceServerMessage::Challenge { server_timestamp, nonce } => PresenceServerMessage::Challenge {
                server_timestamp: server_timestamp.clone(),
                nonce: nonce.clone(),
            },
            PresenceServerMessage::Ready { server_timestamp, code } => PresenceServerMessage::Ready {
                server_timestamp: server_timestamp.clone(),
                code: code.clone(),
            },
            PresenceServerMessage::Snapshot { server_timestamp, friends } => {
                let friends_copy = friends.clone();
                assert(friends_copy.deep_view() =~= friends.deep_view());
                PresenceServerMessage::Snapshot {
                    server_timestamp: server_timestamp.clone(),
                    friends: friends_copy,
                }
            },
            PresenceServerMessage::Update { server_timestamp, friend } => PresenceServerMessage::Update {
                server_timestamp: server_timestamp.clone(),
                friend: friend.clone(),
            },
            PresenceServerMessage::Requests { server_timestamp, codes } => {
                let codes_copy = codes.clone();
                assert(codes_copy.deep_view() =~= codes.deep_view());
                PresenceServerMessage::Requests {
                    server_timestamp: server_timestamp.clone(),
                    codes: codes_copy,
                }
            },
        }
    }
}

/// What a client says on the presence channel.
#[derive(Debug, PartialEq, Eq)]
pub enum PresenceClientMessage {
    Hello {
        public_key: String,
        signature: String,
    },
    Subscribe {
        codes: Vec<String>,
    },
    Announce {
        hosting: Option<HostedRoom>,
        presenter_secret: Option<String>,
    },
}

/// What a [`PresenceClientMessage`] holds.
#[verifier::ext_equal]
pub enum PresenceClientMessageView {
    Hello { public_key: Seq<char>, signature: Seq<char> },
    Subscribe { codes: Seq<Seq<char>> },
    Announce { hosting: Option<HostedRoomView>, presenter_secret: Option<Seq<char>> },
}

impl View for PresenceClientMessage {
    type V = PresenceClientMessageView;

    open spec fn view(&self) -> PresenceClientMessageView {
        match self {
            PresenceClientMessage::Hello { public_key, signature } => PresenceClientMessageView::Hello {
                public_key: public_key@,
                signature: signature@,
            },
            PresenceClientMessage::Subscribe { codes } => PresenceClientMessageView::Subscribe {
                codes: codes.deep_view(),
            },
            PresenceClientMessage::Announce { hosting, presenter_secret } => PresenceClientMessageView::Announce {
                hosting: hosting.deep_view(),
                presenter_secret: presenter_secret.deep_view(),
            },
        }
    }
}

impl DeepView for PresenceClientMessage {
    type V = PresenceClientMessageView;

    open spec fn deep_view(&self) -> PresenceClientMessageView {
        self@
    }
}

impl Clone for PresenceClientMessage {
    fn clone(&self) -> (r: Self)
        ensures
            r@ == self@,
    {
        match self {
            PresenceClientMessage::Hello { public_key, signature } => PresenceClientMessage::Hello {
                public_key: public_key.clone(),
                signature: signature.clone(),
            },
            PresenceClientMessage::Subscribe { codes } => {
                let codes_copy = codes.clone();
                assert(codes_copy.deep_view() =~= codes.deep_view());
                PresenceClientMessage::Subscribe {
                    codes: codes_copy,
                }
            },
            PresenceClientMessage::Announce { hosting, presenter_secret } => PresenceClientMessage::Announce {
                hosting: hosting.clone(),
                presenter_secret: presenter_secret.clone(),
            },
        }
    }
}

} // verus!
