//! What goes into a presenter session and what comes out of it.
use vstd::prelude::*;
use vstd::string::*;

use crate::client::signaling::SignalingState;
use crate::protocol::{
    ChatMessage, ChatMessageView, ClientMessage, ClientMessageView, IceConfiguration,
    IceConfigurationView, PeerSnapshot, PeerSnapshotView, RoomSnapshot, RoomSnapshotView,
    SharingState,
};

verus! {

/// How a media connection is doing.
#[derive(Debug, Clone, Copy, PartialEq, Eq, Structural)]
pub enum ConnectionState {
    New,
    Connecting,
    Connected,
    Disconnected,
    Failed,
    Closed,
}

impl DeepView for ConnectionState {
    type V = ConnectionState;

    open spec fn deep_view(&self) -> ConnectionState {
        *self
    }
}

/// How a session ended, when it ended without an error.
#[derive(Debug, Clone, Copy, PartialEq, Eq, Structural)]
pub enum PresenterEnd {
    /// The room was closed, by the host or by the server.
    RoomClosed,
    /// The room reached its expiry.
    RoomExpired,
    /// The session disconnected. The room stays open and resumable.
    Left,
}

impl DeepView for PresenterEnd {
    type V = PresenterEnd;

    open spec fn deep_view(&self) -> PresenterEnd {
        *self
    }
}

/// Why a session failed.
#[derive(Debug, PartialEq, Eq)]
pub enum PresenterError {
    AuthenticationFailed {
        message: String,
    },
    BroadcastStart {
        message: String,
    },
    Broadcast {
        reason: String,
    },
    SignalingEnded,
}

/// What a [`PresenterError`] holds.
#[verifier::ext_equal]
pub enum PresenterErrorView {
    AuthenticationFailed { message: Seq<char> },
    BroadcastStart { message: Seq<char> },
    Broadcast { reason: Seq<char> },
    SignalingEnded,
}

impl View for PresenterError {
    type V = PresenterErrorView;

    open spec fn view(&self) -> PresenterErrorView {
        match self {
            PresenterError::AuthenticationFailed { message } => PresenterErrorView::AuthenticationFailed {
                message: message@,
            },
            PresenterError::BroadcastStart { message } => PresenterErrorView::BroadcastStart {
                message: message@,
            },
            PresenterError::Broadcast { reason } => PresenterErrorView::Broadcast {
                reason: reason@,
            },
            PresenterError::SignalingEnded => PresenterErrorView::SignalingEnded,
        }
    }
}

impl DeepView for PresenterError {
    type V = PresenterErrorView;

    open spec fn deep_view(&self) -> PresenterErrorView {
        self@
    }
}

impl Clone for PresenterError {
    fn clone(&self) -> (r: Self)
        ensures
            r@ == self@,
    {
        match self {
            PresenterError::AuthenticationFailed { message } => PresenterError::AuthenticationFailed {
                message: message.clone(),
            },
            PresenterError::BroadcastStart { message } => PresenterError::BroadcastStart {
                message: message.clone(),
            },
            PresenterError::Broadcast { reason } => PresenterError::Broadcast {
                reason: reason.clone(),
            },
            PresenterError::SignalingEnded => PresenterError::SignalingEnded,
        }
    }
}

/// What a host asks of a running session. A capture is named by a number of
/// the host's own.
#[derive(Debug, PartialEq, Eq)]
pub enum PresenterCommand {
    /// Send a chat message to the room as the presenter.
    Chat {
        text: String,
    },
    /// Begin sharing this capture.
    StartShare {
        source: u64,
    },
    /// Swap the shared capture, without renegotiating viewers.
    SwitchSource {
        source: u64,
    },
    PauseShare,
    ResumeShare,
    /// Return the room to idle. The room, its connections and chat stay up.
    StopShare,
    /// End the room for everyone.
    CloseRoom,
    /// Disconnect without closing the room.
    Leave,
    ApproveViewer {
        peer_id: String,
    },
    RejectViewer {
        peer_id: String,
    },
    KickViewer {
        peer_id: String,
    },
    /// Restart ICE on one viewer's connection now.
    RestartIce {
        peer_id: String,
    },
    /// Rename the presenter as chat sees it.
    SetDisplayName {
        name: String,
    },
}

/// What a [`PresenterCommand`] holds.
#[verifier::ext_equal]
pub enum PresenterCommandView {
    Chat { text: Seq<char> },
    StartShare { source: u64 },
    SwitchSource { source: u64 },
    PauseShare,
    ResumeShare,
    StopShare,
    CloseRoom,
    Leave,
    ApproveViewer { peer_id: Seq<char> },
    RejectViewer { peer_id: Seq<char> },
    KickViewer { peer_id: Seq<char> },
    RestartIce { peer_id: Seq<char> },
    SetDisplayName { name: Seq<char> },
}

impl View for PresenterCommand {
    type V = PresenterCommandView;

    open spec fn view(&self) -> PresenterCommandView {
        match self {
            PresenterCommand::Chat { text } => PresenterCommandView::Chat {
                text: text@,
            },
            PresenterCommand::StartShare { source } => PresenterCommandView::StartShare {
                source: *source,
            },
            PresenterCommand::SwitchSource { source } => PresenterCommandView::SwitchSource {
                source: *source,
            },
            PresenterCommand::PauseShare => PresenterCommandView::PauseShare,
            PresenterCommand::ResumeShare => PresenterCommandView::ResumeShare,
            PresenterCommand::StopShare => PresenterCommandView::StopShare,
            PresenterCommand::CloseRoom => PresenterCommandView::CloseRoom,
            PresenterCommand::Leave => PresenterCommandView::Leave,
            PresenterCommand::ApproveViewer { peer_id } => PresenterCommandView::ApproveViewer {
                peer_id: peer_id@,
            },
            PresenterCommand::RejectViewer { peer_id } => PresenterCommandView::RejectViewer {
                peer_id: peer_id@,
            },
            PresenterCommand::KickViewer { peer_id } => PresenterCommandView::KickViewer {
                peer_id: peer_id@,
            },
            PresenterCommand::RestartIce { peer_id } => PresenterCommandView::RestartIce {
                peer_id: peer_id@,
            },
            PresenterCommand::SetDisplayName { name } => PresenterCommandView::SetDisplayName {
                name: name@,
            },
        }
    }
}

impl DeepView for PresenterCommand {
    type V = PresenterCommandView;

    open spec fn deep_view(&self) -> PresenterCommandView {
        self@
    }
}

impl Clone for PresenterCommand {
    fn clone(&self) -> (r: Self)
        ensures
            r@ == self@,
    {
        match self {
            PresenterCommand::Chat { text } => PresenterCommand::Chat {
                text: text.clone(),
            },
            PresenterCommand::StartShare { source } => PresenterCommand::StartShare {
                source: *source,
            },
            PresenterCommand::SwitchSource { source } => PresenterCommand::SwitchSource {
                source: *source,
            },
            PresenterCommand::PauseShare => PresenterCommand::PauseShare,
            PresenterCommand::ResumeShare => PresenterCommand::ResumeShare,
            PresenterCommand::StopShare => PresenterCommand::StopShare,
            PresenterCommand::CloseRoom => PresenterCommand::CloseRoom,
            PresenterCommand::Leave => PresenterCommand::Leave,
            PresenterCommand::ApproveViewer { peer_id } => PresenterCommand::ApproveViewer {
                peer_id: peer_id.clone(),
            },
            PresenterCommand::RejectViewer { peer_id } => PresenterCommand::RejectViewer {
                peer_id: peer_id.clone(),
            },
            PresenterCommand::KickViewer { peer_id } => PresenterCommand::KickViewer {
                peer_id: peer_id.clone(),
            },
            PresenterCommand::RestartIce { peer_id } => PresenterCommand::RestartIce {
                peer_id: peer_id.clone(),
            },
            PresenterCommand::SetDisplayName { name } => PresenterCommand::SetDisplayName {
                name: name.clone(),
            },
        }
    }
}

/// Progress reports for whatever hosts the session.
#[derive(Debug, PartialEq, Eq)]
#[allow(inconsistent_fields)]
pub enum PresenterUpdate {
    Signaling {
        state: SignalingState,
    },
    /// The room's sharing state as this session drives it.
    SharingState {
        state: SharingState,
    },
    /// Seconds until the room expires, by the clock of the server.
    RoomExpiry {
        expires_in_seconds: u64,
    },
    /// A viewer asked to join.
    JoinRequested {
        peer_id: String,
        display_name: Option<String>,
        friend_code: Option<String>,
    },
    /// An approved viewer's connection was created.
    ViewerJoined {
        peer_id: String,
        display_name: Option<String>,
    },
    ViewerLeft {
        peer_id: String,
    },
    ViewerConnection {
        peer_id: String,
        state: ConnectionState,
    },
    /// A chat message from a viewer.
    Chat {
        peer_id: String,
        sender: String,
        text: String,
    },
    /// A share command failed; the broadcast stays as it was.
    ShareFailed {
        message: String,
    },
}

/// What a [`PresenterUpdate`] holds.
#[verifier::ext_equal]
#[allow(inconsistent_fields)]
pub enum PresenterUpdateView {
    Signaling { state: SignalingState },
    SharingState { state: SharingState },
    RoomExpiry { expires_in_seconds: u64 },
    JoinRequested { peer_id: Seq<char>, display_name: Option<Seq<char>>, friend_code: Option<Seq<char>> },
    ViewerJoined { peer_id: Seq<char>, display_name: Option<Seq<char>> },
    ViewerLeft { peer_id: Seq<char> },
    ViewerConnection { peer_id: Seq<char>, state: ConnectionState },
    Chat { peer_id: Seq<char>, sender: Seq<char>, text: Seq<char> },
    ShareFailed { message: Seq<char> },
}

impl View for PresenterUpdate {
    type V = PresenterUpdateView;

    open spec fn view(&self) -> PresenterUpdateView {
        match self {
            PresenterUpdate::Signaling { state } => PresenterUpdateView::Signaling {
                state: *state,
            },
            PresenterUpdate::SharingState { state } => PresenterUpdateView::SharingState {
                state: *state,
            },
            PresenterUpdate::RoomExpiry { expires_in_seconds } => PresenterUpdateView::RoomExpiry {
                expires_in_seconds: *expires_in_seconds,
            },
            PresenterUpdate::JoinRequested { peer_id, display_name, friend_code } => PresenterUpdateView::JoinRequested {
                peer_id: peer_id@,
                display_name: display_name.deep_view(),
                friend_code: friend_code.deep_view(),
            },
            PresenterUpdate::ViewerJoined { peer_id, display_name } => PresenterUpdateView::ViewerJoined {
                peer_id: peer_id@,
                display_name: display_name.deep_view(),
            },
            PresenterUpdate::ViewerLeft { peer_id } => PresenterUpdateView::ViewerLeft {
                peer_id: peer_id@,
            },
            PresenterUpdate::ViewerConnection { peer_id, state } => PresenterUpdateView::ViewerConnection {
                peer_id: peer_id@,
                state: *state,
            },
            PresenterUpdate::Chat { peer_id, sender, text } => PresenterUpdateView::Chat {
                peer_id: peer_id@,
                sender: sender@,
                text: text@,
            },
            PresenterUpdate::ShareFailed { message } => PresenterUpdateView::ShareFailed {
                message: message@,
            },
        }
    }
}

impl DeepView for PresenterUpdate {
    type V = PresenterUpdateView;

    open spec fn deep_view(&self) -> PresenterUpdateView {
        self@
    }
}

impl Clone for PresenterUpdate {
    fn clone(&self) -> (r: Self)
        ensures
            r@ == self@,
    {
        match self {
            PresenterUpdate::Signaling { state } => PresenterUpdate::Signaling {
                state: *state,
            },
            PresenterUpdate::SharingState { state } => PresenterUpdate::SharingState {
                state: *state,
            },
            PresenterUpdate::RoomExpiry { expires_in_seconds } => PresenterUpdate::RoomExpiry {
                expires_in_seconds: *expires_in_seconds,
            },
            PresenterUpdate::JoinRequested { peer_id, display_name, friend_code } => PresenterUpdate::JoinRequested {
                peer_id: peer_id.clone(),
                display_name: display_name.clone(),
                friend_code: friend_code.clone(),
            },
            PresenterUpdate::ViewerJoined { peer_id, display_name } => PresenterUpdate::ViewerJoined {
                peer_id: peer_id.clone(),
                display_name: display_name.clone(),
            },
            PresenterUpdate::ViewerLeft { peer_id } => PresenterUpdate::ViewerLeft {
                peer_id: peer_id.clone(),
            },
            PresenterUpdate::ViewerConnection { peer_id, state } => PresenterUpdate::ViewerConnection {
                peer_id: peer_id.clone(),
                state: *state,
            },
            PresenterUpdate::Chat { peer_id, sender, text } => PresenterUpdate::Chat {
                peer_id: peer_id.clone(),
                sender: sender.clone(),
                text: text.clone(),
            },
            PresenterUpdate::ShareFailed { message } => PresenterUpdate::ShareFailed {
                message: message.clone(),
            },
        }
    }
}

/// What a broadcast reports.
#[derive(Debug, PartialEq, Eq)]
pub enum BroadcastEvent {
    /// What a viewer said, where it could be read.
    Chat {
        peer_id: String,
        message: Option<ChatMessage>,
    },
    Offer {
        peer_id: String,
        sdp: String,
        ice_restart: bool,
    },
    IceCandidate {
        peer_id: String,
        candidate: String,
        sdp_m_line_index: u32,
    },
    ViewerConnection {
        peer_id: String,
        state: ConnectionState,
    },
    Ended {
        reason: String,
    },
}

/// What a [`BroadcastEvent`] holds.
#[verifier::ext_equal]
pub enum BroadcastEventView {
    Chat { peer_id: Seq<char>, message: Option<ChatMessageView> },
    Offer { peer_id: Seq<char>, sdp: Seq<char>, ice_restart: bool },
    IceCandidate { peer_id: Seq<char>, candidate: Seq<char>, sdp_m_line_index: u32 },
    ViewerConnection { peer_id: Seq<char>, state: ConnectionState },
    Ended { reason: Seq<char> },
}

impl View for BroadcastEvent {
    type V = BroadcastEventView;

    open spec fn view(&self) -> BroadcastEventView {
        match self {
            BroadcastEvent::Chat { peer_id, message } => BroadcastEventView::Chat {
                peer_id: peer_id@,
                message: message.deep_view(),
            },
            BroadcastEvent::Offer { peer_id, sdp, ice_restart } => BroadcastEventView::Offer {
                peer_id: peer_id@,
                sdp: sdp@,
                ice_restart: *ice_restart,
            },
            BroadcastEvent::IceCandidate { peer_id, candidate, sdp_m_line_index } => BroadcastEventView::IceCandidate {
                peer_id: peer_id@,
                candidate: candidate@,
                sdp_m_line_index: *sdp_m_line_index,
            },
            BroadcastEvent::ViewerConnection { peer_id, state } => BroadcastEventView::ViewerConnection {
                peer_id: peer_id@,
                state: *state,
            },
            BroadcastEvent::Ended { reason } => BroadcastEventView::Ended {
                reason: reason@,
            },
        }
    }
}

impl DeepView for BroadcastEvent {
    type V = BroadcastEventView;

    open spec fn deep_view(&self) -> BroadcastEventView {
        self@
    }
}

impl Clone for BroadcastEvent {
    fn clone(&self) -> (r: Self)
        ensures
            r@ == self@,
    {
        match self {
            BroadcastEvent::Chat { peer_id, message } => BroadcastEvent::Chat {
                peer_id: peer_id.clone(),
                message: message.clone(),
            },
            BroadcastEvent::Offer { peer_id, sdp, ice_restart } => BroadcastEvent::Offer {
                peer_id: peer_id.clone(),
                sdp: sdp.clone(),
                ice_restart: *ice_restart,
            },
            BroadcastEvent::IceCandidate { peer_id, candidate, sdp_m_line_index } => BroadcastEvent::IceCandidate {
                peer_id: peer_id.clone(),
                candidate: candidate.clone(),
                sdp_m_line_index: *sdp_m_line_index,
            },
            BroadcastEvent::ViewerConnection { peer_id, state } => BroadcastEvent::ViewerConnection {
                peer_id: peer_id.clone(),
                state: *state,
            },
            BroadcastEvent::Ended { reason } => BroadcastEvent::Ended {
                reason: reason.clone(),
            },
        }
    }
}

/// What a session has done, in order.
#[derive(Debug, PartialEq, Eq)]
#[allow(inconsistent_fields)]
pub enum PresenterAction {
    /// Send this to the server.
    Send {
        message: ClientMessage,
    },
    /// End the signaling connection.
    Disconnect {
        send_leave: bool,
    },
    /// Tell the host.
    Report {
        update: PresenterUpdate,
    },
    /// Send this to every viewer.
    SendChat {
        message: ChatMessage,
    },
    /// Pause the broadcast.
    Pause,
    /// Let a paused broadcast stream again.
    Resume,
    /// Gather candidates with these servers from now on.
    SetIce {
        configuration: IceConfiguration,
    },
    /// Restart ICE on a viewer's connection.
    RestartIce {
        peer_id: String,
    },
    /// Report when the recovery time of this viewer is over.
    AwaitRecovery {
        peer_id: String,
    },
    /// Close a viewer's connection.
    RemoveViewer {
        peer_id: String,
    },
    /// Stamp a viewer's relayed chat with this name.
    NameViewer {
        peer_id: String,
        display_name: Option<String>,
    },
    /// Apply an answer; one that is unusable is passed over.
    AcceptAnswer {
        peer_id: String,
        sdp: String,
    },
    /// Add a remote candidate.
    AddCandidate {
        peer_id: String,
        sdp_m_line_index: u32,
        candidate: String,
    },
    /// Close the broadcast.
    CloseBroadcast,
    /// Report shortly before the ICE configuration expires.
    ScheduleRefresh {
        expires_at: String,
    },
    /// Report when a refresh that got no answer is to be retried.
    RetryRefresh,
    /// Report when the time to confirm the close is over.
    AwaitClose,
}

/// What a [`PresenterAction`] holds.
#[verifier::ext_equal]
#[allow(inconsistent_fields)]
pub enum PresenterActionView {
    Send { message: ClientMessageView },
    Disconnect { send_leave: bool },
    Report { update: PresenterUpdateView },
    SendChat { message: ChatMessageView },
    Pause,
    Resume,
    SetIce { configuration: IceConfigurationView },
    RestartIce { peer_id: Seq<char> },
    AwaitRecovery { peer_id: Seq<char> },
    RemoveViewer { peer_id: Seq<char> },
    NameViewer { peer_id: Seq<char>, display_name: Option<Seq<char>> },
    AcceptAnswer { peer_id: Seq<char>, sdp: Seq<char> },
    AddCandidate { peer_id: Seq<char>, sdp_m_line_index: u32, candidate: Seq<char> },
    CloseBroadcast,
    ScheduleRefresh { expires_at: Seq<char> },
    RetryRefresh,
    AwaitClose,
}

impl View for PresenterAction {
    type V = PresenterActionView;

    open spec fn view(&self) -> PresenterActionView {
        match self {
            PresenterAction::Send { message } => PresenterActionView::Send {
                message: message@,
            },
            PresenterAction::Disconnect { send_leave } => PresenterActionView::Disconnect {
                send_leave: *send_leave,
            },
            PresenterAction::Report { update } => PresenterActionView::Report {
                update: update@,
            },
            PresenterAction::SendChat { message } => PresenterActionView::SendChat {
                message: message@,
            },
            PresenterAction::Pause => PresenterActionView::Pause,
            PresenterAction::Resume => PresenterActionView::Resume,
            PresenterAction::SetIce { configuration } => PresenterActionView::SetIce {
                configuration: configuration@,
            },
            PresenterAction::RestartIce { peer_id } => PresenterActionView::RestartIce {
                peer_id: peer_id@,
            },
            PresenterAction::AwaitRecovery { peer_id } => PresenterActionView::AwaitRecovery {
                peer_id: peer_id@,
            },
            PresenterAction::RemoveViewer { peer_id } => PresenterActionView::RemoveViewer {
                peer_id: peer_id@,
            },
            PresenterAction::NameViewer { peer_id, display_name } => PresenterActionView::NameViewer {
                peer_id: peer_id@,
                display_name: display_name.deep_view(),
            },
            PresenterAction::AcceptAnswer { peer_id, sdp } => PresenterActionView::AcceptAnswer {
                peer_id: peer_id@,
                sdp: sdp@,
            },
            PresenterAction::AddCandidate { peer_id, sdp_m_line_index, candidate } => PresenterActionView::AddCandidate {
                peer_id: peer_id@,
                sdp_m_line_index: *sdp_m_line_index,
                candidate: candidate@,
            },
            PresenterAction::CloseBroadcast => PresenterActionView::CloseBroadcast,
            PresenterAction::ScheduleRefresh { expires_at } => PresenterActionView::ScheduleRefresh {
                expires_at: expires_at@,
            },
            PresenterAction::RetryRefresh => PresenterActionView::RetryRefresh,
            PresenterAction::AwaitClose => PresenterActionView::AwaitClose,
        }
    }
}

impl DeepView for PresenterAction {
    type V = PresenterActionView;

    open spec fn deep_view(&self) -> PresenterActionView {
        self@
    }
}

impl Clone for PresenterAction {
    fn clone(&self) -> (r: Self)
        ensures
            r@ == self@,
    {
        match self {
            PresenterAction::Send { message } => PresenterAction::Send {
                message: message.clone(),
            },
            PresenterAction::Disconnect { send_leave } => PresenterAction::Disconnect {
                send_leave: *send_leave,
            },
            PresenterAction::Report { update } => PresenterAction::Report {
                update: update.clone(),
            },
            PresenterAction::SendChat { message } => PresenterAction::SendChat {
                message: message.clone(),
            },
            PresenterAction::Pause => PresenterAction::Pause,
            PresenterAction::Resume => PresenterAction::Resume,
            PresenterAction::SetIce { configuration } => PresenterAction::SetIce {
                configuration: configuration.clone(),
            },
            PresenterAction::RestartIce { peer_id } => PresenterAction::RestartIce {
                peer_id: peer_id.clone(),
            },
            PresenterAction::AwaitRecovery { peer_id } => PresenterAction::AwaitRecovery {
                peer_id: peer_id.clone(),
            },
            PresenterAction::RemoveViewer { peer_id } => PresenterAction::RemoveViewer {
                peer_id: peer_id.clone(),
            },
            PresenterAction::NameViewer { peer_id, display_name } => PresenterAction::NameViewer {
                peer_id: peer_id.clone(),
                display_name: display_name.clone(),
            },
            PresenterAction::AcceptAnswer { peer_id, sdp } => PresenterAction::AcceptAnswer {
                peer_id: peer_id.clone(),
                sdp: sdp.clone(),
            },
            PresenterAction::AddCandidate { peer_id, sdp_m_line_index, candidate } => PresenterAction::AddCandidate {
                peer_id: peer_id.clone(),
                sdp_m_line_index: *sdp_m_line_index,
                candidate: candidate.clone(),
            },
            PresenterAction::CloseBroadcast => PresenterAction::CloseBroadcast,
            PresenterAction::ScheduleRefresh { expires_at } => PresenterAction::ScheduleRefresh {
                expires_at: expires_at.clone(),
            },
            PresenterAction::RetryRefresh => PresenterAction::RetryRefresh,
            PresenterAction::AwaitClose => PresenterAction::AwaitClose,
        }
    }
}

/// What a session needs done before it goes on. The answer is whether it could
/// be done.
#[derive(Debug, PartialEq, Eq)]
#[allow(inconsistent_fields)]
pub enum PresenterCall {
    /// Start the broadcast with this capture, or idle.
    Start {
        source: Option<u64>,
        configuration: IceConfiguration,
    },
    /// Make this the shared capture.
    Replace {
        source: u64,
    },
    /// End the shared capture.
    Idle,
    /// Create a connection for a viewer.
    Add {
        peer_id: String,
        display_name: Option<String>,
    },
    /// Create a connection anew for a viewer.
    Rebuild {
        peer_id: String,
    },
}

/// What a [`PresenterCall`] holds.
#[verifier::ext_equal]
#[allow(inconsistent_fields)]
pub enum PresenterCallView {
    Start { source: Option<u64>, configuration: IceConfigurationView },
    Replace { source: u64 },
    Idle,
    Add { peer_id: Seq<char>, display_name: Option<Seq<char>> },
    Rebuild { peer_id: Seq<char> },
}

impl View for PresenterCall {
    type V = PresenterCallView;

    open spec fn view(&self) -> PresenterCallView {
        match self {
            PresenterCall::Start { source, configuration } => PresenterCallView::Start {
                source: *source,
                configuration: configuration@,
            },
            PresenterCall::Replace { source } => PresenterCallView::Replace {
                source: *source,
            },
            PresenterCall::Idle => PresenterCallView::Idle,
            PresenterCall::Add { peer_id, display_name } => PresenterCallView::Add {
                peer_id: peer_id@,
                display_name: display_name.deep_view(),
            },
            PresenterCall::Rebuild { peer_id } => PresenterCallView::Rebuild {
                peer_id: peer_id@,
            },
        }
    }
}

impl DeepView for PresenterCall {
    type V = PresenterCallView;

    open spec fn deep_view(&self) -> PresenterCallView {
        self@
    }
}

impl Clone for PresenterCall {
    fn clone(&self) -> (r: Self)
        ensures
            r@ == self@,
    {
        match self {
            PresenterCall::Start { source, configuration } => PresenterCall::Start {
                source: *source,
                configuration: configuration.clone(),
            },
            PresenterCall::Replace { source } => PresenterCall::Replace {
                source: *source,
            },
            PresenterCall::Idle => PresenterCall::Idle,
            PresenterCall::Add { peer_id, display_name } => PresenterCall::Add {
                peer_id: peer_id.clone(),
                display_name: display_name.clone(),
            },
            PresenterCall::Rebuild { peer_id } => PresenterCall::Rebuild {
                peer_id: peer_id.clone(),
            },
        }
    }
}

/// Whether a session goes on.
#[derive(Debug, PartialEq, Eq)]
pub enum PresenterOutcome {
    Continue,
    Ended {
        end: PresenterEnd,
    },
    Failed {
        error: PresenterError,
    },
}

/// What a [`PresenterOutcome`] holds.
#[verifier::ext_equal]
pub enum PresenterOutcomeView {
    Continue,
    Ended { end: PresenterEnd },
    Failed { error: PresenterErrorView },
}

impl View for PresenterOutcome {
    type V = PresenterOutcomeView;

    open spec fn view(&self) -> PresenterOutcomeView {
        match self {
            PresenterOutcome::Continue => PresenterOutcomeView::Continue,
            PresenterOutcome::Ended { end } => PresenterOutcomeView::Ended {
                end: *end,
            },
            PresenterOutcome::Failed { error } => PresenterOutcomeView::Failed {
                error: error@,
            },
        }
    }
}

impl DeepView for PresenterOutcome {
    type V = PresenterOutcomeView;

    open spec fn deep_view(&self) -> PresenterOutcomeView {
        self@
    }
}

impl Clone for PresenterOutcome {
    fn clone(&self) -> (r: Self)
        ensures
            r@ == self@,
    {
        match self {
            PresenterOutcome::Continue => PresenterOutcome::Continue,
            PresenterOutcome::Ended { end } => PresenterOutcome::Ended {
                end: *end,
            },
            PresenterOutcome::Failed { error } => PresenterOutcome::Failed {
                error: error.clone(),
            },
        }
    }
}

/// What a session still has to do once it has its answer.
#[derive(Debug, PartialEq, Eq)]
pub enum PresenterTask {
    /// Tell the server and the host how the room is shared.
    Converge,
    /// Report the expiry and the waiting viewers.
    Note {
        snapshot: RoomSnapshot,
    },
    /// Give an approved viewer a connection.
    Admit {
        viewer: PeerSnapshot,
    },
    /// Drop the connections of everyone else.
    Settle {
        approved: Vec<String>,
    },
}

/// What a [`PresenterTask`] holds.
#[verifier::ext_equal]
pub enum PresenterTaskView {
    Converge,
    Note { snapshot: RoomSnapshotView },
    Admit { viewer: PeerSnapshotView },
    Settle { approved: Seq<Seq<char>> },
}

impl View for PresenterTask {
    type V = PresenterTaskView;

    open spec fn view(&self) -> PresenterTaskView {
        match self {
            PresenterTask::Converge => PresenterTaskView::Converge,
            PresenterTask::Note { snapshot } => PresenterTaskView::Note {
                snapshot: snapshot@,
            },
            PresenterTask::Admit { viewer } => PresenterTaskView::Admit {
                viewer: viewer@,
            },
            PresenterTask::Settle { approved } => PresenterTaskView::Settle {
                approved: approved.deep_view(),
            },
        }
    }
}

impl DeepView for PresenterTask {
    type V = PresenterTaskView;

    open spec fn deep_view(&self) -> PresenterTaskView {
        self@
    }
}

impl Clone for PresenterTask {
    fn clone(&self) -> (r: Self)
        ensures
            r@ == self@,
    {
        match self {
            PresenterTask::Converge => PresenterTask::Converge,
            PresenterTask::Note { snapshot } => PresenterTask::Note {
                snapshot: snapshot.clone(),
            },
            PresenterTask::Admit { viewer } => PresenterTask::Admit {
                viewer: viewer.clone(),
            },
            PresenterTask::Settle { approved } => {
                let approved_copy = approved.clone();
                assert(approved_copy.deep_view() =~= approved.deep_view());
                PresenterTask::Settle {
                    approved: approved_copy,
                }
            },
        }
    }
}

} // verus!
