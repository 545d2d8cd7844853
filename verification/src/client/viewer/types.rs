//! What goes into a viewer session and what comes out of it.
use vstd::prelude::*;
use vstd::string::*;

use crate::client::presenter::types::ConnectionState;
use crate::client::signaling::SignalingState;
use crate::protocol::{
    ChatMessage, ChatMessageView, ClientMessage, ClientMessageView, IceConfiguration,
    IceConfigurationView, SharingState,
};

verus! {

/// How far a viewer has come.
#[derive(Debug, Clone, Copy, PartialEq, Eq, Structural)]
pub enum ViewerPhase {
    Connecting,
    AwaitingApproval,
    Negotiating,
    Live,
}

impl DeepView for ViewerPhase {
    type V = ViewerPhase;

    open spec fn deep_view(&self) -> ViewerPhase {
        *self
    }
}

/// How a session ended, when it ended on the room's terms.
#[derive(Debug, Clone, Copy, PartialEq, Eq, Structural)]
pub enum EndReason {
    RoomClosed,
    RoomExpired,
    Rejected,
    Kicked,
    /// The host asked to leave.
    Left,
}

impl DeepView for EndReason {
    type V = EndReason;

    open spec fn deep_view(&self) -> EndReason {
        *self
    }
}

/// Why a session failed.
#[derive(Debug, PartialEq, Eq)]
pub enum ViewerError {
    AuthenticationFailed {
        message: String,
    },
    PlaybackStart {
        message: String,
    },
    Playback {
        reason: String,
    },
    SignalingEnded,
}

/// What a [`ViewerError`] holds.
#[verifier::ext_equal]
pub enum ViewerErrorView {
    AuthenticationFailed { message: Seq<char> },
    PlaybackStart { message: Seq<char> },
    Playback { reason: Seq<char> },
    SignalingEnded,
}

impl View for ViewerError {
    type V = ViewerErrorView;

    open spec fn view(&self) -> ViewerErrorView {
        match self {
            ViewerError::AuthenticationFailed { message } => ViewerErrorView::AuthenticationFailed {
                message: message@,
            },
            ViewerError::PlaybackStart { message } => ViewerErrorView::PlaybackStart {
                message: message@,
            },
            ViewerError::Playback { reason } => ViewerErrorView::Playback {
                reason: reason@,
            },
            ViewerError::SignalingEnded => ViewerErrorView::SignalingEnded,
        }
    }
}

impl DeepView for ViewerError {
    type V = ViewerErrorView;

    open spec fn deep_view(&self) -> ViewerErrorView {
        self@
    }
}

impl Clone for ViewerError {
    fn clone(&self) -> (r: Self)
        ensures
            r@ == self@,
    {
        match self {
            ViewerError::AuthenticationFailed { message } => ViewerError::AuthenticationFailed {
                message: message.clone(),
            },
            ViewerError::PlaybackStart { message } => ViewerError::PlaybackStart {
                message: message.clone(),
            },
            ViewerError::Playback { reason } => ViewerError::Playback {
                reason: reason.clone(),
            },
            ViewerError::SignalingEnded => ViewerError::SignalingEnded,
        }
    }
}

/// What a host asks of a running session.
#[derive(Debug, PartialEq, Eq)]
pub enum ViewerCommand {
    /// Send a chat message to the room.
    Chat {
        text: String,
    },
    /// Rename this viewer for the room and for chat.
    SetDisplayName {
        name: String,
    },
    /// Ask the presenter for an ICE restart now.
    RestartIce,
    /// Leave the room; only this viewer is removed.
    Leave,
}

/// What a [`ViewerCommand`] holds.
#[verifier::ext_equal]
pub enum ViewerCommandView {
    Chat { text: Seq<char> },
    SetDisplayName { name: Seq<char> },
    RestartIce,
    Leave,
}

impl View for ViewerCommand {
    type V = ViewerCommandView;

    open spec fn view(&self) -> ViewerCommandView {
        match self {
            ViewerCommand::Chat { text } => ViewerCommandView::Chat {
                text: text@,
            },
            ViewerCommand::SetDisplayName { name } => ViewerCommandView::SetDisplayName {
                name: name@,
            },
            ViewerCommand::RestartIce => ViewerCommandView::RestartIce,
            ViewerCommand::Leave => ViewerCommandView::Leave,
        }
    }
}

impl DeepView for ViewerCommand {
    type V = ViewerCommandView;

    open spec fn deep_view(&self) -> ViewerCommandView {
        self@
    }
}

impl Clone for ViewerCommand {
    fn clone(&self) -> (r: Self)
        ensures
            r@ == self@,
    {
        match self {
            ViewerCommand::Chat { text } => ViewerCommand::Chat {
                text: text.clone(),
            },
            ViewerCommand::SetDisplayName { name } => ViewerCommand::SetDisplayName {
                name: name.clone(),
            },
            ViewerCommand::RestartIce => ViewerCommand::RestartIce,
            ViewerCommand::Leave => ViewerCommand::Leave,
        }
    }
}

/// Progress reports for whatever hosts the session.
#[derive(Debug, PartialEq, Eq)]
#[allow(inconsistent_fields)]
pub enum ViewerUpdate {
    Signaling {
        state: SignalingState,
    },
    Phase {
        phase: ViewerPhase,
    },
    SharingState {
        state: SharingState,
    },
    /// Seconds until the room expires, by the clock of the server.
    RoomExpiry {
        expires_in_seconds: u64,
    },
    PresenterConnected {
        connected: bool,
    },
    Connection {
        state: ConnectionState,
    },
    /// A chat message from the room.
    Chat {
        sender: String,
        text: String,
    },
}

/// What a [`ViewerUpdate`] holds.
#[verifier::ext_equal]
#[allow(inconsistent_fields)]
pub enum ViewerUpdateView {
    Signaling { state: SignalingState },
    Phase { phase: ViewerPhase },
    SharingState { state: SharingState },
    RoomExpiry { expires_in_seconds: u64 },
    PresenterConnected { connected: bool },
    Connection { state: ConnectionState },
    Chat { sender: Seq<char>, text: Seq<char> },
}

impl View for ViewerUpdate {
    type V = ViewerUpdateView;

    open spec fn view(&self) -> ViewerUpdateView {
        match self {
            ViewerUpdate::Signaling { state } => ViewerUpdateView::Signaling {
                state: *state,
            },
            ViewerUpdate::Phase { phase } => ViewerUpdateView::Phase {
                phase: *phase,
            },
            ViewerUpdate::SharingState { state } => ViewerUpdateView::SharingState {
                state: *state,
            },
            ViewerUpdate::RoomExpiry { expires_in_seconds } => ViewerUpdateView::RoomExpiry {
                expires_in_seconds: *expires_in_seconds,
            },
            ViewerUpdate::PresenterConnected { connected } => ViewerUpdateView::PresenterConnected {
                connected: *connected,
            },
            ViewerUpdate::Connection { state } => ViewerUpdateView::Connection {
                state: *state,
            },
            ViewerUpdate::Chat { sender, text } => ViewerUpdateView::Chat {
                sender: sender@,
                text: text@,
            },
        }
    }
}

impl DeepView for ViewerUpdate {
    type V = ViewerUpdateView;

    open spec fn deep_view(&self) -> ViewerUpdateView {
        self@
    }
}

impl Clone for ViewerUpdate {
    fn clone(&self) -> (r: Self)
        ensures
            r@ == self@,
    {
        match self {
            ViewerUpdate::Signaling { state } => ViewerUpdate::Signaling {
                state: *state,
            },
            ViewerUpdate::Phase { phase } => ViewerUpdate::Phase {
                phase: *phase,
            },
            ViewerUpdate::SharingState { state } => ViewerUpdate::SharingState {
                state: *state,
            },
            ViewerUpdate::RoomExpiry { expires_in_seconds } => ViewerUpdate::RoomExpiry {
                expires_in_seconds: *expires_in_seconds,
            },
            ViewerUpdate::PresenterConnected { connected } => ViewerUpdate::PresenterConnected {
                connected: *connected,
            },
            ViewerUpdate::Connection { state } => ViewerUpdate::Connection {
                state: *state,
            },
            ViewerUpdate::Chat { sender, text } => ViewerUpdate::Chat {
                sender: sender.clone(),
                text: text.clone(),
            },
        }
    }
}

/// What a playback reports.
#[derive(Debug, PartialEq, Eq)]
pub enum PlaybackEvent {
    Answer {
        sdp: String,
    },
    IceCandidate {
        candidate: String,
        sdp_m_line_index: u32,
    },
    ConnectionState {
        state: ConnectionState,
    },
    /// What was said, where it could be read.
    Chat {
        message: Option<ChatMessage>,
    },
    Ended {
        reason: String,
    },
}

/// What a [`PlaybackEvent`] holds.
#[verifier::ext_equal]
pub enum PlaybackEventView {
    Answer { sdp: Seq<char> },
    IceCandidate { candidate: Seq<char>, sdp_m_line_index: u32 },
    ConnectionState { state: ConnectionState },
    Chat { message: Option<ChatMessageView> },
    Ended { reason: Seq<char> },
}

impl View for PlaybackEvent {
    type V = PlaybackEventView;

    open spec fn view(&self) -> PlaybackEventView {
        match self {
            PlaybackEvent::Answer { sdp } => PlaybackEventView::Answer {
                sdp: sdp@,
            },
            PlaybackEvent::IceCandidate { candidate, sdp_m_line_index } => PlaybackEventView::IceCandidate {
                candidate: candidate@,
                sdp_m_line_index: *sdp_m_line_index,
            },
            PlaybackEvent::ConnectionState { state } => PlaybackEventView::ConnectionState {
                state: *state,
            },
            PlaybackEvent::Chat { message } => PlaybackEventView::Chat {
                message: message.deep_view(),
            },
            PlaybackEvent::Ended { reason } => PlaybackEventView::Ended {
                reason: reason@,
            },
        }
    }
}

impl DeepView for PlaybackEvent {
    type V = PlaybackEventView;

    open spec fn deep_view(&self) -> PlaybackEventView {
        self@
    }
}

impl Clone for PlaybackEvent {
    fn clone(&self) -> (r: Self)
        ensures
            r@ == self@,
    {
        match self {
            PlaybackEvent::Answer { sdp } => PlaybackEvent::Answer {
                sdp: sdp.clone(),
            },
            PlaybackEvent::IceCandidate { candidate, sdp_m_line_index } => PlaybackEvent::IceCandidate {
                candidate: candidate.clone(),
                sdp_m_line_index: *sdp_m_line_index,
            },
            PlaybackEvent::ConnectionState { state } => PlaybackEvent::ConnectionState {
                state: *state,
            },
            PlaybackEvent::Chat { message } => PlaybackEvent::Chat {
                message: message.clone(),
            },
            PlaybackEvent::Ended { reason } => PlaybackEvent::Ended {
                reason: reason.clone(),
            },
        }
    }
}

/// What a session has done, in order.
#[derive(Debug, PartialEq, Eq)]
#[allow(inconsistent_fields)]
pub enum ViewerAction {
    /// Send this to the server.
    Send {
        message: ClientMessage,
    },
    /// End the signaling connection, announcing the departure or not.
    Disconnect {
        send_leave: bool,
    },
    /// Tell the host.
    Report {
        update: ViewerUpdate,
    },
    /// Send this to the room.
    SendChat {
        message: ChatMessage,
    },
    /// Add a remote candidate.
    AddCandidate {
        sdp_m_line_index: u32,
        candidate: String,
    },
    /// Close the playback.
    ClosePlayback,
    /// Report shortly before the ICE configuration expires.
    ScheduleRefresh {
        expires_at: String,
    },
    /// Report when a refresh that got no answer is to be retried.
    RetryRefresh,
    /// Report when the time for a connection to heal is over.
    AwaitRestartCheck,
}

/// What a [`ViewerAction`] holds.
#[verifier::ext_equal]
#[allow(inconsistent_fields)]
pub enum ViewerActionView {
    Send { message: ClientMessageView },
    Disconnect { send_leave: bool },
    Report { update: ViewerUpdateView },
    SendChat { message: ChatMessageView },
    AddCandidate { sdp_m_line_index: u32, candidate: Seq<char> },
    ClosePlayback,
    ScheduleRefresh { expires_at: Seq<char> },
    RetryRefresh,
    AwaitRestartCheck,
}

impl View for ViewerAction {
    type V = ViewerActionView;

    open spec fn view(&self) -> ViewerActionView {
        match self {
            ViewerAction::Send { message } => ViewerActionView::Send {
                message: message@,
            },
            ViewerAction::Disconnect { send_leave } => ViewerActionView::Disconnect {
                send_leave: *send_leave,
            },
            ViewerAction::Report { update } => ViewerActionView::Report {
                update: update@,
            },
            ViewerAction::SendChat { message } => ViewerActionView::SendChat {
                message: message@,
            },
            ViewerAction::AddCandidate { sdp_m_line_index, candidate } => ViewerActionView::AddCandidate {
                sdp_m_line_index: *sdp_m_line_index,
                candidate: candidate@,
            },
            ViewerAction::ClosePlayback => ViewerActionView::ClosePlayback,
            ViewerAction::ScheduleRefresh { expires_at } => ViewerActionView::ScheduleRefresh {
                expires_at: expires_at@,
            },
            ViewerAction::RetryRefresh => ViewerActionView::RetryRefresh,
            ViewerAction::AwaitRestartCheck => ViewerActionView::AwaitRestartCheck,
        }
    }
}

impl DeepView for ViewerAction {
    type V = ViewerActionView;

    open spec fn deep_view(&self) -> ViewerActionView {
        self@
    }
}

impl Clone for ViewerAction {
    fn clone(&self) -> (r: Self)
        ensures
            r@ == self@,
    {
        match self {
            ViewerAction::Send { message } => ViewerAction::Send {
                message: message.clone(),
            },
            ViewerAction::Disconnect { send_leave } => ViewerAction::Disconnect {
                send_leave: *send_leave,
            },
            ViewerAction::Report { update } => ViewerAction::Report {
                update: update.clone(),
            },
            ViewerAction::SendChat { message } => ViewerAction::SendChat {
                message: message.clone(),
            },
            ViewerAction::AddCandidate { sdp_m_line_index, candidate } => ViewerAction::AddCandidate {
                sdp_m_line_index: *sdp_m_line_index,
                candidate: candidate.clone(),
            },
            ViewerAction::ClosePlayback => ViewerAction::ClosePlayback,
            ViewerAction::ScheduleRefresh { expires_at } => ViewerAction::ScheduleRefresh {
                expires_at: expires_at.clone(),
            },
            ViewerAction::RetryRefresh => ViewerAction::RetryRefresh,
            ViewerAction::AwaitRestartCheck => ViewerAction::AwaitRestartCheck,
        }
    }
}

/// What a session needs done before it goes on. The answer is whether it could
/// be done.
#[derive(Debug, PartialEq, Eq)]
pub enum ViewerCall {
    /// Start a playback.
    Start {
        configuration: IceConfiguration,
    },
    /// Answer this offer with the playback.
    AcceptOffer {
        sdp: String,
    },
}

/// What a [`ViewerCall`] holds.
#[verifier::ext_equal]
pub enum ViewerCallView {
    Start { configuration: IceConfigurationView },
    AcceptOffer { sdp: Seq<char> },
}

impl View for ViewerCall {
    type V = ViewerCallView;

    open spec fn view(&self) -> ViewerCallView {
        match self {
            ViewerCall::Start { configuration } => ViewerCallView::Start {
                configuration: configuration@,
            },
            ViewerCall::AcceptOffer { sdp } => ViewerCallView::AcceptOffer {
                sdp: sdp@,
            },
        }
    }
}

impl DeepView for ViewerCall {
    type V = ViewerCallView;

    open spec fn deep_view(&self) -> ViewerCallView {
        self@
    }
}

impl Clone for ViewerCall {
    fn clone(&self) -> (r: Self)
        ensures
            r@ == self@,
    {
        match self {
            ViewerCall::Start { configuration } => ViewerCall::Start {
                configuration: configuration.clone(),
            },
            ViewerCall::AcceptOffer { sdp } => ViewerCall::AcceptOffer {
                sdp: sdp.clone(),
            },
        }
    }
}

/// Whether a session goes on.
#[derive(Debug, PartialEq, Eq)]
pub enum ViewerOutcome {
    Continue,
    Ended {
        end: EndReason,
    },
    Failed {
        error: ViewerError,
    },
}

/// What a [`ViewerOutcome`] holds.
#[verifier::ext_equal]
pub enum ViewerOutcomeView {
    Continue,
    Ended { end: EndReason },
    Failed { error: ViewerErrorView },
}

impl View for ViewerOutcome {
    type V = ViewerOutcomeView;

    open spec fn view(&self) -> ViewerOutcomeView {
        match self {
            ViewerOutcome::Continue => ViewerOutcomeView::Continue,
            ViewerOutcome::Ended { end } => ViewerOutcomeView::Ended {
                end: *end,
            },
            ViewerOutcome::Failed { error } => ViewerOutcomeView::Failed {
                error: error@,
            },
        }
    }
}

impl DeepView for ViewerOutcome {
    type V = ViewerOutcomeView;

    open spec fn deep_view(&self) -> ViewerOutcomeView {
        self@
    }
}

impl Clone for ViewerOutcome {
    fn clone(&self) -> (r: Self)
        ensures
            r@ == self@,
    {
        match self {
            ViewerOutcome::Continue => ViewerOutcome::Continue,
            ViewerOutcome::Ended { end } => ViewerOutcome::Ended {
                end: *end,
            },
            ViewerOutcome::Failed { error } => ViewerOutcome::Failed {
                error: error.clone(),
            },
        }
    }
}

} // verus!
