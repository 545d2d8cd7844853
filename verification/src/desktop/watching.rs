//! What the window shows of the room that it watches.
use vstd::prelude::*;
use vstd::string::*;

use super::hosting::{ChatMessage, ChatMessageView};
use super::moments;
use super::moments::{BitrateHistory, Moment, RoomCountdown};
use crate::client::invite::InvitationError;
use crate::client::presenter::types::ConnectionState;
use crate::client::signaling::SignalingState;
use crate::client::viewer::types::{
    EndReason, ViewerErrorView, ViewerPhase, ViewerUpdate, ViewerUpdateView,
};
use crate::client::viewer::ViewerError;
use crate::protocol::SharingState;

verus! {

/// The session that watches a room.
pub struct ViewerView {
    /// There is a session.
    pub active: bool,
    /// The stream has connected.
    pub live: bool,
    pub status: String,
    /// How the room is shared, once that is known.
    pub sharing: Option<SharingState>,
    /// The connection dropped and is being recovered.
    pub reconnecting: bool,
    pub presenter_connected: bool,
    pub room_code: Option<String>,
    pub countdown: Option<RoomCountdown>,
    pub frame_size: Option<(u32, u32)>,
    /// The video is shown below the window instead of in it.
    pub native_video: bool,
    pub bitrate_kbps: Option<u32>,
    /// The round trip in microseconds.
    pub round_trip_us: Option<u64>,
    pub packets_lost: Option<i64>,
    /// How many packets were received in all.
    pub packets_received: Option<u64>,
    /// Frames in a thousand seconds.
    pub milli_fps: Option<u64>,
    pub codec: Option<String>,
    pub messages: Vec<ChatMessage>,
    /// The incoming bitrate of the last minute.
    pub bitrate_history: BitrateHistory,
}

/// What a [`ViewerView`] holds.
#[verifier::ext_equal]
pub struct WatchingModel {
    pub active: bool,
    pub live: bool,
    pub status: Seq<char>,
    pub sharing: Option<SharingState>,
    pub reconnecting: bool,
    pub presenter_connected: bool,
    pub room_code: Option<Seq<char>>,
    pub countdown: Option<RoomCountdown>,
    pub frame_size: Option<(u32, u32)>,
    pub native_video: bool,
    pub bitrate_kbps: Option<u32>,
    pub round_trip_us: Option<u64>,
    pub packets_lost: Option<i64>,
    pub packets_received: Option<u64>,
    pub milli_fps: Option<u64>,
    pub codec: Option<Seq<char>>,
    pub messages: Seq<ChatMessageView>,
    pub bitrate_history: Seq<(Moment, u32)>,
}

impl View for ViewerView {
    type V = WatchingModel;

    open spec fn view(&self) -> WatchingModel {
        WatchingModel {
            active: self.active,
            live: self.live,
            status: self.status@,
            sharing: self.sharing,
            reconnecting: self.reconnecting,
            presenter_connected: self.presenter_connected,
            room_code: self.room_code.deep_view(),
            countdown: self.countdown,
            frame_size: self.frame_size,
            native_video: self.native_video,
            bitrate_kbps: self.bitrate_kbps,
            round_trip_us: self.round_trip_us,
            packets_lost: self.packets_lost,
            packets_received: self.packets_received,
            milli_fps: self.milli_fps,
            codec: self.codec.deep_view(),
            messages: self.messages.deep_view(),
            bitrate_history: self.bitrate_history@,
        }
    }
}

impl DeepView for ViewerView {
    type V = WatchingModel;

    open spec fn deep_view(&self) -> WatchingModel {
        self@
    }
}

/// What was measured of the stream.
#[derive(Debug, PartialEq, Eq)]
pub struct StreamStats {
    pub bitrate_kbps: Option<u32>,
    pub round_trip_us: Option<u64>,
    pub packets_lost: Option<i64>,
    pub packets_received: Option<u64>,
    pub milli_fps: Option<u64>,
    pub codec: Option<String>,
    pub width: Option<u32>,
    pub height: Option<u32>,
}

/// What a [`StreamStats`] holds.
#[verifier::ext_equal]
pub struct StreamStatsView {
    pub bitrate_kbps: Option<u32>,
    pub round_trip_us: Option<u64>,
    pub packets_lost: Option<i64>,
    pub packets_received: Option<u64>,
    pub milli_fps: Option<u64>,
    pub codec: Option<Seq<char>>,
    pub width: Option<u32>,
    pub height: Option<u32>,
}

impl View for StreamStats {
    type V = StreamStatsView;

    open spec fn view(&self) -> StreamStatsView {
        StreamStatsView {
            bitrate_kbps: self.bitrate_kbps,
            round_trip_us: self.round_trip_us,
            packets_lost: self.packets_lost,
            packets_received: self.packets_received,
            milli_fps: self.milli_fps,
            codec: self.codec.deep_view(),
            width: self.width,
            height: self.height,
        }
    }
}

impl DeepView for StreamStats {
    type V = StreamStatsView;

    open spec fn deep_view(&self) -> StreamStatsView {
        self@
    }
}

impl Clone for StreamStats {
    fn clone(&self) -> (r: Self)
        ensures
            r@ == self@,
    {
        let r = StreamStats {
            bitrate_kbps: self.bitrate_kbps,
            round_trip_us: self.round_trip_us,
            packets_lost: self.packets_lost,
            packets_received: self.packets_received,
            milli_fps: self.milli_fps,
            codec: self.codec.clone(),
            width: self.width,
            height: self.height,
        };
        r
    }
}

/// What happens to the watched room.
#[derive(Debug, PartialEq, Eq)]
pub enum WatchingEvent {
    Status(String),
    Live,
    Sharing(SharingState),
    Expiry(u64),
    PresenterConnected(bool),
    Reconnecting(bool),
    Stats(StreamStats),
    Chat {
        sender: String,
        text: String,
    },
    NativeSurface,
    Ended(String),
}

/// What a [`WatchingEvent`] holds.
#[verifier::ext_equal]
pub enum WatchingEventView {
    Status(Seq<char>),
    Live,
    Sharing(SharingState),
    Expiry(u64),
    PresenterConnected(bool),
    Reconnecting(bool),
    Stats(StreamStatsView),
    Chat { sender: Seq<char>, text: Seq<char> },
    NativeSurface,
    Ended(Seq<char>),
}

impl View for WatchingEvent {
    type V = WatchingEventView;

    open spec fn view(&self) -> WatchingEventView {
        match self {
            WatchingEvent::Status(first) => WatchingEventView::Status(first@),
            WatchingEvent::Live => WatchingEventView::Live,
            WatchingEvent::Sharing(first) => WatchingEventView::Sharing(*first),
            WatchingEvent::Expiry(first) => WatchingEventView::Expiry(*first),
            WatchingEvent::PresenterConnected(first) => WatchingEventView::PresenterConnected(*first),
            WatchingEvent::Reconnecting(first) => WatchingEventView::Reconnecting(*first),
            WatchingEvent::Stats(first) => WatchingEventView::Stats(first@),
            WatchingEvent::Chat { sender, text } => WatchingEventView::Chat {
                sender: sender@,
                text: text@,
            },
            WatchingEvent::NativeSurface => WatchingEventView::NativeSurface,
            WatchingEvent::Ended(first) => WatchingEventView::Ended(first@),
        }
    }
}

impl DeepView for WatchingEvent {
    type V = WatchingEventView;

    open spec fn deep_view(&self) -> WatchingEventView {
        self@
    }
}

impl Clone for WatchingEvent {
    fn clone(&self) -> (r: Self)
        ensures
            r@ == self@,
    {
        match self {
            WatchingEvent::Status(first) => WatchingEvent::Status(first.clone()),
            WatchingEvent::Live => WatchingEvent::Live,
            WatchingEvent::Sharing(first) => WatchingEvent::Sharing(*first),
            WatchingEvent::Expiry(first) => WatchingEvent::Expiry(*first),
            WatchingEvent::PresenterConnected(first) => WatchingEvent::PresenterConnected(*first),
            WatchingEvent::Reconnecting(first) => WatchingEvent::Reconnecting(*first),
            WatchingEvent::Stats(first) => WatchingEvent::Stats(first.clone()),
            WatchingEvent::Chat { sender, text } => WatchingEvent::Chat {
                sender: sender.clone(),
                text: text.clone(),
            },
            WatchingEvent::NativeSurface => WatchingEvent::NativeSurface,
            WatchingEvent::Ended(first) => WatchingEvent::Ended(first.clone()),
        }
    }
}

impl WatchingModel {
    /// No session.
    pub open spec fn blank() -> WatchingModel {
        WatchingModel {
            active: false,
            live: false,
            status: Seq::empty(),
            sharing: None,
            reconnecting: false,
            presenter_connected: false,
            room_code: None,
            countdown: None,
            frame_size: None,
            native_video: false,
            bitrate_kbps: None,
            round_trip_us: None,
            packets_lost: None,
            packets_received: None,
            milli_fps: None,
            codec: None,
            messages: Seq::empty(),
            bitrate_history: Seq::empty(),
        }
    }

    /// Whether the presenter's picture is to be on screen: the stream has
    /// connected, and the room does not say that nothing is shared.
    pub open spec fn showing_video(self) -> bool {
        self.live && (self.sharing is None || self.sharing == Some(SharingState::Live))
    }

    /// Something happens at a moment.
    pub open spec fn applied(self, event: WatchingEventView, now: Moment) -> WatchingModel {
        match event {
            WatchingEventView::Status(status) => WatchingModel { status, ..self },
            WatchingEventView::Live => WatchingModel {
                live: true,
                reconnecting: false,
                status: "Live"@,
                ..self
            },
            WatchingEventView::Sharing(sharing) => WatchingModel {
                sharing: Some(sharing),
                ..self
            },
            WatchingEventView::Expiry(seconds) => WatchingModel {
                countdown: Some(RoomCountdown { seconds, at: now }),
                ..self
            },
            WatchingEventView::PresenterConnected(presenter_connected) => WatchingModel {
                presenter_connected,
                ..self
            },
            WatchingEventView::Reconnecting(reconnecting) => WatchingModel { reconnecting, ..self },
            WatchingEventView::Stats(stats) => WatchingModel {
                bitrate_kbps: stats.bitrate_kbps,
                round_trip_us: stats.round_trip_us,
                packets_lost: stats.packets_lost,
                packets_received: stats.packets_received,
                milli_fps: stats.milli_fps,
                codec: stats.codec,
                bitrate_history: moments::recorded(
                    self.bitrate_history,
                    now,
                    match stats.bitrate_kbps {
                        Some(kbps) => kbps,
                        None => 0,
                    },
                ),
                frame_size: match (stats.width, stats.height) {
                    (Some(w), Some(h)) if w > 0 && h > 0 => Some((w, h)),
                    _ => self.frame_size,
                },
                ..self
            },
            WatchingEventView::Chat { sender, text } => WatchingModel {
                messages: self.messages.push(ChatMessageView { from: sender, text, own: false }),
                ..self
            },
            WatchingEventView::NativeSurface => WatchingModel { native_video: true, ..self },
            WatchingEventView::Ended(reason) => WatchingModel {
                live: false,
                reconnecting: false,
                status: reason,
                ..self
            },
        }
    }
}

impl ViewerView {
    /// No session.
    pub fn new() -> (r: Self)
        ensures
            r@ == WatchingModel::blank(),
    {
        let r = ViewerView {
            active: false,
            live: false,
            status: String::new(),
            sharing: None,
            reconnecting: false,
            presenter_connected: false,
            room_code: None,
            countdown: None,
            frame_size: None,
            native_video: false,
            bitrate_kbps: None,
            round_trip_us: None,
            packets_lost: None,
            packets_received: None,
            milli_fps: None,
            codec: None,
            messages: Vec::new(),
            bitrate_history: BitrateHistory::new(),
        };
        assert(r@ =~~= WatchingModel::blank());
        r
    }

    /// Whether the presenter's picture is to be on screen.
    pub fn showing_video(&self) -> (r: bool)
        ensures
            r == self@.showing_video(),
    {
        self.live && match self.sharing {
            Some(sharing) => sharing == SharingState::Live,
            None => true,
        }
    }

    /// Something happens.
    pub fn apply(&mut self, event: WatchingEvent, now: Moment)
        ensures
            final(self)@ == old(self)@.applied(event@, now),
    {
        match event {
            WatchingEvent::Status(status) => {
                self.status = status;
            },
            WatchingEvent::Live => {
                self.live = true;
                self.reconnecting = false;
                self.status = "Live".to_owned();
            },
            WatchingEvent::Sharing(sharing) => {
                self.sharing = Some(sharing);
            },
            WatchingEvent::Expiry(seconds) => {
                self.countdown = Some(RoomCountdown { seconds, at: now });
            },
            WatchingEvent::PresenterConnected(connected) => {
                self.presenter_connected = connected;
            },
            WatchingEvent::Reconnecting(reconnecting) => {
                self.reconnecting = reconnecting;
            },
            WatchingEvent::Stats(stats) => {
                self.bitrate_kbps = stats.bitrate_kbps;
                self.round_trip_us = stats.round_trip_us;
                self.packets_lost = stats.packets_lost;
                self.packets_received = stats.packets_received;
                self.milli_fps = stats.milli_fps;
                self.codec = stats.codec;
                let kbps: u32 = match stats.bitrate_kbps {
                    Some(kbps) => kbps,
                    None => 0,
                };
                self.bitrate_history.record(now, kbps);
                if let (Some(w), Some(h)) = (stats.width, stats.height) {
                    if w > 0 && h > 0 {
                        self.frame_size = Some((w, h));
                    }
                }
            },
            WatchingEvent::Chat { sender, text } => {
                let message = ChatMessage { from: sender, text, own: false };
                self.messages.push(message);
                assert(self@.messages =~= old(self)@.messages.push(message@));
            },
            WatchingEvent::NativeSurface => {
                self.native_video = true;
            },
            WatchingEvent::Ended(reason) => {
                self.live = false;
                self.reconnecting = false;
                self.status = reason;
            },
        }
        assert(self@ =~= old(self)@.applied(event@, now));
    }
}

/// A phase in words.
pub open spec fn phase_text(phase: ViewerPhase) -> Seq<char> {
    match phase {
        ViewerPhase::Connecting => "Connecting…"@,
        ViewerPhase::AwaitingApproval => "Waiting to be let in…"@,
        ViewerPhase::Negotiating => "Connecting to the stream…"@,
        ViewerPhase::Live => "Live"@,
    }
}

/// A phase in words.
pub fn phase_label(phase: ViewerPhase) -> (r: &'static str)
    ensures
        r@ == phase_text(phase),
{
    match phase {
        ViewerPhase::Connecting => "Connecting…",
        ViewerPhase::AwaitingApproval => "Waiting to be let in…",
        ViewerPhase::Negotiating => "Connecting to the stream…",
        ViewerPhase::Live => "Live",
    }
}

/// How a session ended, in words.
pub open spec fn end_text(end: EndReason) -> Seq<char> {
    match end {
        EndReason::RoomClosed => "The presenter closed the room."@,
        EndReason::RoomExpired => "The room expired."@,
        EndReason::Rejected => "The presenter didn't let you in."@,
        EndReason::Kicked => "You were removed from the room."@,
        EndReason::Left => "You left the room."@,
    }
}

/// How a session ended, in words.
pub fn end_label(end: EndReason) -> (r: &'static str)
    ensures
        r@ == end_text(end),
{
    match end {
        EndReason::RoomClosed => "The presenter closed the room.",
        EndReason::RoomExpired => "The room expired.",
        EndReason::Rejected => "The presenter didn't let you in.",
        EndReason::Kicked => "You were removed from the room.",
        EndReason::Left => "You left the room.",
    }
}

/// Why a session failed, in words.
pub open spec fn failure(error: ViewerErrorView) -> Seq<char> {
    match error {
        ViewerErrorView::AuthenticationFailed { message } =>
            "the room did not accept this invitation: "@ + message,
        ViewerErrorView::PlaybackStart { message } => "media playback could not start: "@ + message,
        ViewerErrorView::Playback { reason } => "media playback failed: "@ + reason,
        ViewerErrorView::SignalingEnded => "signaling ended unexpectedly"@,
    }
}

/// Why a session failed, in words.
pub fn failure_text(error: &ViewerError) -> (r: String)
    ensures
        r@ == failure(error@),
{
    match error {
        ViewerError::AuthenticationFailed { message } => {
            let mut r = "the room did not accept this invitation: ".to_owned();
            r.push_str(message.as_str());
            r
        },
        ViewerError::PlaybackStart { message } => {
            let mut r = "media playback could not start: ".to_owned();
            r.push_str(message.as_str());
            r
        },
        ViewerError::Playback { reason } => {
            let mut r = "media playback failed: ".to_owned();
            r.push_str(reason.as_str());
            r
        },
        ViewerError::SignalingEnded => "signaling ended unexpectedly".to_owned(),
    }
}

/// How a session ended, in words.
pub fn ended_reason(outcome: &Result<EndReason, ViewerError>) -> (r: String)
    ensures
        r@ == match outcome {
            Ok(end) => end_text(*end),
            Err(error) => "The stream ended: "@ + failure(error@),
        },
{
    match outcome {
        Ok(end) => end_label(*end).to_owned(),
        Err(error) => {
            let mut r = "The stream ended: ".to_owned();
            r.push_str(failure_text(error).as_str());
            r
        },
    }
}

/// What is said of a link that cannot be used.
pub fn bad_link(error: InvitationError) -> (r: String)
    ensures
        r@ == "That room link is not valid: "@ + error.text(),
{
    let mut r = "That room link is not valid: ".to_owned();
    r.push_str(error.message());
    r
}

/// What an update of the session is to the window, if it is anything.
pub open spec fn event_of(update: ViewerUpdateView) -> Option<WatchingEventView> {
    match update {
        ViewerUpdateView::Phase { phase } => Some(
            if phase == ViewerPhase::Live {
                WatchingEventView::Live
            } else {
                WatchingEventView::Status(phase_text(phase))
            },
        ),
        ViewerUpdateView::SharingState { state } => Some(WatchingEventView::Sharing(state)),
        ViewerUpdateView::RoomExpiry { expires_in_seconds } => Some(
            WatchingEventView::Expiry(expires_in_seconds),
        ),
        ViewerUpdateView::Connection { state } => Some(
            WatchingEventView::Reconnecting(
                state == ConnectionState::Disconnected || state == ConnectionState::Failed,
            ),
        ),
        ViewerUpdateView::Chat { sender, text } => Some(WatchingEventView::Chat { sender, text }),
        ViewerUpdateView::PresenterConnected { connected } => Some(
            WatchingEventView::PresenterConnected(connected),
        ),
        ViewerUpdateView::Signaling { state } => if state == SignalingState::Reconnecting {
            Some(WatchingEventView::Status("Reconnecting to the room…"@))
        } else {
            None
        },
    }
}

/// What an update of the session is to the window.
pub fn forward_update(update: ViewerUpdate) -> (r: Option<WatchingEvent>)
    ensures
        r.deep_view() == event_of(update@),
{
    match update {
        ViewerUpdate::Phase { phase } => Some(
            if phase == ViewerPhase::Live {
                WatchingEvent::Live
            } else {
                WatchingEvent::Status(phase_label(phase).to_owned())
            },
        ),
        ViewerUpdate::SharingState { state } => Some(WatchingEvent::Sharing(state)),
        ViewerUpdate::RoomExpiry { expires_in_seconds } => Some(
            WatchingEvent::Expiry(expires_in_seconds),
        ),
        ViewerUpdate::Connection { state } => Some(
            WatchingEvent::Reconnecting(
                state == ConnectionState::Disconnected || state == ConnectionState::Failed,
            ),
        ),
        ViewerUpdate::Chat { sender, text } => Some(WatchingEvent::Chat { sender, text }),
        ViewerUpdate::PresenterConnected { connected } => Some(
            WatchingEvent::PresenterConnected(connected),
        ),
        ViewerUpdate::Signaling { state } => {
            if state == SignalingState::Reconnecting {
                Some(WatchingEvent::Status("Reconnecting to the room…".to_owned()))
            } else {
                None
            }
        },
    }
}

/// A picture is never shown of a room that is idle or paused, nor of a stream
/// that ended.
pub proof fn law_no_picture_without_a_share(m: WatchingModel, reason: Seq<char>, now: Moment)
    ensures
        !m.applied(WatchingEventView::Sharing(SharingState::Idle), now).showing_video(),
        !m.applied(WatchingEventView::Sharing(SharingState::Paused), now).showing_video(),
        !m.applied(WatchingEventView::Ended(reason), now).showing_video(),
        m.applied(WatchingEventView::Live, now).applied(
            WatchingEventView::Sharing(SharingState::Live),
            now,
        ).showing_video(),
{
}

} // verus!
