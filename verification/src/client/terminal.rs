//! What a session reports to the terminal.
use vstd::prelude::*;
use vstd::string::*;

use crate::client::presenter::types::{
    ConnectionState, PresenterEnd, PresenterUpdate, PresenterUpdateView,
};
use crate::client::signaling::SignalingState;
use crate::client::viewer::types::{EndReason, ViewerPhase, ViewerUpdate, ViewerUpdateView};
use crate::protocol::SharingState;
use crate::text;

verus! {

/// How much a line matters.
#[derive(Debug, Clone, Copy, PartialEq, Eq, Structural)]
pub enum LogLevel {
    Debug,
    Info,
    Warn,
}

/// A line for the terminal: what happened, and to whom.
#[derive(Debug, PartialEq, Eq)]
pub struct LogLine {
    pub level: LogLevel,
    pub text: String,
}

/// What a [`LogLine`] holds.
#[verifier::ext_equal]
pub struct LogLineView {
    pub level: LogLevel,
    pub text: Seq<char>,
}

impl View for LogLine {
    type V = LogLineView;

    open spec fn view(&self) -> LogLineView {
        LogLineView { level: self.level, text: self.text@ }
    }
}

impl DeepView for LogLine {
    type V = LogLineView;

    open spec fn deep_view(&self) -> LogLineView {
        self@
    }
}

/// A line that informs.
pub open spec fn news(text: Seq<char>) -> Option<LogLineView> {
    Some(LogLineView { level: LogLevel::Info, text })
}

/// A line that warns.
pub open spec fn warning(text: Seq<char>) -> Option<LogLineView> {
    Some(LogLineView { level: LogLevel::Warn, text })
}

/// A line for those who look closely.
pub open spec fn detail(text: Seq<char>) -> Option<LogLineView> {
    Some(LogLineView { level: LogLevel::Debug, text })
}

fn line(level: LogLevel, text: &str) -> (r: Option<LogLine>)
    ensures
        r.deep_view() == Some(LogLineView { level, text: text@ }),
{
    Some(LogLine { level, text: text.to_owned() })
}

/// The name of a state of a connection.
pub open spec fn connection_name(state: ConnectionState) -> Seq<char> {
    match state {
        ConnectionState::New => "New"@,
        ConnectionState::Connecting => "Connecting"@,
        ConnectionState::Connected => "Connected"@,
        ConnectionState::Disconnected => "Disconnected"@,
        ConnectionState::Failed => "Failed"@,
        ConnectionState::Closed => "Closed"@,
    }
}

fn name_of(state: ConnectionState) -> (r: &'static str)
    ensures
        r@ == connection_name(state),
{
    match state {
        ConnectionState::New => "New",
        ConnectionState::Connecting => "Connecting",
        ConnectionState::Connected => "Connected",
        ConnectionState::Disconnected => "Disconnected",
        ConnectionState::Failed => "Failed",
        ConnectionState::Closed => "Closed",
    }
}

/// A text, or what stands for it where there is none.
pub open spec fn text_or(text: Option<Seq<char>>, other: Seq<char>) -> Seq<char> {
    match text {
        Some(text) => text,
        None => other,
    }
}

fn or_text<'a>(text: &'a Option<String>, other: &'a str) -> (r: &'a str)
    ensures
        r@ == text_or(text.deep_view(), other@),
{
    match text {
        Some(text) => text.as_str(),
        None => other,
    }
}

/// What is said of the signaling connection, given what connecting and
/// authenticating are called.
pub open spec fn signaling_news(
    state: SignalingState,
    connecting: Seq<char>,
    authenticating: Seq<char>,
) -> Option<LogLineView> {
    match state {
        SignalingState::Connecting => news(connecting),
        SignalingState::Authenticating => news(authenticating),
        SignalingState::Connected => news("connected to the room"@),
        SignalingState::Reconnecting => warning("connection lost; reconnecting"@),
        _ => None,
    }
}

fn signaling_line(state: SignalingState, connecting: &str, authenticating: &str) -> (r: Option<
    LogLine,
>)
    ensures
        r.deep_view() == signaling_news(state, connecting@, authenticating@),
{
    match state {
        SignalingState::Connecting => line(LogLevel::Info, connecting),
        SignalingState::Authenticating => line(LogLevel::Info, authenticating),
        SignalingState::Connected => line(LogLevel::Info, "connected to the room"),
        SignalingState::Reconnecting => line(LogLevel::Warn, "connection lost; reconnecting"),
        _ => None,
    }
}

fn expiry_line(expires_in_seconds: u64) -> (r: Option<LogLine>)
    ensures
        r.deep_view() == detail(
            "room expiry expires_in_seconds="@ + text::decimal(expires_in_seconds as nat),
        ),
{
    let mut said = "room expiry expires_in_seconds=".to_owned();
    said.push_str(text::decimal_text(expires_in_seconds).as_str());
    line(LogLevel::Debug, said.as_str())
}

/// What is reported of a presenter session.
pub open spec fn presenter_news(update: PresenterUpdateView) -> Option<LogLineView> {
    match update {
        PresenterUpdateView::Signaling { state } => signaling_news(
            state,
            "connecting to the server"@,
            "authenticating as presenter"@,
        ),
        PresenterUpdateView::SharingState { state } => match state {
            SharingState::Idle => news("not sharing; the room stays open"@),
            SharingState::Live => news("sharing is live"@),
            SharingState::Paused => news("sharing is paused"@),
        },
        PresenterUpdateView::RoomExpiry { expires_in_seconds } => detail(
            "room expiry expires_in_seconds="@ + text::decimal(expires_in_seconds as nat),
        ),
        PresenterUpdateView::JoinRequested { peer_id, display_name, friend_code } => news(
            text_or(display_name, "a viewer"@) + " asked to join viewer="@ + peer_id + " friend="@
                + text_or(friend_code, "-"@),
        ),
        PresenterUpdateView::ViewerJoined { peer_id, display_name } => news(
            text_or(display_name, "a viewer"@) + " joined viewer="@ + peer_id,
        ),
        PresenterUpdateView::ViewerLeft { peer_id } => news("viewer left viewer="@ + peer_id),
        PresenterUpdateView::ViewerConnection { peer_id, state } => detail(
            "viewer connection state viewer="@ + peer_id + " state="@ + connection_name(state),
        ),
        PresenterUpdateView::Chat { peer_id, sender, text } => news(
            "chat: "@ + sender + ": "@ + text + " viewer="@ + peer_id,
        ),
        PresenterUpdateView::ShareFailed { message } => warning("sharing failed: "@ + message),
    }
}

/// What is reported of a presenter session.
pub fn report_presenter(update: &PresenterUpdate) -> (r: Option<LogLine>)
    ensures
        r.deep_view() == presenter_news(update@),
{
    match update {
        PresenterUpdate::Signaling { state } => signaling_line(
            *state,
            "connecting to the server",
            "authenticating as presenter",
        ),
        PresenterUpdate::SharingState { state } => line(
            LogLevel::Info,
            match *state {
                SharingState::Idle => "not sharing; the room stays open",
                SharingState::Live => "sharing is live",
                SharingState::Paused => "sharing is paused",
            },
        ),
        PresenterUpdate::RoomExpiry { expires_in_seconds } => expiry_line(*expires_in_seconds),
        PresenterUpdate::JoinRequested { peer_id, display_name, friend_code } => {
            let mut said = or_text(display_name, "a viewer").to_owned();
            said.push_str(" asked to join viewer=");
            said.push_str(peer_id.as_str());
            said.push_str(" friend=");
            said.push_str(or_text(friend_code, "-"));
            line(LogLevel::Info, said.as_str())
        },
        PresenterUpdate::ViewerJoined { peer_id, display_name } => {
            let mut said = or_text(display_name, "a viewer").to_owned();
            said.push_str(" joined viewer=");
            said.push_str(peer_id.as_str());
            line(LogLevel::Info, said.as_str())
        },
        PresenterUpdate::ViewerLeft { peer_id } => {
            let mut said = "viewer left viewer=".to_owned();
            said.push_str(peer_id.as_str());
            line(LogLevel::Info, said.as_str())
        },
        PresenterUpdate::ViewerConnection { peer_id, state } => {
            let mut said = "viewer connection state viewer=".to_owned();
            said.push_str(peer_id.as_str());
            said.push_str(" state=");
            said.push_str(name_of(*state));
            line(LogLevel::Debug, said.as_str())
        },
        PresenterUpdate::Chat { peer_id, sender, text } => {
            let mut said = "chat: ".to_owned();
            said.push_str(sender.as_str());
            said.push_str(": ");
            said.push_str(text.as_str());
            said.push_str(" viewer=");
            said.push_str(peer_id.as_str());
            line(LogLevel::Info, said.as_str())
        },
        PresenterUpdate::ShareFailed { message } => {
            let mut said = "sharing failed: ".to_owned();
            said.push_str(message.as_str());
            line(LogLevel::Warn, said.as_str())
        },
    }
}

/// What is reported of a viewer session.
pub open spec fn viewer_news(update: ViewerUpdateView) -> Option<LogLineView> {
    match update {
        ViewerUpdateView::Signaling { state } => signaling_news(
            state,
            "connecting to the room"@,
            "presenting the invitation"@,
        ),
        ViewerUpdateView::Phase { phase } => match phase {
            ViewerPhase::Connecting => None,
            ViewerPhase::AwaitingApproval => news("waiting for the presenter to approve you"@),
            ViewerPhase::Negotiating => news("setting up the stream"@),
            ViewerPhase::Live => news("live — the stream window is open"@),
        },
        ViewerUpdateView::SharingState { state } => match state {
            SharingState::Idle => news("the presenter is not sharing right now"@),
            SharingState::Live => None,
            SharingState::Paused => news("the presenter paused sharing"@),
        },
        ViewerUpdateView::RoomExpiry { expires_in_seconds } => detail(
            "room expiry expires_in_seconds="@ + text::decimal(expires_in_seconds as nat),
        ),
        ViewerUpdateView::PresenterConnected { connected } => if connected {
            news("the presenter is connected"@)
        } else {
            warning("the presenter disconnected; the room is waiting for them"@)
        },
        ViewerUpdateView::Connection { state } => detail(
            "peer connection state state="@ + connection_name(state),
        ),
        ViewerUpdateView::Chat { sender, text } => news("chat: "@ + sender + ": "@ + text),
    }
}

/// What is reported of a viewer session.
pub fn report(update: &ViewerUpdate) -> (r: Option<LogLine>)
    ensures
        r.deep_view() == viewer_news(update@),
{
    match update {
        ViewerUpdate::Signaling { state } => signaling_line(
            *state,
            "connecting to the room",
            "presenting the invitation",
        ),
        ViewerUpdate::Phase { phase } => match *phase {
            ViewerPhase::Connecting => None,
            ViewerPhase::AwaitingApproval => line(
                LogLevel::Info,
                "waiting for the presenter to approve you",
            ),
            ViewerPhase::Negotiating => line(LogLevel::Info, "setting up the stream"),
            ViewerPhase::Live => line(LogLevel::Info, "live — the stream window is open"),
        },
        ViewerUpdate::SharingState { state } => match *state {
            SharingState::Idle => line(LogLevel::Info, "the presenter is not sharing right now"),
            SharingState::Live => None,
            SharingState::Paused => line(LogLevel::Info, "the presenter paused sharing"),
        },
        ViewerUpdate::RoomExpiry { expires_in_seconds } => expiry_line(*expires_in_seconds),
        ViewerUpdate::PresenterConnected { connected } => if *connected {
            line(LogLevel::Info, "the presenter is connected")
        } else {
            line(LogLevel::Warn, "the presenter disconnected; the room is waiting for them")
        },
        ViewerUpdate::Connection { state } => {
            let mut said = "peer connection state state=".to_owned();
            said.push_str(name_of(*state));
            line(LogLevel::Debug, said.as_str())
        },
        ViewerUpdate::Chat { sender, text } => {
            let mut said = "chat: ".to_owned();
            said.push_str(sender.as_str());
            said.push_str(": ");
            said.push_str(text.as_str());
            line(LogLevel::Info, said.as_str())
        },
    }
}

/// How a hosted room was left.
pub fn presenter_end(end: PresenterEnd) -> (r: &'static str)
    ensures
        r@ == match end {
            PresenterEnd::RoomClosed => "the room was closed"@,
            PresenterEnd::RoomExpired => "the room expired"@,
            PresenterEnd::Left => "left the room; it stays open until it expires"@,
        },
{
    match end {
        PresenterEnd::RoomClosed => "the room was closed",
        PresenterEnd::RoomExpired => "the room expired",
        PresenterEnd::Left => "left the room; it stays open until it expires",
    }
}

/// How a watched room was left.
pub fn viewer_end(end: EndReason) -> (r: &'static str)
    ensures
        r@ == match end {
            EndReason::RoomClosed => "the presenter ended the room"@,
            EndReason::RoomExpired => "the room expired"@,
            EndReason::Rejected => "the presenter declined this join request"@,
            EndReason::Kicked => "the presenter removed you from the room"@,
            EndReason::Left => "left the room"@,
        },
{
    match end {
        EndReason::RoomClosed => "the presenter ended the room",
        EndReason::RoomExpired => "the room expired",
        EndReason::Rejected => "the presenter declined this join request",
        EndReason::Kicked => "the presenter removed you from the room",
        EndReason::Left => "left the room",
    }
}

/// A number, or a question mark where it is not known.
pub open spec fn known(n: Option<int>) -> Seq<char> {
    match n {
        Some(n) => text::signed_decimal(n),
        None => "?"@,
    }
}

fn known_rate(kbps: Option<u32>) -> (r: String)
    ensures
        r@ == known(
            match kbps {
                Some(kbps) => Some(kbps as int),
                None => None,
            },
        ),
{
    match kbps {
        Some(kbps) => text::decimal_text(kbps as u64),
        None => "?".to_owned(),
    }
}

fn known_loss(lost: Option<i64>) -> (r: String)
    ensures
        r@ == known(
            match lost {
                Some(lost) => Some(lost as int),
                None => None,
            },
        ),
{
    match lost {
        Some(lost) => text::signed_decimal_text(lost),
        None => "?".to_owned(),
    }
}

/// How a stream to a viewer goes, with the round trip in words.
pub fn sending_text(
    peer_id: &str,
    kbps: Option<u32>,
    target_kbps: u32,
    lost: Option<i64>,
    round_trip: Option<String>,
) -> (r: String)
    ensures
        r@ == "sending "@ + known(
            match kbps {
                Some(kbps) => Some(kbps as int),
                None => None,
            },
        ) + " kbps (target "@ + text::decimal(target_kbps as nat) + "), "@ + known(
            match lost {
                Some(lost) => Some(lost as int),
                None => None,
            },
        ) + " lost, rtt "@ + text_or(round_trip.deep_view(), "?"@) + " viewer="@ + peer_id@,
{
    let mut said = "sending ".to_owned();
    said.push_str(known_rate(kbps).as_str());
    said.push_str(" kbps (target ");
    said.push_str(text::decimal_text(target_kbps as u64).as_str());
    said.push_str("), ");
    said.push_str(known_loss(lost).as_str());
    said.push_str(" lost, rtt ");
    said.push_str(or_text(&round_trip, "?"));
    said.push_str(" viewer=");
    said.push_str(peer_id);
    said
}

/// The size of a picture, where both sides are known.
pub open spec fn picture_size(width: Option<u32>, height: Option<u32>) -> Seq<char> {
    match (width, height) {
        (Some(width), Some(height)) => text::decimal(width as nat) + "x"@ + text::decimal(
            height as nat,
        ),
        _ => "?"@,
    }
}

/// How a watched stream goes, with the round trip in words.
pub fn receiving_text(
    width: Option<u32>,
    height: Option<u32>,
    codec: Option<String>,
    kbps: Option<u32>,
    lost: Option<i64>,
    round_trip: Option<String>,
) -> (r: String)
    ensures
        r@ == picture_size(width, height) + " "@ + text_or(codec.deep_view(), "?"@) + " "@ + known(
            match kbps {
                Some(kbps) => Some(kbps as int),
                None => None,
            },
        ) + " kbps, "@ + known(
            match lost {
                Some(lost) => Some(lost as int),
                None => None,
            },
        ) + " lost, rtt "@ + text_or(round_trip.deep_view(), "?"@),
{
    let mut said = match (width, height) {
        (Some(width), Some(height)) => {
            let mut size = text::decimal_text(width as u64);
            size.push_str("x");
            size.push_str(text::decimal_text(height as u64).as_str());
            size
        },
        _ => "?".to_owned(),
    };
    said.push_str(" ");
    said.push_str(or_text(&codec, "?"));
    said.push_str(" ");
    said.push_str(known_rate(kbps).as_str());
    said.push_str(" kbps, ");
    said.push_str(known_loss(lost).as_str());
    said.push_str(" lost, rtt ");
    said.push_str(or_text(&round_trip, "?"));
    said
}

} // verus!
