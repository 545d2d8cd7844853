//! The signaling connection of one session: authentication, session resume
//! across reconnects, heartbeat replies, identity challenges and backoff.
//!
//! The connection itself is driven from outside. The machine here is told what
//! happened and says what to do next.
use time::format_description::well_known::Rfc3339;
use time::OffsetDateTime;
use uuid::Uuid;
use vstd::prelude::*;
use vstd::string::*;

use crate::clock;
use crate::clock::{Span, Timestamp};
use crate::crypto;
use crate::protocol::{
    ClientMessage, ClientMessageView, ErrorCode, ServerMessage, ServerMessageView,
};

verus! {

/// Where a signaling connection stands.
#[derive(Debug, Clone, Copy, PartialEq, Eq, Structural)]
pub enum SignalingState {
    Connecting,
    Authenticating,
    Connected,
    Reconnecting,
    Closed,
    Failed,
}

impl DeepView for SignalingState {
    type V = SignalingState;

    open spec fn deep_view(&self) -> SignalingState {
        *self
    }
}

/// A message with the identifier that it is sent under.
#[derive(Debug, PartialEq, Eq)]
pub struct ClientFrame {
    pub request_id: String,
    pub message: ClientMessage,
}

/// What a [`ClientFrame`] holds.
#[verifier::ext_equal]
pub struct ClientFrameView {
    pub request_id: Seq<char>,
    pub message: ClientMessageView,
}

impl View for ClientFrame {
    type V = ClientFrameView;

    open spec fn view(&self) -> ClientFrameView {
        ClientFrameView {
            request_id: self.request_id@,
            message: self.message@,
        }
    }
}

impl DeepView for ClientFrame {
    type V = ClientFrameView;

    open spec fn deep_view(&self) -> ClientFrameView {
        self@
    }
}

impl Clone for ClientFrame {
    fn clone(&self) -> (r: Self)
        ensures
            r@ == self@,
    {
        let r = ClientFrame {
            request_id: self.request_id.clone(),
            message: self.message.clone(),
        };
        r
    }
}

/// What the host of a session asks of its signaling connection.
#[derive(Debug, PartialEq, Eq)]
pub enum SignalingCommand {
    Send {
        frame: ClientFrame,
    },
    /// Ends the session for good, with or without announcing the departure.
    Disconnect {
        send_leave: bool,
    },
}

/// What a [`SignalingCommand`] holds.
#[verifier::ext_equal]
pub enum SignalingCommandView {
    Send { frame: ClientFrameView },
    Disconnect { send_leave: bool },
}

impl View for SignalingCommand {
    type V = SignalingCommandView;

    open spec fn view(&self) -> SignalingCommandView {
        match self {
            SignalingCommand::Send { frame } => SignalingCommandView::Send {
                frame: frame@,
            },
            SignalingCommand::Disconnect { send_leave } => SignalingCommandView::Disconnect {
                send_leave: *send_leave,
            },
        }
    }
}

impl DeepView for SignalingCommand {
    type V = SignalingCommandView;

    open spec fn deep_view(&self) -> SignalingCommandView {
        self@
    }
}

impl Clone for SignalingCommand {
    fn clone(&self) -> (r: Self)
        ensures
            r@ == self@,
    {
        match self {
            SignalingCommand::Send { frame } => SignalingCommand::Send {
                frame: frame.clone(),
            },
            SignalingCommand::Disconnect { send_leave } => SignalingCommand::Disconnect {
                send_leave: *send_leave,
            },
        }
    }
}

/// What to do next.
#[derive(Debug, PartialEq, Eq)]
#[allow(inconsistent_fields)]
pub enum Reaction {
    /// Nothing.
    Wait,
    /// Send this. If that fails, the connection is lost.
    Reply {
        message: ClientMessage,
    },
    /// Sign this challenge and reply. If that fails, the connection is lost.
    Challenge {
        nonce: String,
    },
    /// Send this, and report how it went.
    Forward {
        frame: ClientFrame,
    },
    /// Hand this message to the host.
    Surface {
        message: ServerMessage,
    },
    /// Tell the host that authentication failed, then hand it this message.
    Refused {
        message: ServerMessage,
    },
    /// Tell the host that the session is connected, send these in order up to
    /// the first that fails, and report how many went out. Only if all did,
    /// hand the host this message.
    Replay {
        frames: Vec<ClientFrame>,
        message: ServerMessage,
    },
    /// Connect again at once.
    Redial,
    /// Announce the departure if asked to, and close.
    Stop {
        send_leave: bool,
    },
    /// The connection is lost.
    Lost,
}

/// What a [`Reaction`] holds.
#[verifier::ext_equal]
#[allow(inconsistent_fields)]
pub enum ReactionView {
    Wait,
    Reply { message: ClientMessageView },
    Challenge { nonce: Seq<char> },
    Forward { frame: ClientFrameView },
    Surface { message: ServerMessageView },
    Refused { message: ServerMessageView },
    Replay { frames: Seq<ClientFrameView>, message: ServerMessageView },
    Redial,
    Stop { send_leave: bool },
    Lost,
}

impl View for Reaction {
    type V = ReactionView;

    open spec fn view(&self) -> ReactionView {
        match self {
            Reaction::Wait => ReactionView::Wait,
            Reaction::Reply { message } => ReactionView::Reply {
                message: message@,
            },
            Reaction::Challenge { nonce } => ReactionView::Challenge {
                nonce: nonce@,
            },
            Reaction::Forward { frame } => ReactionView::Forward {
                frame: frame@,
            },
            Reaction::Surface { message } => ReactionView::Surface {
                message: message@,
            },
            Reaction::Refused { message } => ReactionView::Refused {
                message: message@,
            },
            Reaction::Replay { frames, message } => ReactionView::Replay {
                frames: frames.deep_view(),
                message: message@,
            },
            Reaction::Redial => ReactionView::Redial,
            Reaction::Stop { send_leave } => ReactionView::Stop {
                send_leave: *send_leave,
            },
            Reaction::Lost => ReactionView::Lost,
        }
    }
}

impl DeepView for Reaction {
    type V = ReactionView;

    open spec fn deep_view(&self) -> ReactionView {
        self@
    }
}

impl Clone for Reaction {
    fn clone(&self) -> (r: Self)
        ensures
            r@ == self@,
    {
        match self {
            Reaction::Wait => Reaction::Wait,
            Reaction::Reply { message } => Reaction::Reply {
                message: message.clone(),
            },
            Reaction::Challenge { nonce } => Reaction::Challenge {
                nonce: nonce.clone(),
            },
            Reaction::Forward { frame } => Reaction::Forward {
                frame: frame.clone(),
            },
            Reaction::Surface { message } => Reaction::Surface {
                message: message.clone(),
            },
            Reaction::Refused { message } => Reaction::Refused {
                message: message.clone(),
            },
            Reaction::Replay { frames, message } => {
                let frames_copy = frames.clone();
                assert(frames_copy.deep_view() =~= frames.deep_view());
                Reaction::Replay {
                    frames: frames_copy,
                    message: message.clone(),
                }
            },
            Reaction::Redial => Reaction::Redial,
            Reaction::Stop { send_leave } => Reaction::Stop {
                send_leave: *send_leave,
            },
            Reaction::Lost => Reaction::Lost,
        }
    }
}

/// Whether a character is a digit of a number in base 16, in lower case.
pub open spec fn lower_hex(c: char) -> bool {
    '0' <= c <= '9' || 'a' <= c <= 'f'
}

/// Whether a text is a random UUID: five groups of digits, of which the third
/// starts with the version and the fourth with the variant.
pub open spec fn is_random_uuid(s: Seq<char>) -> bool {
    &&& s.len() == 36
    &&& forall|i: int|
        0 <= i < 36 ==> if i == 8 || i == 13 || i == 18 || i == 23 {
            #[trigger] s[i] == '-'
        } else {
            lower_hex(s[i])
        }
    &&& s[14] == '4'
    &&& s[19] == '8' || s[19] == '9' || s[19] == 'a' || s[19] == 'b'
}

/// A version 4 UUID from `Uuid::new_v4`, as text. Which one is left open; it is
/// written with hyphens and in lower case, and carries its version and variant.
#[verifier::external_body]
fn random_uuid() -> (r: String)
    ensures
        is_random_uuid(r@),
{
    Uuid::new_v4().to_string()
}

/// A fresh identifier for a request.
pub fn new_request_id() -> (r: String)
    ensures
        is_random_uuid(r@),
{
    random_uuid()
}

/// Whether a message carries user intent that must survive an outage, as
/// opposed to reactive signaling that is only meaningful in the moment.
pub open spec fn carries_intent(message: ClientMessageView) -> bool {
    ||| message is RoomClose
    ||| message is RoomUpdateSharingState
    ||| message is RoomUpdateCapacity
    ||| message is ViewerUpdateDisplayName
    ||| message is ViewerApprove
    ||| message is ViewerReject
    ||| message is ViewerKick
}

/// Whether a message carries user intent that must survive an outage.
pub fn is_user_intent(message: &ClientMessage) -> (r: bool)
    ensures
        r == carries_intent(message@),
{
    match message {
        ClientMessage::RoomClose => true,
        ClientMessage::RoomUpdateSharingState { .. } => true,
        ClientMessage::RoomUpdateCapacity { .. } => true,
        ClientMessage::ViewerUpdateDisplayName { .. } => true,
        ClientMessage::ViewerApprove { .. } => true,
        ClientMessage::ViewerReject { .. } => true,
        ClientMessage::ViewerKick { .. } => true,
        _ => false,
    }
}

/// How long before its expiry an ICE configuration is refreshed.
pub const ICE_REFRESH_LEAD: i128 = 60_000_000_000;

/// The retry cadence when the expiry is unreadable or a refresh went
/// unanswered.
pub const ICE_REFRESH_RETRY: i128 = 60_000_000_000;

/// The shortest time until a refresh.
pub const ICE_REFRESH_MINIMUM: i128 = 5_000_000_000;

/// The point in time that an RFC 3339 date stands for, or `None` where the
/// text is no such date.
pub uninterp spec fn rfc3339_instant(text: Seq<char>) -> Option<int>;

/// `OffsetDateTime::parse` with the `Rfc3339` description, in nanoseconds since
/// the Unix epoch. The result is a function of the text. The year has four
/// digits and the offset is less than a day, so the result is within two days
/// of the years 0 to 9999.
#[verifier::external_body]
fn parse_rfc3339(text: &str) -> (r: Option<Timestamp>)
    ensures
        match r {
            Some(t) => rfc3339_instant(text@) == Some(t as int) && clock::YEAR_ZERO
                - clock::seconds(172_800) <= t <= clock::MAX_TIMESTAMP + clock::seconds(172_800),
            None => rfc3339_instant(text@) is None,
        },
{
    Some(OffsetDateTime::parse(text, &Rfc3339).ok()?.unix_timestamp_nanos())
}

/// How long to wait at `now` before a configuration that expires at `expiry` is
/// refreshed: until the lead before its expiry, but not less than the minimum;
/// the retry cadence where the expiry is unknown.
pub open spec fn refresh_delay(expiry: Option<int>, now: int) -> int {
    match expiry {
        None => ICE_REFRESH_RETRY as int,
        Some(at) => {
            let until = at - ICE_REFRESH_LEAD - now;
            if until < ICE_REFRESH_MINIMUM {
                ICE_REFRESH_MINIMUM as int
            } else {
                until
            }
        },
    }
}

/// How long to wait before a configuration with this expiry is refreshed.
pub fn refresh_delay_until(expiry: Option<Timestamp>, now: Timestamp) -> (r: Span)
    requires
        clock::is_timestamp(now as int),
        expiry matches Some(at) ==> clock::MIN_TIMESTAMP - clock::seconds(172_800) <= at
            <= clock::MAX_TIMESTAMP + clock::seconds(172_800),
    ensures
        r == refresh_delay(
            match expiry {
                Some(at) => Some(at as int),
                None => None,
            },
            now as int,
        ),
{
    match expiry {
        None => ICE_REFRESH_RETRY,
        Some(at) => {
            let until: i128 = at - ICE_REFRESH_LEAD - now;
            if until < ICE_REFRESH_MINIMUM {
                ICE_REFRESH_MINIMUM
            } else {
                until
            }
        },
    }
}

/// When to send a refresh for a configuration expiring at `expires_at` (RFC
/// 3339).
pub fn ice_refresh_delay(expires_at: &str, now: Timestamp) -> (r: Span)
    requires
        clock::is_timestamp(now as int),
    ensures
        r == refresh_delay(rfc3339_instant(expires_at@), now as int),
{
    refresh_delay_until(parse_rfc3339(expires_at), now)
}

/// A retry timer for a refresh that got no answer.
pub fn ice_refresh_retry() -> (r: Span)
    ensures
        r == clock::seconds(60),
{
    ICE_REFRESH_RETRY
}

/// The middle of the backoff after so many attempts, in milliseconds: 500,
/// doubling to a cap of 10 000.
pub open spec fn backoff(attempt: nat) -> nat {
    if attempt == 0 {
        500
    } else if attempt == 1 {
        1_000
    } else if attempt == 2 {
        2_000
    } else if attempt == 3 {
        4_000
    } else if attempt == 4 {
        8_000
    } else {
        10_000
    }
}

/// The middle of the backoff after so many attempts, in milliseconds.
pub fn reconnect_base_millis(attempt: u32) -> (r: u64)
    ensures
        r == backoff(attempt as nat),
{
    let mut base: u64 = 500;
    let doublings: u32 = if attempt < 5 {
        attempt
    } else {
        5
    };
    for i in 0..doublings
        invariant
            doublings <= 5,
            base == if i == 0 {
                500u64
            } else if i == 1 {
                1_000
            } else if i == 2 {
                2_000
            } else if i == 3 {
                4_000
            } else if i == 4 {
                8_000
            } else {
                16_000
            },
    {
        base = base * 2;
    }
    if base > 10_000 {
        10_000
    } else {
        base
    }
}

/// The identity that proves itself to rooms for friends. Whoever holds the key
/// signs.
#[derive(Debug, PartialEq, Eq)]
pub struct SessionIdentity {
    pub public_key: Vec<u8>,
}

impl View for SessionIdentity {
    type V = Seq<u8>;

    open spec fn view(&self) -> Seq<u8> {
        self.public_key@
    }
}

impl DeepView for SessionIdentity {
    type V = Seq<u8>;

    open spec fn deep_view(&self) -> Seq<u8> {
        self@
    }
}

/// What answers an identity challenge: the public key and the signature, in
/// base64.
pub fn identity_reply(identity: &SessionIdentity, signature: &Vec<u8>) -> (r: ClientMessage)
    requires
        identity@.len() <= crypto::LONGEST_ENCODED,
        signature@.len() <= crypto::LONGEST_ENCODED,
    ensures
        r@ == (ClientMessageView::AuthIdentity {
            public_key: crypto::base64_of(identity@),
            signature: crypto::base64_of(signature@),
        }),
{
    ClientMessage::AuthIdentity {
        public_key: crypto::base64_standard(identity.public_key.as_slice()),
        signature: crypto::base64_standard(signature.as_slice()),
    }
}

/// A signaling session, across its connections.
pub struct SignalingMachine {
    room_id: String,
    authentication: ClientFrame,
    has_identity: bool,
    attempt: u32,
    resume_token: Option<String>,
    pending: Vec<ClientFrame>,
    resuming: bool,
    authenticated: bool,
    held: Vec<ClientFrame>,
}

/// What a [`SignalingMachine`] holds.
#[verifier::ext_equal]
pub struct SignalingModel {
    pub room_id: Seq<char>,
    /// The credentials that the session started with.
    pub authentication: ClientFrameView,
    pub has_identity: bool,
    /// How often the connection was lost since it last authenticated.
    pub attempt: u32,
    pub resume_token: Option<Seq<char>>,
    /// User intent that has not reached the server yet, oldest first.
    pub pending: Seq<ClientFrameView>,
    /// Whether this connection resumes a session.
    pub resuming: bool,
    pub authenticated: bool,
    /// Reactive traffic from before this connection was authenticated.
    pub held: Seq<ClientFrameView>,
}

impl View for SignalingMachine {
    type V = SignalingModel;

    closed spec fn view(&self) -> SignalingModel {
        SignalingModel {
            room_id: self.room_id@,
            authentication: self.authentication@,
            has_identity: self.has_identity,
            attempt: self.attempt,
            resume_token: self.resume_token.deep_view(),
            pending: self.pending.deep_view(),
            resuming: self.resuming,
            authenticated: self.authenticated,
            held: self.held.deep_view(),
        }
    }
}

impl SignalingModel {
    /// What a connection opens with: the resume token where there is one, the
    /// credentials of the session otherwise.
    pub open spec fn opening(self, request_id: Seq<char>) -> ClientFrameView {
        match self.resume_token {
            Some(token) => ClientFrameView {
                request_id,
                message: ClientMessageView::SessionResume {
                    room_id: self.room_id,
                    resume_token: token,
                },
            },
            None => self.authentication,
        }
    }

    /// A connection is up, and not authenticated yet.
    pub open spec fn connected(self) -> SignalingModel {
        SignalingModel {
            resuming: self.resume_token is Some,
            authenticated: false,
            held: Seq::empty(),
            ..self
        }
    }

    /// The connection is lost. What was held for it is dropped.
    pub open spec fn lost(self) -> SignalingModel {
        SignalingModel {
            attempt: if self.attempt < u32::MAX {
                (self.attempt + 1) as u32
            } else {
                u32::MAX
            },
            authenticated: false,
            held: Seq::empty(),
            ..self
        }
    }

    /// Intent joins the queue; anything else is dropped.
    pub open spec fn queued(self, frame: ClientFrameView) -> SignalingModel {
        if carries_intent(frame.message) {
            SignalingModel { pending: self.pending.push(frame), ..self }
        } else {
            self
        }
    }

    /// The host asks for something while the connection is up. Before
    /// authentication everything is held back, as the server takes anything
    /// sent then for the authentication itself.
    pub open spec fn on_command(self, command: SignalingCommandView) -> (
        SignalingModel,
        ReactionView,
    ) {
        match command {
            SignalingCommandView::Disconnect { send_leave } => (
                self,
                ReactionView::Stop { send_leave },
            ),
            SignalingCommandView::Send { frame } => if self.authenticated {
                (self, ReactionView::Forward { frame })
            } else if carries_intent(frame.message) {
                (self.queued(frame), ReactionView::Wait)
            } else {
                (SignalingModel { held: self.held.push(frame), ..self }, ReactionView::Wait)
            },
        }
    }

    /// The host asks for something while there is no connection.
    pub open spec fn on_command_offline(self, command: SignalingCommandView) -> (
        SignalingModel,
        ReactionView,
    ) {
        match command {
            SignalingCommandView::Disconnect { .. } => (
                self,
                ReactionView::Stop { send_leave: false },
            ),
            SignalingCommandView::Send { frame } => (self.queued(frame), ReactionView::Redial),
        }
    }

    /// A frame was sent, or the connection failed under it. Intent is kept for
    /// the next connection, ahead of what waits already.
    pub open spec fn forwarded(self, frame: ClientFrameView, sent: bool) -> (
        SignalingModel,
        ReactionView,
    ) {
        if sent {
            (self, ReactionView::Wait)
        } else {
            (
                if carries_intent(frame.message) {
                    SignalingModel { pending: seq![frame] + self.pending, ..self }
                } else {
                    self
                },
                ReactionView::Lost,
            )
        }
    }

    /// The server says something.
    pub open spec fn on_message(self, message: ServerMessageView) -> (
        SignalingModel,
        ReactionView,
    ) {
        match message {
            ServerMessageView::HeartbeatPing { nonce, .. } => (
                self,
                ReactionView::Reply { message: ClientMessageView::HeartbeatPong { nonce } },
            ),
            ServerMessageView::AuthIdentityChallenge { nonce, .. } => (
                self,
                if self.has_identity {
                    ReactionView::Challenge { nonce }
                } else {
                    ReactionView::Wait
                },
            ),
            ServerMessageView::AuthSucceeded { resume_token, .. } => (
                SignalingModel {
                    resume_token: Some(resume_token),
                    attempt: 0,
                    authenticated: true,
                    ..self
                },
                ReactionView::Replay { frames: self.pending + self.held, message },
            ),
            ServerMessageView::AuthFailed { .. } => if self.resuming && !self.authenticated {
                (SignalingModel { resume_token: None, ..self }, ReactionView::Redial)
            } else {
                (
                    SignalingModel { resume_token: None, ..self },
                    ReactionView::Refused { message },
                )
            },
            ServerMessageView::Error { code, .. } => if code == ErrorCode::SessionExpired
                && self.resuming && !self.authenticated {
                (SignalingModel { resume_token: None, ..self }, ReactionView::Redial)
            } else {
                (self, ReactionView::Surface { message })
            },
            _ => (self, ReactionView::Surface { message }),
        }
    }

    /// So many of the replayed frames went out before one failed, or all did.
    /// Intent that did not go out stays queued; reactive traffic does not.
    pub open spec fn replayed(self, sent: nat) -> (SignalingModel, ReactionView) {
        (
            SignalingModel {
                pending: if sent < self.pending.len() {
                    self.pending.skip(sent as int)
                } else {
                    Seq::empty()
                },
                held: Seq::empty(),
                ..self
            },
            if sent < self.pending.len() + self.held.len() {
                ReactionView::Lost
            } else {
                ReactionView::Wait
            },
        )
    }
}

impl SignalingMachine {
    pub fn new(room_id: String, authentication: ClientFrame, has_identity: bool) -> (r: Self)
        ensures
            r@ == (SignalingModel {
                room_id: room_id@,
                authentication: authentication@,
                has_identity,
                attempt: 0,
                resume_token: None,
                pending: Seq::empty(),
                resuming: false,
                authenticated: false,
                held: Seq::empty(),
            }),
    {
        let r = SignalingMachine {
            room_id,
            authentication,
            has_identity,
            attempt: 0,
            resume_token: None,
            pending: Vec::new(),
            resuming: false,
            authenticated: false,
            held: Vec::new(),
        };
        assert(r@.pending =~= Seq::empty() && r@.held =~= Seq::empty());
        r
    }

    /// What to open a connection with; `request_id` is for a resumption.
    pub fn opening(&self, request_id: String) -> (r: ClientFrame)
        ensures
            r@ == self@.opening(request_id@),
    {
        match &self.resume_token {
            Some(token) => ClientFrame {
                request_id,
                message: ClientMessage::SessionResume {
                    room_id: self.room_id.clone(),
                    resume_token: token.clone(),
                },
            },
            None => self.authentication.clone(),
        }
    }

    /// A connection is up.
    pub fn connected(&mut self)
        ensures
            final(self)@ == old(self)@.connected(),
    {
        self.resuming = self.resume_token.is_some();
        self.authenticated = false;
        self.held = Vec::new();
        assert(self@ =~= old(self)@.connected());
    }

    /// The connection is lost; after how many attempts to back off.
    pub fn lost(&mut self) -> (attempt: u32)
        ensures
            attempt == old(self)@.attempt,
            final(self)@ == old(self)@.lost(),
    {
        let attempt: u32 = self.attempt;
        self.attempt = attempt.saturating_add(1);
        self.authenticated = false;
        self.held = Vec::new();
        assert(self@ =~= old(self)@.lost());
        attempt
    }

    fn queue(&mut self, frame: ClientFrame)
        ensures
            final(self)@ == old(self)@.queued(frame@),
    {
        if is_user_intent(&frame.message) {
            self.pending.push(frame);
            assert(self@.pending =~= old(self)@.pending.push(frame@));
        }
    }

    /// The host asks for something while the connection is up.
    pub fn on_command(&mut self, command: SignalingCommand) -> (r: Reaction)
        ensures
            (final(self)@, r@) == old(self)@.on_command(command@),
    {
        match command {
            SignalingCommand::Disconnect { send_leave } => Reaction::Stop { send_leave },
            SignalingCommand::Send { frame } => {
                if self.authenticated {
                    Reaction::Forward { frame }
                } else if is_user_intent(&frame.message) {
                    self.queue(frame);
                    Reaction::Wait
                } else {
                    self.held.push(frame);
                    assert(self@.held =~= old(self)@.held.push(frame@));
                    Reaction::Wait
                }
            },
        }
    }

    /// The host asks for something while there is no connection.
    pub fn on_command_offline(&mut self, command: SignalingCommand) -> (r: Reaction)
        ensures
            (final(self)@, r@) == old(self)@.on_command_offline(command@),
    {
        match command {
            SignalingCommand::Disconnect { .. } => Reaction::Stop { send_leave: false },
            SignalingCommand::Send { frame } => {
                self.queue(frame);
                Reaction::Redial
            },
        }
    }

    /// A forwarded frame was sent, or the connection failed under it.
    pub fn forwarded(&mut self, frame: ClientFrame, sent: bool) -> (r: Reaction)
        ensures
            (final(self)@, r@) == old(self)@.forwarded(frame@, sent),
    {
        if sent {
            return Reaction::Wait;
        }
        if is_user_intent(&frame.message) {
            self.pending.insert(0, frame);
            assert(self@.pending =~= seq![frame@] + old(self)@.pending);
        }
        Reaction::Lost
    }

    /// The server says something.
    pub fn on_message(&mut self, message: ServerMessage) -> (r: Reaction)
        ensures
            (final(self)@, r@) == old(self)@.on_message(message@),
    {
        match &message {
            ServerMessage::HeartbeatPing { nonce, .. } => {
                return Reaction::Reply {
                    message: ClientMessage::HeartbeatPong { nonce: nonce.clone() },
                };
            },
            ServerMessage::AuthIdentityChallenge { nonce, .. } => {
                return if self.has_identity {
                    Reaction::Challenge { nonce: nonce.clone() }
                } else {
                    Reaction::Wait
                };
            },
            ServerMessage::AuthSucceeded { resume_token, .. } => {
                self.resume_token = Some(resume_token.clone());
                self.attempt = 0;
                self.authenticated = true;
                let mut frames = self.pending.clone();
                assert(frames.deep_view() =~= old(self)@.pending);
                for i in 0..self.held.len()
                    invariant
                        self@.held == old(self)@.held,
                        frames.deep_view() == old(self)@.pending + old(self)@.held.take(i as int),
                {
                    let ghost before = frames.deep_view();
                    frames.push(self.held[i].clone());
                    assert(frames.deep_view() =~= before.push(old(self)@.held[i as int]));
                    assert(frames.deep_view() =~= old(self)@.pending + old(self)@.held.take(i + 1));
                }
                assert(old(self)@.held.take(old(self)@.held.len() as int) =~= old(self)@.held);
                return Reaction::Replay { frames, message };
            },
            ServerMessage::AuthFailed { .. } => {
                self.resume_token = None;
                return if self.resuming && !self.authenticated {
                    Reaction::Redial
                } else {
                    Reaction::Refused { message }
                };
            },
            ServerMessage::Error { code, .. } => {
                if *code == ErrorCode::SessionExpired && self.resuming && !self.authenticated {
                    self.resume_token = None;
                    return Reaction::Redial;
                }
            },
            _ => {},
        }
        Reaction::Surface { message }
    }

    /// So many of the replayed frames went out.
    pub fn replayed(&mut self, sent: usize) -> (r: Reaction)
        ensures
            (final(self)@, r@) == old(self)@.replayed(sent as nat),
    {
        let queued: usize = self.pending.len();
        let behind: usize = self.held.len();
        if sent < queued {
            let rest = self.pending.split_off(sent);
            self.pending = rest;
            assert(self@.pending =~= old(self)@.pending.skip(sent as int));
        } else {
            self.pending = Vec::new();
            assert(self@.pending =~= Seq::empty());
        }
        self.held = Vec::new();
        assert(self@.held =~= Seq::empty());
        if sent < queued || sent - queued < behind {
            Reaction::Lost
        } else {
            Reaction::Wait
        }
    }
}

/// Intent is never dropped by an outage: what was queued before stays queued,
/// in order, whatever is asked for while there is no connection.
pub proof fn law_intent_survives_outages(machine: SignalingModel, command: SignalingCommandView)
    ensures
        ({
            let after = machine.lost().on_command_offline(command).0;
            &&& after.pending.len() >= machine.pending.len()
            &&& after.pending.take(machine.pending.len() as int) == machine.pending
            &&& command matches SignalingCommandView::Send { frame } ==> (after.pending.contains(
                frame,
            ) || !carries_intent(frame.message))
        }),
{
    let after = machine.lost().on_command_offline(command).0;
    assert(after.pending.take(machine.pending.len() as int) =~= machine.pending);
    if let SignalingCommandView::Send { frame } = command {
        if carries_intent(frame.message) {
            assert(after.pending[machine.pending.len() as int] == frame);
        }
    }
}

/// Nothing is sent before the connection is authenticated: what the host asks
/// for then is queued or held, and comes out, intent first, right after.
pub proof fn law_everything_waits_for_authentication(
    machine: SignalingModel,
    frame: ClientFrameView,
    message: ServerMessageView,
)
    requires
        !machine.authenticated,
        message is AuthSucceeded,
    ensures
        ({
            let (waiting, reaction) = machine.on_command(SignalingCommandView::Send { frame });
            &&& reaction == ReactionView::Wait
            &&& waiting.on_message(message).1 matches ReactionView::Replay { frames, .. }
                && frames.contains(frame) && frames == waiting.pending + waiting.held
        }),
{
    let waiting = machine.on_command(SignalingCommandView::Send { frame }).0;
    let frames = waiting.pending + waiting.held;
    if carries_intent(frame.message) {
        assert(frames[machine.pending.len() as int] == frame);
    } else {
        assert(frames[frames.len() - 1] == frame);
    }
}

/// A resumption that the server refuses falls back to the credentials that the
/// session started with, and keeps the queued intent.
pub proof fn law_a_refused_resume_falls_back(
    machine: SignalingModel,
    message: ServerMessageView,
    request_id: Seq<char>,
)
    requires
        machine.resuming,
        !machine.authenticated,
        message is AuthFailed || (message matches ServerMessageView::Error { code, .. } && code
            == ErrorCode::SessionExpired),
    ensures
        ({
            let (after, reaction) = machine.on_message(message);
            &&& reaction == ReactionView::Redial
            &&& after.opening(request_id) == machine.authentication
            &&& after.pending == machine.pending
            &&& !after.connected().resuming
        }),
{
}

/// Once authenticated, the next connection resumes with the token that came
/// with it.
pub proof fn law_reconnects_resume(
    machine: SignalingModel,
    message: ServerMessageView,
    request_id: Seq<char>,
)
    requires
        message is AuthSucceeded,
    ensures
        ({
            let after = machine.on_message(message).0.lost();
            &&& after.connected().resuming
            &&& after.opening(request_id).message == (ClientMessageView::SessionResume {
                room_id: machine.room_id,
                resume_token: message->AuthSucceeded_resume_token,
            })
            &&& after.attempt == 1
        }),
{
}

/// Heartbeats and identity challenges are never surfaced.
pub proof fn law_heartbeats_stay_inside(machine: SignalingModel, message: ServerMessageView)
    requires
        message is HeartbeatPing || message is AuthIdentityChallenge,
    ensures
        !(machine.on_message(message).1 is Surface),
        machine.on_message(message).0 == machine,
{
}

/// A replay that breaks off loses no intent: what went out is no longer
/// queued, and the rest still is.
pub proof fn law_a_broken_replay_keeps_the_rest(machine: SignalingModel, sent: nat)
    requires
        sent < machine.pending.len(),
    ensures
        machine.replayed(sent).0.pending == machine.pending.skip(sent as int),
        machine.replayed(sent).1 == ReactionView::Lost,
{
}

} // verus!
