//! The client half of the presence channel.
//!
//! A session proves its identity, keeps its contact subscription and hosting
//! announcement applied across reconnects, and reports the presence of friends.
use vstd::prelude::*;
use vstd::string::*;

use crate::crypto;
use crate::crypto::Secret;
use crate::protocol::{
    FriendPresence, FriendPresenceView, HostedRoom, HostedRoomView, PresenceClientMessage,
    PresenceClientMessageView, PresenceServerMessage, PresenceServerMessageView,
};

verus! {

/// Where a presence connection stands.
#[derive(Debug, Clone, Copy, PartialEq, Eq, Structural)]
pub enum PresenceState {
    Connecting,
    Connected,
    Reconnecting,
    Closed,
}

impl DeepView for PresenceState {
    type V = PresenceState;

    open spec fn deep_view(&self) -> PresenceState {
        *self
    }
}

/// What a session reports.
#[derive(Debug, PartialEq, Eq)]
pub enum PresenceEvent {
    State(PresenceState),
    /// The friend code that the server derived from the identity's key.
    Ready {
        code: String,
    },
    /// All the friends that are visible.
    Snapshot(Vec<FriendPresence>),
    /// One friend changed.
    Update(FriendPresence),
    /// All the codes that wait to be added back.
    Requests(Vec<String>),
}

/// What a [`PresenceEvent`] holds.
#[verifier::ext_equal]
pub enum PresenceEventView {
    State(PresenceState),
    Ready { code: Seq<char> },
    Snapshot(Seq<FriendPresenceView>),
    Update(FriendPresenceView),
    Requests(Seq<Seq<char>>),
}

impl View for PresenceEvent {
    type V = PresenceEventView;

    open spec fn view(&self) -> PresenceEventView {
        match self {
            PresenceEvent::State(first) => PresenceEventView::State(*first),
            PresenceEvent::Ready { code } => PresenceEventView::Ready {
                code: code@,
            },
            PresenceEvent::Snapshot(first) => PresenceEventView::Snapshot(first.deep_view()),
            PresenceEvent::Update(first) => PresenceEventView::Update(first@),
            PresenceEvent::Requests(first) => PresenceEventView::Requests(first.deep_view()),
        }
    }
}

impl DeepView for PresenceEvent {
    type V = PresenceEventView;

    open spec fn deep_view(&self) -> PresenceEventView {
        self@
    }
}

impl Clone for PresenceEvent {
    fn clone(&self) -> (r: Self)
        ensures
            r@ == self@,
    {
        match self {
            PresenceEvent::State(first) => PresenceEvent::State(*first),
            PresenceEvent::Ready { code } => PresenceEvent::Ready {
                code: code.clone(),
            },
            PresenceEvent::Snapshot(first) => {
                let first_copy = first.clone();
                assert(first_copy.deep_view() =~= first.deep_view());
                PresenceEvent::Snapshot(first_copy)
            },
            PresenceEvent::Update(first) => PresenceEvent::Update(first.clone()),
            PresenceEvent::Requests(first) => {
                let first_copy = first.clone();
                assert(first_copy.deep_view() =~= first.deep_view());
                PresenceEvent::Requests(first_copy)
            },
        }
    }
}

/// A hosting announcement: the room to show friends, and the presenter secret
/// that proves it. The secret goes to the server alone.
pub struct HostingAnnouncement {
    pub room: HostedRoom,
    pub presenter_secret: Secret,
}

/// What a [`HostingAnnouncement`] holds.
#[verifier::ext_equal]
pub struct HostingAnnouncementView {
    pub room: HostedRoomView,
    pub presenter_secret: Seq<char>,
}

impl View for HostingAnnouncement {
    type V = HostingAnnouncementView;

    open spec fn view(&self) -> HostingAnnouncementView {
        HostingAnnouncementView { room: self.room@, presenter_secret: self.presenter_secret@ }
    }
}

impl DeepView for HostingAnnouncement {
    type V = HostingAnnouncementView;

    open spec fn deep_view(&self) -> HostingAnnouncementView {
        self@
    }
}

impl Clone for HostingAnnouncement {
    fn clone(&self) -> (r: Self)
        ensures
            r@ == self@,
    {
        HostingAnnouncement {
            room: self.room.clone(),
            presenter_secret: self.presenter_secret.clone(),
        }
    }
}

/// What a host asks of a session.
pub enum PresenceCommand {
    /// Watch these friends instead.
    Subscribe(Vec<String>),
    /// Show this room to friends, or none.
    Announce(Option<HostingAnnouncement>),
    /// End the session for good.
    Stop,
}

/// What a [`PresenceCommand`] holds.
#[verifier::ext_equal]
pub enum PresenceCommandView {
    Subscribe(Seq<Seq<char>>),
    Announce(Option<HostingAnnouncementView>),
    Stop,
}

impl View for PresenceCommand {
    type V = PresenceCommandView;

    open spec fn view(&self) -> PresenceCommandView {
        match self {
            PresenceCommand::Subscribe(first) => PresenceCommandView::Subscribe(first.deep_view()),
            PresenceCommand::Announce(first) => PresenceCommandView::Announce(first.deep_view()),
            PresenceCommand::Stop => PresenceCommandView::Stop,
        }
    }
}

impl DeepView for PresenceCommand {
    type V = PresenceCommandView;

    open spec fn deep_view(&self) -> PresenceCommandView {
        self@
    }
}

/// What to do next, in order. A send that fails loses the connection.
#[derive(Debug, PartialEq, Eq)]
pub enum PresenceAction {
    /// Report this.
    Emit(PresenceEvent),
    /// Sign this challenge and send the hello.
    Sign {
        nonce: String,
    },
    /// Send this.
    Send(PresenceClientMessage),
    /// The connection is lost.
    Lost,
    /// Close the connection.
    Stopped,
}

/// What a [`PresenceAction`] holds.
#[verifier::ext_equal]
pub enum PresenceActionView {
    Emit(PresenceEventView),
    Sign { nonce: Seq<char> },
    Send(PresenceClientMessageView),
    Lost,
    Stopped,
}

impl View for PresenceAction {
    type V = PresenceActionView;

    open spec fn view(&self) -> PresenceActionView {
        match self {
            PresenceAction::Emit(first) => PresenceActionView::Emit(first@),
            PresenceAction::Sign { nonce } => PresenceActionView::Sign {
                nonce: nonce@,
            },
            PresenceAction::Send(first) => PresenceActionView::Send(first@),
            PresenceAction::Lost => PresenceActionView::Lost,
            PresenceAction::Stopped => PresenceActionView::Stopped,
        }
    }
}

impl DeepView for PresenceAction {
    type V = PresenceActionView;

    open spec fn deep_view(&self) -> PresenceActionView {
        self@
    }
}

impl Clone for PresenceAction {
    fn clone(&self) -> (r: Self)
        ensures
            r@ == self@,
    {
        match self {
            PresenceAction::Emit(first) => PresenceAction::Emit(first.clone()),
            PresenceAction::Sign { nonce } => PresenceAction::Sign {
                nonce: nonce.clone(),
            },
            PresenceAction::Send(first) => PresenceAction::Send(first.clone()),
            PresenceAction::Lost => PresenceAction::Lost,
            PresenceAction::Stopped => PresenceAction::Stopped,
        }
    }
}

/// How far a connection has come.
#[derive(Debug, Clone, Copy, PartialEq, Eq, Structural)]
pub enum PresenceStep {
    /// There is no connection.
    Offline,
    /// The challenge is awaited.
    Challenged,
    /// The hello went out.
    Proving,
    /// The server accepted the identity.
    Ready,
}

impl DeepView for PresenceStep {
    type V = PresenceStep;

    open spec fn deep_view(&self) -> PresenceStep {
        *self
    }
}

/// The message that watches these friends.
pub open spec fn subscription(codes: Seq<Seq<char>>) -> PresenceClientMessageView {
    PresenceClientMessageView::Subscribe { codes }
}

/// The message that shows this room, or none.
pub open spec fn announcement(hosting: Option<HostingAnnouncementView>) -> PresenceClientMessageView {
    match hosting {
        Some(hosting) => PresenceClientMessageView::Announce {
            hosting: Some(hosting.room),
            presenter_secret: Some(hosting.presenter_secret),
        },
        None => PresenceClientMessageView::Announce { hosting: None, presenter_secret: None },
    }
}

pub fn subscribe_message(codes: &Vec<String>) -> (r: PresenceClientMessage)
    ensures
        r@ == subscription(codes.deep_view()),
{
    let copy = codes.clone();
    assert(copy.deep_view() =~= codes.deep_view());
    PresenceClientMessage::Subscribe { codes: copy }
}

pub fn announce_message(hosting: &Option<HostingAnnouncement>) -> (r: PresenceClientMessage)
    ensures
        r@ == announcement(hosting.deep_view()),
{
    match hosting {
        Some(hosting) => PresenceClientMessage::Announce {
            hosting: Some(hosting.room.clone()),
            presenter_secret: Some(crypto::secret_as_str(&hosting.presenter_secret).to_owned()),
        },
        None => PresenceClientMessage::Announce { hosting: None, presenter_secret: None },
    }
}

/// Where the presence channel is, and who connects to it. Whoever holds the key
/// signs.
#[derive(Debug, PartialEq, Eq)]
pub struct PresenceConfig {
    pub url: String,
    /// The web origin, which the server expects.
    pub origin: String,
    pub public_key: Vec<u8>,
}

/// What a [`PresenceConfig`] holds.
#[verifier::ext_equal]
pub struct PresenceConfigView {
    pub url: Seq<char>,
    pub origin: Seq<char>,
    pub public_key: Seq<u8>,
}

impl View for PresenceConfig {
    type V = PresenceConfigView;

    open spec fn view(&self) -> PresenceConfigView {
        PresenceConfigView {
            url: self.url@,
            origin: self.origin@,
            public_key: self.public_key@,
        }
    }
}

impl DeepView for PresenceConfig {
    type V = PresenceConfigView;

    open spec fn deep_view(&self) -> PresenceConfigView {
        self@
    }
}

/// The hello that proves an identity: the public key and the signature of the
/// challenge, in base64.
pub fn hello_message(config: &PresenceConfig, signature: &Vec<u8>) -> (r: PresenceClientMessage)
    requires
        config@.public_key.len() <= crypto::LONGEST_ENCODED,
        signature@.len() <= crypto::LONGEST_ENCODED,
    ensures
        r@ == (PresenceClientMessageView::Hello {
            public_key: crypto::base64_of(config@.public_key),
            signature: crypto::base64_of(signature@),
        }),
{
    PresenceClientMessage::Hello {
        public_key: crypto::base64_standard(config.public_key.as_slice()),
        signature: crypto::base64_standard(signature.as_slice()),
    }
}

/// A presence session, across its connections.
pub struct PresenceMachine {
    codes: Vec<String>,
    hosting: Option<HostingAnnouncement>,
    attempt: u32,
    step: PresenceStep,
}

/// What a [`PresenceMachine`] holds.
#[verifier::ext_equal]
pub struct PresenceMachineView {
    /// The friends to watch.
    pub codes: Seq<Seq<char>>,
    /// The room to show.
    pub hosting: Option<HostingAnnouncementView>,
    /// How often the connection was lost.
    pub attempt: u32,
    pub step: PresenceStep,
}

impl View for PresenceMachine {
    type V = PresenceMachineView;

    closed spec fn view(&self) -> PresenceMachineView {
        PresenceMachineView {
            codes: self.codes.deep_view(),
            hosting: self.hosting.deep_view(),
            attempt: self.attempt,
            step: self.step,
        }
    }
}

impl PresenceMachineView {
    pub open spec fn at(self, step: PresenceStep) -> PresenceMachineView {
        PresenceMachineView { step, ..self }
    }

    /// A connection is up.
    pub open spec fn connected(self) -> PresenceMachineView {
        self.at(PresenceStep::Challenged)
    }

    /// The connection is lost.
    pub open spec fn lost(self) -> PresenceMachineView {
        PresenceMachineView {
            attempt: if self.attempt < u32::MAX {
                (self.attempt + 1) as u32
            } else {
                u32::MAX
            },
            step: PresenceStep::Offline,
            ..self
        }
    }

    /// What a connection that was just accepted starts with: who this is, that
    /// it is connected, the subscription, and the announcement where a room is
    /// hosted.
    pub open spec fn greeting(self, code: Seq<char>) -> Seq<PresenceActionView> {
        let always = seq![
            PresenceActionView::Emit(PresenceEventView::Ready { code }),
            PresenceActionView::Emit(PresenceEventView::State(PresenceState::Connected)),
            PresenceActionView::Send(subscription(self.codes)),
        ];
        if self.hosting is Some {
            always.push(PresenceActionView::Send(announcement(self.hosting)))
        } else {
            always
        }
    }

    /// The server says something; `None` where it could not be read.
    pub open spec fn on_message(self, message: Option<PresenceServerMessageView>) -> (
        PresenceMachineView,
        Seq<PresenceActionView>,
    ) {
        match (self.step, message) {
            (
                PresenceStep::Challenged,
                Some(PresenceServerMessageView::Challenge { nonce, .. }),
            ) => (self.at(PresenceStep::Proving), seq![PresenceActionView::Sign { nonce }]),
            (PresenceStep::Proving, Some(PresenceServerMessageView::Ready { code, .. })) => (
                self.at(PresenceStep::Ready),
                self.greeting(code),
            ),
            (PresenceStep::Ready, Some(message)) => (
                self,
                match message {
                    PresenceServerMessageView::Snapshot { friends, .. } => seq![
                        PresenceActionView::Emit(PresenceEventView::Snapshot(friends)),
                    ],
                    PresenceServerMessageView::Update { friend, .. } => seq![
                        PresenceActionView::Emit(PresenceEventView::Update(friend)),
                    ],
                    PresenceServerMessageView::Requests { codes, .. } => seq![
                        PresenceActionView::Emit(PresenceEventView::Requests(codes)),
                    ],
                    _ => Seq::empty(),
                },
            ),
            _ => (self, seq![PresenceActionView::Lost]),
        }
    }

    /// The host asks for something. What it wants is kept for the next
    /// connection, and sent at once on one that was accepted.
    pub open spec fn on_command(self, command: PresenceCommandView) -> (
        PresenceMachineView,
        Seq<PresenceActionView>,
    ) {
        let ready = self.step == PresenceStep::Ready;
        match command {
            PresenceCommandView::Stop => (self, seq![PresenceActionView::Stopped]),
            PresenceCommandView::Subscribe(codes) => (
                PresenceMachineView { codes, ..self },
                if ready {
                    seq![PresenceActionView::Send(subscription(codes))]
                } else {
                    Seq::empty()
                },
            ),
            PresenceCommandView::Announce(hosting) => (
                PresenceMachineView { hosting, ..self },
                if ready {
                    seq![PresenceActionView::Send(announcement(hosting))]
                } else {
                    Seq::empty()
                },
            ),
        }
    }
}

impl PresenceMachine {
    pub fn new() -> (r: Self)
        ensures
            r@ == (PresenceMachineView {
                codes: Seq::empty(),
                hosting: None,
                attempt: 0,
                step: PresenceStep::Offline,
            }),
    {
        let r = PresenceMachine {
            codes: Vec::new(),
            hosting: None,
            attempt: 0,
            step: PresenceStep::Offline,
        };
        assert(r@.codes =~= Seq::empty());
        r
    }

    /// Whether the host is to be listened to: not while a connection is being
    /// accepted.
    pub fn takes_commands(&self) -> (r: bool)
        ensures
            r == (self@.step == PresenceStep::Ready || self@.step == PresenceStep::Offline),
    {
        self.step == PresenceStep::Ready || self.step == PresenceStep::Offline
    }

    /// A connection is up.
    pub fn connected(&mut self)
        ensures
            final(self)@ == old(self)@.connected(),
    {
        self.step = PresenceStep::Challenged;
    }

    /// The connection is lost; after how many attempts to back off.
    pub fn lost(&mut self) -> (attempt: u32)
        ensures
            attempt == old(self)@.attempt,
            final(self)@ == old(self)@.lost(),
    {
        let attempt: u32 = self.attempt;
        self.attempt = attempt.saturating_add(1);
        self.step = PresenceStep::Offline;
        attempt
    }

    fn greeting(&self, code: String) -> (r: Vec<PresenceAction>)
        ensures
            r.deep_view() == self@.greeting(code@),
    {
        let mut r: Vec<PresenceAction> = Vec::new();
        r.push(PresenceAction::Emit(PresenceEvent::Ready { code }));
        r.push(PresenceAction::Emit(PresenceEvent::State(PresenceState::Connected)));
        r.push(PresenceAction::Send(subscribe_message(&self.codes)));
        if self.hosting.is_some() {
            r.push(PresenceAction::Send(announce_message(&self.hosting)));
        }
        assert(r.deep_view() =~= self@.greeting(code@));
        r
    }

    /// The server says something; `None` where it could not be read.
    pub fn on_message(&mut self, message: Option<PresenceServerMessage>) -> (r: Vec<PresenceAction>)
        ensures
            (final(self)@, r.deep_view()) == old(self)@.on_message(message.deep_view()),
    {
        let mut r: Vec<PresenceAction> = Vec::new();
        match self.step {
            PresenceStep::Challenged => {
                if let Some(PresenceServerMessage::Challenge { nonce, .. }) = message {
                    self.step = PresenceStep::Proving;
                    r.push(PresenceAction::Sign { nonce });
                } else {
                    r.push(PresenceAction::Lost);
                }
            },
            PresenceStep::Proving => {
                if let Some(PresenceServerMessage::Ready { code, .. }) = message {
                    self.step = PresenceStep::Ready;
                    r = self.greeting(code);
                } else {
                    r.push(PresenceAction::Lost);
                }
            },
            PresenceStep::Ready => match message {
                Some(PresenceServerMessage::Snapshot { friends, .. }) => {
                    r.push(PresenceAction::Emit(PresenceEvent::Snapshot(friends)));
                },
                Some(PresenceServerMessage::Update { friend, .. }) => {
                    r.push(PresenceAction::Emit(PresenceEvent::Update(friend)));
                },
                Some(PresenceServerMessage::Requests { codes, .. }) => {
                    r.push(PresenceAction::Emit(PresenceEvent::Requests(codes)));
                },
                Some(_) => {},
                None => {
                    r.push(PresenceAction::Lost);
                },
            },
            PresenceStep::Offline => {
                r.push(PresenceAction::Lost);
            },
        }
        assert(r.deep_view() =~= old(self)@.on_message(message.deep_view()).1);
        r
    }

    /// The host asks for something.
    pub fn on_command(&mut self, command: PresenceCommand) -> (r: Vec<PresenceAction>)
        ensures
            (final(self)@, r.deep_view()) == old(self)@.on_command(command@),
    {
        let mut r: Vec<PresenceAction> = Vec::new();
        let ready = self.step == PresenceStep::Ready;
        match command {
            PresenceCommand::Stop => {
                r.push(PresenceAction::Stopped);
            },
            PresenceCommand::Subscribe(codes) => {
                if ready {
                    r.push(PresenceAction::Send(subscribe_message(&codes)));
                }
                self.codes = codes;
            },
            PresenceCommand::Announce(hosting) => {
                if ready {
                    r.push(PresenceAction::Send(announce_message(&hosting)));
                }
                self.hosting = hosting;
            },
        }
        assert(r.deep_view() =~= old(self)@.on_command(command@).1);
        r
    }
}

/// What a session wants is applied again on every connection: whatever the host
/// asked for last, before or during an outage, is what the next connection that
/// is accepted starts with.
pub proof fn law_intent_is_reapplied(
    m: PresenceMachineView,
    codes: Seq<Seq<char>>,
    hosting: Option<HostingAnnouncementView>,
    challenge: PresenceServerMessageView,
    ready: PresenceServerMessageView,
)
    requires
        challenge is Challenge,
        ready is Ready,
    ensures
        ({
            let wanted = m.on_command(PresenceCommandView::Subscribe(codes)).0.lost().on_command(
                PresenceCommandView::Announce(hosting),
            ).0;
            let actions = wanted.connected().on_message(Some(challenge)).0.on_message(
                Some(ready),
            ).1;
            &&& actions.contains(PresenceActionView::Send(subscription(codes)))
            &&& hosting is Some ==> actions.contains(
                PresenceActionView::Send(announcement(hosting)),
            )
            &&& wanted.on_command(PresenceCommandView::Announce(None)).0.greeting(
                ready->Ready_code,
            ).len() == 3
        }),
{
    let wanted = m.on_command(PresenceCommandView::Subscribe(codes)).0.lost().on_command(
        PresenceCommandView::Announce(hosting),
    ).0;
    let actions = wanted.connected().on_message(Some(challenge)).0.on_message(Some(ready)).1;
    assert(actions[2] == PresenceActionView::Send(subscription(codes)));
    if hosting is Some {
        assert(actions[3] == PresenceActionView::Send(announcement(hosting)));
    }
}

/// Nothing but the hello is sent before the server accepted the identity.
pub proof fn law_nothing_is_sent_unproven(
    m: PresenceMachineView,
    command: PresenceCommandView,
)
    requires
        m.step != PresenceStep::Ready,
    ensures
        forall|i: int|
            0 <= i < m.on_command(command).1.len() ==> !(#[trigger] m.on_command(command).1[i]
                is Send),
{
}

} // verus!
