//! What the window shows of the room that it hosts.
use vstd::prelude::*;
use vstd::string::*;

use super::moments;
use super::moments::{BitrateHistory, Moment, RoomCountdown};
use crate::client::presenter::types::{
    ConnectionState, PresenterEnd, PresenterErrorView, PresenterUpdate, PresenterUpdateView,
};
use crate::client::presenter::PresenterError;
use crate::client::signaling::SignalingState;
use crate::crypto::Secret;
use crate::protocol::SharingState;
use crate::seqs;
use crate::text;

verus! {

/// One chat message of a room.
#[derive(Debug, PartialEq, Eq)]
pub struct ChatMessage {
    pub from: String,
    pub text: String,
    /// Whether this user sent it.
    pub own: bool,
}

/// What a [`ChatMessage`] holds.
#[verifier::ext_equal]
pub struct ChatMessageView {
    pub from: Seq<char>,
    pub text: Seq<char>,
    pub own: bool,
}

impl View for ChatMessage {
    type V = ChatMessageView;

    open spec fn view(&self) -> ChatMessageView {
        ChatMessageView {
            from: self.from@,
            text: self.text@,
            own: self.own,
        }
    }
}

impl DeepView for ChatMessage {
    type V = ChatMessageView;

    open spec fn deep_view(&self) -> ChatMessageView {
        self@
    }
}

impl Clone for ChatMessage {
    fn clone(&self) -> (r: Self)
        ensures
            r@ == self@,
    {
        let r = ChatMessage {
            from: self.from.clone(),
            text: self.text.clone(),
            own: self.own,
        };
        r
    }
}

/// One viewer of the hosted room, with what is known of its stream.
#[derive(Debug, PartialEq, Eq)]
pub struct ViewerCard {
    pub name: String,
    pub connected: bool,
    pub bitrate_kbps: Option<u32>,
    /// The round trip in microseconds.
    pub round_trip_us: Option<u64>,
    pub packets_lost: Option<i64>,
    /// How many packets were sent in all.
    pub packets_sent: Option<u64>,
    pub target_kbps: u32,
    pub codec: Option<String>,
}

/// What a [`ViewerCard`] holds.
#[verifier::ext_equal]
pub struct ViewerCardView {
    pub name: Seq<char>,
    pub connected: bool,
    pub bitrate_kbps: Option<u32>,
    pub round_trip_us: Option<u64>,
    pub packets_lost: Option<i64>,
    pub packets_sent: Option<u64>,
    pub target_kbps: u32,
    pub codec: Option<Seq<char>>,
}

impl View for ViewerCard {
    type V = ViewerCardView;

    open spec fn view(&self) -> ViewerCardView {
        ViewerCardView {
            name: self.name@,
            connected: self.connected,
            bitrate_kbps: self.bitrate_kbps,
            round_trip_us: self.round_trip_us,
            packets_lost: self.packets_lost,
            packets_sent: self.packets_sent,
            target_kbps: self.target_kbps,
            codec: self.codec.deep_view(),
        }
    }
}

impl DeepView for ViewerCard {
    type V = ViewerCardView;

    open spec fn deep_view(&self) -> ViewerCardView {
        self@
    }
}

impl Clone for ViewerCard {
    fn clone(&self) -> (r: Self)
        ensures
            r@ == self@,
    {
        let r = ViewerCard {
            name: self.name.clone(),
            connected: self.connected,
            bitrate_kbps: self.bitrate_kbps,
            round_trip_us: self.round_trip_us,
            packets_lost: self.packets_lost,
            packets_sent: self.packets_sent,
            target_kbps: self.target_kbps,
            codec: self.codec.clone(),
        };
        r
    }
}

/// A viewer, by its peer identifier.
#[derive(Debug, PartialEq, Eq)]
pub struct ViewerEntry {
    pub peer_id: String,
    pub card: ViewerCard,
}

/// What a [`ViewerEntry`] holds.
#[verifier::ext_equal]
pub struct ViewerEntryView {
    pub peer_id: Seq<char>,
    pub card: ViewerCardView,
}

impl View for ViewerEntry {
    type V = ViewerEntryView;

    open spec fn view(&self) -> ViewerEntryView {
        ViewerEntryView {
            peer_id: self.peer_id@,
            card: self.card@,
        }
    }
}

impl DeepView for ViewerEntry {
    type V = ViewerEntryView;

    open spec fn deep_view(&self) -> ViewerEntryView {
        self@
    }
}

impl Clone for ViewerEntry {
    fn clone(&self) -> (r: Self)
        ensures
            r@ == self@,
    {
        let r = ViewerEntry {
            peer_id: self.peer_id.clone(),
            card: self.card.clone(),
        };
        r
    }
}

/// A viewer that waits to be let in.
#[derive(Debug, PartialEq, Eq)]
pub struct JoinRequest {
    pub peer_id: String,
    pub name: Option<String>,
    pub friend_code: Option<String>,
}

/// What a [`JoinRequest`] holds.
#[verifier::ext_equal]
pub struct JoinRequestView {
    pub peer_id: Seq<char>,
    pub name: Option<Seq<char>>,
    pub friend_code: Option<Seq<char>>,
}

impl View for JoinRequest {
    type V = JoinRequestView;

    open spec fn view(&self) -> JoinRequestView {
        JoinRequestView {
            peer_id: self.peer_id@,
            name: self.name.deep_view(),
            friend_code: self.friend_code.deep_view(),
        }
    }
}

impl DeepView for JoinRequest {
    type V = JoinRequestView;

    open spec fn deep_view(&self) -> JoinRequestView {
        self@
    }
}

impl Clone for JoinRequest {
    fn clone(&self) -> (r: Self)
        ensures
            r@ == self@,
    {
        let r = JoinRequest {
            peer_id: self.peer_id.clone(),
            name: self.name.clone(),
            friend_code: self.friend_code.clone(),
        };
        r
    }
}

/// The session that hosts a room.
pub struct PresenterView {
    /// There is a session.
    pub active: bool,
    /// The room was created on the server.
    pub open: bool,
    /// Whether the room is idle, live or paused. The room outlives sharing.
    pub sharing: SharingState,
    /// A short status line.
    pub status: String,
    /// The session ended, for the reason in the status line.
    pub ended: bool,
    /// The signaling connection is being made again.
    pub reconnecting: bool,
    pub room_id: Option<String>,
    pub viewer_url: Option<String>,
    /// What proves to the presence channel that this is the host.
    pub presenter_secret: Option<Secret>,
    pub countdown: Option<RoomCountdown>,
    /// The size of the preview.
    pub frame_size: Option<(u32, u32)>,
    /// The viewers, each once.
    pub viewers: Vec<ViewerEntry>,
    /// The viewers that wait, oldest first.
    pub requests: Vec<JoinRequest>,
    pub messages: Vec<ChatMessage>,
    /// The whole outgoing bitrate of the last minute.
    pub bitrate_history: BitrateHistory,
    /// What the encoder may use at most.
    pub target_ceiling_kbps: u32,
}

/// What a [`PresenterView`] holds.
#[verifier::ext_equal]
pub struct HostingModel {
    pub active: bool,
    pub open: bool,
    pub sharing: SharingState,
    pub status: Seq<char>,
    pub ended: bool,
    pub reconnecting: bool,
    pub room_id: Option<Seq<char>>,
    pub viewer_url: Option<Seq<char>>,
    pub presenter_secret: Option<Seq<char>>,
    pub countdown: Option<RoomCountdown>,
    pub frame_size: Option<(u32, u32)>,
    pub viewers: Seq<ViewerEntryView>,
    pub requests: Seq<JoinRequestView>,
    pub messages: Seq<ChatMessageView>,
    pub bitrate_history: Seq<(Moment, u32)>,
    pub target_ceiling_kbps: u32,
}

impl View for PresenterView {
    type V = HostingModel;

    open spec fn view(&self) -> HostingModel {
        HostingModel {
            active: self.active,
            open: self.open,
            sharing: self.sharing,
            status: self.status@,
            ended: self.ended,
            reconnecting: self.reconnecting,
            room_id: self.room_id.deep_view(),
            viewer_url: self.viewer_url.deep_view(),
            presenter_secret: self.presenter_secret.deep_view(),
            countdown: self.countdown,
            frame_size: self.frame_size,
            viewers: self.viewers.deep_view(),
            requests: self.requests.deep_view(),
            messages: self.messages.deep_view(),
            bitrate_history: self.bitrate_history@,
            target_ceiling_kbps: self.target_ceiling_kbps,
        }
    }
}

impl DeepView for PresenterView {
    type V = HostingModel;

    open spec fn deep_view(&self) -> HostingModel {
        self@
    }
}

/// What happens to the hosted room.
pub enum HostingEvent {
    Status(String),
    Opened {
        room_id: String,
        viewer_url: String,
        presenter_secret: Secret,
    },
    Sharing(SharingState),
    Expiry(u64),
    Reconnecting(bool),
    JoinRequested(JoinRequest),
    ViewerJoined {
        peer_id: String,
        name: Option<String>,
    },
    ViewerLeft {
        peer_id: String,
    },
    ViewerConnection {
        peer_id: String,
        connected: bool,
    },
    ViewerStats(String, ViewerCard),
    Chat {
        sender: String,
        text: String,
    },
    ShareFailed(String),
    Ended(String),
}

/// What a [`HostingEvent`] holds.
#[verifier::ext_equal]
pub enum HostingEventView {
    Status(Seq<char>),
    Opened { room_id: Seq<char>, viewer_url: Seq<char>, presenter_secret: Seq<char> },
    Sharing(SharingState),
    Expiry(u64),
    Reconnecting(bool),
    JoinRequested(JoinRequestView),
    ViewerJoined { peer_id: Seq<char>, name: Option<Seq<char>> },
    ViewerLeft { peer_id: Seq<char> },
    ViewerConnection { peer_id: Seq<char>, connected: bool },
    ViewerStats(Seq<char>, ViewerCardView),
    Chat { sender: Seq<char>, text: Seq<char> },
    ShareFailed(Seq<char>),
    Ended(Seq<char>),
}

impl View for HostingEvent {
    type V = HostingEventView;

    open spec fn view(&self) -> HostingEventView {
        match self {
            HostingEvent::Status(first) => HostingEventView::Status(first@),
            HostingEvent::Opened { room_id, viewer_url, presenter_secret } => HostingEventView::Opened {
                room_id: room_id@,
                viewer_url: viewer_url@,
                presenter_secret: presenter_secret@,
            },
            HostingEvent::Sharing(first) => HostingEventView::Sharing(*first),
            HostingEvent::Expiry(first) => HostingEventView::Expiry(*first),
            HostingEvent::Reconnecting(first) => HostingEventView::Reconnecting(*first),
            HostingEvent::JoinRequested(first) => HostingEventView::JoinRequested(first@),
            HostingEvent::ViewerJoined { peer_id, name } => HostingEventView::ViewerJoined {
                peer_id: peer_id@,
                name: name.deep_view(),
            },
            HostingEvent::ViewerLeft { peer_id } => HostingEventView::ViewerLeft {
                peer_id: peer_id@,
            },
            HostingEvent::ViewerConnection { peer_id, connected } => HostingEventView::ViewerConnection {
                peer_id: peer_id@,
                connected: *connected,
            },
            HostingEvent::ViewerStats(first, second) => HostingEventView::ViewerStats(first@, second@),
            HostingEvent::Chat { sender, text } => HostingEventView::Chat {
                sender: sender@,
                text: text@,
            },
            HostingEvent::ShareFailed(first) => HostingEventView::ShareFailed(first@),
            HostingEvent::Ended(first) => HostingEventView::Ended(first@),
        }
    }
}

impl DeepView for HostingEvent {
    type V = HostingEventView;

    open spec fn deep_view(&self) -> HostingEventView {
        self@
    }
}

/// How a share is going, in words.
pub open spec fn sharing_status(sharing: SharingState) -> Seq<char> {
    match sharing {
        SharingState::Idle => "Room open — not sharing"@,
        SharingState::Live => "Sharing your screen"@,
        SharingState::Paused => "Sharing paused"@,
    }
}

/// A viewer of whom nothing is known.
pub open spec fn blank_card() -> ViewerCardView {
    ViewerCardView {
        name: Seq::empty(),
        connected: false,
        bitrate_kbps: None,
        round_trip_us: None,
        packets_lost: None,
        packets_sent: None,
        target_kbps: 0,
        codec: None,
    }
}

/// The entries of a viewer.
pub open spec fn of_peer(peer_id: Seq<char>) -> spec_fn(ViewerEntryView) -> bool {
    |entry: ViewerEntryView| entry.peer_id == peer_id
}

/// What is known of a viewer.
pub open spec fn card_of(viewers: Seq<ViewerEntryView>, peer_id: Seq<char>) -> ViewerCardView {
    match seqs::first_where(viewers, of_peer(peer_id)) {
        Some(i) => viewers[i].card,
        None => blank_card(),
    }
}

/// The viewers with this known of one of them.
pub open spec fn with_card(
    viewers: Seq<ViewerEntryView>,
    peer_id: Seq<char>,
    card: ViewerCardView,
) -> Seq<ViewerEntryView> {
    match seqs::first_where(viewers, of_peer(peer_id)) {
        Some(i) => viewers.update(i, ViewerEntryView { peer_id, card }),
        None => viewers.push(ViewerEntryView { peer_id, card }),
    }
}

/// The viewers without one.
pub open spec fn without_viewer(viewers: Seq<ViewerEntryView>, peer_id: Seq<char>) -> Seq<
    ViewerEntryView,
> {
    viewers.filter(|entry: ViewerEntryView| entry.peer_id != peer_id)
}

/// The requests without those of one viewer.
pub open spec fn without_request(requests: Seq<JoinRequestView>, peer_id: Seq<char>) -> Seq<
    JoinRequestView,
> {
    requests.filter(|request: JoinRequestView| request.peer_id != peer_id)
}

/// The bitrates of the viewers, added up.
pub open spec fn total_kbps(viewers: Seq<ViewerEntryView>) -> nat
    decreases viewers.len(),
{
    if viewers.len() == 0 {
        0
    } else {
        total_kbps(viewers.drop_last()) + match viewers.last().card.bitrate_kbps {
            Some(kbps) => kbps as nat,
            None => 0,
        }
    }
}

/// A total as it is recorded: as much as a sample can hold.
pub open spec fn sample_of(total: nat) -> u32 {
    if total <= u32::MAX {
        total as u32
    } else {
        u32::MAX
    }
}

impl HostingModel {
    /// No session.
    pub open spec fn blank() -> HostingModel {
        HostingModel {
            active: false,
            open: false,
            sharing: SharingState::Idle,
            status: Seq::empty(),
            ended: false,
            reconnecting: false,
            room_id: None,
            viewer_url: None,
            presenter_secret: None,
            countdown: None,
            frame_size: None,
            viewers: Seq::empty(),
            requests: Seq::empty(),
            messages: Seq::empty(),
            bitrate_history: Seq::empty(),
            target_ceiling_kbps: 0,
        }
    }

    /// Each viewer is listed once, and each request too.
    pub open spec fn valid(self) -> bool {
        &&& forall|i: int, j: int|
            0 <= i < j < self.viewers.len() ==> (#[trigger] self.viewers[i]).peer_id != (
            #[trigger] self.viewers[j]).peer_id
        &&& forall|i: int, j: int|
            0 <= i < j < self.requests.len() ==> (#[trigger] self.requests[i]).peer_id != (
            #[trigger] self.requests[j]).peer_id
    }

    /// How many viewers are connected.
    pub open spec fn connected_viewers(self) -> nat {
        seqs::count(self.viewers, |entry: ViewerEntryView| entry.card.connected)
    }

    /// Something happens at a moment.
    pub open spec fn applied(self, event: HostingEventView, now: Moment) -> HostingModel {
        match event {
            HostingEventView::Status(status) => HostingModel { status, ..self },
            HostingEventView::Opened { room_id, viewer_url, presenter_secret } => HostingModel {
                open: true,
                status: "Room open"@,
                room_id: Some(room_id),
                viewer_url: Some(viewer_url),
                presenter_secret: Some(presenter_secret),
                ..self
            },
            HostingEventView::Sharing(sharing) => HostingModel {
                sharing,
                status: sharing_status(sharing),
                ..self
            },
            HostingEventView::Expiry(seconds) => HostingModel {
                countdown: Some(RoomCountdown { seconds, at: now }),
                ..self
            },
            HostingEventView::Reconnecting(reconnecting) => HostingModel { reconnecting, ..self },
            HostingEventView::JoinRequested(request) => HostingModel {
                requests: if exists|i: int|
                    0 <= i < self.requests.len() && (#[trigger] self.requests[i]).peer_id
                        == request.peer_id {
                    self.requests
                } else {
                    self.requests.push(request)
                },
                ..self
            },
            HostingEventView::ViewerJoined { peer_id, name } => HostingModel {
                requests: without_request(self.requests, peer_id),
                viewers: with_card(
                    self.viewers,
                    peer_id,
                    ViewerCardView {
                        name: match name {
                            Some(name) => name,
                            None => "Guest"@,
                        },
                        connected: true,
                        ..card_of(self.viewers, peer_id)
                    },
                ),
                ..self
            },
            HostingEventView::ViewerLeft { peer_id } => HostingModel {
                requests: without_request(self.requests, peer_id),
                viewers: without_viewer(self.viewers, peer_id),
                ..self
            },
            HostingEventView::ViewerConnection { peer_id, connected } => HostingModel {
                viewers: with_card(
                    self.viewers,
                    peer_id,
                    ViewerCardView { connected, ..card_of(self.viewers, peer_id) },
                ),
                ..self
            },
            HostingEventView::ViewerStats(peer_id, stats) => {
                let known = card_of(self.viewers, peer_id);
                let viewers = with_card(
                    self.viewers,
                    peer_id,
                    ViewerCardView {
                        name: if known.name.len() == 0 {
                            "Guest"@
                        } else {
                            known.name
                        },
                        connected: known.connected,
                        ..stats
                    },
                );
                HostingModel {
                    viewers,
                    bitrate_history: moments::recorded(
                        self.bitrate_history,
                        now,
                        sample_of(total_kbps(viewers)),
                    ),
                    ..self
                }
            },
            HostingEventView::Chat { sender, text } => HostingModel {
                messages: self.messages.push(ChatMessageView { from: sender, text, own: false }),
                ..self
            },
            HostingEventView::ShareFailed(message) => HostingModel { status: message, ..self },
            HostingEventView::Ended(reason) => HostingModel {
                sharing: SharingState::Idle,
                ended: true,
                status: reason,
                ..self
            },
        }
    }
}

fn blank() -> (r: ViewerCard)
    ensures
        r@ == blank_card(),
{
    let r = ViewerCard {
        name: String::new(),
        connected: false,
        bitrate_kbps: None,
        round_trip_us: None,
        packets_lost: None,
        packets_sent: None,
        target_kbps: 0,
        codec: None,
    };
    assert(r@.name =~= Seq::empty());
    r
}

impl PresenterView {
    /// No session.
    pub fn new() -> (r: Self)
        ensures
            r@ == HostingModel::blank(),
            r@.valid(),
    {
        let r = PresenterView {
            active: false,
            open: false,
            sharing: SharingState::Idle,
            status: String::new(),
            ended: false,
            reconnecting: false,
            room_id: None,
            viewer_url: None,
            presenter_secret: None,
            countdown: None,
            frame_size: None,
            viewers: Vec::new(),
            requests: Vec::new(),
            messages: Vec::new(),
            bitrate_history: BitrateHistory::new(),
            target_ceiling_kbps: 0,
        };
        assert(r@ =~~= HostingModel::blank());
        r
    }

    /// How many viewers are connected.
    pub fn connected_viewers(&self) -> (r: usize)
        ensures
            r == self@.connected_viewers(),
    {
        let ghost all = self@.viewers;
        let ghost connected = |entry: ViewerEntryView| entry.card.connected;
        let mut r: usize = 0;
        assert(all.take(0).filter(connected) =~= Seq::empty()) by {
            reveal(Seq::filter);
        }
        for i in 0..self.viewers.len()
            invariant
                all == self@.viewers,
                connected == |entry: ViewerEntryView| entry.card.connected,
                r <= i,
                r == all.take(i as int).filter(connected).len(),
        {
            proof {
                assert(all.take(i + 1) =~= all.take(i as int).push(all[i as int]));
                seqs::lemma_filter_push(all.take(i as int), all[i as int], connected);
            }
            if self.viewers[i].card.connected {
                r += 1;
            }
        }
        assert(all.take(all.len() as int) =~= all);
        r
    }

    /// Whether something is being shared.
    pub fn is_live(&self) -> (r: bool)
        ensures
            r == (self@.sharing == SharingState::Live),
    {
        self.sharing == SharingState::Live
    }

    fn find(&self, peer_id: &str) -> (r: Option<usize>)
        ensures
            match r {
                Some(i) => seqs::first_where(self@.viewers, of_peer(peer_id@)) == Some(i as int)
                    && i < self@.viewers.len(),
                None => seqs::first_where(self@.viewers, of_peer(peer_id@)) is None,
            },
    {
        let ghost all = self@.viewers;
        for i in 0..self.viewers.len()
            invariant
                all == self@.viewers,
                forall|j: int| 0 <= j < i ==> !of_peer(peer_id@)(#[trigger] all[j]),
        {
            if text::same(self.viewers[i].peer_id.as_str(), peer_id) {
                proof {
                    assert(of_peer(peer_id@)(all[i as int]));
                    seqs::lemma_first(all, of_peer(peer_id@), i as int);
                }
                return Some(i);
            }
            assert(!of_peer(peer_id@)(all[i as int]));
        }
        proof {
            seqs::lemma_no_first(all, of_peer(peer_id@));
        }
        None
    }

    fn card(&self, peer_id: &str) -> (r: ViewerCard)
        ensures
            r@ == card_of(self@.viewers, peer_id@),
    {
        match self.find(peer_id) {
            Some(i) => self.viewers[i].card.clone(),
            None => blank(),
        }
    }

    fn set_card(&mut self, peer_id: String, card: ViewerCard)
        ensures
            final(self)@ == (HostingModel {
                viewers: with_card(old(self)@.viewers, peer_id@, card@),
                ..old(self)@
            }),
    {
        let found = self.find(peer_id.as_str());
        let ghost entry = ViewerEntryView { peer_id: peer_id@, card: card@ };
        match found {
            Some(i) => {
                self.viewers[i] = ViewerEntry { peer_id, card };
                assert(self@.viewers =~= old(self)@.viewers.update(i as int, entry));
            },
            None => {
                self.viewers.push(ViewerEntry { peer_id, card });
                assert(self@.viewers =~= old(self)@.viewers.push(entry));
            },
        }
        assert(self@ =~= HostingModel {
            viewers: with_card(old(self)@.viewers, peer_id@, card@),
            ..old(self)@
        });
    }

    /// Forgets the requests of a viewer.
    pub fn drop_request(&mut self, peer_id: &str)
        ensures
            final(self)@ == (HostingModel {
                requests: without_request(old(self)@.requests, peer_id@),
                ..old(self)@
            }),
    {
        let ghost all = self@.requests;
        let ghost keep = |request: JoinRequestView| request.peer_id != peer_id@;
        let mut kept: Vec<JoinRequest> = Vec::new();
        assert(all.take(0).filter(keep) =~= Seq::empty()) by {
            reveal(Seq::filter);
        }
        assert(kept.deep_view() =~= Seq::empty());
        for i in 0..self.requests.len()
            invariant
                all == self@.requests,
                *self == *old(self),
                keep == |request: JoinRequestView| request.peer_id != peer_id@,
                kept.deep_view() == all.take(i as int).filter(keep),
        {
            let ghost before = kept.deep_view();
            proof {
                assert(all.take(i + 1) =~= all.take(i as int).push(all[i as int]));
                seqs::lemma_filter_push(all.take(i as int), all[i as int], keep);
            }
            if !text::same(self.requests[i].peer_id.as_str(), peer_id) {
                kept.push(self.requests[i].clone());
                assert(kept.deep_view() =~= before.push(all[i as int]));
            }
        }
        assert(all.take(all.len() as int) =~= all);
        self.requests = kept;
    }

    fn drop_viewer(&mut self, peer_id: &str)
        ensures
            final(self)@ == (HostingModel {
                viewers: without_viewer(old(self)@.viewers, peer_id@),
                ..old(self)@
            }),
    {
        let ghost all = self@.viewers;
        let ghost keep = |entry: ViewerEntryView| entry.peer_id != peer_id@;
        let mut kept: Vec<ViewerEntry> = Vec::new();
        assert(all.take(0).filter(keep) =~= Seq::empty()) by {
            reveal(Seq::filter);
        }
        assert(kept.deep_view() =~= Seq::empty());
        for i in 0..self.viewers.len()
            invariant
                all == self@.viewers,
                *self == *old(self),
                keep == |entry: ViewerEntryView| entry.peer_id != peer_id@,
                kept.deep_view() == all.take(i as int).filter(keep),
        {
            let ghost before = kept.deep_view();
            proof {
                assert(all.take(i + 1) =~= all.take(i as int).push(all[i as int]));
                seqs::lemma_filter_push(all.take(i as int), all[i as int], keep);
            }
            if !text::same(self.viewers[i].peer_id.as_str(), peer_id) {
                kept.push(self.viewers[i].clone());
                assert(kept.deep_view() =~= before.push(all[i as int]));
            }
        }
        assert(all.take(all.len() as int) =~= all);
        self.viewers = kept;
    }

    fn asks(&self, peer_id: &str) -> (r: bool)
        ensures
            r == exists|i: int|
                0 <= i < self@.requests.len() && (#[trigger] self@.requests[i]).peer_id == peer_id@,
    {
        let ghost all = self@.requests;
        for i in 0..self.requests.len()
            invariant
                all == self@.requests,
                forall|j: int| 0 <= j < i ==> (#[trigger] all[j]).peer_id != peer_id@,
        {
            assert(self.requests@[i as int]@ == all[i as int]);
            if text::same(self.requests[i].peer_id.as_str(), peer_id) {
                return true;
            }
        }
        false
    }

    /// The whole outgoing bitrate, as it is recorded.
    pub fn outgoing_kbps(&self) -> (r: u32)
        ensures
            r == sample_of(total_kbps(self@.viewers)),
    {
        let ghost all = self@.viewers;
        let mut total: u128 = 0;
        for i in 0..self.viewers.len()
            invariant
                all == self@.viewers,
                total == total_kbps(all.take(i as int)),
                total <= i * 0xffff_ffff,
        {
            proof {
                let next = all.take(i + 1);
                assert(next.drop_last() =~= all.take(i as int));
                assert(next.last() == all[i as int]);
            }
            if let Some(kbps) = self.viewers[i].card.bitrate_kbps {
                total = total + kbps as u128;
            }
        }
        assert(all.take(all.len() as int) =~= all);
        if total <= 0xffff_ffff {
            total as u32
        } else {
            0xffff_ffff
        }
    }

    /// Something happens.
    pub fn apply(&mut self, event: HostingEvent, now: Moment)
        requires
            old(self)@.valid(),
        ensures
            final(self)@ == old(self)@.applied(event@, now),
            final(self)@.valid(),
    {
        proof {
            law_applying_keeps_valid(self@, event@, now);
        }
        match event {
            HostingEvent::Status(status) => {
                self.status = status;
            },
            HostingEvent::Opened { room_id, viewer_url, presenter_secret } => {
                self.open = true;
                self.status = "Room open".to_owned();
                self.room_id = Some(room_id);
                self.viewer_url = Some(viewer_url);
                self.presenter_secret = Some(presenter_secret);
            },
            HostingEvent::Sharing(sharing) => {
                self.sharing = sharing;
                self.status = match sharing {
                    SharingState::Idle => "Room open — not sharing".to_owned(),
                    SharingState::Live => "Sharing your screen".to_owned(),
                    SharingState::Paused => "Sharing paused".to_owned(),
                };
            },
            HostingEvent::Expiry(seconds) => {
                self.countdown = Some(RoomCountdown { seconds, at: now });
            },
            HostingEvent::Reconnecting(reconnecting) => {
                self.reconnecting = reconnecting;
            },
            HostingEvent::JoinRequested(request) => {
                if !self.asks(request.peer_id.as_str()) {
                    self.requests.push(request);
                    assert(self@.requests =~= old(self)@.requests.push(request@));
                }
            },
            HostingEvent::ViewerJoined { peer_id, name } => {
                self.drop_request(peer_id.as_str());
                let mut card = self.card(peer_id.as_str());
                card.name = match name {
                    Some(name) => name,
                    None => "Guest".to_owned(),
                };
                card.connected = true;
                self.set_card(peer_id, card);
            },
            HostingEvent::ViewerLeft { peer_id } => {
                self.drop_request(peer_id.as_str());
                self.drop_viewer(peer_id.as_str());
            },
            HostingEvent::ViewerConnection { peer_id, connected } => {
                let mut card = self.card(peer_id.as_str());
                card.connected = connected;
                self.set_card(peer_id, card);
            },
            HostingEvent::ViewerStats(peer_id, stats) => {
                let known = self.card(peer_id.as_str());
                let mut card = stats;
                card.name = if text::is_empty(known.name.as_str()) {
                    "Guest".to_owned()
                } else {
                    known.name
                };
                card.connected = known.connected;
                self.set_card(peer_id, card);
                let total: u32 = self.outgoing_kbps();
                self.bitrate_history.record(now, total);
            },
            HostingEvent::Chat { sender, text } => {
                let message = ChatMessage { from: sender, text, own: false };
                self.messages.push(message);
                assert(self@.messages =~= old(self)@.messages.push(message@));
            },
            HostingEvent::ShareFailed(message) => {
                self.status = message;
            },
            HostingEvent::Ended(reason) => {
                self.sharing = SharingState::Idle;
                self.ended = true;
                self.status = reason;
            },
        }
        assert(self@ =~= old(self)@.applied(event@, now));
    }
}

/// What an update of the session is to the window.
pub open spec fn event_of(update: PresenterUpdateView) -> HostingEventView {
    match update {
        PresenterUpdateView::Signaling { state } => HostingEventView::Reconnecting(
            state == SignalingState::Reconnecting,
        ),
        PresenterUpdateView::SharingState { state } => HostingEventView::Sharing(state),
        PresenterUpdateView::RoomExpiry { expires_in_seconds } => HostingEventView::Expiry(
            expires_in_seconds,
        ),
        PresenterUpdateView::JoinRequested { peer_id, display_name, friend_code } =>
            HostingEventView::JoinRequested(
            JoinRequestView { peer_id, name: display_name, friend_code },
        ),
        PresenterUpdateView::ViewerJoined { peer_id, display_name } =>
            HostingEventView::ViewerJoined { peer_id, name: display_name },
        PresenterUpdateView::ViewerLeft { peer_id } => HostingEventView::ViewerLeft { peer_id },
        PresenterUpdateView::ViewerConnection { peer_id, state } =>
            HostingEventView::ViewerConnection {
            peer_id,
            connected: state == ConnectionState::Connected,
        },
        PresenterUpdateView::Chat { sender, text, .. } => HostingEventView::Chat { sender, text },
        PresenterUpdateView::ShareFailed { message } => HostingEventView::ShareFailed(
            "Sharing failed: "@ + message,
        ),
    }
}

/// What an update of the session is to the window.
pub fn forward_update(update: PresenterUpdate) -> (r: HostingEvent)
    ensures
        r@ == event_of(update@),
{
    match update {
        PresenterUpdate::Signaling { state } => HostingEvent::Reconnecting(
            state == SignalingState::Reconnecting,
        ),
        PresenterUpdate::SharingState { state } => HostingEvent::Sharing(state),
        PresenterUpdate::RoomExpiry { expires_in_seconds } => HostingEvent::Expiry(
            expires_in_seconds,
        ),
        PresenterUpdate::JoinRequested { peer_id, display_name, friend_code } =>
            HostingEvent::JoinRequested(JoinRequest { peer_id, name: display_name, friend_code }),
        PresenterUpdate::ViewerJoined { peer_id, display_name } => HostingEvent::ViewerJoined {
            peer_id,
            name: display_name,
        },
        PresenterUpdate::ViewerLeft { peer_id } => HostingEvent::ViewerLeft { peer_id },
        PresenterUpdate::ViewerConnection { peer_id, state } => HostingEvent::ViewerConnection {
            peer_id,
            connected: state == ConnectionState::Connected,
        },
        PresenterUpdate::Chat { sender, text, .. } => HostingEvent::Chat { sender, text },
        PresenterUpdate::ShareFailed { message } => {
            let mut status = "Sharing failed: ".to_owned();
            status.push_str(message.as_str());
            HostingEvent::ShareFailed(status)
        },
    }
}

/// Why a session failed, in words.
pub open spec fn failure(error: PresenterErrorView) -> Seq<char> {
    match error {
        PresenterErrorView::AuthenticationFailed { message } =>
            "the room did not accept the presenter secret: "@ + message,
        PresenterErrorView::BroadcastStart { message } => "the broadcast could not start: "@
            + message,
        PresenterErrorView::Broadcast { reason } => "the broadcast failed: "@ + reason,
        PresenterErrorView::SignalingEnded => "signaling ended unexpectedly"@,
    }
}

/// Why a session failed, in words.
pub fn failure_text(error: &PresenterError) -> (r: String)
    ensures
        r@ == failure(error@),
{
    match error {
        PresenterError::AuthenticationFailed { message } => {
            let mut r = "the room did not accept the presenter secret: ".to_owned();
            r.push_str(message.as_str());
            r
        },
        PresenterError::BroadcastStart { message } => {
            let mut r = "the broadcast could not start: ".to_owned();
            r.push_str(message.as_str());
            r
        },
        PresenterError::Broadcast { reason } => {
            let mut r = "the broadcast failed: ".to_owned();
            r.push_str(reason.as_str());
            r
        },
        PresenterError::SignalingEnded => "signaling ended unexpectedly".to_owned(),
    }
}

/// How a session ended, in words.
pub open spec fn ending(outcome: Result<PresenterEnd, PresenterErrorView>) -> Seq<char> {
    match outcome {
        Ok(PresenterEnd::RoomClosed) => "The room was closed."@,
        Ok(PresenterEnd::RoomExpired) => "The room expired."@,
        Ok(PresenterEnd::Left) => "You left the room."@,
        Err(error) => "The room ended: "@ + failure(error),
    }
}

/// How a session ended, in words.
pub fn ended_reason(outcome: &Result<PresenterEnd, PresenterError>) -> (r: String)
    ensures
        r@ == ending(
            match outcome {
                Ok(end) => Ok(*end),
                Err(error) => Err(error@),
            },
        ),
{
    match outcome {
        Ok(PresenterEnd::RoomClosed) => "The room was closed.".to_owned(),
        Ok(PresenterEnd::RoomExpired) => "The room expired.".to_owned(),
        Ok(PresenterEnd::Left) => "You left the room.".to_owned(),
        Err(error) => {
            let mut r = "The room ended: ".to_owned();
            r.push_str(failure_text(error).as_str());
            r
        },
    }
}

/// A list without duplicates stays one under a filter.
proof fn lemma_distinct_filter<A>(s: Seq<A>, key: spec_fn(A) -> Seq<char>, keep: spec_fn(A) -> bool)
    requires
        forall|i: int, j: int|
            0 <= i < j < s.len() ==> key(#[trigger] s[i]) != key(#[trigger] s[j]),
    ensures
        forall|i: int, j: int|
            0 <= i < j < s.filter(keep).len() ==> key(#[trigger] s.filter(keep)[i]) != key(
                #[trigger] s.filter(keep)[j],
            ),
    decreases s.len(),
{
    if s.len() > 0 {
        let init = s.drop_last();
        assert forall|i: int, j: int| 0 <= i < j < init.len() implies key(#[trigger] init[i])
            != key(#[trigger] init[j]) by {
            assert(key(s[i]) != key(s[j]));
        }
        lemma_distinct_filter(init, key, keep);
        assert(s =~= init.push(s.last()));
        seqs::lemma_filter_push(init, s.last(), keep);
        seqs::lemma_filter_members(init, keep);
        let rest = init.filter(keep);
        assert forall|i: int| 0 <= i < rest.len() implies key(#[trigger] rest[i]) != key(
            s.last(),
        ) by {
            assert(init.contains(rest[i]));
            let k = choose|k: int| 0 <= k < init.len() && init[k] == rest[i];
            assert(key(s[k]) != key(s[s.len() - 1]));
        }
    } else {
        assert(s.filter(keep) =~= s) by {
            reveal(Seq::filter);
        }
    }
}

/// Whatever happens, each viewer and each request stays listed once.
pub proof fn law_applying_keeps_valid(m: HostingModel, event: HostingEventView, now: Moment)
    requires
        m.valid(),
    ensures
        m.applied(event, now).valid(),
{
    let viewer_key = |entry: ViewerEntryView| entry.peer_id;
    let request_key = |request: JoinRequestView| request.peer_id;
    match event {
        HostingEventView::ViewerJoined { peer_id, .. } => {
            lemma_distinct_filter(
                m.requests,
                request_key,
                |request: JoinRequestView| request.peer_id != peer_id,
            );
            seqs::lemma_first_where(m.viewers, of_peer(peer_id));
            lemma_requests(m.applied(event, now));
        },
        HostingEventView::ViewerLeft { peer_id } => {
            lemma_distinct_filter(
                m.requests,
                request_key,
                |request: JoinRequestView| request.peer_id != peer_id,
            );
            lemma_distinct_filter(
                m.viewers,
                viewer_key,
                |entry: ViewerEntryView| entry.peer_id != peer_id,
            );
            let after = m.applied(event, now);
            assert forall|i: int, j: int| 0 <= i < j < after.viewers.len() implies (
            #[trigger] after.viewers[i]).peer_id != (#[trigger] after.viewers[j]).peer_id by {
                assert(viewer_key(after.viewers[i]) != viewer_key(after.viewers[j]));
            }
            lemma_requests(after);
        },
        HostingEventView::ViewerConnection { peer_id, .. } => {
            seqs::lemma_first_where(m.viewers, of_peer(peer_id));
        },
        HostingEventView::ViewerStats(peer_id, _) => {
            seqs::lemma_first_where(m.viewers, of_peer(peer_id));
        },
        _ => {},
    }
}

proof fn lemma_requests(after: HostingModel)
    requires
        forall|i: int, j: int|
            0 <= i < j < after.requests.len() ==> (|request: JoinRequestView| request.peer_id)(
                #[trigger] after.requests[i],
            ) != (|request: JoinRequestView| request.peer_id)(#[trigger] after.requests[j]),
    ensures
        forall|i: int, j: int|
            0 <= i < j < after.requests.len() ==> (#[trigger] after.requests[i]).peer_id != (
            #[trigger] after.requests[j]).peer_id,
{
}

/// A viewer that joined or left no longer waits to be let in.
pub proof fn law_joining_ends_the_wait(
    m: HostingModel,
    peer_id: Seq<char>,
    name: Option<Seq<char>>,
    now: Moment,
)
    ensures
        forall|i: int|
            0 <= i < m.applied(HostingEventView::ViewerJoined { peer_id, name }, now).requests.len()
                ==> (#[trigger] m.applied(
                HostingEventView::ViewerJoined { peer_id, name },
                now,
            ).requests[i]).peer_id != peer_id,
        forall|i: int|
            0 <= i < m.applied(HostingEventView::ViewerLeft { peer_id }, now).requests.len() ==> (
            #[trigger] m.applied(
                HostingEventView::ViewerLeft { peer_id },
                now,
            ).requests[i]).peer_id != peer_id,
{
    seqs::lemma_filter_members(
        m.requests,
        |request: JoinRequestView| request.peer_id != peer_id,
    );
}

/// What a run of events, each with its moment, makes of what is shown.
pub open spec fn ran(m: HostingModel, events: Seq<(HostingEventView, Moment)>) -> HostingModel
    decreases events.len(),
{
    if events.len() == 0 {
        m
    } else {
        ran(m, events.drop_last()).applied(events.last().0, events.last().1)
    }
}

/// Whether a viewer asks to be let in.
pub open spec fn asks(event: HostingEventView, peer_id: Seq<char>) -> bool {
    event matches HostingEventView::JoinRequested(request) && request.peer_id == peer_id
}

/// Whether a viewer's wait is over: it joined or left.
pub open spec fn settles(event: HostingEventView, peer_id: Seq<char>) -> bool {
    match event {
        HostingEventView::ViewerJoined { peer_id: of, .. } => of == peer_id,
        HostingEventView::ViewerLeft { peer_id: of } => of == peer_id,
        _ => false,
    }
}

/// Whether a viewer is there again.
pub open spec fn appears(event: HostingEventView, peer_id: Seq<char>) -> bool {
    match event {
        HostingEventView::ViewerJoined { peer_id: of, .. } => of == peer_id,
        HostingEventView::ViewerConnection { peer_id: of, .. } => of == peer_id,
        HostingEventView::ViewerStats(of, _) => of == peer_id,
        _ => false,
    }
}

/// Whether the wait of a viewer is over somewhere in a run.
pub open spec fn settled(events: Seq<(HostingEventView, Moment)>, peer_id: Seq<char>) -> bool {
    exists|i: int| 0 <= i < events.len() && settles((#[trigger] events[i]).0, peer_id)
}

/// The requests that a run leaves standing.
pub open spec fn surviving(
    requests: Seq<JoinRequestView>,
    events: Seq<(HostingEventView, Moment)>,
) -> Seq<JoinRequestView> {
    requests.filter(|request: JoinRequestView| !settled(events, request.peer_id))
}

/// Whether a viewer is among those that wait.
pub open spec fn waits(requests: Seq<JoinRequestView>, peer_id: Seq<char>) -> bool {
    exists|i: int| 0 <= i < requests.len() && (#[trigger] requests[i]).peer_id == peer_id
}

/// The requests that a run adds and leaves, each with the place of its event.
pub open spec fn arrivals(
    requests: Seq<JoinRequestView>,
    events: Seq<(HostingEventView, Moment)>,
) -> Seq<(int, JoinRequestView)>
    decreases events.len(),
{
    if events.len() == 0 {
        Seq::empty()
    } else {
        let init = events.drop_last();
        let before = arrivals(requests, init);
        match events.last().0 {
            HostingEventView::JoinRequested(request) => if waits(
                surviving(requests, init) + requested(before),
                request.peer_id,
            ) {
                before
            } else {
                before.push((events.len() - 1, request))
            },
            HostingEventView::ViewerJoined { peer_id, .. } => before.filter(
                |entry: (int, JoinRequestView)| entry.1.peer_id != peer_id,
            ),
            HostingEventView::ViewerLeft { peer_id } => before.filter(
                |entry: (int, JoinRequestView)| entry.1.peer_id != peer_id,
            ),
            _ => before,
        }
    }
}

/// The requests of arrivals.
pub open spec fn requested(entries: Seq<(int, JoinRequestView)>) -> Seq<JoinRequestView> {
    entries.map_values(|entry: (int, JoinRequestView)| entry.1)
}

proof fn lemma_requested_filter(entries: Seq<(int, JoinRequestView)>, peer_id: Seq<char>)
    ensures
        requested(entries.filter(|entry: (int, JoinRequestView)| entry.1.peer_id != peer_id))
            == without_request(requested(entries), peer_id),
    decreases entries.len(),
{
    let other = |entry: (int, JoinRequestView)| entry.1.peer_id != peer_id;
    let keep = |request: JoinRequestView| request.peer_id != peer_id;
    if entries.len() > 0 {
        let init = entries.drop_last();
        let last = entries.last();
        assert(entries =~= init.push(last));
        lemma_requested_filter(init, peer_id);
        seqs::lemma_filter_push(init, last, other);
        seqs::lemma_filter_push(requested(init), last.1, keep);
        assert(requested(entries) =~= requested(init).push(last.1));
        if other(last) {
            assert(requested(entries.filter(other)) =~= requested(init.filter(other)).push(last.1));
        }
    } else {
        reveal(Seq::filter);
        assert(requested(entries.filter(other)) =~= without_request(requested(entries), peer_id));
    }
}

proof fn lemma_settled(events: Seq<(HostingEventView, Moment)>, peer_id: Seq<char>)
    requires
        events.len() > 0,
    ensures
        settled(events, peer_id) <==> settled(events.drop_last(), peer_id) || settles(
            events.last().0,
            peer_id,
        ),
{
    let init = events.drop_last();
    if settled(init, peer_id) {
        let i = choose|i: int| 0 <= i < init.len() && settles((#[trigger] init[i]).0, peer_id);
        assert(settles(events[i].0, peer_id));
    }
    if settled(events, peer_id) {
        let i = choose|i: int| 0 <= i < events.len() && settles((#[trigger] events[i]).0, peer_id);
        if i < init.len() {
            assert(settles(init[i].0, peer_id));
        }
    }
    assert(events[events.len() - 1] == events.last());
}

/// Whether requests are in the order of the events that brought them.
pub open spec fn in_event_order(
    entries: Seq<(int, JoinRequestView)>,
    events: Seq<(HostingEventView, Moment)>,
) -> bool {
    &&& forall|k: int|
        0 <= k < entries.len() ==> 0 <= (#[trigger] entries[k]).0 < events.len()
            && events[entries[k].0].0 == HostingEventView::JoinRequested(entries[k].1)
    &&& forall|j: int, k: int|
        0 <= j < k < entries.len() ==> (#[trigger] entries[j]).0 < (#[trigger] entries[k]).0
}

proof fn lemma_arrivals_in_order(
    requests: Seq<JoinRequestView>,
    events: Seq<(HostingEventView, Moment)>,
)
    ensures
        in_event_order(arrivals(requests, events), events),
    decreases events.len(),
{
    if events.len() > 0 {
        let init = events.drop_last();
        let before = arrivals(requests, init);
        lemma_arrivals_in_order(requests, init);
        assert(in_event_order(before, events)) by {
            assert forall|k: int| 0 <= k < before.len() implies 0 <= (#[trigger] before[k]).0
                < events.len() && events[before[k].0].0 == HostingEventView::JoinRequested(
                before[k].1,
            ) by {
                assert(init[before[k].0] == events[before[k].0]);
            }
        }
        match events.last().0 {
            HostingEventView::ViewerJoined { peer_id, .. } => lemma_order_filter(
                before,
                events,
                peer_id,
            ),
            HostingEventView::ViewerLeft { peer_id } => lemma_order_filter(
                before,
                events,
                peer_id,
            ),
            _ => {},
        }
    }
}

proof fn lemma_order_filter(
    entries: Seq<(int, JoinRequestView)>,
    events: Seq<(HostingEventView, Moment)>,
    peer_id: Seq<char>,
)
    requires
        in_event_order(entries, events),
    ensures
        in_event_order(
            entries.filter(|entry: (int, JoinRequestView)| entry.1.peer_id != peer_id),
            events,
        ),
{
    let other = |entry: (int, JoinRequestView)| entry.1.peer_id != peer_id;
    let kept = entries.filter(other);
    lemma_increasing_filter(entries, other);
    seqs::lemma_filter_members(entries, other);
    assert forall|k: int| 0 <= k < kept.len() implies 0 <= (#[trigger] kept[k]).0 < events.len()
        && events[kept[k].0].0 == HostingEventView::JoinRequested(kept[k].1) by {
        assert(entries.contains(kept[k]));
        let i = choose|i: int| 0 <= i < entries.len() && entries[i] == kept[k];
        assert(entries[i].0 == kept[k].0);
    }
}

/// A viewer's wait is over: its request goes, wherever it stands.
proof fn lemma_wait_over(
    requests: Seq<JoinRequestView>,
    events: Seq<(HostingEventView, Moment)>,
    peer_id: Seq<char>,
)
    requires
        events.len() > 0,
        forall|of: Seq<char>| #[trigger] settles(events.last().0, of) <==> of == peer_id,
    ensures
        without_request(
            surviving(requests, events.drop_last()) + requested(
                arrivals(requests, events.drop_last()),
            ),
            peer_id,
        ) == surviving(requests, events) + without_request(
            requested(arrivals(requests, events.drop_last())),
            peer_id,
        ),
{
    let init = events.drop_last();
    let keep = |request: JoinRequestView| request.peer_id != peer_id;
    let stood = |request: JoinRequestView| !settled(init, request.peer_id);
    let stands = |request: JoinRequestView| !settled(events, request.peer_id);
    assert forall|i: int| 0 <= i < requests.len() implies stands(#[trigger] requests[i]) == (stood(
        requests[i],
    ) && keep(requests[i])) by {
        lemma_settled(events, requests[i].peer_id);
    }
    seqs::lemma_filter_twice(requests, stood, keep, stands);
    seqs::lemma_filter_sum(surviving(requests, init), requested(arrivals(requests, init)), keep);
}

/// An event that settles nothing leaves the earlier requests as they are.
proof fn lemma_wait_on(
    requests: Seq<JoinRequestView>,
    events: Seq<(HostingEventView, Moment)>,
)
    requires
        events.len() > 0,
        forall|of: Seq<char>| !#[trigger] settles(events.last().0, of),
    ensures
        surviving(requests, events) == surviving(requests, events.drop_last()),
{
    let init = events.drop_last();
    let keep = |request: JoinRequestView| true;
    let stood = |request: JoinRequestView| !settled(init, request.peer_id);
    let stands = |request: JoinRequestView| !settled(events, request.peer_id);
    assert forall|i: int| 0 <= i < requests.len() implies stands(#[trigger] requests[i]) == (stood(
        requests[i],
    ) && keep(requests[i])) by {
        lemma_settled(events, requests[i].peer_id);
        assert(!settles(events.last().0, requests[i].peer_id));
    }
    seqs::lemma_filter_twice(requests, stood, keep, stands);
    seqs::lemma_filter_all(requests.filter(stood), keep);
}

/// What an event makes of those that wait.
spec fn waiting_after(requests: Seq<JoinRequestView>, event: HostingEventView) -> Seq<
    JoinRequestView,
> {
    match event {
        HostingEventView::JoinRequested(request) => if waits(requests, request.peer_id) {
            requests
        } else {
            requests.push(request)
        },
        HostingEventView::ViewerJoined { peer_id, .. } => without_request(requests, peer_id),
        HostingEventView::ViewerLeft { peer_id } => without_request(requests, peer_id),
        _ => requests,
    }
}

proof fn lemma_waiting_after(m: HostingModel, event: HostingEventView, now: Moment)
    ensures
        m.applied(event, now).requests == waiting_after(m.requests, event),
{
}

/// One more event keeps the requests in order.
proof fn lemma_wait_step(
    requests: Seq<JoinRequestView>,
    events: Seq<(HostingEventView, Moment)>,
)
    requires
        events.len() > 0,
    ensures
        waiting_after(
            surviving(requests, events.drop_last()) + requested(
                arrivals(requests, events.drop_last()),
            ),
            events.last().0,
        ) == surviving(requests, events) + requested(arrivals(requests, events)),
{
    let init = events.drop_last();
    let before = arrivals(requests, init);
    let all = arrivals(requests, events);
    let stood = surviving(requests, init);
    match events.last().0 {
        HostingEventView::ViewerJoined { peer_id, .. } => {
            lemma_wait_over(requests, events, peer_id);
            lemma_requested_filter(before, peer_id);
        },
        HostingEventView::ViewerLeft { peer_id } => {
            lemma_wait_over(requests, events, peer_id);
            lemma_requested_filter(before, peer_id);
        },
        HostingEventView::JoinRequested(request) => {
            lemma_wait_on(requests, events);
            if !waits(stood + requested(before), request.peer_id) {
                assert(all == before.push((events.len() - 1, request)));
                assert(requested(all) =~= requested(before).push(request));
                assert((stood + requested(before)).push(request) =~= stood + requested(all));
            }
        },
        _ => {
            lemma_wait_on(requests, events);
        },
    }
}

/// What a run does to those that wait: requests that were there keep their order
/// as far as they stand, and those that came in it are behind them, oldest first.
pub proof fn law_requests_wait_in_order(
    m: HostingModel,
    events: Seq<(HostingEventView, Moment)>,
)
    ensures
        ran(m, events).requests == surviving(m.requests, events) + requested(
            arrivals(m.requests, events),
        ),
        in_event_order(arrivals(m.requests, events), events),
    decreases events.len(),
{
    lemma_arrivals_in_order(m.requests, events);
    if events.len() == 0 {
        seqs::lemma_filter_all(
            m.requests,
            |request: JoinRequestView| !settled(events, request.peer_id),
        );
        assert(m.requests =~= surviving(m.requests, events) + requested(
            arrivals(m.requests, events),
        ));
    } else {
        law_requests_wait_in_order(m, events.drop_last());
        lemma_waiting_after(ran(m, events.drop_last()), events.last().0, events.last().1);
        lemma_wait_step(m.requests, events);
    }
}

proof fn lemma_increasing_filter(
    s: Seq<(int, JoinRequestView)>,
    keep: spec_fn((int, JoinRequestView)) -> bool,
)
    requires
        forall|j: int, k: int|
            0 <= j < k < s.len() ==> (#[trigger] s[j]).0 < (#[trigger] s[k]).0,
    ensures
        forall|j: int, k: int|
            0 <= j < k < s.filter(keep).len() ==> (#[trigger] s.filter(keep)[j]).0 < (
            #[trigger] s.filter(keep)[k]).0,
    decreases s.len(),
{
    if s.len() > 0 {
        let init = s.drop_last();
        let last = s.last();
        assert(s =~= init.push(last));
        assert forall|j: int, k: int| 0 <= j < k < init.len() implies (#[trigger] init[j]).0 < (
        #[trigger] init[k]).0 by {
            assert(s[j].0 < s[k].0);
        }
        lemma_increasing_filter(init, keep);
        seqs::lemma_filter_push(init, last, keep);
        seqs::lemma_filter_members(init, keep);
        let rest = init.filter(keep);
        let kept = s.filter(keep);
        assert forall|j: int, k: int| 0 <= j < k < kept.len() implies (#[trigger] kept[j]).0 < (
        #[trigger] kept[k]).0 by {
            if k < rest.len() {
                assert(rest[j].0 < rest[k].0);
            } else {
                assert(init.contains(rest[j]));
                let i = choose|i: int| 0 <= i < init.len() && init[i] == rest[j];
                assert(s[i].0 < s[s.len() - 1].0);
            }
        }
    } else {
        reveal(Seq::filter);
    }
}

/// Over a whole run, each viewer and each request stays listed once.
pub proof fn law_running_keeps_valid(m: HostingModel, events: Seq<(HostingEventView, Moment)>)
    requires
        m.valid(),
    ensures
        ran(m, events).valid(),
    decreases events.len(),
{
    if events.len() > 0 {
        law_running_keeps_valid(m, events.drop_last());
        law_applying_keeps_valid(
            ran(m, events.drop_last()),
            events.last().0,
            events.last().1,
        );
    }
}

/// A viewer that joined or left after it last asked does not wait.
pub proof fn law_settled_viewers_do_not_wait(
    m: HostingModel,
    events: Seq<(HostingEventView, Moment)>,
    peer_id: Seq<char>,
    i: int,
)
    requires
        0 <= i < events.len(),
        settles(events[i].0, peer_id),
        forall|j: int| i < j < events.len() ==> !asks((#[trigger] events[j]).0, peer_id),
    ensures
        !waits(ran(m, events).requests, peer_id),
    decreases events.len(),
{
    let init = events.drop_last();
    let before = ran(m, init);
    let event = events.last().0;
    let after = ran(m, events);
    if i == events.len() - 1 {
        seqs::lemma_filter_members(
            before.requests,
            |request: JoinRequestView| request.peer_id != peer_id,
        );
    } else {
        assert(forall|j: int| 0 <= j < init.len() ==> #[trigger] init[j] == events[j]);
        law_settled_viewers_do_not_wait(m, init, peer_id, i);
        assert(!asks(events[events.len() - 1].0, peer_id));
        if waits(after.requests, peer_id) {
            let k = choose|k: int|
                0 <= k < after.requests.len() && (#[trigger] after.requests[k]).peer_id == peer_id;
            match event {
                HostingEventView::ViewerJoined { peer_id: of, .. } => seqs::lemma_filter_members(
                    before.requests,
                    |request: JoinRequestView| request.peer_id != of,
                ),
                HostingEventView::ViewerLeft { peer_id: of } => seqs::lemma_filter_members(
                    before.requests,
                    |request: JoinRequestView| request.peer_id != of,
                ),
                _ => {},
            }
            if settles(event, peer_id) || event is ViewerJoined || event is ViewerLeft {
                assert(before.requests.contains(after.requests[k]));
                let j = choose|j: int|
                    0 <= j < before.requests.len() && before.requests[j] == after.requests[k];
                assert(before.requests[j].peer_id == peer_id);
            } else if k < before.requests.len() {
                assert(before.requests[k].peer_id == peer_id);
            }
        }
    }
}

/// A viewer that left and did not come back is not shown.
pub proof fn law_viewers_that_left_are_gone(
    m: HostingModel,
    events: Seq<(HostingEventView, Moment)>,
    peer_id: Seq<char>,
    i: int,
)
    requires
        0 <= i < events.len(),
        events[i].0 == (HostingEventView::ViewerLeft { peer_id }),
        forall|j: int| i < j < events.len() ==> !appears((#[trigger] events[j]).0, peer_id),
    ensures
        forall|k: int|
            0 <= k < ran(m, events).viewers.len() ==> (#[trigger] ran(m, events).viewers[k]).peer_id
                != peer_id,
    decreases events.len(),
{
    let init = events.drop_last();
    let before = ran(m, init);
    let event = events.last().0;
    let after = ran(m, events);
    if i == events.len() - 1 {
        seqs::lemma_filter_members(
            before.viewers,
            |entry: ViewerEntryView| entry.peer_id != peer_id,
        );
    } else {
        assert(forall|j: int| 0 <= j < init.len() ==> #[trigger] init[j] == events[j]);
        law_viewers_that_left_are_gone(m, init, peer_id, i);
        assert(!appears(events[events.len() - 1].0, peer_id));
        match event {
            HostingEventView::ViewerLeft { peer_id: of } => seqs::lemma_filter_members(
                before.viewers,
                |entry: ViewerEntryView| entry.peer_id != of,
            ),
            HostingEventView::ViewerJoined { peer_id: of, .. } => seqs::lemma_first_where(
                before.viewers,
                of_peer(of),
            ),
            HostingEventView::ViewerConnection { peer_id: of, .. } => seqs::lemma_first_where(
                before.viewers,
                of_peer(of),
            ),
            HostingEventView::ViewerStats(of, _) => seqs::lemma_first_where(
                before.viewers,
                of_peer(of),
            ),
            _ => {},
        }
        assert forall|k: int| 0 <= k < after.viewers.len() implies (
        #[trigger] after.viewers[k]).peer_id != peer_id by {
            if event is ViewerLeft {
                assert(before.viewers.contains(after.viewers[k]));
                let j = choose|j: int|
                    0 <= j < before.viewers.len() && before.viewers[j] == after.viewers[k];
                assert(before.viewers[j].peer_id != peer_id);
            } else if k < before.viewers.len() {
                assert(before.viewers[k].peer_id != peer_id);
            }
        }
    }
}

/// The room outlives sharing: how it is shared changes nothing but that and the
/// status line.
pub proof fn law_the_room_outlives_sharing(m: HostingModel, sharing: SharingState, now: Moment)
    ensures
        m.applied(HostingEventView::Sharing(sharing), now) == (HostingModel {
            sharing,
            status: sharing_status(sharing),
            ..m
        }),
{
}

} // verus!
