//! A viewer session that can be run.
use vstd::prelude::*;
use vstd::string::*;

use super::model;
use super::model::ViewerModel;
use super::types::{
    EndReason, PlaybackEvent, ViewerAction, ViewerCall, ViewerCommand, ViewerError, ViewerOutcome,
    ViewerPhase, ViewerUpdate,
};
use crate::client::presenter::session::line_index;
use crate::client::presenter::types::ConnectionState;
use crate::client::signaling::SignalingState;
use crate::clock;
use crate::clock::Timestamp;
use crate::crypto;
use crate::crypto::Secret;
use crate::protocol::{
    ChatMessage, ClientMessage, ClientMessageView, ErrorCode, IceConfiguration, RoomSnapshot,
    ServerMessage, ViewerState,
};
use crate::seqs;
use crate::text;

verus! {

/// What a session starts with. Whatever concerns the media alone is the
/// business of who runs the playback.
pub struct ViewerSessionConfig {
    pub room_id: String,
    pub viewer_secret: Secret,
    pub display_name: Option<String>,
}

impl ViewerSessionConfig {
    /// How the session authenticates.
    pub fn authentication(&self) -> (r: ClientMessage)
        ensures
            r@ == (ClientMessageView::AuthViewer {
                room_id: self.room_id@,
                viewer_secret: self.viewer_secret@,
                display_name: self.display_name.deep_view(),
            }),
    {
        ClientMessage::AuthViewer {
            room_id: self.room_id.clone(),
            viewer_secret: crypto::secret_as_str(&self.viewer_secret).to_owned(),
            display_name: self.display_name.clone(),
        }
    }
}

/// Watches a room as a viewer.
pub struct ViewerSession {
    display_name: Option<String>,
    phase: ViewerPhase,
    self_peer_id: Option<String>,
    presenter_peer_id: Option<String>,
    offer_session_id: Option<String>,
    ice: Option<IceConfiguration>,
    has_playback: bool,
    pending_chat: Vec<ChatMessage>,
    connection: ConnectionState,
    restart_check_pending: bool,
    last_restart_request: Option<Timestamp>,
    offer: Option<String>,
    asking: Option<ViewerCall>,
    outgoing: Vec<ViewerAction>,
}

impl View for ViewerSession {
    type V = ViewerModel;

    closed spec fn view(&self) -> ViewerModel {
        ViewerModel {
            display_name: self.display_name.deep_view(),
            phase: self.phase,
            self_peer_id: self.self_peer_id.deep_view(),
            presenter_peer_id: self.presenter_peer_id.deep_view(),
            offer_session_id: self.offer_session_id.deep_view(),
            ice: self.ice.deep_view(),
            has_playback: self.has_playback,
            pending_chat: self.pending_chat.deep_view(),
            connection: self.connection,
            restart_check_pending: self.restart_check_pending,
            last_restart_request: match self.last_restart_request {
                Some(at) => Some(at as int),
                None => None,
            },
            offer: self.offer.deep_view(),
            asking: self.asking.deep_view(),
            outgoing: self.outgoing.deep_view(),
        }
    }
}

/// The session identifier in the origin line of a session description.
pub fn sdp_session_id(sdp: &str) -> (r: Option<String>)
    ensures
        r.deep_view() == model::session_id(sdp@),
{
    let lines = text::split_at(sdp, '\n');
    let ghost all = lines.deep_view();
    let ghost origin = |line: Seq<char>| text::has_prefix(line, model::origin_prefix());
    for i in 0..lines.len()
        invariant
            all == lines.deep_view(),
            all == text::split(sdp@, '\n'),
            origin == |line: Seq<char>| text::has_prefix(line, model::origin_prefix()),
            forall|j: int| 0 <= j < i ==> !origin(#[trigger] all[j]),
    {
        if let Some(fields) = text::after_prefix(lines[i].as_str(), "o=") {
            proof {
                assert(origin(all[i as int]));
                seqs::lemma_first(all, origin, i as int);
            }
            let words = text::words_of(fields.as_str());
            return if words.len() >= 2 {
                Some(words[1].clone())
            } else {
                None
            };
        }
        assert(!origin(all[i as int]));
    }
    proof {
        seqs::lemma_no_first(all, origin);
    }
    None
}

/// Whether the snapshot shows this viewer as approved.
pub fn find_self_approved(snapshot: &RoomSnapshot, peer_id: &str) -> (r: bool)
    ensures
        r == model::approved(snapshot@, peer_id@),
{
    let ghost all = snapshot@.pending_viewers + snapshot@.approved_viewers;
    let ghost own = |viewer: crate::protocol::PeerSnapshotView| viewer.peer_id == peer_id@;
    for i in 0..snapshot.pending_viewers.len()
        invariant
            all == snapshot@.pending_viewers + snapshot@.approved_viewers,
            own == |viewer: crate::protocol::PeerSnapshotView| viewer.peer_id == peer_id@,
            forall|j: int| 0 <= j < i ==> !own(#[trigger] all[j]),
    {
        let viewer = &snapshot.pending_viewers[i];
        assert(viewer@ == all[i as int]);
        if text::same(viewer.peer_id.as_str(), peer_id) {
            proof {
                assert(own(all[i as int]));
                seqs::lemma_first(all, own, i as int);
            }
            return is_approved(viewer.viewer_state);
        }
        assert(!own(all[i as int]));
    }
    let waiting: usize = snapshot.pending_viewers.len();
    for i in 0..snapshot.approved_viewers.len()
        invariant
            all == snapshot@.pending_viewers + snapshot@.approved_viewers,
            own == |viewer: crate::protocol::PeerSnapshotView| viewer.peer_id == peer_id@,
            waiting == snapshot.pending_viewers@.len(),
            forall|j: int| 0 <= j < waiting + i ==> !own(#[trigger] all[j]),
    {
        let viewer = &snapshot.approved_viewers[i];
        assert(viewer@ == all[waiting + i]);
        if text::same(viewer.peer_id.as_str(), peer_id) {
            proof {
                assert(own(all[waiting + i]));
                seqs::lemma_first(all, own, waiting + i);
            }
            return is_approved(viewer.viewer_state);
        }
        assert(!own(all[waiting + i]));
    }
    proof {
        seqs::lemma_no_first(all, own);
    }
    false
}

fn is_approved(state: Option<ViewerState>) -> (r: bool)
    ensures
        r == (state == Some(ViewerState::Approved)),
{
    match state {
        Some(state) => state == ViewerState::Approved,
        None => false,
    }
}

/// Whether an identifier is the one that is known.
fn is_known(known: &Option<String>, peer_id: &str) -> (r: bool)
    ensures
        r == (known.deep_view() == Some(peer_id@)),
{
    match known {
        Some(known) => text::same(known.as_str(), peer_id),
        None => false,
    }
}

impl ViewerSession {
    /// A session that has not authenticated yet.
    pub fn start(config: ViewerSessionConfig) -> (r: Self)
        ensures
            r@ == (ViewerModel {
                display_name: config.display_name.deep_view(),
                phase: ViewerPhase::Connecting,
                self_peer_id: None,
                presenter_peer_id: None,
                offer_session_id: None,
                ice: None,
                has_playback: false,
                pending_chat: Seq::empty(),
                connection: ConnectionState::New,
                restart_check_pending: false,
                last_restart_request: None,
                offer: None,
                asking: None,
                outgoing: Seq::empty(),
            }),
            r@.valid(),
    {
        let r = ViewerSession {
            display_name: config.display_name,
            phase: ViewerPhase::Connecting,
            self_peer_id: None,
            presenter_peer_id: None,
            offer_session_id: None,
            ice: None,
            has_playback: false,
            pending_chat: Vec::new(),
            connection: ConnectionState::New,
            restart_check_pending: false,
            last_restart_request: None,
            offer: None,
            asking: None,
            outgoing: Vec::new(),
        };
        assert(r@.pending_chat =~= Seq::empty());
        assert(r@.outgoing =~= Seq::empty());
        r
    }

    /// What the session waits for, if it does.
    pub fn asking(&self) -> (r: Option<ViewerCall>)
        ensures
            r.deep_view() == self@.asking,
    {
        match &self.asking {
            Some(call) => Some(call.clone()),
            None => None,
        }
    }

    /// What was done since the last time this was asked, oldest first.
    pub fn take_outgoing(&mut self) -> (r: Vec<ViewerAction>)
        ensures
            r.deep_view() == old(self)@.outgoing,
            final(self)@ == (ViewerModel { outgoing: Seq::empty(), ..old(self)@ }),
            old(self)@.valid() ==> final(self)@.valid(),
    {
        let mut taken: Vec<ViewerAction> = Vec::new();
        std::mem::swap(&mut taken, &mut self.outgoing);
        assert(self@.outgoing =~= Seq::empty());
        taken
    }

    fn emit(&mut self, action: ViewerAction)
        ensures
            final(self)@ == old(self)@.emit(action@),
    {
        self.outgoing.push(action);
        assert(self@.outgoing =~= old(self)@.outgoing.push(action@));
    }

    fn send(&mut self, message: ClientMessage)
        ensures
            final(self)@ == old(self)@.send(message@),
    {
        self.emit(ViewerAction::Send { message });
    }

    fn report(&mut self, update: ViewerUpdate)
        ensures
            final(self)@ == old(self)@.report(update@),
    {
        self.emit(ViewerAction::Report { update });
    }

    fn set_phase(&mut self, phase: ViewerPhase)
        ensures
            final(self)@ == old(self)@.set_phase(phase),
    {
        if self.phase != phase {
            self.phase = phase;
            self.report(ViewerUpdate::Phase { phase });
        }
    }

    fn finish_playback(&mut self)
        ensures
            final(self)@ == old(self)@.finish_playback(),
    {
        if self.has_playback {
            self.emit(ViewerAction::ClosePlayback);
        }
        self.has_playback = false;
        self.connection = ConnectionState::New;
    }

    fn finish(&mut self, end: EndReason, send_leave: bool) -> (r: ViewerOutcome)
        ensures
            (final(self)@, r@) == old(self)@.finish(end, send_leave),
    {
        self.finish_playback();
        self.emit(ViewerAction::Disconnect { send_leave });
        ViewerOutcome::Ended { end }
    }

    fn request_ice_restart(&mut self, manual: bool, now: Timestamp)
        requires
            old(self)@.valid(),
            clock::is_timestamp(now as int),
        ensures
            final(self)@ == old(self)@.request_ice_restart(manual, now as int),
    {
        if !manual {
            if let Some(at) = self.last_restart_request {
                assert(clock::is_timestamp(at as int));
                if now - at < model::ICE_RESTART_MIN_INTERVAL {
                    return;
                }
            }
        }
        let destination_peer_id = match &self.presenter_peer_id {
            Some(peer_id) => peer_id.clone(),
            None => {
                return;
            },
        };
        self.last_restart_request = Some(now);
        self.send(ClientMessage::SignalIceRestart { destination_peer_id });
    }

    fn schedule_restart_check(&mut self)
        ensures
            final(self)@ == old(self)@.schedule_restart_check(),
    {
        if !self.restart_check_pending {
            self.restart_check_pending = true;
            self.emit(ViewerAction::AwaitRestartCheck);
        }
    }

    /// The time for the connection to heal is over.
    pub fn restart_check_fired(&mut self, now: Timestamp)
        requires
            old(self)@.valid(),
            clock::is_timestamp(now as int),
        ensures
            final(self)@ == old(self)@.restart_check_fired(now as int),
            final(self)@.valid(),
    {
        self.restart_check_pending = false;
        if self.connection == ConnectionState::Disconnected || self.connection
            == ConnectionState::Failed {
            self.request_ice_restart(false, now);
        }
    }

    fn report_snapshot(&mut self, snapshot: &RoomSnapshot)
        ensures
            final(self)@ == old(self)@.report_snapshot(snapshot@),
    {
        self.report(ViewerUpdate::SharingState { state: snapshot.sharing_state });
        self.report(ViewerUpdate::RoomExpiry { expires_in_seconds: snapshot.expires_in_seconds });
        self.report(ViewerUpdate::PresenterConnected { connected: snapshot.presenter_connected });
    }

    /// The host asks for something.
    pub fn handle_command(&mut self, command: ViewerCommand, now: Timestamp) -> (r: ViewerOutcome)
        requires
            old(self)@.valid(),
            old(self)@.asking is None,
            clock::is_timestamp(now as int),
        ensures
            (final(self)@, r@) == old(self)@.handle_command(command@, now as int),
            final(self)@.valid(),
    {
        match command {
            ViewerCommand::Chat { text } => {
                let sender = match &self.display_name {
                    Some(name) => name.clone(),
                    None => "Viewer".to_owned(),
                };
                let message = ChatMessage { sender, text };
                if self.has_playback {
                    self.emit(ViewerAction::SendChat { message });
                } else {
                    self.pending_chat.push(message);
                    assert(self@.pending_chat =~= old(self)@.pending_chat.push(message@));
                }
            },
            ViewerCommand::SetDisplayName { name } => {
                self.display_name = Some(name.clone());
                self.send(ClientMessage::ViewerUpdateDisplayName { display_name: Some(name) });
            },
            ViewerCommand::RestartIce => self.request_ice_restart(true, now),
            ViewerCommand::Leave => {
                return self.finish(EndReason::Left, true);
            },
        }
        ViewerOutcome::Continue
    }

    /// The host is gone.
    pub fn commands_closed(&mut self) -> (r: ViewerOutcome)
        requires
            old(self)@.valid(),
            old(self)@.asking is None,
        ensures
            (final(self)@, r@) == old(self)@.finish(EndReason::Left, true),
            final(self)@.valid(),
    {
        self.finish(EndReason::Left, true)
    }

    /// The ICE configuration is about to expire.
    pub fn refresh_due(&mut self)
        requires
            old(self)@.valid(),
        ensures
            final(self)@ == old(self)@.refresh_due(),
            final(self)@.valid(),
    {
        self.send(ClientMessage::IceRefresh);
        self.emit(ViewerAction::RetryRefresh);
    }

    /// The signaling connection changed its state.
    pub fn signaling_state(&mut self, state: SignalingState)
        requires
            old(self)@.valid(),
        ensures
            final(self)@ == old(self)@.signaling_state(state),
            final(self)@.valid(),
    {
        self.report(ViewerUpdate::Signaling { state });
    }

    fn accept(&mut self, sdp: String) -> (r: ViewerOutcome)
        ensures
            (final(self)@, r@) == old(self)@.accept(sdp@),
    {
        if self.has_playback {
            self.asking = Some(ViewerCall::AcceptOffer { sdp: sdp.clone() });
            self.offer = Some(sdp);
            return ViewerOutcome::Continue;
        }
        match &self.ice {
            None => ViewerOutcome::Failed {
                error: ViewerError::Playback {
                    reason: "an offer arrived before the ICE configuration".to_owned(),
                },
            },
            Some(configuration) => {
                self.asking = Some(ViewerCall::Start { configuration: configuration.clone() });
                self.offer = Some(sdp);
                ViewerOutcome::Continue
            },
        }
    }

    fn offered(&mut self, source_peer_id: String, sdp: String, ice_restart: bool) -> (r:
        ViewerOutcome)
        ensures
            (final(self)@, r@) == old(self)@.offered(source_peer_id@, sdp@, ice_restart),
    {
        self.presenter_peer_id = Some(source_peer_id);
        self.set_phase(ViewerPhase::Negotiating);
        let session_id = sdp_session_id(sdp.as_str());
        let same_connection = ice_restart || match &session_id {
            Some(session_id) => is_known(&self.offer_session_id, session_id.as_str()),
            None => false,
        };
        if !same_connection && self.has_playback {
            self.finish_playback();
        }
        if session_id.is_some() {
            self.offer_session_id = session_id;
        }
        self.accept(sdp)
    }

    /// The server says something.
    pub fn handle_message(&mut self, message: ServerMessage) -> (r: ViewerOutcome)
        requires
            old(self)@.valid(),
            old(self)@.asking is None,
        ensures
            (final(self)@, r@) == old(self)@.handle_message(message@),
            final(self)@.valid(),
    {
        match message {
            ServerMessage::AuthSucceeded { peer_id, snapshot, ice_configuration, .. } => {
                let approved = find_self_approved(&snapshot, peer_id.as_str());
                self.self_peer_id = Some(peer_id);
                let expires_at = ice_configuration.expires_at.clone();
                self.ice = Some(ice_configuration);
                self.emit(ViewerAction::ScheduleRefresh { expires_at });
                self.set_phase(
                    if approved {
                        ViewerPhase::Negotiating
                    } else {
                        ViewerPhase::AwaitingApproval
                    },
                );
                self.report_snapshot(&snapshot);
            },
            ServerMessage::RoomSnapshot { snapshot, .. } => self.report_snapshot(&snapshot),
            ServerMessage::RoomSharingStateUpdated { sharing_state, .. } => {
                self.report(ViewerUpdate::SharingState { state: sharing_state });
            },
            ServerMessage::ViewerApproved { peer_id, .. } => {
                if is_known(&self.self_peer_id, peer_id.as_str()) {
                    self.set_phase(ViewerPhase::Negotiating);
                }
            },
            ServerMessage::ViewerRejected { peer_id, .. } => {
                if is_known(&self.self_peer_id, peer_id.as_str()) {
                    return self.finish(EndReason::Rejected, false);
                }
            },
            ServerMessage::ViewerKicked { peer_id, .. } => {
                if is_known(&self.self_peer_id, peer_id.as_str()) {
                    return self.finish(EndReason::Kicked, false);
                }
            },
            ServerMessage::SignalOffer { source_peer_id, sdp, ice_restart, .. } => {
                return self.offered(source_peer_id, sdp, ice_restart);
            },
            ServerMessage::SignalIceCandidate { candidate, sdp_m_line_index, .. } => {
                if self.has_playback {
                    let index: u32 = match sdp_m_line_index {
                        Some(index) => index as u32,
                        None => 0,
                    };
                    self.emit(ViewerAction::AddCandidate { sdp_m_line_index: index, candidate });
                }
            },
            ServerMessage::IceConfiguration { configuration, .. } => {
                let expires_at = configuration.expires_at.clone();
                self.ice = Some(configuration);
                self.emit(ViewerAction::ScheduleRefresh { expires_at });
            },
            ServerMessage::PresenterDisconnected { .. } => {
                self.report(ViewerUpdate::PresenterConnected { connected: false });
            },
            ServerMessage::PresenterResumed { .. } => {
                self.report(ViewerUpdate::PresenterConnected { connected: true });
            },
            ServerMessage::RoomClosed { .. } => {
                return self.finish(EndReason::RoomClosed, false);
            },
            ServerMessage::RoomExpired { .. } => {
                return self.finish(EndReason::RoomExpired, false);
            },
            ServerMessage::AuthFailed { message, .. } => {
                self.finish_playback();
                return ViewerOutcome::Failed {
                    error: ViewerError::AuthenticationFailed { message },
                };
            },
            ServerMessage::Error { code, .. } => {
                if code == ErrorCode::RoomClosed {
                    return self.finish(EndReason::RoomClosed, false);
                }
                if code == ErrorCode::RoomExpired {
                    return self.finish(EndReason::RoomExpired, false);
                }
            },
            _ => {},
        }
        ViewerOutcome::Continue
    }

    /// The playback reports something.
    pub fn handle_playback(&mut self, event: PlaybackEvent, now: Timestamp) -> (r: ViewerOutcome)
        requires
            old(self)@.valid(),
            old(self)@.asking is None,
            clock::is_timestamp(now as int),
        ensures
            (final(self)@, r@) == old(self)@.handle_playback(event@, now as int),
            final(self)@.valid(),
    {
        match event {
            PlaybackEvent::Answer { sdp } => {
                if let Some(peer_id) = &self.presenter_peer_id {
                    let destination_peer_id = peer_id.clone();
                    self.send(ClientMessage::SignalAnswer { destination_peer_id, sdp });
                }
            },
            PlaybackEvent::IceCandidate { candidate, sdp_m_line_index } => {
                if let Some(peer_id) = &self.presenter_peer_id {
                    let destination_peer_id = peer_id.clone();
                    self.send(
                        ClientMessage::SignalIceCandidate {
                            destination_peer_id,
                            candidate,
                            sdp_mid: None,
                            sdp_m_line_index: Some(line_index(sdp_m_line_index)),
                        },
                    );
                }
            },
            PlaybackEvent::ConnectionState { state } => {
                self.connection = state;
                match state {
                    ConnectionState::Connected => self.set_phase(ViewerPhase::Live),
                    ConnectionState::Failed => self.request_ice_restart(false, now),
                    ConnectionState::Disconnected => self.schedule_restart_check(),
                    _ => {},
                }
                self.report(ViewerUpdate::Connection { state });
            },
            PlaybackEvent::Chat { message } => {
                if let Some(chat) = message {
                    self.report(ViewerUpdate::Chat { sender: chat.sender, text: chat.text });
                }
            },
            PlaybackEvent::Ended { reason } => {
                self.finish_playback();
                self.emit(ViewerAction::Disconnect { send_leave: true });
                return ViewerOutcome::Failed { error: ViewerError::Playback { reason } };
            },
        }
        ViewerOutcome::Continue
    }

    fn flush_chat(&mut self)
        ensures
            final(self)@ == old(self)@.flush_chat(),
    {
        let mut chats: Vec<ChatMessage> = Vec::new();
        std::mem::swap(&mut chats, &mut self.pending_chat);
        let ghost all = chats.deep_view();
        let ghost sent = all.map_values(
            |message: crate::protocol::ChatMessageView|
                super::types::ViewerActionView::SendChat { message },
        );
        let ghost start = ViewerModel { pending_chat: Seq::empty(), ..self@ };
        assert(self@ =~= ViewerModel { outgoing: start.outgoing + sent.take(0), ..start });
        for i in 0..chats.len()
            invariant
                all == chats.deep_view(),
                sent == all.map_values(
                    |message: crate::protocol::ChatMessageView|
                        super::types::ViewerActionView::SendChat { message },
                ),
                self@ == (ViewerModel { outgoing: start.outgoing + sent.take(i as int), ..start }),
        {
            self.emit(ViewerAction::SendChat { message: chats[i].clone() });
            assert(self@.outgoing =~= start.outgoing + sent.take(i + 1));
        }
        assert(sent.take(all.len() as int) =~= sent);
        assert(self@ =~= old(self)@.flush_chat());
    }

    /// What was asked for is done, or failed with this message.
    pub fn answer(&mut self, error: Option<String>) -> (r: ViewerOutcome)
        requires
            old(self)@.valid(),
            old(self)@.asking is Some,
        ensures
            (final(self)@, r@) == old(self)@.answered(error.deep_view()),
            final(self)@.valid(),
    {
        let asked = self.asking.take();
        let offer = self.offer.take();
        if let Some(message) = error {
            return ViewerOutcome::Failed { error: ViewerError::PlaybackStart { message } };
        }
        if let (Some(ViewerCall::Start { .. }), Some(sdp)) = (asked, offer) {
            self.flush_chat();
            self.has_playback = true;
            self.asking = Some(ViewerCall::AcceptOffer { sdp: sdp.clone() });
            self.offer = Some(sdp);
        }
        ViewerOutcome::Continue
    }
}

} // verus!
