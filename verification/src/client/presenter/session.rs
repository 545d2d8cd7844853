//! A presenter session that can be run.
use vstd::prelude::*;
use vstd::string::*;

use super::laws;
use super::model;
use super::model::PresenterModel;
use super::types::{
    BroadcastEvent, ConnectionState, PresenterAction, PresenterCall, PresenterCommand,
    PresenterEnd, PresenterError, PresenterOutcome, PresenterTask, PresenterUpdate,
};
use crate::client::signaling::SignalingState;
use crate::clock::Span;
use crate::crypto;
use crate::crypto::Secret;
use crate::protocol::{
    ChatMessage, ClientMessage, ClientMessageView, ErrorCode, PeerSnapshot, RoomSnapshot,
    ServerMessage, SharingState,
};
use crate::text;
use crate::textset::TextSet;

verus! {

/// How long an ICE restart is given to recover a viewer's connection before it
/// is rebuilt.
pub const RECOVERY_TIMEOUT: Span = 8_000_000_000;

/// How long a close waits for the server's confirmation.
pub const CLOSE_TIMEOUT: Span = 10_000_000_000;

/// What a session starts with. Whatever concerns the media alone is the
/// business of who runs the broadcast.
pub struct PresenterSessionConfig {
    pub room_id: String,
    pub presenter_secret: Secret,
    /// The capture to open the room with; without one the room opens idle.
    pub source: Option<u64>,
    /// The name that outgoing chat carries; without one it is "Presenter".
    pub display_name: Option<String>,
    pub auto_approve: bool,
}

impl PresenterSessionConfig {
    /// How the session authenticates.
    pub fn authentication(&self) -> (r: ClientMessage)
        ensures
            r@ == (ClientMessageView::AuthPresenter {
                room_id: self.room_id@,
                presenter_secret: self.presenter_secret@,
            }),
    {
        ClientMessage::AuthPresenter {
            room_id: self.room_id.clone(),
            presenter_secret: crypto::secret_as_str(&self.presenter_secret).to_owned(),
        }
    }
}

/// Hosts a room as its presenter.
pub struct PresenterSession {
    display_name: String,
    auto_approve: bool,
    sharing: SharingState,
    source: Option<u64>,
    has_broadcast: bool,
    self_peer_id: Option<String>,
    pending_snapshot: Option<RoomSnapshot>,
    pending_chat: Vec<ChatMessage>,
    active_viewers: TextSet,
    approvals_sent: TextSet,
    announced_requests: TextSet,
    recovering: TextSet,
    closing: bool,
    asking: Option<PresenterCall>,
    agenda: Vec<PresenterTask>,
    outgoing: Vec<PresenterAction>,
}

impl View for PresenterSession {
    type V = PresenterModel;

    closed spec fn view(&self) -> PresenterModel {
        PresenterModel {
            display_name: self.display_name@,
            auto_approve: self.auto_approve,
            sharing: self.sharing,
            source: self.source,
            has_broadcast: self.has_broadcast,
            self_peer_id: self.self_peer_id.deep_view(),
            pending_snapshot: self.pending_snapshot.deep_view(),
            pending_chat: self.pending_chat.deep_view(),
            active_viewers: self.active_viewers@,
            approvals_sent: self.approvals_sent@,
            announced_requests: self.announced_requests@,
            recovering: self.recovering@,
            closing: self.closing,
            asking: self.asking.deep_view(),
            agenda: self.agenda.deep_view(),
            outgoing: self.outgoing.deep_view(),
        }
    }
}

pub(crate) fn line_index(n: u32) -> (r: u16)
    ensures
        r == model::line_index(n),
{
    if n <= 65_535 {
        n as u16
    } else {
        65_535
    }
}

/// Adds to a list what it takes to follow a snapshot.
fn push_tasks(tasks: &mut Vec<PresenterTask>, snapshot: RoomSnapshot)
    ensures
        final(tasks).deep_view() == old(tasks).deep_view() + model::tasks_of(snapshot@),
{
    let mut approved: Vec<String> = Vec::new();
    let count: usize = snapshot.approved_viewers.len();
    tasks.push(PresenterTask::Note { snapshot: snapshot.clone() });
    let ghost all = snapshot@.approved_viewers;
    let ghost noted = tasks.deep_view();
    assert(noted =~= old(tasks).deep_view().push(
        super::types::PresenterTaskView::Note { snapshot: snapshot@ },
    ));
    let ghost admits = all.map_values(
        |viewer: crate::protocol::PeerSnapshotView| super::types::PresenterTaskView::Admit { viewer },
    );
    assert(tasks.deep_view() =~= noted + admits.take(0));
    assert(approved.deep_view() =~= model::peer_ids(all).take(0));
    for i in 0..count
        invariant
            all == snapshot@.approved_viewers,
            count == snapshot.approved_viewers@.len(),
            admits == all.map_values(
                |viewer: crate::protocol::PeerSnapshotView|
                    super::types::PresenterTaskView::Admit { viewer },
            ),
            tasks.deep_view() == noted + admits.take(i as int),
            approved.deep_view() == model::peer_ids(all).take(i as int),
    {
        let ghost tasks_before = tasks.deep_view();
        let ghost approved_before = approved.deep_view();
        let viewer = snapshot.approved_viewers[i].clone();
        assert(viewer@ == all[i as int]);
        approved.push(viewer.peer_id.clone());
        assert(approved.deep_view() =~= approved_before.push(viewer@.peer_id));
        assert(approved.deep_view() =~= model::peer_ids(all).take(i + 1));
        tasks.push(PresenterTask::Admit { viewer });
        assert(tasks.deep_view() =~= tasks_before.push(admits[i as int]));
        assert(tasks.deep_view() =~= noted + admits.take(i + 1));
    }
    let ghost tasks_before = tasks.deep_view();
    assert(admits.take(all.len() as int) =~= admits);
    assert(approved.deep_view() =~= model::peer_ids(all));
    tasks.push(PresenterTask::Settle { approved });
    assert(tasks.deep_view() =~= tasks_before.push(
        super::types::PresenterTaskView::Settle { approved: model::peer_ids(all) },
    ));
    assert(tasks.deep_view() =~= old(tasks).deep_view() + model::tasks_of(snapshot@));
}

impl PresenterSession {
    /// A session that has not authenticated yet.
    pub fn start(config: PresenterSessionConfig) -> (r: Self)
        ensures
            r@ == (PresenterModel {
                display_name: match config.display_name {
                    Some(name) => name@,
                    None => "Presenter"@,
                },
                auto_approve: config.auto_approve,
                sharing: if config.source is Some {
                    SharingState::Live
                } else {
                    SharingState::Idle
                },
                source: config.source,
                has_broadcast: false,
                self_peer_id: None,
                pending_snapshot: None,
                pending_chat: Seq::empty(),
                active_viewers: Seq::empty(),
                approvals_sent: Seq::empty(),
                announced_requests: Seq::empty(),
                recovering: Seq::empty(),
                closing: false,
                asking: None,
                agenda: Seq::empty(),
                outgoing: Seq::empty(),
            }),
            r@.valid(),
    {
        let r = PresenterSession {
            display_name: match config.display_name {
                Some(name) => name,
                None => "Presenter".to_owned(),
            },
            auto_approve: config.auto_approve,
            sharing: if config.source.is_some() {
                SharingState::Live
            } else {
                SharingState::Idle
            },
            source: config.source,
            has_broadcast: false,
            self_peer_id: None,
            pending_snapshot: None,
            pending_chat: Vec::new(),
            active_viewers: TextSet::new(),
            approvals_sent: TextSet::new(),
            announced_requests: TextSet::new(),
            recovering: TextSet::new(),
            closing: false,
            asking: None,
            agenda: Vec::new(),
            outgoing: Vec::new(),
        };
        assert(r@.pending_chat =~= Seq::empty());
        assert(r@.agenda =~= Seq::empty());
        assert(r@.outgoing =~= Seq::empty());
        r
    }

    /// What the session waits for, if it does.
    pub fn asking(&self) -> (r: Option<PresenterCall>)
        ensures
            r.deep_view() == self@.asking,
    {
        match &self.asking {
            Some(call) => Some(call.clone()),
            None => None,
        }
    }

    /// What was done since the last time this was asked, oldest first.
    pub fn take_outgoing(&mut self) -> (r: Vec<PresenterAction>)
        ensures
            r.deep_view() == old(self)@.outgoing,
            final(self)@ == (PresenterModel { outgoing: Seq::empty(), ..old(self)@ }),
            old(self)@.valid() ==> final(self)@.valid(),
    {
        let mut taken: Vec<PresenterAction> = Vec::new();
        std::mem::swap(&mut taken, &mut self.outgoing);
        assert(self@.outgoing =~= Seq::empty());
        taken
    }

    fn emit(&mut self, action: PresenterAction)
        ensures
            final(self)@ == old(self)@.emit(action@),
    {
        self.outgoing.push(action);
        assert(self@.outgoing =~= old(self)@.outgoing.push(action@));
    }

    fn send(&mut self, message: ClientMessage)
        ensures
            final(self)@ == old(self)@.send(message@),
    {
        self.emit(PresenterAction::Send { message });
    }

    fn report(&mut self, update: PresenterUpdate)
        ensures
            final(self)@ == old(self)@.report(update@),
    {
        self.emit(PresenterAction::Report { update });
    }

    /// Tells the server how the room is shared.
    fn announce_sharing(&mut self)
        ensures
            final(self)@ == old(self)@.announce_sharing(),
    {
        self.send(ClientMessage::RoomUpdateSharingState { sharing_state: self.sharing });
    }

    fn converge(&mut self)
        ensures
            final(self)@ == old(self)@.converge(),
    {
        self.announce_sharing();
        self.report(PresenterUpdate::SharingState { state: self.sharing });
    }

    fn set_sharing(&mut self, state: SharingState)
        ensures
            final(self)@ == old(self)@.set_sharing(state),
    {
        self.sharing = state;
        self.converge();
    }

    fn finish_broadcast(&mut self)
        ensures
            final(self)@ == old(self)@.finish_broadcast(),
    {
        if self.has_broadcast {
            self.emit(PresenterAction::CloseBroadcast);
        }
        self.has_broadcast = false;
        self.active_viewers.clear();
        self.recovering.clear();
    }

    fn finish(&mut self, end: PresenterEnd) -> (r: PresenterOutcome)
        ensures
            (final(self)@, r@) == old(self)@.finish(end),
    {
        self.finish_broadcast();
        self.emit(PresenterAction::Disconnect { send_leave: false });
        PresenterOutcome::Ended { end }
    }

    fn begin_recovery(&mut self, peer_id: String)
        ensures
            final(self)@ == old(self)@.begin_recovery(peer_id@),
    {
        if !self.active_viewers.contains(peer_id.as_str()) || !self.recovering.insert(
            peer_id.clone(),
        ) {
            return;
        }
        if self.has_broadcast {
            self.emit(PresenterAction::RestartIce { peer_id: peer_id.clone() });
        }
        self.emit(PresenterAction::AwaitRecovery { peer_id });
    }

    /// The recovery time of a viewer is over.
    pub fn rebuild_if_unrecovered(&mut self, peer_id: String)
        requires
            old(self)@.valid(),
            old(self)@.asking is None,
        ensures
            final(self)@ == old(self)@.rebuild_if_unrecovered(peer_id@),
            final(self)@.valid(),
    {
        proof {
            laws::keep_rebuild(self@, peer_id@);
        }
        if !self.recovering.remove(peer_id.as_str()) || !self.active_viewers.contains(
            peer_id.as_str(),
        ) || !self.has_broadcast {
            return;
        }
        self.emit(PresenterAction::RemoveViewer { peer_id: peer_id.clone() });
        self.asking = Some(PresenterCall::Rebuild { peer_id });
    }

    fn note_pending(&mut self, viewer: &PeerSnapshot)
        ensures
            final(self)@ == old(self)@.note_pending(viewer@),
    {
        if self.auto_approve && self.approvals_sent.insert(viewer.peer_id.clone()) {
            self.send(ClientMessage::ViewerApprove { peer_id: viewer.peer_id.clone() });
        }
        if self.announced_requests.insert(viewer.peer_id.clone()) {
            self.report(
                PresenterUpdate::JoinRequested {
                    peer_id: viewer.peer_id.clone(),
                    display_name: viewer.display_name.clone(),
                    friend_code: viewer.friend_code.clone(),
                },
            );
        }
    }

    fn note(&mut self, snapshot: &RoomSnapshot)
        ensures
            final(self)@ == old(self)@.note(snapshot@),
    {
        self.report(
            PresenterUpdate::RoomExpiry { expires_in_seconds: snapshot.expires_in_seconds },
        );
        let ghost start = self@;
        let ghost all = snapshot@.pending_viewers;
        assert(all.take(0) =~= Seq::empty());
        for i in 0..snapshot.pending_viewers.len()
            invariant
                all == snapshot@.pending_viewers,
                self@ == start.note_each(all.take(i as int)),
        {
            proof {
                let next = all.take(i + 1);
                assert(next.drop_last() =~= all.take(i as int));
                assert(next.last() == all[i as int]);
            }
            self.note_pending(&snapshot.pending_viewers[i]);
        }
        assert(all.take(all.len() as int) =~= all);
    }

    fn drop_viewer(&mut self, peer_id: &str)
        ensures
            final(self)@ == old(self)@.drop_viewer(peer_id@),
    {
        self.approvals_sent.remove(peer_id);
        self.announced_requests.remove(peer_id);
        self.recovering.remove(peer_id);
        if !self.active_viewers.remove(peer_id) {
            return;
        }
        if self.has_broadcast {
            self.emit(PresenterAction::RemoveViewer { peer_id: peer_id.to_owned() });
        }
        self.report(PresenterUpdate::ViewerLeft { peer_id: peer_id.to_owned() });
    }

    fn settle(&mut self, approved: &Vec<String>)
        ensures
            final(self)@ == old(self)@.drop_each(old(self)@.departed(approved.deep_view())),
    {
        let approved_set = TextSet::of(approved);
        let ghost leaving = |p: Seq<char>| !approved.deep_view().contains(p);
        let ghost all = self@.active_viewers;
        proof {
            crate::textset::lemma_distinct_members(approved.deep_view());
            assert(all.take(0).filter(leaving) =~= Seq::empty()) by {
                reveal(Seq::filter);
            }
        }
        let mut departed: Vec<String> = Vec::new();
        let count: usize = self.active_viewers.len();
        assert(departed.deep_view() =~= Seq::empty());
        for i in 0..count
            invariant
                count == self.active_viewers@.len(),
                all == self.active_viewers@,
                *self == *old(self),
                leaving == |p: Seq<char>| !approved.deep_view().contains(p),
                forall|p: Seq<char>| #[trigger]
                    approved_set@.contains(p) <==> approved.deep_view().contains(p),
                departed.deep_view() == all.take(i as int).filter(leaving),
        {
            proof {
                assert(all.take(i + 1) =~= all.take(i as int).push(all[i as int]));
                crate::seqs::lemma_filter_push(all.take(i as int), all[i as int], leaving);
            }
            let peer_id = self.active_viewers.get(i);
            if !approved_set.contains(peer_id.as_str()) {
                let ghost before = departed.deep_view();
                departed.push(peer_id.clone());
                assert(departed.deep_view() =~= before.push(all[i as int]));
            }
        }
        assert(all.take(all.len() as int) =~= all);
        let ghost gone = departed.deep_view();
        assert(gone == self@.departed(approved.deep_view()));
        assert(gone.take(0) =~= Seq::empty());
        for i in 0..departed.len()
            invariant
                gone == departed.deep_view(),
                self@ == old(self)@.drop_each(gone.take(i as int)),
        {
            proof {
                let next = gone.take(i + 1);
                assert(next.drop_last() =~= gone.take(i as int));
                assert(next.last() == gone[i as int]);
            }
            self.drop_viewer(departed[i].as_str());
        }
        assert(gone.take(gone.len() as int) =~= gone);
    }

    fn welcome(&mut self, viewer: PeerSnapshot)
        ensures
            final(self)@ == old(self)@.welcome(viewer@),
    {
        self.emit(
            PresenterAction::NameViewer {
                peer_id: viewer.peer_id.clone(),
                display_name: viewer.display_name.clone(),
            },
        );
        if !self.active_viewers.insert(viewer.peer_id.clone()) {
            return;
        }
        self.asking = Some(
            PresenterCall::Add { peer_id: viewer.peer_id, display_name: viewer.display_name },
        );
    }

    fn advance(&mut self)
        ensures
            final(self)@ == old(self)@.advance(),
    {
        while self.asking.is_none() && self.agenda.len() > 0
            invariant
                self@.advance() == old(self)@.advance(),
            decreases self.agenda@.len(),
        {
            let ghost before = self@;
            let task = self.agenda.remove(0);
            assert(self@.agenda =~= before.agenda.skip(1));
            assert(task@ == before.agenda[0]);
            let ghost taken = self@;
            assert(taken == PresenterModel { agenda: before.agenda.skip(1), ..before });
            match task {
                PresenterTask::Converge => self.converge(),
                PresenterTask::Note { snapshot } => self.note(&snapshot),
                PresenterTask::Admit { viewer } => self.welcome(viewer),
                PresenterTask::Settle { approved } => self.settle(&approved),
            }
            proof {
                laws::lemma_task_keeps_agenda(taken, task@);
                assert(self@ == taken.task(task@));
                assert(self@ =~= taken.step(task@));
            }
        }
    }

    fn apply_snapshot(&mut self, snapshot: RoomSnapshot)
        requires
            old(self)@.agenda.len() == 0,
        ensures
            final(self)@ == old(self)@.apply_snapshot(snapshot@),
    {
        if self.has_broadcast {
            push_tasks(&mut self.agenda, snapshot);
            assert(self@.agenda =~= model::tasks_of(snapshot@));
            assert(self@ =~= PresenterModel { agenda: model::tasks_of(snapshot@), ..old(self)@ });
            self.advance();
        } else {
            self.note(&snapshot);
            self.pending_snapshot = Some(snapshot);
        }
    }

    fn share(&mut self, source: u64)
        ensures
            final(self)@ == old(self)@.share(source),
    {
        if self.has_broadcast {
            self.asking = Some(PresenterCall::Replace { source });
        } else {
            self.source = Some(source);
            self.set_sharing(SharingState::Live);
        }
    }

    /// The host asks for something.
    pub fn handle_command(&mut self, command: PresenterCommand) -> (r: PresenterOutcome)
        requires
            old(self)@.valid(),
            old(self)@.asking is None,
        ensures
            (final(self)@, r@) == old(self)@.handle_command(command@),
            final(self)@.valid(),
    {
        proof {
            laws::keep_command(self@, command@);
        }
        match command {
            PresenterCommand::Chat { text } => {
                let message = ChatMessage { sender: self.display_name.clone(), text };
                if self.has_broadcast {
                    self.emit(PresenterAction::SendChat { message });
                } else {
                    self.pending_chat.push(message);
                    assert(self@.pending_chat =~= old(self)@.pending_chat.push(message@));
                }
            },
            PresenterCommand::StartShare { source } => self.share(source),
            PresenterCommand::SwitchSource { source } => self.share(source),
            PresenterCommand::PauseShare => {
                if self.sharing == SharingState::Live && self.has_broadcast {
                    self.emit(PresenterAction::Pause);
                    self.set_sharing(SharingState::Paused);
                }
            },
            PresenterCommand::ResumeShare => {
                if self.sharing == SharingState::Paused && self.has_broadcast {
                    self.emit(PresenterAction::Resume);
                    self.set_sharing(SharingState::Live);
                }
            },
            PresenterCommand::StopShare => {
                if self.has_broadcast {
                    self.asking = Some(PresenterCall::Idle);
                } else {
                    self.source = None;
                    self.set_sharing(SharingState::Idle);
                }
            },
            PresenterCommand::CloseRoom => {
                self.send(ClientMessage::RoomClose);
                if !self.closing {
                    self.closing = true;
                    self.emit(PresenterAction::AwaitClose);
                }
            },
            PresenterCommand::Leave => {
                return self.finish(PresenterEnd::Left);
            },
            PresenterCommand::ApproveViewer { peer_id } => {
                self.approvals_sent.insert(peer_id.clone());
                self.send(ClientMessage::ViewerApprove { peer_id });
            },
            PresenterCommand::RejectViewer { peer_id } => {
                self.approvals_sent.remove(peer_id.as_str());
                self.announced_requests.remove(peer_id.as_str());
                self.send(ClientMessage::ViewerReject { peer_id });
            },
            PresenterCommand::KickViewer { peer_id } => {
                self.send(ClientMessage::ViewerKick { peer_id });
            },
            PresenterCommand::RestartIce { peer_id } => self.begin_recovery(peer_id),
            PresenterCommand::SetDisplayName { name } => {
                self.display_name = name;
            },
        }
        PresenterOutcome::Continue
    }

    /// The host is gone. The room stays open.
    pub fn commands_closed(&mut self) -> (r: PresenterOutcome)
        requires
            old(self)@.valid(),
            old(self)@.asking is None,
        ensures
            (final(self)@, r@) == old(self)@.finish(PresenterEnd::Left),
            final(self)@.valid(),
    {
        self.finish(PresenterEnd::Left)
    }

    /// The close was not confirmed in time.
    pub fn close_timed_out(&mut self) -> (r: PresenterOutcome)
        requires
            old(self)@.valid(),
            old(self)@.asking is None,
        ensures
            (final(self)@, r@) == old(self)@.finish(PresenterEnd::RoomClosed),
            final(self)@.valid(),
    {
        self.finish(PresenterEnd::RoomClosed)
    }

    /// The ICE configuration is about to expire.
    pub fn refresh_due(&mut self)
        requires
            old(self)@.valid(),
        ensures
            final(self)@ == old(self)@.refresh_due(),
            final(self)@.valid(),
    {
        self.send(ClientMessage::IceRefresh);
        self.emit(PresenterAction::RetryRefresh);
    }

    /// The signaling connection changed its state.
    pub fn signaling_state(&mut self, state: SignalingState)
        requires
            old(self)@.valid(),
        ensures
            final(self)@ == old(self)@.signaling_state(state),
            final(self)@.valid(),
    {
        self.report(PresenterUpdate::Signaling { state });
    }

    /// Starts over the recovery of every viewer.
    fn recover_all(&mut self)
        ensures
            final(self)@ == (PresenterModel { recovering: Seq::empty(), ..old(self)@ }).begin_each(
                old(self)@.active_viewers,
            ),
    {
        let peers = self.active_viewers.to_vec();
        self.recovering.clear();
        let ghost start = self@;
        let ghost all = peers.deep_view();
        assert(all.take(0) =~= Seq::empty());
        for i in 0..peers.len()
            invariant
                all == peers.deep_view(),
                self@ == start.begin_each(all.take(i as int)),
        {
            proof {
                let next = all.take(i + 1);
                assert(next.drop_last() =~= all.take(i as int));
                assert(next.last() == all[i as int]);
            }
            self.begin_recovery(peers[i].clone());
        }
        assert(all.take(all.len() as int) =~= all);
    }

    /// The server says something.
    pub fn handle_message(&mut self, message: ServerMessage) -> (r: PresenterOutcome)
        requires
            old(self)@.valid(),
            old(self)@.asking is None,
        ensures
            (final(self)@, r@) == old(self)@.handle_message(message@),
            final(self)@.valid(),
    {
        proof {
            laws::keep_message(self@, message@);
        }
        match message {
            ServerMessage::AuthSucceeded { peer_id, snapshot, ice_configuration, .. } => {
                let fresh_identity = match &self.self_peer_id {
                    Some(known) => !text::same(known.as_str(), peer_id.as_str()),
                    None => false,
                };
                self.self_peer_id = Some(peer_id);
                self.emit(
                    PresenterAction::ScheduleRefresh {
                        expires_at: ice_configuration.expires_at.clone(),
                    },
                );
                let mut agenda: Vec<PresenterTask> = Vec::new();
                agenda.push(PresenterTask::Converge);
                assert(agenda.deep_view() =~= seq![super::types::PresenterTaskView::Converge]);
                push_tasks(&mut agenda, snapshot);
                if let Some(buffered) = self.pending_snapshot.take() {
                    push_tasks(&mut agenda, buffered);
                }
                assert(agenda.deep_view() == old(self)@.authenticated_agenda(snapshot@));
                if self.has_broadcast {
                    self.emit(PresenterAction::SetIce { configuration: ice_configuration });
                    if fresh_identity {
                        self.recover_all();
                    }
                    self.agenda = agenda;
                    self.advance();
                } else {
                    let source = self.source.take();
                    self.asking = Some(
                        PresenterCall::Start { source, configuration: ice_configuration },
                    );
                    self.agenda = agenda;
                }
            },
            ServerMessage::RoomSnapshot { snapshot, .. } => self.apply_snapshot(snapshot),
            ServerMessage::ViewerPending { viewer, .. } => self.note_pending(&viewer),
            ServerMessage::ViewerDisplayNameUpdated { peer_id, display_name, .. } => {
                if self.has_broadcast {
                    self.emit(PresenterAction::NameViewer { peer_id, display_name });
                }
            },
            ServerMessage::ViewerLeft { peer_id, .. } => self.drop_viewer(peer_id.as_str()),
            ServerMessage::ViewerKicked { peer_id, .. } => self.drop_viewer(peer_id.as_str()),
            ServerMessage::SignalAnswer { source_peer_id, sdp, .. } => {
                if self.has_broadcast {
                    self.emit(PresenterAction::AcceptAnswer { peer_id: source_peer_id, sdp });
                }
            },
            ServerMessage::SignalIceCandidate {
                source_peer_id,
                candidate,
                sdp_m_line_index,
                ..
            } => {
                if self.has_broadcast {
                    let index: u32 = match sdp_m_line_index {
                        Some(index) => index as u32,
                        None => 0,
                    };
                    self.emit(
                        PresenterAction::AddCandidate {
                            peer_id: source_peer_id,
                            sdp_m_line_index: index,
                            candidate,
                        },
                    );
                }
            },
            ServerMessage::SignalIceRestart { source_peer_id, .. } => {
                self.begin_recovery(source_peer_id);
            },
            ServerMessage::IceConfiguration { configuration, .. } => {
                self.emit(
                    PresenterAction::ScheduleRefresh {
                        expires_at: configuration.expires_at.clone(),
                    },
                );
                if self.has_broadcast {
                    self.emit(PresenterAction::SetIce { configuration });
                }
            },
            ServerMessage::RoomClosed { .. } => {
                return self.finish(PresenterEnd::RoomClosed);
            },
            ServerMessage::RoomExpired { .. } => {
                return self.finish(PresenterEnd::RoomExpired);
            },
            ServerMessage::AuthFailed { message, .. } => {
                self.finish_broadcast();
                return PresenterOutcome::Failed {
                    error: PresenterError::AuthenticationFailed { message },
                };
            },
            ServerMessage::Error { code, .. } => {
                if code == ErrorCode::RoomClosed {
                    return self.finish(PresenterEnd::RoomClosed);
                }
                if code == ErrorCode::RoomExpired {
                    return self.finish(PresenterEnd::RoomExpired);
                }
            },
            _ => {},
        }
        PresenterOutcome::Continue
    }

    /// The broadcast reports something.
    pub fn handle_broadcast(&mut self, event: BroadcastEvent) -> (r: PresenterOutcome)
        requires
            old(self)@.valid(),
            old(self)@.asking is None,
        ensures
            (final(self)@, r@) == old(self)@.handle_broadcast(event@),
            final(self)@.valid(),
    {
        proof {
            laws::keep_broadcast(self@, event@);
        }
        match event {
            BroadcastEvent::Chat { peer_id, message } => {
                if let Some(chat) = message {
                    self.report(
                        PresenterUpdate::Chat { peer_id, sender: chat.sender, text: chat.text },
                    );
                }
            },
            BroadcastEvent::Offer { peer_id, sdp, ice_restart } => {
                self.send(
                    ClientMessage::SignalOffer { destination_peer_id: peer_id, sdp, ice_restart },
                );
            },
            BroadcastEvent::IceCandidate { peer_id, candidate, sdp_m_line_index } => {
                self.send(
                    ClientMessage::SignalIceCandidate {
                        destination_peer_id: peer_id,
                        candidate,
                        sdp_mid: None,
                        sdp_m_line_index: Some(line_index(sdp_m_line_index)),
                    },
                );
            },
            BroadcastEvent::ViewerConnection { peer_id, state } => {
                match state {
                    ConnectionState::Failed => self.begin_recovery(peer_id.clone()),
                    ConnectionState::Connected => {
                        self.recovering.remove(peer_id.as_str());
                    },
                    _ => {},
                }
                self.report(PresenterUpdate::ViewerConnection { peer_id, state });
            },
            BroadcastEvent::Ended { reason } => {
                self.finish_broadcast();
                self.emit(PresenterAction::Disconnect { send_leave: false });
                return PresenterOutcome::Failed { error: PresenterError::Broadcast { reason } };
            },
        }
        PresenterOutcome::Continue
    }

    fn flush_chat(&mut self)
        ensures
            final(self)@ == old(self)@.flush_chat(),
    {
        let mut chats: Vec<ChatMessage> = Vec::new();
        std::mem::swap(&mut chats, &mut self.pending_chat);
        let ghost all = chats.deep_view();
        let ghost sent = all.map_values(
            |message: crate::protocol::ChatMessageView|
                super::types::PresenterActionView::SendChat { message },
        );
        let ghost start = PresenterModel { pending_chat: Seq::empty(), ..self@ };
        assert(self@ =~= PresenterModel {
            outgoing: start.outgoing + sent.take(0),
            ..start
        });
        for i in 0..chats.len()
            invariant
                all == chats.deep_view(),
                sent == all.map_values(
                    |message: crate::protocol::ChatMessageView|
                        super::types::PresenterActionView::SendChat { message },
                ),
                self@ == (PresenterModel {
                    outgoing: start.outgoing + sent.take(i as int),
                    ..start
                }),
        {
            self.emit(PresenterAction::SendChat { message: chats[i].clone() });
            assert(self@.outgoing =~= start.outgoing + sent.take(i + 1));
        }
        assert(sent.take(all.len() as int) =~= sent);
        assert(self@ =~= old(self)@.flush_chat());
    }

    /// What was asked for is done, or failed with this message.
    pub fn answer(&mut self, error: Option<String>) -> (r: PresenterOutcome)
        requires
            old(self)@.valid(),
            old(self)@.asking is Some,
        ensures
            (final(self)@, r@) == old(self)@.answered(error.deep_view()),
            final(self)@.valid(),
    {
        proof {
            laws::keep_answered(self@, error.deep_view());
        }
        let asked = self.asking.take();
        match asked {
            None => {},
            Some(PresenterCall::Start { .. }) => match error {
                None => {
                    self.flush_chat();
                    self.has_broadcast = true;
                    self.advance();
                },
                Some(message) => {
                    self.agenda = Vec::new();
                    assert(self@.agenda =~= Seq::empty());
                    return PresenterOutcome::Failed {
                        error: PresenterError::BroadcastStart { message },
                    };
                },
            },
            Some(PresenterCall::Replace { .. }) => {
                match error {
                    None => {
                        self.emit(PresenterAction::Resume);
                        self.set_sharing(SharingState::Live);
                    },
                    Some(message) => self.report(PresenterUpdate::ShareFailed { message }),
                }
                self.advance();
            },
            Some(PresenterCall::Idle) => {
                match error {
                    None => {
                        self.emit(PresenterAction::Resume);
                        self.set_sharing(SharingState::Idle);
                    },
                    Some(message) => self.report(PresenterUpdate::ShareFailed { message }),
                }
                self.advance();
            },
            Some(PresenterCall::Add { peer_id, display_name }) => {
                match error {
                    None => self.report(PresenterUpdate::ViewerJoined { peer_id, display_name }),
                    Some(_) => {
                        self.active_viewers.remove(peer_id.as_str());
                    },
                }
                self.advance();
            },
            Some(PresenterCall::Rebuild { peer_id }) => {
                match error {
                    None => {},
                    Some(_) => {
                        self.active_viewers.remove(peer_id.as_str());
                        self.report(PresenterUpdate::ViewerLeft { peer_id });
                    },
                }
                self.advance();
            },
        }
        PresenterOutcome::Continue
    }
}

} // verus!
