//! What a presenter session does, as functions from one state to the next.
use vstd::prelude::*;

use super::types::{
    BroadcastEventView, ConnectionState, PresenterActionView, PresenterCallView,
    PresenterCommandView, PresenterEnd, PresenterErrorView, PresenterOutcomeView,
    PresenterTaskView, PresenterUpdateView,
};
use crate::client::signaling::SignalingState;
use crate::protocol::{
    ChatMessageView, ClientMessageView, ErrorCode, PeerSnapshotView, RoomSnapshotView,
    ServerMessageView, SharingState,
};
use crate::textset;

verus! {

/// What a presenter session holds.
#[verifier::ext_equal]
pub struct PresenterModel {
    /// The name that outgoing chat carries.
    pub display_name: Seq<char>,
    /// Whether join requests are approved the moment they arrive.
    pub auto_approve: bool,
    pub sharing: SharingState,
    /// The capture to start the broadcast with.
    pub source: Option<u64>,
    /// Whether the broadcast runs.
    pub has_broadcast: bool,
    pub self_peer_id: Option<Seq<char>>,
    /// A snapshot that came before the broadcast.
    pub pending_snapshot: Option<RoomSnapshotView>,
    /// Chat from before the broadcast.
    pub pending_chat: Seq<ChatMessageView>,
    /// The viewers with a connection.
    pub active_viewers: Seq<Seq<char>>,
    pub approvals_sent: Seq<Seq<char>>,
    /// The waiting viewers that the host was told of.
    pub announced_requests: Seq<Seq<char>>,
    /// The viewers with an ICE restart in flight.
    pub recovering: Seq<Seq<char>>,
    /// Whether the room is being closed.
    pub closing: bool,
    /// What the session waits for.
    pub asking: Option<PresenterCallView>,
    /// What comes after the answer.
    pub agenda: Seq<PresenterTaskView>,
    /// What was done and not taken yet.
    pub outgoing: Seq<PresenterActionView>,
}

/// The identifiers of peers.
pub open spec fn peer_ids(peers: Seq<PeerSnapshotView>) -> Seq<Seq<char>> {
    peers.map_values(|p: PeerSnapshotView| p.peer_id)
}

/// What it takes to follow a snapshot while the broadcast runs.
pub open spec fn tasks_of(snapshot: RoomSnapshotView) -> Seq<PresenterTaskView> {
    seq![PresenterTaskView::Note { snapshot }] + snapshot.approved_viewers.map_values(
        |viewer: PeerSnapshotView| PresenterTaskView::Admit { viewer },
    ) + seq![PresenterTaskView::Settle { approved: peer_ids(snapshot.approved_viewers) }]
}

/// `n`, or the largest index that a candidate can carry.
pub open spec fn line_index(n: u32) -> u16 {
    if n <= u16::MAX {
        n as u16
    } else {
        u16::MAX
    }
}

impl PresenterModel {
    /// What holds of every session between two calls.
    pub open spec fn valid(self) -> bool {
        &&& self.active_viewers.no_duplicates()
        &&& self.approvals_sent.no_duplicates()
        &&& self.announced_requests.no_duplicates()
        &&& self.recovering.no_duplicates()
        &&& forall|p: Seq<char>| #[trigger]
            self.recovering.contains(p) ==> self.active_viewers.contains(p)
        &&& !self.has_broadcast ==> self.active_viewers.len() == 0
        &&& self.has_broadcast ==> self.pending_chat.len() == 0 && self.pending_snapshot is None
            && self.source is None
        &&& self.asking is None ==> self.agenda.len() == 0
        &&& self.asking matches Some(call) ==> self.has_broadcast == !(call is Start)
        &&& self.asking matches Some(PresenterCallView::Start { .. }) ==> self.pending_snapshot
            is None && self.source is None
        &&& self.asking matches Some(PresenterCallView::Add { peer_id, .. })
            ==> self.active_viewers.contains(peer_id) && !self.recovering.contains(peer_id)
        &&& self.asking matches Some(PresenterCallView::Rebuild { peer_id })
            ==> self.active_viewers.contains(peer_id) && !self.recovering.contains(peer_id)
    }

    pub open spec fn emit(self, action: PresenterActionView) -> PresenterModel {
        PresenterModel { outgoing: self.outgoing.push(action), ..self }
    }

    pub open spec fn send(self, message: ClientMessageView) -> PresenterModel {
        self.emit(PresenterActionView::Send { message })
    }

    pub open spec fn report(self, update: PresenterUpdateView) -> PresenterModel {
        self.emit(PresenterActionView::Report { update })
    }

    pub open spec fn announce_sharing(self) -> PresenterModel {
        self.send(ClientMessageView::RoomUpdateSharingState { sharing_state: self.sharing })
    }

    pub open spec fn converge(self) -> PresenterModel {
        self.announce_sharing().report(PresenterUpdateView::SharingState { state: self.sharing })
    }

    pub open spec fn set_sharing(self, state: SharingState) -> PresenterModel {
        PresenterModel { sharing: state, ..self }.converge()
    }

    pub open spec fn finish_broadcast(self) -> PresenterModel {
        let closed = if self.has_broadcast {
            self.emit(PresenterActionView::CloseBroadcast)
        } else {
            self
        };
        PresenterModel {
            has_broadcast: false,
            active_viewers: Seq::empty(),
            recovering: Seq::empty(),
            ..closed
        }
    }

    pub open spec fn finish(self, end: PresenterEnd) -> (PresenterModel, PresenterOutcomeView) {
        (
            self.finish_broadcast().emit(PresenterActionView::Disconnect { send_leave: false }),
            PresenterOutcomeView::Ended { end },
        )
    }

    /// An ICE restart now and a deadline for it, unless one is in flight or the
    /// viewer has no connection.
    pub open spec fn begin_recovery(self, peer_id: Seq<char>) -> PresenterModel {
        if !self.active_viewers.contains(peer_id) || self.recovering.contains(peer_id) {
            self
        } else {
            let begun = PresenterModel { recovering: self.recovering.push(peer_id), ..self };
            let restarted = if self.has_broadcast {
                begun.emit(PresenterActionView::RestartIce { peer_id })
            } else {
                begun
            };
            restarted.emit(PresenterActionView::AwaitRecovery { peer_id })
        }
    }

    /// Recovery begins for each of these.
    pub open spec fn begin_each(self, peers: Seq<Seq<char>>) -> PresenterModel
        decreases peers.len(),
    {
        if peers.len() == 0 {
            self
        } else {
            self.begin_each(peers.drop_last()).begin_recovery(peers.last())
        }
    }

    /// The recovery time of a viewer is over. One that did not come back gets a
    /// new connection.
    pub open spec fn rebuild_if_unrecovered(self, peer_id: Seq<char>) -> PresenterModel {
        let waited = PresenterModel {
            recovering: textset::without(self.recovering, peer_id),
            ..self
        };
        if self.recovering.contains(peer_id) && self.active_viewers.contains(peer_id)
            && self.has_broadcast {
            PresenterModel {
                asking: Some(PresenterCallView::Rebuild { peer_id }),
                ..waited.emit(PresenterActionView::RemoveViewer { peer_id })
            }
        } else {
            waited
        }
    }

    /// A join request is reported once, and answered at once where approval is
    /// automatic.
    pub open spec fn note_pending(self, viewer: PeerSnapshotView) -> PresenterModel {
        let answered = if self.auto_approve && !self.approvals_sent.contains(viewer.peer_id) {
            PresenterModel {
                approvals_sent: self.approvals_sent.push(viewer.peer_id),
                ..self
            }.send(ClientMessageView::ViewerApprove { peer_id: viewer.peer_id })
        } else {
            self
        };
        if self.announced_requests.contains(viewer.peer_id) {
            answered
        } else {
            PresenterModel {
                announced_requests: self.announced_requests.push(viewer.peer_id),
                ..answered
            }.report(
                PresenterUpdateView::JoinRequested {
                    peer_id: viewer.peer_id,
                    display_name: viewer.display_name,
                    friend_code: viewer.friend_code,
                },
            )
        }
    }

    /// Each of these asks to join.
    pub open spec fn note_each(self, viewers: Seq<PeerSnapshotView>) -> PresenterModel
        decreases viewers.len(),
    {
        if viewers.len() == 0 {
            self
        } else {
            self.note_each(viewers.drop_last()).note_pending(viewers.last())
        }
    }

    pub open spec fn note(self, snapshot: RoomSnapshotView) -> PresenterModel {
        self.report(
            PresenterUpdateView::RoomExpiry { expires_in_seconds: snapshot.expires_in_seconds },
        ).note_each(snapshot.pending_viewers)
    }

    pub open spec fn drop_viewer(self, peer_id: Seq<char>) -> PresenterModel {
        let forgotten = PresenterModel {
            approvals_sent: textset::without(self.approvals_sent, peer_id),
            announced_requests: textset::without(self.announced_requests, peer_id),
            recovering: textset::without(self.recovering, peer_id),
            active_viewers: textset::without(self.active_viewers, peer_id),
            ..self
        };
        if !self.active_viewers.contains(peer_id) {
            forgotten
        } else {
            let removed = if self.has_broadcast {
                forgotten.emit(PresenterActionView::RemoveViewer { peer_id })
            } else {
                forgotten
            };
            removed.report(PresenterUpdateView::ViewerLeft { peer_id })
        }
    }

    /// Each of these is dropped.
    pub open spec fn drop_each(self, peers: Seq<Seq<char>>) -> PresenterModel
        decreases peers.len(),
    {
        if peers.len() == 0 {
            self
        } else {
            self.drop_each(peers.drop_last()).drop_viewer(peers.last())
        }
    }

    /// The connections without an approved viewer.
    pub open spec fn departed(self, approved: Seq<Seq<char>>) -> Seq<Seq<char>> {
        self.active_viewers.filter(|p: Seq<char>| !approved.contains(p))
    }

    pub open spec fn welcome(self, viewer: PeerSnapshotView) -> PresenterModel {
        let named = self.emit(
            PresenterActionView::NameViewer {
                peer_id: viewer.peer_id,
                display_name: viewer.display_name,
            },
        );
        if self.active_viewers.contains(viewer.peer_id) {
            named
        } else {
            PresenterModel {
                active_viewers: self.active_viewers.push(viewer.peer_id),
                asking: Some(
                    PresenterCallView::Add {
                        peer_id: viewer.peer_id,
                        display_name: viewer.display_name,
                    },
                ),
                ..named
            }
        }
    }

    pub open spec fn task(self, task: PresenterTaskView) -> PresenterModel {
        match task {
            PresenterTaskView::Converge => self.converge(),
            PresenterTaskView::Note { snapshot } => self.note(snapshot),
            PresenterTaskView::Admit { viewer } => self.welcome(viewer),
            PresenterTaskView::Settle { approved } => self.drop_each(self.departed(approved)),
        }
    }

    /// Works through the agenda, up to the next question.
    pub open spec fn advance(self) -> PresenterModel
        decreases self.agenda.len(),
    {
        if self.asking is Some || self.agenda.len() == 0 {
            self
        } else {
            PresenterModel { agenda: self.agenda.skip(1), ..self }.step(self.agenda[0]).advance()
        }
    }

    /// One task, with the agenda left as it is.
    pub open spec fn step(self, task: PresenterTaskView) -> PresenterModel {
        PresenterModel { agenda: self.agenda, ..self.task(task) }
    }

    /// The snapshot decides who has a connection. Before the broadcast it is
    /// kept.
    pub open spec fn apply_snapshot(self, snapshot: RoomSnapshotView) -> PresenterModel {
        if self.has_broadcast {
            PresenterModel { agenda: tasks_of(snapshot), ..self }.advance()
        } else {
            PresenterModel { pending_snapshot: Some(snapshot), ..self.note(snapshot) }
        }
    }

    pub open spec fn share(self, source: u64) -> PresenterModel {
        if self.has_broadcast {
            PresenterModel { asking: Some(PresenterCallView::Replace { source }), ..self }
        } else {
            PresenterModel { source: Some(source), ..self }.set_sharing(SharingState::Live)
        }
    }

    pub open spec fn handle_command(self, command: PresenterCommandView) -> (
        PresenterModel,
        PresenterOutcomeView,
    ) {
        let next = match command {
            PresenterCommandView::Chat { text } => {
                let message = ChatMessageView { sender: self.display_name, text };
                if self.has_broadcast {
                    self.emit(PresenterActionView::SendChat { message })
                } else {
                    PresenterModel { pending_chat: self.pending_chat.push(message), ..self }
                }
            },
            PresenterCommandView::StartShare { source } => self.share(source),
            PresenterCommandView::SwitchSource { source } => self.share(source),
            PresenterCommandView::PauseShare => if self.sharing == SharingState::Live
                && self.has_broadcast {
                self.emit(PresenterActionView::Pause).set_sharing(SharingState::Paused)
            } else {
                self
            },
            PresenterCommandView::ResumeShare => if self.sharing == SharingState::Paused
                && self.has_broadcast {
                self.emit(PresenterActionView::Resume).set_sharing(SharingState::Live)
            } else {
                self
            },
            PresenterCommandView::StopShare => if self.has_broadcast {
                PresenterModel { asking: Some(PresenterCallView::Idle), ..self }
            } else {
                PresenterModel { source: None, ..self }.set_sharing(SharingState::Idle)
            },
            PresenterCommandView::CloseRoom => {
                let sent = self.send(ClientMessageView::RoomClose);
                if self.closing {
                    sent
                } else {
                    PresenterModel { closing: true, ..sent }.emit(PresenterActionView::AwaitClose)
                }
            },
            PresenterCommandView::Leave => self.finish(PresenterEnd::Left).0,
            PresenterCommandView::ApproveViewer { peer_id } => PresenterModel {
                approvals_sent: textset::with(self.approvals_sent, peer_id),
                ..self
            }.send(ClientMessageView::ViewerApprove { peer_id }),
            PresenterCommandView::RejectViewer { peer_id } => PresenterModel {
                approvals_sent: textset::without(self.approvals_sent, peer_id),
                announced_requests: textset::without(self.announced_requests, peer_id),
                ..self
            }.send(ClientMessageView::ViewerReject { peer_id }),
            PresenterCommandView::KickViewer { peer_id } => self.send(
                ClientMessageView::ViewerKick { peer_id },
            ),
            PresenterCommandView::RestartIce { peer_id } => self.begin_recovery(peer_id),
            PresenterCommandView::SetDisplayName { name } => PresenterModel {
                display_name: name,
                ..self
            },
        };
        (
            next,
            if command is Leave {
                PresenterOutcomeView::Ended { end: PresenterEnd::Left }
            } else {
                PresenterOutcomeView::Continue
            },
        )
    }

    /// What remains once an authentication is answered with this snapshot. One
    /// that came earlier is newer than this one, so it is applied last.
    pub open spec fn authenticated_agenda(self, snapshot: RoomSnapshotView) -> Seq<
        PresenterTaskView,
    > {
        let first = seq![PresenterTaskView::Converge] + tasks_of(snapshot);
        match self.pending_snapshot {
            Some(buffered) => first + tasks_of(buffered),
            None => first,
        }
    }

    pub open spec fn handle_message(self, message: ServerMessageView) -> (
        PresenterModel,
        PresenterOutcomeView,
    ) {
        match message {
            ServerMessageView::AuthSucceeded { peer_id, snapshot, ice_configuration, .. } => {
                let fresh_identity = self.self_peer_id is Some && self.self_peer_id != Some(
                    peer_id,
                );
                let known = PresenterModel {
                    self_peer_id: Some(peer_id),
                    pending_snapshot: None,
                    ..self
                }.emit(
                    PresenterActionView::ScheduleRefresh {
                        expires_at: ice_configuration.expires_at,
                    },
                );
                let agenda = self.authenticated_agenda(snapshot);
                (
                    if self.has_broadcast {
                        let refreshed = known.emit(
                            PresenterActionView::SetIce { configuration: ice_configuration },
                        );
                        let recovered = if fresh_identity {
                            PresenterModel { recovering: Seq::empty(), ..refreshed }.begin_each(
                                self.active_viewers,
                            )
                        } else {
                            refreshed
                        };
                        PresenterModel { agenda, ..recovered }.advance()
                    } else {
                        PresenterModel {
                            source: None,
                            asking: Some(
                                PresenterCallView::Start {
                                    source: self.source,
                                    configuration: ice_configuration,
                                },
                            ),
                            agenda,
                            ..known
                        }
                    },
                    PresenterOutcomeView::Continue,
                )
            },
            ServerMessageView::RoomSnapshot { snapshot, .. } => (
                self.apply_snapshot(snapshot),
                PresenterOutcomeView::Continue,
            ),
            ServerMessageView::ViewerPending { viewer, .. } => (
                self.note_pending(viewer),
                PresenterOutcomeView::Continue,
            ),
            ServerMessageView::ViewerDisplayNameUpdated { peer_id, display_name, .. } => (
                if self.has_broadcast {
                    self.emit(PresenterActionView::NameViewer { peer_id, display_name })
                } else {
                    self
                },
                PresenterOutcomeView::Continue,
            ),
            ServerMessageView::ViewerLeft { peer_id, .. } => (
                self.drop_viewer(peer_id),
                PresenterOutcomeView::Continue,
            ),
            ServerMessageView::ViewerKicked { peer_id, .. } => (
                self.drop_viewer(peer_id),
                PresenterOutcomeView::Continue,
            ),
            ServerMessageView::SignalAnswer { source_peer_id, sdp, .. } => (
                if self.has_broadcast {
                    self.emit(PresenterActionView::AcceptAnswer { peer_id: source_peer_id, sdp })
                } else {
                    self
                },
                PresenterOutcomeView::Continue,
            ),
            ServerMessageView::SignalIceCandidate {
                source_peer_id,
                candidate,
                sdp_m_line_index,
                ..
            } => (
                if self.has_broadcast {
                    self.emit(
                        PresenterActionView::AddCandidate {
                            peer_id: source_peer_id,
                            sdp_m_line_index: match sdp_m_line_index {
                                Some(index) => index as u32,
                                None => 0,
                            },
                            candidate,
                        },
                    )
                } else {
                    self
                },
                PresenterOutcomeView::Continue,
            ),
            ServerMessageView::SignalIceRestart { source_peer_id, .. } => (
                self.begin_recovery(source_peer_id),
                PresenterOutcomeView::Continue,
            ),
            ServerMessageView::IceConfiguration { configuration, .. } => {
                let scheduled = self.emit(
                    PresenterActionView::ScheduleRefresh { expires_at: configuration.expires_at },
                );
                (
                    if self.has_broadcast {
                        scheduled.emit(PresenterActionView::SetIce { configuration })
                    } else {
                        scheduled
                    },
                    PresenterOutcomeView::Continue,
                )
            },
            ServerMessageView::RoomClosed { .. } => self.finish(PresenterEnd::RoomClosed),
            ServerMessageView::RoomExpired { .. } => self.finish(PresenterEnd::RoomExpired),
            ServerMessageView::AuthFailed { message, .. } => (
                self.finish_broadcast(),
                PresenterOutcomeView::Failed {
                    error: PresenterErrorView::AuthenticationFailed { message },
                },
            ),
            ServerMessageView::Error { code, .. } => if code == ErrorCode::RoomClosed {
                self.finish(PresenterEnd::RoomClosed)
            } else if code == ErrorCode::RoomExpired {
                self.finish(PresenterEnd::RoomExpired)
            } else {
                (self, PresenterOutcomeView::Continue)
            },
            _ => (self, PresenterOutcomeView::Continue),
        }
    }

    pub open spec fn handle_broadcast(self, event: BroadcastEventView) -> (
        PresenterModel,
        PresenterOutcomeView,
    ) {
        match event {
            BroadcastEventView::Chat { peer_id, message } => (
                match message {
                    Some(chat) => self.report(
                        PresenterUpdateView::Chat { peer_id, sender: chat.sender, text: chat.text },
                    ),
                    None => self,
                },
                PresenterOutcomeView::Continue,
            ),
            BroadcastEventView::Offer { peer_id, sdp, ice_restart } => (
                self.send(
                    ClientMessageView::SignalOffer {
                        destination_peer_id: peer_id,
                        sdp,
                        ice_restart,
                    },
                ),
                PresenterOutcomeView::Continue,
            ),
            BroadcastEventView::IceCandidate { peer_id, candidate, sdp_m_line_index } => (
                self.send(
                    ClientMessageView::SignalIceCandidate {
                        destination_peer_id: peer_id,
                        candidate,
                        sdp_mid: None,
                        sdp_m_line_index: Some(line_index(sdp_m_line_index)),
                    },
                ),
                PresenterOutcomeView::Continue,
            ),
            BroadcastEventView::ViewerConnection { peer_id, state } => {
                let seen = match state {
                    ConnectionState::Failed => self.begin_recovery(peer_id),
                    ConnectionState::Connected => PresenterModel {
                        recovering: textset::without(self.recovering, peer_id),
                        ..self
                    },
                    _ => self,
                };
                (
                    seen.report(PresenterUpdateView::ViewerConnection { peer_id, state }),
                    PresenterOutcomeView::Continue,
                )
            },
            BroadcastEventView::Ended { reason } => (
                self.finish_broadcast().emit(PresenterActionView::Disconnect { send_leave: false }),
                PresenterOutcomeView::Failed { error: PresenterErrorView::Broadcast { reason } },
            ),
        }
    }

    /// Chat from before the broadcast goes out.
    pub open spec fn flush_chat(self) -> PresenterModel {
        PresenterModel {
            pending_chat: Seq::empty(),
            outgoing: self.outgoing + self.pending_chat.map_values(
                |message: ChatMessageView| PresenterActionView::SendChat { message },
            ),
            ..self
        }
    }

    /// What was asked for is done, or failed with this message.
    pub open spec fn answered(self, error: Option<Seq<char>>) -> (
        PresenterModel,
        PresenterOutcomeView,
    ) {
        let heard = PresenterModel { asking: None, ..self };
        match self.asking {
            None => (self, PresenterOutcomeView::Continue),
            Some(PresenterCallView::Start { .. }) => match error {
                None => (
                    PresenterModel { has_broadcast: true, ..heard.flush_chat() }.advance(),
                    PresenterOutcomeView::Continue,
                ),
                Some(message) => (
                    PresenterModel { agenda: Seq::empty(), ..heard },
                    PresenterOutcomeView::Failed {
                        error: PresenterErrorView::BroadcastStart { message },
                    },
                ),
            },
            Some(PresenterCallView::Replace { .. }) => (
                match error {
                    None => heard.emit(PresenterActionView::Resume).set_sharing(SharingState::Live),
                    Some(message) => heard.report(PresenterUpdateView::ShareFailed { message }),
                }.advance(),
                PresenterOutcomeView::Continue,
            ),
            Some(PresenterCallView::Idle) => (
                match error {
                    None => heard.emit(PresenterActionView::Resume).set_sharing(SharingState::Idle),
                    Some(message) => heard.report(PresenterUpdateView::ShareFailed { message }),
                }.advance(),
                PresenterOutcomeView::Continue,
            ),
            Some(PresenterCallView::Add { peer_id, display_name }) => (
                match error {
                    None => heard.report(
                        PresenterUpdateView::ViewerJoined { peer_id, display_name },
                    ),
                    Some(_) => PresenterModel {
                        active_viewers: textset::without(self.active_viewers, peer_id),
                        ..heard
                    },
                }.advance(),
                PresenterOutcomeView::Continue,
            ),
            Some(PresenterCallView::Rebuild { peer_id }) => (
                match error {
                    None => heard,
                    Some(_) => PresenterModel {
                        active_viewers: textset::without(self.active_viewers, peer_id),
                        ..heard
                    }.report(PresenterUpdateView::ViewerLeft { peer_id }),
                }.advance(),
                PresenterOutcomeView::Continue,
            ),
        }
    }

    pub open spec fn refresh_due(self) -> PresenterModel {
        self.send(ClientMessageView::IceRefresh).emit(PresenterActionView::RetryRefresh)
    }

    pub open spec fn signaling_state(self, state: SignalingState) -> PresenterModel {
        self.report(PresenterUpdateView::Signaling { state })
    }
}

} // verus!
