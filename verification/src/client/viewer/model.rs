//! What a viewer session does, as functions from one state to the next.
use vstd::prelude::*;

use super::types::{
    EndReason, PlaybackEventView, ViewerActionView, ViewerCallView, ViewerCommandView,
    ViewerErrorView, ViewerOutcomeView, ViewerPhase, ViewerUpdateView,
};
use crate::client::presenter::model as presenter_model;
use crate::client::presenter::types::ConnectionState;
use crate::client::signaling::SignalingState;
use crate::clock;
use crate::clock::Span;
use crate::protocol::{
    ChatMessageView, ClientMessageView, ErrorCode, IceConfigurationView, PeerSnapshotView,
    RoomSnapshotView, ServerMessageView, ViewerState,
};
use crate::seqs;
use crate::text;

verus! {

/// How long a disconnected connection may sit before the viewer asks the
/// presenter for an ICE restart.
pub const ICE_RESTART_DEBOUNCE: Span = 3_000_000_000;

/// How far automatic restart requests are apart at least.
pub const ICE_RESTART_MIN_INTERVAL: Span = 5_000_000_000;

/// What a viewer session holds.
#[verifier::ext_equal]
pub struct ViewerModel {
    pub display_name: Option<Seq<char>>,
    pub phase: ViewerPhase,
    pub self_peer_id: Option<Seq<char>>,
    pub presenter_peer_id: Option<Seq<char>>,
    /// The session in the origin line of the last offer that had one.
    pub offer_session_id: Option<Seq<char>>,
    pub ice: Option<IceConfigurationView>,
    /// Whether a playback runs.
    pub has_playback: bool,
    /// Chat from before the playback.
    pub pending_chat: Seq<ChatMessageView>,
    pub connection: ConnectionState,
    /// Whether a check on the connection is scheduled.
    pub restart_check_pending: bool,
    /// When a restart was last asked for.
    pub last_restart_request: Option<int>,
    /// The offer to accept once the playback runs.
    pub offer: Option<Seq<char>>,
    /// What the session waits for.
    pub asking: Option<ViewerCallView>,
    /// What was done and not taken yet.
    pub outgoing: Seq<ViewerActionView>,
}

/// What an origin line starts with.
pub open spec fn origin_prefix() -> Seq<char> {
    "o="@
}

/// The session identifier in the origin line of a session description: the
/// second word of the first line that is one.
pub open spec fn session_id(sdp: Seq<char>) -> Option<Seq<char>> {
    let lines = text::split(sdp, '\n');
    match seqs::first_where(lines, |line: Seq<char>| text::has_prefix(line, origin_prefix())) {
        None => None,
        Some(i) => {
            let fields = text::words(lines[i].skip(origin_prefix().len() as int));
            if fields.len() >= 2 {
                Some(fields[1])
            } else {
                None
            }
        },
    }
}

/// Whether the snapshot shows this viewer as approved. Who is listed twice is
/// taken at the first entry, the waiting ones first.
pub open spec fn approved(snapshot: RoomSnapshotView, peer_id: Seq<char>) -> bool {
    let all = snapshot.pending_viewers + snapshot.approved_viewers;
    match seqs::first_where(all, |viewer: PeerSnapshotView| viewer.peer_id == peer_id) {
        Some(i) => all[i].viewer_state == Some(ViewerState::Approved),
        None => false,
    }
}

impl ViewerModel {
    /// What holds of every session between two calls.
    pub open spec fn valid(self) -> bool {
        &&& self.last_restart_request matches Some(at) ==> clock::is_timestamp(at)
        &&& self.has_playback ==> self.pending_chat.len() == 0
        &&& self.offer is Some <==> self.asking is Some
        &&& self.asking matches Some(call) ==> self.has_playback == !(call is Start)
    }

    pub open spec fn emit(self, action: ViewerActionView) -> ViewerModel {
        ViewerModel { outgoing: self.outgoing.push(action), ..self }
    }

    pub open spec fn send(self, message: ClientMessageView) -> ViewerModel {
        self.emit(ViewerActionView::Send { message })
    }

    pub open spec fn report(self, update: ViewerUpdateView) -> ViewerModel {
        self.emit(ViewerActionView::Report { update })
    }

    /// The phase is reported where it changes.
    pub open spec fn set_phase(self, phase: ViewerPhase) -> ViewerModel {
        if self.phase == phase {
            self
        } else {
            ViewerModel { phase, ..self }.report(ViewerUpdateView::Phase { phase })
        }
    }

    pub open spec fn finish_playback(self) -> ViewerModel {
        let closed = if self.has_playback {
            self.emit(ViewerActionView::ClosePlayback)
        } else {
            self
        };
        ViewerModel { has_playback: false, connection: ConnectionState::New, ..closed }
    }

    pub open spec fn finish(self, end: EndReason, send_leave: bool) -> (
        ViewerModel,
        ViewerOutcomeView,
    ) {
        (
            self.finish_playback().emit(ViewerActionView::Disconnect { send_leave }),
            ViewerOutcomeView::Ended { end },
        )
    }

    /// Asks the presenter for an ICE restart, unless nobody is presenting, or
    /// the last request is recent and this one is not made by hand.
    pub open spec fn request_ice_restart(self, manual: bool, now: int) -> ViewerModel {
        let recent = match self.last_restart_request {
            Some(at) => now - at < ICE_RESTART_MIN_INTERVAL,
            None => false,
        };
        match self.presenter_peer_id {
            Some(destination_peer_id) => if recent && !manual {
                self
            } else {
                ViewerModel { last_restart_request: Some(now), ..self }.send(
                    ClientMessageView::SignalIceRestart { destination_peer_id },
                )
            },
            None => self,
        }
    }

    pub open spec fn schedule_restart_check(self) -> ViewerModel {
        if self.restart_check_pending {
            self
        } else {
            ViewerModel { restart_check_pending: true, ..self }.emit(
                ViewerActionView::AwaitRestartCheck,
            )
        }
    }

    /// The time for the connection to heal is over.
    pub open spec fn restart_check_fired(self, now: int) -> ViewerModel {
        let checked = ViewerModel { restart_check_pending: false, ..self };
        if self.connection == ConnectionState::Disconnected || self.connection
            == ConnectionState::Failed {
            checked.request_ice_restart(false, now)
        } else {
            checked
        }
    }

    pub open spec fn report_snapshot(self, snapshot: RoomSnapshotView) -> ViewerModel {
        self.report(ViewerUpdateView::SharingState { state: snapshot.sharing_state }).report(
            ViewerUpdateView::RoomExpiry { expires_in_seconds: snapshot.expires_in_seconds },
        ).report(ViewerUpdateView::PresenterConnected { connected: snapshot.presenter_connected })
    }

    pub open spec fn handle_command(self, command: ViewerCommandView, now: int) -> (
        ViewerModel,
        ViewerOutcomeView,
    ) {
        match command {
            ViewerCommandView::Chat { text } => {
                let message = ChatMessageView {
                    sender: match self.display_name {
                        Some(name) => name,
                        None => "Viewer"@,
                    },
                    text,
                };
                (
                    if self.has_playback {
                        self.emit(ViewerActionView::SendChat { message })
                    } else {
                        ViewerModel { pending_chat: self.pending_chat.push(message), ..self }
                    },
                    ViewerOutcomeView::Continue,
                )
            },
            ViewerCommandView::SetDisplayName { name } => (
                ViewerModel { display_name: Some(name), ..self }.send(
                    ClientMessageView::ViewerUpdateDisplayName { display_name: Some(name) },
                ),
                ViewerOutcomeView::Continue,
            ),
            ViewerCommandView::RestartIce => (
                self.request_ice_restart(true, now),
                ViewerOutcomeView::Continue,
            ),
            ViewerCommandView::Leave => self.finish(EndReason::Left, true),
        }
    }

    /// Whether an offer renegotiates the connection that is up: an ICE restart
    /// does, and so does one of the same session. Any other comes from a rebuilt
    /// connection.
    pub open spec fn same_connection(self, sdp: Seq<char>, ice_restart: bool) -> bool {
        ice_restart || (session_id(sdp) is Some && session_id(sdp) == self.offer_session_id)
    }

    /// An offer is answered by the playback, which is started where there is
    /// none.
    pub open spec fn accept(self, sdp: Seq<char>) -> (ViewerModel, ViewerOutcomeView) {
        if self.has_playback {
            (
                ViewerModel {
                    offer: Some(sdp),
                    asking: Some(ViewerCallView::AcceptOffer { sdp }),
                    ..self
                },
                ViewerOutcomeView::Continue,
            )
        } else {
            match self.ice {
                None => (
                    self,
                    ViewerOutcomeView::Failed {
                        error: ViewerErrorView::Playback {
                            reason: "an offer arrived before the ICE configuration"@,
                        },
                    },
                ),
                Some(configuration) => (
                    ViewerModel {
                        offer: Some(sdp),
                        asking: Some(ViewerCallView::Start { configuration }),
                        ..self
                    },
                    ViewerOutcomeView::Continue,
                ),
            }
        }
    }

    pub open spec fn offered(
        self,
        source_peer_id: Seq<char>,
        sdp: Seq<char>,
        ice_restart: bool,
    ) -> (ViewerModel, ViewerOutcomeView) {
        let negotiating = ViewerModel {
            presenter_peer_id: Some(source_peer_id),
            ..self
        }.set_phase(ViewerPhase::Negotiating);
        let cleared = if !self.same_connection(sdp, ice_restart) && self.has_playback {
            negotiating.finish_playback()
        } else {
            negotiating
        };
        ViewerModel {
            offer_session_id: if session_id(sdp) is Some {
                session_id(sdp)
            } else {
                self.offer_session_id
            },
            ..cleared
        }.accept(sdp)
    }

    pub open spec fn handle_message(self, message: ServerMessageView) -> (
        ViewerModel,
        ViewerOutcomeView,
    ) {
        match message {
            ServerMessageView::AuthSucceeded { peer_id, snapshot, ice_configuration, .. } => (
                ViewerModel {
                    self_peer_id: Some(peer_id),
                    ice: Some(ice_configuration),
                    ..self
                }.emit(
                    ViewerActionView::ScheduleRefresh { expires_at: ice_configuration.expires_at },
                ).set_phase(
                    if approved(snapshot, peer_id) {
                        ViewerPhase::Negotiating
                    } else {
                        ViewerPhase::AwaitingApproval
                    },
                ).report_snapshot(snapshot),
                ViewerOutcomeView::Continue,
            ),
            ServerMessageView::RoomSnapshot { snapshot, .. } => (
                self.report_snapshot(snapshot),
                ViewerOutcomeView::Continue,
            ),
            ServerMessageView::RoomSharingStateUpdated { sharing_state, .. } => (
                self.report(ViewerUpdateView::SharingState { state: sharing_state }),
                ViewerOutcomeView::Continue,
            ),
            ServerMessageView::ViewerApproved { peer_id, .. } => (
                if self.self_peer_id == Some(peer_id) {
                    self.set_phase(ViewerPhase::Negotiating)
                } else {
                    self
                },
                ViewerOutcomeView::Continue,
            ),
            ServerMessageView::ViewerRejected { peer_id, .. } => if self.self_peer_id == Some(
                peer_id,
            ) {
                self.finish(EndReason::Rejected, false)
            } else {
                (self, ViewerOutcomeView::Continue)
            },
            ServerMessageView::ViewerKicked { peer_id, .. } => if self.self_peer_id == Some(
                peer_id,
            ) {
                self.finish(EndReason::Kicked, false)
            } else {
                (self, ViewerOutcomeView::Continue)
            },
            ServerMessageView::SignalOffer { source_peer_id, sdp, ice_restart, .. } => self.offered(
                source_peer_id,
                sdp,
                ice_restart,
            ),
            ServerMessageView::SignalIceCandidate { candidate, sdp_m_line_index, .. } => (
                if self.has_playback {
                    self.emit(
                        ViewerActionView::AddCandidate {
                            sdp_m_line_index: match sdp_m_line_index {
                                Some(index) => index as u32,
                                None => 0,
                            },
                            candidate,
                        },
                    )
                } else {
                    self
                },
                ViewerOutcomeView::Continue,
            ),
            ServerMessageView::IceConfiguration { configuration, .. } => (
                ViewerModel { ice: Some(configuration), ..self }.emit(
                    ViewerActionView::ScheduleRefresh { expires_at: configuration.expires_at },
                ),
                ViewerOutcomeView::Continue,
            ),
            ServerMessageView::PresenterDisconnected { .. } => (
                self.report(ViewerUpdateView::PresenterConnected { connected: false }),
                ViewerOutcomeView::Continue,
            ),
            ServerMessageView::PresenterResumed { .. } => (
                self.report(ViewerUpdateView::PresenterConnected { connected: true }),
                ViewerOutcomeView::Continue,
            ),
            ServerMessageView::RoomClosed { .. } => self.finish(EndReason::RoomClosed, false),
            ServerMessageView::RoomExpired { .. } => self.finish(EndReason::RoomExpired, false),
            ServerMessageView::AuthFailed { message, .. } => (
                self.finish_playback(),
                ViewerOutcomeView::Failed {
                    error: ViewerErrorView::AuthenticationFailed { message },
                },
            ),
            ServerMessageView::Error { code, .. } => if code == ErrorCode::RoomClosed {
                self.finish(EndReason::RoomClosed, false)
            } else if code == ErrorCode::RoomExpired {
                self.finish(EndReason::RoomExpired, false)
            } else {
                (self, ViewerOutcomeView::Continue)
            },
            _ => (self, ViewerOutcomeView::Continue),
        }
    }

    pub open spec fn handle_playback(self, event: PlaybackEventView, now: int) -> (
        ViewerModel,
        ViewerOutcomeView,
    ) {
        match event {
            PlaybackEventView::Answer { sdp } => (
                match self.presenter_peer_id {
                    Some(destination_peer_id) => self.send(
                        ClientMessageView::SignalAnswer { destination_peer_id, sdp },
                    ),
                    None => self,
                },
                ViewerOutcomeView::Continue,
            ),
            PlaybackEventView::IceCandidate { candidate, sdp_m_line_index } => (
                match self.presenter_peer_id {
                    Some(destination_peer_id) => self.send(
                        ClientMessageView::SignalIceCandidate {
                            destination_peer_id,
                            candidate,
                            sdp_mid: None,
                            sdp_m_line_index: Some(presenter_model::line_index(sdp_m_line_index)),
                        },
                    ),
                    None => self,
                },
                ViewerOutcomeView::Continue,
            ),
            PlaybackEventView::ConnectionState { state } => {
                let noted = ViewerModel { connection: state, ..self };
                let seen = match state {
                    ConnectionState::Connected => noted.set_phase(ViewerPhase::Live),
                    ConnectionState::Failed => noted.request_ice_restart(false, now),
                    ConnectionState::Disconnected => noted.schedule_restart_check(),
                    _ => noted,
                };
                (
                    seen.report(ViewerUpdateView::Connection { state }),
                    ViewerOutcomeView::Continue,
                )
            },
            PlaybackEventView::Chat { message } => (
                match message {
                    Some(chat) => self.report(
                        ViewerUpdateView::Chat { sender: chat.sender, text: chat.text },
                    ),
                    None => self,
                },
                ViewerOutcomeView::Continue,
            ),
            PlaybackEventView::Ended { reason } => (
                self.finish_playback().emit(ViewerActionView::Disconnect { send_leave: true }),
                ViewerOutcomeView::Failed { error: ViewerErrorView::Playback { reason } },
            ),
        }
    }

    /// Chat from before the playback goes out.
    pub open spec fn flush_chat(self) -> ViewerModel {
        ViewerModel {
            pending_chat: Seq::empty(),
            outgoing: self.outgoing + self.pending_chat.map_values(
                |message: ChatMessageView| ViewerActionView::SendChat { message },
            ),
            ..self
        }
    }

    /// What was asked for is done, or failed with this message.
    pub open spec fn answered(self, error: Option<Seq<char>>) -> (ViewerModel, ViewerOutcomeView) {
        let heard = ViewerModel { asking: None, offer: None, ..self };
        match self.asking {
            None => (self, ViewerOutcomeView::Continue),
            Some(call) => match error {
                Some(message) => (
                    heard,
                    ViewerOutcomeView::Failed { error: ViewerErrorView::PlaybackStart { message } },
                ),
                None => if call is Start {
                    (
                        ViewerModel {
                            has_playback: true,
                            offer: self.offer,
                            asking: Some(ViewerCallView::AcceptOffer { sdp: self.offer->0 }),
                            ..heard.flush_chat()
                        },
                        ViewerOutcomeView::Continue,
                    )
                } else {
                    (heard, ViewerOutcomeView::Continue)
                },
            },
        }
    }

    pub open spec fn refresh_due(self) -> ViewerModel {
        self.send(ClientMessageView::IceRefresh).emit(ViewerActionView::RetryRefresh)
    }

    pub open spec fn signaling_state(self, state: SignalingState) -> ViewerModel {
        self.report(ViewerUpdateView::Signaling { state })
    }
}

} // verus!
