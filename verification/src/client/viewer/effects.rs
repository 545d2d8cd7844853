//! What each command, message and event makes a viewer session do.
use vstd::prelude::*;

use super::model;
use super::model::ViewerModel;
use super::types::{
    EndReason, PlaybackEventView, ViewerActionView, ViewerCallView, ViewerCommandView,
    ViewerErrorView, ViewerOutcomeView, ViewerPhase, ViewerUpdateView,
};
use crate::client::presenter::types::ConnectionState;
use crate::client::signaling::SignalingState;
use crate::protocol::{
    ChatMessageView, ClientMessageView, ErrorCode, PeerSnapshotView, RoomSnapshotView,
    ServerMessageView, ViewerState,
};
use crate::seqs;
use crate::text;

verus! {

/// Whether a session did exactly this and is otherwise as it was.
pub open spec fn only_does(
    before: ViewerModel,
    after: ViewerModel,
    actions: Seq<ViewerActionView>,
) -> bool {
    after == (ViewerModel { outgoing: before.outgoing + actions, ..before })
}

/// What is shown when the phase of a session becomes this one.
pub open spec fn phase_news(m: ViewerModel, phase: ViewerPhase) -> Seq<ViewerActionView> {
    if m.phase == phase {
        Seq::empty()
    } else {
        seq![ViewerActionView::Report { update: ViewerUpdateView::Phase { phase } }]
    }
}

/// What is shown of a room.
pub open spec fn room_news(snapshot: RoomSnapshotView) -> Seq<ViewerActionView> {
    seq![
        ViewerActionView::Report {
            update: ViewerUpdateView::SharingState { state: snapshot.sharing_state },
        },
        ViewerActionView::Report {
            update: ViewerUpdateView::RoomExpiry {
                expires_in_seconds: snapshot.expires_in_seconds,
            },
        },
        ViewerActionView::Report {
            update: ViewerUpdateView::PresenterConnected {
                connected: snapshot.presenter_connected,
            },
        },
    ]
}

/// Whether a session has ended between two states: its playback, if any, is
/// closed, and the connection is given up.
pub open spec fn ended(before: ViewerModel, after: ViewerModel, send_leave: bool) -> bool {
    only_does(
        ViewerModel { has_playback: false, connection: ConnectionState::New, ..before },
        after,
        if before.has_playback {
            seq![ViewerActionView::ClosePlayback, ViewerActionView::Disconnect { send_leave }]
        } else {
            seq![ViewerActionView::Disconnect { send_leave }]
        },
    )
}

proof fn lemma_ended(m: ViewerModel, end: EndReason, send_leave: bool)
    ensures
        ended(m, m.finish(end, send_leave).0, send_leave),
{
    let after = m.finish(end, send_leave).0;
    assert(after.outgoing =~= m.outgoing + if m.has_playback {
        seq![ViewerActionView::ClosePlayback, ViewerActionView::Disconnect { send_leave }]
    } else {
        seq![ViewerActionView::Disconnect { send_leave }]
    });
}

/// The presenter's candidates are handed to the playback as they come, at their
/// line, the first where they name none. Without a playback they are dropped.
pub proof fn law_candidates_reach_the_playback(m: ViewerModel, message: ServerMessageView)
    requires
        message is SignalIceCandidate,
    ensures
        m.handle_message(message).1 == ViewerOutcomeView::Continue,
        !m.has_playback ==> m.handle_message(message).0 == m,
        m.has_playback ==> only_does(
            m,
            m.handle_message(message).0,
            seq![
                ViewerActionView::AddCandidate {
                    sdp_m_line_index: match message->SignalIceCandidate_sdp_m_line_index {
                        Some(index) => index as u32,
                        None => 0,
                    },
                    candidate: message->SignalIceCandidate_candidate,
                },
            ],
        ),
{
    let after = m.handle_message(message).0;
    if m.has_playback {
        assert(after.outgoing =~= m.outgoing + seq![after.outgoing.last()]);
    }
}

/// Chat goes to the playback under the viewer's name, or waits for one; someone
/// without a name goes as a viewer.
pub proof fn law_chat_is_said_under_the_name(m: ViewerModel, text: Seq<char>, now: int)
    ensures
        ({
            let message = ChatMessageView {
                sender: match m.display_name {
                    Some(name) => name,
                    None => "Viewer"@,
                },
                text,
            };
            let (said, outcome) = m.handle_command(ViewerCommandView::Chat { text }, now);
            &&& outcome == ViewerOutcomeView::Continue
            &&& if m.has_playback {
                only_does(m, said, seq![ViewerActionView::SendChat { message }])
            } else {
                said == (ViewerModel { pending_chat: m.pending_chat.push(message), ..m })
            }
        }),
{
    let said = m.handle_command(ViewerCommandView::Chat { text }, now).0;
    if m.has_playback {
        assert(said.outgoing =~= m.outgoing + seq![said.outgoing.last()]);
    }
}

/// A new name counts from then on and is sent to the room. A restart that is asked
/// for by hand is always sent to the presenter, if there is one. Leaving ends the
/// session and leaves the room.
pub proof fn law_commands_are_sent(m: ViewerModel, name: Seq<char>, now: int)
    ensures
        ({
            let named = m.handle_command(ViewerCommandView::SetDisplayName { name }, now);
            let restarted = m.handle_command(ViewerCommandView::RestartIce, now);
            let left = m.handle_command(ViewerCommandView::Leave, now);
            &&& named.1 == ViewerOutcomeView::Continue
            &&& only_does(
                ViewerModel { display_name: Some(name), ..m },
                named.0,
                seq![
                    ViewerActionView::Send {
                        message: ClientMessageView::ViewerUpdateDisplayName {
                            display_name: Some(name),
                        },
                    },
                ],
            )
            &&& restarted.1 == ViewerOutcomeView::Continue
            &&& match m.presenter_peer_id {
                None => restarted.0 == m,
                Some(destination_peer_id) => only_does(
                    ViewerModel { last_restart_request: Some(now), ..m },
                    restarted.0,
                    seq![
                        ViewerActionView::Send {
                            message: ClientMessageView::SignalIceRestart { destination_peer_id },
                        },
                    ],
                ),
            }
            &&& left.1 == (ViewerOutcomeView::Ended { end: EndReason::Left })
            &&& ended(m, left.0, true)
        }),
{
    lemma_ended(m, EndReason::Left, true);
    let named = m.handle_command(ViewerCommandView::SetDisplayName { name }, now).0;
    assert(named.outgoing =~= m.outgoing + seq![named.outgoing.last()]);
    let restarted = m.handle_command(ViewerCommandView::RestartIce, now).0;
    if m.presenter_peer_id is Some {
        assert(restarted.outgoing =~= m.outgoing + seq![restarted.outgoing.last()]);
    }
}

/// Whether a viewer is let in, as a snapshot has it: by its first entry, those who
/// wait before those let in.
pub open spec fn let_in(snapshot: RoomSnapshotView, peer_id: Seq<char>) -> bool {
    let all = snapshot.pending_viewers + snapshot.approved_viewers;
    exists|i: int|
        0 <= i < all.len() && (#[trigger] all[i]).peer_id == peer_id && all[i].viewer_state == Some(
            ViewerState::Approved,
        ) && forall|j: int| 0 <= j < i ==> (#[trigger] all[j]).peer_id != peer_id
}

proof fn lemma_let_in(snapshot: RoomSnapshotView, peer_id: Seq<char>)
    ensures
        model::approved(snapshot, peer_id) == let_in(snapshot, peer_id),
{
    let all = snapshot.pending_viewers + snapshot.approved_viewers;
    let is_it = |viewer: PeerSnapshotView| viewer.peer_id == peer_id;
    seqs::lemma_first_where(all, is_it);
    match seqs::first_where(all, is_it) {
        Some(i) => {
            assert forall|j: int| 0 <= j < i implies (#[trigger] all[j]).peer_id != peer_id by {
                assert(!is_it(all[j]));
            }
            if let_in(snapshot, peer_id) {
                let k = choose|k: int|
                    0 <= k < all.len() && (#[trigger] all[k]).peer_id == peer_id
                        && all[k].viewer_state == Some(ViewerState::Approved) && forall|j: int|
                        0 <= j < k ==> (#[trigger] all[j]).peer_id != peer_id;
                assert(is_it(all[k]));
                assert(k == i);
            }
        },
        None => {
            assert forall|j: int| 0 <= j < all.len() implies (#[trigger] all[j]).peer_id != peer_id by {
                assert(!is_it(all[j]));
            }
        },
    }
}

/// Once authenticated the session goes by the peer identifier that it was given,
/// keeps the relay credentials and plans to renew them, waits for approval unless
/// the room shows it as let in, and shows how the room is.
pub proof fn law_authentication_shows_the_room(m: ViewerModel, message: ServerMessageView)
    requires
        message is AuthSucceeded,
    ensures
        ({
            let (after, outcome) = m.handle_message(message);
            let peer_id = message->AuthSucceeded_peer_id;
            let snapshot = message->AuthSucceeded_snapshot;
            let configuration = message->AuthSucceeded_ice_configuration;
            let phase = if let_in(snapshot, peer_id) {
                ViewerPhase::Negotiating
            } else {
                ViewerPhase::AwaitingApproval
            };
            &&& outcome == ViewerOutcomeView::Continue
            &&& only_does(
                ViewerModel { self_peer_id: Some(peer_id), ice: Some(configuration), phase, ..m },
                after,
                seq![ViewerActionView::ScheduleRefresh { expires_at: configuration.expires_at }]
                    + phase_news(m, phase) + room_news(snapshot),
            )
        }),
{
    let after = m.handle_message(message).0;
    let peer_id = message->AuthSucceeded_peer_id;
    let snapshot = message->AuthSucceeded_snapshot;
    let configuration = message->AuthSucceeded_ice_configuration;
    lemma_let_in(snapshot, peer_id);
    let phase = if let_in(snapshot, peer_id) {
        ViewerPhase::Negotiating
    } else {
        ViewerPhase::AwaitingApproval
    };
    assert(after.outgoing =~= m.outgoing + (seq![
        ViewerActionView::ScheduleRefresh { expires_at: configuration.expires_at },
    ] + phase_news(m, phase) + room_news(snapshot)));
}

/// What the server says of the room is shown as it is, and changes nothing else.
/// New relay credentials are kept for the next playback.
pub proof fn law_the_room_is_shown_as_told(m: ViewerModel, message: ServerMessageView)
    ensures
        ({
            let (after, outcome) = m.handle_message(message);
            &&& message matches ServerMessageView::RoomSnapshot { snapshot, .. } ==> only_does(
                m,
                after,
                room_news(snapshot),
            )
            &&& message matches ServerMessageView::RoomSharingStateUpdated { sharing_state, .. }
                ==> only_does(
                m,
                after,
                seq![
                    ViewerActionView::Report {
                        update: ViewerUpdateView::SharingState { state: sharing_state },
                    },
                ],
            )
            &&& message is PresenterDisconnected ==> only_does(
                m,
                after,
                seq![
                    ViewerActionView::Report {
                        update: ViewerUpdateView::PresenterConnected { connected: false },
                    },
                ],
            )
            &&& message is PresenterResumed ==> only_does(
                m,
                after,
                seq![
                    ViewerActionView::Report {
                        update: ViewerUpdateView::PresenterConnected { connected: true },
                    },
                ],
            )
            &&& message matches ServerMessageView::IceConfiguration { configuration, .. }
                ==> only_does(
                ViewerModel { ice: Some(configuration), ..m },
                after,
                seq![ViewerActionView::ScheduleRefresh { expires_at: configuration.expires_at }],
            )
            &&& (message is RoomSnapshot || message is RoomSharingStateUpdated || message
                is PresenterDisconnected || message is PresenterResumed || message
                is IceConfiguration) ==> outcome == ViewerOutcomeView::Continue
        }),
{
    let after = m.handle_message(message).0;
    match message {
        ServerMessageView::RoomSnapshot { snapshot, .. } => {
            assert(after.outgoing =~= m.outgoing + room_news(snapshot));
        },
        ServerMessageView::RoomSharingStateUpdated { .. } => {
            assert(after.outgoing =~= m.outgoing + seq![after.outgoing.last()]);
        },
        ServerMessageView::PresenterDisconnected { .. } => {
            assert(after.outgoing =~= m.outgoing + seq![after.outgoing.last()]);
        },
        ServerMessageView::PresenterResumed { .. } => {
            assert(after.outgoing =~= m.outgoing + seq![after.outgoing.last()]);
        },
        ServerMessageView::IceConfiguration { .. } => {
            assert(after.outgoing =~= m.outgoing + seq![after.outgoing.last()]);
        },
        _ => {},
    }
}

/// What the presenter decides about this viewer counts: let in, it goes on to
/// negotiate; turned away or removed, its session ends with that reason.
pub proof fn law_decisions_count(m: ViewerModel, message: ServerMessageView)
    requires
        m.self_peer_id is Some,
    ensures
        ({
            let (after, outcome) = m.handle_message(message);
            let own = m.self_peer_id->0;
            &&& (message matches ServerMessageView::ViewerApproved { peer_id, .. } && peer_id == own)
                ==> outcome == ViewerOutcomeView::Continue && only_does(
                ViewerModel { phase: ViewerPhase::Negotiating, ..m },
                after,
                phase_news(m, ViewerPhase::Negotiating),
            )
            &&& (message matches ServerMessageView::ViewerRejected { peer_id, .. } && peer_id == own)
                ==> outcome == (ViewerOutcomeView::Ended { end: EndReason::Rejected }) && ended(
                m,
                after,
                false,
            )
            &&& (message matches ServerMessageView::ViewerKicked { peer_id, .. } && peer_id == own)
                ==> outcome == (ViewerOutcomeView::Ended { end: EndReason::Kicked }) && ended(
                m,
                after,
                false,
            )
        }),
{
    lemma_ended(m, EndReason::Rejected, false);
    lemma_ended(m, EndReason::Kicked, false);
    let after = m.handle_message(message).0;
    if message is ViewerApproved && message->ViewerApproved_peer_id == m.self_peer_id->0 {
        assert(after.outgoing =~= m.outgoing + phase_news(m, ViewerPhase::Negotiating));
    }
}

/// The session ends with the room: closed where the room closed, expired where its
/// time was up, whether the server says so outright or as a refusal. A failed
/// authentication closes the playback and fails with the server's words.
pub proof fn law_the_session_ends_with_the_room(m: ViewerModel, message: ServerMessageView)
    ensures
        ({
            let (after, outcome) = m.handle_message(message);
            &&& (message is RoomClosed || (message matches ServerMessageView::Error { code, .. }
                && code == ErrorCode::RoomClosed)) ==> ended(m, after, false) && outcome == (
            ViewerOutcomeView::Ended { end: EndReason::RoomClosed })
            &&& (message is RoomExpired || (message matches ServerMessageView::Error { code, .. }
                && code == ErrorCode::RoomExpired)) ==> ended(m, after, false) && outcome == (
            ViewerOutcomeView::Ended { end: EndReason::RoomExpired })
            &&& message matches ServerMessageView::AuthFailed { message: words, .. } ==> {
                &&& outcome == (ViewerOutcomeView::Failed {
                    error: ViewerErrorView::AuthenticationFailed { message: words },
                })
                &&& !after.has_playback
                &&& after.outgoing == if m.has_playback {
                    m.outgoing.push(ViewerActionView::ClosePlayback)
                } else {
                    m.outgoing
                }
            }
        }),
{
    lemma_ended(m, EndReason::RoomClosed, false);
    lemma_ended(m, EndReason::RoomExpired, false);
}

/// An offer is answered to whoever made it. A playback that runs is asked to accept
/// it if the offer restarts its connection or is of the session that came last;
/// otherwise it is closed, and another is started with the latest relay
/// credentials. An offer before any credentials fails the session.
pub proof fn law_offers_are_accepted(m: ViewerModel, message: ServerMessageView)
    requires
        message is SignalOffer,
    ensures
        ({
            let (after, outcome) = m.handle_message(message);
            let sdp = message->SignalOffer_sdp;
            let session = model::session_id(sdp);
            let same = message->SignalOffer_ice_restart || (session is Some && session
                == m.offer_session_id);
            let keeps = m.has_playback && same;
            &&& after.presenter_peer_id == Some(message->SignalOffer_source_peer_id)
            &&& after.phase == ViewerPhase::Negotiating
            &&& after.offer_session_id == if session is Some {
                session
            } else {
                m.offer_session_id
            }
            &&& after.outgoing == m.outgoing + phase_news(m, ViewerPhase::Negotiating) + (
            if m.has_playback && !same {
                seq![ViewerActionView::ClosePlayback]
            } else {
                Seq::empty()
            })
            &&& after.has_playback == keeps
            &&& keeps ==> after.asking == Some(ViewerCallView::AcceptOffer { sdp }) && outcome
                == ViewerOutcomeView::Continue
            &&& !keeps && m.ice is Some ==> after.asking == Some(
                ViewerCallView::Start { configuration: m.ice->0 },
            ) && outcome == ViewerOutcomeView::Continue
            &&& keeps || m.ice is Some ==> after.offer == Some(sdp)
            &&& !keeps && m.ice is None ==> outcome == (ViewerOutcomeView::Failed {
                error: ViewerErrorView::Playback {
                    reason: "an offer arrived before the ICE configuration"@,
                },
            })
            &&& after.pending_chat == m.pending_chat && after.self_peer_id == m.self_peer_id
                && after.display_name == m.display_name && after.ice == m.ice
        }),
{
    let after = m.handle_message(message).0;
    let sdp = message->SignalOffer_sdp;
    let same = message->SignalOffer_ice_restart || (model::session_id(sdp) is Some
        && model::session_id(sdp) == m.offer_session_id);
    assert(after.outgoing =~= m.outgoing + phase_news(m, ViewerPhase::Negotiating) + (
    if m.has_playback && !same {
        seq![ViewerActionView::ClosePlayback]
    } else {
        Seq::empty()
    }));
}

/// A playback that started gets the chat that waited, in its order, and is asked
/// to accept the offer that it was started for. One that fails ends the session
/// with the reason.
pub proof fn law_a_started_playback_catches_up(m: ViewerModel, error: Option<Seq<char>>)
    requires
        m.valid(),
        m.asking is Some,
    ensures
        ({
            let (after, outcome) = m.answered(error);
            &&& error matches Some(message) ==> outcome == (ViewerOutcomeView::Failed {
                error: ViewerErrorView::PlaybackStart { message },
            }) && after == (ViewerModel { asking: None, offer: None, ..m })
            &&& error is None && m.asking->0 is AcceptOffer ==> outcome
                == ViewerOutcomeView::Continue && after == (ViewerModel {
                asking: None,
                offer: None,
                ..m
            })
            &&& error is None && m.asking->0 is Start ==> {
                &&& outcome == ViewerOutcomeView::Continue
                &&& after.has_playback
                &&& after.asking == Some(ViewerCallView::AcceptOffer { sdp: m.offer->0 })
                &&& after.offer == m.offer
                &&& after.pending_chat.len() == 0
                &&& after.outgoing.len() == m.outgoing.len() + m.pending_chat.len()
                &&& forall|i: int|
                    0 <= i < m.outgoing.len() ==> after.outgoing[i] == #[trigger] m.outgoing[i]
                &&& forall|i: int|
                    0 <= i < m.pending_chat.len() ==> after.outgoing[m.outgoing.len() + i] == (
                    ViewerActionView::SendChat { message: #[trigger] m.pending_chat[i] })
            }
        }),
{
}

/// What the playback brings for the presenter is sent to it as it is, if there is
/// one: answers and candidates. Chat is shown under its sender's name. A playback
/// that ended fails the session with the reason and leaves the room.
pub proof fn law_the_playback_is_passed_on(m: ViewerModel, event: PlaybackEventView, now: int)
    ensures
        ({
            let (after, outcome) = m.handle_playback(event, now);
            &&& event matches PlaybackEventView::Answer { sdp } ==> match m.presenter_peer_id {
                None => after == m,
                Some(destination_peer_id) => only_does(
                    m,
                    after,
                    seq![
                        ViewerActionView::Send {
                            message: ClientMessageView::SignalAnswer { destination_peer_id, sdp },
                        },
                    ],
                ),
            }
            &&& event matches PlaybackEventView::IceCandidate { candidate, sdp_m_line_index }
                ==> match m.presenter_peer_id {
                None => after == m,
                Some(destination_peer_id) => only_does(
                    m,
                    after,
                    seq![
                        ViewerActionView::Send {
                            message: ClientMessageView::SignalIceCandidate {
                                destination_peer_id,
                                candidate,
                                sdp_mid: None,
                                sdp_m_line_index: Some(
                                    if sdp_m_line_index <= 65535 {
                                        sdp_m_line_index as u16
                                    } else {
                                        65535u16
                                    },
                                ),
                            },
                        },
                    ],
                ),
            }
            &&& event matches PlaybackEventView::Chat { message } ==> match message {
                None => after == m,
                Some(chat) => only_does(
                    m,
                    after,
                    seq![
                        ViewerActionView::Report {
                            update: ViewerUpdateView::Chat {
                                sender: chat.sender,
                                text: chat.text,
                            },
                        },
                    ],
                ),
            }
            &&& event matches PlaybackEventView::Ended { reason } ==> ended(m, after, true)
                && outcome == (ViewerOutcomeView::Failed {
                error: ViewerErrorView::Playback { reason },
            })
            &&& !(event is Ended) ==> outcome == ViewerOutcomeView::Continue
        }),
{
    lemma_ended(m, EndReason::Left, true);
    let after = m.handle_playback(event, now).0;
    match event {
        PlaybackEventView::Answer { .. } => {
            if m.presenter_peer_id is Some {
                assert(after.outgoing =~= m.outgoing + seq![after.outgoing.last()]);
            }
        },
        PlaybackEventView::IceCandidate { .. } => {
            if m.presenter_peer_id is Some {
                assert(after.outgoing =~= m.outgoing + seq![after.outgoing.last()]);
            }
        },
        PlaybackEventView::Chat { message: Some(_) } => {
            assert(after.outgoing =~= m.outgoing + seq![after.outgoing.last()]);
        },
        _ => {},
    }
}

/// How the connection fares is noted and shown. One that is up makes the session
/// live. One that failed is restarted at once, and one that dropped is checked
/// once, some time later; a check asks for a restart where the connection is
/// still down, and no two requests that nobody made by hand are within five
/// seconds.
pub proof fn law_broken_connections_are_restarted(m: ViewerModel, state: ConnectionState, now: int)
    ensures
        ({
            let after = m.handle_playback(PlaybackEventView::ConnectionState { state }, now).0;
            let fired = m.restart_check_fired(now);
            let shown = ViewerActionView::Report { update: ViewerUpdateView::Connection { state } };
            let may_ask = m.presenter_peer_id is Some && (
            m.last_restart_request matches Some(at) ==> now - at >= 5_000_000_000);
            let request = ViewerActionView::Send {
                message: ClientMessageView::SignalIceRestart {
                    destination_peer_id: m.presenter_peer_id->0,
                },
            };
            let down = m.connection == ConnectionState::Disconnected || m.connection
                == ConnectionState::Failed;
            &&& state == ConnectionState::Connected ==> only_does(
                ViewerModel { connection: state, phase: ViewerPhase::Live, ..m },
                after,
                phase_news(m, ViewerPhase::Live) + seq![shown],
            )
            &&& state == ConnectionState::Failed ==> only_does(
                ViewerModel {
                    connection: state,
                    last_restart_request: if may_ask {
                        Some(now)
                    } else {
                        m.last_restart_request
                    },
                    ..m
                },
                after,
                if may_ask {
                    seq![request, shown]
                } else {
                    seq![shown]
                },
            )
            &&& state == ConnectionState::Disconnected ==> only_does(
                ViewerModel { connection: state, restart_check_pending: true, ..m },
                after,
                if m.restart_check_pending {
                    seq![shown]
                } else {
                    seq![ViewerActionView::AwaitRestartCheck, shown]
                },
            )
            &&& (state == ConnectionState::New || state == ConnectionState::Connecting || state
                == ConnectionState::Closed) ==> only_does(
                ViewerModel { connection: state, ..m },
                after,
                seq![shown],
            )
            &&& if down && may_ask {
                only_does(
                    ViewerModel {
                        restart_check_pending: false,
                        last_restart_request: Some(now),
                        ..m
                    },
                    fired,
                    seq![request],
                )
            } else {
                fired == (ViewerModel { restart_check_pending: false, ..m })
            }
        }),
{
    let after = m.handle_playback(PlaybackEventView::ConnectionState { state }, now).0;
    let shown = ViewerActionView::Report { update: ViewerUpdateView::Connection { state } };
    let may_ask = m.presenter_peer_id is Some && (m.last_restart_request matches Some(at) ==> now
        - at >= 5_000_000_000);
    let request = ViewerActionView::Send {
        message: ClientMessageView::SignalIceRestart {
            destination_peer_id: m.presenter_peer_id->0,
        },
    };
    match state {
        ConnectionState::Connected => {
            assert(after.outgoing =~= m.outgoing + (phase_news(m, ViewerPhase::Live) + seq![shown]));
        },
        ConnectionState::Failed => {
            assert(after.outgoing =~= m.outgoing + if may_ask {
                seq![request, shown]
            } else {
                seq![shown]
            });
        },
        ConnectionState::Disconnected => {
            assert(after.outgoing =~= m.outgoing + if m.restart_check_pending {
                seq![shown]
            } else {
                seq![ViewerActionView::AwaitRestartCheck, shown]
            });
        },
        _ => {
            assert(after.outgoing =~= m.outgoing + seq![shown]);
        },
    }
    assert(m.outgoing.push(request) =~= m.outgoing + seq![request]);
}

/// Fresh relay credentials are asked for when they are due, and once more if
/// nothing comes; how the signaling connection fares is shown.
pub proof fn law_refreshes_and_signaling(m: ViewerModel, state: SignalingState)
    ensures
        only_does(
            m,
            m.refresh_due(),
            seq![
                ViewerActionView::Send { message: ClientMessageView::IceRefresh },
                ViewerActionView::RetryRefresh,
            ],
        ),
        only_does(
            m,
            m.signaling_state(state),
            seq![ViewerActionView::Report { update: ViewerUpdateView::Signaling { state } }],
        ),
{
    assert(m.refresh_due().outgoing =~= m.outgoing + seq![
        ViewerActionView::Send { message: ClientMessageView::IceRefresh },
        ViewerActionView::RetryRefresh,
    ]);
    assert(m.signaling_state(state).outgoing =~= m.outgoing + seq![
        ViewerActionView::Report { update: ViewerUpdateView::Signaling { state } },
    ]);
}

/// Whether a line of a session description tells its origin.
pub open spec fn tells_origin(line: Seq<char>) -> bool {
    line.len() >= 2 && line[0] == 'o' && line[1] == '='
}

/// A session goes by the second word of the first line that tells an origin, if
/// that line has one.
pub proof fn law_sessions_go_by_their_origin(sdp: Seq<char>, i: int)
    ensures
        ({
            let lines = text::split(sdp, '\n');
            &&& (forall|j: int| 0 <= j < lines.len() ==> !tells_origin(#[trigger] lines[j]))
                ==> model::session_id(sdp) is None
            &&& 0 <= i < lines.len() && tells_origin(lines[i]) && (forall|j: int|
                0 <= j < i ==> !tells_origin(#[trigger] lines[j])) ==> {
                let words = text::words(lines[i].skip(2));
                &&& words.len() < 2 ==> model::session_id(sdp) is None
                &&& words.len() >= 2 ==> model::session_id(sdp) == Some(words[1])
            }
        }),
{
    reveal_strlit("o=");
    let lines = text::split(sdp, '\n');
    let begins = |line: Seq<char>| text::has_prefix(line, model::origin_prefix());
    assert forall|line: Seq<char>| #[trigger] begins(line) <==> tells_origin(line) by {
        if tells_origin(line) {
            assert(line.take(2) =~= "o="@);
        }
        if begins(line) {
            assert(line.take(2)[0] == "o="@[0] && line.take(2)[1] == "o="@[1]);
        }
    }
    seqs::lemma_first_where(lines, begins);
    if 0 <= i < lines.len() && tells_origin(lines[i]) && (forall|j: int|
        0 <= j < i ==> !tells_origin(#[trigger] lines[j])) {
        assert(begins(lines[i]));
        assert forall|j: int| 0 <= j < i implies !begins(#[trigger] lines[j]) by {
            assert(!tells_origin(lines[j]));
        }
        assert(seqs::is_first(lines, begins, i));
        seqs::lemma_first(lines, begins, i);
    } else if forall|j: int| 0 <= j < lines.len() ==> !tells_origin(#[trigger] lines[j]) {
        assert forall|j: int| 0 <= j < lines.len() implies !begins(#[trigger] lines[j]) by {
            assert(!tells_origin(lines[j]));
        }
        seqs::lemma_no_first(lines, begins);
    }
}

} // verus!
