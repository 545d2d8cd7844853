//! What each command, message and event makes a presenter session do.
use vstd::prelude::*;

use super::laws;
use super::model;
use super::model::PresenterModel;
use super::types::{
    BroadcastEventView, ConnectionState, PresenterActionView, PresenterCallView,
    PresenterCommandView, PresenterEnd, PresenterErrorView, PresenterOutcomeView,
    PresenterTaskView, PresenterUpdateView,
};
use crate::client::signaling::SignalingState;
use crate::protocol::{
    ChatMessageView, ClientMessageView, ErrorCode, PeerSnapshotView, RoomSnapshotView,
    ServerMessageView, SharingState,
};
use crate::textset;

verus! {

/// Whether a session did exactly this and is otherwise as it was.
pub open spec fn only_does(
    before: PresenterModel,
    after: PresenterModel,
    actions: Seq<PresenterActionView>,
) -> bool {
    after == (PresenterModel { outgoing: before.outgoing + actions, ..before })
}

/// What a session did between two states, where nothing was taken back.
pub open spec fn done(before: PresenterModel, after: PresenterModel) -> Seq<PresenterActionView> {
    after.outgoing.skip(before.outgoing.len() as int)
}

/// Whether nothing that was done is taken back.
pub open spec fn keeps_done(before: PresenterModel, after: PresenterModel) -> bool {
    &&& before.outgoing.len() <= after.outgoing.len()
    &&& after.outgoing.take(before.outgoing.len() as int) == before.outgoing
}

/// Whether two sets of texts differ in one text at most, which the second has or
/// has not.
pub open spec fn differs_in(
    before: Seq<Seq<char>>,
    after: Seq<Seq<char>>,
    text: Seq<char>,
    member: bool,
) -> bool {
    forall|other: Seq<char>| #[trigger]
        after.contains(other) <==> if other == text {
            member
        } else {
            before.contains(other)
        }
}

proof fn lemma_differs(s: Seq<Seq<char>>, text: Seq<char>)
    ensures
        differs_in(s, textset::without(s, text), text, false),
        differs_in(s, textset::with(s, text), text, true),
        differs_in(s, s.push(text), text, true),
{
    textset::lemma_without(s, text);
    assert forall|other: Seq<char>| #[trigger] s.push(text).contains(other) <==> if other == text {
        true
    } else {
        s.contains(other)
    } by {
        if s.contains(other) {
            let i = choose|i: int| 0 <= i < s.len() && s[i] == other;
            assert(s.push(text)[i] == other);
        }
        assert(s.push(text)[s.len() as int] == text);
        if s.push(text).contains(other) && other != text {
            let i = choose|i: int| 0 <= i < s.push(text).len() && s.push(text)[i] == other;
            assert(s[i] == other);
        }
    }
}

/// What the host decides about a viewer is sent as just that: an approval, a
/// rejection or a removal of that viewer, and nothing besides.
pub proof fn law_decisions_are_sent_as_they_were_made(m: PresenterModel, peer_id: Seq<char>)
    ensures
        ({
            let approved = m.handle_command(PresenterCommandView::ApproveViewer { peer_id }).0;
            let rejected = m.handle_command(PresenterCommandView::RejectViewer { peer_id }).0;
            let kicked = m.handle_command(PresenterCommandView::KickViewer { peer_id }).0;
            &&& only_does(
                PresenterModel { approvals_sent: approved.approvals_sent, ..m },
                approved,
                seq![
                    PresenterActionView::Send {
                        message: ClientMessageView::ViewerApprove { peer_id },
                    },
                ],
            )
            &&& differs_in(m.approvals_sent, approved.approvals_sent, peer_id, true)
            &&& only_does(
                PresenterModel {
                    approvals_sent: rejected.approvals_sent,
                    announced_requests: rejected.announced_requests,
                    ..m
                },
                rejected,
                seq![
                    PresenterActionView::Send {
                        message: ClientMessageView::ViewerReject { peer_id },
                    },
                ],
            )
            &&& differs_in(m.approvals_sent, rejected.approvals_sent, peer_id, false)
            &&& differs_in(m.announced_requests, rejected.announced_requests, peer_id, false)
            &&& only_does(
                m,
                kicked,
                seq![
                    PresenterActionView::Send {
                        message: ClientMessageView::ViewerKick { peer_id },
                    },
                ],
            )
        }),
{
    lemma_differs(m.approvals_sent, peer_id);
    lemma_differs(m.announced_requests, peer_id);
    let sent = |message: ClientMessageView| PresenterActionView::Send { message };
    assert(m.outgoing.push(sent(ClientMessageView::ViewerKick { peer_id })) =~= m.outgoing + seq![
        sent(ClientMessageView::ViewerKick { peer_id }),
    ]);
    assert(m.outgoing.push(sent(ClientMessageView::ViewerReject { peer_id })) =~= m.outgoing + seq![
        sent(ClientMessageView::ViewerReject { peer_id }),
    ]);
    assert(m.outgoing.push(sent(ClientMessageView::ViewerApprove { peer_id })) =~= m.outgoing
        + seq![sent(ClientMessageView::ViewerApprove { peer_id })]);
}

/// Chat goes to the broadcast under the host's name, or waits for one; a new name
/// counts from then on.
pub proof fn law_chat_is_said_under_the_name(m: PresenterModel, text: Seq<char>, name: Seq<char>)
    ensures
        ({
            let message = ChatMessageView { sender: m.display_name, text };
            let said = m.handle_command(PresenterCommandView::Chat { text }).0;
            if m.has_broadcast {
                only_does(m, said, seq![PresenterActionView::SendChat { message }])
            } else {
                said == (PresenterModel { pending_chat: m.pending_chat.push(message), ..m })
            }
        }),
        m.handle_command(PresenterCommandView::SetDisplayName { name }).0 == (PresenterModel {
            display_name: name,
            ..m
        }),
{
    let message = ChatMessageView { sender: m.display_name, text };
    assert(m.outgoing.push(PresenterActionView::SendChat { message }) =~= m.outgoing + seq![
        PresenterActionView::SendChat { message },
    ]);
}

/// What is said and shown when the way of sharing changes.
pub open spec fn sharing_news(state: SharingState) -> Seq<PresenterActionView> {
    seq![
        PresenterActionView::Send {
            message: ClientMessageView::RoomUpdateSharingState { sharing_state: state },
        },
        PresenterActionView::Report { update: PresenterUpdateView::SharingState { state } },
    ]
}

/// Starting a share, or switching to another source, puts the source into the
/// running broadcast; before the broadcast the source is kept for it, and the
/// room is live at once. A running share pauses and a paused one resumes, and
/// neither does anything else. Stopping idles the broadcast, or drops the source
/// that was kept.
pub proof fn law_sharing_follows_the_host(m: PresenterModel, source: u64)
    ensures
        ({
            let started = m.handle_command(PresenterCommandView::StartShare { source }).0;
            let switched = m.handle_command(PresenterCommandView::SwitchSource { source }).0;
            let paused = m.handle_command(PresenterCommandView::PauseShare).0;
            let resumed = m.handle_command(PresenterCommandView::ResumeShare).0;
            let stopped = m.handle_command(PresenterCommandView::StopShare).0;
            &&& switched == started
            &&& m.has_broadcast ==> started == (PresenterModel {
                asking: Some(PresenterCallView::Replace { source }),
                ..m
            })
            &&& !m.has_broadcast ==> only_does(
                PresenterModel { source: Some(source), sharing: SharingState::Live, ..m },
                started,
                sharing_news(SharingState::Live),
            )
            &&& if m.sharing == SharingState::Live && m.has_broadcast {
                only_does(
                    PresenterModel { sharing: SharingState::Paused, ..m },
                    paused,
                    seq![PresenterActionView::Pause] + sharing_news(SharingState::Paused),
                )
            } else {
                paused == m
            }
            &&& if m.sharing == SharingState::Paused && m.has_broadcast {
                only_does(
                    PresenterModel { sharing: SharingState::Live, ..m },
                    resumed,
                    seq![PresenterActionView::Resume] + sharing_news(SharingState::Live),
                )
            } else {
                resumed == m
            }
            &&& if m.has_broadcast {
                stopped == (PresenterModel { asking: Some(PresenterCallView::Idle), ..m })
            } else {
                only_does(
                    PresenterModel { source: None, sharing: SharingState::Idle, ..m },
                    stopped,
                    sharing_news(SharingState::Idle),
                )
            }
        }),
{
    let started = m.handle_command(PresenterCommandView::StartShare { source }).0;
    let paused = m.handle_command(PresenterCommandView::PauseShare).0;
    let resumed = m.handle_command(PresenterCommandView::ResumeShare).0;
    let stopped = m.handle_command(PresenterCommandView::StopShare).0;
    if !m.has_broadcast {
        assert(started.outgoing =~= m.outgoing + sharing_news(SharingState::Live));
        assert(stopped.outgoing =~= m.outgoing + sharing_news(SharingState::Idle));
    }
    if m.sharing == SharingState::Live && m.has_broadcast {
        assert(paused.outgoing =~= m.outgoing + (seq![PresenterActionView::Pause] + sharing_news(
            SharingState::Paused,
        )));
    }
    if m.sharing == SharingState::Paused && m.has_broadcast {
        assert(resumed.outgoing =~= m.outgoing + (seq![PresenterActionView::Resume] + sharing_news(
            SharingState::Live,
        )));
    }
}

/// Once the source is in, the room is live; once the broadcast idles, the room
/// shows nothing. Either way the broadcast runs on and both sides are told. What
/// failed is shown with the reason, and the room is shared as before.
pub proof fn law_a_changed_source_is_announced(m: PresenterModel, error: Option<Seq<char>>)
    requires
        m.agenda.len() == 0,
        m.asking matches Some(call) && (call is Replace || call is Idle),
    ensures
        ({
            let (after, outcome) = m.answered(error);
            let state = if m.asking->0 is Replace {
                SharingState::Live
            } else {
                SharingState::Idle
            };
            &&& outcome == PresenterOutcomeView::Continue
            &&& match error {
                None => only_does(
                    PresenterModel { asking: None, sharing: state, ..m },
                    after,
                    seq![PresenterActionView::Resume] + sharing_news(state),
                ),
                Some(message) => only_does(
                    PresenterModel { asking: None, ..m },
                    after,
                    seq![
                        PresenterActionView::Report {
                            update: PresenterUpdateView::ShareFailed { message },
                        },
                    ],
                ),
            }
        }),
{
    let after = m.answered(error).0;
    let state = if m.asking->0 is Replace {
        SharingState::Live
    } else {
        SharingState::Idle
    };
    match error {
        None => {
            assert(after.outgoing =~= m.outgoing + (seq![PresenterActionView::Resume]
                + sharing_news(state)));
        },
        Some(message) => {
            assert(after.outgoing =~= m.outgoing + seq![
                PresenterActionView::Report { update: PresenterUpdateView::ShareFailed { message } },
            ]);
        },
    }
}

/// What ends a session: the broadcast is closed where it runs, and the connection
/// is given up without leaving the room.
pub open spec fn ending(m: PresenterModel) -> Seq<PresenterActionView> {
    if m.has_broadcast {
        seq![
            PresenterActionView::CloseBroadcast,
            PresenterActionView::Disconnect { send_leave: false },
        ]
    } else {
        seq![PresenterActionView::Disconnect { send_leave: false }]
    }
}

/// Whether a session has ended between two states.
pub open spec fn ended(before: PresenterModel, after: PresenterModel) -> bool {
    only_does(
        PresenterModel {
            has_broadcast: false,
            active_viewers: Seq::empty(),
            recovering: Seq::empty(),
            ..before
        },
        after,
        ending(before),
    )
}

/// Closing the room is asked of the server each time, and waited for once.
/// Leaving ends the session and leaves the room to the server's grace window.
pub proof fn law_closing_asks_and_leaving_ends(m: PresenterModel)
    ensures
        ({
            let closed = m.handle_command(PresenterCommandView::CloseRoom);
            let left = m.handle_command(PresenterCommandView::Leave);
            let request = PresenterActionView::Send { message: ClientMessageView::RoomClose };
            &&& closed.1 == PresenterOutcomeView::Continue
            &&& only_does(
                PresenterModel { closing: true, ..m },
                closed.0,
                if m.closing {
                    seq![request]
                } else {
                    seq![request, PresenterActionView::AwaitClose]
                },
            )
            &&& left.1 == (PresenterOutcomeView::Ended { end: PresenterEnd::Left })
            &&& ended(m, left.0)
        }),
{
    let request = PresenterActionView::Send { message: ClientMessageView::RoomClose };
    let closed = m.handle_command(PresenterCommandView::CloseRoom).0;
    assert(closed.outgoing =~= m.outgoing + if m.closing {
        seq![request]
    } else {
        seq![request, PresenterActionView::AwaitClose]
    });
    lemma_ending(m);
}

proof fn lemma_ending(m: PresenterModel)
    ensures
        ended(m, m.finish_broadcast().emit(PresenterActionView::Disconnect { send_leave: false })),
{
    let after = m.finish_broadcast().emit(PresenterActionView::Disconnect { send_leave: false });
    assert(after.outgoing =~= m.outgoing + ending(m));
}

/// The session ends with the room: closed where the room closed, expired where its
/// time was up, whether the server says so outright or as a refusal. A failed
/// authentication closes the broadcast and fails with the server's words.
pub proof fn law_the_session_ends_with_the_room(m: PresenterModel, message: ServerMessageView)
    ensures
        ({
            let (after, outcome) = m.handle_message(message);
            &&& (message is RoomClosed || (message matches ServerMessageView::Error { code, .. }
                && code == ErrorCode::RoomClosed)) ==> ended(m, after) && outcome == (
            PresenterOutcomeView::Ended { end: PresenterEnd::RoomClosed })
            &&& (message is RoomExpired || (message matches ServerMessageView::Error { code, .. }
                && code == ErrorCode::RoomExpired)) ==> ended(m, after) && outcome == (
            PresenterOutcomeView::Ended { end: PresenterEnd::RoomExpired })
            &&& message matches ServerMessageView::AuthFailed { message: words, .. } ==> {
                &&& outcome == (PresenterOutcomeView::Failed {
                    error: PresenterErrorView::AuthenticationFailed { message: words },
                })
                &&& !after.has_broadcast
                &&& after.outgoing == if m.has_broadcast {
                    m.outgoing.push(PresenterActionView::CloseBroadcast)
                } else {
                    m.outgoing
                }
            }
            &&& outcome == PresenterOutcomeView::Continue <==> !(message is RoomClosed || message
                is RoomExpired || message is AuthFailed || (
            message matches ServerMessageView::Error { code, .. } && (code == ErrorCode::RoomClosed
                || code == ErrorCode::RoomExpired)))
        }),
{
    lemma_ending(m);
}

/// What a viewer's signaling says reaches the broadcast as it is, for that viewer:
/// its answer, and its candidates at their line, the first where they name none.
/// Without a broadcast it is dropped.
pub proof fn law_viewers_signals_reach_the_broadcast(m: PresenterModel, message: ServerMessageView)
    ensures
        message matches ServerMessageView::SignalAnswer { source_peer_id, sdp, .. } ==> if m.has_broadcast {
            only_does(
                m,
                m.handle_message(message).0,
                seq![PresenterActionView::AcceptAnswer { peer_id: source_peer_id, sdp }],
            )
        } else {
            m.handle_message(message).0 == m
        },
        message matches ServerMessageView::SignalIceCandidate {
            source_peer_id,
            candidate,
            sdp_m_line_index,
            ..
        } ==> if m.has_broadcast {
            only_does(
                m,
                m.handle_message(message).0,
                seq![
                    PresenterActionView::AddCandidate {
                        peer_id: source_peer_id,
                        sdp_m_line_index: match sdp_m_line_index {
                            Some(index) => index as u32,
                            None => 0,
                        },
                        candidate,
                    },
                ],
            )
        } else {
            m.handle_message(message).0 == m
        },
        message matches ServerMessageView::ViewerDisplayNameUpdated { peer_id, display_name, .. }
            ==> if m.has_broadcast {
            only_does(
                m,
                m.handle_message(message).0,
                seq![PresenterActionView::NameViewer { peer_id, display_name }],
            )
        } else {
            m.handle_message(message).0 == m
        },
        message matches ServerMessageView::IceConfiguration { configuration, .. } ==> only_does(
            m,
            m.handle_message(message).0,
            if m.has_broadcast {
                seq![
                    PresenterActionView::ScheduleRefresh { expires_at: configuration.expires_at },
                    PresenterActionView::SetIce { configuration },
                ]
            } else {
                seq![PresenterActionView::ScheduleRefresh { expires_at: configuration.expires_at }]
            },
        ),
{
    let after = m.handle_message(message).0;
    match message {
        ServerMessageView::SignalAnswer { source_peer_id, sdp, .. } => {
            if m.has_broadcast {
                assert(after.outgoing =~= m.outgoing + seq![
                    PresenterActionView::AcceptAnswer { peer_id: source_peer_id, sdp },
                ]);
            }
        },
        ServerMessageView::SignalIceCandidate {
            source_peer_id,
            candidate,
            sdp_m_line_index,
            ..
        } => {
            if m.has_broadcast {
                assert(after.outgoing =~= m.outgoing + seq![after.outgoing.last()]);
            }
        },
        ServerMessageView::ViewerDisplayNameUpdated { .. } => {
            if m.has_broadcast {
                assert(after.outgoing =~= m.outgoing + seq![after.outgoing.last()]);
            }
        },
        ServerMessageView::IceConfiguration { configuration, .. } => {
            let scheduled = PresenterActionView::ScheduleRefresh {
                expires_at: configuration.expires_at,
            };
            if m.has_broadcast {
                assert(after.outgoing =~= m.outgoing + seq![
                    scheduled,
                    PresenterActionView::SetIce { configuration },
                ]);
            } else {
                assert(after.outgoing =~= m.outgoing + seq![scheduled]);
            }
        },
        _ => {},
    }
}

/// A viewer that left or was removed loses its connection, and the host is told
/// if it had one. Whoever asks later under its identifier is a new request.
pub proof fn law_departed_viewers_lose_their_connection(
    m: PresenterModel,
    message: ServerMessageView,
    peer_id: Seq<char>,
)
    requires
        ({
            ||| message matches ServerMessageView::ViewerLeft { peer_id: gone, .. } && gone == peer_id
            ||| message matches ServerMessageView::ViewerKicked { peer_id: gone, .. } && gone
                == peer_id
        }),
    ensures
        ({
            let after = m.handle_message(message).0;
            &&& differs_in(m.active_viewers, after.active_viewers, peer_id, false)
            &&& differs_in(m.recovering, after.recovering, peer_id, false)
            &&& differs_in(m.announced_requests, after.announced_requests, peer_id, false)
            &&& differs_in(m.approvals_sent, after.approvals_sent, peer_id, false)
            &&& only_does(
                PresenterModel {
                    active_viewers: after.active_viewers,
                    recovering: after.recovering,
                    announced_requests: after.announced_requests,
                    approvals_sent: after.approvals_sent,
                    ..m
                },
                after,
                if !m.active_viewers.contains(peer_id) {
                    Seq::empty()
                } else if m.has_broadcast {
                    seq![
                        PresenterActionView::RemoveViewer { peer_id },
                        PresenterActionView::Report {
                            update: PresenterUpdateView::ViewerLeft { peer_id },
                        },
                    ]
                } else {
                    seq![
                        PresenterActionView::Report {
                            update: PresenterUpdateView::ViewerLeft { peer_id },
                        },
                    ]
                },
            )
        }),
{
    lemma_differs(m.active_viewers, peer_id);
    lemma_differs(m.recovering, peer_id);
    lemma_differs(m.announced_requests, peer_id);
    lemma_differs(m.approvals_sent, peer_id);
    let after = m.handle_message(message).0;
    let left = PresenterActionView::Report { update: PresenterUpdateView::ViewerLeft { peer_id } };
    if !m.active_viewers.contains(peer_id) {
        assert(after.outgoing =~= m.outgoing + Seq::<PresenterActionView>::empty());
    } else if m.has_broadcast {
        assert(after.outgoing =~= m.outgoing + seq![
            PresenterActionView::RemoveViewer { peer_id },
            left,
        ]);
    } else {
        assert(after.outgoing =~= m.outgoing + seq![left]);
    }
}

/// Whoever asks to join is shown to the host once, by name and friend code, and
/// approved at once where the host wants it so.
pub proof fn law_requests_are_shown_and_answered(m: PresenterModel, message: ServerMessageView)
    requires
        message is ViewerPending,
    ensures
        ({
            let viewer = message->ViewerPending_viewer;
            let (after, outcome) = m.handle_message(message);
            let approves = m.auto_approve && !m.approvals_sent.contains(viewer.peer_id);
            let shows = !m.announced_requests.contains(viewer.peer_id);
            let approval = PresenterActionView::Send {
                message: ClientMessageView::ViewerApprove { peer_id: viewer.peer_id },
            };
            let request = PresenterActionView::Report {
                update: PresenterUpdateView::JoinRequested {
                    peer_id: viewer.peer_id,
                    display_name: viewer.display_name,
                    friend_code: viewer.friend_code,
                },
            };
            &&& outcome == PresenterOutcomeView::Continue
            &&& only_does(
                PresenterModel {
                    approvals_sent: after.approvals_sent,
                    announced_requests: after.announced_requests,
                    ..m
                },
                after,
                if approves && shows {
                    seq![approval, request]
                } else if approves {
                    seq![approval]
                } else if shows {
                    seq![request]
                } else {
                    Seq::empty()
                },
            )
            &&& approves ==> differs_in(
                m.approvals_sent,
                after.approvals_sent,
                viewer.peer_id,
                true,
            )
            &&& !approves ==> after.approvals_sent == m.approvals_sent
            &&& differs_in(m.announced_requests, after.announced_requests, viewer.peer_id, true)
        }),
{
    let viewer = message->ViewerPending_viewer;
    let after = m.handle_message(message).0;
    lemma_differs(m.approvals_sent, viewer.peer_id);
    lemma_differs(m.announced_requests, viewer.peer_id);
    let approves = m.auto_approve && !m.approvals_sent.contains(viewer.peer_id);
    let shows = !m.announced_requests.contains(viewer.peer_id);
    let approval = PresenterActionView::Send {
        message: ClientMessageView::ViewerApprove { peer_id: viewer.peer_id },
    };
    let request = PresenterActionView::Report {
        update: PresenterUpdateView::JoinRequested {
            peer_id: viewer.peer_id,
            display_name: viewer.display_name,
            friend_code: viewer.friend_code,
        },
    };
    assert(after.outgoing =~= m.outgoing + if approves && shows {
        seq![approval, request]
    } else if approves {
        seq![approval]
    } else if shows {
        seq![request]
    } else {
        Seq::empty()
    });
}

/// A broken connection is recovered by a restart with a deadline, whether the
/// viewer, the host or the broadcast noticed, unless a restart is under way or the
/// viewer has no connection.
pub proof fn law_broken_connections_are_restarted(m: PresenterModel, peer_id: Seq<char>)
    requires
        m.valid(),
    ensures
        ({
            let asked = m.handle_command(PresenterCommandView::RestartIce { peer_id }).0;
            let begins = m.active_viewers.contains(peer_id) && !m.recovering.contains(peer_id);
            &&& !begins ==> asked == m
            &&& begins ==> differs_in(m.recovering, asked.recovering, peer_id, true) && only_does(
                PresenterModel { recovering: asked.recovering, ..m },
                asked,
                seq![
                    PresenterActionView::RestartIce { peer_id },
                    PresenterActionView::AwaitRecovery { peer_id },
                ],
            )
            &&& forall|message: ServerMessageView|
                (message matches ServerMessageView::SignalIceRestart { source_peer_id, .. }
                    && source_peer_id == peer_id) ==> #[trigger] m.handle_message(message).0 == asked
            &&& ({
                let failed = m.handle_broadcast(
                    BroadcastEventView::ViewerConnection {
                        peer_id,
                        state: ConnectionState::Failed,
                    },
                ).0;
                only_does(
                    asked,
                    failed,
                    seq![
                        PresenterActionView::Report {
                            update: PresenterUpdateView::ViewerConnection {
                                peer_id,
                                state: ConnectionState::Failed,
                            },
                        },
                    ],
                )
            })
        }),
{
    lemma_differs(m.recovering, peer_id);
    let asked = m.handle_command(PresenterCommandView::RestartIce { peer_id }).0;
    if m.active_viewers.contains(peer_id) && !m.recovering.contains(peer_id) {
        assert(asked.outgoing =~= m.outgoing + seq![
            PresenterActionView::RestartIce { peer_id },
            PresenterActionView::AwaitRecovery { peer_id },
        ]);
    }
    let failed = m.handle_broadcast(
        BroadcastEventView::ViewerConnection { peer_id, state: ConnectionState::Failed },
    ).0;
    assert(failed.outgoing =~= asked.outgoing + seq![failed.outgoing.last()]);
}

/// A connection that has not recovered when its time is over is taken down and
/// built anew; one that has is left alone. Where it cannot be built, the viewer
/// is gone and the host is told.
pub proof fn law_unrecovered_connections_are_rebuilt(m: PresenterModel, peer_id: Seq<char>)
    requires
        m.valid(),
        m.asking is None,
    ensures
        ({
            let after = m.rebuild_if_unrecovered(peer_id);
            let lost = m.recovering.contains(peer_id);
            &&& differs_in(m.recovering, after.recovering, peer_id, false)
            &&& !lost ==> after == (PresenterModel { recovering: after.recovering, ..m })
            &&& lost ==> only_does(
                PresenterModel {
                    recovering: after.recovering,
                    asking: Some(PresenterCallView::Rebuild { peer_id }),
                    ..m
                },
                after,
                seq![PresenterActionView::RemoveViewer { peer_id }],
            )
            &&& lost ==> forall|error: Option<Seq<char>>|
                ({
                    let answered = #[trigger] after.answered(error).0;
                    match error {
                        None => answered == (PresenterModel { asking: None, ..after }),
                        Some(_) => differs_in(
                            m.active_viewers,
                            answered.active_viewers,
                            peer_id,
                            false,
                        ) && answered.outgoing == after.outgoing.push(
                            PresenterActionView::Report {
                                update: PresenterUpdateView::ViewerLeft { peer_id },
                            },
                        ),
                    }
                })
        }),
{
    lemma_differs(m.recovering, peer_id);
    lemma_differs(m.active_viewers, peer_id);
    let after = m.rebuild_if_unrecovered(peer_id);
    if m.recovering.contains(peer_id) {
        assert(m.active_viewers.contains(peer_id));
        assert(m.has_broadcast);
        assert(after.outgoing =~= m.outgoing + seq![PresenterActionView::RemoveViewer { peer_id }]);
    }
}

/// What the broadcast brings for the room is sent and shown as it is: offers and
/// candidates to their viewer, chat to the host under its sender's name. How a
/// viewer's connection fares is shown, and one that is up is recovering no more.
pub proof fn law_the_broadcast_is_passed_on(m: PresenterModel, event: BroadcastEventView)
    ensures
        ({
            let (after, outcome) = m.handle_broadcast(event);
            &&& event matches BroadcastEventView::Offer { peer_id, sdp, ice_restart } ==> only_does(
                m,
                after,
                seq![
                    PresenterActionView::Send {
                        message: ClientMessageView::SignalOffer {
                            destination_peer_id: peer_id,
                            sdp,
                            ice_restart,
                        },
                    },
                ],
            )
            &&& event matches BroadcastEventView::IceCandidate {
                peer_id,
                candidate,
                sdp_m_line_index,
            } ==> only_does(
                m,
                after,
                seq![
                    PresenterActionView::Send {
                        message: ClientMessageView::SignalIceCandidate {
                            destination_peer_id: peer_id,
                            candidate,
                            sdp_mid: None,
                            sdp_m_line_index: Some(
                                if sdp_m_line_index <= 65535 {
                                    sdp_m_line_index as u16
                                } else {
                                    65535u16
                                },
                            ),
                        },
                    },
                ],
            )
            &&& event matches BroadcastEventView::Chat { peer_id, message } ==> match message {
                None => after == m,
                Some(chat) => only_does(
                    m,
                    after,
                    seq![
                        PresenterActionView::Report {
                            update: PresenterUpdateView::Chat {
                                peer_id,
                                sender: chat.sender,
                                text: chat.text,
                            },
                        },
                    ],
                ),
            }
            &&& event matches BroadcastEventView::ViewerConnection { peer_id, state } ==> {
                let shown = PresenterActionView::Report {
                    update: PresenterUpdateView::ViewerConnection { peer_id, state },
                };
                &&& after.outgoing.len() > 0 && after.outgoing.last() == shown
                &&& state == ConnectionState::Connected ==> differs_in(
                    m.recovering,
                    after.recovering,
                    peer_id,
                    false,
                )
                &&& state != ConnectionState::Connected && state != ConnectionState::Failed
                    ==> after.recovering == m.recovering
                &&& state != ConnectionState::Failed ==> only_does(
                    PresenterModel { recovering: after.recovering, ..m },
                    after,
                    seq![shown],
                )
            }
            &&& event matches BroadcastEventView::Ended { reason } ==> ended(m, after) && outcome
                == (PresenterOutcomeView::Failed {
                error: PresenterErrorView::Broadcast { reason },
            })
            &&& !(event is Ended) ==> outcome == PresenterOutcomeView::Continue
        }),
{
    lemma_ending(m);
    let after = m.handle_broadcast(event).0;
    match event {
        BroadcastEventView::ViewerConnection { peer_id, state } => {
            lemma_differs(m.recovering, peer_id);
            if state != ConnectionState::Failed {
                assert(after.outgoing =~= m.outgoing + seq![after.outgoing.last()]);
            }
        },
        BroadcastEventView::Offer { .. } => {
            assert(after.outgoing =~= m.outgoing + seq![after.outgoing.last()]);
        },
        BroadcastEventView::IceCandidate { .. } => {
            assert(after.outgoing =~= m.outgoing + seq![after.outgoing.last()]);
        },
        BroadcastEventView::Chat { message: Some(_), .. } => {
            assert(after.outgoing =~= m.outgoing + seq![after.outgoing.last()]);
        },
        _ => {},
    }
}

/// Fresh relay credentials are asked for when they are due, and once more if
/// nothing comes; the host is shown how the signaling connection fares.
pub proof fn law_refreshes_and_signaling(m: PresenterModel, state: SignalingState)
    ensures
        only_does(
            m,
            m.refresh_due(),
            seq![
                PresenterActionView::Send { message: ClientMessageView::IceRefresh },
                PresenterActionView::RetryRefresh,
            ],
        ),
        only_does(
            m,
            m.signaling_state(state),
            seq![
                PresenterActionView::Report { update: PresenterUpdateView::Signaling { state } },
            ],
        ),
{
    assert(m.refresh_due().outgoing =~= m.outgoing + seq![
        PresenterActionView::Send { message: ClientMessageView::IceRefresh },
        PresenterActionView::RetryRefresh,
    ]);
    assert(m.signaling_state(state).outgoing =~= m.outgoing + seq![
        PresenterActionView::Report { update: PresenterUpdateView::Signaling { state } },
    ]);
}

/// Whether the host is shown the request of one of these viewers.
pub open spec fn request_shown(
    actions: Seq<PresenterActionView>,
    viewers: Seq<PeerSnapshotView>,
    peer_id: Seq<char>,
) -> bool {
    exists|j: int|
        0 <= j < viewers.len() && (#[trigger] viewers[j]).peer_id == peer_id && actions.contains(
            PresenterActionView::Report {
                update: PresenterUpdateView::JoinRequested {
                    peer_id,
                    display_name: viewers[j].display_name,
                    friend_code: viewers[j].friend_code,
                },
            },
        )
}

/// Whether the approval of a viewer is sent.
pub open spec fn approval_sent(actions: Seq<PresenterActionView>, peer_id: Seq<char>) -> bool {
    actions.contains(
        PresenterActionView::Send { message: ClientMessageView::ViewerApprove { peer_id } },
    )
}

/// What one more action adds to what is shown and sent.
proof fn lemma_more_actions(
    actions: Seq<PresenterActionView>,
    more: Seq<PresenterActionView>,
    viewers: Seq<PeerSnapshotView>,
    last: PeerSnapshotView,
)
    ensures
        forall|p: Seq<char>|
            request_shown(actions, viewers, p) ==> #[trigger] request_shown(
                actions + more,
                viewers.push(last),
                p,
            ),
        forall|p: Seq<char>|
            approval_sent(actions, p) ==> #[trigger] approval_sent(actions + more, p),
        forall|p: Seq<char>| approval_sent(more, p) ==> #[trigger] approval_sent(actions + more, p),
        more.contains(
            PresenterActionView::Report {
                update: PresenterUpdateView::JoinRequested {
                    peer_id: last.peer_id,
                    display_name: last.display_name,
                    friend_code: last.friend_code,
                },
            },
        ) ==> request_shown(actions + more, viewers.push(last), last.peer_id),
{
    let all = actions + more;
    assert forall|action: PresenterActionView|
        actions.contains(action) || more.contains(action) implies #[trigger] all.contains(action) by {
        if actions.contains(action) {
            let k = choose|k: int| 0 <= k < actions.len() && actions[k] == action;
            assert(all[k] == action);
        } else {
            let k = choose|k: int| 0 <= k < more.len() && more[k] == action;
            assert(all[actions.len() + k] == action);
        }
    }
    assert(viewers.push(last)[viewers.len() as int] == last);
    assert forall|p: Seq<char>| request_shown(actions, viewers, p) implies #[trigger] request_shown(
        all,
        viewers.push(last),
        p,
    ) by {
        let j = choose|j: int|
            0 <= j < viewers.len() && (#[trigger] viewers[j]).peer_id == p && actions.contains(
                PresenterActionView::Report {
                    update: PresenterUpdateView::JoinRequested {
                        peer_id: p,
                        display_name: viewers[j].display_name,
                        friend_code: viewers[j].friend_code,
                    },
                },
            );
        assert(viewers.push(last)[j] == viewers[j]);
    }
}

/// Noting who waits appends, and shows and answers each of them.
proof fn lemma_noted(m: PresenterModel, viewers: Seq<PeerSnapshotView>)
    ensures
        ({
            let after = m.note_each(viewers);
            &&& keeps_done(m, after)
            &&& forall|p: Seq<char>| #[trigger]
                after.announced_requests.contains(p) ==> m.announced_requests.contains(p)
                    || request_shown(done(m, after), viewers, p)
            &&& forall|p: Seq<char>| #[trigger]
                after.approvals_sent.contains(p) ==> m.approvals_sent.contains(p) || approval_sent(
                    done(m, after),
                    p,
                )
            &&& forall|i: int|
                0 <= i < viewers.len() ==> after.announced_requests.contains(
                    (#[trigger] viewers[i]).peer_id,
                ) && (m.auto_approve ==> after.approvals_sent.contains(viewers[i].peer_id))
        }),
    decreases viewers.len(),
{
    if viewers.len() > 0 {
        let init = viewers.drop_last();
        let last = viewers.last();
        lemma_noted(m, init);
        let before = m.note_each(init);
        let after = m.note_each(viewers);
        laws::lemma_note_each(m, init);
        assert(after == before.note_pending(last));
        lemma_differs(before.approvals_sent, last.peer_id);
        lemma_differs(before.announced_requests, last.peer_id);
        let more = after.outgoing.skip(before.outgoing.len() as int);
        assert(after.outgoing.take(before.outgoing.len() as int) =~= before.outgoing);
        assert(before.outgoing.take(m.outgoing.len() as int) =~= m.outgoing);
        lemma_keeps_done(m, before, after);
        assert(done(m, after) =~= done(m, before) + more);
        assert(viewers =~= init.push(last));
        lemma_more_actions(done(m, before), more, init, last);
        let request = PresenterActionView::Report {
            update: PresenterUpdateView::JoinRequested {
                peer_id: last.peer_id,
                display_name: last.display_name,
                friend_code: last.friend_code,
            },
        };
        let approval = PresenterActionView::Send {
            message: ClientMessageView::ViewerApprove { peer_id: last.peer_id },
        };
        if !before.announced_requests.contains(last.peer_id) {
            assert(more[more.len() - 1] == request);
        }
        if m.auto_approve && !before.approvals_sent.contains(last.peer_id) {
            assert(more[0] == approval);
        }
        assert forall|i: int| 0 <= i < viewers.len() implies after.announced_requests.contains(
            (#[trigger] viewers[i]).peer_id,
        ) && (m.auto_approve ==> after.approvals_sent.contains(viewers[i].peer_id)) by {
            if i < init.len() {
                assert(init[i] == viewers[i]);
            }
        }
    } else {
        assert(m.outgoing.take(m.outgoing.len() as int) =~= m.outgoing);
    }
}

/// Before the broadcast a snapshot is kept for it. The host is shown when the room
/// expires and everyone who waits and was not shown before; whoever waits is
/// approved where the host wants it so.
pub proof fn law_snapshots_show_who_waits(m: PresenterModel, message: ServerMessageView)
    requires
        message is RoomSnapshot,
        !m.has_broadcast,
    ensures
        ({
            let snapshot = message->RoomSnapshot_snapshot;
            let (after, outcome) = m.handle_message(message);
            let viewers = snapshot.pending_viewers;
            &&& outcome == PresenterOutcomeView::Continue
            &&& after.pending_snapshot == Some(snapshot)
            &&& keeps_done(m, after)
            &&& done(m, after).len() > 0 && done(m, after)[0] == (PresenterActionView::Report {
                update: PresenterUpdateView::RoomExpiry {
                    expires_in_seconds: snapshot.expires_in_seconds,
                },
            })
            &&& forall|i: int|
                0 <= i < viewers.len() ==> {
                    &&& m.announced_requests.contains((#[trigger] viewers[i]).peer_id)
                        || request_shown(done(m, after), viewers, viewers[i].peer_id)
                    &&& m.auto_approve ==> m.approvals_sent.contains(viewers[i].peer_id)
                        || approval_sent(done(m, after), viewers[i].peer_id)
                }
        }),
{
    let snapshot = message->RoomSnapshot_snapshot;
    let viewers = snapshot.pending_viewers;
    let expiry = PresenterActionView::Report {
        update: PresenterUpdateView::RoomExpiry {
            expires_in_seconds: snapshot.expires_in_seconds,
        },
    };
    let first = m.emit(expiry);
    lemma_noted(first, viewers);
    let after = m.handle_message(message).0;
    let noted = first.note_each(viewers);
    assert(after.outgoing == noted.outgoing);
    assert(after.outgoing.take(first.outgoing.len() as int) == first.outgoing);
    assert(after.outgoing[m.outgoing.len() as int] == after.outgoing.take(
        first.outgoing.len() as int,
    )[m.outgoing.len() as int]);
    assert(after.outgoing.take(m.outgoing.len() as int) =~= m.outgoing) by {
        assert forall|k: int| 0 <= k < m.outgoing.len() implies after.outgoing[k] == m.outgoing[k] by {
            assert(after.outgoing.take(first.outgoing.len() as int)[k] == first.outgoing[k]);
        }
    }
    assert(done(m, after) =~= seq![expiry] + done(first, noted));
    assert forall|action: PresenterActionView| #[trigger]
        done(first, noted).contains(action) implies done(m, after).contains(action) by {
        let k = choose|k: int| 0 <= k < done(first, noted).len() && done(first, noted)[k] == action;
        assert(done(m, after)[k + 1] == action);
    }
}

/// An approved viewer gets its name, and a connection if it has none; the host is
/// told once the connection is there, and a viewer that none could be made for
/// has none.
pub proof fn law_approved_viewers_get_a_connection(m: PresenterModel, viewer: PeerSnapshotView)
    requires
        m.asking is None,
        m.agenda.len() == 0,
    ensures
        ({
            let after = m.task(PresenterTaskView::Admit { viewer });
            let peer_id = viewer.peer_id;
            let named = PresenterActionView::NameViewer {
                peer_id,
                display_name: viewer.display_name,
            };
            &&& m.active_viewers.contains(peer_id) ==> only_does(m, after, seq![named])
            &&& !m.active_viewers.contains(peer_id) ==> {
                &&& only_does(
                    PresenterModel {
                        active_viewers: m.active_viewers.push(peer_id),
                        asking: Some(
                            PresenterCallView::Add { peer_id, display_name: viewer.display_name },
                        ),
                        ..m
                    },
                    after,
                    seq![named],
                )
                &&& after.answered(None).0 == (PresenterModel {
                    asking: None,
                    outgoing: after.outgoing.push(
                        PresenterActionView::Report {
                            update: PresenterUpdateView::ViewerJoined {
                                peer_id,
                                display_name: viewer.display_name,
                            },
                        },
                    ),
                    ..after
                })
                &&& forall|reason: Seq<char>|
                    ({
                        let refused = #[trigger] after.answered(Some(reason)).0;
                        &&& differs_in(m.active_viewers, refused.active_viewers, peer_id, false)
                        &&& refused.outgoing == after.outgoing
                        &&& refused.asking is None
                    })
            }
        }),
{
    let after = m.task(PresenterTaskView::Admit { viewer });
    let named = PresenterActionView::NameViewer {
        peer_id: viewer.peer_id,
        display_name: viewer.display_name,
    };
    assert(after.outgoing =~= m.outgoing + seq![named]);
    if !m.active_viewers.contains(viewer.peer_id) {
        lemma_differs(after.active_viewers, viewer.peer_id);
        lemma_differs(m.active_viewers, viewer.peer_id);
    }
}

/// Working through the agenda takes nothing back, and leaves alone who the
/// session is and how it is shared.
proof fn lemma_advance_appends(m: PresenterModel)
    ensures
        keeps_done(m, m.advance()),
        m.advance().self_peer_id == m.self_peer_id,
        m.advance().sharing == m.sharing,
        m.advance().display_name == m.display_name,
        m.advance().pending_chat == m.pending_chat,
        m.advance().source == m.source,
    decreases m.agenda.len(),
{
    if m.asking is None && m.agenda.len() > 0 {
        let taken = PresenterModel { agenda: m.agenda.skip(1), ..m };
        let next = taken.step(m.agenda[0]);
        match m.agenda[0] {
            PresenterTaskView::Note { snapshot } => {
                let first = taken.report(
                    PresenterUpdateView::RoomExpiry {
                        expires_in_seconds: snapshot.expires_in_seconds,
                    },
                );
                lemma_noted(first, snapshot.pending_viewers);
                laws::lemma_note_each(first, snapshot.pending_viewers);
                lemma_keeps_done(m, first, next);
            },
            PresenterTaskView::Settle { approved } => {
                lemma_drops_append(taken, taken.departed(approved));
                laws::lemma_drop_each(taken, taken.departed(approved));
            },
            _ => {
                assert(next.outgoing.take(m.outgoing.len() as int) =~= m.outgoing);
            },
        }
        lemma_advance_appends(next);
        lemma_keeps_done(m, next, next.advance());
    } else {
        assert(m.outgoing.take(m.outgoing.len() as int) =~= m.outgoing);
    }
}

proof fn lemma_keeps_done(a: PresenterModel, b: PresenterModel, c: PresenterModel)
    requires
        keeps_done(b, c),
        a.outgoing.len() <= b.outgoing.len(),
        b.outgoing.take(a.outgoing.len() as int) =~= a.outgoing,
    ensures
        keeps_done(a, c),
{
    assert forall|k: int| 0 <= k < a.outgoing.len() implies c.outgoing[k] == a.outgoing[k] by {
        assert(c.outgoing.take(b.outgoing.len() as int)[k] == b.outgoing[k]);
        assert(b.outgoing.take(a.outgoing.len() as int)[k] == a.outgoing[k]);
    }
    assert(c.outgoing.take(a.outgoing.len() as int) =~= a.outgoing);
}

proof fn lemma_drops_append(m: PresenterModel, peers: Seq<Seq<char>>)
    ensures
        keeps_done(m, m.drop_each(peers)),
        m.drop_each(peers).sharing == m.sharing,
        m.drop_each(peers).has_broadcast == m.has_broadcast,
        forall|i: int|
            0 <= i < peers.len() && m.active_viewers.contains(#[trigger] peers[i]) ==> {
                &&& m.has_broadcast ==> done(m, m.drop_each(peers)).contains(
                    PresenterActionView::RemoveViewer { peer_id: peers[i] },
                )
                &&& done(m, m.drop_each(peers)).contains(
                    PresenterActionView::Report {
                        update: PresenterUpdateView::ViewerLeft { peer_id: peers[i] },
                    },
                )
            },
    decreases peers.len(),
{
    if peers.len() > 0 {
        let init = peers.drop_last();
        let last = peers.last();
        lemma_drops_append(m, init);
        laws::lemma_drop_each(m, init);
        let before = m.drop_each(init);
        let after = m.drop_each(peers);
        assert(after == before.drop_viewer(last));
        assert(after.outgoing.take(before.outgoing.len() as int) =~= before.outgoing);
        lemma_keeps_done(m, before, after);
        let first = done(m, before);
        let all = done(m, after);
        let more = after.outgoing.skip(before.outgoing.len() as int);
        assert(all =~= first + more);
        assert forall|action: PresenterActionView| #[trigger]
            first.contains(action) implies all.contains(action) by {
            let k = choose|k: int| 0 <= k < first.len() && first[k] == action;
            assert(all[k] == action);
        }
        assert forall|i: int| 0 <= i < peers.len() && m.active_viewers.contains(#[trigger] peers[i]) implies {
            &&& m.has_broadcast ==> all.contains(
                PresenterActionView::RemoveViewer { peer_id: peers[i] },
            )
            &&& all.contains(
                PresenterActionView::Report {
                    update: PresenterUpdateView::ViewerLeft { peer_id: peers[i] },
                },
            )
        } by {
            if i < init.len() {
                assert(init[i] == peers[i]);
            } else if init.contains(last) {
                let j = choose|j: int| 0 <= j < init.len() && init[j] == last;
                assert(peers[j] == last);
            } else {
                assert(before.active_viewers.contains(last));
                let left = PresenterActionView::Report {
                    update: PresenterUpdateView::ViewerLeft { peer_id: last },
                };
                if m.has_broadcast {
                    assert(all[first.len() as int] == (PresenterActionView::RemoveViewer {
                        peer_id: last,
                    }));
                }
                assert(all[all.len() - 1] == left);
            }
        }
    } else {
        assert(m.outgoing.take(m.outgoing.len() as int) =~= m.outgoing);
    }
}

/// Whoever has a connection and is not approved any more loses it, and the host is
/// told.
pub proof fn law_the_unapproved_lose_their_connection(
    m: PresenterModel,
    approved: Seq<Seq<char>>,
    peer_id: Seq<char>,
)
    requires
        m.has_broadcast,
        m.active_viewers.contains(peer_id),
    ensures
        ({
            let after = m.task(PresenterTaskView::Settle { approved });
            &&& approved.contains(peer_id) ==> after.active_viewers.contains(peer_id)
            &&& !approved.contains(peer_id) ==> {
                &&& !after.active_viewers.contains(peer_id)
                &&& done(m, after).contains(PresenterActionView::RemoveViewer { peer_id })
                &&& done(m, after).contains(
                    PresenterActionView::Report {
                        update: PresenterUpdateView::ViewerLeft { peer_id },
                    },
                )
            }
        }),
{
    let gone = m.departed(approved);
    crate::seqs::lemma_filter_members(m.active_viewers, |p: Seq<char>| !approved.contains(p));
    lemma_drops_append(m, gone);
    laws::lemma_drop_each(m, gone);
    if !approved.contains(peer_id) {
        assert(gone.contains(peer_id));
        let i = choose|i: int| 0 <= i < gone.len() && gone[i] == peer_id;
        assert(gone[i] == peer_id);
    }
}

/// Once authenticated the session goes by the peer identifier that it was given,
/// and plans to renew its relay credentials. A running broadcast gets the new
/// ones; without one, a broadcast is started with the source that was kept.
pub proof fn law_authentication_brings_relays_up_to_date(
    m: PresenterModel,
    message: ServerMessageView,
)
    requires
        message is AuthSucceeded,
    ensures
        ({
            let configuration = message->AuthSucceeded_ice_configuration;
            let (after, outcome) = m.handle_message(message);
            let plan = PresenterActionView::ScheduleRefresh {
                expires_at: configuration.expires_at,
            };
            &&& outcome == PresenterOutcomeView::Continue
            &&& after.self_peer_id == Some(message->AuthSucceeded_peer_id)
            &&& after.sharing == m.sharing
            &&& keeps_done(m, after)
            &&& done(m, after).len() > 0 && done(m, after)[0] == plan
            &&& m.has_broadcast ==> done(m, after).len() > 1 && done(m, after)[1] == (
            PresenterActionView::SetIce { configuration })
            &&& !m.has_broadcast ==> done(m, after) == seq![plan] && after.asking == Some(
                PresenterCallView::Start { source: m.source, configuration },
            ) && after.source is None
        }),
{
    let configuration = message->AuthSucceeded_ice_configuration;
    let plan = PresenterActionView::ScheduleRefresh { expires_at: configuration.expires_at };
    let known = PresenterModel {
        self_peer_id: Some(message->AuthSucceeded_peer_id),
        pending_snapshot: None,
        ..m
    }.emit(plan);
    let after = m.handle_message(message).0;
    let agenda = m.authenticated_agenda(message->AuthSucceeded_snapshot);
    if m.has_broadcast {
        let refreshed = known.emit(PresenterActionView::SetIce { configuration });
        let cleared = PresenterModel { recovering: Seq::empty(), ..refreshed };
        let all = PresenterModel { agenda, ..cleared.begin_each(m.active_viewers) };
        lemma_begin_each_appends(cleared, m.active_viewers);
        lemma_advance_appends(PresenterModel { agenda, ..refreshed });
        lemma_advance_appends(all);
        laws::lemma_begin_each(cleared, m.active_viewers);
        let fresh = m.self_peer_id is Some && m.self_peer_id != Some(
            message->AuthSucceeded_peer_id,
        );
        if fresh {
            lemma_keeps_done(cleared, all, after);
        }
        assert(keeps_done(refreshed, after));
        let n = m.outgoing.len() as int;
        assert(refreshed.outgoing =~= m.outgoing.push(plan).push(
            PresenterActionView::SetIce { configuration },
        ));
        assert forall|k: int| 0 <= k < n + 2 implies after.outgoing[k] == refreshed.outgoing[k] by {
            assert(after.outgoing.take(refreshed.outgoing.len() as int)[k]
                == refreshed.outgoing[k]);
        }
        assert(after.outgoing.take(n) =~= m.outgoing);
        assert(done(m, after)[0] == after.outgoing[n]);
        assert(done(m, after)[1] == after.outgoing[n + 1]);
    } else {
        assert(done(m, after) =~= seq![plan]);
        assert(after.outgoing.take(m.outgoing.len() as int) =~= m.outgoing);
    }
}

proof fn lemma_begin_each_appends(m: PresenterModel, peers: Seq<Seq<char>>)
    ensures
        keeps_done(m, m.begin_each(peers)),
        m.begin_each(peers).self_peer_id == m.self_peer_id,
        m.begin_each(peers).sharing == m.sharing,
    decreases peers.len(),
{
    if peers.len() > 0 {
        let init = peers.drop_last();
        lemma_begin_each_appends(m, init);
        let before = m.begin_each(init);
        let after = before.begin_recovery(peers.last());
        assert(after.outgoing.take(before.outgoing.len() as int) =~= before.outgoing);
        lemma_keeps_done(m, before, after);
    } else {
        assert(m.outgoing.take(m.outgoing.len() as int) =~= m.outgoing);
    }
}

/// Coming back under another peer identifier, the session offers every viewer that
/// has a connection a restart; under its old one it offers none.
pub proof fn law_a_new_identity_restarts_every_viewer(m: PresenterModel, message: ServerMessageView)
    requires
        m.valid(),
        m.has_broadcast,
        message is AuthSucceeded,
        m.self_peer_id is Some,
        m.self_peer_id != Some(message->AuthSucceeded_peer_id),
    ensures
        forall|i: int|
            0 <= i < m.active_viewers.len() ==> done(m, m.handle_message(message).0).contains(
                PresenterActionView::RestartIce { peer_id: #[trigger] m.active_viewers[i] },
            ),
{
    let configuration = message->AuthSucceeded_ice_configuration;
    let refreshed = PresenterModel {
        self_peer_id: Some(message->AuthSucceeded_peer_id),
        pending_snapshot: None,
        ..m
    }.emit(
        PresenterActionView::ScheduleRefresh { expires_at: configuration.expires_at },
    ).emit(PresenterActionView::SetIce { configuration });
    let cleared = PresenterModel { recovering: Seq::empty(), ..refreshed };
    let begun = cleared.begin_each(m.active_viewers);
    let all = PresenterModel {
        agenda: m.authenticated_agenda(message->AuthSucceeded_snapshot),
        ..begun
    };
    let after = m.handle_message(message).0;
    assert(after == all.advance());
    lemma_advance_appends(all);
    lemma_begin_each_appends(cleared, m.active_viewers);
    lemma_begin_each_restarts(cleared, m.active_viewers);
    assert forall|i: int| 0 <= i < m.active_viewers.len() implies done(m, after).contains(
        PresenterActionView::RestartIce { peer_id: #[trigger] m.active_viewers[i] },
    ) by {
        let action = PresenterActionView::RestartIce { peer_id: m.active_viewers[i] };
        let k = choose|k: int|
            cleared.outgoing.len() <= k < begun.outgoing.len() && #[trigger] begun.outgoing[k]
                == action;
        assert(after.outgoing.take(all.outgoing.len() as int)[k] == all.outgoing[k]);
        assert(done(m, after)[k - m.outgoing.len()] == action);
    }
}

proof fn lemma_begin_each_restarts(m: PresenterModel, peers: Seq<Seq<char>>)
    requires
        m.has_broadcast,
        m.recovering.len() == 0,
        peers.no_duplicates(),
        forall|i: int| 0 <= i < peers.len() ==> m.active_viewers.contains(#[trigger] peers[i]),
    ensures
        forall|i: int|
            0 <= i < peers.len() ==> exists|k: int|
                m.outgoing.len() <= k < m.begin_each(peers).outgoing.len()
                    && #[trigger] m.begin_each(peers).outgoing[k] == (
                PresenterActionView::RestartIce { peer_id: #[trigger] peers[i] }),
    decreases peers.len(),
{
    if peers.len() > 0 {
        let init = peers.drop_last();
        assert forall|i: int| 0 <= i < init.len() implies m.active_viewers.contains(
            #[trigger] init[i],
        ) by {
            assert(init[i] == peers[i]);
        }
        lemma_begin_each_restarts(m, init);
        lemma_begin_each_appends(m, init);
        laws::law_a_fresh_identity_restarts_everyone(m, init);
        laws::lemma_begin_each(m, init);
        let before = m.begin_each(init);
        let after = m.begin_each(peers);
        assert(!init.contains(peers.last())) by {
            if init.contains(peers.last()) {
                let j = choose|j: int| 0 <= j < init.len() && init[j] == peers.last();
                assert(peers[j] == peers[peers.len() - 1]);
            }
        }
        assert(peers[peers.len() - 1] == peers.last());
        assert(after.outgoing.take(before.outgoing.len() as int) =~= before.outgoing);
        assert forall|i: int| 0 <= i < peers.len() implies exists|k: int|
            m.outgoing.len() <= k < after.outgoing.len() && #[trigger] after.outgoing[k] == (
            PresenterActionView::RestartIce { peer_id: #[trigger] peers[i] }) by {
            let action = PresenterActionView::RestartIce { peer_id: peers[i] };
            if i < init.len() {
                assert(init[i] == peers[i]);
                let k = choose|k: int|
                    m.outgoing.len() <= k < before.outgoing.len() && #[trigger] before.outgoing[k]
                        == action;
                assert(after.outgoing[k] == before.outgoing[k]);
            } else {
                assert(after.outgoing[before.outgoing.len() as int] == action);
            }
        }
    }
}

/// Once the broadcast runs, the chat that waited goes out in its order, and the
/// room and the host are told how it is shared. A broadcast that does not start
/// ends the session with the reason.
pub proof fn law_a_started_broadcast_catches_up(m: PresenterModel, message: ServerMessageView)
    requires
        m.valid(),
        m.asking is None,
        !m.has_broadcast,
        message is AuthSucceeded,
    ensures
        ({
            let asked = m.handle_message(message).0;
            let started = asked.answered(None).0;
            let chat = m.pending_chat;
            &&& started.has_broadcast
            &&& started.pending_chat.len() == 0
            &&& keeps_done(asked, started)
            &&& done(asked, started).len() >= chat.len() + 2
            &&& forall|i: int|
                0 <= i < chat.len() ==> done(asked, started)[i] == (PresenterActionView::SendChat {
                    message: #[trigger] chat[i],
                })
            &&& done(asked, started)[chat.len() as int] == sharing_news(m.sharing)[0]
            &&& done(asked, started)[chat.len() as int + 1] == sharing_news(m.sharing)[1]
            &&& forall|reason: Seq<char>|
                ({
                    let (failed, outcome) = #[trigger] asked.answered(Some(reason));
                    &&& outcome == (PresenterOutcomeView::Failed {
                        error: PresenterErrorView::BroadcastStart { message: reason },
                    })
                    &&& !failed.has_broadcast
                    &&& failed.outgoing == asked.outgoing
                })
        }),
{
    let asked = m.handle_message(message).0;
    let snapshot = message->AuthSucceeded_snapshot;
    let running = PresenterModel {
        has_broadcast: true,
        ..PresenterModel { asking: None, ..asked }.flush_chat()
    };
    let started = asked.answered(None).0;
    assert(started == running.advance());
    assert(running.agenda[0] == PresenterTaskView::Converge);
    let taken = PresenterModel { agenda: running.agenda.skip(1), ..running };
    let converged = taken.step(PresenterTaskView::Converge);
    assert(running.advance() == converged.advance());
    lemma_advance_appends(converged);
    laws::lemma_advance_keeps_broadcast(converged);
    let chat = m.pending_chat;
    let n = asked.outgoing.len() as int;
    let said = chat.map_values(|message: ChatMessageView| PresenterActionView::SendChat { message });
    assert(converged.outgoing =~= asked.outgoing + said + sharing_news(m.sharing));
    assert forall|k: int| 0 <= k < converged.outgoing.len() implies started.outgoing[k]
        == converged.outgoing[k] by {
        assert(started.outgoing.take(converged.outgoing.len() as int)[k] == converged.outgoing[k]);
    }
    assert(started.outgoing.take(n) =~= asked.outgoing);
    assert forall|i: int| 0 <= i < chat.len() implies done(asked, started)[i] == (
    PresenterActionView::SendChat { message: #[trigger] chat[i] }) by {
        assert(done(asked, started)[i] == started.outgoing[n + i]);
        assert(said[i] == (PresenterActionView::SendChat { message: chat[i] }));
    }
    assert(done(asked, started)[chat.len() as int] == started.outgoing[n + chat.len()]);
    assert(done(asked, started)[chat.len() as int + 1] == started.outgoing[n + chat.len() + 1]);
}

} // verus!
