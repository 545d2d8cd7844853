use clarity::client::presenter::{
    BroadcastEvent, ConnectionState, PresenterAction, PresenterCall, PresenterCommand,
    PresenterEnd, PresenterError, PresenterOutcome, PresenterSession, PresenterSessionConfig,
    PresenterUpdate,
};
use clarity::client::signaling::SignalingState;
use clarity::client::viewer::session::{find_self_approved, sdp_session_id};
use clarity::client::viewer::{
    EndReason, PlaybackEvent, ViewerAction, ViewerCall, ViewerCommand, ViewerError,
    ViewerOutcome, ViewerPhase, ViewerSession, ViewerSessionConfig, ViewerUpdate,
};
use clarity::clock::{Timestamp, NANOS_PER_SECOND};
use clarity::crypto::Secret;
use clarity::protocol::{
    ChatMessage, ClientMessage, ErrorCode, IceConfiguration, PeerRole, PeerSnapshot,
    RoomAccessPolicy, RoomLifecycle, RoomSnapshot, ServerMessage, SharingState, ViewerState,
};

const NOW: Timestamp = 1_700_000_000 * NANOS_PER_SECOND;

fn peer(peer_id: &str, state: ViewerState) -> PeerSnapshot {
    PeerSnapshot {
        peer_id: peer_id.to_owned(),
        display_name: Some(format!("name of {peer_id}")),
        role: PeerRole::Viewer,
        viewer_state: Some(state),
        connected: true,
        joined_at: "2023-11-14T22:13:20Z".to_owned(),
        friend_code: None,
    }
}

fn snapshot(pending: &[&str], approved: &[&str]) -> RoomSnapshot {
    RoomSnapshot {
        room_id: "room".to_owned(),
        lifecycle: RoomLifecycle::Open,
        sharing_state: SharingState::Live,
        access_policy: RoomAccessPolicy::ApprovalRequired,
        maximum_viewers: 4,
        expires_at: "2023-11-14T23:13:20Z".to_owned(),
        expires_in_seconds: 3600,
        presenter_connected: true,
        pending_viewers: pending.iter().map(|id| peer(id, ViewerState::Pending)).collect(),
        approved_viewers: approved.iter().map(|id| peer(id, ViewerState::Approved)).collect(),
    }
}

fn ice() -> IceConfiguration {
    IceConfiguration { expires_at: "2023-11-14T23:13:20Z".to_owned(), ice_servers: Vec::new() }
}

fn authenticated(peer_id: &str, role: PeerRole, snapshot: RoomSnapshot) -> ServerMessage {
    ServerMessage::AuthSucceeded {
        request_id: "auth".to_owned(),
        server_timestamp: "t".to_owned(),
        room_id: "room".to_owned(),
        peer_id: peer_id.to_owned(),
        role,
        resume_token: "token".to_owned(),
        resume_expires_at: "t".to_owned(),
        snapshot,
        ice_configuration: ice(),
    }
}

fn told(snapshot: RoomSnapshot) -> ServerMessage {
    ServerMessage::RoomSnapshot { server_timestamp: "t".to_owned(), snapshot }
}

fn presenter(source: Option<u64>, auto_approve: bool) -> PresenterSession {
    PresenterSession::start(PresenterSessionConfig {
        room_id: "room".to_owned(),
        presenter_secret: Secret::new("secret".to_owned()),
        source,
        display_name: None,
        auto_approve,
    })
}

/// Answers everything that the session asks for, and returns it.
fn grant_all(session: &mut PresenterSession) -> Vec<PresenterCall> {
    let mut asked = Vec::new();
    while let Some(call) = session.asking() {
        asked.push(call);
        assert_eq!(session.answer(None), PresenterOutcome::Continue);
    }
    asked
}

fn hosting(source: Option<u64>, auto_approve: bool, approved: &[&str]) -> PresenterSession {
    let mut session = presenter(source, auto_approve);
    session.handle_message(authenticated("me", PeerRole::Presenter, snapshot(&[], approved)));
    grant_all(&mut session);
    session.take_outgoing();
    session
}

#[test]
fn a_presenter_authenticates_with_its_secret() {
    let config = PresenterSessionConfig {
        room_id: "room".to_owned(),
        presenter_secret: Secret::new("secret".to_owned()),
        source: None,
        display_name: None,
        auto_approve: true,
    };
    assert_eq!(
        config.authentication(),
        ClientMessage::AuthPresenter {
            room_id: "room".to_owned(),
            presenter_secret: "secret".to_owned(),
        }
    );
}

#[test]
fn a_room_that_opens_with_a_capture_starts_live() {
    let mut session = presenter(Some(7), true);
    session.handle_message(authenticated("me", PeerRole::Presenter, snapshot(&[], &["v1"])));
    let asked = grant_all(&mut session);
    assert_eq!(
        asked,
        vec![
            PresenterCall::Start { source: Some(7), configuration: ice() },
            PresenterCall::Add {
                peer_id: "v1".to_owned(),
                display_name: Some("name of v1".to_owned()),
            },
        ]
    );
    let done = session.take_outgoing();
    assert!(done.contains(&PresenterAction::Send {
        message: ClientMessage::RoomUpdateSharingState { sharing_state: SharingState::Live },
    }));
    assert!(done.contains(&PresenterAction::Report {
        update: PresenterUpdate::ViewerJoined {
            peer_id: "v1".to_owned(),
            display_name: Some("name of v1".to_owned()),
        },
    }));
}

#[test]
fn viewer_connections_follow_the_snapshot() {
    let mut session = hosting(None, true, &["v1"]);
    session.handle_message(told(snapshot(&[], &["v2"])));
    let asked = grant_all(&mut session);
    assert_eq!(
        asked,
        vec![PresenterCall::Add {
            peer_id: "v2".to_owned(),
            display_name: Some("name of v2".to_owned()),
        }]
    );
    let done = session.take_outgoing();
    assert!(done.contains(&PresenterAction::RemoveViewer { peer_id: "v1".to_owned() }));
    assert!(done.contains(&PresenterAction::Report {
        update: PresenterUpdate::ViewerLeft { peer_id: "v1".to_owned() },
    }));
}

#[test]
fn waiting_viewers_are_approved_or_reported_once() {
    let mut session = hosting(None, true, &[]);
    session.handle_message(told(snapshot(&["v1"], &[])));
    grant_all(&mut session);
    assert!(session.take_outgoing().contains(&PresenterAction::Send {
        message: ClientMessage::ViewerApprove { peer_id: "v1".to_owned() },
    }));

    let mut session = hosting(None, false, &[]);
    let requested = PresenterAction::Report {
        update: PresenterUpdate::JoinRequested {
            peer_id: "v1".to_owned(),
            display_name: Some("name of v1".to_owned()),
            friend_code: None,
        },
    };
    session.handle_message(told(snapshot(&["v1"], &[])));
    grant_all(&mut session);
    assert!(session.take_outgoing().contains(&requested));
    session.handle_message(told(snapshot(&["v1"], &[])));
    grant_all(&mut session);
    assert!(!session.take_outgoing().contains(&requested));
}

#[test]
fn sharing_starts_pauses_resumes_and_stops() {
    let mut session = hosting(None, true, &[]);
    session.handle_command(PresenterCommand::StartShare { source: 3 });
    assert_eq!(grant_all(&mut session), vec![PresenterCall::Replace { source: 3 }]);
    let live = PresenterAction::Report {
        update: PresenterUpdate::SharingState { state: SharingState::Live },
    };
    assert!(session.take_outgoing().contains(&live));
    session.handle_command(PresenterCommand::PauseShare);
    assert!(session.take_outgoing().contains(&PresenterAction::Pause));
    session.handle_command(PresenterCommand::ResumeShare);
    let done = session.take_outgoing();
    assert!(done.contains(&PresenterAction::Resume));
    assert!(done.contains(&live));
    session.handle_command(PresenterCommand::StopShare);
    assert_eq!(grant_all(&mut session), vec![PresenterCall::Idle]);
    assert!(session.take_outgoing().contains(&PresenterAction::Send {
        message: ClientMessage::RoomUpdateSharingState { sharing_state: SharingState::Idle },
    }));
}

#[test]
fn a_failed_share_is_reported_and_leaves_the_room_idle() {
    let mut session = hosting(None, true, &[]);
    session.handle_command(PresenterCommand::StartShare { source: 3 });
    assert_eq!(session.answer(Some("no capture".to_owned())), PresenterOutcome::Continue);
    let done = session.take_outgoing();
    assert!(done.iter().any(|action| matches!(
        action,
        PresenterAction::Report { update: PresenterUpdate::ShareFailed { message } }
            if message.contains("no capture")
    )));
    assert!(!done.contains(&PresenterAction::Report {
        update: PresenterUpdate::SharingState { state: SharingState::Live },
    }));
}

#[test]
fn a_broken_viewer_is_restarted_and_then_rebuilt() {
    let mut session = hosting(Some(1), true, &["v1"]);
    let failed = |state| BroadcastEvent::ViewerConnection { peer_id: "v1".to_owned(), state };
    session.handle_broadcast(failed(ConnectionState::Failed));
    let done = session.take_outgoing();
    assert!(done.contains(&PresenterAction::RestartIce { peer_id: "v1".to_owned() }));
    assert!(done.contains(&PresenterAction::AwaitRecovery { peer_id: "v1".to_owned() }));
    session.handle_broadcast(failed(ConnectionState::Failed));
    assert!(!session
        .take_outgoing()
        .contains(&PresenterAction::RestartIce { peer_id: "v1".to_owned() }));
    session.rebuild_if_unrecovered("v1".to_owned());
    assert_eq!(
        grant_all(&mut session),
        vec![PresenterCall::Rebuild { peer_id: "v1".to_owned() }]
    );

    session.handle_broadcast(failed(ConnectionState::Failed));
    session.handle_broadcast(failed(ConnectionState::Connected));
    session.rebuild_if_unrecovered("v1".to_owned());
    assert_eq!(session.asking(), None);
}

#[test]
fn a_presenter_forwards_chat_offers_and_candidates() {
    let mut session = hosting(Some(1), true, &["v1"]);
    session.handle_command(PresenterCommand::Chat { text: "hello".to_owned() });
    session.handle_broadcast(BroadcastEvent::Offer {
        peer_id: "v1".to_owned(),
        sdp: "offer".to_owned(),
        ice_restart: false,
    });
    session.handle_message(ServerMessage::SignalAnswer {
        request_id: "r".to_owned(),
        server_timestamp: "t".to_owned(),
        source_peer_id: "v1".to_owned(),
        sdp: "answer".to_owned(),
    });
    session.handle_broadcast(BroadcastEvent::Chat {
        peer_id: "v1".to_owned(),
        message: Some(ChatMessage { sender: "Viewer".to_owned(), text: "hi".to_owned() }),
    });
    let done = session.take_outgoing();
    assert!(done.contains(&PresenterAction::SendChat {
        message: ChatMessage { sender: "Presenter".to_owned(), text: "hello".to_owned() },
    }));
    assert!(done.contains(&PresenterAction::Send {
        message: ClientMessage::SignalOffer {
            destination_peer_id: "v1".to_owned(),
            sdp: "offer".to_owned(),
            ice_restart: false,
        },
    }));
    assert!(done.contains(&PresenterAction::AcceptAnswer {
        peer_id: "v1".to_owned(),
        sdp: "answer".to_owned(),
    }));
    assert!(done.contains(&PresenterAction::Report {
        update: PresenterUpdate::Chat {
            peer_id: "v1".to_owned(),
            sender: "Viewer".to_owned(),
            text: "hi".to_owned(),
        },
    }));
}

#[test]
fn a_presenter_closes_the_room_or_leaves_it() {
    let mut session = hosting(None, true, &[]);
    assert_eq!(session.handle_command(PresenterCommand::CloseRoom), PresenterOutcome::Continue);
    let done = session.take_outgoing();
    assert!(done.contains(&PresenterAction::Send { message: ClientMessage::RoomClose }));
    assert!(done.contains(&PresenterAction::AwaitClose));
    assert_eq!(
        session.handle_message(ServerMessage::RoomClosed { server_timestamp: "t".to_owned() }),
        PresenterOutcome::Ended { end: PresenterEnd::RoomClosed }
    );

    let mut session = hosting(None, true, &[]);
    session.handle_command(PresenterCommand::CloseRoom);
    assert_eq!(
        session.close_timed_out(),
        PresenterOutcome::Ended { end: PresenterEnd::RoomClosed }
    );

    let mut session = hosting(None, true, &[]);
    assert_eq!(
        session.handle_command(PresenterCommand::Leave),
        PresenterOutcome::Ended { end: PresenterEnd::Left }
    );
    let mut session = hosting(None, true, &[]);
    assert_eq!(
        session.commands_closed(),
        PresenterOutcome::Ended { end: PresenterEnd::Left }
    );
    let mut session = hosting(None, true, &[]);
    assert_eq!(
        session.handle_message(ServerMessage::RoomExpired { server_timestamp: "t".to_owned() }),
        PresenterOutcome::Ended { end: PresenterEnd::RoomExpired }
    );
}

#[test]
fn a_presenter_fails_where_the_broadcast_or_the_server_does() {
    let mut session = presenter(None, true);
    let refused = session.handle_message(ServerMessage::AuthFailed {
        request_id: "auth".to_owned(),
        server_timestamp: "t".to_owned(),
        code: ErrorCode::AuthenticationFailed,
        message: "no".to_owned(),
    });
    assert!(matches!(
        refused,
        PresenterOutcome::Failed { error: PresenterError::AuthenticationFailed { .. } }
    ));
    let mut session = presenter(None, true);
    session.handle_message(authenticated("me", PeerRole::Presenter, snapshot(&[], &[])));
    assert!(matches!(
        session.answer(Some("no encoder".to_owned())),
        PresenterOutcome::Failed { .. }
    ));
    let mut session = hosting(None, true, &[]);
    assert!(matches!(
        session.handle_broadcast(BroadcastEvent::Ended { reason: "gone".to_owned() }),
        PresenterOutcome::Failed { .. }
    ));
}

#[test]
fn signaling_states_and_refreshes_are_passed_on() {
    let mut session = hosting(None, true, &[]);
    session.signaling_state(SignalingState::Reconnecting);
    session.refresh_due();
    assert_eq!(
        session.take_outgoing(),
        vec![
            PresenterAction::Report {
                update: PresenterUpdate::Signaling { state: SignalingState::Reconnecting },
            },
            PresenterAction::Send { message: ClientMessage::IceRefresh },
            PresenterAction::RetryRefresh,
        ]
    );
}

fn viewer() -> ViewerSession {
    ViewerSession::start(ViewerSessionConfig {
        room_id: "room".to_owned(),
        viewer_secret: Secret::new("secret".to_owned()),
        display_name: None,
    })
}

fn offer(sdp: &str) -> ServerMessage {
    ServerMessage::SignalOffer {
        request_id: "r".to_owned(),
        server_timestamp: "t".to_owned(),
        source_peer_id: "host".to_owned(),
        sdp: sdp.to_owned(),
        ice_restart: false,
    }
}

fn watching() -> ViewerSession {
    let mut session = viewer();
    session.handle_message(authenticated("v1", PeerRole::Viewer, snapshot(&[], &["v1"])));
    session.handle_message(offer("v=0\no=- 11 1 IN IP4 0.0.0.0\n"));
    while session.asking().is_some() {
        assert_eq!(session.answer(None), ViewerOutcome::Continue);
    }
    session.take_outgoing();
    session
}

#[test]
fn a_viewer_authenticates_waits_negotiates_and_goes_live() {
    let config = ViewerSessionConfig {
        room_id: "room".to_owned(),
        viewer_secret: Secret::new("secret".to_owned()),
        display_name: Some("Me".to_owned()),
    };
    assert_eq!(
        config.authentication(),
        ClientMessage::AuthViewer {
            room_id: "room".to_owned(),
            viewer_secret: "secret".to_owned(),
            display_name: Some("Me".to_owned()),
        }
    );
    let phase = |phase| ViewerAction::Report { update: ViewerUpdate::Phase { phase } };
    let mut session = viewer();
    session.handle_message(authenticated("v1", PeerRole::Viewer, snapshot(&["v1"], &[])));
    assert!(session.take_outgoing().contains(&phase(ViewerPhase::AwaitingApproval)));
    session.handle_message(ServerMessage::ViewerApproved {
        request_id: None,
        server_timestamp: "t".to_owned(),
        peer_id: "v1".to_owned(),
    });
    assert!(session.take_outgoing().contains(&phase(ViewerPhase::Negotiating)));
    session.handle_message(offer("v=0\n"));
    assert_eq!(session.asking(), Some(ViewerCall::Start { configuration: ice() }));
    session.answer(None);
    assert_eq!(session.asking(), Some(ViewerCall::AcceptOffer { sdp: "v=0\n".to_owned() }));
    session.answer(None);
    session.handle_playback(PlaybackEvent::Answer { sdp: "answer".to_owned() }, NOW);
    session.handle_playback(
        PlaybackEvent::ConnectionState { state: ConnectionState::Connected },
        NOW,
    );
    let done = session.take_outgoing();
    assert!(done.contains(&ViewerAction::Send {
        message: ClientMessage::SignalAnswer {
            destination_peer_id: "host".to_owned(),
            sdp: "answer".to_owned(),
        },
    }));
    assert!(done.contains(&phase(ViewerPhase::Live)));
}

#[test]
fn a_rebuilt_presenter_gets_a_new_playback() {
    let mut session = watching();
    session.handle_message(offer("v=0\no=- 11 2 IN IP4 0.0.0.0\n"));
    assert!(matches!(session.asking(), Some(ViewerCall::AcceptOffer { .. })));
    session.answer(None);
    session.handle_message(offer("v=0\no=- 12 1 IN IP4 0.0.0.0\n"));
    assert!(session.take_outgoing().contains(&ViewerAction::ClosePlayback));
    assert!(matches!(session.asking(), Some(ViewerCall::Start { .. })));
}

#[test]
fn session_ids_stand_in_the_origin_line() {
    assert_eq!(
        sdp_session_id("v=0\r\no=- 4611731400430051336 2 IN IP4 127.0.0.1\r\n").as_deref(),
        Some("4611731400430051336")
    );
    assert_eq!(sdp_session_id("v=0\r\ns=-\r\n"), None);
    assert_eq!(sdp_session_id("o=-"), None);
}

#[test]
fn viewers_find_themselves_in_the_snapshot() {
    assert!(find_self_approved(&snapshot(&[], &["v1"]), "v1"));
    assert!(!find_self_approved(&snapshot(&["v1"], &[]), "v1"));
    assert!(!find_self_approved(&snapshot(&[], &["v2"]), "v1"));
}

#[test]
fn a_broken_playback_asks_for_restarts_not_too_often() {
    let restart = ViewerAction::Send {
        message: ClientMessage::SignalIceRestart { destination_peer_id: "host".to_owned() },
    };
    let mut session = watching();
    let broken = PlaybackEvent::ConnectionState { state: ConnectionState::Failed };
    session.handle_playback(broken.clone(), NOW);
    assert!(session.take_outgoing().contains(&restart));
    session.handle_playback(broken, NOW + NANOS_PER_SECOND);
    assert!(!session.take_outgoing().contains(&restart));
    session.handle_command(ViewerCommand::RestartIce, NOW + 2 * NANOS_PER_SECOND);
    assert!(session.take_outgoing().contains(&restart));

    let mut session = watching();
    session.handle_playback(
        PlaybackEvent::ConnectionState { state: ConnectionState::Disconnected },
        NOW,
    );
    assert!(session.take_outgoing().contains(&ViewerAction::AwaitRestartCheck));
    session.restart_check_fired(NOW + 5 * NANOS_PER_SECOND);
    assert!(session.take_outgoing().contains(&restart));
}

#[test]
fn viewers_chat_and_rename() {
    let mut session = watching();
    session.handle_command(ViewerCommand::SetDisplayName { name: "Me".to_owned() }, NOW);
    session.handle_command(ViewerCommand::Chat { text: "hi".to_owned() }, NOW);
    session.handle_playback(
        PlaybackEvent::Chat {
            message: Some(ChatMessage { sender: "Host".to_owned(), text: "yo".to_owned() }),
        },
        NOW,
    );
    session.handle_playback(PlaybackEvent::Chat { message: None }, NOW);
    let done = session.take_outgoing();
    assert!(done.contains(&ViewerAction::Send {
        message: ClientMessage::ViewerUpdateDisplayName { display_name: Some("Me".to_owned()) },
    }));
    assert!(done.contains(&ViewerAction::SendChat {
        message: ChatMessage { sender: "Me".to_owned(), text: "hi".to_owned() },
    }));
    assert!(done.contains(&ViewerAction::Report {
        update: ViewerUpdate::Chat { sender: "Host".to_owned(), text: "yo".to_owned() },
    }));
}

#[test]
fn viewers_end_for_their_reasons() {
    let about = |peer_id: &str| (None::<String>, "t".to_owned(), peer_id.to_owned());
    let (request_id, server_timestamp, peer_id) = about("v1");
    assert_eq!(
        watching().handle_message(ServerMessage::ViewerKicked {
            request_id,
            server_timestamp,
            peer_id,
        }),
        ViewerOutcome::Ended { end: EndReason::Kicked }
    );
    let (request_id, server_timestamp, peer_id) = about("v1");
    assert_eq!(
        watching().handle_message(ServerMessage::ViewerRejected {
            request_id,
            server_timestamp,
            peer_id,
        }),
        ViewerOutcome::Ended { end: EndReason::Rejected }
    );
    assert_eq!(
        watching().handle_message(ServerMessage::RoomClosed { server_timestamp: "t".to_owned() }),
        ViewerOutcome::Ended { end: EndReason::RoomClosed }
    );
    assert_eq!(
        watching().handle_message(ServerMessage::RoomExpired { server_timestamp: "t".to_owned() }),
        ViewerOutcome::Ended { end: EndReason::RoomExpired }
    );
    let mut leaving = watching();
    assert_eq!(
        leaving.handle_command(ViewerCommand::Leave, NOW),
        ViewerOutcome::Ended { end: EndReason::Left }
    );
    assert!(leaving
        .take_outgoing()
        .contains(&ViewerAction::Disconnect { send_leave: true }));
    assert_eq!(
        watching().commands_closed(),
        ViewerOutcome::Ended { end: EndReason::Left }
    );
}

#[test]
fn viewers_fail_where_the_playback_does() {
    let mut session = viewer();
    session.handle_message(authenticated("v1", PeerRole::Viewer, snapshot(&[], &["v1"])));
    session.handle_message(offer("v=0\n"));
    assert_eq!(
        session.answer(Some("no decoder".to_owned())),
        ViewerOutcome::Failed {
            error: ViewerError::PlaybackStart { message: "no decoder".to_owned() },
        }
    );
    assert!(matches!(
        watching().handle_playback(PlaybackEvent::Ended { reason: "gone".to_owned() }, NOW),
        ViewerOutcome::Failed { .. }
    ));
}

#[test]
fn viewers_pass_signaling_states_on() {
    let mut session = watching();
    session.signaling_state(SignalingState::Connected);
    session.refresh_due();
    assert_eq!(
        session.take_outgoing(),
        vec![
            ViewerAction::Report {
                update: ViewerUpdate::Signaling { state: SignalingState::Connected },
            },
            ViewerAction::Send { message: ClientMessage::IceRefresh },
            ViewerAction::RetryRefresh,
        ]
    );
}
