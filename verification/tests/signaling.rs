use base64::engine::general_purpose::STANDARD as BASE64;
use base64::Engine;
use clarity::client::presence::{
    announce_message, hello_message, subscribe_message, HostingAnnouncement, PresenceAction,
    PresenceCommand, PresenceConfig, PresenceEvent, PresenceMachine, PresenceState,
};
use clarity::client::signaling::{
    ice_refresh_delay, ice_refresh_retry, identity_reply, is_user_intent, new_request_id,
    reconnect_base_millis, refresh_delay_until, ClientFrame, Reaction, SessionIdentity,
    SignalingCommand, SignalingMachine,
};
use clarity::clock::NANOS_PER_SECOND;
use clarity::crypto::Secret;
use clarity::protocol::{
    ClientMessage, ErrorCode, FriendPresence, HostedRoom, IceConfiguration, PeerRole,
    PresenceClientMessage, PresenceServerMessage, RoomAccessPolicy, RoomLifecycle, RoomSnapshot,
    ServerMessage, SharingState,
};

#[test]
fn user_intent_messages_are_queued_reactive_signaling_is_not() {
    let intent = ClientMessage::ViewerApprove { peer_id: "peer".into() };
    assert!(is_user_intent(&intent));
    let reactive = ClientMessage::SignalIceRestart { destination_peer_id: "peer".into() };
    assert!(!is_user_intent(&reactive));
}

#[test]
fn request_ids_are_fresh() {
    assert_ne!(new_request_id(), new_request_id());
    let id: Vec<char> = new_request_id().chars().collect();
    assert_eq!(id.len(), 36);
    for (at, c) in id.iter().enumerate() {
        match at {
            8 | 13 | 18 | 23 => assert_eq!(*c, '-'),
            14 => assert_eq!(*c, '4'),
            19 => assert!(matches!(c, '8' | '9' | 'a' | 'b')),
            _ => assert!(matches!(c, '0'..='9' | 'a'..='f')),
        }
    }
}

#[test]
fn reconnects_back_off_up_to_ten_seconds() {
    assert_eq!(reconnect_base_millis(0), 500);
    assert_eq!(reconnect_base_millis(1), 1_000);
    assert_eq!(reconnect_base_millis(3), 4_000);
    assert_eq!(reconnect_base_millis(5), 10_000);
    assert_eq!(reconnect_base_millis(50), 10_000);
}

#[test]
fn ice_configurations_are_refreshed_a_minute_before_they_expire() {
    let now = 1_700_000_000 * NANOS_PER_SECOND;
    assert_eq!(ice_refresh_delay("2023-11-14T22:33:20Z", now), 1_140 * NANOS_PER_SECOND);
    assert_eq!(ice_refresh_delay("2023-11-14T22:13:00Z", now), 5 * NANOS_PER_SECOND);
    assert_eq!(ice_refresh_delay("soon", now), ice_refresh_retry());
    assert_eq!(ice_refresh_retry(), 60 * NANOS_PER_SECOND);
    assert_eq!(refresh_delay_until(None, now), ice_refresh_retry());
}

#[test]
fn identities_answer_in_base64() {
    let identity = SessionIdentity { public_key: vec![1; 32] };
    assert_eq!(
        identity_reply(&identity, &vec![2; 64]),
        ClientMessage::AuthIdentity {
            public_key: BASE64.encode([1; 32]),
            signature: BASE64.encode([2; 64]),
        }
    );
}

fn authentication() -> ClientFrame {
    ClientFrame {
        request_id: "auth-1".to_owned(),
        message: ClientMessage::AuthViewer {
            room_id: "room-1".to_owned(),
            viewer_secret: "secret".to_owned(),
            display_name: Some("Native".to_owned()),
        },
    }
}

fn machine() -> SignalingMachine {
    SignalingMachine::new("room-1".to_owned(), authentication(), false)
}

fn snapshot() -> RoomSnapshot {
    RoomSnapshot {
        room_id: "room-1".to_owned(),
        lifecycle: RoomLifecycle::Open,
        sharing_state: SharingState::Idle,
        access_policy: RoomAccessPolicy::Public,
        maximum_viewers: 4,
        expires_at: "2026-01-01T00:00:00Z".to_owned(),
        expires_in_seconds: 60,
        presenter_connected: true,
        pending_viewers: Vec::new(),
        approved_viewers: Vec::new(),
    }
}

fn succeeded(token: &str) -> ServerMessage {
    ServerMessage::AuthSucceeded {
        request_id: "auth-1".to_owned(),
        server_timestamp: "2026-01-01T00:00:01Z".to_owned(),
        room_id: "room-1".to_owned(),
        peer_id: "peer-1".to_owned(),
        role: PeerRole::Viewer,
        resume_token: token.to_owned(),
        resume_expires_at: "2026-01-01T00:01:00Z".to_owned(),
        snapshot: snapshot(),
        ice_configuration: IceConfiguration {
            expires_at: "2026-01-01T01:00:00Z".to_owned(),
            ice_servers: Vec::new(),
        },
    }
}

fn approval(request_id: &str) -> ClientFrame {
    ClientFrame {
        request_id: request_id.to_owned(),
        message: ClientMessage::ViewerApprove { peer_id: "viewer-1".to_owned() },
    }
}

fn pong() -> ClientFrame {
    ClientFrame {
        request_id: "reactive".to_owned(),
        message: ClientMessage::SignalIceRestart { destination_peer_id: "peer".to_owned() },
    }
}

#[test]
fn a_session_authenticates_answers_heartbeats_and_resumes() {
    let mut machine = machine();
    assert_eq!(machine.opening("resume-req".to_owned()), authentication());
    machine.connected();
    let ping = ServerMessage::HeartbeatPing {
        server_timestamp: "2026-01-01T00:00:01Z".to_owned(),
        nonce: "nonce-1".to_owned(),
    };
    assert_eq!(
        machine.on_message(ping),
        Reaction::Reply {
            message: ClientMessage::HeartbeatPong { nonce: "nonce-1".to_owned() },
        }
    );
    assert_eq!(
        machine.on_message(succeeded("resume-1")),
        Reaction::Replay { frames: Vec::new(), message: succeeded("resume-1") }
    );
    assert_eq!(machine.replayed(0), Reaction::Wait);

    assert_eq!(machine.lost(), 0);
    assert_eq!(
        machine.opening("resume-req".to_owned()),
        ClientFrame {
            request_id: "resume-req".to_owned(),
            message: ClientMessage::SessionResume {
                room_id: "room-1".to_owned(),
                resume_token: "resume-1".to_owned(),
            },
        }
    );
    assert_eq!(
        machine.on_command(SignalingCommand::Disconnect { send_leave: true }),
        Reaction::Stop { send_leave: true }
    );
}

#[test]
fn a_refused_resume_falls_back_and_replays_intent() {
    let mut machine = machine();
    machine.connected();
    machine.on_message(succeeded("resume-1"));
    machine.replayed(0);
    machine.lost();
    assert_eq!(
        machine.on_command_offline(SignalingCommand::Send { frame: approval("approve-1") }),
        Reaction::Redial
    );
    machine.connected();
    let expired = ServerMessage::Error {
        request_id: Some("resume-req".to_owned()),
        server_timestamp: "2026-01-01T00:01:00Z".to_owned(),
        code: ErrorCode::SessionExpired,
        message: "The resumable session has expired; authenticate again.".to_owned(),
    };
    assert_eq!(machine.on_message(expired), Reaction::Redial);
    assert_eq!(machine.opening("resume-req".to_owned()), authentication());
    machine.connected();
    assert_eq!(
        machine.on_message(succeeded("resume-2")),
        Reaction::Replay {
            frames: vec![approval("approve-1")],
            message: succeeded("resume-2"),
        }
    );
    assert_eq!(machine.replayed(1), Reaction::Wait);
}

#[test]
fn frames_wait_for_authentication() {
    let mut machine = machine();
    machine.connected();
    assert_eq!(
        machine.on_command(SignalingCommand::Send { frame: pong() }),
        Reaction::Wait
    );
    assert_eq!(
        machine.on_command(SignalingCommand::Send { frame: approval("a") }),
        Reaction::Wait
    );
    assert_eq!(
        machine.on_message(succeeded("t")),
        Reaction::Replay {
            frames: vec![approval("a"), pong()],
            message: succeeded("t"),
        }
    );
    // The first went out, the second failed.
    assert_eq!(machine.replayed(1), Reaction::Lost);
    machine.lost();
    machine.connected();
    assert_eq!(
        machine.on_message(succeeded("t")),
        Reaction::Replay { frames: Vec::new(), message: succeeded("t") }
    );
}

#[test]
fn intent_that_failed_on_the_wire_is_sent_again() {
    let mut machine = machine();
    machine.connected();
    machine.on_message(succeeded("t"));
    machine.replayed(0);
    let reaction = machine.on_command(SignalingCommand::Send { frame: approval("a") });
    assert_eq!(reaction, Reaction::Forward { frame: approval("a") });
    assert_eq!(machine.forwarded(approval("a"), false), Reaction::Lost);
    machine.lost();
    machine.connected();
    assert_eq!(
        machine.on_message(succeeded("t")),
        Reaction::Replay { frames: vec![approval("a")], message: succeeded("t") }
    );
}

#[test]
fn refusals_of_fresh_credentials_reach_the_host() {
    let mut machine = machine();
    machine.connected();
    let failed = || ServerMessage::AuthFailed {
        request_id: "auth-1".to_owned(),
        server_timestamp: "t".to_owned(),
        code: ErrorCode::AuthenticationFailed,
        message: "no".to_owned(),
    };
    assert_eq!(machine.on_message(failed()), Reaction::Refused { message: failed() });
}

#[test]
fn challenges_need_an_identity() {
    let challenge = || ServerMessage::AuthIdentityChallenge {
        server_timestamp: "t".to_owned(),
        nonce: "n".to_owned(),
    };
    assert_eq!(machine().on_message(challenge()), Reaction::Wait);
    let mut proven = SignalingMachine::new("room-1".to_owned(), authentication(), true);
    assert_eq!(
        proven.on_message(challenge()),
        Reaction::Challenge { nonce: "n".to_owned() }
    );
}

fn hosted() -> HostedRoom {
    HostedRoom {
        room_id: "room".to_owned(),
        viewer_url: "https://host/r/room#v".to_owned(),
        viewer_count: 0,
        sharing_state: SharingState::Idle,
    }
}

#[test]
fn presence_messages_carry_what_they_are_given() {
    let config = PresenceConfig {
        url: "wss://host/api/v1/presence".to_owned(),
        origin: "https://host".to_owned(),
        public_key: vec![3; 32],
    };
    assert_eq!(
        hello_message(&config, &vec![4; 64]),
        PresenceClientMessage::Hello {
            public_key: BASE64.encode([3; 32]),
            signature: BASE64.encode([4; 64]),
        }
    );
    assert_eq!(
        subscribe_message(&vec!["clr-A".to_owned()]),
        PresenceClientMessage::Subscribe { codes: vec!["clr-A".to_owned()] }
    );
    let announcement = HostingAnnouncement {
        room: hosted(),
        presenter_secret: Secret::new("p".to_owned()),
    };
    assert_eq!(
        announce_message(&Some(announcement)),
        PresenceClientMessage::Announce {
            hosting: Some(hosted()),
            presenter_secret: Some("p".to_owned()),
        }
    );
    assert_eq!(
        announce_message(&None),
        PresenceClientMessage::Announce { hosting: None, presenter_secret: None }
    );
}

#[test]
fn presence_intent_is_applied_again_after_a_reconnect() {
    let mut machine = PresenceMachine::new();
    assert_eq!(
        machine.on_command(PresenceCommand::Subscribe(vec!["clr-A".to_owned()])),
        Vec::new()
    );
    machine.connected();
    let challenge = PresenceServerMessage::Challenge {
        server_timestamp: "t".to_owned(),
        nonce: "n".to_owned(),
    };
    assert_eq!(
        machine.on_message(Some(challenge)),
        vec![PresenceAction::Sign { nonce: "n".to_owned() }]
    );
    let ready = || PresenceServerMessage::Ready {
        server_timestamp: "t".to_owned(),
        code: "clr-ME".to_owned(),
    };
    let greeting = machine.on_message(Some(ready()));
    assert!(greeting.contains(&PresenceAction::Emit(PresenceEvent::State(
        PresenceState::Connected
    ))));
    assert!(greeting.contains(&PresenceAction::Send(subscribe_message(&vec![
        "clr-A".to_owned()
    ]))));
    assert!(machine.takes_commands());
    assert_eq!(machine.lost(), 0);
    assert_eq!(machine.lost(), 1);
    machine.connected();
    machine.on_message(Some(PresenceServerMessage::Challenge {
        server_timestamp: "t".to_owned(),
        nonce: "m".to_owned(),
    }));
    assert!(machine.on_message(Some(ready())).contains(&PresenceAction::Send(
        subscribe_message(&vec!["clr-A".to_owned()])
    )));
}

#[test]
fn presence_reports_reach_the_host() {
    let mut machine = PresenceMachine::new();
    machine.connected();
    machine.on_message(Some(PresenceServerMessage::Challenge {
        server_timestamp: "t".to_owned(),
        nonce: "n".to_owned(),
    }));
    machine.on_message(Some(PresenceServerMessage::Ready {
        server_timestamp: "t".to_owned(),
        code: "clr-ME".to_owned(),
    }));
    let friend = FriendPresence {
        code: "clr-A".to_owned(),
        online: true,
        hosting: None,
        last_seen_seconds_ago: None,
    };
    assert_eq!(
        machine.on_message(Some(PresenceServerMessage::Update {
            server_timestamp: "t".to_owned(),
            friend: friend.clone(),
        })),
        vec![PresenceAction::Emit(PresenceEvent::Update(friend))]
    );
    assert_eq!(machine.on_command(PresenceCommand::Stop), vec![PresenceAction::Stopped]);
}
