use std::sync::atomic::{AtomicU64, Ordering};

use clarity::clock::{Span, Timestamp, NANOS_PER_SECOND};
use clarity::crypto::{secret_as_str, Secret, SecretDigestService};
use clarity::protocol::{
    ErrorCode, PeerRole, RoomAccessPolicy, RoomLifecycle, RoomSnapshot, ServerMessage,
    SharingState, ViewerState,
};
use clarity::room::actor::{open_room, RoomActor, RoomCommand, RoomReply};
use clarity::room::state::{sanitize_display_name, RoomState, SignalingAuthorizationService};
use clarity::room::{
    AuthOutcome, ConnectionIdentity, DomainError, Outgoing, RoomActorConfig, RoomEvent,
    RoutedSignal, SessionHandle,
};
use clarity::textset::TextSet;

fn seconds(count: i128) -> Span {
    count * NANOS_PER_SECOND
}

fn hours(count: i128) -> Span {
    seconds(count * 3600)
}

fn service() -> SecretDigestService {
    SecretDigestService::new(
        Secret::new("room-key-with-at-least-32-bytes-long".to_owned()),
        Secret::new("resume-key-with-at-least-32-bytes".to_owned()),
    )
}

fn fixture() -> (RoomState, SecretDigestService, Secret, Secret, Timestamp) {
    fixture_with_policy(RoomAccessPolicy::ApprovalRequired)
}

fn fixture_with_policy(
    access_policy: RoomAccessPolicy,
) -> (RoomState, SecretDigestService, Secret, Secret, Timestamp) {
    fixture_for(access_policy, &Vec::new())
}

fn fixture_for(
    access_policy: RoomAccessPolicy,
    allowed: &Vec<String>,
) -> (RoomState, SecretDigestService, Secret, Secret, Timestamp) {
    let secrets = service();
    let generated = secrets.generate_room_secrets();
    let presenter = generated.presenter_secret;
    let viewer = generated.viewer_secret;
    let now = seconds(1_700_000_000);
    let room = RoomState::new(
        generated.room_id,
        4,
        access_policy,
        TextSet::of(allowed),
        now,
        now + hours(2),
        secrets.presenter_digest(&presenter),
        secrets.viewer_digest(&viewer),
        secrets.clone(),
        &RoomActorConfig::default(),
    )
    .ok()
    .expect("room");
    (room, secrets, presenter, viewer, now)
}

fn session() -> SessionHandle {
    static NEXT_CONNECTION_ID: AtomicU64 = AtomicU64::new(1);
    SessionHandle {
        connection_id: format!("test-{}", NEXT_CONNECTION_ID.fetch_add(1, Ordering::Relaxed)),
        capacity: 8,
    }
}

fn granted(result: Result<AuthOutcome, DomainError>) -> AuthOutcome {
    result.ok().expect("granted")
}

fn identity(outcome: &AuthOutcome) -> ConnectionIdentity {
    ConnectionIdentity {
        peer_id: outcome.peer_id.clone(),
        connection_id: outcome.connection_id.clone(),
    }
}

fn refused(result: Result<AuthOutcome, DomainError>) -> DomainError {
    result.err().expect("refused")
}

fn messages_to(outgoing: &[Outgoing], connection: &str) -> Vec<ServerMessage> {
    outgoing
        .iter()
        .filter_map(|entry| match entry {
            Outgoing::Deliver { connection_id, message } if connection_id == connection => {
                Some(message.clone())
            }
            _ => None,
        })
        .collect()
}

#[test]
fn superseded_presenter_connection_cannot_disconnect_or_act_for_replacement() {
    let (mut room, _, presenter_secret, _, now) = fixture();
    let first = granted(room.authenticate_presenter(&presenter_secret, session(), now));
    let second = granted(room.authenticate_presenter(&presenter_secret, session(), now));
    let first = identity(&first);
    let second = identity(&second);

    room.disconnect(&first, now);

    assert!(room.snapshot(now).presenter_connected);
    assert_eq!(
        room.ensure_connection(&first).expect_err("superseded connection"),
        DomainError::AuthorizationDenied
    );
    room.ensure_connection(&second).expect("replacement connection");
}

#[test]
fn a_full_outbound_queue_requests_transport_shutdown() {
    let (mut room, _, presenter_secret, viewer_secret, now) =
        fixture_with_policy(RoomAccessPolicy::Public);
    granted(room.authenticate_presenter(
        &presenter_secret,
        SessionHandle { connection_id: "full-queue-test".to_owned(), capacity: 1 },
        now,
    ));

    // The first viewer fills the queue of the presenter.
    granted(room.authenticate_viewer(&viewer_secret, None, None, session(), now));
    // The second one finds it full.
    granted(room.authenticate_viewer(&viewer_secret, None, None, session(), now));

    let closed = room
        .take_outgoing()
        .iter()
        .filter(|entry| {
            matches!(
                entry,
                Outgoing::Close { connection_id } if connection_id == "full-queue-test"
            )
        })
        .count();
    assert_eq!(closed, 1);
    assert!(!room.snapshot(now).presenter_connected);
}

#[test]
fn friends_only_rooms_admit_allowlisted_codes_and_reject_others() {
    let (mut room, _, _, viewer_secret, now) =
        fixture_for(RoomAccessPolicy::FriendsOnly, &vec!["clr-AAAA-AAAA".to_owned()]);

    // No proven identity: the transport must run the identity challenge.
    assert_eq!(
        refused(room.authenticate_viewer(&viewer_secret, None, None, session(), now)),
        DomainError::IdentityRequired
    );
    // A code off the allowlist is refused outright.
    assert_eq!(
        refused(room.authenticate_viewer(
            &viewer_secret,
            None,
            Some("clr-BBBB-BBBB".into()),
            session(),
            now,
        )),
        DomainError::AuthenticationFailed
    );
    // An allowlisted code joins approved immediately, like Public.
    let admitted = granted(room.authenticate_viewer(
        &viewer_secret,
        Some("Friend".into()),
        Some("clr-AAAA-AAAA".into()),
        session(),
        now,
    ));
    let snapshot = room.snapshot(now);
    assert!(snapshot.pending_viewers.is_empty());
    assert_eq!(
        snapshot
            .approved_viewers
            .iter()
            .find(|peer| peer.peer_id == admitted.peer_id)
            .and_then(|peer| peer.friend_code.as_deref()),
        Some("clr-AAAA-AAAA")
    );
}

#[test]
fn late_resume_with_a_valid_token_reports_session_expired() {
    let (mut room, _, presenter_secret, viewer_secret, now) =
        fixture_with_policy(RoomAccessPolicy::Public);
    granted(room.authenticate_presenter(&presenter_secret, session(), now));
    let viewer = granted(room.authenticate_viewer(&viewer_secret, None, None, session(), now));
    room.disconnect(&identity(&viewer), now);

    let late = now + RoomActorConfig::default().viewer_resume_grace + seconds(1);
    assert_eq!(
        refused(room.resume(&viewer.resume_token, session(), late)),
        DomainError::SessionExpired
    );
    // A token that never matched anything stays a plain failure.
    assert_eq!(
        refused(room.resume(&Secret::new("wrong-token".to_owned()), session(), now)),
        DomainError::AuthenticationFailed
    );
}

#[test]
fn display_names_are_normalized_sanitized_and_bounded() {
    assert_eq!(
        sanitize_display_name("  Jamie\u{0}   Example  ").as_deref(),
        Some("Jamie Example")
    );
    assert_eq!(sanitize_display_name(" \n\t "), None);
    assert_eq!(sanitize_display_name(&"x".repeat(100)).expect("name").len(), 48);
}

#[test]
fn presenter_and_viewer_authentication_and_approval_are_deterministic() {
    let (mut room, _, presenter_secret, viewer_secret, now) = fixture();
    let presenter = granted(room.authenticate_presenter(&presenter_secret, session(), now));
    let viewer = granted(room.authenticate_viewer(
        &viewer_secret,
        Some(" Viewer ".into()),
        None,
        session(),
        now,
    ));
    assert_eq!(room.snapshot(now).pending_viewers.len(), 1);
    room.approve(&presenter.peer_id, &viewer.peer_id, "approve".into(), now)
        .expect("approval");
    assert_eq!(room.snapshot(now).pending_viewers.len(), 0);
    assert_eq!(room.snapshot(now).approved_viewers.len(), 1);
}

#[test]
fn public_rooms_auto_admit_invited_viewers_and_enforce_capacity() {
    let (mut room, _, _, viewer_secret, now) = fixture_with_policy(RoomAccessPolicy::Public);
    for index in 0..4 {
        let viewer = granted(room.authenticate_viewer(
            &viewer_secret,
            Some(format!("Viewer {index}")),
            None,
            session(),
            now,
        ));
        assert_eq!(
            viewer
                .snapshot
                .approved_viewers
                .iter()
                .find(|candidate| candidate.peer_id == viewer.peer_id)
                .and_then(|candidate| candidate.viewer_state),
            Some(ViewerState::Approved)
        );
    }
    assert!(room.snapshot(now).pending_viewers.is_empty());
    assert_eq!(room.snapshot(now).approved_viewers.len(), 4);
    assert_eq!(
        refused(room.authenticate_viewer(&viewer_secret, None, None, session(), now)),
        DomainError::RoomFull
    );
}

#[test]
fn viewers_can_set_their_display_name_after_joining() {
    let (mut room, _, presenter_secret, viewer_secret, now) =
        fixture_with_policy(RoomAccessPolicy::Public);
    let presenter = granted(room.authenticate_presenter(&presenter_secret, session(), now));
    let viewer = granted(room.authenticate_viewer(&viewer_secret, None, None, session(), now));

    room.update_viewer_display_name(
        &viewer.peer_id,
        Some("  Jamie   Viewer  ".into()),
        "rename".into(),
        now,
    )
    .expect("rename");

    assert_eq!(
        room.snapshot(now).approved_viewers[0].display_name.as_deref(),
        Some("Jamie Viewer")
    );
    let outgoing = room.take_outgoing();
    let received = messages_to(&outgoing, &viewer.connection_id);
    assert!(matches!(
        received.first().expect("rename acknowledgement"),
        ServerMessage::ViewerDisplayNameUpdated { display_name: Some(name), .. }
            if name == "Jamie Viewer"
    ));
    assert_eq!(
        room.update_viewer_display_name(
            &presenter.peer_id,
            Some("Not a viewer".into()),
            "forbidden".into(),
            now,
        ),
        Err(DomainError::AuthorizationDenied)
    );
}

#[test]
fn capacity_can_drop_below_current_count_without_kicking_existing_viewers() {
    let (mut room, _, presenter_secret, viewer_secret, now) = fixture();
    let presenter = granted(room.authenticate_presenter(&presenter_secret, session(), now));
    for index in 0..2 {
        let viewer = granted(room.authenticate_viewer(
            &viewer_secret,
            Some(format!("Viewer {index}")),
            None,
            session(),
            now,
        ));
        room.approve(&presenter.peer_id, &viewer.peer_id, format!("a{index}"), now)
            .expect("approve");
    }
    room.update_capacity(&presenter.peer_id, 1, "capacity".into(), now).expect("capacity");
    assert_eq!(room.snapshot(now).approved_viewers.len(), 2);
    let third = granted(room.authenticate_viewer(&viewer_secret, None, None, session(), now));
    assert_eq!(
        room.approve(&presenter.peer_id, &third.peer_id, "third".into(), now),
        Err(DomainError::RoomFull)
    );
}

#[test]
fn sharing_state_is_persisted_and_only_the_presenter_can_update_it() {
    let (mut room, _, presenter_secret, viewer_secret, now) =
        fixture_with_policy(RoomAccessPolicy::Public);
    let presenter = granted(room.authenticate_presenter(&presenter_secret, session(), now));
    let viewer = granted(room.authenticate_viewer(&viewer_secret, None, None, session(), now));

    assert_eq!(room.snapshot(now).sharing_state, SharingState::Idle);
    assert_eq!(
        room.update_sharing_state(
            &viewer.peer_id,
            SharingState::Paused,
            "forbidden".into(),
            now,
        ),
        Err(DomainError::AuthorizationDenied)
    );
    room.update_sharing_state(&presenter.peer_id, SharingState::Paused, "pause".into(), now)
        .expect("pause");
    assert_eq!(room.snapshot(now).sharing_state, SharingState::Paused);
}

#[test]
fn viewer_to_viewer_and_wrong_direction_signaling_are_rejected() {
    assert_eq!(
        SignalingAuthorizationService::authorize(
            PeerRole::Viewer,
            PeerRole::Viewer,
            &RoutedSignal::IceRestart
        ),
        Err(DomainError::AuthorizationDenied)
    );
    assert_eq!(
        SignalingAuthorizationService::authorize(
            PeerRole::Viewer,
            PeerRole::Presenter,
            &RoutedSignal::Offer { sdp: "x".into(), ice_restart: false }
        ),
        Err(DomainError::AuthorizationDenied)
    );
    assert_eq!(
        SignalingAuthorizationService::authorize(
            PeerRole::Viewer,
            PeerRole::Presenter,
            &RoutedSignal::IceRestart
        ),
        Ok(())
    );
}

#[test]
fn expired_rooms_reject_authentication() {
    let (mut room, _, presenter_secret, _, now) = fixture();
    let result = room.authenticate_presenter(&presenter_secret, session(), now + hours(3));
    assert_eq!(refused(result), DomainError::RoomExpired);
}

#[test]
fn secret_debug_output_is_redacted() {
    let (room, _, _, _, _) = fixture();
    let output = room.describe();
    assert!(!output.contains("presenter_digest"));
    assert!(!output.contains(secret_as_str(&Secret::new("secret".to_owned()))));
}

#[test]
fn descriptions_name_what_they_show() {
    let (mut room, _, presenter_secret, _, now) = fixture();
    granted(room.authenticate_presenter(&presenter_secret, session(), now));
    assert_eq!(
        room.describe(),
        format!(
            "RoomState {{ room_id: \"{}\", lifecycle: Open, sharing_state: Idle, access_policy: \
             ApprovalRequired, maximum_viewers: 4, created_at: 2023-11-14 22:13:20.0 +00:00:00, \
             expires_at: 2023-11-15 0:13:20.0 +00:00:00, presenter_connected: true, \
             viewer_count: 0 }}",
            room.room_id()
        )
    );
    let outcome = granted(room.authenticate_presenter(&presenter_secret, session(), now));
    assert_eq!(
        outcome.describe(),
        format!(
            "AuthOutcome {{ room_id: \"{}\", peer_id: \"{}\", role: Presenter, resume_token: \
             \"[REDACTED]\", resume_expires_at: 2023-11-14 22:14:20.0 +00:00:00, \
             resumed: false, .. }}",
            outcome.room_id, outcome.peer_id
        )
    );
}

#[test]
fn a_closed_room_is_over_and_says_so() {
    let secrets = service();
    let now = seconds(1_700_000_000);
    let (room, created) = open_room(
        &secrets,
        &RoomActorConfig::default(),
        1,
        hours(1),
        RoomAccessPolicy::Public,
        &Vec::new(),
        now,
    )
    .ok()
    .expect("create");
    let mut actor = RoomActor::new(room, secrets);
    let reply = actor.handle(
        RoomCommand::AuthenticatePresenter {
            credential: created.presenter_secret,
            session: session(),
        },
        now,
    );
    let presenter = match reply {
        RoomReply::Admission(outcome) => granted(outcome),
        _ => panic!("an admission is answered"),
    };
    assert!(!actor.is_over());
    let reply = actor.handle(RoomCommand::Close { source: identity(&presenter) }, now);
    assert!(matches!(reply, RoomReply::Done(Ok(()))));
    assert!(actor.is_over());
    assert_eq!(actor.closing_event(), RoomEvent::Closed { room_id: created.room_id });
}

#[test]
fn capacities_out_of_range_are_refused() {
    let secrets = service();
    let now = seconds(1_700_000_000);
    for viewers in [0, 11] {
        let refusal = open_room(
            &secrets,
            &RoomActorConfig::default(),
            viewers,
            hours(1),
            RoomAccessPolicy::Public,
            &Vec::new(),
            now,
        )
        .err();
        assert_eq!(refusal, Some(DomainError::InvalidCapacity));
    }
}

#[test]
fn wrong_credentials_are_refused() {
    let (mut room, _, presenter_secret, viewer_secret, now) =
        fixture_with_policy(RoomAccessPolicy::Public);
    assert!(room.verify_presenter(&presenter_secret));
    assert!(!room.verify_presenter(&viewer_secret));
    assert_eq!(
        refused(room.authenticate_presenter(&viewer_secret, session(), now)),
        DomainError::AuthenticationFailed
    );
    assert_eq!(
        refused(room.authenticate_viewer(&presenter_secret, None, None, session(), now)),
        DomainError::AuthenticationFailed
    );
}

#[test]
fn a_resumed_viewer_keeps_its_peer_id_and_its_token() {
    let (mut room, _, presenter_secret, viewer_secret, now) =
        fixture_with_policy(RoomAccessPolicy::Public);
    granted(room.authenticate_presenter(&presenter_secret, session(), now));
    let viewer = granted(room.authenticate_viewer(&viewer_secret, None, None, session(), now));
    assert!(!viewer.resumed);
    room.disconnect(&identity(&viewer), now);
    assert_eq!(
        room.snapshot(now).approved_viewers[0].viewer_state,
        Some(ViewerState::Disconnected)
    );

    let resumed = granted(room.resume(&viewer.resume_token, session(), now + seconds(30)));
    assert!(resumed.resumed);
    assert_eq!(resumed.peer_id, viewer.peer_id);
    assert_ne!(resumed.connection_id, viewer.connection_id);
    assert_eq!(secret_as_str(&resumed.resume_token), secret_as_str(&viewer.resume_token));
    assert_eq!(
        refused(room.resume(&presenter_secret, session(), now + seconds(31))),
        DomainError::AuthenticationFailed
    );
}

#[test]
fn rejected_and_kicked_viewers_are_told_and_gone() {
    let (mut room, _, presenter_secret, viewer_secret, now) = fixture();
    let presenter = granted(room.authenticate_presenter(&presenter_secret, session(), now));
    let first = granted(room.authenticate_viewer(&viewer_secret, None, None, session(), now));
    let second = granted(room.authenticate_viewer(&viewer_secret, None, None, session(), now));
    room.take_outgoing();
    room.reject(&presenter.peer_id, &first.peer_id, "r".into(), now).expect("reject");
    room.approve(&presenter.peer_id, &second.peer_id, "a".into(), now).expect("approve");
    room.kick(&presenter.peer_id, &second.peer_id, "k".into(), now).expect("kick");
    let outgoing = room.take_outgoing();
    assert!(messages_to(&outgoing, &first.connection_id)
        .iter()
        .any(|message| matches!(message, ServerMessage::ViewerRejected { .. })));
    assert!(messages_to(&outgoing, &second.connection_id)
        .iter()
        .any(|message| matches!(message, ServerMessage::ViewerKicked { .. })));
    let snapshot = room.snapshot(now);
    assert!(snapshot.pending_viewers.is_empty());
    assert!(snapshot.approved_viewers.is_empty());
    assert_eq!(
        room.kick(&presenter.peer_id, "nobody", "k".into(), now),
        Err(DomainError::ViewerNotFound)
    );
}

#[test]
fn offers_reach_approved_viewers_alone() {
    let (mut room, _, presenter_secret, viewer_secret, now) = fixture();
    let presenter = granted(room.authenticate_presenter(&presenter_secret, session(), now));
    let viewer = granted(room.authenticate_viewer(&viewer_secret, None, None, session(), now));
    let offer = RoutedSignal::Offer { sdp: "v=0".into(), ice_restart: true };
    assert!(room
        .route_signal(
            &presenter.peer_id,
            &viewer.peer_id,
            "early".into(),
            offer.clone(),
            now,
        )
        .is_err());
    room.approve(&presenter.peer_id, &viewer.peer_id, "a".into(), now).expect("approve");
    room.take_outgoing();
    room.route_signal(&presenter.peer_id, &viewer.peer_id, "offer".into(), offer, now)
        .expect("routed");
    let outgoing = room.take_outgoing();
    let received = messages_to(&outgoing, &viewer.connection_id);
    assert!(matches!(
        received.first(),
        Some(ServerMessage::SignalOffer { request_id, source_peer_id, sdp, ice_restart, .. })
            if request_id == "offer" && *source_peer_id == presenter.peer_id && sdp == "v=0"
                && *ice_restart
    ));
}

#[test]
fn closing_tells_everyone_and_ends_the_room() {
    let (mut room, _, presenter_secret, viewer_secret, now) =
        fixture_with_policy(RoomAccessPolicy::Public);
    let presenter = granted(room.authenticate_presenter(&presenter_secret, session(), now));
    let viewer = granted(room.authenticate_viewer(&viewer_secret, None, None, session(), now));
    room.take_outgoing();
    room.close(now, false);
    let outgoing = room.take_outgoing();
    for connection in [&presenter.connection_id, &viewer.connection_id] {
        assert!(messages_to(&outgoing, connection)
            .iter()
            .any(|message| matches!(message, ServerMessage::RoomClosed { .. })));
    }
    assert_eq!(room.lifecycle(), RoomLifecycle::Closed);
    assert_eq!(room.ensure_open(now), Err(DomainError::RoomClosed));
    assert_eq!(
        refused(room.authenticate_viewer(&viewer_secret, None, None, session(), now)),
        DomainError::RoomClosed
    );
}

#[test]
fn stale_pending_viewers_and_overdue_rooms_expire() {
    let (mut room, _, presenter_secret, viewer_secret, now) = fixture();
    granted(room.authenticate_presenter(&presenter_secret, session(), now));
    granted(room.authenticate_viewer(&viewer_secret, None, None, session(), now));
    room.expire_stale(now + seconds(119));
    assert_eq!(room.snapshot(now).pending_viewers.len(), 1);
    room.expire_stale(now + seconds(121));
    assert_eq!(room.snapshot(now).pending_viewers.len(), 0);
    room.expire_stale(now + hours(2));
    assert_eq!(room.lifecycle(), RoomLifecycle::Expired);
}

#[test]
fn a_room_announces_each_change_once() {
    let secrets = service();
    let now = seconds(1_700_000_000);
    let (room, created) = open_room(
        &secrets,
        &RoomActorConfig::default(),
        4,
        hours(1),
        RoomAccessPolicy::Public,
        &Vec::new(),
        now,
    )
    .ok()
    .expect("create");
    let mut actor = RoomActor::new(room, secrets);
    assert_eq!(actor.update(), None);
    actor.handle(
        RoomCommand::AuthenticateViewer {
            credential: created.viewer_secret,
            display_name: None,
            friend_code: None,
            session: session(),
        },
        now,
    );
    assert_eq!(
        actor.update(),
        Some(RoomEvent::Updated {
            room_id: created.room_id.clone(),
            approved_viewers: 1,
            sharing_state: SharingState::Idle,
        })
    );
    actor.mark_announced();
    assert_eq!(actor.update(), None);
    let reply = actor.handle(RoomCommand::Snapshot, now);
    let snapshot: Option<RoomSnapshot> = match reply {
        RoomReply::Snapshot(snapshot) => Some(snapshot),
        _ => None,
    };
    assert_eq!(snapshot.expect("snapshot").expires_in_seconds, 3600);
}

#[test]
fn every_domain_error_has_a_code_and_a_message() {
    assert_eq!(DomainError::RoomFull.code(), ErrorCode::RoomFull);
    assert_eq!(DomainError::AuthorizationDenied.code(), ErrorCode::AuthorizationDenied);
    assert_eq!(DomainError::SessionExpired.code(), ErrorCode::SessionExpired);
    assert!(!DomainError::RoomFull.message().is_empty());
}

#[test]
fn a_refreshed_connection_takes_messages_again() {
    let (mut room, _, presenter_secret, viewer_secret, now) =
        fixture_with_policy(RoomAccessPolicy::Public);
    granted(room.authenticate_presenter(
        &presenter_secret,
        SessionHandle { connection_id: "slow".to_owned(), capacity: 1 },
        now,
    ));
    granted(room.authenticate_viewer(&viewer_secret, None, None, session(), now));
    room.take_outgoing();
    room.refresh("slow", 8);
    granted(room.authenticate_viewer(&viewer_secret, None, None, session(), now));
    let outgoing = room.take_outgoing();
    assert!(!messages_to(&outgoing, "slow").is_empty());
    assert!(room.snapshot(now).presenter_connected);
}

#[test]
fn a_resumed_viewer_keeps_what_it_was_and_changes_nobody_else() {
    let code = "clr-AAAA-AAAA".to_owned();
    let (mut room, _, presenter_secret, viewer_secret, now) =
        fixture_for(RoomAccessPolicy::FriendsOnly, &vec![code.clone()]);
    granted(room.authenticate_presenter(&presenter_secret, session(), now));
    let name = Some("Jamie".to_owned());
    let friend = Some(code.clone());
    let first =
        granted(room.authenticate_viewer(&viewer_secret, name, friend.clone(), session(), now));
    let second =
        granted(room.authenticate_viewer(&viewer_secret, None, friend, session(), now));
    let before = room.snapshot(now).approved_viewers;
    room.disconnect(&identity(&first), now);
    let later = now + seconds(30);
    let resumed = granted(room.resume(&first.resume_token, session(), later));
    let after = room.snapshot(later).approved_viewers;
    assert_eq!(after.len(), 2);
    for peer in &before {
        assert!(after.contains(peer));
    }
    let back = after.iter().find(|peer| peer.peer_id == first.peer_id).expect("the viewer");
    assert_eq!(back.friend_code, Some(code));
    assert_eq!(back.display_name.as_deref(), Some("Jamie"));
    assert_eq!(back.role, PeerRole::Viewer);
    assert!(back.connected);
    assert_eq!(secret_as_str(&resumed.resume_token), secret_as_str(&first.resume_token));
    // The connection that dropped speaks for nobody any more; the new one does.
    room.disconnect(&identity(&first), later);
    assert!(room.snapshot(later).approved_viewers.iter().all(|peer| peer.connected));
    room.disconnect(&identity(&resumed), later);
    let gone = room.snapshot(later).approved_viewers;
    let left: Vec<_> = gone.iter().filter(|peer| peer.connected).collect();
    assert_eq!(left.len(), 1);
    assert_eq!(left[0].peer_id, second.peer_id);
}

#[test]
fn kept_display_names_are_kept_again() {
    for name in ["  Jamie\u{0}   Example  ", "a\u{a0}b\tc", "x"] {
        let kept = sanitize_display_name(name).expect("a name");
        assert_eq!(sanitize_display_name(&kept), Some(kept));
    }
    let full = sanitize_display_name(&"x".repeat(100)).expect("a name");
    assert_eq!(sanitize_display_name(&full), Some(full));
    // A name that is cut at a space loses it the second time.
    let cut = sanitize_display_name(&format!("{} tail", "x".repeat(47))).expect("a name");
    assert_eq!(cut, format!("{} ", "x".repeat(47)));
    assert_eq!(sanitize_display_name(&cut), Some("x".repeat(47)));
}

#[test]
fn a_bad_capacity_is_reported_whatever_the_expiry() {
    let refusal = open_room(
        &service(),
        &RoomActorConfig::default(),
        0,
        i128::MAX,
        RoomAccessPolicy::Public,
        &Vec::new(),
        seconds(1_700_000_000),
    );
    assert_eq!(refusal.err(), Some(DomainError::InvalidCapacity));
}
