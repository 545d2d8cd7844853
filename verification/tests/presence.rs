use std::collections::HashMap;

use base64::engine::general_purpose::STANDARD as BASE64;
use base64::Engine;
use clarity::clock::{Timestamp, NANOS_PER_SECOND};
use clarity::presence::{
    new_challenge, verify_identity, verify_identity_for_hosts, Notice, PresenceAuthError,
    PresenceCommand, PresenceState, REQUEST_TTL,
};
use clarity::protocol::{FriendPresence, HostedRoom, PresenceServerMessage, SharingState};
use ring::signature::KeyPair;

const A: &str = "clr-AAAA-AAAA";
const B: &str = "clr-BBBB-BBBB";

fn at() -> Timestamp {
    1_700_000_000 * NANOS_PER_SECOND
}

/// A moment past the time that a request lives.
fn past_ttl() -> Timestamp {
    at() + REQUEST_TTL + NANOS_PER_SECOND
}

/// What each connection was told and has not read yet.
struct Inboxes {
    waiting: Vec<Notice>,
}

impl Inboxes {
    fn new() -> Self {
        Inboxes { waiting: Vec::new() }
    }

    fn read(&mut self, state: &mut PresenceState, session: u64) -> Vec<PresenceServerMessage> {
        self.waiting.extend(state.take_outgoing());
        let mut read = Vec::new();
        let mut rest = Vec::new();
        for notice in self.waiting.drain(..) {
            if notice.session == session {
                read.push(notice.message);
            } else {
                rest.push(notice);
            }
        }
        self.waiting = rest;
        read
    }

    /// The presences that a connection was told, the last one of each friend.
    fn view(&mut self, state: &mut PresenceState, session: u64) -> HashMap<String, FriendPresence> {
        let mut map = HashMap::new();
        for message in self.read(state, session) {
            match message {
                PresenceServerMessage::Snapshot { friends, .. } => {
                    for friend in friends {
                        map.insert(friend.code.clone(), friend);
                    }
                }
                PresenceServerMessage::Update { friend, .. } => {
                    map.insert(friend.code.clone(), friend);
                }
                _ => {}
            }
        }
        map
    }

    /// The last requests that a connection was told.
    fn last_requests(&mut self, state: &mut PresenceState, session: u64) -> Option<Vec<String>> {
        let mut last = None;
        for message in self.read(state, session) {
            if let PresenceServerMessage::Requests { codes, .. } = message {
                last = Some(codes);
            }
        }
        last
    }
}

#[test]
fn mutual_friends_see_each_other_online() {
    let mut state = PresenceState::new();
    let mut inboxes = Inboxes::new();
    state.connect(1, A.to_owned());
    state.connect(2, B.to_owned());

    // A adds B first: not yet mutual, so A sees nobody.
    state.subscribe(1, vec![B.to_owned()], at());
    assert!(inboxes.view(&mut state, 1).is_empty());
    assert!(inboxes.view(&mut state, 2).is_empty());

    // B adds A back: now mutual. Each sees the other online.
    state.subscribe(2, vec![A.to_owned()], at());
    let a_view = inboxes.view(&mut state, 1);
    assert_eq!(a_view.get(B).map(|p| p.online), Some(true));
    let b_view = inboxes.view(&mut state, 2);
    assert_eq!(b_view.get(A).map(|p| p.online), Some(true));
}

#[test]
fn one_sided_subscription_reveals_a_request_but_no_presence() {
    let mut state = PresenceState::new();
    let mut inboxes = Inboxes::new();
    state.connect(1, A.to_owned());
    state.connect(2, B.to_owned());

    // A watches B, but B never adds A.
    state.subscribe(1, vec![B.to_owned()], at());
    assert!(inboxes.view(&mut state, 1).is_empty(), "A must not see an unrequited add");
    // B is told who is waiting, and learns nothing of A's presence.
    let mut b_presence = 0;
    let mut b_requests = None;
    for message in inboxes.read(&mut state, 2) {
        match message {
            PresenceServerMessage::Snapshot { friends, .. } => b_presence += friends.len(),
            PresenceServerMessage::Update { .. } => b_presence += 1,
            PresenceServerMessage::Requests { codes, .. } => b_requests = Some(codes),
            _ => {}
        }
    }
    assert_eq!(b_presence, 0, "B sees no presence from an unrequited add");
    assert_eq!(b_requests, Some(vec![A.to_owned()]));
}

#[test]
fn a_request_waits_for_a_target_that_subscribes_later() {
    let mut state = PresenceState::new();
    let mut inboxes = Inboxes::new();
    state.connect(1, A.to_owned());
    state.subscribe(1, vec![B.to_owned()], at());
    // A leaves; the standing interest survives the disconnect.
    state.disconnect(1, at());

    state.connect(2, B.to_owned());
    state.subscribe(2, Vec::new(), at());
    assert_eq!(inboxes.last_requests(&mut state, 2), Some(vec![A.to_owned()]));
}

#[test]
fn adding_back_clears_the_request_on_both_sides() {
    let mut state = PresenceState::new();
    let mut inboxes = Inboxes::new();
    state.connect(1, A.to_owned());
    state.connect(2, B.to_owned());

    state.subscribe(1, vec![B.to_owned()], at());
    assert_eq!(inboxes.last_requests(&mut state, 2), Some(vec![A.to_owned()]));

    // B accepts by adding A: neither side has a pending request any more.
    state.subscribe(2, vec![A.to_owned()], at());
    assert_eq!(inboxes.last_requests(&mut state, 2), Some(Vec::new()));
    assert_eq!(inboxes.last_requests(&mut state, 1), Some(Vec::new()));
}

#[test]
fn withdrawing_the_subscription_withdraws_the_request() {
    let mut state = PresenceState::new();
    let mut inboxes = Inboxes::new();
    state.connect(1, A.to_owned());
    state.connect(2, B.to_owned());

    state.subscribe(1, vec![B.to_owned()], at());
    assert_eq!(inboxes.last_requests(&mut state, 2), Some(vec![A.to_owned()]));

    // A cancels the invite by resubscribing without B.
    state.subscribe(1, Vec::new(), at());
    assert_eq!(inboxes.last_requests(&mut state, 2), Some(Vec::new()));
}

#[test]
fn an_unanswered_request_ages_out() {
    let mut state = PresenceState::new();
    let mut inboxes = Inboxes::new();
    state.connect(1, A.to_owned());
    state.subscribe(1, vec![B.to_owned()], at());
    state.disconnect(1, at());

    state.connect(2, B.to_owned());
    state.subscribe(2, Vec::new(), past_ttl());
    assert_eq!(inboxes.last_requests(&mut state, 2), Some(Vec::new()));
}

#[test]
fn the_sweep_withdraws_an_aged_request_live() {
    let mut state = PresenceState::new();
    let mut inboxes = Inboxes::new();
    state.connect(1, A.to_owned());
    state.connect(2, B.to_owned());
    state.subscribe(1, vec![B.to_owned()], at());
    state.subscribe(2, Vec::new(), at());
    state.disconnect(1, at());
    assert_eq!(inboxes.last_requests(&mut state, 2), Some(vec![A.to_owned()]));

    state.expire_requests(past_ttl());
    assert_eq!(inboxes.last_requests(&mut state, 2), Some(Vec::new()));
}

#[test]
fn resubscribing_does_not_restart_an_invite_clock() {
    let mut state = PresenceState::new();
    let mut inboxes = Inboxes::new();
    state.connect(1, A.to_owned());
    state.subscribe(1, vec![B.to_owned()], at());
    state.disconnect(1, at());

    state.connect(3, A.to_owned());
    state.subscribe(3, vec![B.to_owned()], past_ttl());

    state.connect(2, B.to_owned());
    state.subscribe(2, Vec::new(), past_ttl());
    assert_eq!(inboxes.last_requests(&mut state, 2), Some(Vec::new()));
}

#[test]
fn an_accepted_pair_outlives_the_ttl_and_unfriending_invites_nobody() {
    let mut state = PresenceState::new();
    let mut inboxes = Inboxes::new();
    state.connect(1, A.to_owned());
    state.connect(2, B.to_owned());
    state.subscribe(1, vec![B.to_owned()], at());
    state.subscribe(2, vec![A.to_owned()], at());
    state.expire_requests(past_ttl());
    assert_eq!(inboxes.view(&mut state, 2).get(A).map(|p| p.online), Some(true));

    // A drops B much later; B's interest in A is long past the TTL, so A sees
    // no invite from the friend it just removed.
    state.subscribe(1, Vec::new(), past_ttl());
    assert_eq!(inboxes.last_requests(&mut state, 1), Some(Vec::new()));
}

#[test]
fn a_contact_removed_while_offline_withdraws_the_request() {
    let mut state = PresenceState::new();
    let mut inboxes = Inboxes::new();
    state.connect(1, A.to_owned());
    state.subscribe(1, vec![B.to_owned()], at());
    state.disconnect(1, at());

    // A removed B while offline, then reconnects without B.
    state.connect(3, A.to_owned());
    state.subscribe(3, Vec::new(), at());

    state.connect(2, B.to_owned());
    state.subscribe(2, Vec::new(), at());
    assert_eq!(inboxes.last_requests(&mut state, 2), Some(Vec::new()));
}

#[test]
fn a_reconnect_without_the_contact_clears_the_request_live() {
    let mut state = PresenceState::new();
    let mut inboxes = Inboxes::new();
    state.connect(1, A.to_owned());
    state.connect(2, B.to_owned());
    state.subscribe(1, vec![B.to_owned()], at());
    state.subscribe(2, Vec::new(), at());
    assert_eq!(inboxes.last_requests(&mut state, 2), Some(vec![A.to_owned()]));

    state.disconnect(1, at());
    state.connect(3, A.to_owned());
    state.subscribe(3, Vec::new(), at());
    assert_eq!(inboxes.last_requests(&mut state, 2), Some(Vec::new()));
}

#[test]
fn hosting_and_disconnect_propagate_to_mutual_friends() {
    let mut state = PresenceState::new();
    let mut inboxes = Inboxes::new();
    state.connect(1, A.to_owned());
    state.connect(2, B.to_owned());
    state.subscribe(1, vec![B.to_owned()], at());
    state.subscribe(2, vec![A.to_owned()], at());
    let _ = inboxes.view(&mut state, 2);

    // A starts sharing: B sees the hosted room.
    let room = HostedRoom {
        room_id: "room1".to_owned(),
        viewer_url: "https://host/r/room1#secret".to_owned(),
        viewer_count: 3,
        sharing_state: SharingState::Live,
    };
    state.announce(1, Some(room.clone()), at());
    assert_eq!(
        inboxes.view(&mut state, 2).get(A).and_then(|p| p.hosting.clone()),
        Some(room)
    );

    // The room changes: B sees the count and the sharing state.
    state.room_updated("room1", 5, SharingState::Paused, at());
    let updated = inboxes.view(&mut state, 2);
    let hosting = updated.get(A).and_then(|p| p.hosting.clone()).expect("hosting");
    assert_eq!(hosting.viewer_count, 5);
    assert_eq!(hosting.sharing_state, SharingState::Paused);

    // The room closes: B sees A stop hosting.
    state.room_closed("room1", at());
    let closed = inboxes.view(&mut state, 2);
    assert!(closed.get(A).is_some_and(|p| p.hosting.is_none() && p.online));

    // A disconnects: B sees it go offline with a last-seen time.
    state.disconnect(1, at() + 30 * NANOS_PER_SECOND);
    let gone = inboxes.view(&mut state, 2);
    assert_eq!(gone.get(A).map(|p| p.online), Some(false));
    // The update is stamped at the moment when it happened.
    assert_eq!(gone.get(A).and_then(|p| p.last_seen_seconds_ago), Some(0));
}

fn key_pair() -> ring::signature::Ed25519KeyPair {
    let rng = ring::rand::SystemRandom::new();
    let pkcs8 = ring::signature::Ed25519KeyPair::generate_pkcs8(&rng).expect("keygen");
    ring::signature::Ed25519KeyPair::from_pkcs8(pkcs8.as_ref()).expect("from pkcs8")
}

#[test]
fn verify_identity_round_trips_a_real_signature() {
    let key_pair = key_pair();
    let public_key = BASE64.encode(key_pair.public_key().as_ref());
    let challenge = new_challenge();
    let signature = BASE64.encode(key_pair.sign(challenge.as_bytes()).as_ref());

    let proven = verify_identity(&public_key, &signature, &challenge).expect("verifies");
    assert_eq!(proven, key_pair.public_key().as_ref());
    // A signature over a different challenge must fail.
    assert!(verify_identity(&public_key, &signature, "other").is_err());
}

#[test]
fn host_bound_signatures_verify_only_for_their_host_and_context() {
    let key_pair = key_pair();
    let public_key = BASE64.encode(key_pair.public_key().as_ref());
    let nonce = new_challenge();
    let payload = |context: &str, host: &str| format!("{context}\n{host}\n{nonce}");
    let signed = payload("presence", "example.test:3000");
    let signature = BASE64.encode(key_pair.sign(signed.as_bytes()).as_ref());

    let hosts = ["other.test", "example.test:3000"];
    let payloads: Vec<String> = hosts.iter().map(|host| payload("presence", host)).collect();
    let proven = verify_identity_for_hosts(&public_key, &signature, &payloads)
        .expect("verifies against its own host");
    assert_eq!(proven, key_pair.public_key().as_ref());

    // The same signature bound to a host that the server does not answer to,
    // or presented in the other context, must fail.
    let foreign = vec![payload("presence", "evil.test")];
    assert!(verify_identity_for_hosts(&public_key, &signature, &foreign).is_err());
    let other: Vec<String> = hosts.iter().map(|host| payload("room-auth", host)).collect();
    assert!(verify_identity_for_hosts(&public_key, &signature, &other).is_err());
}

#[test]
fn malformed_identities_are_told_from_bad_signatures() {
    let key_pair = key_pair();
    let public_key = BASE64.encode(key_pair.public_key().as_ref());
    let signature = BASE64.encode(key_pair.sign(b"said").as_ref());
    assert_eq!(
        verify_identity("not base64!", &signature, "said"),
        Err(PresenceAuthError::Malformed)
    );
    assert_eq!(
        verify_identity(&public_key, "not base64!", "said"),
        Err(PresenceAuthError::Malformed)
    );
    assert_eq!(
        verify_identity(&BASE64.encode([7_u8; 31]), &signature, "said"),
        Err(PresenceAuthError::Malformed)
    );
    assert_eq!(
        verify_identity(&public_key, &signature, "unsaid"),
        Err(PresenceAuthError::BadSignature)
    );
    assert_eq!(
        verify_identity_for_hosts(&public_key, &signature, &Vec::new()),
        Err(PresenceAuthError::BadSignature)
    );
}

#[test]
fn challenges_are_thirty_two_fresh_bytes() {
    let first = new_challenge();
    let second = new_challenge();
    assert_ne!(first, second);
    assert_eq!(BASE64.decode(first).expect("base64").len(), 32);
}

#[test]
fn commands_do_what_the_methods_do() {
    let mut state = PresenceState::new();
    let mut inboxes = Inboxes::new();
    state.perform(PresenceCommand::Connect { id: 1, code: A.to_owned() }, at());
    state.perform(PresenceCommand::Connect { id: 2, code: B.to_owned() }, at());
    state.perform(PresenceCommand::Subscribe { id: 1, codes: vec![B.to_owned()] }, at());
    state.perform(PresenceCommand::Subscribe { id: 2, codes: vec![A.to_owned()] }, at());
    assert_eq!(inboxes.view(&mut state, 1).get(B).map(|p| p.online), Some(true));
    state.perform(PresenceCommand::Disconnect { id: 2 }, at());
    assert_eq!(inboxes.view(&mut state, 1).get(B).map(|p| p.online), Some(false));
}

#[test]
fn a_second_device_keeps_an_identity_online() {
    let mut state = PresenceState::new();
    let mut inboxes = Inboxes::new();
    state.connect(1, A.to_owned());
    state.connect(2, B.to_owned());
    state.connect(3, B.to_owned());
    state.subscribe(1, vec![B.to_owned()], at());
    state.subscribe(2, vec![A.to_owned()], at());
    state.subscribe(3, vec![A.to_owned()], at());
    let _ = inboxes.view(&mut state, 1);
    state.disconnect(2, at());
    assert_ne!(inboxes.view(&mut state, 1).get(B).map(|p| p.online), Some(false));
    state.disconnect(3, at());
    assert_eq!(inboxes.view(&mut state, 1).get(B).map(|p| p.online), Some(false));
}

/// Who is told of whom, over all that waits to be delivered.
fn disclosed(state: &mut PresenceState) -> Vec<(u64, String)> {
    let mut pairs = Vec::new();
    for notice in state.take_outgoing() {
        match notice.message {
            PresenceServerMessage::Snapshot { friends, .. } => {
                pairs.extend(friends.into_iter().map(|friend| (notice.session, friend.code)));
            }
            PresenceServerMessage::Update { friend, .. } => {
                pairs.push((notice.session, friend.code));
            }
            _ => {}
        }
    }
    pairs
}

#[test]
fn every_command_discloses_presence_to_friends_alone() {
    let stranger = "clr-CCCC-CCCC";
    let mut state = PresenceState::new();
    state.connect(1, A.to_owned());
    state.connect(2, B.to_owned());
    state.connect(3, stranger.to_owned());
    // The stranger watches both, and neither watches the stranger.
    state.subscribe(3, vec![A.to_owned(), B.to_owned()], at());
    assert!(disclosed(&mut state).is_empty());
    state.subscribe(1, vec![B.to_owned()], at());
    assert!(disclosed(&mut state).is_empty());
    state.subscribe(2, vec![A.to_owned()], at());
    let mut told = disclosed(&mut state);
    told.sort();
    assert_eq!(told, [(1, B.to_owned()), (2, A.to_owned())]);
    let hosting = HostedRoom {
        room_id: "room".to_owned(),
        viewer_url: "https://host/r/room#key".to_owned(),
        viewer_count: 0,
        sharing_state: SharingState::Live,
    };
    state.announce(1, Some(hosting), at());
    assert_eq!(disclosed(&mut state), [(2, A.to_owned())]);
    state.disconnect(1, at());
    assert_eq!(disclosed(&mut state), [(2, A.to_owned())]);
    state.expire_requests(past_ttl());
    assert!(disclosed(&mut state).is_empty());
}

#[test]
fn the_sweep_leaves_live_requests_as_they_are() {
    let mut state = PresenceState::new();
    let mut inboxes = Inboxes::new();
    state.connect(1, A.to_owned());
    state.connect(2, B.to_owned());
    state.subscribe(1, vec![B.to_owned()], at());
    state.subscribe(2, Vec::new(), at());
    assert_eq!(inboxes.last_requests(&mut state, 2), Some(vec![A.to_owned()]));
    state.expire_requests(at() + NANOS_PER_SECOND);
    assert_eq!(inboxes.last_requests(&mut state, 2), None);
    state.subscribe(2, Vec::new(), at() + NANOS_PER_SECOND);
    assert_eq!(inboxes.last_requests(&mut state, 2), Some(vec![A.to_owned()]));
}
