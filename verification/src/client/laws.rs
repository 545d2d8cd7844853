//! What can be relied on between a client and its server: the signaling and the
//! presence connection, invitations, addresses, and the creation of rooms.
use vstd::prelude::*;

use crate::client::invite;
use crate::client::invite::{InvitationError, InvitationView};
use crate::client::presence;
use crate::client::presence::{
    HostingAnnouncementView, PresenceActionView, PresenceCommandView, PresenceEventView,
    PresenceMachineView, PresenceState, PresenceStep,
};
use crate::client::rooms;
use crate::client::rooms::{
    CreateRoomResponseView, RoomErrorView, RoomOptionsView, RoomReplyView, ServerEndpointsView,
};
use crate::client::signaling;
use crate::client::signaling::{
    ClientFrameView, ReactionView, SignalingCommandView, SignalingModel,
};
use crate::client::urls;
use crate::client::urls::{UrlHostView, UrlPartsView};
use crate::protocol::{
    ClientMessageView, ErrorCode, PresenceClientMessageView, PresenceServerMessageView,
    ServerMessageView,
};
use crate::seqs;
use crate::text;

verus! {

/// What people decide survives an outage: about the room, about its viewers, about
/// their own name. Credentials, heartbeats and negotiation belong to the
/// connection that they were meant for.
pub proof fn law_decisions_survive_and_negotiation_does_not(message: ClientMessageView)
    ensures
        signaling::carries_intent(message) == match message {
            ClientMessageView::RoomClose => true,
            ClientMessageView::RoomUpdateSharingState { .. } => true,
            ClientMessageView::RoomUpdateCapacity { .. } => true,
            ClientMessageView::ViewerUpdateDisplayName { .. } => true,
            ClientMessageView::ViewerApprove { .. } => true,
            ClientMessageView::ViewerReject { .. } => true,
            ClientMessageView::ViewerKick { .. } => true,
            ClientMessageView::AuthPresenter { .. } => false,
            ClientMessageView::AuthViewer { .. } => false,
            ClientMessageView::AuthIdentity { .. } => false,
            ClientMessageView::SessionResume { .. } => false,
            ClientMessageView::PeerLeave => false,
            ClientMessageView::HeartbeatPong { .. } => false,
            ClientMessageView::SignalOffer { .. } => false,
            ClientMessageView::SignalAnswer { .. } => false,
            ClientMessageView::SignalIceCandidate { .. } => false,
            ClientMessageView::SignalIceRestart { .. } => false,
            ClientMessageView::IceRefresh => false,
        },
{
}

/// The wait before the next attempt starts at half a second, doubles with every
/// attempt, and stops growing at ten seconds.
pub proof fn law_waits_double_up_to_ten_seconds(attempt: nat)
    ensures
        signaling::backoff(0) == 500,
        signaling::backoff(attempt + 1) == if 2 * signaling::backoff(attempt) < 10_000 {
            2 * signaling::backoff(attempt)
        } else {
            10_000
        },
        500 <= signaling::backoff(attempt) <= 10_000,
{
}

/// Relay credentials are renewed a minute before they expire, or in five seconds
/// where that is past or nearer; after a minute where nobody knows when they
/// expire.
pub proof fn law_credentials_are_renewed_in_time(expiry: Option<int>, now: int)
    ensures
        expiry is None ==> signaling::refresh_delay(expiry, now) == 60_000_000_000,
        expiry matches Some(at) ==> ({
            let due = now + signaling::refresh_delay(expiry, now);
            &&& due >= now + 5_000_000_000
            &&& due >= at - 60_000_000_000
            &&& due == now + 5_000_000_000 || due == at - 60_000_000_000
        }),
{
}

/// A heartbeat is answered with its own nonce, and a challenge is put to whoever
/// can sign it. The session is none the wiser.
pub proof fn law_heartbeats_and_challenges_are_answered(
    machine: SignalingModel,
    message: ServerMessageView,
)
    ensures
        message matches ServerMessageView::HeartbeatPing { nonce, .. } ==> machine.on_message(
            message,
        ) == (machine, ReactionView::Reply {
            message: ClientMessageView::HeartbeatPong { nonce },
        }),
        message matches ServerMessageView::AuthIdentityChallenge { nonce, .. }
            ==> machine.on_message(message) == (machine, if machine.has_identity {
            ReactionView::Challenge { nonce }
        } else {
            ReactionView::Wait
        }),
{
}

/// Once authenticated, a session starts counting anew, keeps the token for its next
/// connection, and sends what waited: first what people decided, then the rest,
/// each in its order.
pub proof fn law_authentication_replays_what_waited(
    machine: SignalingModel,
    message: ServerMessageView,
)
    requires
        message is AuthSucceeded,
    ensures
        ({
            let (after, reaction) = machine.on_message(message);
            &&& after == (SignalingModel {
                resume_token: Some(message->AuthSucceeded_resume_token),
                attempt: 0,
                authenticated: true,
                ..machine
            })
            &&& reaction matches ReactionView::Replay { frames, message: shown } && shown == message
                && frames.len() == machine.pending.len() + machine.held.len() && (forall|i: int|
                0 <= i < machine.pending.len() ==> frames[i] == #[trigger] machine.pending[i]) && (
            forall|i: int|
                0 <= i < machine.held.len() ==> frames[machine.pending.len() + i]
                    == #[trigger] machine.held[i])
        }),
{
}

/// A refusal is final unless it answers a resumption. Every other message goes to
/// the host as it is.
pub proof fn law_the_host_hears_what_the_server_says(
    machine: SignalingModel,
    message: ServerMessageView,
)
    ensures
        ({
            let (after, reaction) = machine.on_message(message);
            let resumes = machine.resuming && !machine.authenticated;
            &&& message is AuthFailed && !resumes ==> reaction == (ReactionView::Refused {
                message,
            }) && after == (SignalingModel { resume_token: None, ..machine })
            &&& message is AuthFailed && resumes ==> reaction == ReactionView::Redial && after == (
            SignalingModel { resume_token: None, ..machine })
            &&& (message matches ServerMessageView::Error { code, .. } && !(resumes && code
                == ErrorCode::SessionExpired)) ==> (after, reaction) == (
                machine,
                ReactionView::Surface { message },
            )
            &&& !(message is HeartbeatPing || message is AuthIdentityChallenge || message
                is AuthSucceeded || message is AuthFailed || message is Error) ==> (after, reaction)
                == (machine, ReactionView::Surface { message })
        }),
{
}

/// On an authenticated connection what the host sends goes out at once, as it is.
/// Leaving stops the session, with a word to the server if the host wants one and
/// there is a connection to say it on. Without a connection a decision waits.
pub proof fn law_the_host_is_obeyed(machine: SignalingModel, frame: ClientFrameView, leave: bool)
    ensures
        machine.authenticated ==> machine.on_command(SignalingCommandView::Send { frame }) == (
            machine,
            ReactionView::Forward { frame },
        ),
        !machine.authenticated ==> machine.on_command(SignalingCommandView::Send { frame }) == (
            if signaling::carries_intent(frame.message) {
                SignalingModel { pending: machine.pending.push(frame), ..machine }
            } else {
                SignalingModel { held: machine.held.push(frame), ..machine }
            },
            ReactionView::Wait,
        ),
        machine.on_command(SignalingCommandView::Disconnect { send_leave: leave }) == (
            machine,
            ReactionView::Stop { send_leave: leave },
        ),
        machine.on_command_offline(SignalingCommandView::Disconnect { send_leave: leave }) == (
            machine,
            ReactionView::Stop { send_leave: false },
        ),
        machine.on_command_offline(SignalingCommandView::Send { frame }) == (
            if signaling::carries_intent(frame.message) {
                SignalingModel { pending: machine.pending.push(frame), ..machine }
            } else {
                machine
            },
            ReactionView::Redial,
        ),
{
}

/// A frame that went out is done with. One that did not loses the connection, and a
/// decision in it waits ahead of all that waits.
pub proof fn law_failed_decisions_go_first(machine: SignalingModel, frame: ClientFrameView)
    ensures
        machine.forwarded(frame, true) == (machine, ReactionView::Wait),
        ({
            let (after, reaction) = machine.forwarded(frame, false);
            &&& reaction == ReactionView::Lost
            &&& signaling::carries_intent(frame.message) ==> after.pending.len()
                == machine.pending.len() + 1 && after.pending[0] == frame && after.pending.skip(1)
                == machine.pending && after == (SignalingModel {
                pending: after.pending,
                ..machine
            })
            &&& !signaling::carries_intent(frame.message) ==> after == machine
        }),
{
    assert((seq![frame] + machine.pending).skip(1) =~= machine.pending);
}

/// A replay that went out whole leaves nothing waiting. One that broke off leaves
/// the decisions that did not go out, in order, and drops the rest.
pub proof fn law_replays_leave_what_did_not_go_out(machine: SignalingModel, sent: nat)
    requires
        sent <= machine.pending.len() + machine.held.len(),
    ensures
        ({
            let (after, reaction) = machine.replayed(sent);
            let all = sent == machine.pending.len() + machine.held.len();
            &&& after == (SignalingModel {
                pending: after.pending,
                held: Seq::empty(),
                ..machine
            })
            &&& reaction == if all {
                ReactionView::Wait
            } else {
                ReactionView::Lost
            }
            &&& sent >= machine.pending.len() ==> after.pending.len() == 0
            &&& sent < machine.pending.len() ==> after.pending.len() == machine.pending.len() - sent
                && forall|i: int|
                0 <= i < after.pending.len() ==> #[trigger] after.pending[i]
                    == machine.pending[sent + i]
        }),
{
}

/// A connection that is lost counts, drops what was held for it, and keeps the
/// decisions and the token. The next one opens with the token where there is one,
/// and with the credentials of the session otherwise, and waits to be
/// authenticated.
pub proof fn law_connections_open_with_what_is_known(
    machine: SignalingModel,
    request_id: Seq<char>,
)
    ensures
        machine.lost() == (SignalingModel {
            attempt: machine.lost().attempt,
            authenticated: false,
            held: Seq::empty(),
            ..machine
        }),
        machine.attempt < u32::MAX ==> machine.lost().attempt == machine.attempt + 1,
        machine.connected() == (SignalingModel {
            resuming: machine.resume_token is Some,
            authenticated: false,
            held: Seq::empty(),
            ..machine
        }),
        machine.resume_token is None ==> machine.opening(request_id) == machine.authentication,
        machine.resume_token matches Some(token) ==> machine.opening(request_id) == (
        ClientFrameView {
            request_id,
            message: ClientMessageView::SessionResume {
                room_id: machine.room_id,
                resume_token: token,
            },
        }),
{
}

/// A presence connection is proven first: the server's challenge is signed, and its
/// answer shows who this is. Then, and on every connection anew, the friends are
/// watched, and the room is shown where there is one.
pub proof fn law_presence_starts_with_a_proof(
    m: PresenceMachineView,
    message: PresenceServerMessageView,
)
    ensures
        m.step == PresenceStep::Challenged ==> m.on_message(Some(message)) == (
            if message is Challenge {
                (
                    PresenceMachineView { step: PresenceStep::Proving, ..m },
                    seq![PresenceActionView::Sign { nonce: message->Challenge_nonce }],
                )
            } else {
                (m, seq![PresenceActionView::Lost])
            }),
        m.step == PresenceStep::Proving && !(message is Ready) ==> m.on_message(Some(message)) == (
            m,
            seq![PresenceActionView::Lost],
        ),
        m.step == PresenceStep::Proving && message is Ready ==> ({
            let (after, actions) = m.on_message(Some(message));
            &&& after == (PresenceMachineView { step: PresenceStep::Ready, ..m })
            &&& actions.len() == if m.hosting is Some {
                4int
            } else {
                3
            }
            &&& actions[0] == PresenceActionView::Emit(
                PresenceEventView::Ready { code: message->Ready_code },
            )
            &&& actions[1] == PresenceActionView::Emit(
                PresenceEventView::State(PresenceState::Connected),
            )
            &&& actions[2] == PresenceActionView::Send(
                PresenceClientMessageView::Subscribe { codes: m.codes },
            )
            &&& m.hosting matches Some(hosting) ==> actions[3] == PresenceActionView::Send(
                PresenceClientMessageView::Announce {
                    hosting: Some(hosting.room),
                    presenter_secret: Some(hosting.presenter_secret),
                },
            )
        }),
        m.step == PresenceStep::Offline ==> m.on_message(Some(message)) == (
            m,
            seq![PresenceActionView::Lost],
        ),
        m.step != PresenceStep::Ready ==> m.on_message(None) == (
            m,
            seq![PresenceActionView::Lost],
        ),
        m.on_message(None) == (m, seq![PresenceActionView::Lost]),
{
}

/// What the server then says of friends and requests is reported as it is.
pub proof fn law_presence_is_reported_as_told(
    m: PresenceMachineView,
    message: PresenceServerMessageView,
)
    requires
        m.step == PresenceStep::Ready,
    ensures
        ({
            let (after, actions) = m.on_message(Some(message));
            &&& after == m
            &&& message matches PresenceServerMessageView::Snapshot { friends, .. } ==> actions
                == seq![PresenceActionView::Emit(PresenceEventView::Snapshot(friends))]
            &&& message matches PresenceServerMessageView::Update { friend, .. } ==> actions
                == seq![PresenceActionView::Emit(PresenceEventView::Update(friend))]
            &&& message matches PresenceServerMessageView::Requests { codes, .. } ==> actions
                == seq![PresenceActionView::Emit(PresenceEventView::Requests(codes))]
            &&& message is Challenge || message is Ready ==> actions.len() == 0
        }),
{
}

/// What the host wants of presence is kept, and sent at once where the connection
/// is proven. A withdrawn room is announced as none. Stopping stops.
pub proof fn law_presence_wishes_are_kept_and_sent(
    m: PresenceMachineView,
    codes: Seq<Seq<char>>,
    hosting: Option<HostingAnnouncementView>,
)
    ensures
        ({
            let watched = m.on_command(PresenceCommandView::Subscribe(codes));
            let shown = m.on_command(PresenceCommandView::Announce(hosting));
            let stopped = m.on_command(PresenceCommandView::Stop);
            let ready = m.step == PresenceStep::Ready;
            &&& watched.0 == (PresenceMachineView { codes, ..m })
            &&& shown.0 == (PresenceMachineView { hosting, ..m })
            &&& ready ==> watched.1 == seq![
                PresenceActionView::Send(PresenceClientMessageView::Subscribe { codes }),
            ]
            &&& ready ==> shown.1 == seq![
                PresenceActionView::Send(
                    match hosting {
                        Some(room) => PresenceClientMessageView::Announce {
                            hosting: Some(room.room),
                            presenter_secret: Some(room.presenter_secret),
                        },
                        None => PresenceClientMessageView::Announce {
                            hosting: None,
                            presenter_secret: None,
                        },
                    },
                ),
            ]
            &&& !ready ==> watched.1.len() == 0 && shown.1.len() == 0
            &&& stopped == (m, seq![PresenceActionView::Stopped])
        }),
        m.lost().step == PresenceStep::Offline && m.lost().codes == m.codes && m.lost().hosting
            == m.hosting,
        m.attempt < u32::MAX ==> m.lost().attempt == m.attempt + 1,
        m.connected() == (PresenceMachineView { step: PresenceStep::Challenged, ..m }),
{
}

/// A host stands in an address as it is, an IPv6 one in brackets, with its port
/// behind it where the port is not the usual one.
pub proof fn law_authorities_name_host_and_port(url: UrlPartsView)
    ensures
        url.host is None ==> urls::authority(url) is None,
        url.host matches Some(host) ==> ({
            let name = match host {
                UrlHostView::Domain(name) => name,
                UrlHostView::Ipv4(address) => address,
                UrlHostView::Ipv6(address) => "["@ + address + "]"@,
            };
            urls::authority(url) == Some(
                match url.port {
                    None => name,
                    Some(port) => name + ":"@ + text::decimal(port as nat),
                },
            )
        }),
        urls::host_of(Some(url)) == match urls::authority(url) {
            Some(authority) => authority,
            None => ""@,
        },
        urls::host_of(None) == ""@,
{
}

/// A server on the web is signaled to under its own authority: secure where it is
/// secure, plain where it is plain. Nothing else is a server.
pub proof fn law_servers_are_signaled_to_on_their_own_terms(url: UrlPartsView)
    ensures
        url.host is None || (url.scheme != "https"@ && url.scheme != "http"@) ==> rooms::endpoints(
            url,
        ) == Err::<ServerEndpointsView, RoomErrorView>(RoomErrorView::InvalidServer),
        url.host is Some && url.scheme == "https"@ ==> rooms::endpoints(url) == Ok::<
            ServerEndpointsView,
            RoomErrorView,
        >(
            ServerEndpointsView {
                signaling_url: "wss"@ + "://"@ + urls::authority(url)->0 + "/api/v1/ws"@,
                origin: "https"@ + "://"@ + urls::authority(url)->0,
            },
        ),
        url.host is Some && url.scheme == "http"@ ==> rooms::endpoints(url) == Ok::<
            ServerEndpointsView,
            RoomErrorView,
        >(
            ServerEndpointsView {
                signaling_url: "ws"@ + "://"@ + urls::authority(url)->0 + "/api/v1/ws"@,
                origin: "http"@ + "://"@ + urls::authority(url)->0,
            },
        ),
{
    reveal_strlit("https");
    reveal_strlit("http");
    assert("https"@.len() != "http"@.len());
}

/// An invitation is a link to a room with a secret: it leads to that room, with
/// that secret, on the server that the link names. Empty parts of the path do not
/// count.
pub proof fn law_invitations_lead_where_they_say(
    url: UrlPartsView,
    room_id: Seq<char>,
    secret: Seq<char>,
)
    requires
        url.scheme == "https"@ || url.scheme == "http"@,
        url.host is Some,
        url.segments matches Some(segments) && segments.filter(
            |segment: Seq<char>| segment.len() > 0,
        ) == seq!["r"@, room_id],
        url.fragment == Some(secret),
        secret.len() > 0,
    ensures
        rooms::endpoints(url) is Ok,
        invite::invitation(Some(url)) == Ok::<InvitationView, InvitationError>(
            InvitationView {
                room_id,
                secret,
                signaling_url: rooms::endpoints(url)->Ok_0.signaling_url,
                origin: rooms::endpoints(url)->Ok_0.origin,
            },
        ),
{
    law_servers_are_signaled_to_on_their_own_terms(url);
}

/// What is wrong with a link that is no invitation is told: it is no link, not one
/// of the web, does not lead to a room, or has lost its secret.
pub proof fn law_broken_invitations_are_told_apart(url: UrlPartsView)
    ensures
        invite::invitation(None) == Err::<InvitationView, InvitationError>(
            InvitationError::Invalid,
        ),
        ({
            let r = invite::invitation(Some(url));
            let web = url.scheme == "https"@ || url.scheme == "http"@;
            let leads = url.segments matches Some(segments) && ({
                let named = segments.filter(|segment: Seq<char>| segment.len() > 0);
                named.len() == 2 && named[0] == "r"@
            });
            let kept = url.fragment matches Some(secret) && secret.len() > 0;
            &&& r is Ok <==> web && url.host is Some && leads && kept
            &&& r matches Err(error) ==> error == if !web {
                InvitationError::UnsupportedScheme
            } else if url.host is None {
                InvitationError::Invalid
            } else if !leads {
                InvitationError::UnrecognizedPath
            } else {
                InvitationError::MissingSecret
            }
        }),
{
}

/// White space around a link does not matter.
pub proof fn law_links_are_read_without_the_space_around_them(input: Seq<char>)
    ensures
        invite::invited(input) == invite::invitation(urls::url_of(text::trim(input))),
{
}

/// A room is asked for as it was described; an empty list of friends is not sent.
pub proof fn law_rooms_are_asked_for_as_described(options: RoomOptionsView)
    ensures
        ({
            let asked = rooms::request_for(options);
            &&& asked.maximum_viewers == Some(options.maximum_viewers)
            &&& asked.expires_in_seconds == Some(options.expires_in_seconds)
            &&& asked.access_policy == Some(options.access_policy)
            &&& asked.allowed_friend_codes is None <==> options.allowed_friend_codes.len() == 0
            &&& asked.allowed_friend_codes matches Some(codes) ==> codes
                == options.allowed_friend_codes
        }),
{
}

/// A room that was created is handed over as it came. A server that declined is
/// quoted, by its message or else by its status; one that could not be reached or
/// understood could not be reached.
pub proof fn law_replies_are_taken_at_their_word(reply: RoomReplyView)
    ensures
        reply matches RoomReplyView::Created { room } ==> rooms::outcome(reply) == Ok::<
            CreateRoomResponseView,
            RoomErrorView,
        >(room),
        reply matches RoomReplyView::Refused { status, message } ==> rooms::outcome(reply) == Err::<
            CreateRoomResponseView,
            RoomErrorView,
        >(
            RoomErrorView::Declined(
                match message {
                    Some(words) => words,
                    None => "HTTP "@ + status,
                },
            ),
        ),
        reply matches RoomReplyView::Unreachable { error } ==> rooms::outcome(reply) == Err::<
            CreateRoomResponseView,
            RoomErrorView,
        >(RoomErrorView::Unreachable(error)),
        reply matches RoomReplyView::Unreadable { error } ==> rooms::outcome(reply) == Err::<
            CreateRoomResponseView,
            RoomErrorView,
        >(RoomErrorView::Unreachable(error)),
{
}

/// A random UUID is written in five groups of 8, 4, 4, 4 and 12 digits in base
/// 16, with hyphens between them, and tells its version.
pub proof fn law_uuids_are_written_in_groups(s: Seq<char>, i: int)
    requires
        signaling::is_random_uuid(s),
    ensures
        s.len() == 8 + 1 + 4 + 1 + 4 + 1 + 4 + 1 + 12,
        0 <= i < s.len() ==> (s[i] == '-' <==> i == 8 || i == 13 || i == 18 || i == 23),
        0 <= i < s.len() && s[i] != '-' ==> '0' <= s[i] <= '9' || 'a' <= s[i] <= 'f',
        s[14] == '4',
{
}

} // verus!
