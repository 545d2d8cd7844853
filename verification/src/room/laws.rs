//! What holds of rooms whatever is asked of them.
use vstd::multiset::*;
use vstd::prelude::*;
use vstd::seq_lib::*;

use crate::clock;
use crate::protocol::{
    PeerRole, PeerSnapshotView, RoomAccessPolicy, RoomLifecycle, ServerMessageView, SharingState,
    ViewerState,
};
use crate::room::actor;
use crate::room::actor::{RoomCommandView, RoomReplyView};
use crate::room::model;
use crate::room::model::{PeerModel, RoomModel};
use crate::room::types;
use crate::room::types::{
    AuthOutcomeView, ConnectionIdentityView, DomainError, OutgoingView, RoutedSignalView,
    SessionHandleView,
};
use crate::room::validity;
use crate::seqs;
use crate::text;

verus! {

/// The connection that a command comes from, where it has to come from one.
pub open spec fn source_of(command: RoomCommandView) -> Option<ConnectionIdentityView> {
    match command {
        RoomCommandView::Approve { source, .. } => Some(source),
        RoomCommandView::Reject { source, .. } => Some(source),
        RoomCommandView::Kick { source, .. } => Some(source),
        RoomCommandView::UpdateCapacity { source, .. } => Some(source),
        RoomCommandView::UpdateSharingState { source, .. } => Some(source),
        RoomCommandView::UpdateViewerDisplayName { source, .. } => Some(source),
        RoomCommandView::RouteSignal { source, .. } => Some(source),
        RoomCommandView::Close { source } => Some(source),
        RoomCommandView::ValidateConnection { source } => Some(source),
        _ => None,
    }
}

/// Every command keeps a room valid.
pub proof fn law_commands_keep_rooms_valid(
    room: RoomModel,
    command: RoomCommandView,
    now: int,
    peer_id: Seq<char>,
    token: Seq<char>,
)
    requires
        room.valid(),
        actor::timely(room, command, now),
    ensures
        actor::performed(room, command, now, peer_id, token).0.valid(),
{
    match command {
        RoomCommandView::AuthenticatePresenter { credential, session } =>
            validity::law_admit_presenter_keeps_valid(
            room,
            credential,
            session,
            now,
            peer_id,
            token,
        ),
        RoomCommandView::AuthenticateViewer { credential, display_name, friend_code, session } =>
            validity::law_admit_viewer_keeps_valid(
            room,
            credential,
            display_name,
            friend_code,
            session,
            now,
            peer_id,
            token,
        ),
        RoomCommandView::Resume { resume_token, session } => validity::law_resume_keeps_valid(
            room,
            resume_token,
            session,
            now,
        ),
        RoomCommandView::Approve { source, target, request_id } =>
            validity::law_approve_keeps_valid(room, source.peer_id, target, request_id, now),
        RoomCommandView::Reject { source, target, request_id } => validity::law_reject_keeps_valid(
            room,
            source.peer_id,
            target,
            request_id,
            now,
        ),
        RoomCommandView::Kick { source, target, request_id } => validity::law_kick_keeps_valid(
            room,
            source.peer_id,
            target,
            request_id,
            now,
        ),
        RoomCommandView::UpdateCapacity { source, maximum_viewers, request_id } =>
            validity::law_update_capacity_keeps_valid(
            room,
            source.peer_id,
            maximum_viewers,
            request_id,
            now,
        ),
        RoomCommandView::UpdateSharingState { source, sharing_state, request_id } =>
            validity::law_update_sharing_state_keeps_valid(
            room,
            source.peer_id,
            sharing_state,
            request_id,
            now,
        ),
        RoomCommandView::UpdateViewerDisplayName { source, display_name, request_id } =>
            validity::law_update_viewer_display_name_keeps_valid(
            room,
            source.peer_id,
            display_name,
            request_id,
            now,
        ),
        RoomCommandView::RouteSignal { source, destination, request_id, signal } =>
            validity::law_route_signal_keeps_valid(
            room,
            source.peer_id,
            destination,
            request_id,
            signal,
            now,
        ),
        RoomCommandView::Disconnect { session } => validity::law_disconnect_keeps_valid(
            room,
            session,
            now,
        ),
        RoomCommandView::Leave { session } => validity::law_leave_keeps_valid(room, session, now),
        RoomCommandView::Close { .. } => validity::law_close_keeps_valid(room, now, false),
        RoomCommandView::Shutdown => validity::law_close_keeps_valid(room, now, false),
        _ => {},
    }
}

/// A connection that was superseded, or that never was a peer's, can do
/// nothing: whatever it asks for is denied and leaves the room as it is.
pub proof fn law_only_current_connections_act(
    room: RoomModel,
    command: RoomCommandView,
    now: int,
    peer_id: Seq<char>,
    token: Seq<char>,
)
    requires
        source_of(command) matches Some(source) && !room.is_current(source),
    ensures
        actor::performed(room, command, now, peer_id, token) == (
            room,
            RoomReplyView::Done(Err(DomainError::AuthorizationDenied)),
        ),
{
}

/// Once a presenter took the seat on a new connection, its old connection is
/// no longer current, and ending it changes nothing.
pub proof fn law_superseded_presenter_connection_is_powerless(
    room: RoomModel,
    credential: Seq<char>,
    session: SessionHandleView,
    now: int,
    peer_id: Seq<char>,
    token: Seq<char>,
    later: int,
)
    requires
        room.valid(),
        room.presenter is Some,
        room.presenter->0.connection_id != session.connection_id,
        room.admit_presenter(credential, session, now, peer_id, token).1 is Ok,
        model::find_viewer(room.viewers, room.presenter->0.peer_id) is None,
    ensures
        ({
            let before = ConnectionIdentityView {
                peer_id: room.presenter->0.peer_id,
                connection_id: room.presenter->0.connection_id,
            };
            let after = room.admit_presenter(credential, session, now, peer_id, token).0;
            &&& !after.is_current(before)
            &&& after.disconnect(before, later) == after
            &&& after.leave(before, later) == after
            &&& after.is_current(
                ConnectionIdentityView {
                    peer_id: room.presenter->0.peer_id,
                    connection_id: session.connection_id,
                },
            )
        }),
{
}

/// A refused admission, and every refused command but a signal that found its
/// destination unreachable, leaves the room as it is.
#[verifier::rlimit(60)]
pub proof fn law_refusals_change_nothing(
    room: RoomModel,
    command: RoomCommandView,
    now: int,
    peer_id: Seq<char>,
    token: Seq<char>,
)
    ensures
        ({
            let (after, reply) = actor::performed(room, command, now, peer_id, token);
            &&& reply matches RoomReplyView::Admission(Err(_)) ==> after == room
            &&& reply matches RoomReplyView::Done(Err(error)) ==> error == DomainError::Unavailable
                || after == room
        }),
{
}

/// Only the presenter approves, rejects, kicks, resizes, shares and closes.
pub proof fn law_only_the_presenter_rules(
    room: RoomModel,
    command: RoomCommandView,
    now: int,
    peer_id: Seq<char>,
    token: Seq<char>,
)
    requires
        command is Approve || command is Reject || command is Kick || command is UpdateCapacity
            || command is UpdateSharingState || command is Close,
        !room.is_presenter(source_of(command)->0.peer_id),
    ensures
        actor::performed(room, command, now, peer_id, token).0 == room,
        actor::performed(room, command, now, peer_id, token).1 matches RoomReplyView::Done(Err(_)),
{
}

/// Letting a viewer in adds exactly one to the admitted viewers, and never
/// takes them over the capacity.
pub proof fn law_approval_respects_capacity(
    room: RoomModel,
    source: Seq<char>,
    target: Seq<char>,
    request_id: Seq<char>,
    now: int,
)
    requires
        room.valid(),
        room.approve(source, target, request_id, now).1 is Ok,
    ensures
        ({
            let after = room.approve(source, target, request_id, now).0;
            &&& after.admitted_count() == room.admitted_count() + 1
            &&& after.admitted_count() <= after.maximum_viewers
            &&& after.pending_count() + 1 == room.pending_count()
            &&& after.is_admitted(target)
        }),
{
    validity::found_viewer(room.viewers, target);
    let i = model::find_viewer(room.viewers, target)->0;
    let viewer = PeerModel { viewer_state: Some(ViewerState::Approved), ..room.viewers[i] };
    let after = room.approve(source, target, request_id, now).0;
    let admitted = |p: PeerModel| p.admitted();
    let pending = |p: PeerModel| p.pending();
    assert(after.viewers =~= room.viewers.update(i, viewer.sent()));
    seqs::lemma_count_update(room.viewers, i, viewer.sent(), admitted);
    seqs::lemma_count_update(room.viewers, i, viewer.sent(), pending);
    let is_it = |p: PeerModel| p.peer_id == target;
    seqs::lemma_first_where(room.viewers, is_it);
    assert forall|j: int| 0 <= j < i implies !is_it(#[trigger] after.viewers[j]) by {
        assert(!is_it(room.viewers[j]));
    }
    seqs::lemma_first(after.viewers, is_it, i);
}

/// A room that admits viewers at once never takes them over the capacity.
pub proof fn law_admission_respects_capacity(
    room: RoomModel,
    credential: Seq<char>,
    display_name: Option<Seq<char>>,
    friend_code: Option<Seq<char>>,
    session: SessionHandleView,
    now: int,
    peer_id: Seq<char>,
    token: Seq<char>,
)
    requires
        room.valid(),
        room.access_policy != RoomAccessPolicy::ApprovalRequired,
        room.admit_viewer(
            credential,
            display_name,
            friend_code,
            session,
            now,
            peer_id,
            token,
        ).1 is Ok,
    ensures
        room.admit_viewer(
            credential,
            display_name,
            friend_code,
            session,
            now,
            peer_id,
            token,
        ).0.admitted_count() <= room.maximum_viewers,
{
    let viewer = room.joining(display_name, friend_code, session, now, peer_id, token);
    let admitted = |p: PeerModel| p.admitted();
    validity::found_viewer(room.viewers, peer_id);
    match model::find_viewer(room.viewers, peer_id) {
        Some(i) => seqs::lemma_count_update(room.viewers, i, viewer, admitted),
        None => seqs::lemma_filter_push(room.viewers, viewer, admitted),
    }
}

/// A room with approval never has more waiting viewers than it allows, and
/// admits nobody by itself.
pub proof fn law_waiting_is_bounded(
    room: RoomModel,
    credential: Seq<char>,
    display_name: Option<Seq<char>>,
    friend_code: Option<Seq<char>>,
    session: SessionHandleView,
    now: int,
    peer_id: Seq<char>,
    token: Seq<char>,
)
    requires
        room.valid(),
        room.access_policy == RoomAccessPolicy::ApprovalRequired,
        room.admit_viewer(
            credential,
            display_name,
            friend_code,
            session,
            now,
            peer_id,
            token,
        ).1 is Ok,
    ensures
        ({
            let after = room.admit_viewer(
                credential,
                display_name,
                friend_code,
                session,
                now,
                peer_id,
                token,
            ).0;
            &&& after.pending_count() <= room.maximum_pending_viewers
            &&& after.admitted_count() <= room.admitted_count()
        }),
{
    let viewer = room.joining(display_name, friend_code, session, now, peer_id, token);
    let admitted = |p: PeerModel| p.admitted();
    let pending = |p: PeerModel| p.pending();
    validity::found_viewer(room.viewers, peer_id);
    match model::find_viewer(room.viewers, peer_id) {
        Some(i) => {
            seqs::lemma_count_update(room.viewers, i, viewer, admitted);
            seqs::lemma_count_update(room.viewers, i, viewer, pending);
        },
        None => {
            seqs::lemma_filter_push(room.viewers, viewer, admitted);
            seqs::lemma_filter_push(room.viewers, viewer, pending);
        },
    }
}

/// A new capacity, however small, sends nobody away.
pub proof fn law_capacity_never_kicks(
    room: RoomModel,
    source: Seq<char>,
    maximum_viewers: u8,
    request_id: Seq<char>,
    now: int,
)
    ensures
        room.update_capacity(source, maximum_viewers, request_id, now).0.viewers == room.viewers,
{
}

/// A friends-only room admits nobody without a code on its allowlist.
pub proof fn law_friends_only_admits_friends(
    room: RoomModel,
    credential: Seq<char>,
    display_name: Option<Seq<char>>,
    friend_code: Option<Seq<char>>,
    session: SessionHandleView,
    now: int,
    peer_id: Seq<char>,
    token: Seq<char>,
)
    requires
        room.access_policy == RoomAccessPolicy::FriendsOnly,
        room.admit_viewer(
            credential,
            display_name,
            friend_code,
            session,
            now,
            peer_id,
            token,
        ).1 is Ok,
    ensures
        friend_code is Some,
        room.allowed_friend_codes.contains(friend_code->0),
{
}

/// A signal is delivered only between the presenter and an admitted viewer:
/// offers to the viewer, answers to the presenter.
pub proof fn law_signals_join_presenter_and_admitted_viewer(
    room: RoomModel,
    source: Seq<char>,
    destination: Seq<char>,
    request_id: Seq<char>,
    signal: RoutedSignalView,
    now: int,
)
    requires
        room.valid(),
        room.route_signal(source, destination, request_id, signal, now).1 is Ok,
    ensures
        ({
            ||| room.is_presenter(source) && room.is_admitted(destination) && !(signal is Answer)
            ||| room.is_presenter(destination) && room.is_admitted(source) && !(signal is Offer)
        }),
{
    validity::found_viewer(room.viewers, source);
    validity::found_viewer(room.viewers, destination);
}

/// A peer that cannot take a message is cut off, and its connection is asked
/// to shut down; nothing is queued for it.
pub proof fn law_a_full_queue_asks_for_shutdown(peer: PeerModel, message: ServerMessageView)
    requires
        peer.outbound == Some(0nat),
    ensures
        !peer.sent().connected,
        peer.sent().outbound is None,
        peer.effects(message) == seq![OutgoingView::Close { connection_id: peer.connection_id }],
{
}

/// A room that is over stays over.
pub proof fn law_a_room_never_reopens(
    room: RoomModel,
    command: RoomCommandView,
    now: int,
    peer_id: Seq<char>,
    token: Seq<char>,
)
    requires
        room.lifecycle != RoomLifecycle::Open,
    ensures
        actor::performed(room, command, now, peer_id, token).0.lifecycle != RoomLifecycle::Open,
        room.expire_stale(now).lifecycle != RoomLifecycle::Open,
{
}

/// A room that is over, or past its time, admits nobody and says why.
pub proof fn law_rooms_that_are_over_admit_nobody(
    room: RoomModel,
    command: RoomCommandView,
    now: int,
    peer_id: Seq<char>,
    token: Seq<char>,
)
    requires
        command is AuthenticatePresenter || command is AuthenticateViewer || command is Resume,
        room.lifecycle != RoomLifecycle::Open || now >= room.expires_at,
    ensures
        actor::performed(room, command, now, peer_id, token) == (
            room,
            RoomReplyView::Admission(
                Err(
                    if now >= room.expires_at || room.lifecycle == RoomLifecycle::Expired {
                        DomainError::RoomExpired
                    } else {
                        DomainError::RoomClosed
                    },
                ),
            ),
        ),
{
}

/// A viewer that drops out of an open room and comes back with its token
/// inside the grace window is the same viewer, approved as before, on the new
/// connection alone. Its friend code, joining time, role and token stay, and no
/// other viewer changes.
pub proof fn law_a_dropped_viewer_can_resume(
    room: RoomModel,
    i: int,
    now: int,
    token: Seq<char>,
    session: SessionHandleView,
    later: int,
)
    requires
        room.valid(),
        0 <= i < room.viewers.len(),
        room.viewers[i].viewer_state == Some(ViewerState::Approved),
        room.viewers[i].resume_digest == room.keys.resume(token),
        // The token belongs to this viewer alone.
        room.presenter matches Some(p) ==> p.resume_digest != room.keys.resume(token) && p.peer_id
            != room.viewers[i].peer_id,
        forall|j: int|
            0 <= j < room.viewers.len() && j != i ==> (#[trigger] room.viewers[j]).resume_digest
                != room.keys.resume(token),
        now <= later <= now + room.viewer_resume_grace,
        room.refusal(later) is None,
    ensures
        ({
            let dropped = room.disconnect(
                ConnectionIdentityView {
                    peer_id: room.viewers[i].peer_id,
                    connection_id: room.viewers[i].connection_id,
                },
                now,
            );
            let (after, answer) = dropped.resume(token, session, later);
            &&& dropped.viewers[i].viewer_state == Some(ViewerState::Disconnected)
            &&& !dropped.viewers[i].connected
            &&& answer matches Ok(outcome) && outcome.peer_id == room.viewers[i].peer_id
                && outcome.resumed && outcome.resume_token == token
            &&& after.viewers.len() == room.viewers.len()
            &&& after.viewers[i] == (PeerModel {
                viewer_state: Some(ViewerState::Approved),
                connected: true,
                connection_id: session.connection_id,
                outbound: Some(session.capacity as nat),
                resume_expires_at: now + room.viewer_resume_grace,
                disconnected_at: None,
                ..room.viewers[i]
            })
            &&& forall|j: int|
                0 <= j < room.viewers.len() && j != i ==> #[trigger] after.viewers[j]
                    == room.viewers[j]
            &&& after.is_current(
                ConnectionIdentityView {
                    peer_id: room.viewers[i].peer_id,
                    connection_id: session.connection_id,
                },
            )
            &&& session.connection_id != room.viewers[i].connection_id ==> !after.is_current(
                ConnectionIdentityView {
                    peer_id: room.viewers[i].peer_id,
                    connection_id: room.viewers[i].connection_id,
                },
            )
        }),
{
    lemma_drop(room, i, now, token);
    let dropped = room.disconnect(
        ConnectionIdentityView {
            peer_id: room.viewers[i].peer_id,
            connection_id: room.viewers[i].connection_id,
        },
        now,
    );
    let after = dropped.resume(token, session, later).0;
    let is_it = |p: PeerModel| p.peer_id == room.viewers[i].peer_id;
    assert forall|j: int| 0 <= j < i implies !is_it(#[trigger] after.viewers[j]) by {
        assert(after.viewers[j] == room.viewers[j]);
        assert(room.viewers[j].peer_id != room.viewers[i].peer_id);
    }
    seqs::lemma_first(after.viewers, is_it, i);
}

/// The same token, once the grace window is over, is told that the session
/// has expired, rather than that it is wrong.
pub proof fn law_a_late_resume_is_told_so(
    room: RoomModel,
    i: int,
    now: int,
    token: Seq<char>,
    session: SessionHandleView,
    later: int,
)
    requires
        room.valid(),
        0 <= i < room.viewers.len(),
        room.viewers[i].resume_digest == room.keys.resume(token),
        room.presenter matches Some(p) ==> p.resume_digest != room.keys.resume(token) && p.peer_id
            != room.viewers[i].peer_id,
        forall|j: int|
            0 <= j < room.viewers.len() && j != i ==> (#[trigger] room.viewers[j]).resume_digest
                != room.keys.resume(token),
        later > now + room.viewer_resume_grace,
        room.refusal(later) is None,
    ensures
        room.disconnect(
            ConnectionIdentityView {
                peer_id: room.viewers[i].peer_id,
                connection_id: room.viewers[i].connection_id,
            },
            now,
        ).resume(token, session, later).1 == Err::<crate::room::types::AuthOutcomeView, DomainError>(
            DomainError::SessionExpired,
        ),
{
    lemma_drop(room, i, now, token);
}

/// A token that no peer was given is wrong, whenever it comes.
pub proof fn law_an_unknown_token_fails(
    room: RoomModel,
    token: Seq<char>,
    session: SessionHandleView,
    now: int,
)
    requires
        room.refusal(now) is None,
        room.presenter matches Some(p) ==> p.resume_digest != room.keys.resume(token),
        forall|j: int|
            0 <= j < room.viewers.len() ==> (#[trigger] room.viewers[j]).resume_digest
                != room.keys.resume(token),
    ensures
        room.resume(token, session, now) == (
            room,
            Err::<crate::room::types::AuthOutcomeView, DomainError>(
                DomainError::AuthenticationFailed,
            ),
        ),
{
    validity::found_resumable(room.viewers, room.keys.resume(token));
}

/// The room right after the viewer at place `i` dropped out.
proof fn lemma_drop(room: RoomModel, i: int, now: int, token: Seq<char>)
    requires
        room.valid(),
        0 <= i < room.viewers.len(),
        room.viewers[i].resume_digest == room.keys.resume(token),
        room.presenter matches Some(p) ==> p.resume_digest != room.keys.resume(token) && p.peer_id
            != room.viewers[i].peer_id,
        forall|j: int|
            0 <= j < room.viewers.len() && j != i ==> (#[trigger] room.viewers[j]).resume_digest
                != room.keys.resume(token),
    ensures
        ({
            let dropped = room.disconnect(
                ConnectionIdentityView {
                    peer_id: room.viewers[i].peer_id,
                    connection_id: room.viewers[i].connection_id,
                },
                now,
            );
            let gone = room.viewers[i].dropped(now, room.viewer_resume_grace);
            &&& dropped.viewers == room.viewers.update(
                i,
                if gone.viewer_state == Some(ViewerState::Approved) {
                    PeerModel { viewer_state: Some(ViewerState::Disconnected), ..gone }
                } else {
                    gone
                },
            )
            &&& dropped.keys == room.keys
            &&& dropped.lifecycle == room.lifecycle
            &&& dropped.expires_at == room.expires_at
            &&& dropped.presenter matches Some(p) ==> p.resume_digest != room.keys.resume(token)
                && p.peer_id != room.viewers[i].peer_id
            &&& model::find_resumable(dropped.viewers, room.keys.resume(token)) == Some(i)
        }),
{
    let connection = ConnectionIdentityView {
        peer_id: room.viewers[i].peer_id,
        connection_id: room.viewers[i].connection_id,
    };
    let is_it = |p: PeerModel| p.peer_id == room.viewers[i].peer_id;
    assert forall|j: int| 0 <= j < i implies !is_it(#[trigger] room.viewers[j]) by {}
    seqs::lemma_first(room.viewers, is_it, i);
    let dropped = room.disconnect(connection, now);
    let digest = room.keys.resume(token);
    let holds = |p: PeerModel| p.resume_digest == digest;
    assert forall|j: int| 0 <= j < i implies !holds(#[trigger] dropped.viewers[j]) by {
        assert(room.viewers[j].resume_digest != digest);
    }
    seqs::lemma_first(dropped.viewers, holds, i);
}

/// A viewer that dropped out is kept until two grace windows have passed, so
/// that a late resume can be told apart; then it is removed.
pub proof fn law_dropped_viewers_are_kept_for_two_windows(
    room: RoomModel,
    viewer: PeerModel,
    at: int,
    now: int,
)
    requires
        viewer.disconnected_at == Some(at),
        !viewer.connected,
        !viewer.pending(),
    ensures
        room.stale(viewer, now) <==> now - at >= 2 * room.viewer_resume_grace,
{
}

/// The lists of a snapshot are sorted by the text of the joining date, and
/// hold each of the viewers that belong there exactly as often as the room
/// does.
pub proof fn law_snapshot_lists_are_complete_and_sorted(
    viewers: Seq<PeerModel>,
    pred: spec_fn(PeerModel) -> bool,
)
    ensures
        ({
            let list = model::listed(viewers, pred);
            let all = viewers.filter(pred).map_values(|p: PeerModel| p.snapshot());
            &&& list.to_multiset() == all.to_multiset()
            &&& list.len() == seqs::count(viewers, pred)
            &&& forall|i: int, j: int|
                0 <= i <= j < list.len() ==> text::text_le(
                    (#[trigger] list[i]).joined_at,
                    (#[trigger] list[j]).joined_at,
                )
        }),
{
    lemma_by_joined(viewers.filter(pred).map_values(|p: PeerModel| p.snapshot()));
}

proof fn lemma_insert_by_joined(s: Seq<PeerSnapshotView>, x: PeerSnapshotView)
    requires
        forall|i: int, j: int|
            0 <= i <= j < s.len() ==> text::text_le(
                (#[trigger] s[i]).joined_at,
                (#[trigger] s[j]).joined_at,
            ),
    ensures
        ({
            let r = model::insert_by_joined(s, x);
            &&& r.to_multiset() == s.to_multiset().insert(x)
            &&& r.len() == s.len() + 1
            &&& forall|i: int, j: int|
                0 <= i <= j < r.len() ==> text::text_le(
                    (#[trigger] r[i]).joined_at,
                    (#[trigger] r[j]).joined_at,
                )
            &&& forall|i: int| 0 <= i < r.len() ==> #[trigger] r[i] == x || s.contains(r[i])
        }),
    decreases s.len(),
{
    broadcast use group_to_multiset_ensures;

    let r = model::insert_by_joined(s, x);
    text::lemma_text_le_total(x.joined_at, x.joined_at);
    if s.len() == 0 || text::text_le(s.last().joined_at, x.joined_at) {
        assert forall|i: int, j: int| 0 <= i <= j < r.len() implies text::text_le(
            (#[trigger] r[i]).joined_at,
            (#[trigger] r[j]).joined_at,
        ) by {
            if j == s.len() && i < j {
                assert(text::text_le(s[i].joined_at, s[s.len() - 1].joined_at));
                text::lemma_text_le_transitive(s[i].joined_at, s.last().joined_at, x.joined_at);
            }
        }
    } else {
        let init = s.drop_last();
        assert forall|i: int, j: int| 0 <= i <= j < init.len() implies text::text_le(
            (#[trigger] init[i]).joined_at,
            (#[trigger] init[j]).joined_at,
        ) by {
            assert(text::text_le(s[i].joined_at, s[j].joined_at));
        }
        lemma_insert_by_joined(init, x);
        let front = model::insert_by_joined(init, x);
        assert(s =~= init.push(s.last()));
        text::lemma_text_le_total(s.last().joined_at, x.joined_at);
        text::lemma_text_le_total(s.last().joined_at, s.last().joined_at);
        assert forall|i: int| 0 <= i < r.len() implies #[trigger] r[i] == x || s.contains(r[i]) by {
            if i < front.len() {
                assert(r[i] == front[i]);
                if front[i] != x {
                    let k = choose|k: int| 0 <= k < init.len() && init[k] == front[i];
                    assert(s[k] == r[i]);
                }
            } else {
                assert(s[s.len() - 1] == r[i]);
            }
        }
        assert forall|i: int, j: int| 0 <= i <= j < r.len() implies text::text_le(
            (#[trigger] r[i]).joined_at,
            (#[trigger] r[j]).joined_at,
        ) by {
            if j == front.len() && i < j {
                assert(r[i] == front[i]);
                if front[i] != x {
                    let k = choose|k: int| 0 <= k < init.len() && init[k] == front[i];
                    assert(text::text_le(s[k].joined_at, s[s.len() - 1].joined_at));
                }
            } else if j < front.len() {
                assert(r[i] == front[i] && r[j] == front[j]);
            }
        }
        assert(r.to_multiset() =~= s.to_multiset().insert(x));
    }
}

proof fn lemma_by_joined(s: Seq<PeerSnapshotView>)
    ensures
        ({
            let r = model::by_joined(s);
            &&& r.to_multiset() == s.to_multiset()
            &&& r.len() == s.len()
            &&& forall|i: int, j: int|
                0 <= i <= j < r.len() ==> text::text_le(
                    (#[trigger] r[i]).joined_at,
                    (#[trigger] r[j]).joined_at,
                )
        }),
    decreases s.len(),
{
    broadcast use group_to_multiset_ensures;

    if s.len() > 0 {
        lemma_by_joined(s.drop_last());
        lemma_insert_by_joined(model::by_joined(s.drop_last()), s.last());
        assert(s =~= s.drop_last().push(s.last()));
    }
}

/// Whether a text starts with no space, has no two spaces in a row, and is
/// otherwise free of white space and control characters.
pub open spec fn tidy(s: Seq<char>) -> bool {
    &&& forall|i: int|
        0 <= i < s.len() ==> #[trigger] s[i] == ' ' || (!text::white(s[i]) && !text::control(s[i]))
    &&& s.len() > 0 ==> s[0] != ' '
    &&& forall|i: int| 0 < i < s.len() && #[trigger] s[i] == ' ' ==> s[i - 1] != ' '
}

/// Whether every word is a run of visible characters.
spec fn visible(ws: Seq<Seq<char>>) -> bool {
    forall|i: int, j: int|
        0 <= i < ws.len() && 0 <= j < ws[i].len() ==> !text::white(#[trigger] ws[i][j])
            && !text::control(ws[i][j])
}

proof fn lemma_words_visible(s: Seq<char>)
    requires
        forall|i: int| 0 <= i < s.len() ==> !text::control(#[trigger] s[i]),
    ensures
        visible(text::words(s)),
    decreases s.len(),
{
    if s.len() > 0 {
        let init = s.drop_last();
        assert forall|i: int| 0 <= i < init.len() implies !text::control(#[trigger] init[i]) by {
            assert(!text::control(s[i]));
        }
        lemma_words_visible(init);
        text::lemma_words_nonempty(init);
        let before = text::words(init);
        let after = text::words(s);
        assert(!text::control(s[s.len() - 1]));
        if s.len() > 1 {
            assert(init.last() == s[s.len() - 2]);
        }
        assert forall|i: int, j: int| 0 <= i < after.len() && 0 <= j < after[i].len() implies !text::white(
            #[trigger] after[i][j],
        ) && !text::control(after[i][j]) by {
            if i < before.len() && j < before[i].len() {
                assert(!text::white(before[i][j]) && !text::control(before[i][j]));
                assert(after[i][j] == before[i][j]);
            }
        }
    }
}

proof fn lemma_spaced_tidy(ws: Seq<Seq<char>>)
    requires
        visible(ws),
        forall|i: int| 0 <= i < ws.len() ==> (#[trigger] ws[i]).len() > 0,
    ensures
        tidy(text::spaced(ws)),
        ws.len() > 0 ==> text::spaced(ws).len() > 0 && text::spaced(ws).last() != ' ',
    decreases ws.len(),
{
    if ws.len() == 1 {
        assert forall|i: int| 0 <= i < ws[0].len() implies !text::white(#[trigger] ws[0][i])
            && !text::control(ws[0][i]) by {}
    } else if ws.len() > 1 {
        let init = ws.drop_last();
        assert forall|i: int, j: int| 0 <= i < init.len() && 0 <= j < init[i].len() implies !text::white(
            #[trigger] init[i][j],
        ) && !text::control(init[i][j]) by {
            assert(!text::white(ws[i][j]));
        }
        assert forall|i: int| 0 <= i < init.len() implies (#[trigger] init[i]).len() > 0 by {
            assert(ws[i].len() > 0);
        }
        lemma_spaced_tidy(init);
        let front = text::spaced(init);
        let last = ws.last();
        let all = text::spaced(ws);
        assert(all == front.push(' ') + last);
        assert forall|k: int| 0 <= k < last.len() implies !text::white(#[trigger] last[k])
            && !text::control(last[k]) by {
            assert(!text::white(ws[ws.len() - 1][k]));
        }
        assert(ws[ws.len() - 1].len() > 0);
        assert(all.last() == last.last());
        assert forall|i: int| 0 <= i < all.len() implies #[trigger] all[i] == ' ' || (!text::white(
            all[i],
        ) && !text::control(all[i])) by {
            if i < front.len() {
                assert(all[i] == front[i]);
            } else if i > front.len() {
                assert(all[i] == last[i - front.len() - 1]);
            }
        }
        assert forall|i: int| 0 < i < all.len() && #[trigger] all[i] == ' ' implies all[i - 1] != ' ' by {
            if i < front.len() {
                assert(all[i] == front[i] && all[i - 1] == front[i - 1]);
            } else if i == front.len() {
                assert(all[i - 1] == front.last());
            } else {
                assert(all[i] == last[i - front.len() - 1]);
            }
        }
        assert(all[0] == front[0]);
    }
}

/// A display name that is kept has 1 to 48 characters, starts with no space,
/// has no two spaces in a row, and is otherwise free of white space and
/// control characters.
pub proof fn law_kept_names_are_tidy_and_bounded(name: Seq<char>)
    ensures
        model::kept_name(name) matches Some(kept) ==> 1 <= kept.len() <= 48 && tidy(kept),
{
    let shown = text::printable(name);
    lemma_printable(name);
    lemma_words_visible(shown);
    text::lemma_words_nonempty(shown);
    lemma_spaced_tidy(text::words(shown));
    let full = text::spaced(text::words(shown));
    if full.len() > 48 {
        let cut = full.take(48);
        assert forall|i: int| 0 <= i < cut.len() implies #[trigger] cut[i] == ' ' || (!text::white(
            cut[i],
        ) && !text::control(cut[i])) by {
            assert(cut[i] == full[i]);
        }
        assert forall|i: int| 0 < i < cut.len() && #[trigger] cut[i] == ' ' implies cut[i - 1] != ' ' by {
            assert(full[i] == ' ');
        }
    }
}

/// A display name that is kept, and was not cut at a space, is kept unchanged when
/// it is given again; none that is shorter than 48 characters was.
pub proof fn law_kept_names_are_kept_again(name: Seq<char>)
    ensures
        model::kept_name(name) matches Some(kept) ==> {
            &&& kept.len() < 48 ==> kept.last() != ' '
            &&& kept.last() != ' ' ==> model::kept_name(kept) == Some(kept)
        },
{
    law_kept_names_are_tidy_and_bounded(name);
    if let Some(kept) = model::kept_name(name) {
        let shown = text::printable(name);
        lemma_printable(name);
        lemma_words_visible(shown);
        text::lemma_words_nonempty(shown);
        lemma_spaced_tidy(text::words(shown));
        if kept.last() != ' ' {
            let keep = |c: char| !text::control(c);
            assert forall|i: int| 0 <= i < kept.len() implies keep(#[trigger] kept[i]) by {}
            seqs::lemma_filter_all(kept, keep);
            lemma_tidy_spaced(kept);
        }
    }
}

proof fn lemma_tidy_spaced(s: Seq<char>)
    requires
        tidy(s),
    ensures
        text::spaced(text::words(s)) == if s.len() > 0 && s.last() == ' ' {
            s.drop_last()
        } else {
            s
        },
    decreases s.len(),
{
    if s.len() > 0 {
        let init = s.drop_last();
        let c = s.last();
        assert forall|i: int| 0 <= i < init.len() implies #[trigger] init[i] == ' ' || (!text::white(
            init[i],
        ) && !text::control(init[i])) by {
            assert(init[i] == s[i]);
        }
        assert forall|i: int| 0 < i < init.len() && #[trigger] init[i] == ' ' implies init[i - 1]
            != ' ' by {
            assert(s[i] == ' ');
        }
        lemma_tidy_spaced(init);
        text::lemma_words_nonempty(init);
        assert(s[s.len() - 1] == c);
        let before = text::words(init);
        if c == ' ' {
            assert(s[s.len() - 2] != ' ');
        } else if s.len() == 1 {
            assert(before =~= Seq::empty());
            assert(text::words(s) =~= seq![seq![c]]);
            assert(s =~= seq![c]);
        } else if s[s.len() - 2] == ' ' {
            assert(init.last() == ' ');
            assert(init.drop_last().len() > 0);
            assert(before.len() > 0);
            assert(text::words(s).drop_last() =~= before);
            assert(text::spaced(text::words(s)) =~= s);
        } else {
            text::lemma_spaced_push(before, c);
            assert(init.push(c) =~= s);
        }
    }
}

proof fn lemma_printable(s: Seq<char>)
    ensures
        forall|i: int|
            0 <= i < text::printable(s).len() ==> !text::control(#[trigger] text::printable(s)[i]),
    decreases s.len(),
{
    let keep = |c: char| !text::control(c);
    if s.len() > 0 {
        let init = s.drop_last();
        lemma_printable(init);
        assert(s =~= init.push(s.last()));
        seqs::lemma_filter_push(init, s.last(), keep);
        let kept = text::printable(init);
        let out = text::printable(s);
        assert forall|i: int| 0 <= i < out.len() implies !text::control(#[trigger] out[i]) by {
            if i < kept.len() {
                assert(!text::control(kept[i]));
            }
        }
    } else {
        reveal(Seq::filter);
    }
}

/// What is said of a room tells nothing of its digests, its keys, who may join
/// or the tokens of its peers: rooms that differ in those alone are described
/// alike.
pub proof fn law_descriptions_are_redacted(a: RoomModel, b: RoomModel)
    requires
        b == (RoomModel {
            presenter_digest: b.presenter_digest,
            viewer_digest: b.viewer_digest,
            keys: b.keys,
            allowed_friend_codes: b.allowed_friend_codes,
            presenter: b.presenter,
            viewers: b.viewers,
            outgoing: b.outgoing,
            ..a
        }),
        a.presenter_connected() == b.presenter_connected(),
        a.viewers.len() == b.viewers.len(),
    ensures
        model::described(a) == model::described(b),
{
}

/// What is said of an admission tells nothing of the resume token.
pub proof fn law_outcomes_are_redacted(m: AuthOutcomeView, resume_token: Seq<char>)
    ensures
        types::outcome_shown(AuthOutcomeView { resume_token, ..m }) == types::outcome_shown(m),
{
}

} // verus!
