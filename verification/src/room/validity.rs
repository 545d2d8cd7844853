//! Every command keeps a room valid.
use vstd::prelude::*;

use crate::clock;
use crate::protocol::{PeerRole, ServerMessageView, SharingState, ViewerState};
use crate::room::model;
use crate::room::model::{PeerModel, RoomModel};
use crate::room::types::{ConnectionIdentityView, RoutedSignalView, SessionHandleView};
use crate::seqs;

verus! {

/// Viewers are valid and distinct.
pub open spec fn good_viewers(viewers: Seq<PeerModel>) -> bool {
    &&& forall|i: int| 0 <= i < viewers.len() ==> (#[trigger] viewers[i]).valid_viewer()
    &&& forall|i: int, j: int|
        0 <= i < j < viewers.len() ==> (#[trigger] viewers[i]).peer_id != (#[trigger] viewers[j]).peer_id
}

proof fn keep_update(viewers: Seq<PeerModel>, i: int, viewer: PeerModel)
    requires
        good_viewers(viewers),
        0 <= i < viewers.len(),
        viewer.valid_viewer(),
        viewer.peer_id == viewers[i].peer_id,
    ensures
        good_viewers(viewers.update(i, viewer)),
{
    let after = viewers.update(i, viewer);
    assert forall|a: int, b: int| 0 <= a < b < after.len() implies (#[trigger] after[a]).peer_id != (
    #[trigger] after[b]).peer_id by {
        assert(viewers[a].peer_id != viewers[b].peer_id);
    }
}

pub proof fn keep_remove(viewers: Seq<PeerModel>, i: int)
    requires
        good_viewers(viewers),
        0 <= i < viewers.len(),
    ensures
        good_viewers(viewers.remove(i)),
{
    let after = viewers.remove(i);
    assert forall|a: int| 0 <= a < after.len() implies (#[trigger] after[a]).valid_viewer() by {
        assert(after[a] == viewers[if a < i { a } else { a + 1 }]);
    }
    assert forall|a: int, b: int| 0 <= a < b < after.len() implies (#[trigger] after[a]).peer_id != (
    #[trigger] after[b]).peer_id by {
        let c = if a < i { a } else { a + 1 };
        let d = if b < i { b } else { b + 1 };
        assert(viewers[c].peer_id != viewers[d].peer_id);
    }
}

proof fn keep_filter(viewers: Seq<PeerModel>, keep: spec_fn(PeerModel) -> bool)
    requires
        good_viewers(viewers),
    ensures
        good_viewers(viewers.filter(keep)),
        forall|i: int| 0 <= i < viewers.filter(keep).len() ==> viewers.contains(
            #[trigger] viewers.filter(keep)[i],
        ),
    decreases viewers.len(),
{
    if viewers.len() > 0 {
        let init = viewers.drop_last();
        let last = viewers.last();
        assert(good_viewers(init));
        keep_filter(init, keep);
        assert(viewers =~= init.push(last));
        seqs::lemma_filter_push(init, last, keep);
        let kept = init.filter(keep);
        let after = viewers.filter(keep);
        assert forall|i: int| 0 <= i < after.len() implies viewers.contains(#[trigger] after[i]) by {
            if i < kept.len() {
                assert(after[i] == kept[i]);
                let k = choose|k: int| 0 <= k < init.len() && init[k] == kept[i];
                assert(viewers[k] == after[i]);
            } else {
                assert(viewers[viewers.len() - 1] == after[i]);
            }
        }
        assert forall|i: int| 0 <= i < after.len() implies (#[trigger] after[i]).valid_viewer() by {
            assert(viewers.contains(after[i]));
        }
        assert forall|a: int, b: int| 0 <= a < b < after.len() implies (#[trigger] after[a]).peer_id
            != (#[trigger] after[b]).peer_id by {
            assert(after[a] == kept[a]);
            if b < kept.len() {
                assert(after[b] == kept[b]);
            } else {
                let k = choose|k: int| 0 <= k < init.len() && init[k] == kept[a];
                assert(viewers[k].peer_id != viewers[viewers.len() - 1].peer_id);
            }
        }
    } else {
        assert(viewers.filter(keep) =~= viewers) by {
            reveal(Seq::filter);
        }
    }
}

pub proof fn keep_tell_presenter(room: RoomModel, message: ServerMessageView)
    requires
        room.valid(),
    ensures
        room.tell_presenter(message).valid(),
{
    assert(room.tell_presenter(message).viewers == room.viewers);
}

pub proof fn keep_tell_viewer(room: RoomModel, i: int, message: ServerMessageView)
    requires
        room.valid(),
        0 <= i < room.viewers.len(),
    ensures
        room.tell_viewer(i, message).valid(),
{
    keep_update(room.viewers, i, room.viewers[i].sent());
}

pub proof fn keep_tell_viewers(
    room: RoomModel,
    who: spec_fn(PeerModel) -> bool,
    message: ServerMessageView,
)
    requires
        room.valid(),
    ensures
        room.tell_viewers(who, message).valid(),
{
    let after = room.tell_viewers(who, message).viewers;
    assert forall|a: int| 0 <= a < after.len() implies (#[trigger] after[a]).valid_viewer() by {
        assert(room.viewers[a].valid_viewer());
    }
    assert forall|a: int, b: int| 0 <= a < b < after.len() implies (#[trigger] after[a]).peer_id != (
    #[trigger] after[b]).peer_id by {
        assert(room.viewers[a].peer_id != room.viewers[b].peer_id);
    }
}

pub proof fn keep_tell_snapshot(room: RoomModel, now: int)
    requires
        room.valid(),
    ensures
        room.tell_snapshot(now).valid(),
{
    keep_tell_presenter(
        room,
        ServerMessageView::RoomSnapshot {
            server_timestamp: clock::wire_time(now),
            snapshot: room.snapshot(now),
        },
    );
}

pub proof fn keep_with_viewer(room: RoomModel, i: int, viewer: PeerModel)
    requires
        room.valid(),
        0 <= i < room.viewers.len(),
        viewer.valid_viewer(),
        viewer.peer_id == room.viewers[i].peer_id,
    ensures
        room.with_viewer(i, viewer).valid(),
{
    keep_update(room.viewers, i, viewer);
}

/// What a search for a viewer promises.
pub proof fn found_viewer(viewers: Seq<PeerModel>, peer_id: Seq<char>)
    ensures
        model::find_viewer(viewers, peer_id) matches Some(i) ==> 0 <= i < viewers.len()
            && viewers[i].peer_id == peer_id,
        model::find_viewer(viewers, peer_id) is None ==> forall|j: int|
            0 <= j < viewers.len() ==> (#[trigger] viewers[j]).peer_id != peer_id,
{
    let is_it = |p: PeerModel| p.peer_id == peer_id;
    seqs::lemma_first_where(viewers, is_it);
    if model::find_viewer(viewers, peer_id) is None {
        assert forall|j: int| 0 <= j < viewers.len() implies (#[trigger] viewers[j]).peer_id != peer_id by {
            assert(!is_it(viewers[j]));
        }
    }
}

/// What a search for a resumable viewer promises.
pub proof fn found_resumable(viewers: Seq<PeerModel>, digest: Seq<u8>)
    ensures
        model::find_resumable(viewers, digest) matches Some(i) ==> 0 <= i < viewers.len()
            && viewers[i].resume_digest == digest,
        model::find_resumable(viewers, digest) is None ==> forall|j: int|
            0 <= j < viewers.len() ==> (#[trigger] viewers[j]).resume_digest != digest,
{
    let is_it = |p: PeerModel| p.resume_digest == digest;
    seqs::lemma_first_where(viewers, is_it);
    if model::find_resumable(viewers, digest) is None {
        assert forall|j: int| 0 <= j < viewers.len() implies (#[trigger] viewers[j]).resume_digest
            != digest by {
            assert(!is_it(viewers[j]));
        }
    }
}

/// Seating a presenter keeps a room valid.
pub proof fn law_admit_presenter_keeps_valid(
    room: RoomModel,
    credential: Seq<char>,
    session: SessionHandleView,
    now: int,
    peer_id: Seq<char>,
    token: Seq<char>,
)
    requires
        room.valid(),
        room.presenter_timely(credential, now),
    ensures
        room.admit_presenter(credential, session, now, peer_id, token).0.valid(),
{
}

/// A viewer that joins keeps a room valid.
pub proof fn keep_join(room: RoomModel, viewer: PeerModel)
    requires
        room.valid(),
        viewer.valid_viewer(),
    ensures
        (RoomModel { viewers: model::place_viewer(room.viewers, viewer), ..room }).valid(),
{
    let peer_id = viewer.peer_id;
    found_viewer(room.viewers, peer_id);
    match model::find_viewer(room.viewers, peer_id) {
        Some(i) => keep_update(room.viewers, i, viewer),
        None => {
            let after = room.viewers.push(viewer);
            assert forall|a: int, b: int| 0 <= a < b < after.len() implies (#[trigger] after[a]).peer_id
                != (#[trigger] after[b]).peer_id by {
                if b == room.viewers.len() {
                    assert(room.viewers[a].peer_id != peer_id);
                }
            }
            assert(good_viewers(after));
        },
    }
}

/// Admitting a viewer keeps a room valid.
pub proof fn law_admit_viewer_keeps_valid(
    room: RoomModel,
    credential: Seq<char>,
    display_name: Option<Seq<char>>,
    friend_code: Option<Seq<char>>,
    session: SessionHandleView,
    now: int,
    peer_id: Seq<char>,
    token: Seq<char>,
)
    requires
        room.valid(),
        room.viewer_timely(credential, friend_code, now),
    ensures
        room.admit_viewer(
            credential,
            display_name,
            friend_code,
            session,
            now,
            peer_id,
            token,
        ).0.valid(),
{
    if room.viewer_refusal(credential, friend_code, now) is None {
        let viewer = room.joining(display_name, friend_code, session, now, peer_id, token);
        let joined = RoomModel { viewers: model::place_viewer(room.viewers, viewer), ..room };
        keep_join(room, viewer);
        assert(joined.valid());
        keep_tell_presenter(
            joined,
            ServerMessageView::ViewerPending {
                server_timestamp: clock::wire_time(now),
                viewer: viewer.snapshot(),
            },
        );
        keep_tell_snapshot(joined, now);
    }
}

/// Resuming a session keeps a room valid.
pub proof fn law_resume_keeps_valid(
    room: RoomModel,
    token: Seq<char>,
    session: SessionHandleView,
    now: int,
)
    requires
        room.valid(),
    ensures
        room.resume(token, session, now).0.valid(),
{
    let digest = room.keys.resume(token);
    if room.refusal(now) is None {
        if room.presenter is Some && room.presenter->0.resume_digest == digest {
            let seated = RoomModel { presenter: Some(room.presenter->0.revived(session)), ..room };
            assert(seated.viewers == room.viewers);
            keep_tell_viewers(
                seated,
                |p: PeerModel| p.viewer_state == Some(ViewerState::Approved),
                ServerMessageView::PresenterResumed { server_timestamp: clock::wire_time(now) },
            );
        } else {
            found_resumable(room.viewers, digest);
            if let Some(i) = model::find_resumable(room.viewers, digest) {
                let revived = room.viewers[i].revived(session);
                let viewer = if revived.viewer_state == Some(ViewerState::Disconnected) {
                    PeerModel { viewer_state: Some(ViewerState::Approved), ..revived }
                } else {
                    revived
                };
                keep_with_viewer(room, i, viewer);
                keep_tell_presenter(
                    room.with_viewer(i, viewer),
                    ServerMessageView::ViewerResumed {
                        server_timestamp: clock::wire_time(now),
                        peer_id: viewer.peer_id,
                    },
                );
            }
        }
    }
}

/// Approving a viewer keeps a room valid.
pub proof fn law_approve_keeps_valid(
    room: RoomModel,
    source: Seq<char>,
    target: Seq<char>,
    request_id: Seq<char>,
    now: int,
)
    requires
        room.valid(),
    ensures
        room.approve(source, target, request_id, now).0.valid(),
{
    found_viewer(room.viewers, target);
    if let Some(i) = model::find_viewer(room.viewers, target) {
        let viewer = PeerModel { viewer_state: Some(ViewerState::Approved), ..room.viewers[i] };
        let message = ServerMessageView::ViewerApproved {
            request_id: Some(request_id),
            server_timestamp: clock::wire_time(now),
            peer_id: target,
        };
        keep_with_viewer(room, i, viewer);
        keep_tell_viewer(room.with_viewer(i, viewer), i, message);
        keep_tell_snapshot(room.with_viewer(i, viewer).tell_viewer(i, message), now);
    }
}

pub proof fn keep_dismiss(room: RoomModel, i: int, message: ServerMessageView, now: int)
    requires
        room.valid(),
        0 <= i < room.viewers.len(),
    ensures
        room.dismiss(i, message).valid(),
        room.dismiss(i, message).tell_snapshot(now).valid(),
{
    keep_remove(room.viewers, i);
    keep_tell_snapshot(room.dismiss(i, message), now);
}

/// Rejecting a viewer keeps a room valid.
pub proof fn law_reject_keeps_valid(
    room: RoomModel,
    source: Seq<char>,
    target: Seq<char>,
    request_id: Seq<char>,
    now: int,
)
    requires
        room.valid(),
    ensures
        room.reject(source, target, request_id, now).0.valid(),
{
    found_viewer(room.viewers, target);
    if let Some(i) = model::find_viewer(room.viewers, target) {
        keep_dismiss(
            room,
            i,
            ServerMessageView::ViewerRejected {
                request_id: Some(request_id),
                server_timestamp: clock::wire_time(now),
                peer_id: target,
            },
            now,
        );
    }
}

/// Kicking a viewer keeps a room valid.
pub proof fn law_kick_keeps_valid(
    room: RoomModel,
    source: Seq<char>,
    target: Seq<char>,
    request_id: Seq<char>,
    now: int,
)
    requires
        room.valid(),
    ensures
        room.kick(source, target, request_id, now).0.valid(),
{
    found_viewer(room.viewers, target);
    if let Some(i) = model::find_viewer(room.viewers, target) {
        keep_dismiss(
            room,
            i,
            ServerMessageView::ViewerKicked {
                request_id: Some(request_id),
                server_timestamp: clock::wire_time(now),
                peer_id: target,
            },
            now,
        );
    }
}

/// Changing the capacity keeps a room valid.
pub proof fn law_update_capacity_keeps_valid(
    room: RoomModel,
    source: Seq<char>,
    maximum_viewers: u8,
    request_id: Seq<char>,
    now: int,
)
    requires
        room.valid(),
    ensures
        room.update_capacity(source, maximum_viewers, request_id, now).0.valid(),
{
    if 1 <= maximum_viewers <= room.maximum_viewers_hard_limit {
        let resized = RoomModel { maximum_viewers, ..room };
        assert(resized.viewers == room.viewers);
        let message = ServerMessageView::RoomCapacityUpdated {
            request_id,
            server_timestamp: clock::wire_time(now),
            maximum_viewers,
        };
        keep_tell_presenter(resized, message);
        keep_tell_snapshot(resized.tell_presenter(message), now);
    }
}

/// Changing the sharing state keeps a room valid.
pub proof fn law_update_sharing_state_keeps_valid(
    room: RoomModel,
    source: Seq<char>,
    sharing_state: SharingState,
    request_id: Seq<char>,
    now: int,
)
    requires
        room.valid(),
    ensures
        room.update_sharing_state(source, sharing_state, request_id, now).0.valid(),
{
    let message = ServerMessageView::RoomSharingStateUpdated {
        request_id,
        server_timestamp: clock::wire_time(now),
        sharing_state,
    };
    let showing = RoomModel { sharing_state, ..room };
    assert(showing.viewers == room.viewers);
    keep_tell_presenter(showing, message);
    keep_tell_viewers(showing.tell_presenter(message), |p: PeerModel| p.connected, message);
}

/// Renaming a viewer keeps a room valid.
pub proof fn law_update_viewer_display_name_keeps_valid(
    room: RoomModel,
    source: Seq<char>,
    display_name: Option<Seq<char>>,
    request_id: Seq<char>,
    now: int,
)
    requires
        room.valid(),
    ensures
        room.update_viewer_display_name(source, display_name, request_id, now).0.valid(),
{
    found_viewer(room.viewers, source);
    if let Some(i) = model::find_viewer(room.viewers, source) {
        let viewer = PeerModel {
            display_name: model::kept_optional_name(display_name),
            ..room.viewers[i]
        };
        let message = ServerMessageView::ViewerDisplayNameUpdated {
            request_id,
            server_timestamp: clock::wire_time(now),
            peer_id: viewer.peer_id,
            display_name: viewer.display_name,
        };
        keep_with_viewer(room, i, viewer);
        keep_tell_viewer(room.with_viewer(i, viewer), i, message);
        keep_tell_snapshot(room.with_viewer(i, viewer).tell_viewer(i, message), now);
    }
}

/// A message to one peer keeps a room valid.
pub proof fn keep_send_to_peer(room: RoomModel, peer_id: Seq<char>, message: ServerMessageView)
    requires
        room.valid(),
    ensures
        room.send_to_peer(peer_id, message).0.valid(),
{
    keep_tell_presenter(room, message);
    found_viewer(room.viewers, peer_id);
    if let Some(i) = model::find_viewer(room.viewers, peer_id) {
        keep_tell_viewer(room, i, message);
    }
}

/// Routing a signal keeps a room valid.
pub proof fn law_route_signal_keeps_valid(
    room: RoomModel,
    source: Seq<char>,
    destination: Seq<char>,
    request_id: Seq<char>,
    signal: RoutedSignalView,
    now: int,
)
    requires
        room.valid(),
    ensures
        room.route_signal(source, destination, request_id, signal, now).0.valid(),
{
    keep_send_to_peer(room, destination, model::signal_message(source, request_id, signal, now));
}

/// The end of a connection keeps a room valid.
pub proof fn law_disconnect_keeps_valid(
    room: RoomModel,
    connection: ConnectionIdentityView,
    now: int,
)
    requires
        room.valid(),
        room.drop_timely(connection, now),
    ensures
        room.disconnect(connection, now).valid(),
{
    if room.presenter is Some && room.presenter->0.is_on(connection) {
        let left = RoomModel {
            presenter: Some(room.presenter->0.dropped(now, room.presenter_resume_grace)),
            ..room
        };
        assert(left.viewers == room.viewers);
        keep_tell_viewers(
            left,
            |p: PeerModel| p.viewer_state == Some(ViewerState::Approved),
            ServerMessageView::PresenterDisconnected { server_timestamp: clock::wire_time(now) },
        );
    } else {
        found_viewer(room.viewers, connection.peer_id);
        if let Some(i) = model::find_viewer(room.viewers, connection.peer_id) {
            let dropped = room.viewers[i].dropped(now, room.viewer_resume_grace);
            let viewer = if dropped.viewer_state == Some(ViewerState::Approved) {
                PeerModel { viewer_state: Some(ViewerState::Disconnected), ..dropped }
            } else {
                dropped
            };
            if room.viewers[i].is_on(connection) {
                keep_with_viewer(room, i, viewer);
                keep_tell_snapshot(room.with_viewer(i, viewer), now);
            }
        }
    }
}

/// Closing keeps a room valid.
pub proof fn law_close_keeps_valid(room: RoomModel, now: int, expired: bool)
    requires
        room.valid(),
    ensures
        room.close(now, expired).valid(),
{
    let server_timestamp = clock::wire_time(now);
    let message = if expired {
        ServerMessageView::RoomExpired { server_timestamp }
    } else {
        ServerMessageView::RoomClosed { server_timestamp }
    };
    let ended = RoomModel { lifecycle: room.close(now, expired).lifecycle, ..room };
    assert(ended.viewers == room.viewers);
    keep_tell_presenter(ended, message);
    keep_tell_viewers(ended.tell_presenter(message), |p: PeerModel| true, message);
}

/// Leaving keeps a room valid.
pub proof fn law_leave_keeps_valid(room: RoomModel, connection: ConnectionIdentityView, now: int)
    requires
        room.valid(),
    ensures
        room.leave(connection, now).valid(),
{
    law_close_keeps_valid(room, now, false);
    found_viewer(room.viewers, connection.peer_id);
    if let Some(i) = model::find_viewer(room.viewers, connection.peer_id) {
        let message = ServerMessageView::ViewerLeft {
            server_timestamp: clock::wire_time(now),
            peer_id: connection.peer_id,
        };
        keep_remove(room.viewers, i);
        assert(room.without_viewer(i).valid());
        keep_tell_presenter(room.without_viewer(i), message);
        keep_tell_snapshot(room.without_viewer(i).tell_presenter(message), now);
    }
}

/// Time keeps a room valid.
pub proof fn law_expire_stale_keeps_valid(room: RoomModel, now: int)
    requires
        room.valid(),
    ensures
        room.expire_stale(now).valid(),
{
    law_close_keeps_valid(room, now, true);
    law_close_keeps_valid(room, now, false);
    keep_filter(room.viewers, |p: PeerModel| !room.stale(p, now));
}

/// Learning how much a connection can take keeps a room valid.
pub proof fn law_refresh_keeps_valid(room: RoomModel, connection_id: Seq<char>, free: nat)
    requires
        room.valid(),
    ensures
        room.refresh(connection_id, free).valid(),
{
    let after = room.refresh(connection_id, free).viewers;
    assert forall|a: int| 0 <= a < after.len() implies (#[trigger] after[a]).valid_viewer() by {
        assert(room.viewers[a].valid_viewer());
    }
    assert forall|a: int, b: int| 0 <= a < b < after.len() implies (#[trigger] after[a]).peer_id != (
    #[trigger] after[b]).peer_id by {
        assert(room.viewers[a].peer_id != room.viewers[b].peer_id);
    }
}

} // verus!
