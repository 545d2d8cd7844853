//! What each command does to a room and to those in it, said of what a room
//! holds and of what its connections are handed.
use vstd::prelude::*;
use vstd::seq_lib::*;

use crate::clock;
use crate::protocol::{
    PeerRole, PeerSnapshotView, RoomAccessPolicy, RoomLifecycle, ServerMessageView, SharingState,
    ViewerState,
};
use crate::room::actor;
use crate::room::actor::{RoomCommandView, RoomReplyView};
use crate::room::laws;
use crate::room::model;
use crate::room::model::{PeerModel, RoomModel};
use crate::room::types::{
    AuthOutcomeView, ConnectionIdentityView, DomainError, OutgoingView, RoutedSignalView,
    SessionHandleView,
};
use crate::room::validity;
use crate::seqs;

verus! {

/// Whether a room takes commands at a moment.
pub open spec fn lasts(room: RoomModel, now: int) -> bool {
    room.lifecycle == RoomLifecycle::Open && now < room.expires_at
}

/// Whether a connection is handed a message between two states of a room.
pub open spec fn handed(
    before: RoomModel,
    after: RoomModel,
    connection_id: Seq<char>,
    message: ServerMessageView,
) -> bool {
    exists|k: int|
        before.outgoing.len() <= k < after.outgoing.len() && #[trigger] after.outgoing[k]
            == (OutgoingView::Deliver { connection_id, message })
}

/// Whether a peer that has room for a message is handed one between two states.
pub open spec fn hears(
    before: RoomModel,
    after: RoomModel,
    peer: PeerModel,
    message: ServerMessageView,
) -> bool {
    (peer.outbound matches Some(free) && free > 0) ==> handed(
        before,
        after,
        peer.connection_id,
        message,
    )
}

/// Whether nothing that was to be sent is lost between two states.
pub open spec fn keeps_mail(before: RoomModel, after: RoomModel) -> bool {
    &&& before.outgoing.len() <= after.outgoing.len()
    &&& forall|k: int|
        0 <= k < before.outgoing.len() ==> #[trigger] after.outgoing[k] == before.outgoing[k]
}

/// Whether every message between two states is this one.
pub open spec fn says_only(
    before: RoomModel,
    after: RoomModel,
    message: ServerMessageView,
) -> bool {
    forall|k: int|
        before.outgoing.len() <= k < after.outgoing.len() ==> match #[trigger] after.outgoing[k] {
            OutgoingView::Deliver { message: said, .. } => said == message,
            OutgoingView::Close { .. } => true,
        }
}

/// Whether a peer is the same but for what its connection can still take.
pub open spec fn same_but_queue(before: PeerModel, after: PeerModel) -> bool {
    after == (PeerModel { connected: after.connected, outbound: after.outbound, ..before })
}

/// Whether a peer was sent one message: it took one of the free places, or was
/// cut off for want of one.
pub open spec fn took_one(before: PeerModel, after: PeerModel) -> bool {
    &&& same_but_queue(before, after)
    &&& match before.outbound {
        None => after == before,
        Some(free) => if free > 0 {
            after.outbound == Some((free - 1) as nat) && after.connected == before.connected
        } else {
            after.outbound is None && !after.connected
        },
    }
}

/// Whether a room is the same but for its peers and what is to be sent.
pub open spec fn same_room(before: RoomModel, after: RoomModel) -> bool {
    after == (RoomModel {
        presenter: after.presenter,
        viewers: after.viewers,
        outgoing: after.outgoing,
        ..before
    })
}

/// The viewers that hold a seat: let in, or let in and away for a moment.
pub open spec fn seats(viewers: Seq<PeerModel>) -> nat {
    viewers.filter(
        |p: PeerModel|
            p.viewer_state == Some(ViewerState::Approved) || p.viewer_state == Some(
                ViewerState::Disconnected,
            ),
    ).len()
}

/// The viewers that wait to be let in.
pub open spec fn waiters(viewers: Seq<PeerModel>) -> nat {
    viewers.filter(|p: PeerModel| p.viewer_state == Some(ViewerState::Pending)).len()
}

proof fn lemma_seats(viewers: Seq<PeerModel>)
    ensures
        seats(viewers) == seqs::count(viewers, |p: PeerModel| p.admitted()),
        waiters(viewers) == seqs::count(viewers, |p: PeerModel| p.pending()),
{
    assert((|p: PeerModel|
        p.viewer_state == Some(ViewerState::Approved) || p.viewer_state == Some(
            ViewerState::Disconnected,
        )) =~= (|p: PeerModel| p.admitted()));
    assert((|p: PeerModel| p.viewer_state == Some(ViewerState::Pending)) =~= (|p: PeerModel|
        p.pending()));
}

/// The viewer at place `i` is found by its identifier.
proof fn lemma_find(room: RoomModel, i: int)
    requires
        room.valid(),
        0 <= i < room.viewers.len(),
    ensures
        model::find_viewer(room.viewers, room.viewers[i].peer_id) == Some(i),
{
    let is_it = |p: PeerModel| p.peer_id == room.viewers[i].peer_id;
    assert forall|j: int| 0 <= j < i implies !is_it(#[trigger] room.viewers[j]) by {
        assert(room.viewers[j].peer_id != room.viewers[i].peer_id);
    }
    seqs::lemma_first(room.viewers, is_it, i);
}

/// Nobody is found by an identifier that nobody has.
proof fn lemma_find_none(room: RoomModel, peer_id: Seq<char>)
    requires
        forall|j: int| 0 <= j < room.viewers.len() ==> (#[trigger] room.viewers[j]).peer_id != peer_id,
    ensures
        model::find_viewer(room.viewers, peer_id) is None,
{
    seqs::lemma_no_first(room.viewers, |p: PeerModel| p.peer_id == peer_id);
}

/// What comes of a message to several viewers.
proof fn lemma_told(
    viewers: Seq<PeerModel>,
    who: spec_fn(PeerModel) -> bool,
    message: ServerMessageView,
)
    ensures
        ({
            let effects = model::told_effects(viewers, who, message);
            &&& forall|i: int|
                0 <= i < viewers.len() && who(#[trigger] viewers[i]) && (
                viewers[i].outbound matches Some(free) && free > 0) ==> effects.contains(
                    OutgoingView::Deliver { connection_id: viewers[i].connection_id, message },
                )
            &&& forall|k: int|
                0 <= k < effects.len() ==> match #[trigger] effects[k] {
                    OutgoingView::Deliver { connection_id, message: said } => said == message
                        && exists|i: int|
                        0 <= i < viewers.len() && who(#[trigger] viewers[i])
                            && viewers[i].connection_id == connection_id,
                    OutgoingView::Close { .. } => true,
                }
        }),
    decreases viewers.len(),
{
    if viewers.len() > 0 {
        let init = viewers.drop_last();
        lemma_told(init, who, message);
        let before = model::told_effects(init, who, message);
        let effects = model::told_effects(viewers, who, message);
        assert forall|i: int|
            0 <= i < viewers.len() && who(#[trigger] viewers[i]) && (
            viewers[i].outbound matches Some(free) && free > 0) implies effects.contains(
            OutgoingView::Deliver { connection_id: viewers[i].connection_id, message },
        ) by {
            let wanted = OutgoingView::Deliver {
                connection_id: viewers[i].connection_id,
                message,
            };
            if i < init.len() {
                assert(init[i] == viewers[i]);
                assert(before.contains(wanted));
                let k = choose|k: int| 0 <= k < before.len() && before[k] == wanted;
                assert(effects[k] == wanted);
            } else {
                assert(effects[before.len() as int] == wanted);
            }
        }
        assert forall|k: int| 0 <= k < effects.len() implies match #[trigger] effects[k] {
            OutgoingView::Deliver { connection_id, message: said } => said == message && exists|
                i: int,
            |
                0 <= i < viewers.len() && who(#[trigger] viewers[i]) && viewers[i].connection_id
                    == connection_id,
            OutgoingView::Close { .. } => true,
        } by {
            if k < before.len() {
                assert(effects[k] == before[k]);
                if let OutgoingView::Deliver { connection_id, .. } = before[k] {
                    let i = choose|i: int|
                        0 <= i < init.len() && who(#[trigger] init[i]) && init[i].connection_id
                            == connection_id;
                    assert(viewers[i] == init[i]);
                }
            } else {
                assert(who(viewers[viewers.len() - 1]));
            }
        }
    }
}

/// A room in which several viewers were told something.
proof fn lemma_tell_viewers(
    room: RoomModel,
    who: spec_fn(PeerModel) -> bool,
    message: ServerMessageView,
)
    ensures
        ({
            let after = room.tell_viewers(who, message);
            &&& keeps_mail(room, after)
            &&& says_only(room, after, message)
            &&& after.viewers.len() == room.viewers.len()
            &&& forall|i: int|
                #![trigger room.viewers[i]]
                #![trigger after.viewers[i]]
                0 <= i < room.viewers.len() ==> if who(room.viewers[i]) {
                    took_one(room.viewers[i], after.viewers[i]) && hears(
                        room,
                        after,
                        room.viewers[i],
                        message,
                    )
                } else {
                    after.viewers[i] == room.viewers[i]
                }
            &&& forall|connection_id: Seq<char>|
                handed(room, after, connection_id, message) ==> exists|i: int|
                    0 <= i < room.viewers.len() && who(#[trigger] room.viewers[i])
                        && room.viewers[i].connection_id == connection_id
        }),
{
    lemma_told(room.viewers, who, message);
    let effects = model::told_effects(room.viewers, who, message);
    let after = room.tell_viewers(who, message);
    assert(after.outgoing == room.outgoing + effects);
    assert forall|k: int| room.outgoing.len() <= k < after.outgoing.len() implies match #[trigger] after.outgoing[k] {
        OutgoingView::Deliver { message: said, .. } => said == message,
        OutgoingView::Close { .. } => true,
    } by {
        assert(after.outgoing[k] == effects[k - room.outgoing.len()]);
    }
    assert forall|i: int|
        #![trigger room.viewers[i]]
        #![trigger after.viewers[i]]
        0 <= i < room.viewers.len() implies if who(room.viewers[i]) {
        took_one(room.viewers[i], after.viewers[i]) && hears(room, after, room.viewers[i], message)
    } else {
        after.viewers[i] == room.viewers[i]
    } by {
        if who(room.viewers[i]) && (room.viewers[i].outbound matches Some(free) && free > 0) {
            let wanted = OutgoingView::Deliver {
                connection_id: room.viewers[i].connection_id,
                message,
            };
            assert(effects.contains(wanted));
            let k = choose|k: int| 0 <= k < effects.len() && effects[k] == wanted;
            assert(after.outgoing[room.outgoing.len() + k] == wanted);
        }
    }
    assert forall|connection_id: Seq<char>|
        handed(room, after, connection_id, message) implies exists|i: int|
        0 <= i < room.viewers.len() && who(#[trigger] room.viewers[i])
            && room.viewers[i].connection_id == connection_id by {
        let k = choose|k: int|
            room.outgoing.len() <= k < after.outgoing.len() && #[trigger] after.outgoing[k]
                == (OutgoingView::Deliver { connection_id, message });
        assert(after.outgoing[k] == effects[k - room.outgoing.len()]);
    }
}

/// A room in which the presenter was told something.
proof fn lemma_tell_presenter(room: RoomModel, message: ServerMessageView)
    ensures
        ({
            let after = room.tell_presenter(message);
            &&& keeps_mail(room, after)
            &&& says_only(room, after, message)
            &&& after.viewers == room.viewers
            &&& after.presenter is Some <==> room.presenter is Some
            &&& room.presenter matches Some(p) ==> took_one(p, after.presenter->0) && hears(
                room,
                after,
                p,
                message,
            )
            &&& forall|connection_id: Seq<char>|
                handed(room, after, connection_id, message) ==> room.presenter is Some
                    && room.presenter->0.connection_id == connection_id
        }),
{
    let after = room.tell_presenter(message);
    if let Some(p) = room.presenter {
        if p.outbound matches Some(free) && free > 0 {
            assert(after.outgoing[room.outgoing.len() as int] == (OutgoingView::Deliver {
                connection_id: p.connection_id,
                message,
            }));
        }
    }
}

/// What was handed out stays so.
proof fn lemma_handed_on(
    first: RoomModel,
    second: RoomModel,
    third: RoomModel,
    connection_id: Seq<char>,
    message: ServerMessageView,
)
    requires
        keeps_mail(first, second),
        keeps_mail(second, third),
        handed(first, second, connection_id, message) || handed(
            second,
            third,
            connection_id,
            message,
        ),
    ensures
        handed(first, third, connection_id, message),
{
    let wanted = OutgoingView::Deliver { connection_id, message };
    if handed(first, second, connection_id, message) {
        let k = choose|k: int|
            first.outgoing.len() <= k < second.outgoing.len() && #[trigger] second.outgoing[k]
                == wanted;
        assert(third.outgoing[k] == second.outgoing[k]);
    } else {
        let k = choose|k: int|
            second.outgoing.len() <= k < third.outgoing.len() && #[trigger] third.outgoing[k]
                == wanted;
        assert(third.outgoing[k] == wanted);
    }
}

/// A room that is closed.
proof fn lemma_close(room: RoomModel, now: int, expired: bool)
    ensures
        ({
            let after = room.close(now, expired);
            let server_timestamp = clock::wire_time(now);
            let message = if expired {
                ServerMessageView::RoomExpired { server_timestamp }
            } else {
                ServerMessageView::RoomClosed { server_timestamp }
            };
            &&& after.lifecycle == if expired {
                RoomLifecycle::Expired
            } else {
                RoomLifecycle::Closed
            }
            &&& keeps_mail(room, after)
            &&& says_only(room, after, message)
            &&& room.presenter matches Some(p) ==> hears(room, after, p, message)
            &&& after.viewers.len() == room.viewers.len()
            &&& forall|i: int|
                0 <= i < room.viewers.len() ==> hears(
                    room,
                    after,
                    #[trigger] room.viewers[i],
                    message,
                )
        }),
{
    let server_timestamp = clock::wire_time(now);
    let message = if expired {
        ServerMessageView::RoomExpired { server_timestamp }
    } else {
        ServerMessageView::RoomClosed { server_timestamp }
    };
    let marked = RoomModel {
        lifecycle: if expired {
            RoomLifecycle::Expired
        } else {
            RoomLifecycle::Closed
        },
        ..room
    };
    let first = marked.tell_presenter(message);
    let all = |p: PeerModel| true;
    let after = first.tell_viewers(all, message);
    lemma_tell_presenter(marked, message);
    lemma_tell_viewers(first, all, message);
    assert(after == room.close(now, expired));
    if let Some(p) = room.presenter {
        if p.outbound matches Some(free) && free > 0 {
            lemma_handed_on(marked, first, after, p.connection_id, message);
            let k = choose|k: int|
                marked.outgoing.len() <= k < after.outgoing.len() && #[trigger] after.outgoing[k]
                    == (OutgoingView::Deliver { connection_id: p.connection_id, message });
            assert(after.outgoing[k] == (OutgoingView::Deliver {
                connection_id: p.connection_id,
                message,
            }));
        }
    }
    assert forall|i: int| 0 <= i < room.viewers.len() implies hears(
        room,
        after,
        #[trigger] room.viewers[i],
        message,
    ) by {
        let p = room.viewers[i];
        assert(first.viewers[i] == p);
        assert(hears(first, after, p, message));
        if p.outbound matches Some(free) && free > 0 {
            let k = choose|k: int|
                first.outgoing.len() <= k < after.outgoing.len() && #[trigger] after.outgoing[k]
                    == (OutgoingView::Deliver { connection_id: p.connection_id, message });
            assert(after.outgoing[k] == (OutgoingView::Deliver {
                connection_id: p.connection_id,
                message,
            }));
        }
    }
}

/// A room whose presenter's connection ended closes once the presenter has been
/// away for its whole grace window, and everyone whose connection can take it is
/// told so; until then it stays open. So it does for as long as the presenter is
/// there, or before one ever came.
pub proof fn law_an_abandoned_room_closes(room: RoomModel, at: int, now: int)
    requires
        room.valid(),
        lasts(room, now),
    ensures
        room.presenter matches Some(p) ==> ({
            let gone = room.disconnect(
                ConnectionIdentityView { peer_id: p.peer_id, connection_id: p.connection_id },
                at,
            );
            let after = gone.expire_stale(now);
            &&& gone.lifecycle == RoomLifecycle::Open
            &&& gone.viewers.len() == room.viewers.len()
            &&& now - at >= room.presenter_resume_grace ==> {
                &&& after.lifecycle == RoomLifecycle::Closed
                &&& forall|i: int|
                    0 <= i < gone.viewers.len() ==> hears(
                        gone,
                        after,
                        #[trigger] gone.viewers[i],
                        ServerMessageView::RoomClosed { server_timestamp: clock::wire_time(now) },
                    )
            }
            &&& now - at < room.presenter_resume_grace ==> after.lifecycle == RoomLifecycle::Open
                && after.outgoing == gone.outgoing
        }),
        (room.presenter matches Some(p) ==> p.connected) ==> room.expire_stale(now).lifecycle
            == RoomLifecycle::Open && room.expire_stale(now).outgoing == room.outgoing,
{
    if let Some(p) = room.presenter {
        let connection = ConnectionIdentityView {
            peer_id: p.peer_id,
            connection_id: p.connection_id,
        };
        let gone = room.disconnect(connection, at);
        lemma_close(gone, now, false);
    }
}

/// A room whose time is up has expired, whatever else holds of it, and everyone
/// whose connection can take it is told so.
pub proof fn law_a_room_ends_when_its_time_is_up(room: RoomModel, now: int)
    requires
        now >= room.expires_at,
    ensures
        ({
            let after = room.expire_stale(now);
            let message = ServerMessageView::RoomExpired { server_timestamp: clock::wire_time(now) };
            &&& after.lifecycle == RoomLifecycle::Expired
            &&& keeps_mail(room, after)
            &&& says_only(room, after, message)
            &&& room.presenter matches Some(p) ==> hears(room, after, p, message)
            &&& forall|i: int|
                0 <= i < room.viewers.len() ==> hears(
                    room,
                    after,
                    #[trigger] room.viewers[i],
                    message,
                )
        }),
{
    lemma_close(room, now, true);
}

/// In a room that goes on, time removes exactly the viewers that waited for
/// approval too long, and those that have been away for two grace windows. The
/// others stay as they were and in their order.
pub proof fn law_time_removes_only_stale_viewers(room: RoomModel, now: int)
    requires
        room.valid(),
        now < room.expires_at,
        room.presenter matches Some(p) ==> p.connected,
    ensures
        ({
            let after = room.expire_stale(now);
            &&& after == (RoomModel { viewers: after.viewers, ..room })
            &&& after.viewers.no_duplicates()
            &&& forall|p: PeerModel| #[trigger]
                after.viewers.contains(p) <==> room.viewers.contains(p) && !(p.viewer_state == Some(
                    ViewerState::Pending,
                ) && now - p.joined_at >= room.pending_viewer_ttl) && !(!p.connected && (
                p.disconnected_at matches Some(at) && now - at >= 2 * room.viewer_resume_grace))
            &&& forall|keep: spec_fn(PeerModel) -> bool|
                (forall|i: int|
                    0 <= i < room.viewers.len() ==> #[trigger] keep(room.viewers[i])
                        == after.viewers.contains(room.viewers[i])) ==> after.viewers
                    == #[trigger] room.viewers.filter(keep)
        }),
{
    let keep = |p: PeerModel| !room.stale(p, now);
    let after = room.expire_stale(now);
    seqs::lemma_filter_members(room.viewers, keep);
    validity::law_expire_stale_keeps_valid(room, now);
    assert forall|i: int, j: int| 0 <= i < j < after.viewers.len() implies after.viewers[i]
        != after.viewers[j] by {
        assert(after.viewers[i].peer_id != after.viewers[j].peer_id);
    }
    assert forall|other: spec_fn(PeerModel) -> bool|
        (forall|i: int|
            0 <= i < room.viewers.len() ==> #[trigger] other(room.viewers[i])
                == after.viewers.contains(room.viewers[i])) implies after.viewers
        == #[trigger] room.viewers.filter(other) by {
        assert forall|i: int| 0 <= i < room.viewers.len() implies keep(#[trigger] room.viewers[i])
            == other(room.viewers[i]) by {
            assert(room.viewers.contains(room.viewers[i]));
        }
        lemma_filter_same(room.viewers, keep, other);
    }
}

proof fn lemma_filter_same<A>(s: Seq<A>, a: spec_fn(A) -> bool, b: spec_fn(A) -> bool)
    requires
        forall|i: int| 0 <= i < s.len() ==> a(#[trigger] s[i]) == b(s[i]),
    ensures
        s.filter(a) == s.filter(b),
    decreases s.len(),
{
    if s.len() > 0 {
        let init = s.drop_last();
        assert(s =~= init.push(s.last()));
        assert forall|i: int| 0 <= i < init.len() implies a(#[trigger] init[i]) == b(init[i]) by {
            assert(init[i] == s[i]);
        }
        assert(a(s[s.len() - 1]) == b(s[s.len() - 1]));
        lemma_filter_same(init, a, b);
        seqs::lemma_filter_push(init, s.last(), a);
        seqs::lemma_filter_push(init, s.last(), b);
    } else {
        reveal(Seq::filter);
    }
}

/// A signal that is routed is handed to its destination, and to nobody else, as
/// a message of its own kind with all that it carries, from its source and under
/// its request.
pub proof fn law_signals_arrive_as_they_were_sent(
    room: RoomModel,
    source: Seq<char>,
    destination: Seq<char>,
    request_id: Seq<char>,
    signal: RoutedSignalView,
    now: int,
)
    requires
        room.valid(),
        room.route_signal(source, destination, request_id, signal, now).1 is Ok,
    ensures
        ({
            let after = room.route_signal(source, destination, request_id, signal, now).0;
            let at_presenter = room.presenter matches Some(p) && p.peer_id == destination;
            &&& after.outgoing.len() == room.outgoing.len() + 1
            &&& keeps_mail(room, after)
            &&& after.outgoing.last() matches OutgoingView::Deliver { connection_id, message } && {
                &&& at_presenter ==> connection_id == room.presenter->0.connection_id
                &&& !at_presenter ==> exists|i: int|
                    0 <= i < room.viewers.len() && (#[trigger] room.viewers[i]).peer_id
                        == destination && room.viewers[i].connection_id == connection_id
                &&& signal matches RoutedSignalView::Offer { sdp, ice_restart } ==> message == (
                ServerMessageView::SignalOffer {
                    request_id,
                    server_timestamp: clock::wire_time(now),
                    source_peer_id: source,
                    sdp,
                    ice_restart,
                })
                &&& signal matches RoutedSignalView::Answer { sdp } ==> message == (
                ServerMessageView::SignalAnswer {
                    request_id,
                    server_timestamp: clock::wire_time(now),
                    source_peer_id: source,
                    sdp,
                })
                &&& signal matches RoutedSignalView::IceCandidate {
                    candidate,
                    sdp_mid,
                    sdp_m_line_index,
                } ==> message == (ServerMessageView::SignalIceCandidate {
                    request_id,
                    server_timestamp: clock::wire_time(now),
                    source_peer_id: source,
                    candidate,
                    sdp_mid,
                    sdp_m_line_index,
                })
                &&& signal is IceRestart ==> message == (ServerMessageView::SignalIceRestart {
                    request_id,
                    server_timestamp: clock::wire_time(now),
                    source_peer_id: source,
                })
            }
        }),
{
    validity::found_viewer(room.viewers, destination);
}

/// Between the presenter and a viewer a signal is routed exactly if the room
/// goes on, the viewer has been let in, the signal goes the way of its kind, and
/// the destination can take a message. What stands in the way is told.
pub proof fn law_signals_pass_between_the_presenter_and_those_let_in(
    room: RoomModel,
    i: int,
    request_id: Seq<char>,
    signal: RoutedSignalView,
    now: int,
)
    requires
        room.valid(),
        0 <= i < room.viewers.len(),
        room.presenter is Some,
        room.presenter->0.peer_id != room.viewers[i].peer_id,
        forall|j: int|
            0 <= j < room.viewers.len() ==> (#[trigger] room.viewers[j]).peer_id
                != room.presenter->0.peer_id,
    ensures
        ({
            let host = room.presenter->0;
            let viewer = room.viewers[i];
            let down = room.route_signal(host.peer_id, viewer.peer_id, request_id, signal, now).1;
            let up = room.route_signal(viewer.peer_id, host.peer_id, request_id, signal, now).1;
            let inside = viewer.viewer_state == Some(ViewerState::Approved) || viewer.viewer_state
                == Some(ViewerState::Disconnected);
            &&& down == if room.lifecycle == RoomLifecycle::Expired || now >= room.expires_at {
                Err::<(), DomainError>(DomainError::RoomExpired)
            } else if room.lifecycle == RoomLifecycle::Closed {
                Err(DomainError::RoomClosed)
            } else if signal is Answer {
                Err(DomainError::AuthorizationDenied)
            } else if !inside {
                Err(DomainError::ViewerNotApproved)
            } else if viewer.outbound matches Some(free) && free > 0 {
                Ok(())
            } else {
                Err(DomainError::Unavailable)
            }
            &&& up == if room.lifecycle == RoomLifecycle::Expired || now >= room.expires_at {
                Err::<(), DomainError>(DomainError::RoomExpired)
            } else if room.lifecycle == RoomLifecycle::Closed {
                Err(DomainError::RoomClosed)
            } else if signal is Offer {
                Err(DomainError::AuthorizationDenied)
            } else if !inside {
                Err(DomainError::ViewerNotApproved)
            } else if host.outbound matches Some(free) && free > 0 {
                Ok(())
            } else {
                Err(DomainError::Unavailable)
            }
        }),
{
    lemma_find(room, i);
    lemma_find_none(room, room.presenter->0.peer_id);
}

/// Viewers do not signal each other, nobody signals a stranger, and a stranger
/// signals nobody.
pub proof fn law_strangers_are_not_signalled(
    room: RoomModel,
    source: Seq<char>,
    destination: Seq<char>,
    request_id: Seq<char>,
    signal: RoutedSignalView,
    now: int,
)
    requires
        room.valid(),
        lasts(room, now),
    ensures
        ({
            let known = |peer_id: Seq<char>|
                (room.presenter matches Some(p) && p.peer_id == peer_id) || exists|i: int|
                    0 <= i < room.viewers.len() && (#[trigger] room.viewers[i]).peer_id == peer_id;
            let hosted = |peer_id: Seq<char>|
                room.presenter matches Some(p) && p.peer_id == peer_id;
            let r = room.route_signal(source, destination, request_id, signal, now);
            &&& !known(source) ==> r == (room, Err::<(), DomainError>(
                DomainError::AuthorizationDenied,
            ))
            &&& known(source) && !known(destination) ==> r == (room, Err::<(), DomainError>(
                DomainError::InvalidDestination,
            ))
            &&& known(source) && known(destination) && hosted(source) == hosted(destination) ==> r
                == (room, Err::<(), DomainError>(DomainError::AuthorizationDenied))
        }),
{
    validity::found_viewer(room.viewers, source);
    validity::found_viewer(room.viewers, destination);
}

/// The presenter's seat is taken by whoever knows the presenter's secret while
/// the room goes on. One who sat there before keeps its identifier and its
/// joining time; the connection and the resume token are new. No viewer is
/// touched, and nobody is told.
pub proof fn law_the_presenter_enters_with_the_secret(
    room: RoomModel,
    credential: Seq<char>,
    session: SessionHandleView,
    now: int,
    peer_id: Seq<char>,
    token: Seq<char>,
)
    ensures
        ({
            let (after, answer) = room.admit_presenter(credential, session, now, peer_id, token);
            let knows = room.presenter_digest == room.keys.presenter(credential);
            &&& answer is Ok <==> lasts(room, now) && knows
            &&& answer == Err::<AuthOutcomeView, DomainError>(DomainError::AuthenticationFailed)
                <==> lasts(room, now) && !knows
            &&& answer matches Ok(outcome) ==> {
                &&& after == (RoomModel { presenter: after.presenter, ..room })
                &&& after.presenter matches Some(host) && {
                    &&& host.peer_id == match room.presenter {
                        Some(p) => p.peer_id,
                        None => peer_id,
                    }
                    &&& host.joined_at == match room.presenter {
                        Some(p) => p.joined_at,
                        None => now,
                    }
                    &&& host.role == PeerRole::Presenter
                    &&& host.connected && host.connection_id == session.connection_id
                    &&& host.outbound == Some(session.capacity as nat)
                    &&& host.resume_digest == room.keys.resume(token)
                    &&& host.resume_expires_at == now + room.presenter_resume_grace
                    &&& host.disconnected_at is None
                    &&& host.display_name is None && host.friend_code is None && host.viewer_state
                        is None
                    &&& outcome.peer_id == host.peer_id
                }
                &&& outcome.room_id == room.room_id
                &&& outcome.connection_id == session.connection_id
                &&& outcome.role == PeerRole::Presenter
                &&& outcome.resume_token == token
                &&& outcome.resume_expires_at == now + room.presenter_resume_grace
                &&& !outcome.resumed
                &&& outcome.snapshot == after.snapshot(now)
            }
        }),
{
}

/// A viewer is admitted exactly if the room goes on, it knows the viewers'
/// secret, and the room's policy lets it: a public room while a seat is free, a
/// room for friends if it is listed besides, a room with approval while few
/// enough wait. Otherwise it is told what is wrong.
pub proof fn law_viewers_enter_as_the_policy_says(
    room: RoomModel,
    credential: Seq<char>,
    display_name: Option<Seq<char>>,
    friend_code: Option<Seq<char>>,
    session: SessionHandleView,
    now: int,
    peer_id: Seq<char>,
    token: Seq<char>,
)
    ensures
        ({
            let answer = room.admit_viewer(
                credential,
                display_name,
                friend_code,
                session,
                now,
                peer_id,
                token,
            ).1;
            let knows = room.viewer_digest == room.keys.viewer(credential);
            let free = seats(room.viewers) < room.maximum_viewers;
            let listed = friend_code matches Some(code) && room.allowed_friend_codes.contains(code);
            &&& answer is Ok <==> lasts(room, now) && knows && match room.access_policy {
                RoomAccessPolicy::Public => free,
                RoomAccessPolicy::FriendsOnly => listed && free,
                RoomAccessPolicy::ApprovalRequired => waiters(room.viewers)
                    < room.maximum_pending_viewers,
            }
            &&& lasts(room, now) && answer is Err ==> answer->Err_0 == if !knows {
                DomainError::AuthenticationFailed
            } else {
                match room.access_policy {
                    RoomAccessPolicy::Public => DomainError::RoomFull,
                    RoomAccessPolicy::FriendsOnly => if friend_code is None {
                        DomainError::IdentityRequired
                    } else if !listed {
                        DomainError::AuthenticationFailed
                    } else {
                        DomainError::RoomFull
                    },
                    RoomAccessPolicy::ApprovalRequired => DomainError::PendingViewerLimitReached,
                }
            }
        }),
{
    lemma_seats(room.viewers);
}

/// A viewer that is admitted is the last of the room's viewers, on its
/// connection and under its token: waiting where the presenter decides, let in
/// otherwise. The others stay as they are, and the presenter is told: of the one
/// that waits, or how the room looks now.
pub proof fn law_an_admitted_viewer_is_there(
    room: RoomModel,
    credential: Seq<char>,
    display_name: Option<Seq<char>>,
    friend_code: Option<Seq<char>>,
    session: SessionHandleView,
    now: int,
    peer_id: Seq<char>,
    token: Seq<char>,
)
    requires
        room.valid(),
        forall|j: int| 0 <= j < room.viewers.len() ==> (#[trigger] room.viewers[j]).peer_id != peer_id,
        room.admit_viewer(
            credential,
            display_name,
            friend_code,
            session,
            now,
            peer_id,
            token,
        ).1 is Ok,
    ensures
        ({
            let (after, answer) = room.admit_viewer(
                credential,
                display_name,
                friend_code,
                session,
                now,
                peer_id,
                token,
            );
            let viewer = after.viewers.last();
            let outcome = answer->Ok_0;
            let waits = room.access_policy == RoomAccessPolicy::ApprovalRequired;
            &&& same_room(room, after)
            &&& after.viewers == room.viewers.push(viewer)
            &&& viewer.peer_id == peer_id && viewer.role == PeerRole::Viewer
            &&& viewer.connected && viewer.connection_id == session.connection_id
            &&& viewer.outbound == Some(session.capacity as nat)
            &&& viewer.friend_code == friend_code
            &&& viewer.display_name == match display_name {
                Some(name) => model::kept_name(name),
                None => None,
            }
            &&& viewer.joined_at == now && viewer.disconnected_at is None
            &&& viewer.resume_digest == room.keys.resume(token)
            &&& viewer.resume_expires_at == now + room.viewer_resume_grace
            &&& viewer.viewer_state == Some(
                if waits {
                    ViewerState::Pending
                } else {
                    ViewerState::Approved
                },
            )
            &&& outcome.peer_id == peer_id && outcome.connection_id == session.connection_id
            &&& outcome.room_id == room.room_id && outcome.role == PeerRole::Viewer
            &&& outcome.resume_token == token && !outcome.resumed
            &&& outcome.resume_expires_at == now + room.viewer_resume_grace
            &&& outcome.snapshot == after.snapshot(now)
            &&& keeps_mail(room, after)
            &&& after.presenter is Some <==> room.presenter is Some
            &&& room.presenter matches Some(host) ==> took_one(host, after.presenter->0) && hears(
                room,
                after,
                host,
                if waits {
                    ServerMessageView::ViewerPending {
                        server_timestamp: clock::wire_time(now),
                        viewer: PeerSnapshotView {
                            peer_id,
                            display_name: viewer.display_name,
                            role: PeerRole::Viewer,
                            viewer_state: Some(ViewerState::Pending),
                            connected: true,
                            joined_at: clock::wire_time(now),
                            friend_code,
                        },
                    }
                } else {
                    ServerMessageView::RoomSnapshot {
                        server_timestamp: clock::wire_time(now),
                        snapshot: (RoomModel { viewers: after.viewers, ..room }).snapshot(now),
                    }
                },
            )
        }),
{
    lemma_find_none(room, peer_id);
    let viewer = room.joining(display_name, friend_code, session, now, peer_id, token);
    let joined = RoomModel { viewers: room.viewers.push(viewer), ..room };
    let message = if room.access_policy == RoomAccessPolicy::ApprovalRequired {
        ServerMessageView::ViewerPending {
            server_timestamp: clock::wire_time(now),
            viewer: viewer.snapshot(),
        }
    } else {
        ServerMessageView::RoomSnapshot {
            server_timestamp: clock::wire_time(now),
            snapshot: joined.snapshot(now),
        }
    };
    lemma_tell_presenter(joined, message);
    if let Some(host) = room.presenter {
        lemma_hears_from(room, joined, joined.tell_presenter(message), host, message);
    }
}

/// A change that sends nothing does not matter to who is handed what.
proof fn lemma_hears_from(
    room: RoomModel,
    same: RoomModel,
    after: RoomModel,
    peer: PeerModel,
    message: ServerMessageView,
)
    requires
        same.outgoing == room.outgoing,
        hears(same, after, peer, message),
    ensures
        hears(room, after, peer, message),
{
    if peer.outbound matches Some(free) && free > 0 {
        let wanted = OutgoingView::Deliver { connection_id: peer.connection_id, message };
        let k = choose|k: int|
            same.outgoing.len() <= k < after.outgoing.len() && #[trigger] after.outgoing[k]
                == wanted;
        assert(after.outgoing[k] == wanted);
    }
}

/// A presenter that dropped out comes back with its token until its grace window
/// is over, and is told that it is too late afterwards. It is the same peer on
/// the new connection, and every viewer that is let in and there is told.
pub proof fn law_a_dropped_presenter_can_resume(
    room: RoomModel,
    at: int,
    token: Seq<char>,
    session: SessionHandleView,
    later: int,
)
    requires
        room.valid(),
        room.presenter is Some,
        room.presenter->0.resume_digest == room.keys.resume(token),
        lasts(room, later),
    ensures
        ({
            let host = room.presenter->0;
            let gone = room.disconnect(
                ConnectionIdentityView { peer_id: host.peer_id, connection_id: host.connection_id },
                at,
            );
            let (after, answer) = gone.resume(token, session, later);
            &&& gone.presenter == Some(
                PeerModel {
                    connected: false,
                    outbound: None,
                    disconnected_at: Some(at),
                    resume_expires_at: at + room.presenter_resume_grace,
                    ..host
                },
            )
            &&& same_room(room, gone) && keeps_mail(room, gone)
            &&& gone.viewers.len() == room.viewers.len()
            &&& forall|i: int|
                #![trigger room.viewers[i]]
                0 <= i < room.viewers.len() ==> if room.viewers[i].viewer_state == Some(
                    ViewerState::Approved,
                ) {
                    took_one(room.viewers[i], gone.viewers[i]) && hears(
                        room,
                        gone,
                        room.viewers[i],
                        ServerMessageView::PresenterDisconnected {
                            server_timestamp: clock::wire_time(at),
                        },
                    )
                } else {
                    gone.viewers[i] == room.viewers[i]
                }
            &&& later > at + room.presenter_resume_grace ==> after == gone && answer == Err::<
                AuthOutcomeView,
                DomainError,
            >(DomainError::SessionExpired)
            &&& later <= at + room.presenter_resume_grace ==> {
                &&& answer matches Ok(outcome) && outcome.peer_id == host.peer_id
                    && outcome.connection_id == session.connection_id && outcome.role
                    == PeerRole::Presenter && outcome.resumed && outcome.resume_token == token
                    && outcome.resume_expires_at == at + room.presenter_resume_grace
                    && outcome.snapshot == after.snapshot(later) && outcome.room_id == room.room_id
                &&& after.presenter == Some(
                    PeerModel {
                        connected: true,
                        connection_id: session.connection_id,
                        outbound: Some(session.capacity as nat),
                        disconnected_at: None,
                        resume_expires_at: at + room.presenter_resume_grace,
                        ..host
                    },
                )
                &&& same_room(room, after) && keeps_mail(gone, after)
                &&& forall|i: int|
                    #![trigger gone.viewers[i]]
                    0 <= i < gone.viewers.len() ==> if gone.viewers[i].viewer_state == Some(
                        ViewerState::Approved,
                    ) {
                        took_one(gone.viewers[i], after.viewers[i]) && hears(
                            gone,
                            after,
                            gone.viewers[i],
                            ServerMessageView::PresenterResumed {
                                server_timestamp: clock::wire_time(later),
                            },
                        )
                    } else {
                        after.viewers[i] == gone.viewers[i]
                    }
            }
        }),
{
    let host = room.presenter->0;
    let who = |p: PeerModel| p.viewer_state == Some(ViewerState::Approved);
    let dropped = RoomModel {
        presenter: Some(host.dropped(at, room.presenter_resume_grace)),
        ..room
    };
    let parting = ServerMessageView::PresenterDisconnected {
        server_timestamp: clock::wire_time(at),
    };
    let gone = dropped.tell_viewers(who, parting);
    lemma_tell_viewers(dropped, who, parting);
    assert forall|i: int|
        #![trigger room.viewers[i]]
        0 <= i < room.viewers.len() && room.viewers[i].viewer_state == Some(
            ViewerState::Approved,
        ) implies hears(room, gone, room.viewers[i], parting) by {
        lemma_hears_from(room, dropped, gone, room.viewers[i], parting);
    }
    let revived = RoomModel { presenter: Some(gone.presenter->0.revived(session)), ..gone };
    let coming = ServerMessageView::PresenterResumed { server_timestamp: clock::wire_time(later) };
    let after = revived.tell_viewers(who, coming);
    lemma_tell_viewers(revived, who, coming);
    assert forall|i: int|
        #![trigger gone.viewers[i]]
        0 <= i < gone.viewers.len() && gone.viewers[i].viewer_state == Some(
            ViewerState::Approved,
        ) implies hears(gone, after, gone.viewers[i], coming) by {
        lemma_hears_from(gone, revived, after, gone.viewers[i], coming);
    }
}

/// A viewer that comes back is told of to the presenter. One that waited still
/// waits.
pub proof fn law_a_returning_viewer_is_announced(
    room: RoomModel,
    i: int,
    token: Seq<char>,
    session: SessionHandleView,
    now: int,
)
    requires
        room.valid(),
        lasts(room, now),
        0 <= i < room.viewers.len(),
        room.viewers[i].resume_digest == room.keys.resume(token),
        room.presenter matches Some(p) ==> p.resume_digest != room.keys.resume(token),
        forall|j: int|
            0 <= j < i ==> (#[trigger] room.viewers[j]).resume_digest != room.keys.resume(token),
    ensures
        ({
            let (after, answer) = room.resume(token, session, now);
            let viewer = room.viewers[i];
            &&& answer is Ok <==> now <= viewer.resume_expires_at
            &&& answer matches Err(error) ==> error == DomainError::SessionExpired && after == room
            &&& answer matches Ok(outcome) ==> {
                &&& outcome.peer_id == viewer.peer_id && outcome.resumed && outcome.role
                    == PeerRole::Viewer && outcome.connection_id == session.connection_id
                    && outcome.resume_token == token && outcome.resume_expires_at
                    == viewer.resume_expires_at && outcome.snapshot == after.snapshot(now)
                    && outcome.room_id == room.room_id
                &&& same_room(room, after)
                &&& after.viewers == room.viewers.update(
                    i,
                    PeerModel {
                        connected: true,
                        connection_id: session.connection_id,
                        outbound: Some(session.capacity as nat),
                        disconnected_at: None,
                        viewer_state: if viewer.viewer_state == Some(ViewerState::Pending) {
                            Some(ViewerState::Pending)
                        } else {
                            Some(ViewerState::Approved)
                        },
                        ..viewer
                    },
                )
                &&& keeps_mail(room, after)
                &&& room.presenter matches Some(host) ==> took_one(host, after.presenter->0)
                    && hears(
                    room,
                    after,
                    host,
                    ServerMessageView::ViewerResumed {
                        server_timestamp: clock::wire_time(now),
                        peer_id: viewer.peer_id,
                    },
                )
            }
        }),
{
    let digest = room.keys.resume(token);
    let holds = |p: PeerModel| p.resume_digest == digest;
    assert forall|j: int| 0 <= j < i implies !holds(#[trigger] room.viewers[j]) by {}
    seqs::lemma_first(room.viewers, holds, i);
    assert(room.viewers[i].valid_viewer());
    if now <= room.viewers[i].resume_expires_at {
        let revived = room.viewers[i].revived(session);
        let viewer = if revived.viewer_state == Some(ViewerState::Disconnected) {
            PeerModel { viewer_state: Some(ViewerState::Approved), ..revived }
        } else {
            revived
        };
        let back = room.with_viewer(i, viewer);
        let message = ServerMessageView::ViewerResumed {
            server_timestamp: clock::wire_time(now),
            peer_id: viewer.peer_id,
        };
        lemma_tell_presenter(back, message);
        if let Some(host) = room.presenter {
            lemma_hears_from(room, back, back.tell_presenter(message), host, message);
        }
    }
}

/// The presenter lets in a viewer that waits, while the room goes on and a seat
/// is free. The viewer is told, no other changes, and the presenter sees the
/// room with the viewer in it. Otherwise the presenter is told what is wrong.
pub proof fn law_approving_lets_in_one_that_waits(
    room: RoomModel,
    source: Seq<char>,
    i: int,
    request_id: Seq<char>,
    now: int,
)
    requires
        room.valid(),
        0 <= i < room.viewers.len(),
    ensures
        ({
            let viewer = room.viewers[i];
            let (after, answer) = room.approve(source, viewer.peer_id, request_id, now);
            let hosts = room.presenter matches Some(p) && p.peer_id == source;
            let free = seats(room.viewers) < room.maximum_viewers;
            let waits = viewer.viewer_state == Some(ViewerState::Pending);
            &&& answer is Ok <==> lasts(room, now) && hosts && free && waits
            &&& lasts(room, now) && answer is Err ==> answer->Err_0 == if !hosts {
                DomainError::AuthorizationDenied
            } else if !free {
                DomainError::RoomFull
            } else {
                DomainError::AuthorizationDenied
            }
            &&& answer is Ok ==> {
                &&& same_room(room, after)
                &&& after.viewers.len() == room.viewers.len()
                &&& forall|j: int|
                    0 <= j < room.viewers.len() && j != i ==> #[trigger] after.viewers[j]
                        == room.viewers[j]
                &&& took_one(
                    PeerModel { viewer_state: Some(ViewerState::Approved), ..viewer },
                    after.viewers[i],
                )
                &&& keeps_mail(room, after)
                &&& hears(
                    room,
                    after,
                    viewer,
                    ServerMessageView::ViewerApproved {
                        request_id: Some(request_id),
                        server_timestamp: clock::wire_time(now),
                        peer_id: viewer.peer_id,
                    },
                )
                &&& took_one(room.presenter->0, after.presenter->0)
                &&& hears(
                    room,
                    after,
                    room.presenter->0,
                    ServerMessageView::RoomSnapshot {
                        server_timestamp: clock::wire_time(now),
                        snapshot: (RoomModel { viewers: after.viewers, ..room }).snapshot(now),
                    },
                )
            }
        }),
{
    lemma_seats(room.viewers);
    lemma_find(room, i);
    let viewer = room.viewers[i];
    let (after, answer) = room.approve(source, viewer.peer_id, request_id, now);
    if answer is Ok {
        let message = ServerMessageView::ViewerApproved {
            request_id: Some(request_id),
            server_timestamp: clock::wire_time(now),
            peer_id: viewer.peer_id,
        };
        let told = room.with_viewer(
            i,
            PeerModel { viewer_state: Some(ViewerState::Approved), ..viewer },
        ).tell_viewer(i, message);
        let shown = ServerMessageView::RoomSnapshot {
            server_timestamp: clock::wire_time(now),
            snapshot: told.snapshot(now),
        };
        lemma_tell_presenter(told, shown);
        lemma_after_one(room, told, after, viewer, message, shown);
        assert((RoomModel { viewers: after.viewers, ..room }).snapshot(now) == told.snapshot(now));
    }
}

/// First a viewer, and afterwards the presenter, is told something.
proof fn lemma_after_one(
    room: RoomModel,
    told: RoomModel,
    after: RoomModel,
    viewer: PeerModel,
    message: ServerMessageView,
    shown: ServerMessageView,
)
    requires
        told.outgoing == room.outgoing + viewer.effects(message),
        told.presenter == room.presenter,
        after == told.tell_presenter(shown),
        room.presenter is Some,
    ensures
        keeps_mail(room, after),
        hears(room, after, viewer, message),
        hears(room, after, room.presenter->0, shown),
{
    lemma_tell_presenter(told, shown);
    if viewer.outbound matches Some(free) && free > 0 {
        let wanted = OutgoingView::Deliver { connection_id: viewer.connection_id, message };
        assert(told.outgoing[room.outgoing.len() as int] == wanted);
        assert(after.outgoing[room.outgoing.len() as int] == wanted);
    }
    let host = room.presenter->0;
    if host.outbound matches Some(free) && free > 0 {
        let wanted = OutgoingView::Deliver { connection_id: host.connection_id, message: shown };
        let k = choose|k: int|
            told.outgoing.len() <= k < after.outgoing.len() && #[trigger] after.outgoing[k]
                == wanted;
        assert(after.outgoing[k] == wanted);
    }
}

/// The presenter turns away a viewer that waits, and removes one that was let in,
/// away or not; neither the other way round. The viewer is told and is gone, no
/// other changes, and the presenter sees the room without it.
pub proof fn law_rejecting_and_kicking_remove_one(
    room: RoomModel,
    source: Seq<char>,
    i: int,
    request_id: Seq<char>,
    now: int,
)
    requires
        room.valid(),
        0 <= i < room.viewers.len(),
    ensures
        ({
            let viewer = room.viewers[i];
            let hosts = room.presenter matches Some(p) && p.peer_id == source;
            let waits = viewer.viewer_state == Some(ViewerState::Pending);
            let rejected = room.reject(source, viewer.peer_id, request_id, now);
            let kicked = room.kick(source, viewer.peer_id, request_id, now);
            &&& rejected.1 == if hosts && waits {
                Ok::<(), DomainError>(())
            } else {
                Err(DomainError::AuthorizationDenied)
            }
            &&& kicked.1 == if !hosts {
                Err::<(), DomainError>(DomainError::AuthorizationDenied)
            } else if waits {
                Err(DomainError::ViewerNotApproved)
            } else {
                Ok(())
            }
            &&& rejected.1 is Ok ==> gone(
                room,
                rejected.0,
                i,
                ServerMessageView::ViewerRejected {
                    request_id: Some(request_id),
                    server_timestamp: clock::wire_time(now),
                    peer_id: viewer.peer_id,
                },
                now,
            )
            &&& kicked.1 is Ok ==> gone(
                room,
                kicked.0,
                i,
                ServerMessageView::ViewerKicked {
                    request_id: Some(request_id),
                    server_timestamp: clock::wire_time(now),
                    peer_id: viewer.peer_id,
                },
                now,
            )
        }),
{
    lemma_find(room, i);
    let viewer = room.viewers[i];
    assert(viewer.valid_viewer());
    if room.presenter matches Some(p) && p.peer_id == source {
        let refusal = ServerMessageView::ViewerRejected {
            request_id: Some(request_id),
            server_timestamp: clock::wire_time(now),
            peer_id: viewer.peer_id,
        };
        let removal = ServerMessageView::ViewerKicked {
            request_id: Some(request_id),
            server_timestamp: clock::wire_time(now),
            peer_id: viewer.peer_id,
        };
        lemma_dismiss(room, i, refusal, now);
        lemma_dismiss(room, i, removal, now);
    }
}

/// Whether the viewer at place `i` was told something and is gone, with nobody
/// else changed and the presenter shown the room as it is now.
pub open spec fn gone(
    room: RoomModel,
    after: RoomModel,
    i: int,
    message: ServerMessageView,
    now: int,
) -> bool {
    &&& same_room(room, after)
    &&& after.viewers == room.viewers.remove(i)
    &&& forall|j: int|
        0 <= j < after.viewers.len() ==> (#[trigger] after.viewers[j]).peer_id
            != room.viewers[i].peer_id
    &&& keeps_mail(room, after)
    &&& hears(room, after, room.viewers[i], message)
    &&& room.presenter matches Some(host) ==> after.presenter is Some && took_one(
        host,
        after.presenter->0,
    ) && hears(
        room,
        after,
        host,
        ServerMessageView::RoomSnapshot {
            server_timestamp: clock::wire_time(now),
            snapshot: (RoomModel { viewers: after.viewers, ..room }).snapshot(now),
        },
    )
}

proof fn lemma_dismiss(room: RoomModel, i: int, message: ServerMessageView, now: int)
    requires
        room.valid(),
        0 <= i < room.viewers.len(),
        room.presenter is Some,
    ensures
        gone(room, room.dismiss(i, message).tell_snapshot(now), i, message, now),
{
    let told = room.dismiss(i, message);
    let shown = ServerMessageView::RoomSnapshot {
        server_timestamp: clock::wire_time(now),
        snapshot: told.snapshot(now),
    };
    let after = told.tell_presenter(shown);
    lemma_tell_presenter(told, shown);
    lemma_after_one(room, told, after, room.viewers[i], message, shown);
    assert((RoomModel { viewers: after.viewers, ..room }).snapshot(now) == told.snapshot(now));
    assert forall|j: int| 0 <= j < after.viewers.len() implies (#[trigger] after.viewers[j]).peer_id
        != room.viewers[i].peer_id by {
        let k = if j < i { j } else { j + 1 };
        assert(after.viewers[j] == room.viewers[k]);
        assert(room.viewers[k].peer_id != room.viewers[i].peer_id);
    }
}

/// Nobody is let in, turned away or removed who is not there.
pub proof fn law_absent_viewers_are_not_found(
    room: RoomModel,
    source: Seq<char>,
    target: Seq<char>,
    request_id: Seq<char>,
    now: int,
)
    requires
        room.presenter matches Some(p) && p.peer_id == source,
        forall|j: int| 0 <= j < room.viewers.len() ==> (#[trigger] room.viewers[j]).peer_id != target,
    ensures
        room.reject(source, target, request_id, now) == (room, Err::<(), DomainError>(
            DomainError::ViewerNotFound,
        )),
        room.kick(source, target, request_id, now) == (room, Err::<(), DomainError>(
            DomainError::ViewerNotFound,
        )),
        lasts(room, now) && seats(room.viewers) < room.maximum_viewers ==> room.approve(
            source,
            target,
            request_id,
            now,
        ) == (room, Err::<(), DomainError>(DomainError::ViewerNotFound)),
{
    lemma_seats(room.viewers);
    lemma_find_none(room, target);
}

/// The presenter sets how many viewers fit, from one to the limit, and is told
/// so.
pub proof fn law_capacity_is_what_the_presenter_sets(
    room: RoomModel,
    source: Seq<char>,
    maximum_viewers: u8,
    request_id: Seq<char>,
    now: int,
)
    ensures
        ({
            let (after, answer) = room.update_capacity(source, maximum_viewers, request_id, now);
            let hosts = room.presenter matches Some(p) && p.peer_id == source;
            &&& answer == if !hosts {
                Err::<(), DomainError>(DomainError::AuthorizationDenied)
            } else if maximum_viewers < 1 || maximum_viewers > room.maximum_viewers_hard_limit {
                Err(DomainError::InvalidCapacity)
            } else {
                Ok(())
            }
            &&& answer is Ok ==> {
                &&& after == (RoomModel {
                    maximum_viewers,
                    presenter: after.presenter,
                    outgoing: after.outgoing,
                    ..room
                })
                &&& keeps_mail(room, after)
                &&& hears(
                    room,
                    after,
                    room.presenter->0,
                    ServerMessageView::RoomCapacityUpdated {
                        request_id,
                        server_timestamp: clock::wire_time(now),
                        maximum_viewers,
                    },
                )
                &&& (room.presenter->0.outbound matches Some(free) && free > 1) ==> handed(
                    room,
                    after,
                    room.presenter->0.connection_id,
                    ServerMessageView::RoomSnapshot {
                        server_timestamp: clock::wire_time(now),
                        snapshot: (RoomModel { presenter: after.presenter, maximum_viewers, ..room }).snapshot(
                            now,
                        ),
                    },
                )
            }
        }),
{
    let (after, answer) = room.update_capacity(source, maximum_viewers, request_id, now);
    if answer is Ok {
        let changed = RoomModel { maximum_viewers, ..room };
        let message = ServerMessageView::RoomCapacityUpdated {
            request_id,
            server_timestamp: clock::wire_time(now),
            maximum_viewers,
        };
        let first = changed.tell_presenter(message);
        let shown = ServerMessageView::RoomSnapshot {
            server_timestamp: clock::wire_time(now),
            snapshot: first.snapshot(now),
        };
        lemma_tell_presenter(changed, message);
        lemma_tell_presenter(first, shown);
        let host = room.presenter->0;
        if host.outbound matches Some(free) && free > 0 {
            lemma_handed_on(changed, first, after, host.connection_id, message);
            lemma_hears_from(room, changed, after, host, message);
            if host.outbound->0 > 1 {
                assert(hears(first, after, first.presenter->0, shown));
                lemma_handed_on(changed, first, after, host.connection_id, shown);
                lemma_hears_from(room, changed, after, host, shown);
                assert((RoomModel { presenter: after.presenter, maximum_viewers, ..room }).snapshot(
                    now,
                ) == first.snapshot(now));
            }
        }
    }
}

/// The presenter says how the room is shared while it goes on; it and every
/// viewer that is connected are told, and nothing else is said.
pub proof fn law_sharing_is_what_the_presenter_says(
    room: RoomModel,
    source: Seq<char>,
    sharing_state: SharingState,
    request_id: Seq<char>,
    now: int,
)
    ensures
        ({
            let (after, answer) = room.update_sharing_state(source, sharing_state, request_id, now);
            let hosts = room.presenter matches Some(p) && p.peer_id == source;
            let message = ServerMessageView::RoomSharingStateUpdated {
                request_id,
                server_timestamp: clock::wire_time(now),
                sharing_state,
            };
            &&& answer is Ok <==> lasts(room, now) && hosts
            &&& lasts(room, now) && !hosts ==> answer == Err::<(), DomainError>(
                DomainError::AuthorizationDenied,
            )
            &&& answer is Ok ==> {
                &&& after.sharing_state == sharing_state
                &&& same_room(RoomModel { sharing_state, ..room }, after)
                &&& keeps_mail(room, after)
                &&& says_only(room, after, message)
                &&& hears(room, after, room.presenter->0, message)
                &&& after.viewers.len() == room.viewers.len()
                &&& forall|i: int|
                    #![trigger room.viewers[i]]
                    0 <= i < room.viewers.len() ==> if room.viewers[i].connected {
                        took_one(room.viewers[i], after.viewers[i]) && hears(
                            room,
                            after,
                            room.viewers[i],
                            message,
                        )
                    } else {
                        after.viewers[i] == room.viewers[i]
                    }
            }
        }),
{
    let (after, answer) = room.update_sharing_state(source, sharing_state, request_id, now);
    if answer is Ok {
        let message = ServerMessageView::RoomSharingStateUpdated {
            request_id,
            server_timestamp: clock::wire_time(now),
            sharing_state,
        };
        let changed = RoomModel { sharing_state, ..room };
        let first = changed.tell_presenter(message);
        let who = |p: PeerModel| p.connected;
        lemma_tell_presenter(changed, message);
        lemma_tell_viewers(first, who, message);
        let host = room.presenter->0;
        if host.outbound matches Some(free) && free > 0 {
            lemma_handed_on(changed, first, after, host.connection_id, message);
            lemma_hears_from(room, changed, after, host, message);
        }
        assert forall|i: int|
            #![trigger room.viewers[i]]
            0 <= i < room.viewers.len() && room.viewers[i].connected implies hears(
            room,
            after,
            room.viewers[i],
            message,
        ) by {
            assert(first.viewers[i] == room.viewers[i]);
            let p = room.viewers[i];
            if p.outbound matches Some(free) && free > 0 {
                lemma_handed_on(changed, first, after, p.connection_id, message);
                lemma_hears_from(room, changed, after, p, message);
            }
        }
    }
}

/// A viewer goes by the name that it gave itself last, as far as the name is
/// kept. It is told what its name is now, and the presenter sees it.
pub proof fn law_viewers_name_themselves(
    room: RoomModel,
    i: int,
    display_name: Option<Seq<char>>,
    request_id: Seq<char>,
    now: int,
)
    requires
        room.valid(),
        0 <= i < room.viewers.len(),
    ensures
        ({
            let viewer = room.viewers[i];
            let (after, answer) = room.update_viewer_display_name(
                viewer.peer_id,
                display_name,
                request_id,
                now,
            );
            let name = match display_name {
                Some(given) => model::kept_name(given),
                None => None,
            };
            &&& answer is Ok <==> lasts(room, now)
            &&& answer is Ok ==> {
                &&& same_room(room, after)
                &&& after.viewers.len() == room.viewers.len()
                &&& forall|j: int|
                    0 <= j < room.viewers.len() && j != i ==> #[trigger] after.viewers[j]
                        == room.viewers[j]
                &&& took_one(PeerModel { display_name: name, ..viewer }, after.viewers[i])
                &&& hears(
                    room,
                    after,
                    viewer,
                    ServerMessageView::ViewerDisplayNameUpdated {
                        request_id,
                        server_timestamp: clock::wire_time(now),
                        peer_id: viewer.peer_id,
                        display_name: name,
                    },
                )
                &&& room.presenter matches Some(host) ==> took_one(host, after.presenter->0)
                    && hears(
                    room,
                    after,
                    host,
                    ServerMessageView::RoomSnapshot {
                        server_timestamp: clock::wire_time(now),
                        snapshot: (RoomModel { viewers: after.viewers, ..room }).snapshot(now),
                    },
                )
            }
        }),
        forall|source: Seq<char>|
            lasts(room, now) && (forall|j: int|
                0 <= j < room.viewers.len() ==> (#[trigger] room.viewers[j]).peer_id != source)
                ==> #[trigger] room.update_viewer_display_name(
                source,
                display_name,
                request_id,
                now,
            ) == (room, Err::<(), DomainError>(DomainError::AuthorizationDenied)),
{
    lemma_find(room, i);
    assert forall|source: Seq<char>|
        lasts(room, now) && (forall|j: int|
            0 <= j < room.viewers.len() ==> (#[trigger] room.viewers[j]).peer_id != source) implies
        #[trigger] room.update_viewer_display_name(source, display_name, request_id, now) == (
        room,
        Err::<(), DomainError>(DomainError::AuthorizationDenied),
    ) by {
        lemma_find_none(room, source);
    }
    let viewer = room.viewers[i];
    let (after, answer) = room.update_viewer_display_name(
        viewer.peer_id,
        display_name,
        request_id,
        now,
    );
    if answer is Ok {
        let renamed = PeerModel {
            display_name: model::kept_optional_name(display_name),
            ..viewer
        };
        let message = ServerMessageView::ViewerDisplayNameUpdated {
            request_id,
            server_timestamp: clock::wire_time(now),
            peer_id: viewer.peer_id,
            display_name: renamed.display_name,
        };
        let told = room.with_viewer(i, renamed).tell_viewer(i, message);
        let shown = ServerMessageView::RoomSnapshot {
            server_timestamp: clock::wire_time(now),
            snapshot: told.snapshot(now),
        };
        lemma_tell_presenter(told, shown);
        assert((RoomModel { viewers: after.viewers, ..room }).snapshot(now) == told.snapshot(now));
        if room.presenter is Some {
            lemma_after_one(room, told, after, viewer, message, shown);
        } else if viewer.outbound matches Some(free) && free > 0 {
            assert(after.outgoing[room.outgoing.len() as int] == (OutgoingView::Deliver {
                connection_id: viewer.connection_id,
                message,
            }));
        }
    }
}

/// A viewer whose connection ended is away but keeps its seat, resumable for its
/// grace window, and the presenter sees it so. One that is on another connection
/// by now is not touched, nor is anyone else.
pub proof fn law_a_dropped_viewer_is_away(room: RoomModel, i: int, connection_id: Seq<char>, now: int)
    requires
        room.valid(),
        0 <= i < room.viewers.len(),
        room.presenter matches Some(p) ==> p.peer_id != room.viewers[i].peer_id,
    ensures
        ({
            let viewer = room.viewers[i];
            let after = room.disconnect(
                ConnectionIdentityView { peer_id: viewer.peer_id, connection_id },
                now,
            );
            &&& connection_id != viewer.connection_id ==> after == room
            &&& connection_id == viewer.connection_id ==> {
                &&& same_room(room, after)
                &&& after.viewers == room.viewers.update(
                    i,
                    PeerModel {
                        connected: false,
                        outbound: None,
                        disconnected_at: Some(now),
                        resume_expires_at: now + room.viewer_resume_grace,
                        viewer_state: if viewer.viewer_state == Some(ViewerState::Pending) {
                            Some(ViewerState::Pending)
                        } else {
                            Some(ViewerState::Disconnected)
                        },
                        ..viewer
                    },
                )
                &&& keeps_mail(room, after)
                &&& room.presenter matches Some(host) ==> took_one(host, after.presenter->0)
                    && hears(
                    room,
                    after,
                    host,
                    ServerMessageView::RoomSnapshot {
                        server_timestamp: clock::wire_time(now),
                        snapshot: (RoomModel { viewers: after.viewers, ..room }).snapshot(now),
                    },
                )
            }
        }),
{
    lemma_find(room, i);
    let viewer = room.viewers[i];
    assert(viewer.valid_viewer());
    if connection_id == viewer.connection_id {
        let dropped = viewer.dropped(now, room.viewer_resume_grace);
        let away = if dropped.viewer_state == Some(ViewerState::Approved) {
            PeerModel { viewer_state: Some(ViewerState::Disconnected), ..dropped }
        } else {
            dropped
        };
        let left = room.with_viewer(i, away);
        let shown = ServerMessageView::RoomSnapshot {
            server_timestamp: clock::wire_time(now),
            snapshot: left.snapshot(now),
        };
        let after = left.tell_presenter(shown);
        lemma_tell_presenter(left, shown);
        assert((RoomModel { viewers: after.viewers, ..room }).snapshot(now) == left.snapshot(now));
        if let Some(host) = room.presenter {
            lemma_hears_from(room, left, after, host, shown);
        }
    }
}

/// With the presenter the room ends, and everyone whose connection can take it is
/// told that it closed. A viewer that leaves is gone for good, and the presenter
/// is told who left.
#[verifier::rlimit(50)]
pub proof fn law_leaving_is_for_good(room: RoomModel, now: int)
    requires
        room.valid(),
        room.presenter matches Some(p) ==> forall|j: int|
            0 <= j < room.viewers.len() ==> (#[trigger] room.viewers[j]).peer_id != p.peer_id,
    ensures
        room.presenter is Some && room.presenter->0.connected ==> ({
            let host = room.presenter->0;
            let after = room.leave(
                ConnectionIdentityView { peer_id: host.peer_id, connection_id: host.connection_id },
                now,
            );
            let message = ServerMessageView::RoomClosed { server_timestamp: clock::wire_time(now) };
            &&& after.lifecycle == RoomLifecycle::Closed
            &&& keeps_mail(room, after) && says_only(room, after, message)
            &&& hears(room, after, host, message)
            &&& forall|i: int|
                0 <= i < room.viewers.len() ==> hears(
                    room,
                    after,
                    #[trigger] room.viewers[i],
                    message,
                )
        }),
        forall|i: int|
            #![trigger room.viewers[i]]
            0 <= i < room.viewers.len() ==> ({
                let viewer = room.viewers[i];
                let after = room.leave(
                    ConnectionIdentityView {
                        peer_id: viewer.peer_id,
                        connection_id: viewer.connection_id,
                    },
                    now,
                );
                &&& !viewer.connected ==> after == room
                &&& viewer.connected ==> {
                    &&& same_room(room, after)
                    &&& after.viewers == room.viewers.remove(i)
                    &&& keeps_mail(room, after)
                    &&& room.presenter matches Some(host) ==> hears(
                        room,
                        after,
                        host,
                        ServerMessageView::ViewerLeft {
                            server_timestamp: clock::wire_time(now),
                            peer_id: viewer.peer_id,
                        },
                    )
                }
            }),
{
    if let Some(host) = room.presenter {
        lemma_close(room, now, false);
    }
    assert forall|i: int|
        #![trigger room.viewers[i]]
        0 <= i < room.viewers.len() && room.viewers[i].connected implies ({
        let viewer = room.viewers[i];
        let after = room.leave(
            ConnectionIdentityView {
                peer_id: viewer.peer_id,
                connection_id: viewer.connection_id,
            },
            now,
        );
        &&& same_room(room, after)
        &&& after.viewers == room.viewers.remove(i)
        &&& keeps_mail(room, after)
        &&& room.presenter matches Some(host) ==> hears(
            room,
            after,
            host,
            ServerMessageView::ViewerLeft {
                server_timestamp: clock::wire_time(now),
                peer_id: viewer.peer_id,
            },
        )
    }) by {
        lemma_find(room, i);
        let viewer = room.viewers[i];
        let without = room.without_viewer(i);
        let message = ServerMessageView::ViewerLeft {
            server_timestamp: clock::wire_time(now),
            peer_id: viewer.peer_id,
        };
        let first = without.tell_presenter(message);
        let shown = ServerMessageView::RoomSnapshot {
            server_timestamp: clock::wire_time(now),
            snapshot: first.snapshot(now),
        };
        let after = first.tell_presenter(shown);
        lemma_tell_presenter(without, message);
        lemma_tell_presenter(first, shown);
        if let Some(host) = room.presenter {
            if host.outbound matches Some(free) && free > 0 {
                lemma_handed_on(without, first, after, host.connection_id, message);
                lemma_hears_from(room, without, after, host, message);
            }
        }
    }
    assert forall|i: int|
        #![trigger room.viewers[i]]
        0 <= i < room.viewers.len() && !room.viewers[i].connected implies room.leave(
        ConnectionIdentityView {
            peer_id: room.viewers[i].peer_id,
            connection_id: room.viewers[i].connection_id,
        },
        now,
    ) == room by {
        lemma_find(room, i);
    }
}

/// A connection speaks for a peer exactly while the peer is connected on it.
pub proof fn law_a_peer_speaks_through_its_own_connection(
    room: RoomModel,
    connection: ConnectionIdentityView,
)
    requires
        room.valid(),
    ensures
        room.is_current(connection) <==> match room.presenter {
            Some(p) if p.peer_id == connection.peer_id => p.connected && p.connection_id
                == connection.connection_id,
            _ => exists|i: int|
                0 <= i < room.viewers.len() && (#[trigger] room.viewers[i]).peer_id
                    == connection.peer_id && room.viewers[i].connected
                    && room.viewers[i].connection_id == connection.connection_id,
        },
{
    validity::found_viewer(room.viewers, connection.peer_id);
    if let Some(i) = model::find_viewer(room.viewers, connection.peer_id) {
        assert forall|j: int|
            0 <= j < room.viewers.len() && (#[trigger] room.viewers[j]).peer_id
                == connection.peer_id implies j == i by {
            lemma_find(room, j);
        }
    }
}

/// An approval from a connection that speaks for its peer is that peer's.
pub proof fn law_an_approval_is_carried_out(
    room: RoomModel,
    source: ConnectionIdentityView,
    target: Seq<char>,
    request_id: Seq<char>,
    now: int,
    drawn: Seq<char>,
    token: Seq<char>,
)
    requires
        room.is_current(source),
    ensures
        ({
            let done = room.approve(source.peer_id, target, request_id, now);
            actor::performed(
                room,
                RoomCommandView::Approve { source, target, request_id },
                now,
                drawn,
                token,
            ) == (done.0, RoomReplyView::Done(done.1))
        }),
{
}

/// A rejection from a connection that speaks for its peer is that peer's.
pub proof fn law_a_rejection_is_carried_out(
    room: RoomModel,
    source: ConnectionIdentityView,
    target: Seq<char>,
    request_id: Seq<char>,
    now: int,
    drawn: Seq<char>,
    token: Seq<char>,
)
    requires
        room.is_current(source),
    ensures
        ({
            let done = room.reject(source.peer_id, target, request_id, now);
            actor::performed(
                room,
                RoomCommandView::Reject { source, target, request_id },
                now,
                drawn,
                token,
            ) == (done.0, RoomReplyView::Done(done.1))
        }),
{
}

/// A removal from a connection that speaks for its peer is that peer's.
pub proof fn law_a_removal_is_carried_out(
    room: RoomModel,
    source: ConnectionIdentityView,
    target: Seq<char>,
    request_id: Seq<char>,
    now: int,
    drawn: Seq<char>,
    token: Seq<char>,
)
    requires
        room.is_current(source),
    ensures
        ({
            let done = room.kick(source.peer_id, target, request_id, now);
            actor::performed(
                room,
                RoomCommandView::Kick { source, target, request_id },
                now,
                drawn,
                token,
            ) == (done.0, RoomReplyView::Done(done.1))
        }),
{
}

/// A new capacity from a connection that speaks for its peer is that peer's.
pub proof fn law_a_resizing_is_carried_out(
    room: RoomModel,
    source: ConnectionIdentityView,
    maximum_viewers: u8,
    request_id: Seq<char>,
    now: int,
    drawn: Seq<char>,
    token: Seq<char>,
)
    requires
        room.is_current(source),
    ensures
        ({
            let done = room.update_capacity(source.peer_id, maximum_viewers, request_id, now);
            actor::performed(
                room,
                RoomCommandView::UpdateCapacity { source, maximum_viewers, request_id },
                now,
                drawn,
                token,
            ) == (done.0, RoomReplyView::Done(done.1))
        }),
{
}

/// A sharing state from a connection that speaks for its peer is that peer's.
pub proof fn law_a_share_is_carried_out(
    room: RoomModel,
    source: ConnectionIdentityView,
    sharing_state: SharingState,
    request_id: Seq<char>,
    now: int,
    drawn: Seq<char>,
    token: Seq<char>,
)
    requires
        room.is_current(source),
    ensures
        ({
            let done = room.update_sharing_state(source.peer_id, sharing_state, request_id, now);
            actor::performed(
                room,
                RoomCommandView::UpdateSharingState { source, sharing_state, request_id },
                now,
                drawn,
                token,
            ) == (done.0, RoomReplyView::Done(done.1))
        }),
{
}

/// A new name from a connection that speaks for its peer is that peer's.
pub proof fn law_a_renaming_is_carried_out(
    room: RoomModel,
    source: ConnectionIdentityView,
    display_name: Option<Seq<char>>,
    request_id: Seq<char>,
    now: int,
    drawn: Seq<char>,
    token: Seq<char>,
)
    requires
        room.is_current(source),
    ensures
        ({
            let done = room.update_viewer_display_name(source.peer_id, display_name, request_id, now);
            actor::performed(
                room,
                RoomCommandView::UpdateViewerDisplayName { source, display_name, request_id },
                now,
                drawn,
                token,
            ) == (done.0, RoomReplyView::Done(done.1))
        }),
{
}

/// A signal from a connection that speaks for its peer is that peer's.
pub proof fn law_a_signal_is_carried_out(
    room: RoomModel,
    source: ConnectionIdentityView,
    destination: Seq<char>,
    signal: RoutedSignalView,
    request_id: Seq<char>,
    now: int,
    drawn: Seq<char>,
    token: Seq<char>,
)
    requires
        room.is_current(source),
    ensures
        ({
            let done = room.route_signal(source.peer_id, destination, request_id, signal, now);
            actor::performed(
                room,
                RoomCommandView::RouteSignal { source, destination, request_id, signal },
                now,
                drawn,
                token,
            ) == (done.0, RoomReplyView::Done(done.1))
        }),
{
}

/// A connection that speaks for its peer is told so.
pub proof fn law_a_current_connection_is_confirmed(
    room: RoomModel,
    source: ConnectionIdentityView,
    now: int,
    drawn: Seq<char>,
    token: Seq<char>,
)
    requires
        room.is_current(source),
    ensures
        actor::performed(
            room,
            RoomCommandView::ValidateConnection { source },
            now,
            drawn,
            token,
        ) == (room, RoomReplyView::Done(Ok::<(), DomainError>(()))),
{
}

/// The presenter closes the room for everyone, and so does shutting down. A
/// question about the room changes nothing and is answered from what the room
/// is; secrets and tokens are put to the room as they came.
#[verifier::rlimit(50)]
pub proof fn law_closing_and_asking(
    room: RoomModel,
    source: ConnectionIdentityView,
    now: int,
    drawn: Seq<char>,
    token: Seq<char>,
)
    ensures
        ({
            let closed = actor::performed(
                room,
                RoomCommandView::Close { source },
                now,
                drawn,
                token,
            );
            let shut = actor::performed(room, RoomCommandView::Shutdown, now, drawn, token);
            let hosts = room.presenter matches Some(p) && p.peer_id == source.peer_id
                && p.connection_id == source.connection_id && p.connected;
            &&& hosts <==> closed.1 == RoomReplyView::Done(Ok::<(), DomainError>(()))
            &&& !hosts ==> closed.0 == room
            &&& hosts ==> over(room, closed.0, now)
            &&& over(room, shut.0, now)
            &&& shut.1 == RoomReplyView::Silence
        }),
        actor::performed(room, RoomCommandView::Snapshot, now, drawn, token) == (
            room,
            RoomReplyView::Snapshot(room.snapshot(now)),
        ),
        forall|credential: Seq<char>|
            #[trigger] actor::performed(
                room,
                RoomCommandView::VerifyPresenter { credential },
                now,
                drawn,
                token,
            ) == (room, RoomReplyView::Verified(
                room.presenter_digest == room.keys.presenter(credential),
            )),
        actor::performed(room, RoomCommandView::Disconnect { session: source }, now, drawn, token)
            == (room.disconnect(source, now), RoomReplyView::Silence),
        actor::performed(room, RoomCommandView::Leave { session: source }, now, drawn, token) == (
            room.leave(source, now),
            RoomReplyView::Silence,
        ),
        forall|credential: Seq<char>, session: SessionHandleView|
            ({
                let entered = room.admit_presenter(credential, session, now, drawn, token);
                #[trigger] actor::performed(
                    room,
                    RoomCommandView::AuthenticatePresenter { credential, session },
                    now,
                    drawn,
                    token,
                ) == (entered.0, RoomReplyView::Admission(entered.1))
            }),
        forall|resume_token: Seq<char>, session: SessionHandleView|
            ({
                let back = room.resume(resume_token, session, now);
                #[trigger] actor::performed(
                    room,
                    RoomCommandView::Resume { resume_token, session },
                    now,
                    drawn,
                    token,
                ) == (back.0, RoomReplyView::Admission(back.1))
            }),
        forall|
            credential: Seq<char>,
            display_name: Option<Seq<char>>,
            friend_code: Option<Seq<char>>,
            session: SessionHandleView,
        |
            ({
                let joined = room.admit_viewer(
                    credential,
                    display_name,
                    friend_code,
                    session,
                    now,
                    drawn,
                    token,
                );
                #[trigger] actor::performed(
                    room,
                    RoomCommandView::AuthenticateViewer {
                        credential,
                        display_name,
                        friend_code,
                        session,
                    },
                    now,
                    drawn,
                    token,
                ) == (joined.0, RoomReplyView::Admission(joined.1))
            }),
{
    lemma_close(room, now, false);
}

/// Whether a room was closed, with everyone told whose connection could take it.
pub open spec fn over(room: RoomModel, after: RoomModel, now: int) -> bool {
    let message = ServerMessageView::RoomClosed { server_timestamp: clock::wire_time(now) };
    &&& after.lifecycle == RoomLifecycle::Closed
    &&& keeps_mail(room, after)
    &&& says_only(room, after, message)
    &&& room.presenter matches Some(p) ==> hears(room, after, p, message)
    &&& forall|i: int|
        0 <= i < room.viewers.len() ==> hears(room, after, #[trigger] room.viewers[i], message)
}

/// A snapshot tells what the room is: its whole seconds left are rounded down,
/// and each viewer is listed once, under those who wait or under those let in.
pub proof fn law_snapshots_tell_the_room(room: RoomModel, now: int)
    requires
        room.valid(),
        clock::is_timestamp(now),
    ensures
        ({
            let shown = room.snapshot(now);
            &&& shown.room_id == room.room_id
            &&& shown.lifecycle == room.lifecycle
            &&& shown.sharing_state == room.sharing_state
            &&& shown.access_policy == room.access_policy
            &&& shown.maximum_viewers == room.maximum_viewers
            &&& shown.expires_at == clock::wire_time(room.expires_at)
            &&& shown.presenter_connected <==> (room.presenter matches Some(p) && p.connected)
            &&& now >= room.expires_at ==> shown.expires_in_seconds == 0
            &&& now < room.expires_at ==> shown.expires_in_seconds * 1_000_000_000
                <= room.expires_at - now < (shown.expires_in_seconds + 1) * 1_000_000_000
            &&& shown.pending_viewers.len() == waiters(room.viewers)
            &&& shown.approved_viewers.len() == seats(room.viewers)
            &&& forall|i: int|
                0 <= i < room.viewers.len() ==> ({
                    let viewer = #[trigger] room.viewers[i];
                    let entry = PeerSnapshotView {
                        peer_id: viewer.peer_id,
                        display_name: viewer.display_name,
                        role: viewer.role,
                        viewer_state: viewer.viewer_state,
                        connected: viewer.connected,
                        joined_at: clock::wire_time(viewer.joined_at),
                        friend_code: viewer.friend_code,
                    };
                    if viewer.viewer_state == Some(ViewerState::Pending) {
                        shown.pending_viewers.contains(entry)
                    } else {
                        shown.approved_viewers.contains(entry)
                    }
                })
        }),
{
    lemma_seats(room.viewers);
    let pending = |p: PeerModel| p.pending();
    let admitted = |p: PeerModel| p.admitted();
    laws::law_snapshot_lists_are_complete_and_sorted(room.viewers, pending);
    laws::law_snapshot_lists_are_complete_and_sorted(room.viewers, admitted);
    assert forall|i: int| 0 <= i < room.viewers.len() implies ({
        let viewer = #[trigger] room.viewers[i];
        if viewer.pending() {
            room.snapshot(now).pending_viewers.contains(viewer.snapshot())
        } else {
            room.snapshot(now).approved_viewers.contains(viewer.snapshot())
        }
    }) by {
        assert(room.viewers[i].valid_viewer());
        if room.viewers[i].pending() {
            lemma_listed(room.viewers, i, pending);
        } else {
            lemma_listed(room.viewers, i, admitted);
        }
    }
    assert(0 <= (room.expires_at - now) / 1_000_000_000 <= u64::MAX || now >= room.expires_at);
}

proof fn lemma_listed(viewers: Seq<PeerModel>, i: int, pred: spec_fn(PeerModel) -> bool)
    requires
        0 <= i < viewers.len(),
        pred(viewers[i]),
    ensures
        model::listed(viewers, pred).contains(viewers[i].snapshot()),
{
    broadcast use group_to_multiset_ensures;

    laws::law_snapshot_lists_are_complete_and_sorted(viewers, pred);
    seqs::lemma_filter_members(viewers, pred);
    let kept = viewers.filter(pred);
    let all = kept.map_values(|p: PeerModel| p.snapshot());
    assert(viewers.contains(viewers[i]));
    assert(kept.contains(viewers[i]));
    let k = choose|k: int| 0 <= k < kept.len() && kept[k] == viewers[i];
    assert(all[k] == viewers[i].snapshot());
    assert(all.contains(viewers[i].snapshot()));
    assert(all.to_multiset().count(viewers[i].snapshot()) > 0);
}

/// A connection that drained takes as many messages as it has places; nobody on
/// another connection, and nobody who is away, is affected.
pub proof fn law_a_drained_connection_takes_more(
    room: RoomModel,
    connection_id: Seq<char>,
    free: nat,
)
    ensures
        ({
            let after = room.refresh(connection_id, free);
            &&& same_room(room, after)
            &&& after.outgoing == room.outgoing
            &&& after.viewers.len() == room.viewers.len()
            &&& after.presenter is Some <==> room.presenter is Some
            &&& room.presenter matches Some(p) ==> after.presenter->0 == if p.connection_id
                == connection_id && p.outbound is Some {
                PeerModel { outbound: Some(free), ..p }
            } else {
                p
            }
            &&& forall|i: int|
                #![trigger room.viewers[i]]
                0 <= i < room.viewers.len() ==> after.viewers[i] == if room.viewers[i].connection_id
                    == connection_id && room.viewers[i].outbound is Some {
                    PeerModel { outbound: Some(free), ..room.viewers[i] }
                } else {
                    room.viewers[i]
                }
        }),
{
}

/// What others see of a room is how many viewers hold a seat, and how it is
/// shared.
pub proof fn law_rooms_are_seen_by_their_seats(room: RoomModel)
    requires
        room.viewers.len() <= u32::MAX,
    ensures
        actor::observable(room).0 == seats(room.viewers),
        actor::observable(room).1 == room.sharing_state,
{
    lemma_seats(room.viewers);
    room.viewers.lemma_filter_len(|p: PeerModel| p.admitted());
}

} // verus!
