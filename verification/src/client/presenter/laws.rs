//! What can be relied on in a presenter session.
use vstd::prelude::*;

use super::model;
use super::model::PresenterModel;
use super::types::{
    BroadcastEventView, ConnectionState, PresenterActionView, PresenterCallView,
    PresenterCommandView, PresenterOutcomeView, PresenterTaskView, PresenterUpdateView,
};
use crate::protocol::{
    ClientMessageView, ErrorCode, PeerSnapshotView, RoomSnapshotView, ServerMessageView,
    SharingState,
};
use crate::seqs;
use crate::textset;

verus! {

/// Whether two sessions differ at most in who is waiting, in what was done and
/// in the viewers.
pub open spec fn same_core(a: PresenterModel, b: PresenterModel) -> bool {
    &&& a.display_name == b.display_name
    &&& a.auto_approve == b.auto_approve
    &&& a.sharing == b.sharing
    &&& a.source == b.source
    &&& a.has_broadcast == b.has_broadcast
    &&& a.self_peer_id == b.self_peer_id
    &&& a.pending_snapshot == b.pending_snapshot
    &&& a.pending_chat == b.pending_chat
    &&& a.closing == b.closing
    &&& a.agenda == b.agenda
}

/// What holds of the sets of every session.
pub open spec fn sets_valid(m: PresenterModel) -> bool {
    &&& m.active_viewers.no_duplicates()
    &&& m.approvals_sent.no_duplicates()
    &&& m.announced_requests.no_duplicates()
    &&& m.recovering.no_duplicates()
    &&& forall|p: Seq<char>| #[trigger]
        m.recovering.contains(p) ==> m.active_viewers.contains(p)
    &&& !m.has_broadcast ==> m.active_viewers.len() == 0
}

/// Noting requests leaves everything but the requests alone.
pub proof fn lemma_note_each(m: PresenterModel, viewers: Seq<PeerSnapshotView>)
    ensures
        same_core(m.note_each(viewers), m),
        m.note_each(viewers).active_viewers == m.active_viewers,
        m.note_each(viewers).recovering == m.recovering,
        m.note_each(viewers).asking == m.asking,
        sets_valid(m) ==> sets_valid(m.note_each(viewers)),
    decreases viewers.len(),
{
    if viewers.len() > 0 {
        lemma_note_each(m, viewers.drop_last());
        let before = m.note_each(viewers.drop_last());
        if sets_valid(m) {
            textset::lemma_with_distinct(before.approvals_sent, viewers.last().peer_id);
            textset::lemma_with_distinct(before.announced_requests, viewers.last().peer_id);
        }
    }
}

/// Dropping one viewer.
pub proof fn lemma_drop_viewer(m: PresenterModel, peer_id: Seq<char>)
    ensures
        same_core(m.drop_viewer(peer_id), m),
        m.drop_viewer(peer_id).asking == m.asking,
        sets_valid(m) ==> sets_valid(m.drop_viewer(peer_id)),
        forall|p: Seq<char>| #[trigger]
            m.drop_viewer(peer_id).active_viewers.contains(p) <==> m.active_viewers.contains(p) && p
                != peer_id,
{
    textset::lemma_without(m.approvals_sent, peer_id);
    textset::lemma_without(m.announced_requests, peer_id);
    textset::lemma_without(m.recovering, peer_id);
    textset::lemma_without(m.active_viewers, peer_id);
    let after = m.drop_viewer(peer_id);
    assert(after.active_viewers == textset::without(m.active_viewers, peer_id));
    assert(after.recovering == textset::without(m.recovering, peer_id));
    if sets_valid(m) && !m.has_broadcast {
        if after.active_viewers.len() > 0 {
            assert(after.active_viewers.contains(after.active_viewers[0]));
            assert(m.active_viewers.contains(after.active_viewers[0]));
        }
    }
}

/// Dropping several viewers.
pub proof fn lemma_drop_each(m: PresenterModel, peers: Seq<Seq<char>>)
    ensures
        same_core(m.drop_each(peers), m),
        m.drop_each(peers).asking == m.asking,
        sets_valid(m) ==> sets_valid(m.drop_each(peers)),
        forall|p: Seq<char>| #[trigger]
            m.drop_each(peers).active_viewers.contains(p) <==> m.active_viewers.contains(p)
                && !peers.contains(p),
    decreases peers.len(),
{
    if peers.len() > 0 {
        let init = peers.drop_last();
        lemma_drop_each(m, init);
        lemma_drop_viewer(m.drop_each(init), peers.last());
        assert(peers =~= init.push(peers.last()));
        assert forall|p: Seq<char>| #[trigger]
            m.drop_each(peers).active_viewers.contains(p) <==> m.active_viewers.contains(p)
                && !peers.contains(p) by {
            assert(m.drop_each(peers) == m.drop_each(init).drop_viewer(peers.last()));
            assert(m.drop_each(init).active_viewers.contains(p) <==> m.active_viewers.contains(p)
                && !init.contains(p));
            if peers.contains(p) && p != peers.last() {
                let i = choose|i: int| 0 <= i < peers.len() && peers[i] == p;
                assert(init[i] == p);
            }
            if init.contains(p) {
                let i = choose|i: int| 0 <= i < init.len() && init[i] == p;
                assert(peers[i] == p);
            }
            assert(peers[peers.len() - 1] == peers.last());
        }
    }
}

/// Beginning several recoveries.
pub proof fn lemma_begin_each(m: PresenterModel, peers: Seq<Seq<char>>)
    ensures
        same_core(m.begin_each(peers), m),
        m.begin_each(peers).asking == m.asking,
        m.begin_each(peers).active_viewers == m.active_viewers,
        sets_valid(m) ==> sets_valid(m.begin_each(peers)),
    decreases peers.len(),
{
    if peers.len() > 0 {
        lemma_begin_each(m, peers.drop_last());
        lemma_begin_recovery(m.begin_each(peers.drop_last()), peers.last());
    }
}

/// Beginning one recovery.
pub proof fn lemma_begin_recovery(m: PresenterModel, peer_id: Seq<char>)
    ensures
        same_core(m.begin_recovery(peer_id), m),
        m.begin_recovery(peer_id).asking == m.asking,
        m.begin_recovery(peer_id).active_viewers == m.active_viewers,
        sets_valid(m) ==> sets_valid(m.begin_recovery(peer_id)),
{
    let after = m.begin_recovery(peer_id);
    if m.active_viewers.contains(peer_id) && !m.recovering.contains(peer_id) {
        assert(after.recovering == m.recovering.push(peer_id));
        if sets_valid(m) {
            textset::lemma_with_distinct(m.recovering, peer_id);
            assert forall|p: Seq<char>| #[trigger] after.recovering.contains(p) implies
                after.active_viewers.contains(p) by {
                let i = choose|i: int| 0 <= i < after.recovering.len() && after.recovering[i] == p;
                if i < m.recovering.len() {
                    assert(m.recovering[i] == p);
                    assert(m.recovering.contains(p));
                }
            }
        }
    }
}

/// A task leaves the agenda alone.
pub proof fn lemma_task_keeps_agenda(m: PresenterModel, task: PresenterTaskView)
    ensures
        m.task(task).agenda == m.agenda,
{
    match task {
        PresenterTaskView::Note { snapshot } => {
            lemma_note_each(
                m.report(
                    PresenterUpdateView::RoomExpiry {
                        expires_in_seconds: snapshot.expires_in_seconds,
                    },
                ),
                snapshot.pending_viewers,
            );
        },
        PresenterTaskView::Settle { approved } => {
            lemma_drop_each(m, m.departed(approved));
        },
        _ => {},
    }
}

/// Admitting one viewer.
pub proof fn lemma_welcome(m: PresenterModel, viewer: PeerSnapshotView)
    requires
        sets_valid(m),
        m.has_broadcast,
        m.asking is None,
    ensures
        sets_valid(m.welcome(viewer)),
        m.welcome(viewer).asking matches Some(PresenterCallView::Add { peer_id, .. })
            ==> m.welcome(viewer).active_viewers.contains(peer_id) && !m.welcome(
            viewer,
        ).recovering.contains(peer_id),
{
    let after = m.welcome(viewer);
    if !m.active_viewers.contains(viewer.peer_id) {
        textset::lemma_with_distinct(m.active_viewers, viewer.peer_id);
        assert(after.active_viewers[m.active_viewers.len() as int] == viewer.peer_id);
        assert forall|p: Seq<char>| #[trigger] after.recovering.contains(p) implies
            after.active_viewers.contains(p) by {
            assert(m.recovering.contains(p));
            let i = choose|i: int| 0 <= i < m.active_viewers.len() && m.active_viewers[i] == p;
            assert(after.active_viewers[i] == p);
        }
    }
}

/// Working through the agenda keeps a session valid.
pub proof fn lemma_advance(m: PresenterModel)
    requires
        (PresenterModel { agenda: Seq::empty(), ..m }).valid(),
        m.asking is None,
        m.has_broadcast,
    ensures
        m.advance().valid(),
    decreases m.agenda.len(),
{
    if m.agenda.len() > 0 {
        let taken = PresenterModel { agenda: m.agenda.skip(1), ..m };
        let task = m.agenda[0];
        lemma_task_keeps_agenda(taken, task);
        let next = taken.step(task);
        assert(sets_valid(taken));
        match task {
            PresenterTaskView::Converge => {},
            PresenterTaskView::Note { snapshot } => {
                lemma_note_each(
                    taken.report(
                        PresenterUpdateView::RoomExpiry {
                            expires_in_seconds: snapshot.expires_in_seconds,
                        },
                    ),
                    snapshot.pending_viewers,
                );
            },
            PresenterTaskView::Admit { viewer } => {
                lemma_welcome(taken, viewer);
            },
            PresenterTaskView::Settle { approved } => {
                lemma_drop_each(taken, taken.departed(approved));
            },
        }
        assert(sets_valid(next));
        if next.asking is None {
            lemma_advance(next);
        }
    }
}

/// A recovery deadline keeps a session valid.
pub proof fn keep_rebuild(m: PresenterModel, peer_id: Seq<char>)
    requires
        m.valid(),
        m.asking is None,
    ensures
        m.rebuild_if_unrecovered(peer_id).valid(),
{
    textset::lemma_without(m.recovering, peer_id);
}

/// A command keeps a session valid.
pub proof fn keep_command(m: PresenterModel, command: PresenterCommandView)
    requires
        m.valid(),
        m.asking is None,
    ensures
        m.handle_command(command).0.valid(),
{
    match command {
        PresenterCommandView::ApproveViewer { peer_id } => {
            textset::lemma_with_distinct(m.approvals_sent, peer_id);
        },
        PresenterCommandView::RejectViewer { peer_id } => {
            textset::lemma_without(m.approvals_sent, peer_id);
            textset::lemma_without(m.announced_requests, peer_id);
        },
        PresenterCommandView::RestartIce { peer_id } => {
            lemma_begin_recovery(m, peer_id);
        },
        _ => {},
    }
}

/// A message keeps a session valid.
pub proof fn keep_message(m: PresenterModel, message: ServerMessageView)
    requires
        m.valid(),
        m.asking is None,
    ensures
        m.handle_message(message).0.valid(),
{
    match message {
        ServerMessageView::AuthSucceeded { peer_id, snapshot, ice_configuration, .. } => {
            if m.has_broadcast {
                let refreshed = PresenterModel {
                    self_peer_id: Some(peer_id),
                    pending_snapshot: None,
                    ..m
                }.emit(
                    PresenterActionView::ScheduleRefresh {
                        expires_at: ice_configuration.expires_at,
                    },
                ).emit(PresenterActionView::SetIce { configuration: ice_configuration });
                let cleared = PresenterModel { recovering: Seq::empty(), ..refreshed };
                lemma_begin_each(cleared, m.active_viewers);
                let agenda = m.authenticated_agenda(snapshot);
                lemma_advance(PresenterModel { agenda, ..refreshed });
                lemma_advance(PresenterModel { agenda, ..cleared.begin_each(m.active_viewers) });
            }
        },
        ServerMessageView::RoomSnapshot { snapshot, .. } => {
            if m.has_broadcast {
                lemma_advance(PresenterModel { agenda: model::tasks_of(snapshot), ..m });
            } else {
                lemma_note_each(
                    m.report(
                        PresenterUpdateView::RoomExpiry {
                            expires_in_seconds: snapshot.expires_in_seconds,
                        },
                    ),
                    snapshot.pending_viewers,
                );
            }
        },
        ServerMessageView::ViewerPending { viewer, .. } => {
            textset::lemma_with_distinct(m.approvals_sent, viewer.peer_id);
            textset::lemma_with_distinct(m.announced_requests, viewer.peer_id);
        },
        ServerMessageView::ViewerLeft { peer_id, .. } => {
            lemma_drop_viewer(m, peer_id);
        },
        ServerMessageView::ViewerKicked { peer_id, .. } => {
            lemma_drop_viewer(m, peer_id);
        },
        ServerMessageView::SignalIceRestart { source_peer_id, .. } => {
            lemma_begin_recovery(m, source_peer_id);
        },
        _ => {},
    }
}

/// A report of the broadcast keeps a session valid.
pub proof fn keep_broadcast(m: PresenterModel, event: BroadcastEventView)
    requires
        m.valid(),
        m.asking is None,
    ensures
        m.handle_broadcast(event).0.valid(),
{
    if let BroadcastEventView::ViewerConnection { peer_id, .. } = event {
        lemma_begin_recovery(m, peer_id);
        textset::lemma_without(m.recovering, peer_id);
    }
}

/// An answer keeps a session valid.
pub proof fn keep_answered(m: PresenterModel, error: Option<Seq<char>>)
    requires
        m.valid(),
        m.asking is Some,
    ensures
        m.answered(error).0.valid(),
{
    let heard = PresenterModel { asking: None, ..m };
    match m.asking {
        Some(PresenterCallView::Start { .. }) => {
            if error is None {
                lemma_advance(PresenterModel { has_broadcast: true, ..heard.flush_chat() });
            }
        },
        Some(PresenterCallView::Replace { .. }) => {
            match error {
                None => lemma_advance(
                    heard.emit(PresenterActionView::Resume).set_sharing(SharingState::Live),
                ),
                Some(message) => lemma_advance(
                    heard.report(PresenterUpdateView::ShareFailed { message }),
                ),
            }
        },
        Some(PresenterCallView::Idle) => {
            match error {
                None => lemma_advance(
                    heard.emit(PresenterActionView::Resume).set_sharing(SharingState::Idle),
                ),
                Some(message) => lemma_advance(
                    heard.report(PresenterUpdateView::ShareFailed { message }),
                ),
            }
        },
        Some(PresenterCallView::Add { peer_id, display_name }) => {
            textset::lemma_without(m.active_viewers, peer_id);
            match error {
                None => lemma_advance(
                    heard.report(PresenterUpdateView::ViewerJoined { peer_id, display_name }),
                ),
                Some(_) => lemma_advance(
                    PresenterModel {
                        active_viewers: textset::without(m.active_viewers, peer_id),
                        ..heard
                    },
                ),
            }
        },
        Some(PresenterCallView::Rebuild { peer_id }) => {
            textset::lemma_without(m.active_viewers, peer_id);
            match error {
                None => lemma_advance(heard),
                Some(_) => lemma_advance(
                    PresenterModel {
                        active_viewers: textset::without(m.active_viewers, peer_id),
                        ..heard
                    }.report(PresenterUpdateView::ViewerLeft { peer_id }),
                ),
            }
        },
        None => {},
    }
}

/// Working through the agenda makes it shorter before it stops at a question.
pub proof fn lemma_advance_shrinks(m: PresenterModel)
    requires
        m.asking is None,
    ensures
        m.advance().asking is Some ==> m.advance().agenda.len() < m.agenda.len(),
    decreases m.agenda.len(),
{
    if m.agenda.len() > 0 {
        let next = PresenterModel { agenda: m.agenda.skip(1), ..m }.step(m.agenda[0]);
        if next.asking is None {
            lemma_advance_shrinks(next);
        }
    }
}

/// How a session ends up once every connection that it asks for has been
/// created or refused, where `accepts` says which can be created.
pub open spec fn settled(
    m: PresenterModel,
    accepts: spec_fn(Seq<char>) -> bool,
) -> PresenterModel
    decreases
            if m.asking is Some {
                m.agenda.len() + 1
            } else {
                0
            },
    via settled_shrinks
{
    match m.asking {
        Some(PresenterCallView::Add { peer_id, .. }) => settled(
            m.answered(
                if accepts(peer_id) {
                    None
                } else {
                    Some(Seq::empty())
                },
            ).0,
            accepts,
        ),
        _ => m,
    }
}

#[via_fn]
proof fn settled_shrinks(m: PresenterModel, accepts: spec_fn(Seq<char>) -> bool) {
    if let Some(PresenterCallView::Add { peer_id, display_name }) = m.asking {
        let heard = PresenterModel { asking: None, ..m };
        lemma_advance_shrinks(
            heard.report(PresenterUpdateView::ViewerJoined { peer_id, display_name }),
        );
        lemma_advance_shrinks(
            PresenterModel {
                active_viewers: textset::without(m.active_viewers, peer_id),
                ..heard
            },
        );
    }
}

/// What is left to do for approved viewers.
pub open spec fn admissions(viewers: Seq<PeerSnapshotView>) -> Seq<PresenterTaskView> {
    viewers.map_values(|viewer: PeerSnapshotView| PresenterTaskView::Admit { viewer })
}

/// A session in the middle of its agenda.
pub open spec fn under_way(m: PresenterModel) -> bool {
    sets_valid(m) && m.has_broadcast && m.asking is None
}

/// Following the viewers of a snapshot, and dropping everyone else.
proof fn follow(
    m: PresenterModel,
    viewers: Seq<PeerSnapshotView>,
    approved: Seq<Seq<char>>,
    rest: Seq<PresenterTaskView>,
    accepts: spec_fn(Seq<char>) -> bool,
) -> (after: PresenterModel)
    requires
        under_way(m),
        m.agenda == admissions(viewers) + seq![PresenterTaskView::Settle { approved }] + rest,
        forall|i: int| 0 <= i < viewers.len() ==> approved.contains(#[trigger] viewers[i].peer_id),
    ensures
        under_way(after),
        after.agenda == rest,
        settled(m.advance(), accepts) == settled(after.advance(), accepts),
        forall|p: Seq<char>| #[trigger]
            after.active_viewers.contains(p) <==> approved.contains(p) && (
            m.active_viewers.contains(p) || (model::peer_ids(viewers).contains(p) && accepts(p))),
    decreases viewers.len(),
{
    let taken = PresenterModel { agenda: m.agenda.skip(1), ..m };
    let next = taken.step(m.agenda[0]);
    if viewers.len() == 0 {
        assert(m.agenda[0] == PresenterTaskView::Settle { approved });
        assert(m.agenda.skip(1) =~= rest);
        let gone = taken.departed(approved);
        lemma_drop_each(taken, gone);
        seqs::lemma_filter_members(taken.active_viewers, |p: Seq<char>| !approved.contains(p));
        assert forall|p: Seq<char>| #[trigger]
            next.active_viewers.contains(p) <==> approved.contains(p) && (
            m.active_viewers.contains(p) || (model::peer_ids(viewers).contains(p) && accepts(
                p,
            ))) by {
            assert(gone.contains(p) <==> taken.active_viewers.contains(p) && !approved.contains(p));
        }
        next
    } else {
        let viewer = viewers[0];
        let others = viewers.skip(1);
        let peer_id = viewer.peer_id;
        assert(m.agenda[0] == PresenterTaskView::Admit { viewer });
        assert(m.agenda.skip(1) =~= admissions(others) + seq![
            PresenterTaskView::Settle { approved },
        ] + rest);
        assert forall|i: int| 0 <= i < others.len() implies approved.contains(
            #[trigger] others[i].peer_id,
        ) by {
            assert(others[i] == viewers[i + 1]);
        }
        lemma_welcome(taken, viewer);
        let ids = model::peer_ids(viewers);
        let other_ids = model::peer_ids(others);
        assert forall|p: Seq<char>| #[trigger] ids.contains(p) <==> p == peer_id
            || other_ids.contains(p) by {
            if ids.contains(p) {
                let i = choose|i: int| 0 <= i < ids.len() && ids[i] == p;
                if i > 0 {
                    assert(other_ids[i - 1] == p);
                }
            }
            assert(ids[0] == peer_id);
            if other_ids.contains(p) {
                let i = choose|i: int| 0 <= i < other_ids.len() && other_ids[i] == p;
                assert(ids[i + 1] == p);
            }
        }
        assert(approved.contains(viewers[0].peer_id));
        if m.active_viewers.contains(peer_id) {
            follow(next, others, approved, rest, accepts)
        } else {
            let heard = PresenterModel { asking: None, ..next };
            textset::lemma_without(next.active_viewers, peer_id);
            let answered = if accepts(peer_id) {
                heard.report(
                    PresenterUpdateView::ViewerJoined {
                        peer_id,
                        display_name: viewer.display_name,
                    },
                )
            } else {
                PresenterModel {
                    active_viewers: textset::without(next.active_viewers, peer_id),
                    ..heard
                }
            };
            assert forall|p: Seq<char>| #[trigger]
                next.active_viewers.contains(p) <==> m.active_viewers.contains(p) || p
                    == peer_id by {
                let now = next.active_viewers;
                assert(now[m.active_viewers.len() as int] == peer_id);
                if m.active_viewers.contains(p) {
                    let i = choose|i: int|
                        0 <= i < m.active_viewers.len() && m.active_viewers[i] == p;
                    assert(now[i] == p);
                }
            }
            assert(sets_valid(answered));
            assert(next.advance() == next);
            assert(m.advance() == next);
            assert(settled(next, accepts) == settled(answered.advance(), accepts));
            follow(answered, others, approved, rest, accepts)
        }
    }
}

/// Following one whole snapshot.
proof fn follow_snapshot(
    m: PresenterModel,
    snapshot: RoomSnapshotView,
    rest: Seq<PresenterTaskView>,
    accepts: spec_fn(Seq<char>) -> bool,
) -> (after: PresenterModel)
    requires
        under_way(m),
        m.agenda == model::tasks_of(snapshot) + rest,
    ensures
        under_way(after),
        after.agenda == rest,
        settled(m.advance(), accepts) == settled(after.advance(), accepts),
        forall|p: Seq<char>| #[trigger]
            after.active_viewers.contains(p) <==> model::peer_ids(
                snapshot.approved_viewers,
            ).contains(p) && (m.active_viewers.contains(p) || accepts(p)),
{
    let approved = model::peer_ids(snapshot.approved_viewers);
    let taken = PresenterModel { agenda: m.agenda.skip(1), ..m };
    assert(m.agenda[0] == PresenterTaskView::Note { snapshot });
    assert(m.agenda.skip(1) =~= admissions(snapshot.approved_viewers) + seq![
        PresenterTaskView::Settle { approved },
    ] + rest);
    lemma_note_each(
        taken.report(
            PresenterUpdateView::RoomExpiry { expires_in_seconds: snapshot.expires_in_seconds },
        ),
        snapshot.pending_viewers,
    );
    let noted = taken.step(m.agenda[0]);
    assert forall|i: int| 0 <= i < snapshot.approved_viewers.len() implies approved.contains(
        #[trigger] snapshot.approved_viewers[i].peer_id,
    ) by {
        assert(approved[i] == snapshot.approved_viewers[i].peer_id);
    }
    follow(noted, snapshot.approved_viewers, approved, rest, accepts)
}

/// The snapshot is the authority on membership: once the session has followed
/// it, a viewer has a connection exactly if the snapshot lists it as approved
/// and it had one already or one could be created.
pub proof fn law_connections_follow_the_snapshot(
    m: PresenterModel,
    snapshot: RoomSnapshotView,
    accepts: spec_fn(Seq<char>) -> bool,
)
    requires
        m.valid(),
        m.asking is None,
        m.has_broadcast,
    ensures
        ({
            let after = settled(m.apply_snapshot(snapshot), accepts);
            &&& after.asking is None
            &&& forall|p: Seq<char>| #[trigger]
                after.active_viewers.contains(p) <==> model::peer_ids(
                    snapshot.approved_viewers,
                ).contains(p) && (m.active_viewers.contains(p) || accepts(p))
        }),
{
    let start = PresenterModel { agenda: model::tasks_of(snapshot), ..m };
    assert(model::tasks_of(snapshot) =~= model::tasks_of(snapshot) + Seq::empty());
    let after = follow_snapshot(start, snapshot, Seq::empty(), accepts);
    assert(after.advance() == after);
    assert(settled(after, accepts) == after);
}

/// A snapshot that outran the authentication is newer than the one that came
/// with it, so its membership wins: once the broadcast has started, exactly the
/// viewers that it approves have a connection, as far as one could be created.
pub proof fn law_the_newest_snapshot_wins(
    m: PresenterModel,
    message: ServerMessageView,
    accepts: spec_fn(Seq<char>) -> bool,
)
    requires
        m.valid(),
        m.asking is None,
        !m.has_broadcast,
        message is AuthSucceeded,
    ensures
        ({
            let started = m.handle_message(message).0.answered(None).0;
            let after = settled(started, accepts);
            let newest = match m.pending_snapshot {
                Some(buffered) => buffered,
                None => message->AuthSucceeded_snapshot,
            };
            &&& m.handle_message(message).0.asking matches Some(
                PresenterCallView::Start { source, .. },
            ) && source == m.source
            &&& after.asking is None
            &&& forall|p: Seq<char>| #[trigger]
                after.active_viewers.contains(p) <==> model::peer_ids(
                    newest.approved_viewers,
                ).contains(p) && accepts(p)
        }),
{
    let snapshot = message->AuthSucceeded_snapshot;
    let asked = m.handle_message(message).0;
    let running = PresenterModel {
        has_broadcast: true,
        ..PresenterModel { asking: None, ..asked }.flush_chat()
    };
    assert(asked.answered(None).0 == running.advance());
    assert(running.active_viewers == m.active_viewers);
    assert(sets_valid(running));
    follow_authentication(running, snapshot, m.pending_snapshot, accepts);
}

/// Following the snapshots of an authentication.
proof fn follow_authentication(
    m: PresenterModel,
    snapshot: RoomSnapshotView,
    buffered: Option<RoomSnapshotView>,
    accepts: spec_fn(Seq<char>) -> bool,
)
    requires
        under_way(m),
        m.active_viewers.len() == 0,
        m.agenda == match buffered {
            Some(newer) => seq![PresenterTaskView::Converge] + model::tasks_of(snapshot)
                + model::tasks_of(newer),
            None => seq![PresenterTaskView::Converge] + model::tasks_of(snapshot),
        },
    ensures
        ({
            let after = settled(m.advance(), accepts);
            let newest = match buffered {
                Some(newer) => newer,
                None => snapshot,
            };
            &&& after.asking is None
            &&& forall|p: Seq<char>| #[trigger]
                after.active_viewers.contains(p) <==> model::peer_ids(
                    newest.approved_viewers,
                ).contains(p) && accepts(p)
        }),
{
    let rest = match buffered {
        Some(newer) => model::tasks_of(newer),
        None => Seq::empty(),
    };
    let tasks = model::tasks_of(snapshot) + rest;
    assert(m.agenda[0] == PresenterTaskView::Converge);
    assert(m.agenda.skip(1) =~= tasks);
    let taken = PresenterModel { agenda: tasks, ..m };
    let converged = taken.step(PresenterTaskView::Converge);
    assert(m.advance() == converged.advance());
    let first = follow_snapshot(converged, snapshot, rest, accepts);
    match buffered {
        Some(newer) => {
            assert(rest =~= model::tasks_of(newer) + Seq::empty());
            let second = follow_snapshot(first, newer, Seq::empty(), accepts);
            assert(second.advance() == second);
            assert(settled(second, accepts) == second);
        },
        None => {
            assert(first.advance() == first);
            assert(settled(first, accepts) == first);
        },
    }
}

/// A restart that is in flight is left to run: asking for it again does
/// nothing.
pub proof fn law_recovery_is_not_stacked(m: PresenterModel, peer_id: Seq<char>)
    ensures
        m.begin_recovery(peer_id).begin_recovery(peer_id) == m.begin_recovery(peer_id),
{
    let once = m.begin_recovery(peer_id);
    if m.active_viewers.contains(peer_id) && !m.recovering.contains(peer_id) {
        assert(once.recovering[m.recovering.len() as int] == peer_id);
        assert(once.recovering.contains(peer_id));
    }
}

/// A viewer that reconnected in time is not rebuilt when its recovery time is
/// over.
pub proof fn law_recovered_viewers_are_left_alone(m: PresenterModel, peer_id: Seq<char>)
    ensures
        ({
            let back = m.handle_broadcast(
                BroadcastEventView::ViewerConnection { peer_id, state: ConnectionState::Connected },
            ).0;
            let later = back.rebuild_if_unrecovered(peer_id);
            later.asking == back.asking && later.outgoing == back.outgoing && later.active_viewers
                == back.active_viewers
        }),
{
    textset::lemma_without(m.recovering, peer_id);
}

/// Every change of the sharing state by a command, or by the answer to one, is
/// announced to the server and reported to the host as the last things done.
pub proof fn law_sharing_changes_are_announced(
    m: PresenterModel,
    command: PresenterCommandView,
    error: Option<Seq<char>>,
)
    requires
        m.valid(),
    ensures
        ({
            let next = m.handle_command(command).0;
            next.sharing != m.sharing ==> announced(next)
        }),
        ({
            let next = m.answered(error).0;
            (m.asking matches Some(call) && (call is Replace || call is Idle) && m.agenda.len()
                == 0) ==> (next.sharing != m.sharing ==> announced(next))
        }),
{
}

/// Whether the last things done were to announce and to report how the room is
/// shared.
pub open spec fn announced(m: PresenterModel) -> bool {
    let n = m.outgoing.len();
    &&& n >= 2
    &&& m.outgoing[n - 2] == (PresenterActionView::Send {
        message: ClientMessageView::RoomUpdateSharingState { sharing_state: m.sharing },
    })
    &&& m.outgoing[n - 1] == (PresenterActionView::Report {
        update: PresenterUpdateView::SharingState { state: m.sharing },
    })
}

/// A join request that the host has been told of is not repeated.
pub proof fn law_requests_are_reported_once(m: PresenterModel, viewer: PeerSnapshotView)
    ensures
        m.note_pending(viewer).note_pending(viewer) == m.note_pending(viewer),
{
    let once = m.note_pending(viewer);
    if !m.announced_requests.contains(viewer.peer_id) {
        assert(once.announced_requests[m.announced_requests.len() as int] == viewer.peer_id);
    }
    assert(once.announced_requests.contains(viewer.peer_id));
    if m.auto_approve && !m.approvals_sent.contains(viewer.peer_id) {
        assert(once.approvals_sent[m.approvals_sent.len() as int] == viewer.peer_id);
        assert(once.approvals_sent.contains(viewer.peer_id));
    }
}

/// A refused message does not end the room, and changes nothing.
pub proof fn law_refusals_do_not_end_the_room(m: PresenterModel, message: ServerMessageView)
    requires
        message matches ServerMessageView::Error { code, .. } && code != ErrorCode::RoomClosed
            && code != ErrorCode::RoomExpired,
    ensures
        m.handle_message(message) == (m, PresenterOutcomeView::Continue),
{
}

/// The room's life is independent of sharing: no command but leaving ends the
/// session or drops a viewer.
pub proof fn law_only_leaving_ends_a_session(m: PresenterModel, command: PresenterCommandView)
    ensures
        m.handle_command(command).1 == PresenterOutcomeView::Continue <==> !(command is Leave),
        !(command is Leave) ==> m.handle_command(command).0.active_viewers == m.active_viewers
            && m.handle_command(command).0.has_broadcast == m.has_broadcast,
{
    if let PresenterCommandView::RestartIce { peer_id } = command {
        lemma_begin_recovery(m, peer_id);
    }
}

/// Stopping and starting a share leaves the viewers connected, whatever comes
/// of it.
pub proof fn law_sharing_leaves_viewers_alone(m: PresenterModel, error: Option<Seq<char>>)
    requires
        m.valid(),
        m.agenda.len() == 0,
        m.asking matches Some(call) && (call is Replace || call is Idle),
    ensures
        m.answered(error).0.active_viewers == m.active_viewers,
        m.answered(error).0.has_broadcast,
        error is None ==> m.answered(error).0.sharing == if m.asking->0 is Idle {
            SharingState::Idle
        } else {
            SharingState::Live
        },
        error is Some ==> m.answered(error).0.sharing == m.sharing,
{
}

/// A signaling drop never tears media down: authenticating again keeps the
/// broadcast and asks for none.
pub proof fn law_signaling_drops_keep_media(m: PresenterModel, message: ServerMessageView)
    requires
        m.valid(),
        m.asking is None,
        m.has_broadcast,
        message is AuthSucceeded,
    ensures
        m.handle_message(message).0.has_broadcast,
        !(m.handle_message(message).0.asking matches Some(PresenterCallView::Start { .. })),
{
    keep_message(m, message);
    let snapshot = message->AuthSucceeded_snapshot;
    let ice_configuration = message->AuthSucceeded_ice_configuration;
    let refreshed = PresenterModel {
        self_peer_id: Some(message->AuthSucceeded_peer_id),
        pending_snapshot: None,
        ..m
    }.emit(
        PresenterActionView::ScheduleRefresh { expires_at: ice_configuration.expires_at },
    ).emit(PresenterActionView::SetIce { configuration: ice_configuration });
    let cleared = PresenterModel { recovering: Seq::empty(), ..refreshed };
    lemma_begin_each(cleared, m.active_viewers);
    let agenda = m.authenticated_agenda(snapshot);
    lemma_advance_keeps_broadcast(PresenterModel { agenda, ..refreshed });
    lemma_advance_keeps_broadcast(
        PresenterModel { agenda, ..cleared.begin_each(m.active_viewers) },
    );
}

/// Working through the agenda leaves the broadcast alone.
pub proof fn lemma_advance_keeps_broadcast(m: PresenterModel)
    requires
        m.has_broadcast,
        !(m.asking matches Some(PresenterCallView::Start { .. })),
    ensures
        m.advance().has_broadcast,
        !(m.advance().asking matches Some(PresenterCallView::Start { .. })),
    decreases m.agenda.len(),
{
    if m.asking is None && m.agenda.len() > 0 {
        let taken = PresenterModel { agenda: m.agenda.skip(1), ..m };
        match m.agenda[0] {
            PresenterTaskView::Note { snapshot } => lemma_note_each(
                taken.report(
                    PresenterUpdateView::RoomExpiry {
                        expires_in_seconds: snapshot.expires_in_seconds,
                    },
                ),
                snapshot.pending_viewers,
            ),
            PresenterTaskView::Settle { approved } => lemma_drop_each(
                taken,
                taken.departed(approved),
            ),
            _ => {},
        }
        lemma_advance_keeps_broadcast(taken.step(m.agenda[0]));
    }
}

/// An authentication under a new peer identifier offers every viewer a restart,
/// so that signaling routes converge on it.
pub proof fn law_a_fresh_identity_restarts_everyone(m: PresenterModel, peers: Seq<Seq<char>>)
    requires
        m.has_broadcast,
        m.recovering.len() == 0,
        peers.no_duplicates(),
        forall|i: int| 0 <= i < peers.len() ==> m.active_viewers.contains(#[trigger] peers[i]),
    ensures
        m.begin_each(peers).recovering == peers,
        forall|i: int|
            0 <= i < peers.len() ==> m.begin_each(peers).outgoing.contains(
                PresenterActionView::RestartIce { peer_id: #[trigger] peers[i] },
            ),
    decreases peers.len(),
{
    if peers.len() > 0 {
        let init = peers.drop_last();
        let last = peers.last();
        assert forall|i: int| 0 <= i < init.len() implies m.active_viewers.contains(
            #[trigger] init[i],
        ) by {
            assert(init[i] == peers[i]);
        }
        law_a_fresh_identity_restarts_everyone(m, init);
        lemma_begin_each(m, init);
        let before = m.begin_each(init);
        let after = m.begin_each(peers);
        assert(peers[peers.len() - 1] == last);
        assert(!init.contains(last)) by {
            if init.contains(last) {
                let i = choose|i: int| 0 <= i < init.len() && init[i] == last;
                assert(peers[i] == peers[peers.len() - 1]);
            }
        }
        assert(after.recovering =~= peers);
        let restart = PresenterActionView::RestartIce { peer_id: last };
        assert(after.outgoing[before.outgoing.len() as int] == restart);
        assert forall|i: int| 0 <= i < peers.len() implies after.outgoing.contains(
            PresenterActionView::RestartIce { peer_id: #[trigger] peers[i] },
        ) by {
            if i < init.len() {
                let action = PresenterActionView::RestartIce { peer_id: init[i] };
                assert(before.outgoing.contains(action));
                let k = choose|k: int| 0 <= k < before.outgoing.len() && before.outgoing[k] == action;
                assert(after.outgoing[k] == action);
            }
        }
    } else {
        assert(m.recovering =~= peers);
    }
}

} // verus!
