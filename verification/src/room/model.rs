//! What a room is, and what each command makes of it.
//!
//! Every command is a function from a room to a room and an answer. The state
//! machine in [`crate::room::state`] computes these functions.
use vstd::prelude::*;

use crate::clock;
use crate::crypto::DigestKeys;
use crate::protocol::{
    PeerRole, PeerSnapshotView, RoomAccessPolicy, RoomLifecycle, RoomSnapshotView,
    ServerMessageView, SharingState, ViewerState,
};
use crate::room::types::{
    AuthOutcomeView, CommandResult, ConnectionIdentityView, DomainError, OutgoingView,
    RoutedSignalView, SessionHandleView,
};
use crate::seqs;
use crate::text;

verus! {

/// A peer: its identity, how far it is admitted, and its connection.
#[verifier::ext_equal]
pub struct PeerModel {
    pub peer_id: Seq<char>,
    pub connection_id: Seq<char>,
    pub role: PeerRole,
    pub display_name: Option<Seq<char>>,
    pub friend_code: Option<Seq<char>>,
    pub viewer_state: Option<ViewerState>,
    pub joined_at: int,
    pub connected: bool,
    /// How many more messages the connection can take, where there is one.
    pub outbound: Option<nat>,
    pub resume_digest: Seq<u8>,
    pub resume_expires_at: int,
    pub disconnected_at: Option<int>,
}

impl PeerModel {
    /// Whether a message sent now reaches the connection.
    pub open spec fn reachable(self) -> bool {
        self.outbound matches Some(free) && free > 0
    }

    /// The peer after a message was sent to it: with a slot less, or cut off
    /// where there was none left.
    pub open spec fn sent(self) -> PeerModel {
        match self.outbound {
            None => self,
            Some(free) => if free == 0 {
                PeerModel { connected: false, outbound: None, ..self }
            } else {
                PeerModel { outbound: Some((free - 1) as nat), ..self }
            },
        }
    }

    /// What the transport has to do when a message is sent to the peer.
    pub open spec fn effects(self, message: ServerMessageView) -> Seq<OutgoingView> {
        match self.outbound {
            None => Seq::empty(),
            Some(free) => if free == 0 {
                seq![OutgoingView::Close { connection_id: self.connection_id }]
            } else {
                seq![OutgoingView::Deliver { connection_id: self.connection_id, message }]
            },
        }
    }

    /// Approved, or approved and inside its resume grace window.
    pub open spec fn admitted(self) -> bool {
        self.viewer_state == Some(ViewerState::Approved) || self.viewer_state == Some(
            ViewerState::Disconnected,
        )
    }

    pub open spec fn pending(self) -> bool {
        self.viewer_state == Some(ViewerState::Pending)
    }

    pub open spec fn snapshot(self) -> PeerSnapshotView {
        PeerSnapshotView {
            peer_id: self.peer_id,
            display_name: self.display_name,
            role: self.role,
            viewer_state: self.viewer_state,
            connected: self.connected,
            joined_at: clock::wire_time(self.joined_at),
            friend_code: self.friend_code,
        }
    }

    /// The peer on a new connection.
    pub open spec fn revived(self, session: SessionHandleView) -> PeerModel {
        PeerModel {
            connected: true,
            outbound: Some(session.capacity as nat),
            connection_id: session.connection_id,
            disconnected_at: None,
            ..self
        }
    }

    /// The peer after its connection ended, resumable for `grace`.
    pub open spec fn dropped(self, now: int, grace: int) -> PeerModel {
        PeerModel {
            connected: false,
            outbound: None,
            disconnected_at: Some(now),
            resume_expires_at: now + grace,
            ..self
        }
    }

    pub open spec fn is_on(self, connection: ConnectionIdentityView) -> bool {
        self.peer_id == connection.peer_id && self.connection_id == connection.connection_id
    }

    /// What holds of every peer of a room.
    pub open spec fn valid(self) -> bool {
        &&& clock::is_timestamp(self.joined_at)
        &&& clock::is_timestamp(self.resume_expires_at)
        &&& self.disconnected_at matches Some(at) ==> clock::is_timestamp(at)
        &&& self.connected <==> self.outbound is Some
    }

    /// What holds of every viewer of a room.
    pub open spec fn valid_viewer(self) -> bool {
        &&& self.valid()
        &&& self.role == PeerRole::Viewer
        &&& self.pending() || self.admitted()
    }
}

/// Puts `x` behind the entries that joined no later, by the text of the date.
pub open spec fn insert_by_joined(s: Seq<PeerSnapshotView>, x: PeerSnapshotView) -> Seq<
    PeerSnapshotView,
>
    decreases s.len(),
{
    if s.len() == 0 || text::text_le(s.last().joined_at, x.joined_at) {
        s.push(x)
    } else {
        insert_by_joined(s.drop_last(), x).push(s.last())
    }
}

/// The entries in the order of the text of their joining date; entries with
/// the same text keep their order.
pub open spec fn by_joined(s: Seq<PeerSnapshotView>) -> Seq<PeerSnapshotView>
    decreases s.len(),
{
    if s.len() == 0 {
        s
    } else {
        insert_by_joined(by_joined(s.drop_last()), s.last())
    }
}

/// The snapshots of those viewers for whom `pred` holds, in joining order.
pub open spec fn listed(viewers: Seq<PeerModel>, pred: spec_fn(PeerModel) -> bool) -> Seq<
    PeerSnapshotView,
> {
    by_joined(viewers.filter(pred).map_values(|p: PeerModel| p.snapshot()))
}

/// The viewers after `message` was sent to those for whom `who` holds.
pub open spec fn told(viewers: Seq<PeerModel>, who: spec_fn(PeerModel) -> bool) -> Seq<PeerModel> {
    viewers.map_values(
        |p: PeerModel|
            if who(p) {
                p.sent()
            } else {
                p
            },
    )
}

/// What the transport has to do when `message` is sent to those for whom `who`
/// holds.
pub open spec fn told_effects(
    viewers: Seq<PeerModel>,
    who: spec_fn(PeerModel) -> bool,
    message: ServerMessageView,
) -> Seq<OutgoingView>
    decreases viewers.len(),
{
    if viewers.len() == 0 {
        Seq::empty()
    } else {
        let before = told_effects(viewers.drop_last(), who, message);
        if who(viewers.last()) {
            before + viewers.last().effects(message)
        } else {
            before
        }
    }
}

/// The viewer with the given identifier.
pub open spec fn find_viewer(viewers: Seq<PeerModel>, peer_id: Seq<char>) -> Option<int> {
    seqs::first_where(viewers, |p: PeerModel| p.peer_id == peer_id)
}

/// The viewer that the given resume digest belongs to.
pub open spec fn find_resumable(viewers: Seq<PeerModel>, digest: Seq<u8>) -> Option<int> {
    seqs::first_where(viewers, |p: PeerModel| p.resume_digest == digest)
}

/// The viewers with `viewer` among them, in place of one with its identifier.
pub open spec fn place_viewer(viewers: Seq<PeerModel>, viewer: PeerModel) -> Seq<PeerModel> {
    match find_viewer(viewers, viewer.peer_id) {
        Some(i) => viewers.update(i, viewer),
        None => viewers.push(viewer),
    }
}

/// A display name as it is kept: without control characters, with single
/// spaces between words, 48 characters at most, and `None` where nothing is
/// left.
pub open spec fn kept_name(name: Seq<char>) -> Option<Seq<char>> {
    let normal = text::spaced(text::words(text::printable(name)));
    let cut = if normal.len() <= 48 { normal } else { normal.take(48) };
    if cut.len() == 0 {
        None
    } else {
        Some(cut)
    }
}

/// What is kept of a display name that may be missing.
pub open spec fn kept_optional_name(name: Option<Seq<char>>) -> Option<Seq<char>> {
    match name {
        Some(given) => kept_name(given),
        None => None,
    }
}

/// Whether a peer in the role `source` may send `signal` to one in the role
/// `destination`: offers go from the presenter to a viewer, answers the other
/// way, candidates and restarts both ways.
pub open spec fn may_signal(
    source: PeerRole,
    destination: PeerRole,
    signal: RoutedSignalView,
) -> bool {
    &&& source != destination
    &&& signal is Offer ==> source == PeerRole::Presenter
    &&& signal is Answer ==> source == PeerRole::Viewer
}

/// The message that carries a signal.
pub open spec fn signal_message(
    source: Seq<char>,
    request_id: Seq<char>,
    signal: RoutedSignalView,
    now: int,
) -> ServerMessageView {
    let server_timestamp = clock::wire_time(now);
    match signal {
        RoutedSignalView::Offer { sdp, ice_restart } => ServerMessageView::SignalOffer {
            request_id,
            server_timestamp,
            source_peer_id: source,
            sdp,
            ice_restart,
        },
        RoutedSignalView::Answer { sdp } => ServerMessageView::SignalAnswer {
            request_id,
            server_timestamp,
            source_peer_id: source,
            sdp,
        },
        RoutedSignalView::IceCandidate { candidate, sdp_mid, sdp_m_line_index } =>
            ServerMessageView::SignalIceCandidate {
            request_id,
            server_timestamp,
            source_peer_id: source,
            candidate,
            sdp_mid,
            sdp_m_line_index,
        },
        RoutedSignalView::IceRestart => ServerMessageView::SignalIceRestart {
            request_id,
            server_timestamp,
            source_peer_id: source,
        },
    }
}

/// A room.
#[verifier::ext_equal]
pub struct RoomModel {
    pub room_id: Seq<char>,
    pub lifecycle: RoomLifecycle,
    pub sharing_state: SharingState,
    pub access_policy: RoomAccessPolicy,
    pub allowed_friend_codes: Seq<Seq<char>>,
    pub maximum_viewers: u8,
    pub maximum_viewers_hard_limit: u8,
    pub maximum_pending_viewers: nat,
    pub pending_viewer_ttl: int,
    pub presenter_resume_grace: int,
    pub viewer_resume_grace: int,
    pub created_at: int,
    pub expires_at: int,
    pub presenter_digest: Seq<u8>,
    pub viewer_digest: Seq<u8>,
    pub keys: DigestKeys,
    pub presenter: Option<PeerModel>,
    /// The viewers, oldest first.
    pub viewers: Seq<PeerModel>,
    /// What the transport has not picked up yet.
    pub outgoing: Seq<OutgoingView>,
}

impl RoomModel {
    /// What every command keeps.
    pub open spec fn valid(self) -> bool {
        &&& clock::is_timestamp(self.created_at)
        &&& clock::is_timestamp(self.expires_at)
        &&& clock::is_span(self.pending_viewer_ttl)
        &&& clock::is_span(self.presenter_resume_grace)
        &&& clock::is_span(2 * self.viewer_resume_grace)
        &&& 1 <= self.maximum_viewers <= self.maximum_viewers_hard_limit
        &&& self.presenter matches Some(p) ==> p.valid() && p.role == PeerRole::Presenter
        &&& forall|i: int| 0 <= i < self.viewers.len() ==> (#[trigger] self.viewers[i]).valid_viewer()
        &&& forall|i: int, j: int|
            0 <= i < j < self.viewers.len() ==> (#[trigger] self.viewers[i]).peer_id
                != (#[trigger] self.viewers[j]).peer_id
    }

    /// Whether `now` is a date, and the end of the grace window of a presenter
    /// that is admitted then is one.
    pub open spec fn presenter_timely(self, credential: Seq<char>, now: int) -> bool {
        &&& clock::is_timestamp(now)
        &&& self.refusal(now) is None && self.presenter_digest == self.keys.presenter(credential)
            ==> clock::is_timestamp(now + self.presenter_resume_grace)
    }

    /// Whether `now` is a date, and the end of the grace window of a viewer that
    /// is admitted then is one.
    pub open spec fn viewer_timely(
        self,
        credential: Seq<char>,
        friend_code: Option<Seq<char>>,
        now: int,
    ) -> bool {
        &&& clock::is_timestamp(now)
        &&& self.viewer_refusal(credential, friend_code, now) is None ==> clock::is_timestamp(
            now + self.viewer_resume_grace,
        )
    }

    /// Whether `now` is a date, and the end of the grace window of the peer that
    /// drops out with a connection is one.
    pub open spec fn drop_timely(self, connection: ConnectionIdentityView, now: int) -> bool {
        &&& clock::is_timestamp(now)
        &&& if self.presenter is Some && self.presenter->0.is_on(connection) {
            clock::is_timestamp(now + self.presenter_resume_grace)
        } else {
            find_viewer(self.viewers, connection.peer_id) matches Some(i)
                && self.viewers[i].is_on(connection) ==> clock::is_timestamp(
                now + self.viewer_resume_grace,
            )
        }
    }

    /// Why the room takes no more commands at `now`, if it does not.
    pub open spec fn refusal(self, now: int) -> Option<DomainError> {
        if now >= self.expires_at || self.lifecycle == RoomLifecycle::Expired {
            Some(DomainError::RoomExpired)
        } else if self.lifecycle == RoomLifecycle::Closed {
            Some(DomainError::RoomClosed)
        } else {
            None
        }
    }

    pub open spec fn admitted_count(self) -> nat {
        seqs::count(self.viewers, |p: PeerModel| p.admitted())
    }

    pub open spec fn pending_count(self) -> nat {
        seqs::count(self.viewers, |p: PeerModel| p.pending())
    }

    pub open spec fn full(self) -> bool {
        self.admitted_count() >= self.maximum_viewers
    }

    pub open spec fn presenter_connected(self) -> bool {
        self.presenter matches Some(p) && p.connected
    }

    pub open spec fn is_presenter(self, peer_id: Seq<char>) -> bool {
        self.presenter matches Some(p) && p.peer_id == peer_id
    }

    /// Whether the connection is the one that its peer is connected on now.
    pub open spec fn is_current(self, connection: ConnectionIdentityView) -> bool {
        if self.is_presenter(connection.peer_id) {
            self.presenter->0.connected && self.presenter->0.is_on(connection)
        } else {
            match find_viewer(self.viewers, connection.peer_id) {
                Some(i) => self.viewers[i].connected && self.viewers[i].is_on(connection),
                None => false,
            }
        }
    }

    pub open spec fn role_of(self, peer_id: Seq<char>) -> Option<PeerRole> {
        if self.is_presenter(peer_id) {
            Some(PeerRole::Presenter)
        } else {
            match find_viewer(self.viewers, peer_id) {
                Some(i) => Some(self.viewers[i].role),
                None => None,
            }
        }
    }

    pub open spec fn is_admitted(self, peer_id: Seq<char>) -> bool {
        find_viewer(self.viewers, peer_id) matches Some(i) && self.viewers[i].admitted()
    }

    /// The whole seconds until the room expires, 0 once it has.
    pub open spec fn seconds_left(self, now: int) -> u64 {
        let left = self.expires_at - now;
        if left <= 0 {
            0
        } else {
            (left / (clock::NANOS_PER_SECOND as int)) as u64
        }
    }

    pub open spec fn snapshot(self, now: int) -> RoomSnapshotView {
        RoomSnapshotView {
            room_id: self.room_id,
            lifecycle: self.lifecycle,
            sharing_state: self.sharing_state,
            access_policy: self.access_policy,
            maximum_viewers: self.maximum_viewers,
            expires_at: clock::wire_time(self.expires_at),
            expires_in_seconds: self.seconds_left(now),
            presenter_connected: self.presenter_connected(),
            pending_viewers: listed(self.viewers, |p: PeerModel| p.pending()),
            approved_viewers: listed(self.viewers, |p: PeerModel| p.admitted()),
        }
    }

    /// The room after a message to its presenter.
    pub open spec fn tell_presenter(self, message: ServerMessageView) -> RoomModel {
        match self.presenter {
            None => self,
            Some(p) => RoomModel {
                presenter: Some(p.sent()),
                outgoing: self.outgoing + p.effects(message),
                ..self
            },
        }
    }

    /// The room after a message to the viewer at place `i`.
    pub open spec fn tell_viewer(self, i: int, message: ServerMessageView) -> RoomModel {
        RoomModel {
            viewers: self.viewers.update(i, self.viewers[i].sent()),
            outgoing: self.outgoing + self.viewers[i].effects(message),
            ..self
        }
    }

    /// The room after a message to every viewer for whom `who` holds.
    pub open spec fn tell_viewers(
        self,
        who: spec_fn(PeerModel) -> bool,
        message: ServerMessageView,
    ) -> RoomModel {
        RoomModel {
            viewers: told(self.viewers, who),
            outgoing: self.outgoing + told_effects(self.viewers, who, message),
            ..self
        }
    }

    /// The room after its presenter was sent a snapshot.
    pub open spec fn tell_snapshot(self, now: int) -> RoomModel {
        self.tell_presenter(
            ServerMessageView::RoomSnapshot {
                server_timestamp: clock::wire_time(now),
                snapshot: self.snapshot(now),
            },
        )
    }

    pub open spec fn with_viewer(self, i: int, viewer: PeerModel) -> RoomModel {
        RoomModel { viewers: self.viewers.update(i, viewer), ..self }
    }

    pub open spec fn without_viewer(self, i: int) -> RoomModel {
        RoomModel { viewers: self.viewers.remove(i), ..self }
    }

    /// What a peer is told when it is admitted.
    pub open spec fn outcome(
        self,
        peer: PeerModel,
        token: Seq<char>,
        now: int,
        resumed: bool,
    ) -> AuthOutcomeView {
        AuthOutcomeView {
            room_id: self.room_id,
            peer_id: peer.peer_id,
            connection_id: peer.connection_id,
            role: peer.role,
            resume_token: token,
            resume_expires_at: peer.resume_expires_at,
            snapshot: self.snapshot(now),
            resumed,
        }
    }

    /// The presenter that takes the seat: a new one, or the one that was there
    /// on a new connection and with a new resume token.
    pub open spec fn seated(
        self,
        session: SessionHandleView,
        now: int,
        peer_id: Seq<char>,
        token: Seq<char>,
    ) -> PeerModel {
        PeerModel {
            peer_id: match self.presenter {
                Some(p) => p.peer_id,
                None => peer_id,
            },
            connection_id: session.connection_id,
            role: PeerRole::Presenter,
            display_name: None,
            friend_code: None,
            viewer_state: None,
            joined_at: match self.presenter {
                Some(p) => p.joined_at,
                None => now,
            },
            connected: true,
            outbound: Some(session.capacity as nat),
            resume_digest: self.keys.resume(token),
            resume_expires_at: now + self.presenter_resume_grace,
            disconnected_at: None,
        }
    }

    /// Whoever knows the presenter secret takes the presenter's seat.
    /// `peer_id` and `token` are the identifier and resume token that were
    /// drawn for it.
    pub open spec fn admit_presenter(
        self,
        credential: Seq<char>,
        session: SessionHandleView,
        now: int,
        peer_id: Seq<char>,
        token: Seq<char>,
    ) -> (RoomModel, CommandResult<AuthOutcomeView>) {
        match self.refusal(now) {
            Some(error) => (self, Err(error)),
            None => if self.presenter_digest != self.keys.presenter(credential) {
                (self, Err(DomainError::AuthenticationFailed))
            } else {
                let presenter = self.seated(session, now, peer_id, token);
                let room = RoomModel { presenter: Some(presenter), ..self };
                (room, Ok(room.outcome(presenter, token, now, false)))
            },
        }
    }

    /// Why a viewer is not admitted, if it is not.
    pub open spec fn viewer_refusal(
        self,
        credential: Seq<char>,
        friend_code: Option<Seq<char>>,
        now: int,
    ) -> Option<DomainError> {
        if self.refusal(now) is Some {
            self.refusal(now)
        } else if self.viewer_digest != self.keys.viewer(credential) {
            Some(DomainError::AuthenticationFailed)
        } else if self.access_policy == RoomAccessPolicy::FriendsOnly && friend_code is None {
            Some(DomainError::IdentityRequired)
        } else if self.access_policy == RoomAccessPolicy::FriendsOnly
            && !self.allowed_friend_codes.contains(friend_code->0) {
            Some(DomainError::AuthenticationFailed)
        } else if self.access_policy == RoomAccessPolicy::ApprovalRequired {
            if self.pending_count() >= self.maximum_pending_viewers {
                Some(DomainError::PendingViewerLimitReached)
            } else {
                None
            }
        } else if self.full() {
            Some(DomainError::RoomFull)
        } else {
            None
        }
    }

    /// The viewer that joins.
    pub open spec fn joining(
        self,
        display_name: Option<Seq<char>>,
        friend_code: Option<Seq<char>>,
        session: SessionHandleView,
        now: int,
        peer_id: Seq<char>,
        token: Seq<char>,
    ) -> PeerModel {
        PeerModel {
            peer_id,
            connection_id: session.connection_id,
            role: PeerRole::Viewer,
            display_name: kept_optional_name(display_name),
            friend_code,
            viewer_state: Some(
                if self.access_policy == RoomAccessPolicy::ApprovalRequired {
                    ViewerState::Pending
                } else {
                    ViewerState::Approved
                },
            ),
            joined_at: now,
            connected: true,
            outbound: Some(session.capacity as nat),
            resume_digest: self.keys.resume(token),
            resume_expires_at: now + self.viewer_resume_grace,
            disconnected_at: None,
        }
    }

    /// A viewer joins: approved at once, or waiting where approval is
    /// required. The presenter is told either way.
    pub open spec fn admit_viewer(
        self,
        credential: Seq<char>,
        display_name: Option<Seq<char>>,
        friend_code: Option<Seq<char>>,
        session: SessionHandleView,
        now: int,
        peer_id: Seq<char>,
        token: Seq<char>,
    ) -> (RoomModel, CommandResult<AuthOutcomeView>) {
        match self.viewer_refusal(credential, friend_code, now) {
            Some(error) => (self, Err(error)),
            None => {
                let viewer = self.joining(display_name, friend_code, session, now, peer_id, token);
                let joined = RoomModel { viewers: place_viewer(self.viewers, viewer), ..self };
                let room = if self.access_policy == RoomAccessPolicy::ApprovalRequired {
                    joined.tell_presenter(
                        ServerMessageView::ViewerPending {
                            server_timestamp: clock::wire_time(now),
                            viewer: viewer.snapshot(),
                        },
                    )
                } else {
                    joined.tell_snapshot(now)
                };
                (room, Ok(room.outcome(viewer, token, now, false)))
            },
        }
    }

    /// A peer comes back with its resume token. A token that matches but comes
    /// too late is told apart from one that matches nothing.
    pub open spec fn resume(self, token: Seq<char>, session: SessionHandleView, now: int) -> (
        RoomModel,
        CommandResult<AuthOutcomeView>,
    ) {
        let digest = self.keys.resume(token);
        if self.refusal(now) is Some {
            (self, Err(self.refusal(now)->0))
        } else if self.presenter is Some && self.presenter->0.resume_digest == digest {
            if self.presenter->0.resume_expires_at < now {
                (self, Err(DomainError::SessionExpired))
            } else {
                let presenter = self.presenter->0.revived(session);
                let room = RoomModel { presenter: Some(presenter), ..self }.tell_viewers(
                    |p: PeerModel| p.viewer_state == Some(ViewerState::Approved),
                    ServerMessageView::PresenterResumed { server_timestamp: clock::wire_time(now) },
                );
                (room, Ok(room.outcome(presenter, token, now, true)))
            }
        } else {
            match find_resumable(self.viewers, digest) {
                None => (self, Err(DomainError::AuthenticationFailed)),
                Some(i) => if self.viewers[i].resume_expires_at < now {
                    (self, Err(DomainError::SessionExpired))
                } else {
                    let revived = self.viewers[i].revived(session);
                    let viewer = if revived.viewer_state == Some(ViewerState::Disconnected) {
                        PeerModel { viewer_state: Some(ViewerState::Approved), ..revived }
                    } else {
                        revived
                    };
                    let room = self.with_viewer(i, viewer).tell_presenter(
                        ServerMessageView::ViewerResumed {
                            server_timestamp: clock::wire_time(now),
                            peer_id: viewer.peer_id,
                        },
                    );
                    (room, Ok(room.outcome(viewer, token, now, true)))
                },
            }
        }
    }

    /// The presenter lets a waiting viewer in.
    pub open spec fn approve(
        self,
        source: Seq<char>,
        target: Seq<char>,
        request_id: Seq<char>,
        now: int,
    ) -> (RoomModel, CommandResult<()>) {
        if self.refusal(now) is Some {
            (self, Err(self.refusal(now)->0))
        } else if !self.is_presenter(source) {
            (self, Err(DomainError::AuthorizationDenied))
        } else if self.full() {
            (self, Err(DomainError::RoomFull))
        } else {
            match find_viewer(self.viewers, target) {
                None => (self, Err(DomainError::ViewerNotFound)),
                Some(i) => if !self.viewers[i].pending() {
                    (self, Err(DomainError::AuthorizationDenied))
                } else {
                    let viewer = PeerModel {
                        viewer_state: Some(ViewerState::Approved),
                        ..self.viewers[i]
                    };
                    let room = self.with_viewer(i, viewer).tell_viewer(
                        i,
                        ServerMessageView::ViewerApproved {
                            request_id: Some(request_id),
                            server_timestamp: clock::wire_time(now),
                            peer_id: target,
                        },
                    ).tell_snapshot(now);
                    (room, Ok(()))
                },
            }
        }
    }

    /// The viewer at place `i` is told `message`, and is gone.
    pub open spec fn dismiss(self, i: int, message: ServerMessageView) -> RoomModel {
        RoomModel { outgoing: self.outgoing + self.viewers[i].effects(message), ..self }.without_viewer(
            i,
        )
    }

    /// The presenter turns a waiting viewer away.
    pub open spec fn reject(
        self,
        source: Seq<char>,
        target: Seq<char>,
        request_id: Seq<char>,
        now: int,
    ) -> (RoomModel, CommandResult<()>) {
        if !self.is_presenter(source) {
            (self, Err(DomainError::AuthorizationDenied))
        } else {
            match find_viewer(self.viewers, target) {
                None => (self, Err(DomainError::ViewerNotFound)),
                Some(i) => if !self.viewers[i].pending() {
                    (self, Err(DomainError::AuthorizationDenied))
                } else {
                    let room = self.dismiss(
                        i,
                        ServerMessageView::ViewerRejected {
                            request_id: Some(request_id),
                            server_timestamp: clock::wire_time(now),
                            peer_id: target,
                        },
                    ).tell_snapshot(now);
                    (room, Ok(()))
                },
            }
        }
    }

    /// The presenter removes an approved viewer.
    pub open spec fn kick(
        self,
        source: Seq<char>,
        target: Seq<char>,
        request_id: Seq<char>,
        now: int,
    ) -> (RoomModel, CommandResult<()>) {
        if !self.is_presenter(source) {
            (self, Err(DomainError::AuthorizationDenied))
        } else {
            match find_viewer(self.viewers, target) {
                None => (self, Err(DomainError::ViewerNotFound)),
                Some(i) => if !self.viewers[i].admitted() {
                    (self, Err(DomainError::ViewerNotApproved))
                } else {
                    let room = self.dismiss(
                        i,
                        ServerMessageView::ViewerKicked {
                            request_id: Some(request_id),
                            server_timestamp: clock::wire_time(now),
                            peer_id: target,
                        },
                    ).tell_snapshot(now);
                    (room, Ok(()))
                },
            }
        }
    }

    /// The presenter changes how many viewers fit. Viewers that are there stay.
    pub open spec fn update_capacity(
        self,
        source: Seq<char>,
        maximum_viewers: u8,
        request_id: Seq<char>,
        now: int,
    ) -> (RoomModel, CommandResult<()>) {
        if !self.is_presenter(source) {
            (self, Err(DomainError::AuthorizationDenied))
        } else if !(1 <= maximum_viewers <= self.maximum_viewers_hard_limit) {
            (self, Err(DomainError::InvalidCapacity))
        } else {
            let room = RoomModel { maximum_viewers, ..self }.tell_presenter(
                ServerMessageView::RoomCapacityUpdated {
                    request_id,
                    server_timestamp: clock::wire_time(now),
                    maximum_viewers,
                },
            ).tell_snapshot(now);
            (room, Ok(()))
        }
    }

    /// The presenter changes what the room shows; every connected peer is
    /// told.
    pub open spec fn update_sharing_state(
        self,
        source: Seq<char>,
        sharing_state: SharingState,
        request_id: Seq<char>,
        now: int,
    ) -> (RoomModel, CommandResult<()>) {
        if self.refusal(now) is Some {
            (self, Err(self.refusal(now)->0))
        } else if !self.is_presenter(source) {
            (self, Err(DomainError::AuthorizationDenied))
        } else {
            let message = ServerMessageView::RoomSharingStateUpdated {
                request_id,
                server_timestamp: clock::wire_time(now),
                sharing_state,
            };
            let room = RoomModel { sharing_state, ..self }.tell_presenter(message).tell_viewers(
                |p: PeerModel| p.connected,
                message,
            );
            (room, Ok(()))
        }
    }

    /// A viewer renames itself.
    pub open spec fn update_viewer_display_name(
        self,
        source: Seq<char>,
        display_name: Option<Seq<char>>,
        request_id: Seq<char>,
        now: int,
    ) -> (RoomModel, CommandResult<()>) {
        if self.refusal(now) is Some {
            (self, Err(self.refusal(now)->0))
        } else {
            match find_viewer(self.viewers, source) {
                None => (self, Err(DomainError::AuthorizationDenied)),
                Some(i) => {
                    let viewer = PeerModel {
                        display_name: kept_optional_name(display_name),
                        ..self.viewers[i]
                    };
                    let room = self.with_viewer(i, viewer).tell_viewer(
                        i,
                        ServerMessageView::ViewerDisplayNameUpdated {
                            request_id,
                            server_timestamp: clock::wire_time(now),
                            peer_id: viewer.peer_id,
                            display_name: viewer.display_name,
                        },
                    ).tell_snapshot(now);
                    (room, Ok(()))
                },
            }
        }
    }

    /// A message to one peer, which may turn out to be unreachable.
    pub open spec fn send_to_peer(self, peer_id: Seq<char>, message: ServerMessageView) -> (
        RoomModel,
        CommandResult<()>,
    ) {
        if self.is_presenter(peer_id) {
            (
                self.tell_presenter(message),
                if self.presenter->0.reachable() {
                    Ok(())
                } else {
                    Err(DomainError::Unavailable)
                },
            )
        } else {
            match find_viewer(self.viewers, peer_id) {
                None => (self, Err(DomainError::InvalidDestination)),
                Some(i) => (
                    self.tell_viewer(i, message),
                    if self.viewers[i].reachable() {
                        Ok(())
                    } else {
                        Err(DomainError::Unavailable)
                    },
                ),
            }
        }
    }

    /// Why a signal is not routed, if it is not.
    pub open spec fn signal_refusal(
        self,
        source: Seq<char>,
        destination: Seq<char>,
        signal: RoutedSignalView,
        now: int,
    ) -> Option<DomainError> {
        if self.refusal(now) is Some {
            self.refusal(now)
        } else if self.role_of(source) is None {
            Some(DomainError::AuthorizationDenied)
        } else if self.role_of(destination) is None {
            Some(DomainError::InvalidDestination)
        } else if !may_signal(self.role_of(source)->0, self.role_of(destination)->0, signal) {
            Some(DomainError::AuthorizationDenied)
        } else if self.role_of(source)->0 == PeerRole::Viewer && !self.is_admitted(source) {
            Some(DomainError::ViewerNotApproved)
        } else if self.role_of(destination)->0 == PeerRole::Viewer && !self.is_admitted(
            destination,
        ) {
            Some(DomainError::ViewerNotApproved)
        } else {
            None
        }
    }

    /// A signal from one peer to another.
    pub open spec fn route_signal(
        self,
        source: Seq<char>,
        destination: Seq<char>,
        request_id: Seq<char>,
        signal: RoutedSignalView,
        now: int,
    ) -> (RoomModel, CommandResult<()>) {
        match self.signal_refusal(source, destination, signal, now) {
            Some(error) => (self, Err(error)),
            None => self.send_to_peer(
                destination,
                signal_message(source, request_id, signal, now),
            ),
        }
    }

    /// A connection ended. Only the peer that is on that very connection is
    /// dropped, and stays resumable.
    pub open spec fn disconnect(self, connection: ConnectionIdentityView, now: int) -> RoomModel {
        if self.presenter is Some && self.presenter->0.is_on(connection) {
            RoomModel {
                presenter: Some(self.presenter->0.dropped(now, self.presenter_resume_grace)),
                ..self
            }.tell_viewers(
                |p: PeerModel| p.viewer_state == Some(ViewerState::Approved),
                ServerMessageView::PresenterDisconnected { server_timestamp: clock::wire_time(now) },
            )
        } else {
            match find_viewer(self.viewers, connection.peer_id) {
                Some(i) => if self.viewers[i].is_on(connection) {
                    let dropped = self.viewers[i].dropped(now, self.viewer_resume_grace);
                    let viewer = if dropped.viewer_state == Some(ViewerState::Approved) {
                        PeerModel { viewer_state: Some(ViewerState::Disconnected), ..dropped }
                    } else {
                        dropped
                    };
                    self.with_viewer(i, viewer).tell_snapshot(now)
                } else {
                    self
                },
                None => self,
            }
        }
    }

    /// The room ends, and everyone is told.
    pub open spec fn close(self, now: int, expired: bool) -> RoomModel {
        let server_timestamp = clock::wire_time(now);
        let message = if expired {
            ServerMessageView::RoomExpired { server_timestamp }
        } else {
            ServerMessageView::RoomClosed { server_timestamp }
        };
        RoomModel {
            lifecycle: if expired {
                RoomLifecycle::Expired
            } else {
                RoomLifecycle::Closed
            },
            ..self
        }.tell_presenter(message).tell_viewers(|p: PeerModel| true, message)
    }

    /// A peer leaves for good: with the presenter the room ends, a viewer is
    /// removed.
    pub open spec fn leave(self, connection: ConnectionIdentityView, now: int) -> RoomModel {
        if !self.is_current(connection) {
            self
        } else if self.is_presenter(connection.peer_id) {
            self.close(now, false)
        } else {
            match find_viewer(self.viewers, connection.peer_id) {
                Some(i) => self.without_viewer(i).tell_presenter(
                    ServerMessageView::ViewerLeft {
                        server_timestamp: clock::wire_time(now),
                        peer_id: connection.peer_id,
                    },
                ).tell_snapshot(now),
                None => self,
            }
        }
    }

    /// Whether the presenter stayed away for its whole grace window.
    pub open spec fn abandoned(self, now: int) -> bool {
        &&& self.presenter is Some
        &&& !self.presenter->0.connected
        &&& self.presenter->0.disconnected_at matches Some(at)
        &&& now - at >= self.presenter_resume_grace
    }

    /// Whether a viewer waited too long, or stayed away for two grace windows.
    pub open spec fn stale(self, viewer: PeerModel, now: int) -> bool {
        ||| viewer.pending() && now - viewer.joined_at >= self.pending_viewer_ttl
        ||| !viewer.connected && (viewer.disconnected_at matches Some(at) && now - at >= 2
            * self.viewer_resume_grace)
    }

    /// What time alone does to the room.
    pub open spec fn expire_stale(self, now: int) -> RoomModel {
        if now >= self.expires_at {
            self.close(now, true)
        } else if self.abandoned(now) {
            self.close(now, false)
        } else {
            RoomModel { viewers: self.viewers.filter(|p: PeerModel| !self.stale(p, now)), ..self }
        }
    }

    /// The connection can take `free` more messages.
    pub open spec fn refresh(self, connection_id: Seq<char>, free: nat) -> RoomModel {
        RoomModel {
            presenter: match self.presenter {
                Some(p) => Some(p.refreshed(connection_id, free)),
                None => None,
            },
            viewers: self.viewers.map_values(|p: PeerModel| p.refreshed(connection_id, free)),
            ..self
        }
    }
}

impl PeerModel {
    /// The peer once its connection, if it is the given one, can take `free`
    /// more messages.
    pub open spec fn refreshed(self, connection_id: Seq<char>, free: nat) -> PeerModel {
        if self.connection_id == connection_id && self.outbound is Some {
            PeerModel { outbound: Some(free), ..self }
        } else {
            self
        }
    }
}

/// The name of a stage of a room's life.
pub open spec fn lifecycle_name(lifecycle: RoomLifecycle) -> Seq<char> {
    match lifecycle {
        RoomLifecycle::Open => "Open"@,
        RoomLifecycle::Closed => "Closed"@,
        RoomLifecycle::Expired => "Expired"@,
    }
}

/// The name of a state of sharing.
pub open spec fn sharing_name(sharing_state: SharingState) -> Seq<char> {
    match sharing_state {
        SharingState::Idle => "Idle"@,
        SharingState::Live => "Live"@,
        SharingState::Paused => "Paused"@,
    }
}

/// The name of an access policy.
pub open spec fn policy_name(access_policy: RoomAccessPolicy) -> Seq<char> {
    match access_policy {
        RoomAccessPolicy::Public => "Public"@,
        RoomAccessPolicy::ApprovalRequired => "ApprovalRequired"@,
        RoomAccessPolicy::FriendsOnly => "FriendsOnly"@,
    }
}

/// A room in words, for logs: nothing of its secrets, nor of who may join.
pub open spec fn described(m: RoomModel) -> Seq<char> {
    "RoomState { room_id: "@ + text::quoted_of(m.room_id) + ", lifecycle: "@ + lifecycle_name(m.lifecycle)
        + ", sharing_state: "@ + sharing_name(m.sharing_state) + ", access_policy: "@ + policy_name(
        m.access_policy,
    ) + ", maximum_viewers: "@ + text::decimal(m.maximum_viewers as nat) + ", created_at: "@
        + clock::shown_date(m.created_at) + ", expires_at: "@ + clock::shown_date(m.expires_at)
        + ", presenter_connected: "@ + (if m.presenter_connected() {
        "true"@
    } else {
        "false"@
    }) + ", viewer_count: "@ + text::decimal(m.viewers.len()) + " }"@
}

} // verus!
