//! The state machine of a room.
use vstd::prelude::*;
use vstd::string::*;

use crate::clock;
use crate::clock::{format_time, Span, Timestamp};
use crate::crypto;
use crate::crypto::{Secret, SecretDigest, SecretDigestService};
use crate::protocol::{
    PeerRole, PeerSnapshot, PeerSnapshotView, RoomAccessPolicy, RoomLifecycle, RoomSnapshot,
    ServerMessage, ServerMessageView, SharingState, ViewerState,
};
use crate::room::model;
use crate::room::model::{PeerModel, RoomModel};
use crate::room::types;
use crate::room::types::{
    AuthOutcome, CommandResult, ConnectionIdentity, ConnectionIdentityView, DomainError, Outgoing,
    OutgoingView, RoomActorConfig, RoutedSignal, SessionHandle,
};
use crate::room::validity;
use crate::seqs;
use crate::text;
use crate::textset::TextSet;

verus! {

/// A peer and its connection.
struct PeerSession {
    peer_id: String,
    connection_id: String,
    role: PeerRole,
    display_name: Option<String>,
    friend_code: Option<String>,
    viewer_state: Option<ViewerState>,
    joined_at: Timestamp,
    connected: bool,
    outbound: Option<usize>,
    resume_digest: SecretDigest,
    resume_expires_at: Timestamp,
    disconnected_at: Option<Timestamp>,
}

impl View for PeerSession {
    type V = PeerModel;

    closed spec fn view(&self) -> PeerModel {
        PeerModel {
            peer_id: self.peer_id@,
            connection_id: self.connection_id@,
            role: self.role,
            display_name: self.display_name.deep_view(),
            friend_code: self.friend_code.deep_view(),
            viewer_state: self.viewer_state,
            joined_at: self.joined_at as int,
            connected: self.connected,
            outbound: match self.outbound {
                Some(free) => Some(free as nat),
                None => None,
            },
            resume_digest: self.resume_digest@,
            resume_expires_at: self.resume_expires_at as int,
            disconnected_at: match self.disconnected_at {
                Some(at) => Some(at as int),
                None => None,
            },
        }
    }
}

impl DeepView for PeerSession {
    type V = PeerModel;

    closed spec fn deep_view(&self) -> PeerModel {
        self@
    }
}

impl PeerSession {
    fn snapshot(&self) -> (r: PeerSnapshot)
        requires
            clock::is_timestamp(self@.joined_at),
        ensures
            r@ == self@.snapshot(),
    {
        PeerSnapshot {
            peer_id: self.peer_id.clone(),
            display_name: self.display_name.clone(),
            role: self.role,
            viewer_state: self.viewer_state,
            connected: self.connected,
            joined_at: format_time(self.joined_at),
            friend_code: self.friend_code.clone(),
        }
    }

    fn is_admitted(&self) -> (r: bool)
        ensures
            r == self@.admitted(),
    {
        match self.viewer_state {
            Some(ViewerState::Approved) => true,
            Some(ViewerState::Disconnected) => true,
            _ => false,
        }
    }

    fn is_pending(&self) -> (r: bool)
        ensures
            r == self@.pending(),
    {
        match self.viewer_state {
            Some(ViewerState::Pending) => true,
            _ => false,
        }
    }

    fn is_approved(&self) -> (r: bool)
        ensures
            r == (self@.viewer_state == Some(ViewerState::Approved)),
    {
        match self.viewer_state {
            Some(ViewerState::Approved) => true,
            _ => false,
        }
    }

    fn is_on(&self, connection: &ConnectionIdentity) -> (r: bool)
        ensures
            r == self@.is_on(connection@),
    {
        self.peer_id == connection.peer_id && self.connection_id == connection.connection_id
    }

    /// Sends a message, or asks for the connection to be shut down where it is
    /// full; whether the message went out.
    fn try_send(&mut self, message: ServerMessage, outgoing: &mut Vec<Outgoing>) -> (sent: bool)
        ensures
            sent == old(self)@.reachable(),
            final(self)@ == old(self)@.sent(),
            final(outgoing).deep_view() == old(outgoing).deep_view() + old(self)@.effects(message@),
    {
        let ghost before = outgoing.deep_view();
        match self.outbound {
            None => {
                assert(outgoing.deep_view() =~= before + old(self)@.effects(message@));
                false
            },
            Some(free) => if free == 0 {
                outgoing.push(Outgoing::Close { connection_id: self.connection_id.clone() });
                self.connected = false;
                self.outbound = None;
                assert(outgoing.deep_view() =~= before + old(self)@.effects(message@));
                false
            } else {
                outgoing.push(
                    Outgoing::Deliver { connection_id: self.connection_id.clone(), message },
                );
                self.outbound = Some(free - 1);
                assert(outgoing.deep_view() =~= before + old(self)@.effects(message@));
                true
            },
        }
    }

    /// Puts the peer on a new connection.
    fn revive(&mut self, session: &SessionHandle)
        ensures
            final(self)@ == old(self)@.revived(session@),
    {
        self.connected = true;
        self.outbound = Some(session.capacity);
        self.connection_id = session.connection_id.clone();
        self.disconnected_at = None;
    }

    /// Takes the connection away, and starts the grace window.
    fn drop_connection(&mut self, now: Timestamp, grace: Span)
        requires
            clock::is_timestamp(now + grace),
        ensures
            final(self)@ == old(self)@.dropped(now as int, grace as int),
    {
        self.connected = false;
        self.outbound = None;
        self.disconnected_at = Some(now);
        self.resume_expires_at = now + grace;
    }

    fn refresh(&mut self, connection_id: &str, free: usize)
        ensures
            final(self)@ == old(self)@.refreshed(connection_id@, free as nat),
    {
        if self.outbound.is_some() && text::same(self.connection_id.as_str(), connection_id) {
            self.outbound = Some(free);
        }
    }
}

/// Which viewers a broadcast goes to.
enum Audience {
    Approved,
    Connected,
    Everyone,
}

impl Audience {
    spec fn covers(self) -> spec_fn(PeerModel) -> bool {
        match self {
            Audience::Approved => |p: PeerModel| p.viewer_state == Some(ViewerState::Approved),
            Audience::Connected => |p: PeerModel| p.connected,
            Audience::Everyone => |p: PeerModel| true,
        }
    }

    fn includes(&self, peer: &PeerSession) -> (r: bool)
        ensures
            r == self.covers()(peer@),
    {
        match self {
            Audience::Approved => peer.is_approved(),
            Audience::Connected => peer.connected,
            Audience::Everyone => true,
        }
    }
}

/// Sends a message to every viewer of the audience.
fn broadcast(
    viewers: &mut Vec<PeerSession>,
    outgoing: &mut Vec<Outgoing>,
    audience: Audience,
    message: &ServerMessage,
)
    ensures
        final(viewers).deep_view() == model::told(old(viewers).deep_view(), audience.covers()),
        final(outgoing).deep_view() == old(outgoing).deep_view() + model::told_effects(
            old(viewers).deep_view(),
            audience.covers(),
            message@,
        ),
{
    let ghost all = viewers.deep_view();
    let ghost queued = outgoing.deep_view();
    let ghost who = audience.covers();
    let count: usize = viewers.len();
    assert(all.take(0) =~= Seq::empty());
    assert(queued =~= queued + model::told_effects(all.take(0), who, message@));
    for i in 0..count
        invariant
            who == audience.covers(),
            count == all.len(),
            viewers@.len() == count,
            forall|j: int| 0 <= j < i ==> (#[trigger] viewers@[j])@ == (if who(all[j]) {
                all[j].sent()
            } else {
                all[j]
            }),
            forall|j: int| i <= j < count ==> (#[trigger] viewers@[j])@ == all[j],
            outgoing.deep_view() == queued + model::told_effects(all.take(i as int), who, message@),
    {
        proof {
            let next = all.take(i + 1);
            assert(next.drop_last() =~= all.take(i as int));
            assert(next.last() == all[i as int]);
            assert(viewers@[i as int]@ == all[i as int]);
        }
        let ghost sofar = model::told_effects(all.take(i as int), who, message@);
        if audience.includes(&viewers[i]) {
            viewers[i].try_send(message.clone(), outgoing);
            assert(outgoing.deep_view() =~= queued + (sofar + all[i as int].effects(message@)));
        }
    }
    assert(all.take(count as int) =~= all);
    assert(viewers.deep_view() =~= model::told(all, who));
}

/// The place of the viewer with the given identifier.
fn position(viewers: &Vec<PeerSession>, peer_id: &str) -> (r: Option<usize>)
    ensures
        match r {
            Some(i) => i < viewers@.len() && model::find_viewer(viewers.deep_view(), peer_id@)
                == Some(i as int) && viewers@[i as int]@.peer_id == peer_id@,
            None => model::find_viewer(viewers.deep_view(), peer_id@) is None,
        },
{
    let ghost is_it = |p: PeerModel| p.peer_id == peer_id@;
    let ghost all = viewers.deep_view();
    for i in 0..viewers.len()
        invariant
            all == viewers.deep_view(),
            is_it == |p: PeerModel| p.peer_id == peer_id@,
            forall|j: int| 0 <= j < i ==> !is_it(#[trigger] all[j]),
    {
        assert(all[i as int] == viewers@[i as int]@);
        if text::same(viewers[i].peer_id.as_str(), peer_id) {
            proof {
                seqs::lemma_first(all, is_it, i as int);
            }
            return Some(i);
        }
    }
    proof {
        seqs::lemma_no_first(all, is_it);
    }
    None
}

/// The place of the viewer that a resume digest belongs to.
fn resumable(
    viewers: &Vec<PeerSession>,
    secrets: &SecretDigestService,
    digest: &SecretDigest,
) -> (r: Option<usize>)
    ensures
        match r {
            Some(i) => i < viewers@.len() && model::find_resumable(viewers.deep_view(), digest@)
                == Some(i as int),
            None => model::find_resumable(viewers.deep_view(), digest@) is None,
        },
{
    let ghost is_it = |p: PeerModel| p.resume_digest == digest@;
    let ghost all = viewers.deep_view();
    for i in 0..viewers.len()
        invariant
            all == viewers.deep_view(),
            is_it == |p: PeerModel| p.resume_digest == digest@,
            forall|j: int| 0 <= j < i ==> !is_it(#[trigger] all[j]),
    {
        assert(all[i as int] == viewers@[i as int]@);
        if secrets.verify(&viewers[i].resume_digest, digest) {
            proof {
                seqs::lemma_first(all, is_it, i as int);
            }
            return Some(i);
        }
    }
    proof {
        seqs::lemma_no_first(all, is_it);
    }
    None
}

/// Puts an entry into a list that is in joining order, behind those that
/// joined no later.
fn insert_by_joined(list: &mut Vec<PeerSnapshot>, entry: PeerSnapshot)
    ensures
        final(list).deep_view() == model::insert_by_joined(old(list).deep_view(), entry@),
{
    let ghost all = list.deep_view();
    let ghost x = entry@;
    let mut at: usize = list.len();
    assert(all.take(at as int) =~= all);
    assert(all.skip(at as int) =~= Seq::empty());
    assert(model::insert_by_joined(all, x) =~= model::insert_by_joined(all.take(at as int), x)
        + all.skip(at as int));
    while at > 0 && !text::is_text_le(list[at - 1].joined_at.as_str(), entry.joined_at.as_str())
        invariant
            x == entry@,
            all == list.deep_view(),
            at <= all.len(),
            model::insert_by_joined(all, x) == model::insert_by_joined(all.take(at as int), x)
                + all.skip(at as int),
        decreases at,
    {
        proof {
            let front = all.take(at as int);
            assert(all[at - 1] == list@[at - 1]@);
            assert(front.last() == all[at - 1]);
            assert(front.drop_last() =~= all.take(at - 1));
            let placed = model::insert_by_joined(all.take(at - 1), x);
            assert(placed.push(all[at - 1]) + all.skip(at as int) =~= placed + all.skip(at - 1));
        }
        at -= 1;
    }
    proof {
        let front = all.take(at as int);
        if at > 0 {
            assert(front.last() == all[at - 1]);
            assert(all[at - 1] == list@[at - 1]@);
        }
        assert(model::insert_by_joined(front, x) == front.push(x));
        assert(all.insert(at as int, x) =~= front.push(x) + all.skip(at as int));
    }
    list.insert(at, entry);
    assert(list.deep_view() =~= all.insert(at as int, x));
}

/// Which viewers a list of the snapshot holds.
enum Listed {
    Pending,
    Admitted,
}

impl Listed {
    spec fn covers(self) -> spec_fn(PeerModel) -> bool {
        match self {
            Listed::Pending => |p: PeerModel| p.pending(),
            Listed::Admitted => |p: PeerModel| p.admitted(),
        }
    }

    fn includes(&self, peer: &PeerSession) -> (r: bool)
        ensures
            r == self.covers()(peer@),
    {
        match self {
            Listed::Pending => peer.is_pending(),
            Listed::Admitted => peer.is_admitted(),
        }
    }
}

/// The snapshots of the viewers that belong on the list, in joining order.
fn list_viewers(viewers: &Vec<PeerSession>, which: Listed) -> (list: Vec<PeerSnapshot>)
    requires
        forall|i: int| 0 <= i < viewers@.len() ==> clock::is_timestamp(
            (#[trigger] viewers@[i])@.joined_at,
        ),
    ensures
        list.deep_view() == model::listed(viewers.deep_view(), which.covers()),
{
    let mut list: Vec<PeerSnapshot> = Vec::new();
    let ghost all = viewers.deep_view();
    let ghost shown = |p: PeerModel| p.snapshot();
    let ghost pred = which.covers();
    assert(list.deep_view() =~= model::by_joined(all.take(0).filter(pred).map_values(shown))) by {
        reveal(Seq::filter);
        assert(all.take(0).filter(pred).map_values(shown) =~= Seq::empty());
    }
    for i in 0..viewers.len()
        invariant
            all == viewers.deep_view(),
            pred == which.covers(),
            shown == |p: PeerModel| p.snapshot(),
            forall|j: int| 0 <= j < viewers@.len() ==> clock::is_timestamp(
                (#[trigger] viewers@[j])@.joined_at,
            ),
            list.deep_view() == model::by_joined(
                all.take(i as int).filter(pred).map_values(shown),
            ),
    {
        proof {
            let before = all.take(i as int);
            assert(all[i as int] == viewers@[i as int]@);
            assert(all.take(i + 1) =~= before.push(all[i as int]));
            seqs::lemma_filter_push(before, all[i as int], pred);
            let kept = before.filter(pred).map_values(shown);
            let next = kept.push(all[i as int].snapshot());
            assert(before.filter(pred).push(all[i as int]).map_values(shown) =~= next);
            assert(next.drop_last() =~= kept);
        }
        if which.includes(&viewers[i]) {
            insert_by_joined(&mut list, viewers[i].snapshot());
        }
    }
    assert(all.take(viewers@.len() as int) =~= all);
    list
}

/// How many viewers belong on the list.
fn count_viewers(viewers: &Vec<PeerSession>, which: Listed) -> (n: usize)
    ensures
        n == seqs::count(viewers.deep_view(), which.covers()),
{
    let mut n: usize = 0;
    let ghost all = viewers.deep_view();
    let ghost pred = which.covers();
    let total: usize = viewers.len();
    assert(seqs::count(all.take(0), pred) == 0) by {
        reveal(Seq::filter);
    }
    for i in 0..total
        invariant
            all == viewers.deep_view(),
            pred == which.covers(),
            total == viewers@.len(),
            n == seqs::count(all.take(i as int), pred),
            n <= i,
    {
        proof {
            assert(all[i as int] == viewers@[i as int]@);
            assert(all.take(i + 1) =~= all.take(i as int).push(all[i as int]));
            seqs::lemma_filter_push(all.take(i as int), all[i as int], pred);
        }
        if which.includes(&viewers[i]) {
            n += 1;
        }
    }
    assert(all.take(total as int) =~= all);
    n
}

/// Normalizes a display name: control characters go, runs of white space
/// become one space, and 48 characters stay at most. `None` where nothing is
/// left.
pub fn sanitize_display_name(value: &str) -> (r: Option<String>)
    ensures
        r.deep_view() == model::kept_name(value@),
{
    let mut normal = text::spaced_words(&text::chars_of(value));
    if normal.len() > 48 {
        normal.truncate(48);
    }
    assert(normal@ =~= {
        let full = text::spaced(text::words(text::printable(value@)));
        if full.len() <= 48 {
            full
        } else {
            full.take(48)
        }
    });
    if normal.len() == 0 {
        None
    } else {
        Some(text::text_of(&normal))
    }
}

fn sanitize_optional(value: &Option<String>) -> (r: Option<String>)
    ensures
        r.deep_view() == model::kept_optional_name(value.deep_view()),
{
    match value {
        Some(name) => sanitize_display_name(name.as_str()),
        None => None,
    }
}

/// Decides which signals may pass between which roles.
#[derive(Debug)]
pub struct SignalingAuthorizationService;

impl SignalingAuthorizationService {
    pub fn authorize(source: PeerRole, destination: PeerRole, signal: &RoutedSignal) -> (r:
        CommandResult<()>)
        ensures
            r == if model::may_signal(source, destination, signal@) {
                Ok::<(), DomainError>(())
            } else {
                Err(DomainError::AuthorizationDenied)
            },
    {
        if source == destination {
            return Err(DomainError::AuthorizationDenied);
        }
        match (source, signal) {
            (PeerRole::Presenter, RoutedSignal::Answer { .. }) => Err(
                DomainError::AuthorizationDenied,
            ),
            (PeerRole::Viewer, RoutedSignal::Offer { .. }) => Err(DomainError::AuthorizationDenied),
            _ => Ok(()),
        }
    }
}

/// A room: its limits, its peers, and what the transport still has to do.
pub struct RoomState {
    room_id: String,
    lifecycle: RoomLifecycle,
    sharing_state: SharingState,
    access_policy: RoomAccessPolicy,
    allowed_friend_codes: TextSet,
    maximum_viewers: u8,
    maximum_viewers_hard_limit: u8,
    maximum_pending_viewers: usize,
    pending_viewer_ttl: Span,
    presenter_resume_grace: Span,
    viewer_resume_grace: Span,
    created_at: Timestamp,
    expires_at: Timestamp,
    presenter_digest: SecretDigest,
    viewer_digest: SecretDigest,
    presenter: Option<PeerSession>,
    viewers: Vec<PeerSession>,
    secrets: SecretDigestService,
    outgoing: Vec<Outgoing>,
}

impl View for RoomState {
    type V = RoomModel;

    closed spec fn view(&self) -> RoomModel {
        RoomModel {
            room_id: self.room_id@,
            lifecycle: self.lifecycle,
            sharing_state: self.sharing_state,
            access_policy: self.access_policy,
            allowed_friend_codes: self.allowed_friend_codes@,
            maximum_viewers: self.maximum_viewers,
            maximum_viewers_hard_limit: self.maximum_viewers_hard_limit,
            maximum_pending_viewers: self.maximum_pending_viewers as nat,
            pending_viewer_ttl: self.pending_viewer_ttl as int,
            presenter_resume_grace: self.presenter_resume_grace as int,
            viewer_resume_grace: self.viewer_resume_grace as int,
            created_at: self.created_at as int,
            expires_at: self.expires_at as int,
            presenter_digest: self.presenter_digest@,
            viewer_digest: self.viewer_digest@,
            keys: self.secrets@,
            presenter: self.presenter.deep_view(),
            viewers: self.viewers.deep_view(),
            outgoing: self.outgoing.deep_view(),
        }
    }
}

/// A room that was just opened.
pub open spec fn new_room(
    room_id: Seq<char>,
    maximum_viewers: u8,
    access_policy: RoomAccessPolicy,
    allowed_friend_codes: Seq<Seq<char>>,
    created_at: int,
    expires_at: int,
    presenter_digest: Seq<u8>,
    viewer_digest: Seq<u8>,
    keys: crypto::DigestKeys,
    config: RoomActorConfig,
) -> RoomModel {
    RoomModel {
        room_id,
        lifecycle: RoomLifecycle::Open,
        sharing_state: SharingState::Idle,
        access_policy,
        allowed_friend_codes,
        maximum_viewers,
        maximum_viewers_hard_limit: config.maximum_viewers_hard_limit,
        maximum_pending_viewers: config.maximum_pending_viewers as nat,
        pending_viewer_ttl: config.pending_viewer_ttl as int,
        presenter_resume_grace: config.presenter_resume_grace as int,
        viewer_resume_grace: config.viewer_resume_grace as int,
        created_at,
        expires_at,
        presenter_digest,
        viewer_digest,
        keys,
        presenter: None,
        viewers: Seq::empty(),
        outgoing: Seq::empty(),
    }
}

/// Whether the durations of a configuration are ones that a room can use.
pub open spec fn usable(config: RoomActorConfig) -> bool {
    &&& clock::is_span(config.pending_viewer_ttl as int)
    &&& clock::is_span(config.presenter_resume_grace as int)
    &&& clock::is_span(2 * config.viewer_resume_grace)
}

impl RoomState {
    pub fn new(
        room_id: String,
        maximum_viewers: u8,
        access_policy: RoomAccessPolicy,
        allowed_friend_codes: TextSet,
        created_at: Timestamp,
        expires_at: Timestamp,
        presenter_digest: SecretDigest,
        viewer_digest: SecretDigest,
        secrets: SecretDigestService,
        config: &RoomActorConfig,
    ) -> (r: CommandResult<Self>)
        requires
            clock::is_timestamp(created_at as int),
            clock::is_timestamp(expires_at as int),
            usable(*config),
        ensures
            match r {
                Ok(room) => {
                    &&& 1 <= maximum_viewers <= config.maximum_viewers_hard_limit
                    &&& room@ == new_room(
                        room_id@,
                        maximum_viewers,
                        access_policy,
                        allowed_friend_codes@,
                        created_at as int,
                        expires_at as int,
                        presenter_digest@,
                        viewer_digest@,
                        secrets@,
                        *config,
                    )
                    &&& room@.valid()
                },
                Err(error) => {
                    &&& error == DomainError::InvalidCapacity
                    &&& !(1 <= maximum_viewers <= config.maximum_viewers_hard_limit)
                },
            },
    {
        if maximum_viewers == 0 || maximum_viewers > config.maximum_viewers_hard_limit {
            return Err(DomainError::InvalidCapacity);
        }
        let room = RoomState {
            room_id,
            lifecycle: RoomLifecycle::Open,
            sharing_state: SharingState::Idle,
            access_policy,
            allowed_friend_codes,
            maximum_viewers,
            maximum_viewers_hard_limit: config.maximum_viewers_hard_limit,
            maximum_pending_viewers: config.maximum_pending_viewers,
            pending_viewer_ttl: config.pending_viewer_ttl,
            presenter_resume_grace: config.presenter_resume_grace,
            viewer_resume_grace: config.viewer_resume_grace,
            created_at,
            expires_at,
            presenter_digest,
            viewer_digest,
            presenter: None,
            viewers: Vec::new(),
            secrets,
            outgoing: Vec::new(),
        };
        assert(room@ =~= new_room(
            room_id@,
            maximum_viewers,
            access_policy,
            allowed_friend_codes@,
            created_at as int,
            expires_at as int,
            presenter_digest@,
            viewer_digest@,
            secrets@,
            *config,
        ));
        Ok(room)
    }

    pub fn snapshot(&self, now: Timestamp) -> (r: RoomSnapshot)
        requires
            self@.valid(),
            clock::is_timestamp(now as int),
        ensures
            r@ == self@.snapshot(now as int),
    {
        proof {
            self.viewers_are_valid();
        }
        let left: i128 = self.expires_at - now;
        let expires_in_seconds: u64 = if left <= 0 {
            0
        } else {
            (left / clock::NANOS_PER_SECOND) as u64
        };
        RoomSnapshot {
            room_id: self.room_id.clone(),
            lifecycle: self.lifecycle,
            sharing_state: self.sharing_state,
            access_policy: self.access_policy,
            maximum_viewers: self.maximum_viewers,
            expires_at: format_time(self.expires_at),
            expires_in_seconds,
            presenter_connected: match &self.presenter {
                Some(presenter) => presenter.connected,
                None => false,
            },
            pending_viewers: list_viewers(&self.viewers, Listed::Pending),
            approved_viewers: list_viewers(&self.viewers, Listed::Admitted),
        }
    }

    proof fn viewers_are_valid(&self)
        requires
            self@.valid(),
        ensures
            forall|i: int| 0 <= i < self.viewers@.len() ==> (#[trigger] self.viewers@[i])@.valid_viewer(),
            self.presenter matches Some(p) ==> p@.valid(),
    {
        assert forall|i: int| 0 <= i < self.viewers@.len() implies (#[trigger] self.viewers@[i])@.valid_viewer() by {
            assert(self@.viewers[i] == self.viewers@[i]@);
        }
    }

    /// Approved viewers, including ones inside their resume grace window.
    pub fn approved_viewer_count(&self) -> (n: u32)
        ensures
            n == if self@.admitted_count() <= u32::MAX {
                self@.admitted_count() as u32
            } else {
                u32::MAX
            },
    {
        let n: usize = count_viewers(&self.viewers, Listed::Admitted);
        if n <= u32::MAX as usize {
            n as u32
        } else {
            u32::MAX
        }
    }

    pub fn sharing_state(&self) -> (r: SharingState)
        ensures
            r == self@.sharing_state,
    {
        self.sharing_state
    }

    pub fn lifecycle(&self) -> (r: RoomLifecycle)
        ensures
            r == self@.lifecycle,
    {
        self.lifecycle
    }

    pub fn room_id(&self) -> (r: &String)
        ensures
            r@ == self@.room_id,
    {
        &self.room_id
    }

    fn refusal(&self, now: Timestamp) -> (r: Option<DomainError>)
        ensures
            r == self@.refusal(now as int),
    {
        if now >= self.expires_at || self.lifecycle == RoomLifecycle::Expired {
            Some(DomainError::RoomExpired)
        } else if self.lifecycle == RoomLifecycle::Closed {
            Some(DomainError::RoomClosed)
        } else {
            None
        }
    }

    /// Whether the room still takes commands.
    pub fn ensure_open(&self, now: Timestamp) -> (r: CommandResult<()>)
        ensures
            r == match self@.refusal(now as int) {
                Some(error) => Err::<(), DomainError>(error),
                None => Ok(()),
            },
    {
        match self.refusal(now) {
            Some(error) => Err(error),
            None => Ok(()),
        }
    }

    /// Whether `credential` is this room's presenter secret. A pure check: no
    /// session is created or touched.
    pub fn verify_presenter(&self, credential: &Secret) -> (r: bool)
        ensures
            r == (self@.presenter_digest == self@.keys.presenter(credential@)),
    {
        self.secrets.verify(&self.presenter_digest, &self.secrets.presenter_digest(credential))
    }

    fn is_full(&self) -> (r: bool)
        ensures
            r == self@.full(),
    {
        count_viewers(&self.viewers, Listed::Admitted) >= self.maximum_viewers as usize
    }

    fn is_presenter(&self, peer_id: &str) -> (r: bool)
        ensures
            r == self@.is_presenter(peer_id@),
    {
        match &self.presenter {
            Some(presenter) => text::same(presenter.peer_id.as_str(), peer_id),
            None => false,
        }
    }

    pub fn ensure_presenter(&self, source_peer_id: &str) -> (r: CommandResult<()>)
        ensures
            r == if self@.is_presenter(source_peer_id@) {
                Ok::<(), DomainError>(())
            } else {
                Err(DomainError::AuthorizationDenied)
            },
    {
        if self.is_presenter(source_peer_id) {
            Ok(())
        } else {
            Err(DomainError::AuthorizationDenied)
        }
    }

    fn is_current(&self, connection: &ConnectionIdentity) -> (r: bool)
        ensures
            r == self@.is_current(connection@),
    {
        if self.is_presenter(connection.peer_id.as_str()) {
            match &self.presenter {
                Some(presenter) => presenter.connected && presenter.is_on(connection),
                None => false,
            }
        } else {
            match position(&self.viewers, connection.peer_id.as_str()) {
                Some(i) => {
                    assert(self@.viewers[i as int] == self.viewers@[i as int]@);
                    self.viewers[i].connected && self.viewers[i].is_on(connection)
                },
                None => false,
            }
        }
    }

    /// Whether a command may come from this connection: its peer has to be
    /// connected on it now.
    pub fn ensure_connection(&self, source: &ConnectionIdentity) -> (r: CommandResult<()>)
        ensures
            r == if self@.is_current(source@) {
                Ok::<(), DomainError>(())
            } else {
                Err(DomainError::AuthorizationDenied)
            },
    {
        if self.is_current(source) {
            Ok(())
        } else {
            Err(DomainError::AuthorizationDenied)
        }
    }

    fn send_presenter(&mut self, message: ServerMessage)
        ensures
            final(self)@ == old(self)@.tell_presenter(message@),
    {
        match &mut self.presenter {
            Some(presenter) => {
                presenter.try_send(message, &mut self.outgoing);
            },
            None => {},
        }
        assert(self@ =~= old(self)@.tell_presenter(message@));
    }

    /// Sends a message to the viewer at place `i`; whether it went out.
    fn send_viewer(&mut self, i: usize, message: ServerMessage) -> (sent: bool)
        requires
            i < old(self)@.viewers.len(),
        ensures
            sent == old(self)@.viewers[i as int].reachable(),
            final(self)@ == old(self)@.tell_viewer(i as int, message@),
    {
        assert(self@.viewers[i as int] == self.viewers@[i as int]@);
        let sent = self.viewers[i].try_send(message, &mut self.outgoing);
        assert(self.viewers.deep_view() =~= old(self).viewers.deep_view().update(
            i as int,
            old(self)@.viewers[i as int].sent(),
        ));
        sent
    }

    fn broadcast_viewers(&mut self, audience: Audience, message: &ServerMessage)
        ensures
            final(self)@ == old(self)@.tell_viewers(audience.covers(), message@),
    {
        broadcast(&mut self.viewers, &mut self.outgoing, audience, message);
    }

    fn send_snapshot_to_presenter(&mut self, now: Timestamp)
        requires
            old(self)@.valid(),
            clock::is_timestamp(now as int),
        ensures
            final(self)@ == old(self)@.tell_snapshot(now as int),
    {
        let snapshot = self.snapshot(now);
        self.send_presenter(
            ServerMessage::RoomSnapshot { server_timestamp: format_time(now), snapshot },
        );
    }

    /// Seats the presenter under the identifier and resume token that were
    /// drawn for it. A presenter that was there before keeps its identifier.
    pub fn admit_presenter(
        &mut self,
        credential: &Secret,
        session: SessionHandle,
        now: Timestamp,
        fresh_peer_id: String,
        resume_token: Secret,
    ) -> (r: CommandResult<AuthOutcome>)
        requires
            old(self)@.valid(),
            old(self)@.presenter_timely(credential@, now as int),
        ensures
            (final(self)@, types::admission(r)) == old(self)@.admit_presenter(
                credential@,
                session@,
                now as int,
                fresh_peer_id@,
                resume_token@,
            ),
            final(self)@.valid(),
    {
        proof {
            validity::law_admit_presenter_keeps_valid(
                self@,
                credential@,
                session@,
                now as int,
                fresh_peer_id@,
                resume_token@,
            );
        }
        if let Some(error) = self.refusal(now) {
            return Err(error);
        }
        if !self.verify_presenter(credential) {
            return Err(DomainError::AuthenticationFailed);
        }
        let (peer_id, joined_at) = match &self.presenter {
            Some(previous) => (previous.peer_id.clone(), previous.joined_at),
            None => (fresh_peer_id, now),
        };
        let resume_expires_at: i128 = now + self.presenter_resume_grace;
        let ghost seated = self@.seated(session@, now as int, fresh_peer_id@, resume_token@);
        self.presenter = Some(
            PeerSession {
                peer_id: peer_id.clone(),
                connection_id: session.connection_id.clone(),
                role: PeerRole::Presenter,
                display_name: None,
                friend_code: None,
                viewer_state: None,
                joined_at,
                connected: true,
                outbound: Some(session.capacity),
                resume_digest: self.secrets.resume_digest(&resume_token),
                resume_expires_at,
                disconnected_at: None,
            },
        );
        assert(self.presenter.deep_view() == Some(seated));
        Ok(
            AuthOutcome {
                room_id: self.room_id.clone(),
                peer_id,
                connection_id: session.connection_id,
                role: PeerRole::Presenter,
                resume_token,
                resume_expires_at,
                snapshot: self.snapshot(now),
                resumed: false,
            },
        )
    }

    /// Admits whoever knows the presenter secret, under a fresh resume token.
    pub fn authenticate_presenter(
        &mut self,
        credential: &Secret,
        session: SessionHandle,
        now: Timestamp,
    ) -> (r: CommandResult<AuthOutcome>)
        requires
            old(self)@.valid(),
            old(self)@.presenter_timely(credential@, now as int),
        ensures
            exists|peer_id: Seq<char>, token: Seq<char>|
                crypto::is_token(peer_id, 12) && crypto::is_token(token, 32) && (
                    final(self)@,
                    types::admission(r),
                ) == #[trigger] old(self)@.admit_presenter(
                    credential@,
                    session@,
                    now as int,
                    peer_id,
                    token,
                ),
            final(self)@.valid(),
    {
        let peer_id = self.secrets.generate_peer_id();
        let token = self.secrets.generate_resume_token();
        self.admit_presenter(credential, session, now, peer_id, token)
    }

    fn viewer_refusal(
        &self,
        credential: &Secret,
        friend_code: &Option<String>,
        now: Timestamp,
    ) -> (r: Option<DomainError>)
        ensures
            r == self@.viewer_refusal(credential@, friend_code.deep_view(), now as int),
    {
        if let Some(error) = self.refusal(now) {
            return Some(error);
        }
        if !self.secrets.verify(&self.viewer_digest, &self.secrets.viewer_digest(credential)) {
            return Some(DomainError::AuthenticationFailed);
        }
        if self.access_policy == RoomAccessPolicy::FriendsOnly {
            match friend_code {
                None => {
                    return Some(DomainError::IdentityRequired);
                },
                Some(code) => {
                    if !self.allowed_friend_codes.contains(code.as_str()) {
                        return Some(DomainError::AuthenticationFailed);
                    }
                },
            }
        }
        if self.access_policy == RoomAccessPolicy::ApprovalRequired {
            if count_viewers(&self.viewers, Listed::Pending) >= self.maximum_pending_viewers {
                return Some(DomainError::PendingViewerLimitReached);
            }
        } else if self.is_full() {
            return Some(DomainError::RoomFull);
        }
        None
    }

    /// Puts a viewer among the others, in place of one with its identifier.
    fn place_viewer(&mut self, viewer: PeerSession)
        ensures
            final(self)@ == (RoomModel {
                viewers: model::place_viewer(old(self)@.viewers, viewer@),
                ..old(self)@
            }),
    {
        match position(&self.viewers, viewer.peer_id.as_str()) {
            Some(i) => {
                self.viewers.set(i, viewer);
                assert(self.viewers.deep_view() =~= old(self).viewers.deep_view().update(
                    i as int,
                    viewer@,
                ));
            },
            None => {
                self.viewers.push(viewer);
                assert(self.viewers.deep_view() =~= old(self).viewers.deep_view().push(viewer@));
            },
        }
    }

    /// Admits a viewer under the identifier and resume token that were drawn
    /// for it.
    pub fn admit_viewer(
        &mut self,
        credential: &Secret,
        display_name: Option<String>,
        friend_code: Option<String>,
        session: SessionHandle,
        now: Timestamp,
        peer_id: String,
        resume_token: Secret,
    ) -> (r: CommandResult<AuthOutcome>)
        requires
            old(self)@.valid(),
            old(self)@.viewer_timely(credential@, friend_code.deep_view(), now as int),
        ensures
            (final(self)@, types::admission(r)) == old(self)@.admit_viewer(
                credential@,
                display_name.deep_view(),
                friend_code.deep_view(),
                session@,
                now as int,
                peer_id@,
                resume_token@,
            ),
            final(self)@.valid(),
    {
        proof {
            validity::law_admit_viewer_keeps_valid(
                self@,
                credential@,
                display_name.deep_view(),
                friend_code.deep_view(),
                session@,
                now as int,
                peer_id@,
                resume_token@,
            );
        }
        if let Some(error) = self.viewer_refusal(credential, &friend_code, now) {
            return Err(error);
        }
        let waits = self.access_policy == RoomAccessPolicy::ApprovalRequired;
        let resume_expires_at: i128 = now + self.viewer_resume_grace;
        let viewer = PeerSession {
            peer_id: peer_id.clone(),
            connection_id: session.connection_id.clone(),
            role: PeerRole::Viewer,
            display_name: sanitize_optional(&display_name),
            friend_code,
            viewer_state: Some(
                if waits {
                    ViewerState::Pending
                } else {
                    ViewerState::Approved
                },
            ),
            joined_at: now,
            connected: true,
            outbound: Some(session.capacity),
            resume_digest: self.secrets.resume_digest(&resume_token),
            resume_expires_at,
            disconnected_at: None,
        };
        assert(viewer@ == self@.joining(
            display_name.deep_view(),
            friend_code.deep_view(),
            session@,
            now as int,
            peer_id@,
            resume_token@,
        ));
        let viewer_snapshot = viewer.snapshot();
        self.place_viewer(viewer);
        if waits {
            self.send_presenter(
                ServerMessage::ViewerPending {
                    server_timestamp: format_time(now),
                    viewer: viewer_snapshot,
                },
            );
        } else {
            proof {
                validity::keep_join(old(self)@, viewer@);
            }
            self.send_snapshot_to_presenter(now);
        }
        Ok(
            AuthOutcome {
                room_id: self.room_id.clone(),
                peer_id,
                connection_id: session.connection_id,
                role: PeerRole::Viewer,
                resume_token,
                resume_expires_at,
                snapshot: self.snapshot(now),
                resumed: false,
            },
        )
    }

    /// Admits a viewer under a fresh identifier and resume token.
    pub fn authenticate_viewer(
        &mut self,
        credential: &Secret,
        display_name: Option<String>,
        friend_code: Option<String>,
        session: SessionHandle,
        now: Timestamp,
    ) -> (r: CommandResult<AuthOutcome>)
        requires
            old(self)@.valid(),
            old(self)@.viewer_timely(credential@, friend_code.deep_view(), now as int),
        ensures
            exists|peer_id: Seq<char>, token: Seq<char>|
                crypto::is_token(peer_id, 12) && crypto::is_token(token, 32) && (
                    final(self)@,
                    types::admission(r),
                ) == #[trigger] old(self)@.admit_viewer(
                    credential@,
                    display_name.deep_view(),
                    friend_code.deep_view(),
                    session@,
                    now as int,
                    peer_id,
                    token,
                ),
            final(self)@.valid(),
    {
        let peer_id = self.secrets.generate_peer_id();
        let token = self.secrets.generate_resume_token();
        self.admit_viewer(credential, display_name, friend_code, session, now, peer_id, token)
    }

    /// Takes a peer back on a new connection. The token is matched first and
    /// the grace window checked second, so a valid token presented too late
    /// yields `SessionExpired` rather than a generic failure.
    pub fn resume(&mut self, token: &Secret, session: SessionHandle, now: Timestamp) -> (r:
        CommandResult<AuthOutcome>)
        requires
            old(self)@.valid(),
            clock::is_timestamp(now as int),
        ensures
            (final(self)@, types::admission(r)) == old(self)@.resume(token@, session@, now as int),
            final(self)@.valid(),
    {
        proof {
            validity::law_resume_keeps_valid(self@, token@, session@, now as int);
        }
        if let Some(error) = self.refusal(now) {
            return Err(error);
        }
        let digest = self.secrets.resume_digest(token);
        let presenter_matches = match &self.presenter {
            Some(presenter) => self.secrets.verify(&presenter.resume_digest, &digest),
            None => false,
        };
        if presenter_matches {
            if let Some(presenter) = &mut self.presenter {
                if presenter.resume_expires_at < now {
                    return Err(DomainError::SessionExpired);
                }
                presenter.revive(&session);
                let peer_id = presenter.peer_id.clone();
                let resume_expires_at: i128 = presenter.resume_expires_at;
                assert(self@ =~= RoomModel {
                    presenter: Some(old(self)@.presenter->0.revived(session@)),
                    ..old(self)@
                });
                self.broadcast_viewers(
                    Audience::Approved,
                    &ServerMessage::PresenterResumed { server_timestamp: format_time(now) },
                );
                return Ok(
                    AuthOutcome {
                        room_id: self.room_id.clone(),
                        peer_id,
                        connection_id: session.connection_id,
                        role: PeerRole::Presenter,
                        resume_token: token.clone(),
                        resume_expires_at,
                        snapshot: self.snapshot(now),
                        resumed: true,
                    },
                );
            }
        }
        match resumable(&self.viewers, &self.secrets, &digest) {
            None => Err(DomainError::AuthenticationFailed),
            Some(i) => {
                assert(self@.viewers[i as int] == self.viewers@[i as int]@);
                proof {
                    self.viewers_are_valid();
                }
                if self.viewers[i].resume_expires_at < now {
                    return Err(DomainError::SessionExpired);
                }
                self.viewers[i].revive(&session);
                if let Some(ViewerState::Disconnected) = self.viewers[i].viewer_state {
                    self.viewers[i].viewer_state = Some(ViewerState::Approved);
                }
                let peer_id = self.viewers[i].peer_id.clone();
                let resume_expires_at: i128 = self.viewers[i].resume_expires_at;
                assert(self.viewers.deep_view() =~= old(self).viewers.deep_view().update(
                    i as int,
                    self.viewers@[i as int]@,
                ));
                self.send_presenter(
                    ServerMessage::ViewerResumed {
                        server_timestamp: format_time(now),
                        peer_id: peer_id.clone(),
                    },
                );
                Ok(
                    AuthOutcome {
                        room_id: self.room_id.clone(),
                        peer_id,
                        connection_id: session.connection_id,
                        role: PeerRole::Viewer,
                        resume_token: token.clone(),
                        resume_expires_at,
                        snapshot: self.snapshot(now),
                        resumed: true,
                    },
                )
            },
        }
    }

    /// The presenter lets a waiting viewer in.
    pub fn approve(&mut self, source: &str, target: &str, request_id: String, now: Timestamp) -> (r:
        CommandResult<()>)
        requires
            old(self)@.valid(),
            clock::is_timestamp(now as int),
        ensures
            (final(self)@, r) == old(self)@.approve(source@, target@, request_id@, now as int),
            final(self)@.valid(),
    {
        proof {
            validity::law_approve_keeps_valid(self@, source@, target@, request_id@, now as int);
        }
        if let Some(error) = self.refusal(now) {
            return Err(error);
        }
        if !self.is_presenter(source) {
            return Err(DomainError::AuthorizationDenied);
        }
        if self.is_full() {
            return Err(DomainError::RoomFull);
        }
        let Some(i) = position(&self.viewers, target) else {
            return Err(DomainError::ViewerNotFound);
        };
        assert(self@.viewers[i as int] == self.viewers@[i as int]@);
        if !self.viewers[i].is_pending() {
            return Err(DomainError::AuthorizationDenied);
        }
        self.viewers[i].viewer_state = Some(ViewerState::Approved);
        let ghost viewer = PeerModel {
            viewer_state: Some(ViewerState::Approved),
            ..old(self)@.viewers[i as int]
        };
        assert(self@ =~= old(self)@.with_viewer(i as int, viewer));
        let message = ServerMessage::ViewerApproved {
            request_id: Some(request_id),
            server_timestamp: format_time(now),
            peer_id: target.to_owned(),
        };
        proof {
            validity::keep_with_viewer(old(self)@, i as int, viewer);
            validity::keep_tell_viewer(self@, i as int, message@);
        }
        self.send_viewer(i, message);
        self.send_snapshot_to_presenter(now);
        Ok(())
    }

    /// Removes the viewer at place `i` with a last message.
    fn dismiss(&mut self, i: usize, message: ServerMessage)
        requires
            i < old(self)@.viewers.len(),
        ensures
            final(self)@ == old(self)@.dismiss(i as int, message@),
    {
        assert(self@.viewers[i as int] == self.viewers@[i as int]@);
        let mut viewer = self.viewers.remove(i);
        viewer.try_send(message, &mut self.outgoing);
        assert(self.viewers.deep_view() =~= old(self).viewers.deep_view().remove(i as int));
        assert(self@ =~= old(self)@.dismiss(i as int, message@));
    }

    /// The presenter turns a waiting viewer away.
    pub fn reject(&mut self, source: &str, target: &str, request_id: String, now: Timestamp) -> (r:
        CommandResult<()>)
        requires
            old(self)@.valid(),
            clock::is_timestamp(now as int),
        ensures
            (final(self)@, r) == old(self)@.reject(source@, target@, request_id@, now as int),
            final(self)@.valid(),
    {
        proof {
            validity::law_reject_keeps_valid(self@, source@, target@, request_id@, now as int);
        }
        if !self.is_presenter(source) {
            return Err(DomainError::AuthorizationDenied);
        }
        let Some(i) = position(&self.viewers, target) else {
            return Err(DomainError::ViewerNotFound);
        };
        assert(self@.viewers[i as int] == self.viewers@[i as int]@);
        if !self.viewers[i].is_pending() {
            return Err(DomainError::AuthorizationDenied);
        }
        let message = ServerMessage::ViewerRejected {
            request_id: Some(request_id),
            server_timestamp: format_time(now),
            peer_id: target.to_owned(),
        };
        proof {
            validity::keep_dismiss(self@, i as int, message@, now as int);
        }
        self.dismiss(i, message);
        self.send_snapshot_to_presenter(now);
        Ok(())
    }

    /// The presenter removes an approved viewer.
    pub fn kick(&mut self, source: &str, target: &str, request_id: String, now: Timestamp) -> (r:
        CommandResult<()>)
        requires
            old(self)@.valid(),
            clock::is_timestamp(now as int),
        ensures
            (final(self)@, r) == old(self)@.kick(source@, target@, request_id@, now as int),
            final(self)@.valid(),
    {
        proof {
            validity::law_kick_keeps_valid(self@, source@, target@, request_id@, now as int);
        }
        if !self.is_presenter(source) {
            return Err(DomainError::AuthorizationDenied);
        }
        let Some(i) = position(&self.viewers, target) else {
            return Err(DomainError::ViewerNotFound);
        };
        assert(self@.viewers[i as int] == self.viewers@[i as int]@);
        if !self.viewers[i].is_admitted() {
            return Err(DomainError::ViewerNotApproved);
        }
        let message = ServerMessage::ViewerKicked {
            request_id: Some(request_id),
            server_timestamp: format_time(now),
            peer_id: target.to_owned(),
        };
        proof {
            validity::keep_dismiss(self@, i as int, message@, now as int);
        }
        self.dismiss(i, message);
        self.send_snapshot_to_presenter(now);
        Ok(())
    }

    /// The presenter changes how many viewers fit.
    pub fn update_capacity(
        &mut self,
        source: &str,
        maximum_viewers: u8,
        request_id: String,
        now: Timestamp,
    ) -> (r: CommandResult<()>)
        requires
            old(self)@.valid(),
            clock::is_timestamp(now as int),
        ensures
            (final(self)@, r) == old(self)@.update_capacity(
                source@,
                maximum_viewers,
                request_id@,
                now as int,
            ),
            final(self)@.valid(),
    {
        proof {
            validity::law_update_capacity_keeps_valid(
                self@,
                source@,
                maximum_viewers,
                request_id@,
                now as int,
            );
        }
        if !self.is_presenter(source) {
            return Err(DomainError::AuthorizationDenied);
        }
        if maximum_viewers == 0 || maximum_viewers > self.maximum_viewers_hard_limit {
            return Err(DomainError::InvalidCapacity);
        }
        self.maximum_viewers = maximum_viewers;
        assert(self@ =~= RoomModel { maximum_viewers, ..old(self)@ });
        let message = ServerMessage::RoomCapacityUpdated {
            request_id,
            server_timestamp: format_time(now),
            maximum_viewers,
        };
        proof {
            assert(self@.viewers == old(self)@.viewers);
            validity::keep_tell_presenter(self@, message@);
        }
        self.send_presenter(message);
        self.send_snapshot_to_presenter(now);
        Ok(())
    }

    /// The presenter changes what the room shows.
    pub fn update_sharing_state(
        &mut self,
        source: &str,
        sharing_state: SharingState,
        request_id: String,
        now: Timestamp,
    ) -> (r: CommandResult<()>)
        requires
            old(self)@.valid(),
            clock::is_timestamp(now as int),
        ensures
            (final(self)@, r) == old(self)@.update_sharing_state(
                source@,
                sharing_state,
                request_id@,
                now as int,
            ),
            final(self)@.valid(),
    {
        proof {
            validity::law_update_sharing_state_keeps_valid(
                self@,
                source@,
                sharing_state,
                request_id@,
                now as int,
            );
        }
        if let Some(error) = self.refusal(now) {
            return Err(error);
        }
        if !self.is_presenter(source) {
            return Err(DomainError::AuthorizationDenied);
        }
        self.sharing_state = sharing_state;
        assert(self@ =~= RoomModel { sharing_state, ..old(self)@ });
        let message = ServerMessage::RoomSharingStateUpdated {
            request_id,
            server_timestamp: format_time(now),
            sharing_state,
        };
        self.send_presenter(message.clone());
        self.broadcast_viewers(Audience::Connected, &message);
        Ok(())
    }

    /// A viewer renames itself.
    pub fn update_viewer_display_name(
        &mut self,
        source: &str,
        display_name: Option<String>,
        request_id: String,
        now: Timestamp,
    ) -> (r: CommandResult<()>)
        requires
            old(self)@.valid(),
            clock::is_timestamp(now as int),
        ensures
            (final(self)@, r) == old(self)@.update_viewer_display_name(
                source@,
                display_name.deep_view(),
                request_id@,
                now as int,
            ),
            final(self)@.valid(),
    {
        proof {
            validity::law_update_viewer_display_name_keeps_valid(
                self@,
                source@,
                display_name.deep_view(),
                request_id@,
                now as int,
            );
        }
        if let Some(error) = self.refusal(now) {
            return Err(error);
        }
        let kept = sanitize_optional(&display_name);
        let Some(i) = position(&self.viewers, source) else {
            return Err(DomainError::AuthorizationDenied);
        };
        assert(self@.viewers[i as int] == self.viewers@[i as int]@);
        self.viewers[i].display_name = kept.clone();
        let ghost viewer = PeerModel {
            display_name: kept.deep_view(),
            ..old(self)@.viewers[i as int]
        };
        assert(self@ =~= old(self)@.with_viewer(i as int, viewer));
        let message = ServerMessage::ViewerDisplayNameUpdated {
            request_id,
            server_timestamp: format_time(now),
            peer_id: self.viewers[i].peer_id.clone(),
            display_name: kept,
        };
        proof {
            assert(self@.viewers[i as int] == self.viewers@[i as int]@);
            assert(old(self)@.viewers[i as int].valid_viewer());
            validity::keep_with_viewer(old(self)@, i as int, viewer);
            validity::keep_tell_viewer(self@, i as int, message@);
        }
        self.send_viewer(i, message);
        self.send_snapshot_to_presenter(now);
        Ok(())
    }

    fn peer_role(&self, peer_id: &str) -> (r: Option<PeerRole>)
        ensures
            r == self@.role_of(peer_id@),
    {
        if self.is_presenter(peer_id) {
            Some(PeerRole::Presenter)
        } else {
            match position(&self.viewers, peer_id) {
                Some(i) => {
                    assert(self@.viewers[i as int] == self.viewers@[i as int]@);
                    Some(self.viewers[i].role)
                },
                None => None,
            }
        }
    }

    fn viewer_is_approved(&self, peer_id: &str) -> (r: bool)
        ensures
            r == self@.is_admitted(peer_id@),
    {
        match position(&self.viewers, peer_id) {
            Some(i) => {
                assert(self@.viewers[i as int] == self.viewers@[i as int]@);
                self.viewers[i].is_admitted()
            },
            None => false,
        }
    }

    fn send_to_peer(&mut self, peer_id: &str, message: ServerMessage) -> (r: CommandResult<()>)
        ensures
            (final(self)@, r) == old(self)@.send_to_peer(peer_id@, message@),
    {
        if self.is_presenter(peer_id) {
            let reachable = match &self.presenter {
                Some(presenter) => match presenter.outbound {
                    Some(free) => free > 0,
                    None => false,
                },
                None => false,
            };
            self.send_presenter(message);
            return if reachable {
                Ok(())
            } else {
                Err(DomainError::Unavailable)
            };
        }
        let Some(i) = position(&self.viewers, peer_id) else {
            return Err(DomainError::InvalidDestination);
        };
        if self.send_viewer(i, message) {
            Ok(())
        } else {
            Err(DomainError::Unavailable)
        }
    }

    fn signal_refusal(
        &self,
        source: &str,
        destination: &str,
        signal: &RoutedSignal,
        now: Timestamp,
    ) -> (r: Option<DomainError>)
        ensures
            r == self@.signal_refusal(source@, destination@, signal@, now as int),
    {
        if let Some(error) = self.refusal(now) {
            return Some(error);
        }
        let Some(source_role) = self.peer_role(source) else {
            return Some(DomainError::AuthorizationDenied);
        };
        let Some(destination_role) = self.peer_role(destination) else {
            return Some(DomainError::InvalidDestination);
        };
        if let Err(error) = SignalingAuthorizationService::authorize(
            source_role,
            destination_role,
            signal,
        ) {
            return Some(error);
        }
        if source_role == PeerRole::Viewer && !self.viewer_is_approved(source) {
            return Some(DomainError::ViewerNotApproved);
        }
        if destination_role == PeerRole::Viewer && !self.viewer_is_approved(destination) {
            return Some(DomainError::ViewerNotApproved);
        }
        None
    }

    /// Passes a signal from one peer to another.
    pub fn route_signal(
        &mut self,
        source: &str,
        destination: &str,
        request_id: String,
        signal: RoutedSignal,
        now: Timestamp,
    ) -> (r: CommandResult<()>)
        requires
            old(self)@.valid(),
            clock::is_timestamp(now as int),
        ensures
            (final(self)@, r) == old(self)@.route_signal(
                source@,
                destination@,
                request_id@,
                signal@,
                now as int,
            ),
            final(self)@.valid(),
    {
        proof {
            validity::law_route_signal_keeps_valid(
                self@,
                source@,
                destination@,
                request_id@,
                signal@,
                now as int,
            );
        }
        if let Some(error) = self.signal_refusal(source, destination, &signal, now) {
            return Err(error);
        }
        let server_timestamp = format_time(now);
        let source_peer_id = source.to_owned();
        let message = match signal {
            RoutedSignal::Offer { sdp, ice_restart } => ServerMessage::SignalOffer {
                request_id,
                server_timestamp,
                source_peer_id,
                sdp,
                ice_restart,
            },
            RoutedSignal::Answer { sdp } => ServerMessage::SignalAnswer {
                request_id,
                server_timestamp,
                source_peer_id,
                sdp,
            },
            RoutedSignal::IceCandidate { candidate, sdp_mid, sdp_m_line_index } =>
                ServerMessage::SignalIceCandidate {
                request_id,
                server_timestamp,
                source_peer_id,
                candidate,
                sdp_mid,
                sdp_m_line_index,
            },
            RoutedSignal::IceRestart => ServerMessage::SignalIceRestart {
                request_id,
                server_timestamp,
                source_peer_id,
            },
        };
        self.send_to_peer(destination, message)
    }

    /// A connection ended; its peer, if it is still on it, may come back.
    pub fn disconnect(&mut self, session: &ConnectionIdentity, now: Timestamp)
        requires
            old(self)@.valid(),
            old(self)@.drop_timely(session@, now as int),
        ensures
            final(self)@ == old(self)@.disconnect(session@, now as int),
            final(self)@.valid(),
    {
        proof {
            validity::law_disconnect_keeps_valid(self@, session@, now as int);
        }
        let is_presenters = match &self.presenter {
            Some(presenter) => presenter.is_on(session),
            None => false,
        };
        if is_presenters {
            let grace: i128 = self.presenter_resume_grace;
            if let Some(presenter) = &mut self.presenter {
                presenter.drop_connection(now, grace);
            }
            assert(self@ =~= RoomModel {
                presenter: Some(old(self)@.presenter->0.dropped(now as int, grace as int)),
                ..old(self)@
            });
            self.broadcast_viewers(
                Audience::Approved,
                &ServerMessage::PresenterDisconnected { server_timestamp: format_time(now) },
            );
            return;
        }
        let Some(i) = position(&self.viewers, session.peer_id.as_str()) else {
            return;
        };
        assert(self@.viewers[i as int] == self.viewers@[i as int]@);
        if !self.viewers[i].is_on(session) {
            return;
        }
        self.viewers[i].drop_connection(now, self.viewer_resume_grace);
        if let Some(ViewerState::Approved) = self.viewers[i].viewer_state {
            self.viewers[i].viewer_state = Some(ViewerState::Disconnected);
        }
        proof {
            let viewer = self.viewers@[i as int]@;
            assert(self.viewers.deep_view() =~= old(self).viewers.deep_view().update(
                i as int,
                viewer,
            ));
            assert(self@ =~= old(self)@.with_viewer(i as int, viewer));
            assert(old(self)@.viewers[i as int].valid_viewer());
            validity::keep_with_viewer(old(self)@, i as int, viewer);
        }
        self.send_snapshot_to_presenter(now);
    }

    /// A peer leaves for good.
    pub fn leave(&mut self, session: &ConnectionIdentity, now: Timestamp)
        requires
            old(self)@.valid(),
            clock::is_timestamp(now as int),
        ensures
            final(self)@ == old(self)@.leave(session@, now as int),
            final(self)@.valid(),
    {
        proof {
            validity::law_leave_keeps_valid(self@, session@, now as int);
        }
        if !self.is_current(session) {
            return;
        }
        if self.is_presenter(session.peer_id.as_str()) {
            self.close(now, false);
            return;
        }
        let Some(i) = position(&self.viewers, session.peer_id.as_str()) else {
            return;
        };
        self.viewers.remove(i);
        let message = ServerMessage::ViewerLeft {
            server_timestamp: format_time(now),
            peer_id: session.peer_id.clone(),
        };
        proof {
            assert(self.viewers.deep_view() =~= old(self).viewers.deep_view().remove(i as int));
            assert(self@ =~= old(self)@.without_viewer(i as int));
            validity::keep_remove(old(self)@.viewers, i as int);
            validity::keep_tell_presenter(self@, message@);
        }
        self.send_presenter(message);
        self.send_snapshot_to_presenter(now);
    }

    /// Ends the room and tells everyone.
    pub fn close(&mut self, now: Timestamp, expired: bool)
        requires
            old(self)@.valid(),
            clock::is_timestamp(now as int),
        ensures
            final(self)@ == old(self)@.close(now as int, expired),
            final(self)@.valid(),
    {
        proof {
            validity::law_close_keeps_valid(self@, now as int, expired);
        }
        self.lifecycle = if expired {
            RoomLifecycle::Expired
        } else {
            RoomLifecycle::Closed
        };
        let server_timestamp = format_time(now);
        let message = if expired {
            ServerMessage::RoomExpired { server_timestamp }
        } else {
            ServerMessage::RoomClosed { server_timestamp }
        };
        assert(self@ =~= RoomModel {
            lifecycle: old(self)@.close(now as int, expired).lifecycle,
            ..old(self)@
        });
        self.send_presenter(message.clone());
        self.broadcast_viewers(Audience::Everyone, &message);
    }

    fn is_stale(&self, viewer: &PeerSession, now: Timestamp) -> (r: bool)
        requires
            self@.valid(),
            viewer@.valid(),
            clock::is_timestamp(now as int),
        ensures
            r == self@.stale(viewer@, now as int),
    {
        let pending_expired = viewer.is_pending() && now - viewer.joined_at
            >= self.pending_viewer_ttl;
        let disconnected_expired = !viewer.connected && match viewer.disconnected_at {
            Some(at) => now - at >= self.viewer_resume_grace * 2,
            None => false,
        };
        pending_expired || disconnected_expired
    }

    /// What time alone does to the room: it expires, it ends when the
    /// presenter stays away, and viewers that waited or stayed away too long
    /// are removed. A disconnected viewer is kept for one grace window past its
    /// resume expiry, so that a late resume gets a precise answer.
    pub fn expire_stale(&mut self, now: Timestamp)
        requires
            old(self)@.valid(),
            clock::is_timestamp(now as int),
        ensures
            final(self)@ == old(self)@.expire_stale(now as int),
            final(self)@.valid(),
    {
        proof {
            validity::law_expire_stale_keeps_valid(self@, now as int);
        }
        if now >= self.expires_at {
            self.close(now, true);
            return;
        }
        let abandoned = match &self.presenter {
            Some(presenter) => !presenter.connected && match presenter.disconnected_at {
                Some(at) => now - at >= self.presenter_resume_grace,
                None => false,
            },
            None => false,
        };
        if abandoned {
            self.close(now, false);
            return;
        }
        let ghost all = self@.viewers;
        let ghost room = self@;
        let ghost keep = |p: PeerModel| !room.stale(p, now as int);
        let mut i: usize = 0;
        assert(all.take(0).filter(keep) =~= Seq::empty()) by {
            reveal(Seq::filter);
        }
        assert(self@.viewers =~= all.take(0).filter(keep) + all.skip(0));
        let ghost mut done: int = 0;
        while i < self.viewers.len()
            invariant
                room == old(self)@,
                room.valid(),
                all == room.viewers,
                keep == (|p: PeerModel| !room.stale(p, now as int)),
                clock::is_timestamp(now as int),
                self@ == (RoomModel { viewers: self@.viewers, ..room }),
                self@.valid(),
                0 <= done <= all.len(),
                i == all.take(done).filter(keep).len(),
                self@.viewers == all.take(done).filter(keep) + all.skip(done),
            decreases all.len() - done,
        {
            proof {
                self.viewers_are_valid();
                assert(self@.viewers[i as int] == self.viewers@[i as int]@);
                assert(self@.viewers[i as int] == all[done]);
                assert(all.take(done + 1) =~= all.take(done).push(all[done]));
                seqs::lemma_filter_push(all.take(done), all[done], keep);
                assert(room.stale(all[done], now as int) == self@.stale(all[done], now as int));
            }
            if self.is_stale(&self.viewers[i], now) {
                let ghost before = self@.viewers;
                self.viewers.remove(i);
                proof {
                    assert(self@.viewers =~= before.remove(i as int));
                    assert(self@.viewers =~= all.take(done + 1).filter(keep) + all.skip(done + 1));
                    validity::keep_remove(before, i as int);
                }
            } else {
                i += 1;
                assert(self@.viewers =~= all.take(done + 1).filter(keep) + all.skip(done + 1));
            }
            proof {
                done = done + 1;
            }
        }
        proof {
            assert(all.skip(done).len() == 0);
            assert(all.take(done) =~= all);
            assert(self@.viewers =~= all.filter(keep));
        }
    }

    /// Notes how many more messages a connection can take.
    pub fn refresh(&mut self, connection_id: &str, free: usize)
        requires
            old(self)@.valid(),
        ensures
            final(self)@ == old(self)@.refresh(connection_id@, free as nat),
            final(self)@.valid(),
    {
        proof {
            validity::law_refresh_keeps_valid(self@, connection_id@, free as nat);
        }
        if let Some(presenter) = &mut self.presenter {
            presenter.refresh(connection_id, free);
        }
        let ghost all = self@.viewers;
        let ghost after = old(self)@.refresh(connection_id@, free as nat);
        let count: usize = self.viewers.len();
        for i in 0..count
            invariant
                count == all.len(),
                self.viewers@.len() == count,
                self@ == (RoomModel { viewers: self@.viewers, ..after }),
                forall|j: int| 0 <= j < i ==> (#[trigger] self.viewers@[j])@ == all[j].refreshed(
                    connection_id@,
                    free as nat,
                ),
                forall|j: int| i <= j < count ==> (#[trigger] self.viewers@[j])@ == all[j],
        {
            self.viewers[i].refresh(connection_id, free);
        }
        assert(self@.viewers =~= after.viewers);
    }

    /// Hands over what the transport has to do, oldest first.
    pub fn take_outgoing(&mut self) -> (r: Vec<Outgoing>)
        ensures
            r.deep_view() == old(self)@.outgoing,
            final(self)@ == (RoomModel { outgoing: Seq::empty(), ..old(self)@ }),
            old(self)@.valid() ==> final(self)@.valid(),
    {
        let mut taken: Vec<Outgoing> = Vec::new();
        std::mem::swap(&mut taken, &mut self.outgoing);
        assert(self@ =~= RoomModel { outgoing: Seq::empty(), ..old(self)@ });
        assert(self@.viewers == old(self)@.viewers);
        taken
    }
}

impl RoomState {
    /// The room in words, for logs.
    pub fn describe(&self) -> (r: String)
        requires
            self@.valid(),
        ensures
            r@ == model::described(self@),
    {
        let mut r = "RoomState { room_id: ".to_owned();
        r.push_str(text::quoted(self.room_id.as_str()).as_str());
        r.push_str(", lifecycle: ");
        r.push_str(
            match self.lifecycle {
                RoomLifecycle::Open => "Open",
                RoomLifecycle::Closed => "Closed",
                RoomLifecycle::Expired => "Expired",
            },
        );
        r.push_str(", sharing_state: ");
        r.push_str(
            match self.sharing_state {
                SharingState::Idle => "Idle",
                SharingState::Live => "Live",
                SharingState::Paused => "Paused",
            },
        );
        r.push_str(", access_policy: ");
        r.push_str(
            match self.access_policy {
                RoomAccessPolicy::Public => "Public",
                RoomAccessPolicy::ApprovalRequired => "ApprovalRequired",
                RoomAccessPolicy::FriendsOnly => "FriendsOnly",
            },
        );
        r.push_str(", maximum_viewers: ");
        r.push_str(text::decimal_text(self.maximum_viewers as u64).as_str());
        r.push_str(", created_at: ");
        r.push_str(clock::date_shown(self.created_at).as_str());
        r.push_str(", expires_at: ");
        r.push_str(clock::date_shown(self.expires_at).as_str());
        r.push_str(", presenter_connected: ");
        let connected = match &self.presenter {
            Some(presenter) => presenter.connected,
            None => false,
        };
        r.push_str(
            if connected {
                "true"
            } else {
                "false"
            },
        );
        r.push_str(", viewer_count: ");
        r.push_str(text::decimal_text(self.viewers.len() as u64).as_str());
        r.push_str(" }");
        r
    }
}

} // verus!
