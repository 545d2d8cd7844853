//! A room that takes one command after the other, and tells the outside what
//! became of it.
use vstd::prelude::*;
use vstd::string::*;

use crate::clock;
use crate::clock::{Span, Timestamp};
use crate::crypto;
use crate::crypto::{GeneratedRoomSecrets, Secret, SecretDigestService};
use crate::protocol::{
    RoomAccessPolicy, RoomLifecycle, RoomSnapshot, RoomSnapshotView, SharingState,
};
use crate::room::model::RoomModel;
use crate::room::state;
use crate::room::state::RoomState;
use crate::room::types;
use crate::room::types::{
    AuthOutcome, AuthOutcomeView, CommandResult, ConnectionIdentity, ConnectionIdentityView,
    CreateRoomOutcome, DomainError, RoomActorConfig, RoomEvent, RoomEventView, RoutedSignal,
    RoutedSignalView, SessionHandle, SessionHandleView,
};
use crate::textset;
use crate::textset::TextSet;

verus! {

/// What a room can be asked to do.
#[allow(inconsistent_fields)]
pub enum RoomCommand {
    AuthenticatePresenter { credential: Secret, session: SessionHandle },
    AuthenticateViewer {
        credential: Secret,
        display_name: Option<String>,
        /// The viewer's friend code, verified by the transport via the
        /// identity challenge. Required for friends-only rooms.
        friend_code: Option<String>,
        session: SessionHandle,
    },
    Resume { resume_token: Secret, session: SessionHandle },
    Approve { source: ConnectionIdentity, target_peer_id: String, request_id: String },
    Reject { source: ConnectionIdentity, target_peer_id: String, request_id: String },
    Kick { source: ConnectionIdentity, target_peer_id: String, request_id: String },
    UpdateCapacity { source: ConnectionIdentity, maximum_viewers: u8, request_id: String },
    UpdateSharingState {
        source: ConnectionIdentity,
        sharing_state: SharingState,
        request_id: String,
    },
    UpdateViewerDisplayName {
        source: ConnectionIdentity,
        display_name: Option<String>,
        request_id: String,
    },
    RouteSignal {
        source: ConnectionIdentity,
        destination_peer_id: String,
        request_id: String,
        signal: RoutedSignal,
    },
    Disconnect { session: ConnectionIdentity },
    Leave { session: ConnectionIdentity },
    Close { source: ConnectionIdentity },
    ValidateConnection { source: ConnectionIdentity },
    Snapshot,
    /// Checks a presenter credential without creating or touching a session.
    VerifyPresenter { credential: Secret },
    Shutdown,
}

/// What a [`RoomCommand`] holds.
#[allow(inconsistent_fields)]
pub enum RoomCommandView {
    AuthenticatePresenter { credential: Seq<char>, session: SessionHandleView },
    AuthenticateViewer {
        credential: Seq<char>,
        display_name: Option<Seq<char>>,
        friend_code: Option<Seq<char>>,
        session: SessionHandleView,
    },
    Resume { resume_token: Seq<char>, session: SessionHandleView },
    Approve { source: ConnectionIdentityView, target: Seq<char>, request_id: Seq<char> },
    Reject { source: ConnectionIdentityView, target: Seq<char>, request_id: Seq<char> },
    Kick { source: ConnectionIdentityView, target: Seq<char>, request_id: Seq<char> },
    UpdateCapacity { source: ConnectionIdentityView, maximum_viewers: u8, request_id: Seq<char> },
    UpdateSharingState {
        source: ConnectionIdentityView,
        sharing_state: SharingState,
        request_id: Seq<char>,
    },
    UpdateViewerDisplayName {
        source: ConnectionIdentityView,
        display_name: Option<Seq<char>>,
        request_id: Seq<char>,
    },
    RouteSignal {
        source: ConnectionIdentityView,
        destination: Seq<char>,
        request_id: Seq<char>,
        signal: RoutedSignalView,
    },
    Disconnect { session: ConnectionIdentityView },
    Leave { session: ConnectionIdentityView },
    Close { source: ConnectionIdentityView },
    ValidateConnection { source: ConnectionIdentityView },
    Snapshot,
    VerifyPresenter { credential: Seq<char> },
    Shutdown,
}

impl View for RoomCommand {
    type V = RoomCommandView;

    open spec fn view(&self) -> RoomCommandView {
        match self {
            RoomCommand::AuthenticatePresenter { credential, session } =>
                RoomCommandView::AuthenticatePresenter {
                credential: credential@,
                session: session@,
            },
            RoomCommand::AuthenticateViewer { credential, display_name, friend_code, session } =>
                RoomCommandView::AuthenticateViewer {
                credential: credential@,
                display_name: display_name.deep_view(),
                friend_code: friend_code.deep_view(),
                session: session@,
            },
            RoomCommand::Resume { resume_token, session } => RoomCommandView::Resume {
                resume_token: resume_token@,
                session: session@,
            },
            RoomCommand::Approve { source, target_peer_id, request_id } =>
                RoomCommandView::Approve {
                source: source@,
                target: target_peer_id@,
                request_id: request_id@,
            },
            RoomCommand::Reject { source, target_peer_id, request_id } => RoomCommandView::Reject {
                source: source@,
                target: target_peer_id@,
                request_id: request_id@,
            },
            RoomCommand::Kick { source, target_peer_id, request_id } => RoomCommandView::Kick {
                source: source@,
                target: target_peer_id@,
                request_id: request_id@,
            },
            RoomCommand::UpdateCapacity { source, maximum_viewers, request_id } =>
                RoomCommandView::UpdateCapacity {
                source: source@,
                maximum_viewers: *maximum_viewers,
                request_id: request_id@,
            },
            RoomCommand::UpdateSharingState { source, sharing_state, request_id } =>
                RoomCommandView::UpdateSharingState {
                source: source@,
                sharing_state: *sharing_state,
                request_id: request_id@,
            },
            RoomCommand::UpdateViewerDisplayName { source, display_name, request_id } =>
                RoomCommandView::UpdateViewerDisplayName {
                source: source@,
                display_name: display_name.deep_view(),
                request_id: request_id@,
            },
            RoomCommand::RouteSignal { source, destination_peer_id, request_id, signal } =>
                RoomCommandView::RouteSignal {
                source: source@,
                destination: destination_peer_id@,
                request_id: request_id@,
                signal: signal@,
            },
            RoomCommand::Disconnect { session } => RoomCommandView::Disconnect {
                session: session@,
            },
            RoomCommand::Leave { session } => RoomCommandView::Leave { session: session@ },
            RoomCommand::Close { source } => RoomCommandView::Close { source: source@ },
            RoomCommand::ValidateConnection { source } => RoomCommandView::ValidateConnection {
                source: source@,
            },
            RoomCommand::Snapshot => RoomCommandView::Snapshot,
            RoomCommand::VerifyPresenter { credential } => RoomCommandView::VerifyPresenter {
                credential: credential@,
            },
            RoomCommand::Shutdown => RoomCommandView::Shutdown,
        }
    }
}

/// What a room answers.
pub enum RoomReply {
    Admission(CommandResult<AuthOutcome>),
    Done(CommandResult<()>),
    Snapshot(RoomSnapshot),
    Verified(bool),
    /// The command asked for no answer.
    Silence,
}

/// What a [`RoomReply`] holds.
pub enum RoomReplyView {
    Admission(CommandResult<AuthOutcomeView>),
    Done(CommandResult<()>),
    Snapshot(RoomSnapshotView),
    Verified(bool),
    Silence,
}

impl View for RoomReply {
    type V = RoomReplyView;

    open spec fn view(&self) -> RoomReplyView {
        match self {
            RoomReply::Admission(r) => RoomReplyView::Admission(types::admission(*r)),
            RoomReply::Done(r) => RoomReplyView::Done(*r),
            RoomReply::Snapshot(s) => RoomReplyView::Snapshot(s@),
            RoomReply::Verified(b) => RoomReplyView::Verified(*b),
            RoomReply::Silence => RoomReplyView::Silence,
        }
    }
}

/// A command takes effect only from the connection that its peer is on now.
pub open spec fn from_current(
    room: RoomModel,
    source: ConnectionIdentityView,
    outcome: (RoomModel, CommandResult<()>),
) -> (RoomModel, RoomReplyView) {
    if room.is_current(source) {
        (outcome.0, RoomReplyView::Done(outcome.1))
    } else {
        (room, RoomReplyView::Done(Err(DomainError::AuthorizationDenied)))
    }
}

/// What a command makes of a room, and what the room answers. `peer_id` and
/// `token` are what was drawn for a peer that is admitted.
pub open spec fn performed(
    room: RoomModel,
    command: RoomCommandView,
    now: int,
    peer_id: Seq<char>,
    token: Seq<char>,
) -> (RoomModel, RoomReplyView) {
    match command {
        RoomCommandView::AuthenticatePresenter { credential, session } => {
            let (after, r) = room.admit_presenter(credential, session, now, peer_id, token);
            (after, RoomReplyView::Admission(r))
        },
        RoomCommandView::AuthenticateViewer { credential, display_name, friend_code, session } => {
            let (after, r) = room.admit_viewer(
                credential,
                display_name,
                friend_code,
                session,
                now,
                peer_id,
                token,
            );
            (after, RoomReplyView::Admission(r))
        },
        RoomCommandView::Resume { resume_token, session } => {
            let (after, r) = room.resume(resume_token, session, now);
            (after, RoomReplyView::Admission(r))
        },
        RoomCommandView::Approve { source, target, request_id } => from_current(
            room,
            source,
            room.approve(source.peer_id, target, request_id, now),
        ),
        RoomCommandView::Reject { source, target, request_id } => from_current(
            room,
            source,
            room.reject(source.peer_id, target, request_id, now),
        ),
        RoomCommandView::Kick { source, target, request_id } => from_current(
            room,
            source,
            room.kick(source.peer_id, target, request_id, now),
        ),
        RoomCommandView::UpdateCapacity { source, maximum_viewers, request_id } => from_current(
            room,
            source,
            room.update_capacity(source.peer_id, maximum_viewers, request_id, now),
        ),
        RoomCommandView::UpdateSharingState { source, sharing_state, request_id } => from_current(
            room,
            source,
            room.update_sharing_state(source.peer_id, sharing_state, request_id, now),
        ),
        RoomCommandView::UpdateViewerDisplayName { source, display_name, request_id } =>
            from_current(
            room,
            source,
            room.update_viewer_display_name(source.peer_id, display_name, request_id, now),
        ),
        RoomCommandView::RouteSignal { source, destination, request_id, signal } => from_current(
            room,
            source,
            room.route_signal(source.peer_id, destination, request_id, signal, now),
        ),
        RoomCommandView::Disconnect { session } => (
            room.disconnect(session, now),
            RoomReplyView::Silence,
        ),
        RoomCommandView::Leave { session } => (room.leave(session, now), RoomReplyView::Silence),
        RoomCommandView::Close { source } => from_current(
            room,
            source,
            if room.is_presenter(source.peer_id) {
                (room.close(now, false), Ok(()))
            } else {
                (room, Err(DomainError::AuthorizationDenied))
            },
        ),
        RoomCommandView::ValidateConnection { source } => from_current(
            room,
            source,
            (room, Ok(())),
        ),
        RoomCommandView::Snapshot => (room, RoomReplyView::Snapshot(room.snapshot(now))),
        RoomCommandView::VerifyPresenter { credential } => (
            room,
            RoomReplyView::Verified(room.presenter_digest == room.keys.presenter(credential)),
        ),
        RoomCommandView::Shutdown => (room.close(now, false), RoomReplyView::Silence),
    }
}

/// Whether `now` is a date, and so is the end of a grace window that starts with
/// the command.
pub open spec fn timely(room: RoomModel, command: RoomCommandView, now: int) -> bool {
    match command {
        RoomCommandView::AuthenticatePresenter { credential, .. } => room.presenter_timely(
            credential,
            now,
        ),
        RoomCommandView::AuthenticateViewer { credential, friend_code, .. } => room.viewer_timely(
            credential,
            friend_code,
            now,
        ),
        RoomCommandView::Disconnect { session } => room.drop_timely(session, now),
        _ => clock::is_timestamp(now),
    }
}

impl RoomState {
    /// Carries out a command, with the identifier and resume token that were
    /// drawn for a peer that is admitted.
    pub fn perform_with(
        &mut self,
        command: RoomCommand,
        now: Timestamp,
        peer_id: String,
        token: Secret,
    ) -> (r: RoomReply)
        requires
            old(self)@.valid(),
            timely(old(self)@, command@, now as int),
        ensures
            (final(self)@, r@) == performed(old(self)@, command@, now as int, peer_id@, token@),
            final(self)@.valid(),
    {
        match command {
            RoomCommand::AuthenticatePresenter { credential, session } => RoomReply::Admission(
                self.admit_presenter(&credential, session, now, peer_id, token),
            ),
            RoomCommand::AuthenticateViewer { credential, display_name, friend_code, session } =>
                RoomReply::Admission(
                self.admit_viewer(
                    &credential,
                    display_name,
                    friend_code,
                    session,
                    now,
                    peer_id,
                    token,
                ),
            ),
            RoomCommand::Resume { resume_token, session } => RoomReply::Admission(
                self.resume(&resume_token, session, now),
            ),
            RoomCommand::Approve { source, target_peer_id, request_id } => match self.ensure_connection(
                &source,
            ) {
                Err(error) => RoomReply::Done(Err(error)),
                Ok(()) => RoomReply::Done(
                    self.approve(
                        source.peer_id.as_str(),
                        target_peer_id.as_str(),
                        request_id,
                        now,
                    ),
                ),
            },
            RoomCommand::Reject { source, target_peer_id, request_id } => match self.ensure_connection(
                &source,
            ) {
                Err(error) => RoomReply::Done(Err(error)),
                Ok(()) => RoomReply::Done(
                    self.reject(
                        source.peer_id.as_str(),
                        target_peer_id.as_str(),
                        request_id,
                        now,
                    ),
                ),
            },
            RoomCommand::Kick { source, target_peer_id, request_id } => match self.ensure_connection(
                &source,
            ) {
                Err(error) => RoomReply::Done(Err(error)),
                Ok(()) => RoomReply::Done(
                    self.kick(source.peer_id.as_str(), target_peer_id.as_str(), request_id, now),
                ),
            },
            RoomCommand::UpdateCapacity { source, maximum_viewers, request_id } =>
                match self.ensure_connection(&source) {
                Err(error) => RoomReply::Done(Err(error)),
                Ok(()) => RoomReply::Done(
                    self.update_capacity(
                        source.peer_id.as_str(),
                        maximum_viewers,
                        request_id,
                        now,
                    ),
                ),
            },
            RoomCommand::UpdateSharingState { source, sharing_state, request_id } =>
                match self.ensure_connection(&source) {
                Err(error) => RoomReply::Done(Err(error)),
                Ok(()) => RoomReply::Done(
                    self.update_sharing_state(
                        source.peer_id.as_str(),
                        sharing_state,
                        request_id,
                        now,
                    ),
                ),
            },
            RoomCommand::UpdateViewerDisplayName { source, display_name, request_id } =>
                match self.ensure_connection(&source) {
                Err(error) => RoomReply::Done(Err(error)),
                Ok(()) => RoomReply::Done(
                    self.update_viewer_display_name(
                        source.peer_id.as_str(),
                        display_name,
                        request_id,
                        now,
                    ),
                ),
            },
            RoomCommand::RouteSignal { source, destination_peer_id, request_id, signal } =>
                match self.ensure_connection(&source) {
                Err(error) => RoomReply::Done(Err(error)),
                Ok(()) => RoomReply::Done(
                    self.route_signal(
                        source.peer_id.as_str(),
                        destination_peer_id.as_str(),
                        request_id,
                        signal,
                        now,
                    ),
                ),
            },
            RoomCommand::Disconnect { session } => {
                self.disconnect(&session, now);
                RoomReply::Silence
            },
            RoomCommand::Leave { session } => {
                self.leave(&session, now);
                RoomReply::Silence
            },
            RoomCommand::Close { source } => match self.ensure_connection(&source) {
                Err(error) => RoomReply::Done(Err(error)),
                Ok(()) => match self.ensure_presenter(source.peer_id.as_str()) {
                    Err(error) => RoomReply::Done(Err(error)),
                    Ok(()) => {
                        self.close(now, false);
                        RoomReply::Done(Ok(()))
                    },
                },
            },
            RoomCommand::ValidateConnection { source } => RoomReply::Done(
                self.ensure_connection(&source),
            ),
            RoomCommand::Snapshot => RoomReply::Snapshot(self.snapshot(now)),
            RoomCommand::VerifyPresenter { credential } => RoomReply::Verified(
                self.verify_presenter(&credential),
            ),
            RoomCommand::Shutdown => {
                self.close(now, false);
                RoomReply::Silence
            },
        }
    }
}

/// What a room looks like from outside: how many viewers are admitted, and
/// what it shows.
pub open spec fn observable(room: RoomModel) -> (u32, SharingState) {
    (
        if room.admitted_count() <= u32::MAX {
            room.admitted_count() as u32
        } else {
            u32::MAX
        },
        room.sharing_state,
    )
}

/// A room, and what was last announced of it.
pub struct RoomActor {
    room: RoomState,
    secrets: SecretDigestService,
    announced: (u32, SharingState),
}

/// What a [`RoomActor`] holds.
#[verifier::ext_equal]
pub struct RoomActorView {
    pub room: RoomModel,
    pub announced: (u32, SharingState),
}

impl View for RoomActor {
    type V = RoomActorView;

    closed spec fn view(&self) -> RoomActorView {
        RoomActorView { room: self.room@, announced: self.announced }
    }
}

impl RoomActor {
    pub fn new(room: RoomState, secrets: SecretDigestService) -> (r: Self)
        ensures
            r@ == (RoomActorView { room: room@, announced: observable(room@) }),
    {
        let announced = (room.approved_viewer_count(), room.sharing_state());
        RoomActor { room, secrets, announced }
    }

    pub fn room(&self) -> (r: &RoomState)
        ensures
            r@ == self@.room,
    {
        &self.room
    }

    /// Carries out a command, with a fresh identifier and resume token for a
    /// peer that is admitted.
    pub fn handle(&mut self, command: RoomCommand, now: Timestamp) -> (r: RoomReply)
        requires
            old(self)@.room.valid(),
            timely(old(self)@.room, command@, now as int),
        ensures
            exists|peer_id: Seq<char>, token: Seq<char>|
                crypto::is_token(peer_id, 12) && crypto::is_token(token, 32) && (
                    final(self)@.room,
                    r@,
                ) == #[trigger] performed(
                    old(self)@.room,
                    command@,
                    now as int,
                    peer_id,
                    token,
                ),
            final(self)@.room.valid(),
            final(self)@.announced == old(self)@.announced,
    {
        let peer_id = self.secrets.generate_peer_id();
        let token = self.secrets.generate_resume_token();
        self.room.perform_with(command, now, peer_id, token)
    }

    /// Lets time pass.
    pub fn tick(&mut self, now: Timestamp)
        requires
            old(self)@.room.valid(),
            clock::is_timestamp(now as int),
        ensures
            final(self)@ == (RoomActorView {
                room: old(self)@.room.expire_stale(now as int),
                ..old(self)@
            }),
            final(self)@.room.valid(),
    {
        self.room.expire_stale(now);
    }

    /// Notes how many more messages a connection can take.
    pub fn refresh(&mut self, connection_id: &str, free: usize)
        requires
            old(self)@.room.valid(),
        ensures
            final(self)@ == (RoomActorView {
                room: old(self)@.room.refresh(connection_id@, free as nat),
                ..old(self)@
            }),
            final(self)@.room.valid(),
    {
        self.room.refresh(connection_id, free);
    }

    /// Hands over what the transport has to do, oldest first.
    pub fn take_outgoing(&mut self) -> (r: Vec<types::Outgoing>)
        ensures
            r.deep_view() == old(self)@.room.outgoing,
            final(self)@ == (RoomActorView {
                room: RoomModel { outgoing: Seq::empty(), ..old(self)@.room },
                ..old(self)@
            }),
            old(self)@.room.valid() ==> final(self)@.room.valid(),
    {
        self.room.take_outgoing()
    }

    /// Whether the room is over.
    pub fn is_over(&self) -> (r: bool)
        ensures
            r == (self@.room.lifecycle != RoomLifecycle::Open),
    {
        self.room.lifecycle() != RoomLifecycle::Open
    }

    /// The event to send where the room has moved past what was announced.
    pub fn update(&self) -> (r: Option<RoomEvent>)
        ensures
            r.deep_view() == if observable(self@.room) == self@.announced {
                None
            } else {
                Some(
                    RoomEventView::Updated {
                        room_id: self@.room.room_id,
                        approved_viewers: observable(self@.room).0,
                        sharing_state: observable(self@.room).1,
                    },
                )
            },
    {
        let approved_viewers: u32 = self.room.approved_viewer_count();
        let sharing_state = self.room.sharing_state();
        if approved_viewers == self.announced.0 && sharing_state == self.announced.1 {
            None
        } else {
            Some(
                RoomEvent::Updated {
                    room_id: self.room.room_id().clone(),
                    approved_viewers,
                    sharing_state,
                },
            )
        }
    }

    /// Notes that the event got through.
    pub fn mark_announced(&mut self)
        ensures
            final(self)@ == (RoomActorView {
                announced: observable(old(self)@.room),
                ..old(self)@
            }),
    {
        self.announced = (self.room.approved_viewer_count(), self.room.sharing_state());
    }

    /// The event to send once the room is over.
    pub fn closing_event(&self) -> (r: RoomEvent)
        ensures
            r@ == (RoomEventView::Closed { room_id: self@.room.room_id }),
    {
        RoomEvent::Closed { room_id: self.room.room_id().clone() }
    }
}

/// Opens a room under secrets that were generated for it.
pub fn open_room_with(
    generated: GeneratedRoomSecrets,
    secrets: &SecretDigestService,
    config: &RoomActorConfig,
    maximum_viewers: u8,
    ttl: Span,
    access_policy: RoomAccessPolicy,
    allowed_friend_codes: &Vec<String>,
    now: Timestamp,
) -> (r: CommandResult<(RoomState, CreateRoomOutcome)>)
    requires
        clock::is_timestamp(now as int),
        1 <= maximum_viewers <= config.maximum_viewers_hard_limit ==> clock::is_timestamp(
            now + ttl,
        ),
        state::usable(*config),
    ensures
        match r {
            Err(error) => error == DomainError::InvalidCapacity && !(1 <= maximum_viewers
                <= config.maximum_viewers_hard_limit),
            Ok((room, outcome)) => {
                &&& 1 <= maximum_viewers <= config.maximum_viewers_hard_limit
                &&& room@ == state::new_room(
                    generated.room_id@,
                    maximum_viewers,
                    access_policy,
                    textset::distinct(allowed_friend_codes.deep_view()),
                    now as int,
                    now + ttl,
                    secrets@.presenter(generated.presenter_secret@),
                    secrets@.viewer(generated.viewer_secret@),
                    secrets@,
                    *config,
                )
                &&& room@.valid()
                &&& outcome.room_id@ == generated.room_id@
                &&& outcome.presenter_secret@ == generated.presenter_secret@
                &&& outcome.viewer_secret@ == generated.viewer_secret@
                &&& outcome.expires_at == now + ttl
                &&& outcome.maximum_viewers == maximum_viewers
                &&& outcome.access_policy == access_policy
            },
        },
{
    if maximum_viewers == 0 || maximum_viewers > config.maximum_viewers_hard_limit {
        return Err(DomainError::InvalidCapacity);
    }
    let presenter_digest = secrets.presenter_digest(&generated.presenter_secret);
    let viewer_digest = secrets.viewer_digest(&generated.viewer_secret);
    let expires_at: i128 = now + ttl;
    match RoomState::new(
        generated.room_id.clone(),
        maximum_viewers,
        access_policy,
        TextSet::of(allowed_friend_codes),
        now,
        expires_at,
        presenter_digest,
        viewer_digest,
        secrets.clone(),
        config,
    ) {
        Err(error) => Err(error),
        Ok(room) => Ok(
            (
                room,
                CreateRoomOutcome {
                    room_id: generated.room_id,
                    presenter_secret: generated.presenter_secret,
                    viewer_secret: generated.viewer_secret,
                    expires_at,
                    maximum_viewers,
                    access_policy,
                },
            ),
        ),
    }
}

/// Opens a room under fresh secrets.
pub fn open_room(
    secrets: &SecretDigestService,
    config: &RoomActorConfig,
    maximum_viewers: u8,
    ttl: Span,
    access_policy: RoomAccessPolicy,
    allowed_friend_codes: &Vec<String>,
    now: Timestamp,
) -> (r: CommandResult<(RoomState, CreateRoomOutcome)>)
    requires
        clock::is_timestamp(now as int),
        1 <= maximum_viewers <= config.maximum_viewers_hard_limit ==> clock::is_timestamp(
            now + ttl,
        ),
        state::usable(*config),
    ensures
        match r {
            Err(error) => error == DomainError::InvalidCapacity && !(1 <= maximum_viewers
                <= config.maximum_viewers_hard_limit),
            Ok((room, outcome)) => {
                &&& 1 <= maximum_viewers <= config.maximum_viewers_hard_limit
                &&& crypto::is_token(outcome.room_id@, 12)
                &&& crypto::is_token(outcome.presenter_secret@, 32)
                &&& crypto::is_token(outcome.viewer_secret@, 32)
                &&& room@ == state::new_room(
                    outcome.room_id@,
                    maximum_viewers,
                    access_policy,
                    textset::distinct(allowed_friend_codes.deep_view()),
                    now as int,
                    now + ttl,
                    secrets@.presenter(outcome.presenter_secret@),
                    secrets@.viewer(outcome.viewer_secret@),
                    secrets@,
                    *config,
                )
                &&& room@.valid()
                &&& outcome.expires_at == now + ttl
                &&& outcome.maximum_viewers == maximum_viewers
                &&& outcome.access_policy == access_policy
            },
        },
{
    open_room_with(
        secrets.generate_room_secrets(),
        secrets,
        config,
        maximum_viewers,
        ttl,
        access_policy,
        allowed_friend_codes,
        now,
    )
}

} // verus!
