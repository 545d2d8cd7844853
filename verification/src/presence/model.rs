//! Who sees whom, and what everyone is told when that changes.
use vstd::prelude::*;

use crate::clock;
use crate::protocol::{
    FriendPresenceView, HostedRoomView, PresenceServerMessageView, SharingState,
};
use crate::seqs;
use crate::sorting;
use crate::textset;

verus! {

/// How long an unaccepted friend request stands, in nanoseconds.
pub const REQUEST_TTL: i128 = 600_000_000_000;

/// One live connection of an identity.
#[verifier::ext_equal]
pub struct SessionModel {
    pub id: u64,
    pub code: Seq<char>,
    /// The codes this connection watches, each once.
    pub subscriptions: Seq<Seq<char>>,
    pub hosting: Option<HostedRoomView>,
}

/// That one identity wants another, and since when.
#[verifier::ext_equal]
pub struct InterestModel {
    pub requester: Seq<char>,
    pub target: Seq<char>,
    pub since: int,
}

/// When the last connection of an identity ended.
#[verifier::ext_equal]
pub struct SeenModel {
    pub code: Seq<char>,
    pub at: int,
}

/// A message for one connection.
#[verifier::ext_equal]
pub struct NoticeModel {
    pub session: u64,
    pub message: PresenceServerMessageView,
}

/// Whether a connection of `code` watches `target`.
pub open spec fn subscribes(
    sessions: Seq<SessionModel>,
    code: Seq<char>,
    target: Seq<char>,
) -> bool {
    exists|i: int|
        0 <= i < sessions.len() && (#[trigger] sessions[i]).code == code
            && sessions[i].subscriptions.contains(target)
}

/// Whether two identities watch each other.
pub open spec fn mutual(sessions: Seq<SessionModel>, a: Seq<char>, b: Seq<char>) -> bool {
    subscribes(sessions, a, b) && subscribes(sessions, b, a)
}

/// Whether an identity has a connection.
pub open spec fn online(sessions: Seq<SessionModel>, code: Seq<char>) -> bool {
    exists|i: int| 0 <= i < sessions.len() && (#[trigger] sessions[i]).code == code
}

/// The room that an identity hosts: that of its oldest connection that hosts
/// one.
pub open spec fn hosting_of(sessions: Seq<SessionModel>, code: Seq<char>) -> Option<HostedRoomView> {
    match seqs::first_where(sessions, |s: SessionModel| s.code == code && s.hosting is Some) {
        Some(i) => sessions[i].hosting,
        None => None,
    }
}

/// The identities with a connection, in the order of their oldest one.
pub open spec fn codes_of(sessions: Seq<SessionModel>) -> Seq<Seq<char>> {
    textset::distinct(sessions.map_values(|s: SessionModel| s.code))
}

/// The identities that see `code`.
pub open spec fn watchers_of(sessions: Seq<SessionModel>, code: Seq<char>) -> Seq<Seq<char>> {
    codes_of(sessions).filter(|peer: Seq<char>| peer != code && mutual(sessions, code, peer))
}

/// What the live connections of an identity watch, taken together.
pub open spec fn wanted_by(sessions: Seq<SessionModel>, code: Seq<char>) -> Seq<Seq<char>>
    decreases sessions.len(),
{
    if sessions.len() == 0 {
        Seq::empty()
    } else {
        let before = wanted_by(sessions.drop_last(), code);
        if sessions.last().code == code {
            textset::with_all(before, sessions.last().subscriptions)
        } else {
            before
        }
    }
}

/// Where the interest of `requester` in `target` stands.
pub open spec fn find_interest(
    standing: Seq<InterestModel>,
    requester: Seq<char>,
    target: Seq<char>,
) -> Option<int> {
    seqs::first_where(standing, |x: InterestModel| x.requester == requester && x.target == target)
}

/// Whether `requester` wants `target`.
pub open spec fn wants(
    standing: Seq<InterestModel>,
    requester: Seq<char>,
    target: Seq<char>,
) -> bool {
    find_interest(standing, requester, target) is Some
}

/// Since when `requester` wants `target`, or `now` where it did not so far.
pub open spec fn since(
    standing: Seq<InterestModel>,
    requester: Seq<char>,
    target: Seq<char>,
    now: int,
) -> int {
    match find_interest(standing, requester, target) {
        Some(i) => standing[i].since,
        None => now,
    }
}

/// The standing interest once `code` wants exactly the `targets`. One that it
/// wanted before keeps its time.
pub open spec fn restated(
    standing: Seq<InterestModel>,
    code: Seq<char>,
    targets: Seq<Seq<char>>,
    now: int,
) -> Seq<InterestModel> {
    standing.filter(|x: InterestModel| x.requester != code) + targets.map_values(
        |t: Seq<char>|
            InterestModel { requester: code, target: t, since: since(standing, code, t, now) },
    )
}

/// The identities to which `code` newly turned.
pub open spec fn added(
    standing: Seq<InterestModel>,
    code: Seq<char>,
    wanted: Seq<Seq<char>>,
) -> Seq<Seq<char>> {
    wanted.filter(|t: Seq<char>| !wants(standing, code, t))
}

/// The identities from which `code` turned away.
pub open spec fn removed(
    standing: Seq<InterestModel>,
    code: Seq<char>,
    wanted: Seq<Seq<char>>,
) -> Seq<Seq<char>> {
    standing.filter(
        |x: InterestModel| x.requester == code && !wanted.contains(x.target),
    ).map_values(|x: InterestModel| x.target)
}

/// The identities that `code` turned to or away from, without itself.
pub open spec fn touched(
    standing: Seq<InterestModel>,
    code: Seq<char>,
    wanted: Seq<Seq<char>>,
) -> Seq<Seq<char>> {
    (added(standing, code, wanted) + removed(standing, code, wanted)).filter(
        |t: Seq<char>| t != code,
    )
}

/// Whether an interest is a request to `code` that is still open.
pub open spec fn is_request(
    standing: Seq<InterestModel>,
    x: InterestModel,
    code: Seq<char>,
    now: int,
) -> bool {
    &&& x.target == code
    &&& x.requester != code
    &&& now - x.since < REQUEST_TTL
    &&& !wants(standing, code, x.requester)
}

/// The identities that want `code` without being wanted back, and not for too
/// long, in order.
pub open spec fn requests_of(standing: Seq<InterestModel>, code: Seq<char>, now: int) -> Seq<
    Seq<char>,
> {
    sorting::sorted(
        standing.filter(|x: InterestModel| is_request(standing, x, code, now)).map_values(
            |x: InterestModel| x.requester,
        ),
    )
}

/// Whether an interest was not answered in time.
pub open spec fn is_lapsed(standing: Seq<InterestModel>, x: InterestModel, now: int) -> bool {
    !wants(standing, x.target, x.requester) && now - x.since >= REQUEST_TTL
}

/// A message to every connection of an identity.
pub open spec fn notices(
    sessions: Seq<SessionModel>,
    code: Seq<char>,
    message: PresenceServerMessageView,
) -> Seq<NoticeModel> {
    sessions.filter(|s: SessionModel| s.code == code).map_values(
        |s: SessionModel| NoticeModel { session: s.id, message },
    )
}

/// The messages to the connections of several identities, one identity after
/// the other.
pub open spec fn notices_to(
    sessions: Seq<SessionModel>,
    codes: Seq<Seq<char>>,
    message: spec_fn(Seq<char>) -> PresenceServerMessageView,
) -> Seq<NoticeModel>
    decreases codes.len(),
{
    if codes.len() == 0 {
        Seq::empty()
    } else {
        notices_to(sessions, codes.drop_last(), message) + notices(
            sessions,
            codes.last(),
            message(codes.last()),
        )
    }
}

/// Where a connection is among the others.
pub open spec fn find_session(sessions: Seq<SessionModel>, id: u64) -> Option<int> {
    seqs::first_where(sessions, |s: SessionModel| s.id == id)
}

/// The presence graph.
#[verifier::ext_equal]
pub struct PresenceModel {
    /// The live connections, oldest first.
    pub sessions: Seq<SessionModel>,
    /// The identities that were here and left.
    pub last_seen: Seq<SeenModel>,
    /// Who wants whom. It survives the connections.
    pub standing: Seq<InterestModel>,
    /// The messages that were not picked up yet.
    pub outgoing: Seq<NoticeModel>,
}

impl PresenceModel {
    /// What holds of every presence graph: its times are dates.
    pub open spec fn valid(self) -> bool {
        &&& forall|i: int|
            0 <= i < self.last_seen.len() ==> clock::is_timestamp((#[trigger] self.last_seen[i]).at)
        &&& forall|i: int|
            0 <= i < self.standing.len() ==> clock::is_timestamp((#[trigger] self.standing[i]).since)
    }

    /// Seconds since the identity was last there; `None` while it is online,
    /// and when it was never seen.
    pub open spec fn last_seen_ago(self, code: Seq<char>, now: int) -> Option<u64> {
        if online(self.sessions, code) {
            None
        } else {
            match seqs::first_where(self.last_seen, |x: SeenModel| x.code == code) {
                Some(i) => Some(elapsed_seconds(self.last_seen[i].at, now)),
                None => None,
            }
        }
    }

    /// What a friend is told of an identity.
    pub open spec fn presence_of(self, code: Seq<char>, now: int) -> FriendPresenceView {
        FriendPresenceView {
            code,
            online: online(self.sessions, code),
            hosting: hosting_of(self.sessions, code),
            last_seen_seconds_ago: self.last_seen_ago(code, now),
        }
    }

    /// What someone who is no friend any more is told of an identity.
    pub open spec fn offline_presence(self, code: Seq<char>, now: int) -> FriendPresenceView {
        FriendPresenceView {
            code,
            online: false,
            hosting: None,
            last_seen_seconds_ago: self.last_seen_ago(code, now),
        }
    }

    /// What `peer` is told of `code`: its presence where they are friends, that
    /// it is offline otherwise.
    pub open spec fn shown_to(self, code: Seq<char>, peer: Seq<char>, now: int) -> PresenceServerMessageView {
        PresenceServerMessageView::Update {
            server_timestamp: clock::wire_time(now),
            friend: if mutual(self.sessions, code, peer) {
                self.presence_of(code, now)
            } else {
                self.offline_presence(code, now)
            },
        }
    }

    /// The message that lists the open requests to an identity.
    pub open spec fn requests_message(self, code: Seq<char>, now: int) -> PresenceServerMessageView {
        PresenceServerMessageView::Requests {
            server_timestamp: clock::wire_time(now),
            codes: requests_of(self.standing, code, now),
        }
    }

    /// What the `peers` are told of `code`.
    pub open spec fn updates_to(self, code: Seq<char>, peers: Seq<Seq<char>>, now: int) -> Seq<
        NoticeModel,
    > {
        notices_to(self.sessions, peers, |p: Seq<char>| self.shown_to(code, p, now))
    }

    /// What the `targets` are told of who wants them.
    pub open spec fn requests_to(self, targets: Seq<Seq<char>>, now: int) -> Seq<NoticeModel> {
        notices_to(self.sessions, targets, |t: Seq<char>| self.requests_message(t, now))
    }

    /// What is told of several friends at once.
    pub open spec fn friends(self, codes: Seq<Seq<char>>, now: int) -> Seq<FriendPresenceView> {
        codes.map_values(|p: Seq<char>| self.presence_of(p, now))
    }

    pub open spec fn tell(self, more: Seq<NoticeModel>) -> PresenceModel {
        PresenceModel { outgoing: self.outgoing + more, ..self }
    }

    /// Tells everyone who sees `code` what it is doing.
    pub open spec fn notify_watchers(self, code: Seq<char>, now: int) -> PresenceModel {
        let message = PresenceServerMessageView::Update {
            server_timestamp: clock::wire_time(now),
            friend: self.presence_of(code, now),
        };
        self.tell(notices_to(self.sessions, watchers_of(self.sessions, code), |p: Seq<char>| message))
    }

    /// Tells the watchers of several identities.
    pub open spec fn notify_all(self, codes: Seq<Seq<char>>, now: int) -> PresenceModel
        decreases codes.len(),
    {
        if codes.len() == 0 {
            self
        } else {
            self.notify_all(codes.drop_last(), now).notify_watchers(codes.last(), now)
        }
    }

    /// A new connection. It watches nobody yet, so nobody is told.
    pub open spec fn connect(self, id: u64, code: Seq<char>) -> PresenceModel {
        let session = SessionModel { id, code, subscriptions: Seq::empty(), hosting: None };
        PresenceModel {
            sessions: match find_session(self.sessions, id) {
                Some(i) => self.sessions.update(i, session),
                None => self.sessions.push(session),
            },
            last_seen: self.last_seen.filter(|x: SeenModel| x.code != code),
            ..self
        }
    }

    /// The graph once the connection at place `i` watches exactly `codes`.
    pub open spec fn resubscribed(self, i: int, codes: Seq<Seq<char>>, now: int) -> PresenceModel {
        let code = self.sessions[i].code;
        let sessions = self.sessions.update(
            i,
            SessionModel { subscriptions: textset::distinct(codes), ..self.sessions[i] },
        );
        PresenceModel {
            sessions,
            standing: restated(self.standing, code, wanted_by(sessions, code), now),
            ..self
        }
    }

    /// A connection replaces what it watches. Its identity is told who it sees
    /// now and who wants it; whoever sees it now, or saw it before, is told
    /// what became of it; and whoever it turned to or away from is told who
    /// wants them.
    pub open spec fn subscribe(self, id: u64, codes: Seq<Seq<char>>, now: int) -> PresenceModel {
        match find_session(self.sessions, id) {
            None => self,
            Some(i) => {
                let code = self.sessions[i].code;
                let before = watchers_of(self.sessions, code);
                let next = self.resubscribed(i, codes, now);
                let after = watchers_of(next.sessions, code);
                let wanted = wanted_by(next.sessions, code);
                next.tell(
                    notices(
                        next.sessions,
                        code,
                        PresenceServerMessageView::Snapshot {
                            server_timestamp: clock::wire_time(now),
                            friends: next.friends(after, now),
                        },
                    ),
                ).tell(notices(next.sessions, code, next.requests_message(code, now))).tell(
                    next.updates_to(code, textset::with_all(after, before), now),
                ).tell(next.requests_to(touched(self.standing, code, wanted), now))
            },
        }
    }

    /// A connection says what it hosts; whoever sees its identity is told.
    pub open spec fn announce(self, id: u64, hosting: Option<HostedRoomView>, now: int) -> PresenceModel {
        match find_session(self.sessions, id) {
            None => self,
            Some(i) => PresenceModel {
                sessions: self.sessions.update(i, SessionModel { hosting, ..self.sessions[i] }),
                ..self
            }.notify_watchers(self.sessions[i].code, now),
        }
    }

    /// The graph without the connection at place `i`. An identity without
    /// connections was last seen now.
    pub open spec fn dropped(self, i: int, now: int) -> PresenceModel {
        let code = self.sessions[i].code;
        let sessions = self.sessions.remove(i);
        PresenceModel {
            sessions,
            last_seen: if online(sessions, code) {
                self.last_seen
            } else {
                self.last_seen.filter(|x: SeenModel| x.code != code).push(
                    SeenModel { code, at: now },
                )
            },
            ..self
        }
    }

    /// A connection ends. Whoever sees its identity, or saw it through that
    /// connection, is told.
    pub open spec fn disconnect(self, id: u64, now: int) -> PresenceModel {
        match find_session(self.sessions, id) {
            None => self,
            Some(i) => {
                let code = self.sessions[i].code;
                let next = self.dropped(i, now);
                let lost = self.sessions[i].subscriptions.filter(
                    |p: Seq<char>| p != code && subscribes(next.sessions, p, code),
                );
                next.tell(
                    next.updates_to(
                        code,
                        textset::with_all(watchers_of(next.sessions, code), lost),
                        now,
                    ),
                )
            },
        }
    }

    /// The identities that host a room.
    pub open spec fn hosts_of(self, room_id: Seq<char>) -> Seq<Seq<char>> {
        textset::distinct(
            self.sessions.filter(|s: SessionModel| s.hosts(room_id)).map_values(
                |s: SessionModel| s.code,
            ),
        )
    }

    /// A room changed; whoever sees its hosts is told.
    pub open spec fn room_updated(
        self,
        room_id: Seq<char>,
        viewer_count: u32,
        sharing_state: SharingState,
        now: int,
    ) -> PresenceModel {
        PresenceModel {
            sessions: self.sessions.map_values(
                |s: SessionModel|
                    if s.hosts(room_id) {
                        SessionModel {
                            hosting: Some(
                                HostedRoomView { viewer_count, sharing_state, ..s.hosting->0 },
                            ),
                            ..s
                        }
                    } else {
                        s
                    },
            ),
            ..self
        }.notify_all(self.hosts_of(room_id), now)
    }

    /// A room is over; whoever sees its hosts is told.
    pub open spec fn room_closed(self, room_id: Seq<char>, now: int) -> PresenceModel {
        PresenceModel {
            sessions: self.sessions.map_values(
                |s: SessionModel|
                    if s.hosts(room_id) {
                        SessionModel { hosting: None, ..s }
                    } else {
                        s
                    },
            ),
            ..self
        }.notify_all(self.hosts_of(room_id), now)
    }

    /// Requests that were not answered in time go; whom they were made to is
    /// told what is left.
    pub open spec fn expire_requests(self, now: int) -> PresenceModel {
        let lapsed = self.standing.filter(|x: InterestModel| is_lapsed(self.standing, x, now));
        let next = PresenceModel {
            standing: self.standing.filter(|x: InterestModel| !is_lapsed(self.standing, x, now)),
            ..self
        };
        next.tell(
            next.requests_to(
                textset::distinct(lapsed.map_values(|x: InterestModel| x.target)),
                now,
            ),
        )
    }
}

impl SessionModel {
    pub open spec fn hosts(self, room_id: Seq<char>) -> bool {
        self.hosting matches Some(room) && room.room_id == room_id
    }
}

/// The whole seconds from `at` to `now`, 0 where `at` is the later.
pub open spec fn elapsed_seconds(at: int, now: int) -> u64 {
    if now <= at {
        0
    } else {
        ((now - at) / (clock::NANOS_PER_SECOND as int)) as u64
    }
}

} // verus!
