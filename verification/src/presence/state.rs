//! The presence graph, and the commands that change it.
use vstd::prelude::*;
use vstd::string::*;

use crate::clock;
use crate::clock::{format_time, Timestamp};
use crate::presence::model;
use crate::presence::model::{
    InterestModel, NoticeModel, PresenceModel, SeenModel, SessionModel, REQUEST_TTL,
};
use crate::protocol::{
    FriendPresence, FriendPresenceView, HostedRoom, HostedRoomView, PresenceServerMessage,
    PresenceServerMessageView, SharingState,
};
use crate::seqs;
use crate::sorting;
use crate::text;
use crate::textset;
use crate::textset::TextSet;

verus! {

/// Identifies one presence connection. A single identity may hold several (one
/// per device); it counts as online while any remain.
pub type SessionId = u64;

struct Session {
    id: SessionId,
    code: String,
    subscriptions: TextSet,
    hosting: Option<HostedRoom>,
}

impl View for Session {
    type V = SessionModel;

    closed spec fn view(&self) -> SessionModel {
        SessionModel {
            id: self.id,
            code: self.code@,
            subscriptions: self.subscriptions@,
            hosting: self.hosting.deep_view(),
        }
    }
}

impl DeepView for Session {
    type V = SessionModel;

    closed spec fn deep_view(&self) -> SessionModel {
        self@
    }
}

struct Interest {
    requester: String,
    target: String,
    since: Timestamp,
}

impl View for Interest {
    type V = InterestModel;

    closed spec fn view(&self) -> InterestModel {
        InterestModel {
            requester: self.requester@,
            target: self.target@,
            since: self.since as int,
        }
    }
}

impl DeepView for Interest {
    type V = InterestModel;

    closed spec fn deep_view(&self) -> InterestModel {
        self@
    }
}

struct Seen {
    code: String,
    at: Timestamp,
}

impl View for Seen {
    type V = SeenModel;

    closed spec fn view(&self) -> SeenModel {
        SeenModel { code: self.code@, at: self.at as int }
    }
}

impl DeepView for Seen {
    type V = SeenModel;

    closed spec fn deep_view(&self) -> SeenModel {
        self@
    }
}

/// A message for one connection.
#[derive(Debug, PartialEq, Eq)]
pub struct Notice {
    pub session: SessionId,
    pub message: PresenceServerMessage,
}

impl View for Notice {
    type V = NoticeModel;

    open spec fn view(&self) -> NoticeModel {
        NoticeModel { session: self.session, message: self.message@ }
    }
}

impl DeepView for Notice {
    type V = NoticeModel;

    open spec fn deep_view(&self) -> NoticeModel {
        self@
    }
}

/// The place of a connection.
fn session_at(sessions: &Vec<Session>, id: SessionId) -> (r: Option<usize>)
    ensures
        match r {
            Some(i) => i < sessions@.len() && model::find_session(sessions.deep_view(), id)
                == Some(i as int),
            None => model::find_session(sessions.deep_view(), id) is None,
        },
{
    let ghost all = sessions.deep_view();
    let ghost is_it = |s: SessionModel| s.id == id;
    for i in 0..sessions.len()
        invariant
            all == sessions.deep_view(),
            is_it == |s: SessionModel| s.id == id,
            forall|j: int| 0 <= j < i ==> !is_it(#[trigger] all[j]),
    {
        assert(all[i as int] == sessions@[i as int]@);
        if sessions[i].id == id {
            proof {
                seqs::lemma_first(all, is_it, i as int);
            }
            return Some(i);
        }
    }
    proof {
        seqs::lemma_no_first(all, is_it);
    }
    None
}

fn subscribes(sessions: &Vec<Session>, code: &str, target: &str) -> (r: bool)
    ensures
        r == model::subscribes(sessions.deep_view(), code@, target@),
{
    let ghost all = sessions.deep_view();
    for i in 0..sessions.len()
        invariant
            all == sessions.deep_view(),
            forall|j: int|
                0 <= j < i ==> !((#[trigger] all[j]).code == code@ && all[j].subscriptions.contains(
                    target@,
                )),
    {
        assert(all[i as int] == sessions@[i as int]@);
        if text::same(sessions[i].code.as_str(), code) && sessions[i].subscriptions.contains(
            target,
        ) {
            return true;
        }
    }
    false
}

fn is_mutual(sessions: &Vec<Session>, a: &str, b: &str) -> (r: bool)
    ensures
        r == model::mutual(sessions.deep_view(), a@, b@),
{
    subscribes(sessions, a, b) && subscribes(sessions, b, a)
}

fn is_online(sessions: &Vec<Session>, code: &str) -> (r: bool)
    ensures
        r == model::online(sessions.deep_view(), code@),
{
    let ghost all = sessions.deep_view();
    for i in 0..sessions.len()
        invariant
            all == sessions.deep_view(),
            forall|j: int| 0 <= j < i ==> (#[trigger] all[j]).code != code@,
    {
        assert(all[i as int] == sessions@[i as int]@);
        if text::same(sessions[i].code.as_str(), code) {
            return true;
        }
    }
    false
}

fn hosting_of(sessions: &Vec<Session>, code: &str) -> (r: Option<HostedRoom>)
    ensures
        r.deep_view() == model::hosting_of(sessions.deep_view(), code@),
{
    let ghost all = sessions.deep_view();
    let ghost is_it = |s: SessionModel| s.code == code@ && s.hosting is Some;
    for i in 0..sessions.len()
        invariant
            all == sessions.deep_view(),
            is_it == |s: SessionModel| s.code == code@ && s.hosting is Some,
            forall|j: int| 0 <= j < i ==> !is_it(#[trigger] all[j]),
    {
        assert(all[i as int] == sessions@[i as int]@);
        if sessions[i].hosting.is_some() && text::same(sessions[i].code.as_str(), code) {
            proof {
                seqs::lemma_first(all, is_it, i as int);
            }
            return sessions[i].hosting.clone();
        }
    }
    proof {
        seqs::lemma_no_first(all, is_it);
    }
    None
}

/// The identities with a connection.
fn codes_of(sessions: &Vec<Session>) -> (r: TextSet)
    ensures
        r@ == model::codes_of(sessions.deep_view()),
{
    let mut r = TextSet::new();
    let ghost all = sessions.deep_view().map_values(|s: SessionModel| s.code);
    for i in 0..sessions.len()
        invariant
            all == sessions.deep_view().map_values(|s: SessionModel| s.code),
            r@ == textset::distinct(all.take(i as int)),
    {
        proof {
            let next = all.take(i + 1);
            assert(next.drop_last() =~= all.take(i as int));
            assert(next.last() == sessions@[i as int]@.code);
        }
        r.insert(sessions[i].code.clone());
    }
    assert(all.take(sessions@.len() as int) =~= all);
    r
}

/// The identities that see `code`.
fn watchers_of(sessions: &Vec<Session>, code: &str) -> (r: TextSet)
    ensures
        r@ == model::watchers_of(sessions.deep_view(), code@),
{
    let all = codes_of(sessions);
    let mut r = TextSet::new();
    let ghost ss = sessions.deep_view();
    let ghost sees = |peer: Seq<char>| peer != code@ && model::mutual(ss, code@, peer);
    assert(all@.take(0).filter(sees) =~= Seq::empty()) by {
        reveal(Seq::filter);
    }
    let count: usize = all.len();
    for i in 0..count
        invariant
            count == all@.len(),
            ss == sessions.deep_view(),
            sees == |peer: Seq<char>| peer != code@ && model::mutual(ss, code@, peer),
            all@ == model::codes_of(ss),
            r@ == all@.take(i as int).filter(sees),
    {
        proof {
            assert(all@.take(i + 1) =~= all@.take(i as int).push(all@[i as int]));
            seqs::lemma_filter_push(all@.take(i as int), all@[i as int], sees);
        }
        let peer = all.get(i);
        if !text::same(peer.as_str(), code) && is_mutual(sessions, code, peer.as_str()) {
            r.append(peer.clone());
        }
    }
    assert(all@.take(all@.len() as int) =~= all@);
    r
}

/// What the connections of an identity watch, taken together.
fn wanted_by(sessions: &Vec<Session>, code: &str) -> (r: TextSet)
    ensures
        r@ == model::wanted_by(sessions.deep_view(), code@),
{
    let mut r = TextSet::new();
    let ghost all = sessions.deep_view();
    for i in 0..sessions.len()
        invariant
            all == sessions.deep_view(),
            r@ == model::wanted_by(all.take(i as int), code@),
    {
        proof {
            let next = all.take(i + 1);
            assert(next.drop_last() =~= all.take(i as int));
            assert(next.last() == sessions@[i as int]@);
        }
        if text::same(sessions[i].code.as_str(), code) {
            r.extend(&sessions[i].subscriptions);
        }
    }
    assert(all.take(sessions@.len() as int) =~= all);
    r
}

/// The place of the interest of one identity in another.
fn interest_at(standing: &Vec<Interest>, requester: &str, target: &str) -> (r: Option<usize>)
    ensures
        match r {
            Some(i) => i < standing@.len() && model::find_interest(
                standing.deep_view(),
                requester@,
                target@,
            ) == Some(i as int),
            None => model::find_interest(standing.deep_view(), requester@, target@) is None,
        },
{
    let ghost all = standing.deep_view();
    let ghost is_it = |x: InterestModel| x.requester == requester@ && x.target == target@;
    for i in 0..standing.len()
        invariant
            all == standing.deep_view(),
            is_it == |x: InterestModel| x.requester == requester@ && x.target == target@,
            forall|j: int| 0 <= j < i ==> !is_it(#[trigger] all[j]),
    {
        assert(all[i as int] == standing@[i as int]@);
        if text::same(standing[i].requester.as_str(), requester) && text::same(
            standing[i].target.as_str(),
            target,
        ) {
            proof {
                seqs::lemma_first(all, is_it, i as int);
            }
            return Some(i);
        }
    }
    proof {
        seqs::lemma_no_first(all, is_it);
    }
    None
}

fn wants(standing: &Vec<Interest>, requester: &str, target: &str) -> (r: bool)
    ensures
        r == model::wants(standing.deep_view(), requester@, target@),
{
    interest_at(standing, requester, target).is_some()
}

impl Clone for Interest {
    fn clone(&self) -> (r: Self)
        ensures
            r@ == self@,
    {
        Interest {
            requester: self.requester.clone(),
            target: self.target.clone(),
            since: self.since,
        }
    }
}

/// The standing interest once `code` wants exactly the `targets`.
fn restated(standing: &Vec<Interest>, code: &str, targets: &TextSet, now: Timestamp) -> (r: Vec<
    Interest,
>)
    ensures
        r.deep_view() == model::restated(standing.deep_view(), code@, targets@, now as int),
{
    let mut r: Vec<Interest> = Vec::new();
    let ghost all = standing.deep_view();
    let ghost keep = |x: InterestModel| x.requester != code@;
    let ghost stated = |t: Seq<char>|
        InterestModel {
            requester: code@,
            target: t,
            since: model::since(all, code@, t, now as int),
        };
    assert(all.take(0).filter(keep) =~= Seq::empty()) by {
        reveal(Seq::filter);
    }
    for i in 0..standing.len()
        invariant
            all == standing.deep_view(),
            keep == |x: InterestModel| x.requester != code@,
            r.deep_view() == all.take(i as int).filter(keep),
    {
        proof {
            assert(all[i as int] == standing@[i as int]@);
            assert(all.take(i + 1) =~= all.take(i as int).push(all[i as int]));
            seqs::lemma_filter_push(all.take(i as int), all[i as int], keep);
        }
        if !text::same(standing[i].requester.as_str(), code) {
            let ghost before = r.deep_view();
            r.push(standing[i].clone());
            assert(r.deep_view() =~= before.push(all[i as int]));
        }
    }
    assert(all.take(standing@.len() as int) =~= all);
    let ghost kept = r.deep_view();
    let count: usize = targets.len();
    for i in 0..count
        invariant
            count == targets@.len(),
            all == standing.deep_view(),
            stated == (|t: Seq<char>|
                InterestModel {
                    requester: code@,
                    target: t,
                    since: model::since(all, code@, t, now as int),
                }),
            r.deep_view() == kept + targets@.take(i as int).map_values(stated),
    {
        let target = targets.get(i);
        let since: i128 = match interest_at(standing, code, target.as_str()) {
            Some(k) => {
                assert(all[k as int] == standing@[k as int]@);
                standing[k].since
            },
            None => now,
        };
        let ghost before = r.deep_view();
        r.push(Interest { requester: code.to_owned(), target: target.clone(), since });
        proof {
            assert(r.deep_view() =~= before.push(stated(targets@[i as int])));
            assert(targets@.take(i + 1).map_values(stated) =~= targets@.take(i as int).map_values(
                stated,
            ).push(stated(targets@[i as int])));
            assert(r.deep_view() =~= kept + targets@.take(i + 1).map_values(stated));
        }
    }
    assert(targets@.take(targets@.len() as int) =~= targets@);
    assert(r.deep_view() =~= model::restated(all, code@, targets@, now as int));
    r
}

/// The open requests to an identity, in order.
fn requests_of(standing: &Vec<Interest>, code: &str, now: Timestamp) -> (r: Vec<String>)
    requires
        clock::is_timestamp(now as int),
        forall|i: int| 0 <= i < standing@.len() ==> clock::is_timestamp(
            (#[trigger] standing@[i])@.since,
        ),
    ensures
        r.deep_view() == model::requests_of(standing.deep_view(), code@, now as int),
{
    let mut r: Vec<String> = Vec::new();
    let ghost all = standing.deep_view();
    let ghost open = |x: InterestModel| model::is_request(all, x, code@, now as int);
    let ghost from = |x: InterestModel| x.requester;
    assert(all.take(0).filter(open).map_values(from) =~= Seq::empty()) by {
        reveal(Seq::filter);
    }
    for i in 0..standing.len()
        invariant
            all == standing.deep_view(),
            open == |x: InterestModel| model::is_request(all, x, code@, now as int),
            from == |x: InterestModel| x.requester,
            clock::is_timestamp(now as int),
            forall|j: int| 0 <= j < standing@.len() ==> clock::is_timestamp(
                (#[trigger] standing@[j])@.since,
            ),
            r.deep_view() == all.take(i as int).filter(open).map_values(from),
    {
        proof {
            assert(all[i as int] == standing@[i as int]@);
            assert(clock::is_timestamp(standing@[i as int]@.since));
            assert(all.take(i + 1) =~= all.take(i as int).push(all[i as int]));
            seqs::lemma_filter_push(all.take(i as int), all[i as int], open);
        }
        let x = &standing[i];
        if text::same(x.target.as_str(), code) && !text::same(x.requester.as_str(), code) && now
            - x.since < REQUEST_TTL && !wants(standing, code, x.requester.as_str()) {
            let ghost before = r.deep_view();
            r.push(x.requester.clone());
            proof {
                assert(r.deep_view() =~= before.push(all[i as int].requester));
                assert(all.take(i as int).filter(open).push(all[i as int]).map_values(from)
                    =~= before.push(all[i as int].requester));
            }
        }
    }
    assert(all.take(standing@.len() as int) =~= all);
    sorting::sort_texts(&r)
}

/// The presence graph: every live connection, who was here, and who wants whom.
///
/// Being online and hosting are derived from the connections on demand — an
/// identity is online exactly while it has one, which keeps several devices
/// correct without extra bookkeeping. Standing interest survives disconnects,
/// so a request can still be shown when its target connects after the
/// requester left.
pub struct PresenceState {
    sessions: Vec<Session>,
    last_seen: Vec<Seen>,
    standing: Vec<Interest>,
    outgoing: Vec<Notice>,
}

impl View for PresenceState {
    type V = PresenceModel;

    closed spec fn view(&self) -> PresenceModel {
        PresenceModel {
            sessions: self.sessions.deep_view(),
            last_seen: self.last_seen.deep_view(),
            standing: self.standing.deep_view(),
            outgoing: self.outgoing.deep_view(),
        }
    }
}

impl PresenceState {
    pub fn new() -> (r: Self)
        ensures
            r@ == (PresenceModel {
                sessions: Seq::empty(),
                last_seen: Seq::empty(),
                standing: Seq::empty(),
                outgoing: Seq::empty(),
            }),
            r@.valid(),
    {
        let r = PresenceState {
            sessions: Vec::new(),
            last_seen: Vec::new(),
            standing: Vec::new(),
            outgoing: Vec::new(),
        };
        assert(r@ =~= PresenceModel {
            sessions: Seq::empty(),
            last_seen: Seq::empty(),
            standing: Seq::empty(),
            outgoing: Seq::empty(),
        });
        r
    }

    proof fn times_are_dates(&self)
        requires
            self@.valid(),
        ensures
            forall|i: int| 0 <= i < self.standing@.len() ==> clock::is_timestamp(
                (#[trigger] self.standing@[i])@.since,
            ),
            forall|i: int| 0 <= i < self.last_seen@.len() ==> clock::is_timestamp(
                (#[trigger] self.last_seen@[i])@.at,
            ),
    {
        assert forall|i: int| 0 <= i < self.standing@.len() implies clock::is_timestamp(
            (#[trigger] self.standing@[i])@.since,
        ) by {
            assert(self@.standing[i] == self.standing@[i]@);
        }
        assert forall|i: int| 0 <= i < self.last_seen@.len() implies clock::is_timestamp(
            (#[trigger] self.last_seen@[i])@.at,
        ) by {
            assert(self@.last_seen[i] == self.last_seen@[i]@);
        }
    }

    fn last_seen_seconds_ago(&self, code: &str, now: Timestamp) -> (r: Option<u64>)
        requires
            self@.valid(),
            clock::is_timestamp(now as int),
        ensures
            r == self@.last_seen_ago(code@, now as int),
    {
        if is_online(&self.sessions, code) {
            return None;
        }
        proof {
            self.times_are_dates();
        }
        let ghost all = self.last_seen.deep_view();
        let ghost is_it = |x: SeenModel| x.code == code@;
        for i in 0..self.last_seen.len()
            invariant
                all == self.last_seen.deep_view(),
                self@.valid(),
                clock::is_timestamp(now as int),
                !model::online(self@.sessions, code@),
                is_it == |x: SeenModel| x.code == code@,
                forall|j: int| 0 <= j < i ==> !is_it(#[trigger] all[j]),
                forall|j: int| 0 <= j < self.last_seen@.len() ==> clock::is_timestamp(
                    (#[trigger] self.last_seen@[j])@.at,
                ),
        {
            assert(all[i as int] == self.last_seen@[i as int]@);
            if text::same(self.last_seen[i].code.as_str(), code) {
                proof {
                    seqs::lemma_first(all, is_it, i as int);
                    assert(clock::is_timestamp(self.last_seen@[i as int]@.at));
                }
                let at: i128 = self.last_seen[i].at;
                return if now <= at {
                    Some(0)
                } else {
                    Some(((now - at) / clock::NANOS_PER_SECOND) as u64)
                };
            }
        }
        proof {
            seqs::lemma_no_first(all, is_it);
        }
        None
    }

    fn presence_of(&self, code: &str, now: Timestamp) -> (r: FriendPresence)
        requires
            self@.valid(),
            clock::is_timestamp(now as int),
        ensures
            r@ == self@.presence_of(code@, now as int),
    {
        FriendPresence {
            code: code.to_owned(),
            online: is_online(&self.sessions, code),
            hosting: hosting_of(&self.sessions, code),
            last_seen_seconds_ago: self.last_seen_seconds_ago(code, now),
        }
    }

    fn offline_presence(&self, code: &str, now: Timestamp) -> (r: FriendPresence)
        requires
            self@.valid(),
            clock::is_timestamp(now as int),
        ensures
            r@ == self@.offline_presence(code@, now as int),
    {
        FriendPresence {
            code: code.to_owned(),
            online: false,
            hosting: None,
            last_seen_seconds_ago: self.last_seen_seconds_ago(code, now),
        }
    }

    /// What `peer` is told of `code`.
    fn shown_to(&self, code: &str, peer: &str, now: Timestamp) -> (r: PresenceServerMessage)
        requires
            self@.valid(),
            clock::is_timestamp(now as int),
        ensures
            r@ == self@.shown_to(code@, peer@, now as int),
    {
        let friend = if is_mutual(&self.sessions, code, peer) {
            self.presence_of(code, now)
        } else {
            self.offline_presence(code, now)
        };
        PresenceServerMessage::Update { server_timestamp: format_time(now), friend }
    }

    fn requests_message(&self, code: &str, now: Timestamp) -> (r: PresenceServerMessage)
        requires
            self@.valid(),
            clock::is_timestamp(now as int),
        ensures
            r@ == self@.requests_message(code@, now as int),
    {
        proof {
            self.times_are_dates();
        }
        PresenceServerMessage::Requests {
            server_timestamp: format_time(now),
            codes: requests_of(&self.standing, code, now),
        }
    }

    /// Sends a message to every connection of an identity.
    fn send_to_code(&mut self, code: &str, message: &PresenceServerMessage)
        ensures
            final(self)@ == old(self)@.tell(
                model::notices(old(self)@.sessions, code@, message@),
            ),
    {
        let ghost all = self@.sessions;
        let ghost queued = self@.outgoing;
        let ghost of_code = |s: SessionModel| s.code == code@;
        let ghost stamped = |s: SessionModel| NoticeModel { session: s.id, message: message@ };
        assert(queued =~= queued + all.take(0).filter(of_code).map_values(stamped)) by {
            reveal(Seq::filter);
        }
        let count: usize = self.sessions.len();
        for i in 0..count
            invariant
                count == all.len(),
                all == self@.sessions,
                of_code == |s: SessionModel| s.code == code@,
                stamped == (|s: SessionModel| NoticeModel { session: s.id, message: message@ }),
                self.sessions == old(self).sessions,
                self.last_seen == old(self).last_seen,
                self.standing == old(self).standing,
                self@.outgoing == queued + all.take(i as int).filter(of_code).map_values(stamped),
        {
            proof {
                assert(all[i as int] == self.sessions@[i as int]@);
                assert(all.take(i + 1) =~= all.take(i as int).push(all[i as int]));
                seqs::lemma_filter_push(all.take(i as int), all[i as int], of_code);
            }
            if text::same(self.sessions[i].code.as_str(), code) {
                let ghost sofar = all.take(i as int).filter(of_code);
                let ghost before = self@.outgoing;
                self.outgoing.push(
                    Notice { session: self.sessions[i].id, message: message.clone() },
                );
                proof {
                    assert(self@.outgoing =~= before.push(stamped(all[i as int])));
                    assert(sofar.push(all[i as int]).map_values(stamped) =~= sofar.map_values(
                        stamped,
                    ).push(stamped(all[i as int])));
                    assert(self@.outgoing =~= queued + sofar.push(all[i as int]).map_values(
                        stamped,
                    ));
                }
            }
        }
        assert(all.take(all.len() as int) =~= all);
        assert(self@ =~= old(self)@.tell(model::notices(all, code@, message@)));
    }

    /// Tells everyone who sees `code` what it is doing.
    fn notify_watchers(&mut self, code: &str, now: Timestamp)
        requires
            old(self)@.valid(),
            clock::is_timestamp(now as int),
        ensures
            final(self)@ == old(self)@.notify_watchers(code@, now as int),
            final(self)@.valid(),
    {
        let message = PresenceServerMessage::Update {
            server_timestamp: format_time(now),
            friend: self.presence_of(code, now),
        };
        let watchers = watchers_of(&self.sessions, code);
        let ghost base = self@;
        let ghost said = |p: Seq<char>| message@;
        assert(self@ =~= base.tell(
            model::notices_to(base.sessions, watchers@.take(0), said),
        ));
        let count: usize = watchers.len();
        for i in 0..count
            invariant
                count == watchers@.len(),
                said == |p: Seq<char>| message@,
                self@ == base.tell(
                    model::notices_to(base.sessions, watchers@.take(i as int), said),
                ),
        {
            proof {
                lemma_notices_step(base, watchers@, i as int, said);
            }
            self.send_to_code(watchers.get(i).as_str(), &message);
        }
        assert(watchers@.take(watchers@.len() as int) =~= watchers@);
    }

    /// Tells the watchers of several identities.
    fn notify_all(&mut self, codes: &TextSet, now: Timestamp)
        requires
            old(self)@.valid(),
            clock::is_timestamp(now as int),
        ensures
            final(self)@ == old(self)@.notify_all(codes@, now as int),
            final(self)@.valid(),
    {
        let ghost base = self@;
        let count: usize = codes.len();
        for i in 0..count
            invariant
                count == codes@.len(),
                clock::is_timestamp(now as int),
                self@ == base.notify_all(codes@.take(i as int), now as int),
                self@.valid(),
        {
            proof {
                let next = codes@.take(i + 1);
                assert(next.drop_last() =~= codes@.take(i as int));
                assert(next.last() == codes@[i as int]);
            }
            self.notify_watchers(codes.get(i).as_str(), now);
        }
        assert(codes@.take(codes@.len() as int) =~= codes@);
    }

    /// Registers a newly-authenticated connection. It watches nobody yet, so it
    /// reveals nothing and is revealed to no one.
    pub fn connect(&mut self, id: SessionId, code: String)
        requires
            old(self)@.valid(),
        ensures
            final(self)@ == old(self)@.connect(id, code@),
            final(self)@.valid(),
    {
        self.forget_seen(code.as_str());
        let session = Session { id, code, subscriptions: TextSet::new(), hosting: None };
        let ghost before = self@;
        let ghost entry = session@;
        match session_at(&self.sessions, id) {
            Some(i) => {
                self.sessions.set(i, session);
                assert(self@.sessions =~= before.sessions.update(i as int, entry));
            },
            None => {
                self.sessions.push(session);
                assert(self@.sessions =~= before.sessions.push(entry));
            },
        }
        assert(self@.last_seen == before.last_seen && self@.standing == before.standing);
        assert(self@ =~= old(self)@.connect(id, code@));
    }

    /// Forgets when an identity was last seen.
    fn forget_seen(&mut self, code: &str)
        requires
            old(self)@.valid(),
        ensures
            final(self)@ == (PresenceModel {
                last_seen: old(self)@.last_seen.filter(|x: SeenModel| x.code != code@),
                ..old(self)@
            }),
            final(self)@.valid(),
    {
        let ghost all = self@.last_seen;
        let ghost keep = |x: SeenModel| x.code != code@;
        let mut kept: Vec<Seen> = Vec::new();
        assert(all.take(0).filter(keep) =~= Seq::empty()) by {
            reveal(Seq::filter);
        }
        for i in 0..self.last_seen.len()
            invariant
                *self == *old(self),
                all == self@.last_seen,
                keep == |x: SeenModel| x.code != code@,
                kept.deep_view() == all.take(i as int).filter(keep),
        {
            proof {
                assert(all[i as int] == self.last_seen@[i as int]@);
                assert(all.take(i + 1) =~= all.take(i as int).push(all[i as int]));
                seqs::lemma_filter_push(all.take(i as int), all[i as int], keep);
            }
            let seen = &self.last_seen[i];
            if !text::same(seen.code.as_str(), code) {
                let ghost before = kept.deep_view();
                kept.push(Seen { code: seen.code.clone(), at: seen.at });
                assert(kept.deep_view() =~= before.push(all[i as int]));
            }
        }
        self.last_seen = kept;
        proof {
            assert(all.take(all.len() as int) =~= all);
            seqs::lemma_filter_members(all, keep);
            assert(self@.standing == old(self)@.standing);
        }
    }

    /// Tells several identities something each.
    fn show_to_all(&mut self, code: &str, peers: &TextSet, now: Timestamp)
        requires
            old(self)@.valid(),
            clock::is_timestamp(now as int),
        ensures
            final(self)@ == old(self)@.tell(
                old(self)@.updates_to(code@, peers@, now as int),
            ),
            final(self)@.valid(),
    {
        let ghost base = self@;
        let ghost said = |p: Seq<char>| base.shown_to(code@, p, now as int);
        assert(self@ =~= base.tell(model::notices_to(base.sessions, peers@.take(0), said)));
        let count: usize = peers.len();
        for i in 0..count
            invariant
                count == peers@.len(),
                base.valid(),
                clock::is_timestamp(now as int),
                said == |p: Seq<char>| base.shown_to(code@, p, now as int),
                self@ == base.tell(model::notices_to(base.sessions, peers@.take(i as int), said)),
        {
            let peer = peers.get(i);
            let message = self.shown_to(code, peer.as_str(), now);
            proof {
                lemma_notices_step(base, peers@, i as int, said);
                assert(message@ == said(peers@[i as int]));
            }
            self.send_to_code(peer.as_str(), &message);
        }
        assert(peers@.take(peers@.len() as int) =~= peers@);
    }

    /// Tells several identities who wants them.
    fn send_requests_to_all(&mut self, targets: &Vec<String>, now: Timestamp)
        requires
            old(self)@.valid(),
            clock::is_timestamp(now as int),
        ensures
            final(self)@ == old(self)@.tell(
                old(self)@.requests_to(targets.deep_view(), now as int),
            ),
            final(self)@.valid(),
    {
        let ghost base = self@;
        let ghost all = targets.deep_view();
        let ghost said = |t: Seq<char>| base.requests_message(t, now as int);
        assert(self@ =~= base.tell(model::notices_to(base.sessions, all.take(0), said)));
        for i in 0..targets.len()
            invariant
                all == targets.deep_view(),
                base.valid(),
                clock::is_timestamp(now as int),
                said == |t: Seq<char>| base.requests_message(t, now as int),
                self@ == base.tell(model::notices_to(base.sessions, all.take(i as int), said)),
        {
            let message = self.requests_message(targets[i].as_str(), now);
            proof {
                lemma_notices_step(base, all, i as int, said);
                assert(message@ == said(all[i as int]));
            }
            self.send_to_code(targets[i].as_str(), &message);
        }
        assert(all.take(all.len() as int) =~= all);
    }

    /// The identities that `code` turned to or away from, without itself.
    fn touched(&self, code: &str, wanted: &TextSet) -> (r: Vec<String>)
        ensures
            r.deep_view() == model::touched(self@.standing, code@, wanted@),
    {
        let mut r: Vec<String> = Vec::new();
        let ghost other = |t: Seq<char>| t != code@;
        let ghost standing = self@.standing;
        let ghost is_new = |t: Seq<char>| !model::wants(standing, code@, t);
        let ghost is_gone = |x: InterestModel|
            x.requester == code@ && !wanted@.contains(x.target);
        let ghost to = |x: InterestModel| x.target;
        assert(wanted@.take(0).filter(is_new).filter(other) =~= Seq::empty()) by {
            reveal(Seq::filter);
        }
        let count: usize = wanted.len();
        for i in 0..count
            invariant
                count == wanted@.len(),
                standing == self@.standing,
                other == |t: Seq<char>| t != code@,
                is_new == |t: Seq<char>| !model::wants(standing, code@, t),
                r.deep_view() == wanted@.take(i as int).filter(is_new).filter(other),
        {
            proof {
                let x = wanted@[i as int];
                assert(wanted@.take(i + 1) =~= wanted@.take(i as int).push(x));
                seqs::lemma_filter_push(wanted@.take(i as int), x, is_new);
                seqs::lemma_filter_push(wanted@.take(i as int).filter(is_new), x, other);
            }
            let target = wanted.get(i);
            if !wants(&self.standing, code, target.as_str()) && !text::same(
                target.as_str(),
                code,
            ) {
                let ghost before = r.deep_view();
                r.push(target.clone());
                assert(r.deep_view() =~= before.push(wanted@[i as int]));
            }
        }
        assert(wanted@.take(count as int) =~= wanted@);
        let ghost added = wanted@.filter(is_new);
        assert(standing.take(0).filter(is_gone).map_values(to) =~= Seq::empty()) by {
            reveal(Seq::filter);
        }
        assert((added + standing.take(0).filter(is_gone).map_values(to)) =~= added);
        for i in 0..self.standing.len()
            invariant
                standing == self@.standing,
                other == |t: Seq<char>| t != code@,
                is_gone == (|x: InterestModel|
                    x.requester == code@ && !wanted@.contains(x.target)),
                to == |x: InterestModel| x.target,
                r.deep_view() == (added + standing.take(i as int).filter(is_gone).map_values(
                    to,
                )).filter(other),
        {
            let x = &self.standing[i];
            proof {
                assert(standing[i as int] == self.standing@[i as int]@);
                let sofar = standing.take(i as int).filter(is_gone);
                assert(standing.take(i + 1) =~= standing.take(i as int).push(standing[i as int]));
                seqs::lemma_filter_push(standing.take(i as int), standing[i as int], is_gone);
                assert(added + sofar.push(standing[i as int]).map_values(to) =~= (added
                    + sofar.map_values(to)).push(standing[i as int].target));
                seqs::lemma_filter_push(
                    added + sofar.map_values(to),
                    standing[i as int].target,
                    other,
                );
            }
            if text::same(x.requester.as_str(), code) && !wanted.contains(x.target.as_str())
                && !text::same(x.target.as_str(), code) {
                let ghost before = r.deep_view();
                r.push(x.target.clone());
                assert(r.deep_view() =~= before.push(standing[i as int].target));
            }
        }
        assert(standing.take(standing.len() as int) =~= standing);
        r
    }

    /// The friends that an identity sees.
    fn friends(&self, codes: &TextSet, now: Timestamp) -> (r: Vec<FriendPresence>)
        requires
            self@.valid(),
            clock::is_timestamp(now as int),
        ensures
            r.deep_view() == self@.friends(codes@, now as int),
    {
        let mut r: Vec<FriendPresence> = Vec::new();
        let ghost shown = |p: Seq<char>| self@.presence_of(p, now as int);
        let count: usize = codes.len();
        for i in 0..count
            invariant
                count == codes@.len(),
                self@.valid(),
                clock::is_timestamp(now as int),
                shown == |p: Seq<char>| self@.presence_of(p, now as int),
                r.deep_view() == codes@.take(i as int).map_values(shown),
        {
            let ghost before = r.deep_view();
            r.push(self.presence_of(codes.get(i).as_str(), now));
            proof {
                assert(r.deep_view() =~= before.push(shown(codes@[i as int])));
                assert(codes@.take(i + 1).map_values(shown) =~= codes@.take(i as int).map_values(
                    shown,
                ).push(shown(codes@[i as int])));
            }
        }
        assert(codes@.take(codes@.len() as int) =~= codes@);
        r
    }

    /// Replaces what a connection watches. Standing interest becomes the union
    /// of what the identity's live connections watch, so a contact removed
    /// while offline is withdrawn on the next connect. A target that was wanted
    /// before keeps its time, so reconnecting cannot keep an unanswered request
    /// alive.
    pub fn subscribe(&mut self, id: SessionId, codes: Vec<String>, now: Timestamp)
        requires
            old(self)@.valid(),
            clock::is_timestamp(now as int),
        ensures
            final(self)@ == old(self)@.subscribe(id, codes.deep_view(), now as int),
            final(self)@.valid(),
    {
        let Some(i) = session_at(&self.sessions, id) else {
            return;
        };
        assert(self@.sessions[i as int] == self.sessions@[i as int]@);
        let code = self.sessions[i].code.clone();
        let before = watchers_of(&self.sessions, code.as_str());
        self.sessions[i].subscriptions = TextSet::of(&codes);
        assert(self@.sessions =~= old(self)@.sessions.update(
            i as int,
            SessionModel {
                subscriptions: textset::distinct(codes.deep_view()),
                ..old(self)@.sessions[i as int]
            },
        ));
        let after = watchers_of(&self.sessions, code.as_str());
        let wanted = wanted_by(&self.sessions, code.as_str());
        let touched = self.touched(code.as_str(), &wanted);
        self.standing = restated(&self.standing, code.as_str(), &wanted, now);
        let ghost next = old(self)@.resubscribed(i as int, codes.deep_view(), now as int);
        assert(self@ =~= next);
        proof {
            lemma_restated_valid(old(self)@, code@, wanted@, now as int);
        }
        let snapshot = PresenceServerMessage::Snapshot {
            server_timestamp: format_time(now),
            friends: self.friends(&after, now),
        };
        self.send_to_code(code.as_str(), &snapshot);
        let requests = self.requests_message(code.as_str(), now);
        self.send_to_code(code.as_str(), &requests);
        let mut peers = after;
        peers.extend(&before);
        let ghost told = self@;
        proof {
            lemma_same_messages(told, next, code@, peers@, touched.deep_view(), now as int);
        }
        self.show_to_all(code.as_str(), &peers, now);
        proof {
            lemma_same_messages(self@, next, code@, peers@, touched.deep_view(), now as int);
        }
        self.send_requests_to_all(&touched, now);
    }

    /// Updates what an identity is sharing and tells its visible friends.
    pub fn announce(&mut self, id: SessionId, hosting: Option<HostedRoom>, now: Timestamp)
        requires
            old(self)@.valid(),
            clock::is_timestamp(now as int),
        ensures
            final(self)@ == old(self)@.announce(id, hosting.deep_view(), now as int),
            final(self)@.valid(),
    {
        let Some(i) = session_at(&self.sessions, id) else {
            return;
        };
        assert(self@.sessions[i as int] == self.sessions@[i as int]@);
        self.sessions[i].hosting = hosting;
        let code = self.sessions[i].code.clone();
        assert(self@.sessions =~= old(self)@.sessions.update(
            i as int,
            SessionModel { hosting: hosting.deep_view(), ..old(self)@.sessions[i as int] },
        ));
        assert(self@.last_seen == old(self)@.last_seen && self@.standing == old(self)@.standing);
        self.notify_watchers(code.as_str(), now);
    }

    /// Drops a connection. If it was the identity's last, its friends see it go
    /// offline; otherwise they see its possibly-changed presence.
    pub fn disconnect(&mut self, id: SessionId, now: Timestamp)
        requires
            old(self)@.valid(),
            clock::is_timestamp(now as int),
        ensures
            final(self)@ == old(self)@.disconnect(id, now as int),
            final(self)@.valid(),
    {
        let Some(i) = session_at(&self.sessions, id) else {
            return;
        };
        assert(self@.sessions[i as int] == self.sessions@[i as int]@);
        let session = self.sessions.remove(i);
        assert(self@.sessions =~= old(self)@.sessions.remove(i as int));
        assert(self@.last_seen == old(self)@.last_seen && self@.standing == old(self)@.standing);
        if !is_online(&self.sessions, session.code.as_str()) {
            self.forget_seen(session.code.as_str());
            let ghost kept = self@.last_seen;
            self.last_seen.push(Seen { code: session.code.clone(), at: now });
            assert(self@.last_seen =~= kept.push(SeenModel { code: session.code@, at: now as int }));
        }
        let ghost next = old(self)@.dropped(i as int, now as int);
        assert(self@ =~= next);
        let mut peers = watchers_of(&self.sessions, session.code.as_str());
        let lost = self.lost_watchers(&session);
        peers.extend(&lost);
        self.show_to_all(session.code.as_str(), &peers, now);
    }

    /// The identities that saw `session` and that it watched.
    fn lost_watchers(&self, session: &Session) -> (r: TextSet)
        ensures
            r@ == session@.subscriptions.filter(
                |p: Seq<char>|
                    p != session@.code && model::subscribes(self@.sessions, p, session@.code),
            ),
    {
        let mut r = TextSet::new();
        let ghost all = session@.subscriptions;
        let ghost code = session@.code;
        let ghost saw = |p: Seq<char>|
            p != code && model::subscribes(self@.sessions, p, code);
        assert(all.take(0).filter(saw) =~= Seq::empty()) by {
            reveal(Seq::filter);
        }
        let count: usize = session.subscriptions.len();
        for k in 0..count
            invariant
                count == all.len(),
                all == session@.subscriptions,
                code == session@.code,
                saw == (|p: Seq<char>| p != code && model::subscribes(self@.sessions, p, code)),
                r@ == all.take(k as int).filter(saw),
        {
            proof {
                assert(all.take(k + 1) =~= all.take(k as int).push(all[k as int]));
                seqs::lemma_filter_push(all.take(k as int), all[k as int], saw);
            }
            let peer = session.subscriptions.get(k);
            if !text::same(peer.as_str(), session.code.as_str()) && subscribes(
                &self.sessions,
                peer.as_str(),
                session.code.as_str(),
            ) {
                r.append(peer.clone());
            }
        }
        assert(all.take(all.len() as int) =~= all);
        r
    }

    /// Changes the hosted room of every connection that hosts `room_id`, or
    /// takes it away; the identities concerned.
    fn change_room(&mut self, room_id: &str, change: Option<(u32, SharingState)>) -> (hosts:
        TextSet)
        requires
            old(self)@.valid(),
        ensures
            hosts@ == old(self)@.hosts_of(room_id@),
            final(self)@ == (PresenceModel {
                sessions: old(self)@.sessions.map_values(
                    |s: SessionModel| changed(s, room_id@, change),
                ),
                ..old(self)@
            }),
            final(self)@.valid(),
    {
        let mut hosts = TextSet::new();
        let ghost all = self@.sessions;
        let ghost hosting = |s: SessionModel| s.hosts(room_id@);
        let ghost who = |s: SessionModel| s.code;
        let ghost after = |s: SessionModel| changed(s, room_id@, change);
        let count: usize = self.sessions.len();
        assert(all.take(0).filter(hosting).map_values(who) =~= Seq::empty()) by {
            reveal(Seq::filter);
        }
        for i in 0..count
            invariant
                count == all.len(),
                self.sessions@.len() == count,
                hosting == |s: SessionModel| s.hosts(room_id@),
                who == |s: SessionModel| s.code,
                after == |s: SessionModel| changed(s, room_id@, change),
                self.last_seen == old(self).last_seen,
                self.standing == old(self).standing,
                self.outgoing == old(self).outgoing,
                hosts@ == textset::distinct(
                    all.take(i as int).filter(hosting).map_values(who),
                ),
                forall|j: int| 0 <= j < i ==> (#[trigger] self.sessions@[j])@ == after(all[j]),
                forall|j: int| i <= j < count ==> (#[trigger] self.sessions@[j])@ == all[j],
        {
            proof {
                assert(self.sessions@[i as int]@ == all[i as int]);
                assert(all.take(i + 1) =~= all.take(i as int).push(all[i as int]));
                seqs::lemma_filter_push(all.take(i as int), all[i as int], hosting);
            }
            let is_host = match &self.sessions[i].hosting {
                Some(room) => text::same(room.room_id.as_str(), room_id),
                None => false,
            };
            if is_host {
                match change {
                    None => {
                        self.sessions[i].hosting = None;
                    },
                    Some((viewer_count, sharing_state)) => {
                        if let Some(room) = self.sessions[i].hosting.clone() {
                            self.sessions[i].hosting = Some(
                                HostedRoom { viewer_count, sharing_state, ..room },
                            );
                        }
                    },
                }
                proof {
                    let sofar = all.take(i as int).filter(hosting);
                    let next = sofar.push(all[i as int]).map_values(who);
                    assert(next.drop_last() =~= sofar.map_values(who));
                    assert(next.last() == all[i as int].code);
                }
                hosts.insert(self.sessions[i].code.clone());
            }
        }
        proof {
            assert(all.take(count as int) =~= all);
            assert(self@.sessions =~= all.map_values(after));
            assert(self@.last_seen == old(self)@.last_seen && self@.standing == old(
                self,
            )@.standing);
        }
        hosts
    }

    /// Applies an authoritative viewer-count and sharing-state change to every
    /// connection hosting `room_id`, and tells the hosts' visible friends.
    pub fn room_updated(
        &mut self,
        room_id: &str,
        viewer_count: u32,
        sharing_state: SharingState,
        now: Timestamp,
    )
        requires
            old(self)@.valid(),
            clock::is_timestamp(now as int),
        ensures
            final(self)@ == old(self)@.room_updated(
                room_id@,
                viewer_count,
                sharing_state,
                now as int,
            ),
            final(self)@.valid(),
    {
        let hosts = self.change_room(room_id, Some((viewer_count, sharing_state)));
        proof {
            assert(self@.sessions =~= old(self)@.sessions.map_values(
                |s: SessionModel|
                    if s.hosts(room_id@) {
                        SessionModel {
                            hosting: Some(
                                HostedRoomView { viewer_count, sharing_state, ..s.hosting->0 },
                            ),
                            ..s
                        }
                    } else {
                        s
                    },
            ));
        }
        self.notify_all(&hosts, now);
    }

    /// Clears the hosting state of every connection hosting `room_id` (the room
    /// closed or expired) and tells the hosts' visible friends.
    pub fn room_closed(&mut self, room_id: &str, now: Timestamp)
        requires
            old(self)@.valid(),
            clock::is_timestamp(now as int),
        ensures
            final(self)@ == old(self)@.room_closed(room_id@, now as int),
            final(self)@.valid(),
    {
        let hosts = self.change_room(room_id, None);
        proof {
            assert(self@.sessions =~= old(self)@.sessions.map_values(
                |s: SessionModel|
                    if s.hosts(room_id@) {
                        SessionModel { hosting: None, ..s }
                    } else {
                        s
                    },
            ));
        }
        self.notify_all(&hosts, now);
    }

    /// Drops one-sided interest older than [`REQUEST_TTL`] and tells the
    /// targets what is left. Mutual interest is a friendship, not a request,
    /// and stays.
    pub fn expire_requests(&mut self, now: Timestamp)
        requires
            old(self)@.valid(),
            clock::is_timestamp(now as int),
        ensures
            final(self)@ == old(self)@.expire_requests(now as int),
            final(self)@.valid(),
    {
        proof {
            self.times_are_dates();
        }
        let mut kept: Vec<Interest> = Vec::new();
        let mut affected = TextSet::new();
        let ghost all = self@.standing;
        let ghost lapsed = |x: InterestModel| model::is_lapsed(all, x, now as int);
        let ghost stands = |x: InterestModel| !model::is_lapsed(all, x, now as int);
        let ghost to = |x: InterestModel| x.target;
        assert(all.take(0).filter(stands) =~= Seq::empty()
            && all.take(0).filter(lapsed).map_values(to) =~= Seq::empty()) by {
            reveal(Seq::filter);
        }
        for i in 0..self.standing.len()
            invariant
                *self == *old(self),
                all == self@.standing,
                clock::is_timestamp(now as int),
                lapsed == |x: InterestModel| model::is_lapsed(all, x, now as int),
                stands == |x: InterestModel| !model::is_lapsed(all, x, now as int),
                to == |x: InterestModel| x.target,
                forall|j: int| 0 <= j < self.standing@.len() ==> clock::is_timestamp(
                    (#[trigger] self.standing@[j])@.since,
                ),
                kept.deep_view() == all.take(i as int).filter(stands),
                affected@ == textset::distinct(
                    all.take(i as int).filter(lapsed).map_values(to),
                ),
        {
            proof {
                assert(all[i as int] == self.standing@[i as int]@);
                assert(clock::is_timestamp(self.standing@[i as int]@.since));
                assert(all.take(i + 1) =~= all.take(i as int).push(all[i as int]));
                seqs::lemma_filter_push(all.take(i as int), all[i as int], stands);
                seqs::lemma_filter_push(all.take(i as int), all[i as int], lapsed);
            }
            let x = &self.standing[i];
            if !wants(&self.standing, x.target.as_str(), x.requester.as_str()) && now - x.since
                >= REQUEST_TTL {
                proof {
                    let sofar = all.take(i as int).filter(lapsed);
                    let next = sofar.push(all[i as int]).map_values(to);
                    assert(next.drop_last() =~= sofar.map_values(to));
                    assert(next.last() == all[i as int].target);
                }
                affected.insert(x.target.clone());
            } else {
                let ghost before = kept.deep_view();
                kept.push(x.clone());
                assert(kept.deep_view() =~= before.push(all[i as int]));
            }
        }
        self.standing = kept;
        proof {
            assert(all.take(all.len() as int) =~= all);
            seqs::lemma_filter_members(all, stands);
            assert(self@ =~= PresenceModel { standing: all.filter(stands), ..old(self)@ });
        }
        let targets = affected.to_vec();
        self.send_requests_to_all(&targets, now);
    }

    /// Hands over the messages for the connections, oldest first.
    pub fn take_outgoing(&mut self) -> (r: Vec<Notice>)
        ensures
            r.deep_view() == old(self)@.outgoing,
            final(self)@ == (PresenceModel { outgoing: Seq::empty(), ..old(self)@ }),
            old(self)@.valid() ==> final(self)@.valid(),
    {
        let mut taken: Vec<Notice> = Vec::new();
        std::mem::swap(&mut taken, &mut self.outgoing);
        assert(self@ =~= PresenceModel { outgoing: Seq::empty(), ..old(self)@ });
        taken
    }
}

/// What the presence graph can be asked to do.
#[derive(Debug)]
pub enum PresenceCommand {
    Connect { id: SessionId, code: String },
    Subscribe { id: SessionId, codes: Vec<String> },
    Announce { id: SessionId, hosting: Option<HostedRoom> },
    RoomUpdated { room_id: String, viewer_count: u32, sharing_state: SharingState },
    RoomClosed { room_id: String },
    Disconnect { id: SessionId },
    /// The periodic sweep of unanswered requests.
    Expire,
}

/// What a command makes of the presence graph.
pub open spec fn performed(state: PresenceModel, command: PresenceCommand, now: int) -> PresenceModel {
    match command {
        PresenceCommand::Connect { id, code } => state.connect(id, code@),
        PresenceCommand::Subscribe { id, codes } => state.subscribe(id, codes.deep_view(), now),
        PresenceCommand::Announce { id, hosting } => state.announce(id, hosting.deep_view(), now),
        PresenceCommand::RoomUpdated { room_id, viewer_count, sharing_state } => state.room_updated(
            room_id@,
            viewer_count,
            sharing_state,
            now,
        ),
        PresenceCommand::RoomClosed { room_id } => state.room_closed(room_id@, now),
        PresenceCommand::Disconnect { id } => state.disconnect(id, now),
        PresenceCommand::Expire => state.expire_requests(now),
    }
}

impl PresenceState {
    /// Carries out a command.
    pub fn perform(&mut self, command: PresenceCommand, now: Timestamp)
        requires
            old(self)@.valid(),
            clock::is_timestamp(now as int),
        ensures
            final(self)@ == performed(old(self)@, command, now as int),
            final(self)@.valid(),
    {
        match command {
            PresenceCommand::Connect { id, code } => self.connect(id, code),
            PresenceCommand::Subscribe { id, codes } => self.subscribe(id, codes, now),
            PresenceCommand::Announce { id, hosting } => self.announce(id, hosting, now),
            PresenceCommand::RoomUpdated { room_id, viewer_count, sharing_state } =>
                self.room_updated(room_id.as_str(), viewer_count, sharing_state, now),
            PresenceCommand::RoomClosed { room_id } => self.room_closed(room_id.as_str(), now),
            PresenceCommand::Disconnect { id } => self.disconnect(id, now),
            PresenceCommand::Expire => self.expire_requests(now),
        }
    }
}

/// What becomes of a connection when the room `room_id` changes, or ends.
spec fn changed(
    s: SessionModel,
    room_id: Seq<char>,
    change: Option<(u32, SharingState)>,
) -> SessionModel {
    if !s.hosts(room_id) {
        s
    } else {
        match change {
            None => SessionModel { hosting: None, ..s },
            Some((viewer_count, sharing_state)) => SessionModel {
                hosting: Some(HostedRoomView { viewer_count, sharing_state, ..s.hosting->0 }),
                ..s
            },
        }
    }
}

/// What is said depends on who is there and who wants whom, not on what was
/// said before.
proof fn lemma_same_messages(
    a: PresenceModel,
    b: PresenceModel,
    code: Seq<char>,
    peers: Seq<Seq<char>>,
    targets: Seq<Seq<char>>,
    now: int,
)
    requires
        a.sessions == b.sessions,
        a.last_seen == b.last_seen,
        a.standing == b.standing,
    ensures
        a.updates_to(code, peers, now) == b.updates_to(code, peers, now),
        a.requests_to(targets, now) == b.requests_to(targets, now),
{
    assert forall|p: Seq<char>| #[trigger] a.shown_to(code, p, now) == b.shown_to(code, p, now) by {}
    assert((|p: Seq<char>| a.shown_to(code, p, now)) =~= (|p: Seq<char>| b.shown_to(code, p, now)));
    assert((|t: Seq<char>| a.requests_message(t, now)) =~= (|t: Seq<char>|
        b.requests_message(t, now)));
}

/// Restated interest has dates for times.
proof fn lemma_restated_valid(
    base: PresenceModel,
    code: Seq<char>,
    targets: Seq<Seq<char>>,
    now: int,
)
    requires
        base.valid(),
        clock::is_timestamp(now),
    ensures
        forall|i: int|
            0 <= i < model::restated(base.standing, code, targets, now).len()
                ==> clock::is_timestamp(
                (#[trigger] model::restated(base.standing, code, targets, now)[i]).since,
            ),
{
    let keep = |x: InterestModel| x.requester != code;
    let kept = base.standing.filter(keep);
    let all = model::restated(base.standing, code, targets, now);
    seqs::lemma_filter_members(base.standing, keep);
    assert forall|i: int| 0 <= i < all.len() implies clock::is_timestamp(
        (#[trigger] all[i]).since,
    ) by {
        if i < kept.len() {
            assert(all[i] == kept[i]);
            assert(base.standing.contains(kept[i]));
        } else {
            let t = targets[i - kept.len()];
            let is_it = |x: InterestModel| x.requester == code && x.target == t;
            seqs::lemma_first_where(base.standing, is_it);
        }
    }
}

/// Telling one identity more.
proof fn lemma_notices_step(
    base: PresenceModel,
    codes: Seq<Seq<char>>,
    i: int,
    message: spec_fn(Seq<char>) -> PresenceServerMessageView,
)
    requires
        0 <= i < codes.len(),
    ensures
        base.tell(model::notices_to(base.sessions, codes.take(i), message)).tell(
            model::notices(base.sessions, codes[i], message(codes[i])),
        ) == base.tell(model::notices_to(base.sessions, codes.take(i + 1), message)),
{
    let next = codes.take(i + 1);
    assert(next.drop_last() =~= codes.take(i));
    assert(next.last() == codes[i]);
    assert(base.tell(model::notices_to(base.sessions, codes.take(i), message)).tell(
        model::notices(base.sessions, codes[i], message(codes[i])),
    ) =~= base.tell(model::notices_to(base.sessions, codes.take(i + 1), message)));
}

} // verus!
