//! What each event does to the presence graph, and who is told what.
use vstd::prelude::*;

use crate::clock;
use crate::presence::laws;
use crate::presence::model;
use crate::presence::model::{InterestModel, NoticeModel, PresenceModel, SeenModel, SessionModel};
use crate::presence::state;
use crate::presence::state::PresenceCommand;
use crate::protocol::{
    FriendPresenceView, HostedRoomView, PresenceServerMessageView, SharingState,
};
use crate::seqs;
use crate::textset;

verus! {

/// Whether a connection is told something between two states.
pub open spec fn told(
    before: PresenceModel,
    after: PresenceModel,
    session: u64,
    message: PresenceServerMessageView,
) -> bool {
    exists|k: int|
        before.outgoing.len() <= k < after.outgoing.len() && #[trigger] after.outgoing[k] == (
        NoticeModel { session, message })
}

/// Whether nothing that was said is lost between two states.
pub open spec fn keeps_said(before: PresenceModel, after: PresenceModel) -> bool {
    &&& before.outgoing.len() <= after.outgoing.len()
    &&& forall|k: int|
        0 <= k < before.outgoing.len() ==> #[trigger] after.outgoing[k] == before.outgoing[k]
}

/// Whether one identity has a connection that watches another.
pub open spec fn watches(sessions: Seq<SessionModel>, code: Seq<char>, other: Seq<char>) -> bool {
    exists|i: int|
        0 <= i < sessions.len() && (#[trigger] sessions[i]).code == code
            && sessions[i].subscriptions.contains(other)
}

/// Whether two identities are friends who are here: each watches the other.
pub open spec fn befriended(sessions: Seq<SessionModel>, a: Seq<char>, b: Seq<char>) -> bool {
    a != b && watches(sessions, a, b) && watches(sessions, b, a)
}

/// Whether one identity stands as wanting another.
pub open spec fn stands(standing: Seq<InterestModel>, code: Seq<char>, other: Seq<char>) -> bool {
    exists|i: int|
        0 <= i < standing.len() && (#[trigger] standing[i]).requester == code && standing[i].target
            == other
}

proof fn lemma_stands(standing: Seq<InterestModel>, code: Seq<char>, other: Seq<char>)
    ensures
        model::wants(standing, code, other) == stands(standing, code, other),
{
    let is_it = |x: InterestModel| x.requester == code && x.target == other;
    seqs::lemma_first_where(standing, is_it);
    if stands(standing, code, other) {
        let i = choose|i: int|
            0 <= i < standing.len() && (#[trigger] standing[i]).requester == code
                && standing[i].target == other;
        assert(is_it(standing[i]));
    }
}

/// The connection with an identifier of its own is found by it.
proof fn lemma_session(state: PresenceModel, i: int)
    requires
        laws::told_apart(state.sessions),
        0 <= i < state.sessions.len(),
    ensures
        model::find_session(state.sessions, state.sessions[i].id) == Some(i),
{
    let is_it = |s: SessionModel| s.id == state.sessions[i].id;
    assert forall|j: int| 0 <= j < i implies !is_it(#[trigger] state.sessions[j]) by {
        assert(state.sessions[j].id != state.sessions[i].id);
    }
    seqs::lemma_first(state.sessions, is_it, i);
}

proof fn lemma_no_session(state: PresenceModel, id: u64)
    requires
        forall|j: int| 0 <= j < state.sessions.len() ==> (#[trigger] state.sessions[j]).id != id,
    ensures
        model::find_session(state.sessions, id) is None,
{
    seqs::lemma_no_first(state.sessions, |s: SessionModel| s.id == id);
}

/// Every connection of an identity that is told something is.
proof fn lemma_notices_reach(
    sessions: Seq<SessionModel>,
    codes: Seq<Seq<char>>,
    message: spec_fn(Seq<char>) -> PresenceServerMessageView,
    i: int,
)
    requires
        0 <= i < sessions.len(),
        codes.contains(sessions[i].code),
    ensures
        model::notices_to(sessions, codes, message).contains(
            NoticeModel { session: sessions[i].id, message: message(sessions[i].code) },
        ),
    decreases codes.len(),
{
    let code = sessions[i].code;
    let wanted = NoticeModel { session: sessions[i].id, message: message(code) };
    let init = codes.drop_last();
    let before = model::notices_to(sessions, init, message);
    let last = model::notices(sessions, codes.last(), message(codes.last()));
    let all = model::notices_to(sessions, codes, message);
    assert(all == before + last);
    if codes.last() == code {
        lemma_notices_of(sessions, code, message(code), i);
        let k = choose|k: int| 0 <= k < last.len() && last[k] == wanted;
        assert(all[before.len() + k] == wanted);
    } else {
        let m = choose|m: int| 0 <= m < codes.len() && codes[m] == code;
        assert(init[m] == code);
        lemma_notices_reach(sessions, init, message, i);
        let k = choose|k: int| 0 <= k < before.len() && before[k] == wanted;
        assert(all[k] == wanted);
    }
}

proof fn lemma_notices_of(
    sessions: Seq<SessionModel>,
    code: Seq<char>,
    message: PresenceServerMessageView,
    i: int,
)
    requires
        0 <= i < sessions.len(),
        sessions[i].code == code,
    ensures
        model::notices(sessions, code, message).contains(
            NoticeModel { session: sessions[i].id, message },
        ),
{
    let of_code = |s: SessionModel| s.code == code;
    seqs::lemma_filter_members(sessions, of_code);
    let picked = sessions.filter(of_code);
    assert(sessions.contains(sessions[i]));
    assert(picked.contains(sessions[i]));
    let k = choose|k: int| 0 <= k < picked.len() && picked[k] == sessions[i];
    assert(model::notices(sessions, code, message)[k] == (NoticeModel {
        session: sessions[i].id,
        message,
    }));
}

/// What is said next is said, and stays so.
proof fn lemma_tell(
    before: PresenceModel,
    state: PresenceModel,
    more: Seq<NoticeModel>,
    notice: NoticeModel,
)
    requires
        keeps_said(before, state),
        more.contains(notice) || told(before, state, notice.session, notice.message),
    ensures
        told(before, state.tell(more), notice.session, notice.message),
{
    let after = state.tell(more);
    if more.contains(notice) {
        let k = choose|k: int| 0 <= k < more.len() && more[k] == notice;
        assert(after.outgoing[state.outgoing.len() + k] == notice);
    } else {
        let k = choose|k: int|
            before.outgoing.len() <= k < state.outgoing.len() && #[trigger] state.outgoing[k]
                == notice;
        assert(after.outgoing[k] == notice);
    }
}

/// A new connection is there under its identifier and its identity, watches nobody
/// and hosts nothing; the identity is not away any more. Nobody else changes, and
/// nobody is told.
pub proof fn law_connecting_adds_a_connection(state: PresenceModel, id: u64, code: Seq<char>)
    requires
        forall|j: int| 0 <= j < state.sessions.len() ==> (#[trigger] state.sessions[j]).id != id,
    ensures
        ({
            let after = state.connect(id, code);
            &&& after.sessions == state.sessions.push(
                SessionModel { id, code, subscriptions: Seq::empty(), hosting: None },
            )
            &&& after.standing == state.standing
            &&& after.outgoing == state.outgoing
            &&& forall|x: SeenModel| #[trigger]
                after.last_seen.contains(x) <==> state.last_seen.contains(x) && x.code != code
        }),
{
    lemma_no_session(state, id);
    seqs::lemma_filter_members(state.last_seen, |x: SeenModel| x.code != code);
}

/// What is told of an identity is whether it has a connection, the room of its
/// oldest connection that hosts one, and, while it is away, the whole seconds
/// since its last connection ended.
pub proof fn law_presence_is_what_the_connections_are(
    state: PresenceModel,
    code: Seq<char>,
    now: int,
)
    requires
        state.valid(),
        clock::is_timestamp(now),
    ensures
        ({
            let shown = state.presence_of(code, now);
            let here = exists|i: int|
                0 <= i < state.sessions.len() && (#[trigger] state.sessions[i]).code == code;
            &&& shown.code == code
            &&& shown.online == here
            &&& shown.hosting is None <==> forall|i: int|
                0 <= i < state.sessions.len() && (#[trigger] state.sessions[i]).code == code
                    ==> state.sessions[i].hosting is None
            &&& forall|i: int|
                0 <= i < state.sessions.len() && (#[trigger] state.sessions[i]).code == code
                    && state.sessions[i].hosting is Some && (forall|j: int|
                    0 <= j < i && (#[trigger] state.sessions[j]).code == code
                        ==> state.sessions[j].hosting is None) ==> shown.hosting
                    == state.sessions[i].hosting
            &&& here ==> shown.last_seen_seconds_ago is None
            &&& !here ==> (shown.last_seen_seconds_ago is None <==> forall|k: int|
                0 <= k < state.last_seen.len() ==> (#[trigger] state.last_seen[k]).code != code)
            &&& shown.last_seen_seconds_ago matches Some(seconds) ==> exists|k: int|
                0 <= k < state.last_seen.len() && (#[trigger] state.last_seen[k]).code == code && if now
                    <= state.last_seen[k].at {
                    seconds == 0
                } else {
                    seconds * 1_000_000_000 <= now - state.last_seen[k].at < (seconds + 1)
                        * 1_000_000_000
                }
            &&& state.offline_presence(code, now) == (FriendPresenceView {
                online: false,
                hosting: None,
                ..shown
            })
        }),
{
    let hosts = |s: SessionModel| s.code == code && s.hosting is Some;
    seqs::lemma_first_where(state.sessions, hosts);
    let seen = |x: SeenModel| x.code == code;
    seqs::lemma_first_where(state.last_seen, seen);
    match seqs::first_where(state.sessions, hosts) {
        None => {
            assert forall|i: int|
                0 <= i < state.sessions.len() && (#[trigger] state.sessions[i]).code
                    == code implies state.sessions[i].hosting is None by {
                assert(!hosts(state.sessions[i]));
            }
        },
        Some(k) => {
            assert(hosts(state.sessions[k]));
            assert forall|i: int|
                0 <= i < state.sessions.len() && (#[trigger] state.sessions[i]).code == code
                    && state.sessions[i].hosting is Some && (forall|j: int|
                    0 <= j < i && (#[trigger] state.sessions[j]).code == code
                        ==> state.sessions[j].hosting is None) implies i == k by {
                assert(hosts(state.sessions[i]));
                if i < k {
                    assert(!hosts(state.sessions[i]));
                }
            }
        },
    }
    match seqs::first_where(state.last_seen, seen) {
        None => {
            assert forall|k: int| 0 <= k < state.last_seen.len() implies (
            #[trigger] state.last_seen[k]).code != code by {
                assert(!seen(state.last_seen[k]));
            }
        },
        Some(k) => {
            assert(seen(state.last_seen[k]));
            let at = state.last_seen[k].at;
            assert(clock::is_timestamp(at));
            if now > at {
                assert(0 <= (now - at) / 1_000_000_000 <= u64::MAX);
            }
        },
    }
}

/// A connection watches exactly whom it last said, and its identity wants exactly
/// whom its connections watch; everyone else wants whom they wanted.
pub proof fn law_subscribing_replaces_what_is_watched(
    state: PresenceModel,
    i: int,
    codes: Seq<Seq<char>>,
    now: int,
)
    requires
        laws::told_apart(state.sessions),
        0 <= i < state.sessions.len(),
    ensures
        ({
            let session = state.sessions[i];
            let after = state.subscribe(session.id, codes, now);
            &&& after.sessions.len() == state.sessions.len()
            &&& after.last_seen == state.last_seen
            &&& forall|j: int|
                0 <= j < state.sessions.len() && j != i ==> #[trigger] after.sessions[j]
                    == state.sessions[j]
            &&& after.sessions[i] == (SessionModel {
                subscriptions: after.sessions[i].subscriptions,
                ..session
            })
            &&& after.sessions[i].subscriptions.no_duplicates()
            &&& forall|c: Seq<char>| #[trigger]
                after.sessions[i].subscriptions.contains(c) <==> codes.contains(c)
            &&& forall|c: Seq<char>| #[trigger]
                stands(after.standing, session.code, c) <==> watches(
                    after.sessions,
                    session.code,
                    c,
                )
            &&& forall|x: InterestModel|
                x.requester != session.code ==> (#[trigger] after.standing.contains(x)
                    <==> state.standing.contains(x))
        }),
{
    lemma_session(state, i);
    let code = state.sessions[i].code;
    let next = state.resubscribed(i, codes, now);
    let after = state.subscribe(state.sessions[i].id, codes, now);
    textset::lemma_distinct_members(codes);
    assert(after.sessions == next.sessions && after.standing == next.standing);
    assert forall|c: Seq<char>| #[trigger] stands(after.standing, code, c) <==> watches(
        after.sessions,
        code,
        c,
    ) by {
        lemma_stands(after.standing, code, c);
        laws::law_standing_interest_is_what_live_connections_watch(state, i, codes, now, c);
    }
    let keep = |x: InterestModel| x.requester != code;
    let kept = state.standing.filter(keep);
    seqs::lemma_filter_members(state.standing, keep);
    assert forall|x: InterestModel| x.requester != code implies (#[trigger] after.standing.contains(
        x,
    ) <==> state.standing.contains(x)) by {
        if after.standing.contains(x) {
            let k = choose|k: int| 0 <= k < after.standing.len() && after.standing[k] == x;
            assert(k < kept.len());
            assert(kept[k] == x);
            assert(kept.contains(x));
        }
        if state.standing.contains(x) {
            assert(kept.contains(x));
            let k = choose|k: int| 0 <= k < kept.len() && kept[k] == x;
            assert(after.standing[k] == x);
        }
    }
}

/// Interest that stands has the time at which it was first stated: restating it
/// does not make it younger, and new interest starts now.
pub proof fn law_interest_starts_when_it_is_first_stated(
    state: PresenceModel,
    i: int,
    codes: Seq<Seq<char>>,
    now: int,
    other: Seq<char>,
)
    requires
        laws::told_apart(state.sessions),
        0 <= i < state.sessions.len(),
        stands(
            state.subscribe(state.sessions[i].id, codes, now).standing,
            state.sessions[i].code,
            other,
        ),
    ensures
        ({
            let code = state.sessions[i].code;
            let after = state.subscribe(state.sessions[i].id, codes, now);
            let first = model::since(after.standing, code, other, now);
            &&& !stands(state.standing, code, other) ==> first == now
            &&& stands(state.standing, code, other) ==> exists|k: int|
                0 <= k < state.standing.len() && (#[trigger] state.standing[k]).requester == code
                    && state.standing[k].target == other && state.standing[k].since == first
        }),
{
    lemma_session(state, i);
    let code = state.sessions[i].code;
    let next = state.resubscribed(i, codes, now);
    let wanted = model::wanted_by(next.sessions, code);
    laws::lemma_wanted(next.sessions, code, other);
    laws::lemma_restated(state.standing, code, wanted, now, other);
    lemma_stands(next.standing, code, other);
    lemma_stands(state.standing, code, other);
    let is_it = |x: InterestModel| x.requester == code && x.target == other;
    seqs::lemma_first_where(state.standing, is_it);
    if let Some(k) = model::find_interest(state.standing, code, other) {
        assert(is_it(state.standing[k]));
    }
}

/// Who hears of a subscription. The identity itself is shown all its friends that
/// are here, and who wants it. Each friend is shown its presence. Whoever was a
/// friend and is none any more is shown it as away. Whoever it turned to or away
/// from is told who wants them now.
pub proof fn law_subscribing_is_told(
    state: PresenceModel,
    i: int,
    codes: Seq<Seq<char>>,
    now: int,
    j: int,
)
    requires
        laws::told_apart(state.sessions),
        0 <= i < state.sessions.len(),
        0 <= j < state.sessions.len(),
    ensures
        ({
            let code = state.sessions[i].code;
            let other = state.sessions[j].code;
            let id = state.sessions[j].id;
            let after = state.subscribe(state.sessions[i].id, codes, now);
            let server_timestamp = clock::wire_time(now);
            let requests = PresenceServerMessageView::Requests {
                server_timestamp,
                codes: model::requests_of(after.standing, other, now),
            };
            &&& keeps_said(state, after)
            &&& other == code ==> told(state, after, id, requests) && exists|
                friends: Seq<FriendPresenceView>,
            |
                #[trigger] told(
                    state,
                    after,
                    id,
                    PresenceServerMessageView::Snapshot { server_timestamp, friends },
                ) && (forall|peer: Seq<char>|
                    #[trigger] befriended(after.sessions, code, peer) ==> friends.contains(
                        after.presence_of(peer, now),
                    )) && forall|k: int|
                    0 <= k < friends.len() ==> befriended(
                        after.sessions,
                        code,
                        (#[trigger] friends[k]).code,
                    ) && friends[k] == after.presence_of(friends[k].code, now)
            &&& befriended(after.sessions, code, other) ==> told(
                state,
                after,
                id,
                PresenceServerMessageView::Update {
                    server_timestamp,
                    friend: after.presence_of(code, now),
                },
            )
            &&& befriended(state.sessions, code, other) && !befriended(after.sessions, code, other)
                ==> told(
                state,
                after,
                id,
                PresenceServerMessageView::Update {
                    server_timestamp,
                    friend: after.offline_presence(code, now),
                },
            )
            &&& other != code && stands(state.standing, code, other) != stands(
                after.standing,
                code,
                other,
            ) ==> told(state, after, id, requests)
        }),
{
    lemma_session(state, i);
    let code = state.sessions[i].code;
    let other = state.sessions[j].code;
    let id = state.sessions[j].id;
    let next = state.resubscribed(i, codes, now);
    let after = state.subscribe(state.sessions[i].id, codes, now);
    let before = model::watchers_of(state.sessions, code);
    let watchers = model::watchers_of(next.sessions, code);
    let wanted = model::wanted_by(next.sessions, code);
    let server_timestamp = clock::wire_time(now);
    let friends = next.friends(watchers, now);
    let snapshot = PresenceServerMessageView::Snapshot { server_timestamp, friends };
    let one = model::notices(next.sessions, code, snapshot);
    let two = model::notices(next.sessions, code, next.requests_message(code, now));
    let peers = textset::with_all(watchers, before);
    let shown = |p: Seq<char>| next.shown_to(code, p, now);
    let three = model::notices_to(next.sessions, peers, shown);
    let turned = model::touched(state.standing, code, wanted);
    let asked = |t: Seq<char>| next.requests_message(t, now);
    let four = model::notices_to(next.sessions, turned, asked);
    let first = next.tell(one);
    let second = first.tell(two);
    let third = second.tell(three);
    assert(after == third.tell(four));
    assert(next.sessions[j].id == id && next.sessions[j].code == other);
    assert(next.outgoing == state.outgoing);
    assert forall|session: u64, message: PresenceServerMessageView|
        told(next, after, session, message) implies #[trigger] told(
        state,
        after,
        session,
        message,
    ) by {
        let k = choose|k: int|
            next.outgoing.len() <= k < after.outgoing.len() && #[trigger] after.outgoing[k] == (
            NoticeModel { session, message });
        assert(after.outgoing[k] == (NoticeModel { session, message }));
    }
    if other == code {
        lemma_notices_of(next.sessions, code, snapshot, j);
        lemma_notices_of(next.sessions, code, next.requests_message(code, now), j);
        let shows = NoticeModel { session: id, message: snapshot };
        let lists = NoticeModel { session: id, message: next.requests_message(code, now) };
        lemma_tell(next, next, one, shows);
        lemma_tell(next, first, two, shows);
        lemma_tell(next, second, three, shows);
        lemma_tell(next, third, four, shows);
        lemma_tell(next, first, two, lists);
        lemma_tell(next, second, three, lists);
        lemma_tell(next, third, four, lists);
        assert forall|peer: Seq<char>| #[trigger]
            befriended(after.sessions, code, peer) implies friends.contains(
            after.presence_of(peer, now),
        ) by {
            laws::law_visibility_is_mutual(next.sessions, code, peer);
            let k = choose|k: int| 0 <= k < watchers.len() && watchers[k] == peer;
            assert(friends[k] == next.presence_of(peer, now));
        }
        assert forall|k: int| 0 <= k < friends.len() implies befriended(
            after.sessions,
            code,
            (#[trigger] friends[k]).code,
        ) && friends[k] == after.presence_of(friends[k].code, now) by {
            assert(watchers.contains(watchers[k]));
            laws::law_visibility_is_mutual(next.sessions, code, watchers[k]);
            assert(friends[k] == next.presence_of(watchers[k], now));
        }
        assert(told(state, after, id, snapshot));
    }
    laws::law_visibility_is_mutual(next.sessions, code, other);
    laws::law_visibility_is_mutual(state.sessions, code, other);
    laws::lemma_with_all_members(watchers, before, other);
    if befriended(after.sessions, code, other) || befriended(state.sessions, code, other) {
        assert(peers.contains(other));
        lemma_notices_reach(next.sessions, peers, shown, j);
        let notice = NoticeModel { session: id, message: next.shown_to(code, other, now) };
        lemma_tell(next, second, three, notice);
        lemma_tell(next, third, four, notice);
    }
    lemma_stands(state.standing, code, other);
    lemma_stands(next.standing, code, other);
    if other != code && stands(state.standing, code, other) != stands(after.standing, code, other) {
        lemma_touched(state, i, codes, now, other);
        lemma_notices_reach(next.sessions, turned, asked, j);
        lemma_tell(
            next,
            third,
            four,
            NoticeModel { session: id, message: next.requests_message(other, now) },
        );
    }
}

/// Whom an identity turned to or away from.
proof fn lemma_touched(
    state: PresenceModel,
    i: int,
    codes: Seq<Seq<char>>,
    now: int,
    other: Seq<char>,
)
    requires
        0 <= i < state.sessions.len(),
        other != state.sessions[i].code,
        model::wants(state.standing, state.sessions[i].code, other) != model::wants(
            state.resubscribed(i, codes, now).standing,
            state.sessions[i].code,
            other,
        ),
    ensures
        model::touched(
            state.standing,
            state.sessions[i].code,
            model::wanted_by(state.resubscribed(i, codes, now).sessions, state.sessions[i].code),
        ).contains(other),
{
    let code = state.sessions[i].code;
    let next = state.resubscribed(i, codes, now);
    let wanted = model::wanted_by(next.sessions, code);
    laws::lemma_restated(state.standing, code, wanted, now, other);
    let added = model::added(state.standing, code, wanted);
    let removed = model::removed(state.standing, code, wanted);
    seqs::lemma_filter_members(wanted, |t: Seq<char>| !model::wants(state.standing, code, t));
    let away = |x: InterestModel| x.requester == code && !wanted.contains(x.target);
    seqs::lemma_filter_members(state.standing, away);
    let all = added + removed;
    if wanted.contains(other) {
        assert(added.contains(other));
        let k = choose|k: int| 0 <= k < added.len() && added[k] == other;
        assert(all[k] == other);
    } else {
        lemma_stands(state.standing, code, other);
        let k = choose|k: int|
            0 <= k < state.standing.len() && (#[trigger] state.standing[k]).requester == code
                && state.standing[k].target == other;
        let x = state.standing[k];
        assert(state.standing.contains(x));
        assert(state.standing.filter(away).contains(x));
        let m = choose|m: int|
            0 <= m < state.standing.filter(away).len() && state.standing.filter(away)[m] == x;
        assert(removed[m] == other);
        assert(all[added.len() + m] == other);
    }
    assert(all.contains(other));
    seqs::lemma_filter_members(all, |t: Seq<char>| t != code);
}

/// What a connection says it hosts is what it hosts, and every connection of a
/// friend is shown the identity as it is now. Nothing else changes.
pub proof fn law_announcing_is_told_to_friends(
    state: PresenceModel,
    i: int,
    hosting: Option<HostedRoomView>,
    now: int,
    j: int,
)
    requires
        laws::told_apart(state.sessions),
        0 <= i < state.sessions.len(),
        0 <= j < state.sessions.len(),
    ensures
        ({
            let code = state.sessions[i].code;
            let after = state.announce(state.sessions[i].id, hosting, now);
            &&& after.sessions == state.sessions.update(
                i,
                SessionModel { hosting, ..state.sessions[i] },
            )
            &&& after.standing == state.standing && after.last_seen == state.last_seen
            &&& keeps_said(state, after)
            &&& befriended(after.sessions, code, state.sessions[j].code) ==> told(
                state,
                after,
                state.sessions[j].id,
                PresenceServerMessageView::Update {
                    server_timestamp: clock::wire_time(now),
                    friend: after.presence_of(code, now),
                },
            )
        }),
{
    lemma_session(state, i);
    let next = PresenceModel {
        sessions: state.sessions.update(i, SessionModel { hosting, ..state.sessions[i] }),
        ..state
    };
    assert(next.sessions[j].id == state.sessions[j].id);
    assert(next.sessions[j].code == state.sessions[j].code);
    lemma_notify(next, state.sessions[i].code, now, j);
    lemma_told_since(
        state,
        next,
        next.notify_watchers(state.sessions[i].code, now),
        state.sessions[j].id,
    );
}

/// A change that says nothing does not matter to who is told what.
proof fn lemma_told_since(
    state: PresenceModel,
    next: PresenceModel,
    after: PresenceModel,
    session: u64,
)
    requires
        next.outgoing == state.outgoing,
    ensures
        forall|message: PresenceServerMessageView|
            told(next, after, session, message) ==> #[trigger] told(state, after, session, message),
{
    assert forall|message: PresenceServerMessageView|
        told(next, after, session, message) implies #[trigger] told(
        state,
        after,
        session,
        message,
    ) by {
        let k = choose|k: int|
            next.outgoing.len() <= k < after.outgoing.len() && #[trigger] after.outgoing[k] == (
            NoticeModel { session, message });
        assert(after.outgoing[k] == (NoticeModel { session, message }));
    }
}

/// The friends of an identity are told what it is doing.
proof fn lemma_notify(state: PresenceModel, code: Seq<char>, now: int, j: int)
    requires
        0 <= j < state.sessions.len(),
    ensures
        keeps_said(state, state.notify_watchers(code, now)),
        befriended(state.sessions, code, state.sessions[j].code) ==> told(
            state,
            state.notify_watchers(code, now),
            state.sessions[j].id,
            PresenceServerMessageView::Update {
                server_timestamp: clock::wire_time(now),
                friend: state.presence_of(code, now),
            },
        ),
{
    let message = PresenceServerMessageView::Update {
        server_timestamp: clock::wire_time(now),
        friend: state.presence_of(code, now),
    };
    let said = |p: Seq<char>| message;
    let watchers = model::watchers_of(state.sessions, code);
    laws::law_visibility_is_mutual(state.sessions, code, state.sessions[j].code);
    if befriended(state.sessions, code, state.sessions[j].code) {
        lemma_notices_reach(state.sessions, watchers, said, j);
        lemma_tell(
            state,
            state,
            model::notices_to(state.sessions, watchers, said),
            NoticeModel { session: state.sessions[j].id, message },
        );
    }
}

/// A connection that ended is gone, and with the last one its identity is away
/// since then. Whoever is a friend still is shown the identity as it is, and
/// whoever saw it through that connection alone is shown it as away.
pub proof fn law_disconnecting_is_told_to_friends(state: PresenceModel, i: int, now: int, j: int)
    requires
        laws::told_apart(state.sessions),
        0 <= i < state.sessions.len(),
        0 <= j < state.sessions.len(),
        j != i,
    ensures
        ({
            let code = state.sessions[i].code;
            let other = state.sessions[j].code;
            let after = state.disconnect(state.sessions[i].id, now);
            let last = forall|k: int|
                0 <= k < state.sessions.len() && k != i ==> (#[trigger] state.sessions[k]).code
                    != code;
            &&& after.sessions == state.sessions.remove(i)
            &&& after.standing == state.standing
            &&& last ==> after.last_seen.len() > 0 && after.last_seen.last() == (SeenModel {
                code,
                at: now,
            })
            &&& !last ==> after.last_seen == state.last_seen
            &&& keeps_said(state, after)
            &&& befriended(after.sessions, code, other) ==> told(
                state,
                after,
                state.sessions[j].id,
                PresenceServerMessageView::Update {
                    server_timestamp: clock::wire_time(now),
                    friend: after.presence_of(code, now),
                },
            )
            &&& befriended(state.sessions, code, other) && !befriended(after.sessions, code, other)
                ==> told(
                state,
                after,
                state.sessions[j].id,
                PresenceServerMessageView::Update {
                    server_timestamp: clock::wire_time(now),
                    friend: after.offline_presence(code, now),
                },
            )
        }),
{
    lemma_session(state, i);
    let code = state.sessions[i].code;
    let other = state.sessions[j].code;
    let id = state.sessions[j].id;
    let next = state.dropped(i, now);
    let after = state.disconnect(state.sessions[i].id, now);
    let place = if j < i { j } else { j - 1 };
    assert(next.sessions[place] == state.sessions[j]);
    let lost_ones = |p: Seq<char>| p != code && model::subscribes(next.sessions, p, code);
    let lost = state.sessions[i].subscriptions.filter(lost_ones);
    let watchers = model::watchers_of(next.sessions, code);
    let peers = textset::with_all(watchers, lost);
    let shown = |p: Seq<char>| next.shown_to(code, p, now);
    seqs::lemma_filter_members(state.sessions[i].subscriptions, lost_ones);
    laws::law_visibility_is_mutual(next.sessions, code, other);
    laws::lemma_with_all_members(watchers, lost, other);
    assert(forall|k: int|
        0 <= k < next.sessions.len() ==> #[trigger] next.sessions[k] == state.sessions[if k < i {
            k
        } else {
            k + 1
        }]);
    if befriended(state.sessions, code, other) {
        let x = choose|x: int|
            0 <= x < state.sessions.len() && (#[trigger] state.sessions[x]).code == other
                && state.sessions[x].subscriptions.contains(code);
        let y = if x < i { x } else { x - 1 };
        assert(next.sessions[y] == state.sessions[x]);
        assert(model::subscribes(next.sessions, other, code));
        let u = choose|u: int|
            0 <= u < state.sessions.len() && (#[trigger] state.sessions[u]).code == code
                && state.sessions[u].subscriptions.contains(other);
        if u == i {
            assert(lost.contains(other));
        } else {
            let v = if u < i { u } else { u - 1 };
            assert(next.sessions[v] == state.sessions[u]);
            assert(model::subscribes(next.sessions, code, other));
        }
        assert(peers.contains(other));
    }
    if befriended(after.sessions, code, other) || befriended(state.sessions, code, other) {
        assert(peers.contains(other));
        lemma_notices_reach(next.sessions, peers, shown, place);
        lemma_tell(
            next,
            next,
            model::notices_to(next.sessions, peers, shown),
            NoticeModel { session: id, message: next.shown_to(code, other, now) },
        );
        lemma_told_since(state, next, after, id);
    }
    if forall|k: int|
        0 <= k < state.sessions.len() && k != i ==> (#[trigger] state.sessions[k]).code != code {
        assert(!model::online(next.sessions, code));
    } else {
        let k = choose|k: int|
            0 <= k < state.sessions.len() && k != i && (#[trigger] state.sessions[k]).code == code;
        assert(next.sessions[if k < i { k } else { k - 1 }].code == code);
        assert(model::online(next.sessions, code));
    }
}

/// A room that changed or closed changes so for every connection that hosts it,
/// and for no other; nobody is told of it but about its hosts, whose friends all
/// are.
pub proof fn law_rooms_change_for_their_hosts(
    state: PresenceModel,
    room_id: Seq<char>,
    viewer_count: u32,
    sharing_state: SharingState,
    now: int,
)
    ensures
        ({
            let updated = state.room_updated(room_id, viewer_count, sharing_state, now);
            let closed = state.room_closed(room_id, now);
            &&& updated.standing == state.standing && updated.last_seen == state.last_seen
            &&& closed.standing == state.standing && closed.last_seen == state.last_seen
            &&& updated.sessions.len() == state.sessions.len()
            &&& closed.sessions.len() == state.sessions.len()
            &&& forall|i: int|
                #![trigger state.sessions[i]]
                0 <= i < state.sessions.len() ==> if state.sessions[i].hosting matches Some(room)
                    && room.room_id == room_id {
                    &&& updated.sessions[i] == (SessionModel {
                        hosting: Some(
                            HostedRoomView {
                                viewer_count,
                                sharing_state,
                                ..state.sessions[i].hosting->0
                            },
                        ),
                        ..state.sessions[i]
                    })
                    &&& closed.sessions[i] == (SessionModel { hosting: None, ..state.sessions[i] })
                } else {
                    updated.sessions[i] == state.sessions[i] && closed.sessions[i]
                        == state.sessions[i]
                }
        }),
{
    let changed = PresenceModel {
        sessions: state.sessions.map_values(
            |s: SessionModel|
                if s.hosts(room_id) {
                    SessionModel {
                        hosting: Some(
                            HostedRoomView { viewer_count, sharing_state, ..s.hosting->0 },
                        ),
                        ..s
                    }
                } else {
                    s
                },
        ),
        ..state
    };
    let emptied = PresenceModel {
        sessions: state.sessions.map_values(
            |s: SessionModel|
                if s.hosts(room_id) {
                    SessionModel { hosting: None, ..s }
                } else {
                    s
                },
        ),
        ..state
    };
    lemma_notify_all_keeps(changed, state.hosts_of(room_id), now);
    lemma_notify_all_keeps(emptied, state.hosts_of(room_id), now);
}

proof fn lemma_notify_all_keeps(state: PresenceModel, codes: Seq<Seq<char>>, now: int)
    ensures
        ({
            let after = state.notify_all(codes, now);
            &&& after == (PresenceModel { outgoing: after.outgoing, ..state })
            &&& keeps_said(state, after)
        }),
    decreases codes.len(),
{
    if codes.len() > 0 {
        lemma_notify_all_keeps(state, codes.drop_last(), now);
    }
}

proof fn lemma_notify_all(
    state: PresenceModel,
    codes: Seq<Seq<char>>,
    now: int,
    code: Seq<char>,
    j: int,
)
    requires
        codes.contains(code),
        0 <= j < state.sessions.len(),
        befriended(state.sessions, code, state.sessions[j].code),
    ensures
        told(
            state,
            state.notify_all(codes, now),
            state.sessions[j].id,
            PresenceServerMessageView::Update {
                server_timestamp: clock::wire_time(now),
                friend: state.presence_of(code, now),
            },
        ),
    decreases codes.len(),
{
    let init = codes.drop_last();
    let before = state.notify_all(init, now);
    lemma_notify_all_keeps(state, init, now);
    let message = PresenceServerMessageView::Update {
        server_timestamp: clock::wire_time(now),
        friend: state.presence_of(code, now),
    };
    let notice = NoticeModel { session: state.sessions[j].id, message };
    let after = before.notify_watchers(codes.last(), now);
    assert(after == state.notify_all(codes, now));
    let said = PresenceServerMessageView::Update {
        server_timestamp: clock::wire_time(now),
        friend: before.presence_of(codes.last(), now),
    };
    let more = model::notices_to(
        before.sessions,
        model::watchers_of(before.sessions, codes.last()),
        |p: Seq<char>| said,
    );
    assert(after == before.tell(more));
    if codes.last() == code {
        lemma_notify(before, code, now, j);
        assert(before.presence_of(code, now) == state.presence_of(code, now));
        let k = choose|k: int|
            before.outgoing.len() <= k < after.outgoing.len() && #[trigger] after.outgoing[k]
                == notice;
        assert(after.outgoing[k] == notice);
    } else {
        let m = choose|m: int| 0 <= m < codes.len() && codes[m] == code;
        assert(init[m] == code);
        lemma_notify_all(state, init, now, code, j);
        lemma_tell(state, before, more, notice);
    }
}

/// Every friend of someone who hosts a room is told when the room changes, and when
/// it closes, and is shown the host as it is then.
pub proof fn law_hosts_friends_hear_of_the_room(
    state: PresenceModel,
    room_id: Seq<char>,
    viewer_count: u32,
    sharing_state: SharingState,
    now: int,
    i: int,
    j: int,
)
    requires
        0 <= i < state.sessions.len(),
        0 <= j < state.sessions.len(),
        state.sessions[i].hosting matches Some(room) && room.room_id == room_id,
        befriended(state.sessions, state.sessions[i].code, state.sessions[j].code),
    ensures
        ({
            let code = state.sessions[i].code;
            let updated = state.room_updated(room_id, viewer_count, sharing_state, now);
            let closed = state.room_closed(room_id, now);
            &&& told(
                state,
                updated,
                state.sessions[j].id,
                PresenceServerMessageView::Update {
                    server_timestamp: clock::wire_time(now),
                    friend: updated.presence_of(code, now),
                },
            )
            &&& told(
                state,
                closed,
                state.sessions[j].id,
                PresenceServerMessageView::Update {
                    server_timestamp: clock::wire_time(now),
                    friend: closed.presence_of(code, now),
                },
            )
        }),
{
    let code = state.sessions[i].code;
    let changed = PresenceModel {
        sessions: state.sessions.map_values(
            |s: SessionModel|
                if s.hosts(room_id) {
                    SessionModel {
                        hosting: Some(
                            HostedRoomView { viewer_count, sharing_state, ..s.hosting->0 },
                        ),
                        ..s
                    }
                } else {
                    s
                },
        ),
        ..state
    };
    let emptied = PresenceModel {
        sessions: state.sessions.map_values(
            |s: SessionModel|
                if s.hosts(room_id) {
                    SessionModel { hosting: None, ..s }
                } else {
                    s
                },
        ),
        ..state
    };
    let hosts = state.hosts_of(room_id);
    let is_host = |s: SessionModel| s.hosts(room_id);
    let picked = state.sessions.filter(is_host);
    let names = picked.map_values(|s: SessionModel| s.code);
    seqs::lemma_filter_members(state.sessions, is_host);
    textset::lemma_distinct_members(names);
    assert(state.sessions.contains(state.sessions[i]));
    assert(picked.contains(state.sessions[i]));
    let k = choose|k: int| 0 <= k < picked.len() && picked[k] == state.sessions[i];
    assert(names[k] == code);
    assert(hosts.contains(code));
    let other = state.sessions[j].code;
    lemma_still_befriended(state.sessions, changed.sessions, code, other);
    lemma_still_befriended(state.sessions, emptied.sessions, code, other);
    lemma_notify_all(changed, hosts, now, code, j);
    lemma_notify_all(emptied, hosts, now, code, j);
    lemma_notify_all_keeps(changed, hosts, now);
    lemma_notify_all_keeps(emptied, hosts, now);
    let updated = state.room_updated(room_id, viewer_count, sharing_state, now);
    let closed = state.room_closed(room_id, now);
    assert(changed.sessions[j].id == state.sessions[j].id);
    assert(emptied.sessions[j].id == state.sessions[j].id);
    lemma_told_since(state, changed, updated, state.sessions[j].id);
    lemma_told_since(state, emptied, closed, state.sessions[j].id);
    assert(updated.presence_of(code, now) == changed.presence_of(code, now));
    assert(closed.presence_of(code, now) == emptied.presence_of(code, now));
}

proof fn lemma_still_befriended(
    before: Seq<SessionModel>,
    after: Seq<SessionModel>,
    a: Seq<char>,
    b: Seq<char>,
)
    requires
        befriended(before, a, b),
        before.len() == after.len(),
        forall|i: int|
            0 <= i < before.len() ==> (#[trigger] before[i]).code == after[i].code
                && before[i].subscriptions == after[i].subscriptions,
    ensures
        befriended(after, a, b),
{
    let i = choose|i: int|
        0 <= i < before.len() && (#[trigger] before[i]).code == a && before[i].subscriptions.contains(
            b,
        );
    assert(after[i].code == a && after[i].subscriptions.contains(b));
    let j = choose|j: int|
        0 <= j < before.len() && (#[trigger] before[j]).code == b && before[j].subscriptions.contains(
            a,
        );
    assert(after[j].code == b && after[j].subscriptions.contains(a));
}

/// A request stands for ten minutes, unless it is answered: whoever asks is told
/// exactly those who want them, are not wanted back, and asked less than ten
/// minutes ago.
pub proof fn law_requests_stand_for_ten_minutes(
    standing: Seq<InterestModel>,
    code: Seq<char>,
    now: int,
    requester: Seq<char>,
)
    ensures
        model::requests_of(standing, code, now).contains(requester) <==> requester != code
            && !stands(standing, code, requester) && exists|i: int|
            0 <= i < standing.len() && (#[trigger] standing[i]).requester == requester
                && standing[i].target == code && now - standing[i].since < 600_000_000_000,
{
    laws::law_requests_are_one_sided_and_recent(standing, code, now, requester);
    lemma_stands(standing, code, requester);
}

/// The sweep takes away exactly what was wanted for ten minutes or more and not
/// returned, and tells every connection of whoever it was wanted of who wants
/// them now.
pub proof fn law_the_sweep_is_told(state: PresenceModel, x: InterestModel, now: int, j: int)
    requires
        state.standing.contains(x),
        0 <= j < state.sessions.len(),
        state.sessions[j].code == x.target,
    ensures
        ({
            let after = state.expire_requests(now);
            let lapsed = now - x.since >= 600_000_000_000 && !stands(
                state.standing,
                x.target,
                x.requester,
            );
            &&& after.sessions == state.sessions && after.last_seen == state.last_seen
            &&& keeps_said(state, after)
            &&& after.standing.contains(x) <==> !lapsed
            &&& lapsed ==> told(
                state,
                after,
                state.sessions[j].id,
                PresenceServerMessageView::Requests {
                    server_timestamp: clock::wire_time(now),
                    codes: model::requests_of(after.standing, x.target, now),
                },
            )
        }),
{
    laws::law_the_sweep_removes_only_lapsed_interest(state, x, now);
    lemma_stands(state.standing, x.target, x.requester);
    let is_over = |y: InterestModel| model::is_lapsed(state.standing, y, now);
    let lapsed = state.standing.filter(is_over);
    seqs::lemma_filter_members(state.standing, is_over);
    let next = PresenceModel {
        standing: state.standing.filter(|y: InterestModel| !model::is_lapsed(state.standing, y, now)),
        ..state
    };
    let names = lapsed.map_values(|y: InterestModel| y.target);
    textset::lemma_distinct_members(names);
    let targets = textset::distinct(names);
    let asked = |t: Seq<char>| next.requests_message(t, now);
    if model::is_lapsed(state.standing, x, now) {
        assert(lapsed.contains(x));
        let k = choose|k: int| 0 <= k < lapsed.len() && lapsed[k] == x;
        assert(names[k] == x.target);
        lemma_notices_reach(next.sessions, targets, asked, j);
        lemma_tell(
            next,
            next,
            model::notices_to(next.sessions, targets, asked),
            NoticeModel {
                session: state.sessions[j].id,
                message: next.requests_message(x.target, now),
            },
        );
        lemma_told_since(state, next, state.expire_requests(now), state.sessions[j].id);
    }
}

/// Each command is what happens to the graph, and events of connections that are
/// not there change nothing.
pub proof fn law_commands_are_what_happens(state: PresenceModel, command: PresenceCommand, now: int)
    ensures
        ({
            let after = state::performed(state, command, now);
            &&& command matches PresenceCommand::Connect { id, code } ==> after == state.connect(
                id,
                code@,
            )
            &&& command matches PresenceCommand::Subscribe { id, codes } ==> after
                == state.subscribe(id, codes.deep_view(), now)
            &&& command matches PresenceCommand::Announce { id, hosting } ==> after
                == state.announce(id, hosting.deep_view(), now)
            &&& command matches PresenceCommand::RoomUpdated {
                room_id,
                viewer_count,
                sharing_state,
            } ==> after == state.room_updated(room_id@, viewer_count, sharing_state, now)
            &&& command matches PresenceCommand::RoomClosed { room_id } ==> after
                == state.room_closed(room_id@, now)
            &&& command matches PresenceCommand::Disconnect { id } ==> after == state.disconnect(
                id,
                now,
            )
            &&& command is Expire ==> after == state.expire_requests(now)
        }),
        forall|id: u64|
            (forall|j: int|
                0 <= j < state.sessions.len() ==> (#[trigger] state.sessions[j]).id != id)
                ==> #[trigger] state.disconnect(id, now) == state,
        forall|id: u64, codes: Seq<Seq<char>>|
            (forall|j: int|
                0 <= j < state.sessions.len() ==> (#[trigger] state.sessions[j]).id != id)
                ==> #[trigger] state.subscribe(id, codes, now) == state,
        forall|id: u64, hosting: Option<HostedRoomView>|
            (forall|j: int|
                0 <= j < state.sessions.len() ==> (#[trigger] state.sessions[j]).id != id)
                ==> #[trigger] state.announce(id, hosting, now) == state,
{
    assert forall|id: u64|
        (forall|j: int|
            0 <= j < state.sessions.len() ==> (#[trigger] state.sessions[j]).id != id) implies
        #[trigger] state.disconnect(id, now) == state by {
        lemma_no_session(state, id);
    }
    assert forall|id: u64, codes: Seq<Seq<char>>|
        (forall|j: int|
            0 <= j < state.sessions.len() ==> (#[trigger] state.sessions[j]).id != id) implies
        #[trigger] state.subscribe(id, codes, now) == state by {
        lemma_no_session(state, id);
    }
    assert forall|id: u64, hosting: Option<HostedRoomView>|
        (forall|j: int|
            0 <= j < state.sessions.len() ==> (#[trigger] state.sessions[j]).id != id) implies
        #[trigger] state.announce(id, hosting, now) == state by {
        lemma_no_session(state, id);
    }
}

} // verus!
