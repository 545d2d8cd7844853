//! What holds of presence whatever happens.
use vstd::prelude::*;

use crate::clock;
use crate::presence::model;
use crate::presence::model::{
    InterestModel, NoticeModel, PresenceModel, SeenModel, SessionModel, REQUEST_TTL,
};
use crate::presence::state;
use crate::presence::state::PresenceCommand;
use crate::protocol::{
    FriendPresenceView, HostedRoomView, PresenceServerMessageView,
};
use crate::seqs;
use crate::sorting;
use crate::textset;

verus! {

/// The connections that are told something are those of the identities that
/// it is said to.
proof fn lemma_notices(
    sessions: Seq<SessionModel>,
    code: Seq<char>,
    message: PresenceServerMessageView,
)
    ensures
        forall|k: int|
            0 <= k < model::notices(sessions, code, message).len() ==> {
                let n = #[trigger] model::notices(sessions, code, message)[k];
                &&& n.message == message
                &&& exists|i: int|
                    0 <= i < sessions.len() && (#[trigger] sessions[i]).id == n.session
                        && sessions[i].code == code
            },
{
    let of_code = |s: SessionModel| s.code == code;
    let picked = sessions.filter(of_code);
    seqs::lemma_filter_members(sessions, of_code);
    assert forall|k: int| 0 <= k < model::notices(sessions, code, message).len() implies {
        let n = #[trigger] model::notices(sessions, code, message)[k];
        &&& n.message == message
        &&& exists|i: int|
            0 <= i < sessions.len() && (#[trigger] sessions[i]).id == n.session && sessions[i].code
                == code
    } by {
        assert(sessions.contains(picked[k]) && of_code(picked[k]));
        let i = choose|i: int| 0 <= i < sessions.len() && sessions[i] == picked[k];
        assert(sessions[i].id == model::notices(sessions, code, message)[k].session);
    }
}

/// Those who see an identity are exactly the others, with a connection, that
/// watch it and that it watches.
pub proof fn law_visibility_is_mutual(
    sessions: Seq<SessionModel>,
    code: Seq<char>,
    peer: Seq<char>,
)
    ensures
        model::watchers_of(sessions, code).contains(peer) <==> peer != code && model::mutual(
            sessions,
            code,
            peer,
        ),
{
    let sees = |p: Seq<char>| p != code && model::mutual(sessions, code, p);
    seqs::lemma_filter_members(model::codes_of(sessions), sees);
    let codes = sessions.map_values(|s: SessionModel| s.code);
    textset::lemma_distinct_members(codes);
    if sees(peer) {
        let i = choose|i: int|
            0 <= i < sessions.len() && (#[trigger] sessions[i]).code == peer
                && sessions[i].subscriptions.contains(code);
        assert(codes[i] == peer);
    }
    assert(model::watchers_of(sessions, code).contains(peer) <==> model::codes_of(
        sessions,
    ).contains(peer) && sees(peer));
}

/// Seeing is symmetric.
pub proof fn law_seeing_is_symmetric(sessions: Seq<SessionModel>, a: Seq<char>, b: Seq<char>)
    ensures
        model::watchers_of(sessions, a).contains(b) <==> model::watchers_of(sessions, b).contains(
            a,
        ),
{
    law_visibility_is_mutual(sessions, a, b);
    law_visibility_is_mutual(sessions, b, a);
}

/// Whether what is said of a friend shows it online or hosting.
pub open spec fn shows(friend: FriendPresenceView, code: Seq<char>) -> bool {
    friend.code == code && (friend.online || friend.hosting is Some)
}

/// Whether a message shows `code` online or hosting.
pub open spec fn discloses(message: PresenceServerMessageView, code: Seq<char>) -> bool {
    match message {
        PresenceServerMessageView::Update { friend, .. } => shows(friend, code),
        PresenceServerMessageView::Snapshot { friends, .. } => exists|j: int|
            0 <= j < friends.len() && shows(#[trigger] friends[j], code),
        _ => false,
    }
}

/// Whether a connection is told in `notice` that `code` is online or hosting.
pub open spec fn reveals(notice: NoticeModel, code: Seq<char>) -> bool {
    discloses(notice.message, code)
}

/// Changes of what an identity hosts are told to nobody but those it is
/// friends with.
pub proof fn law_hosting_is_shown_to_friends_only(
    state: PresenceModel,
    code: Seq<char>,
    now: int,
    k: int,
)
    requires
        state.outgoing.len() <= k < state.notify_watchers(code, now).outgoing.len(),
    ensures
        exists|i: int|
            0 <= i < state.sessions.len() && (#[trigger] state.sessions[i]).id
                == state.notify_watchers(code, now).outgoing[k].session && model::mutual(
                state.sessions,
                code,
                state.sessions[i].code,
            ),
{
    let message = PresenceServerMessageView::Update {
        server_timestamp: clock::wire_time(now),
        friend: state.presence_of(code, now),
    };
    let said = |p: Seq<char>| message;
    let watchers = model::watchers_of(state.sessions, code);
    lemma_notices_to(state.sessions, watchers, said, k - state.outgoing.len());
    let n = model::notices_to(state.sessions, watchers, said)[k - state.outgoing.len()];
    assert(state.notify_watchers(code, now).outgoing[k] == n);
    let i = choose|i: int|
        0 <= i < state.sessions.len() && (#[trigger] state.sessions[i]).id == n.session
            && watchers.contains(state.sessions[i].code);
    law_visibility_is_mutual(state.sessions, code, state.sessions[i].code);
}

/// A message to several identities goes to a connection of one of them, and
/// is the one meant for it.
proof fn lemma_notices_to(
    sessions: Seq<SessionModel>,
    codes: Seq<Seq<char>>,
    message: spec_fn(Seq<char>) -> PresenceServerMessageView,
    k: int,
)
    requires
        0 <= k < model::notices_to(sessions, codes, message).len(),
    ensures
        ({
            let n = model::notices_to(sessions, codes, message)[k];
            exists|i: int|
                0 <= i < sessions.len() && (#[trigger] sessions[i]).id == n.session
                    && codes.contains(sessions[i].code) && n.message == message(sessions[i].code)
        }),
    decreases codes.len(),
{
    let init = codes.drop_last();
    let before = model::notices_to(sessions, init, message);
    let n = model::notices_to(sessions, codes, message)[k];
    if k < before.len() {
        lemma_notices_to(sessions, init, message, k);
        let i = choose|i: int|
            0 <= i < sessions.len() && (#[trigger] sessions[i]).id == before[k].session
                && init.contains(sessions[i].code) && before[k].message == message(
                sessions[i].code,
            );
        let m = choose|m: int| 0 <= m < init.len() && init[m] == sessions[i].code;
        assert(codes[m] == sessions[i].code);
        assert(sessions[i].id == n.session);
    } else {
        lemma_notices(sessions, codes.last(), message(codes.last()));
        let last = model::notices(sessions, codes.last(), message(codes.last()));
        assert(n == last[k - before.len()]);
        let i = choose|i: int|
            0 <= i < sessions.len() && (#[trigger] sessions[i]).id == n.session && sessions[i].code
                == codes.last();
        assert(codes[codes.len() - 1] == sessions[i].code);
        assert(sessions[i].id == n.session);
    }
}

/// Whatever a subscription or the end of a connection tells a peer of an
/// identity, it reveals nothing unless the two are friends.
pub proof fn law_updates_reveal_friends_only(
    state: PresenceModel,
    code: Seq<char>,
    peers: Seq<Seq<char>>,
    now: int,
    k: int,
)
    requires
        0 <= k < state.updates_to(code, peers, now).len(),
        reveals(state.updates_to(code, peers, now)[k], code),
    ensures
        exists|i: int|
            0 <= i < state.sessions.len() && (#[trigger] state.sessions[i]).id
                == state.updates_to(code, peers, now)[k].session && model::mutual(
                state.sessions,
                code,
                state.sessions[i].code,
            ),
{
    let said = |p: Seq<char>| state.shown_to(code, p, now);
    lemma_notices_to(state.sessions, peers, said, k);
}

/// An identity is online exactly while it has a connection.
pub proof fn law_online_while_connected(
    state: PresenceModel,
    id: u64,
    code: Seq<char>,
    now: int,
)
    ensures
        model::online(state.connect(id, code).sessions, code),
        state.connect(id, code).last_seen_ago(code, now) is None,
{
    let next = state.connect(id, code).sessions;
    let is_it = |s: SessionModel| s.id == id;
    seqs::lemma_first_where(state.sessions, is_it);
    match model::find_session(state.sessions, id) {
        Some(i) => assert(next[i].code == code),
        None => assert(next[state.sessions.len() as int].code == code),
    }
}

/// Once the last connection of an identity ended, it is offline and was last
/// seen then.
pub proof fn law_last_seen_is_when_the_last_connection_ended(
    state: PresenceModel,
    i: int,
    now: int,
    later: int,
)
    requires
        0 <= i < state.sessions.len(),
        forall|j: int|
            0 <= j < state.sessions.len() && j != i ==> (#[trigger] state.sessions[j]).code
                != state.sessions[i].code,
    ensures
        ({
            let next = state.dropped(i, now);
            let code = state.sessions[i].code;
            &&& !model::online(next.sessions, code)
            &&& next.last_seen_ago(code, later) == Some(model::elapsed_seconds(now, later))
        }),
{
    let code = state.sessions[i].code;
    let next = state.dropped(i, now);
    assert forall|j: int| 0 <= j < next.sessions.len() implies (#[trigger] next.sessions[j]).code
        != code by {
        let k = if j < i { j } else { j + 1 };
        assert(next.sessions[j] == state.sessions[k]);
    }
    let other = |x: SeenModel| x.code != code;
    let is_it = |x: SeenModel| x.code == code;
    let kept = state.last_seen.filter(other);
    seqs::lemma_filter_members(state.last_seen, other);
    assert forall|j: int| 0 <= j < kept.len() implies !is_it(#[trigger] next.last_seen[j]) by {
        assert(next.last_seen[j] == kept[j]);
        assert(other(kept[j]));
    }
    seqs::lemma_first(next.last_seen, is_it, kept.len() as int);
}

/// Who the open requests to an identity come from: those that want it, not
/// for longer than the window, and that it does not want back.
pub proof fn law_requests_are_one_sided_and_recent(
    standing: Seq<InterestModel>,
    code: Seq<char>,
    now: int,
    requester: Seq<char>,
)
    ensures
        model::requests_of(standing, code, now).contains(requester) <==> exists|i: int|
            0 <= i < standing.len() && (#[trigger] standing[i]).requester == requester
                && model::is_request(standing, standing[i], code, now),
        sorting::in_order(model::requests_of(standing, code, now)),
{
    let open = |x: InterestModel| model::is_request(standing, x, code, now);
    let from = |x: InterestModel| x.requester;
    let picked = standing.filter(open);
    let names = picked.map_values(from);
    seqs::lemma_filter_members(standing, open);
    sorting::law_sorting_keeps_and_orders(names);
    if names.contains(requester) {
        let k = choose|k: int| 0 <= k < names.len() && names[k] == requester;
        assert(standing.contains(picked[k]) && open(picked[k]));
        let i = choose|i: int| 0 <= i < standing.len() && standing[i] == picked[k];
        assert(standing[i].requester == requester);
    }
    if exists|i: int|
        0 <= i < standing.len() && (#[trigger] standing[i]).requester == requester
            && model::is_request(standing, standing[i], code, now) {
        let i = choose|i: int|
            0 <= i < standing.len() && (#[trigger] standing[i]).requester == requester
                && model::is_request(standing, standing[i], code, now);
        assert(standing.contains(standing[i]) && open(standing[i]));
        assert(picked.contains(standing[i]));
        let k = choose|k: int| 0 <= k < picked.len() && picked[k] == standing[i];
        assert(names[k] == requester);
    }
}

/// Adding back answers a request: between identities that want each other
/// there is none.
pub proof fn law_friends_have_no_requests(
    standing: Seq<InterestModel>,
    a: Seq<char>,
    b: Seq<char>,
    now: int,
)
    requires
        model::wants(standing, a, b),
        model::wants(standing, b, a),
    ensures
        !model::requests_of(standing, a, now).contains(b),
        !model::requests_of(standing, b, now).contains(a),
{
    law_requests_are_one_sided_and_recent(standing, a, now, b);
    law_requests_are_one_sided_and_recent(standing, b, now, a);
}

/// A request that nobody answered is gone when its window is over, whoever
/// asks.
pub proof fn law_requests_age_out(
    standing: Seq<InterestModel>,
    requester: Seq<char>,
    code: Seq<char>,
    now: int,
)
    requires
        forall|i: int|
            0 <= i < standing.len() && (#[trigger] standing[i]).requester == requester
                && standing[i].target == code ==> now - standing[i].since >= REQUEST_TTL,
    ensures
        !model::requests_of(standing, code, now).contains(requester),
{
    law_requests_are_one_sided_and_recent(standing, code, now, requester);
}

/// Interest that is returned never lapses.
pub proof fn law_friendships_never_lapse(state: PresenceModel, i: int, now: int)
    requires
        0 <= i < state.standing.len(),
        model::wants(state.standing, state.standing[i].target, state.standing[i].requester),
    ensures
        state.expire_requests(now).standing.contains(state.standing[i]),
{
    let stands = |x: InterestModel| !model::is_lapsed(state.standing, x, now);
    seqs::lemma_filter_members(state.standing, stands);
    assert(state.standing.contains(state.standing[i]) && stands(state.standing[i]));
}

/// The sweep removes exactly the interest that lapsed.
pub proof fn law_the_sweep_removes_only_lapsed_interest(state: PresenceModel, x: InterestModel, now: int)
    ensures
        state.expire_requests(now).standing.contains(x) <==> state.standing.contains(x)
            && !model::is_lapsed(state.standing, x, now),
{
    let stands = |x: InterestModel| !model::is_lapsed(state.standing, x, now);
    seqs::lemma_filter_members(state.standing, stands);
}

/// The sweep leaves the answers as they are: whoever asks then has the same
/// requests as before.
pub proof fn law_the_sweep_keeps_the_answers(state: PresenceModel, code: Seq<char>, now: int)
    ensures
        model::requests_of(state.expire_requests(now).standing, code, now) == model::requests_of(
            state.standing,
            code,
            now,
        ),
{
    let all = state.standing;
    let stands = |x: InterestModel| !model::is_lapsed(all, x, now);
    let kept = all.filter(stands);
    let before = |x: InterestModel| model::is_request(all, x, code, now);
    let after = |x: InterestModel| model::is_request(kept, x, code, now);
    assert forall|i: int| 0 <= i < all.len() implies before(#[trigger] all[i]) == (stands(all[i])
        && after(all[i])) by {
        let x = all[i];
        if x.target == code {
            lemma_answer_stands(all, x, now);
        }
    }
    seqs::lemma_filter_twice(all, stands, after, before);
    let from = |x: InterestModel| x.requester;
    assert(state.expire_requests(now).standing == kept);
    assert(kept.filter(after).map_values(from) == all.filter(before).map_values(from));
}

/// What answers an interest does not lapse.
proof fn lemma_answer_stands(all: Seq<InterestModel>, x: InterestModel, now: int)
    requires
        all.contains(x),
    ensures
        model::wants(
            all.filter(|y: InterestModel| !model::is_lapsed(all, y, now)),
            x.target,
            x.requester,
        ) == model::wants(all, x.target, x.requester),
{
    let stands = |y: InterestModel| !model::is_lapsed(all, y, now);
    let kept = all.filter(stands);
    let asks = |y: InterestModel| y.requester == x.requester && y.target == x.target;
    let answers = |y: InterestModel| y.requester == x.target && y.target == x.requester;
    seqs::lemma_filter_members(all, stands);
    seqs::lemma_first_where(all, asks);
    seqs::lemma_first_where(all, answers);
    seqs::lemma_first_where(kept, answers);
    let k = choose|k: int| 0 <= k < all.len() && all[k] == x;
    assert(asks(all[k]));
    assert(model::wants(all, x.requester, x.target));
    if model::wants(all, x.target, x.requester) {
        let y = all[model::find_interest(all, x.target, x.requester)->0];
        assert(answers(y));
        assert(all.contains(y) && stands(y));
        assert(kept.contains(y));
        let m = choose|m: int| 0 <= m < kept.len() && kept[m] == y;
        assert(answers(kept[m]));
    }
    if model::wants(kept, x.target, x.requester) {
        let m = model::find_interest(kept, x.target, x.requester)->0;
        assert(answers(kept[m]) && all.contains(kept[m]));
        let j = choose|j: int| 0 <= j < all.len() && all[j] == kept[m];
        assert(answers(all[j]));
    }
}

/// What an identity wants, once it stated it, is exactly what its live
/// connections watch: what a connection that is gone had asked for is
/// withdrawn.
pub proof fn law_standing_interest_is_what_live_connections_watch(
    state: PresenceModel,
    i: int,
    codes: Seq<Seq<char>>,
    now: int,
    target: Seq<char>,
)
    requires
        0 <= i < state.sessions.len(),
    ensures
        ({
            let next = state.resubscribed(i, codes, now);
            let code = state.sessions[i].code;
            model::wants(next.standing, code, target) <==> model::subscribes(
                next.sessions,
                code,
                target,
            )
        }),
{
    let next = state.resubscribed(i, codes, now);
    let code = state.sessions[i].code;
    let wanted = model::wanted_by(next.sessions, code);
    lemma_wanted(next.sessions, code, target);
    lemma_restated(state.standing, code, wanted, now, target);
}

/// Stating the same interest again does not make it younger.
pub proof fn law_restating_keeps_the_time(
    standing: Seq<InterestModel>,
    code: Seq<char>,
    targets: Seq<Seq<char>>,
    now: int,
    target: Seq<char>,
)
    requires
        model::wants(standing, code, target),
        targets.contains(target),
    ensures
        model::since(model::restated(standing, code, targets, now), code, target, now)
            == model::since(standing, code, target, now),
{
    lemma_restated(standing, code, targets, now, target);
}

pub proof fn lemma_restated(
    standing: Seq<InterestModel>,
    code: Seq<char>,
    targets: Seq<Seq<char>>,
    now: int,
    target: Seq<char>,
)
    ensures
        ({
            let all = model::restated(standing, code, targets, now);
            &&& model::wants(all, code, target) <==> targets.contains(target)
            &&& targets.contains(target) ==> model::since(all, code, target, now) == model::since(
                standing,
                code,
                target,
                now,
            )
        }),
{
    let keep = |x: InterestModel| x.requester != code;
    let kept = standing.filter(keep);
    let all = model::restated(standing, code, targets, now);
    let is_it = |x: InterestModel| x.requester == code && x.target == target;
    seqs::lemma_filter_members(standing, keep);
    seqs::lemma_first_where(all, is_it);
    assert forall|j: int| 0 <= j < kept.len() implies !is_it(#[trigger] all[j]) by {
        assert(all[j] == kept[j]);
        assert(keep(kept[j]));
    }
    if targets.contains(target) {
        let k = choose|k: int| 0 <= k < targets.len() && targets[k] == target;
        assert(is_it(all[kept.len() + k]));
    }
    if model::wants(all, code, target) {
        let k = model::find_interest(all, code, target)->0;
        assert(is_it(all[k]));
        assert(targets[k - kept.len()] == target);
    }
}

pub proof fn lemma_with_all_members<A>(s: Seq<A>, more: Seq<A>, x: A)
    ensures
        textset::with_all(s, more).contains(x) <==> s.contains(x) || more.contains(x),
    decreases more.len(),
{
    if more.len() > 0 {
        let init = more.drop_last();
        lemma_with_all_members(s, init, x);
        let before = textset::with_all(s, init);
        let after = textset::with_all(s, more);
        if more.contains(x) {
            let k = choose|k: int| 0 <= k < more.len() && more[k] == x;
            if k < init.len() {
                assert(init[k] == x);
            }
        }
        if init.contains(x) {
            let k = choose|k: int| 0 <= k < init.len() && init[k] == x;
            assert(more[k] == x);
        }
        assert(more[more.len() - 1] == more.last());
        if !before.contains(more.last()) {
            assert(after == before.push(more.last()));
            assert(after[before.len() as int] == more.last());
            if before.contains(x) {
                let k = choose|k: int| 0 <= k < before.len() && before[k] == x;
                assert(after[k] == x);
            }
            if after.contains(x) && x != more.last() {
                let k = choose|k: int| 0 <= k < after.len() && after[k] == x;
                assert(before[k] == x);
            }
        }
    }
}

pub proof fn lemma_wanted(sessions: Seq<SessionModel>, code: Seq<char>, target: Seq<char>)
    ensures
        model::wanted_by(sessions, code).contains(target) <==> model::subscribes(
            sessions,
            code,
            target,
        ),
    decreases sessions.len(),
{
    if sessions.len() > 0 {
        let init = sessions.drop_last();
        lemma_wanted(init, code, target);
        let before = model::wanted_by(init, code);
        lemma_with_all_members(before, sessions.last().subscriptions, target);
        if model::subscribes(init, code, target) {
            let k = choose|k: int|
                0 <= k < init.len() && (#[trigger] init[k]).code == code
                    && init[k].subscriptions.contains(target);
            assert(sessions[k].code == code && sessions[k].subscriptions.contains(target));
        }
        if model::subscribes(sessions, code, target) {
            let k = choose|k: int|
                0 <= k < sessions.len() && (#[trigger] sessions[k]).code == code
                    && sessions[k].subscriptions.contains(target);
            if k < init.len() {
                assert(init[k].code == code && init[k].subscriptions.contains(target));
            }
        }
        assert(sessions[sessions.len() - 1] == sessions.last());
    }
}

/// Standing interest survives the end of a connection, so a request still
/// waits for a target that comes later.
pub proof fn law_interest_survives_disconnects(state: PresenceModel, id: u64, now: int)
    ensures
        state.disconnect(id, now).standing == state.standing,
{
}

/// Connecting alone tells nobody anything.
pub proof fn law_connecting_is_silent(state: PresenceModel, id: u64, code: Seq<char>)
    ensures
        state.connect(id, code).outgoing == state.outgoing,
        state.connect(id, code).standing == state.standing,
{
}

/// Whether every connection has an identifier of its own.
pub open spec fn told_apart(sessions: Seq<SessionModel>) -> bool {
    forall|i: int, j: int|
        0 <= i < j < sessions.len() ==> (#[trigger] sessions[i]).id != (#[trigger] sessions[j]).id
}

/// Whether a notice shows nobody online or hosting but to a connection of someone
/// else who watches them and whom they watch.
pub open spec fn between_friends(sessions: Seq<SessionModel>, notice: NoticeModel) -> bool {
    forall|code: Seq<char>, i: int|
        #![trigger reveals(notice, code), sessions[i]]
        reveals(notice, code) && 0 <= i < sessions.len() && sessions[i].id == notice.session
            ==> sessions[i].code != code && model::mutual(sessions, code, sessions[i].code)
}

/// What is meant for friends reaches friends alone.
proof fn lemma_between_friends(
    sessions: Seq<SessionModel>,
    codes: Seq<Seq<char>>,
    message: spec_fn(Seq<char>) -> PresenceServerMessageView,
)
    requires
        told_apart(sessions),
        forall|peer: Seq<char>, code: Seq<char>|
            #![trigger codes.contains(peer), discloses(message(peer), code)]
            codes.contains(peer) && discloses(message(peer), code) ==> peer != code
                && model::mutual(sessions, code, peer),
    ensures
        forall|k: int|
            0 <= k < model::notices_to(sessions, codes, message).len() ==> between_friends(
                sessions,
                #[trigger] model::notices_to(sessions, codes, message)[k],
            ),
{
    let all = model::notices_to(sessions, codes, message);
    assert forall|k: int| 0 <= k < all.len() implies between_friends(sessions, #[trigger] all[k]) by {
        let n = all[k];
        lemma_notices_to(sessions, codes, message, k);
        let j = choose|j: int|
            0 <= j < sessions.len() && (#[trigger] sessions[j]).id == n.session && codes.contains(
                sessions[j].code,
            ) && n.message == message(sessions[j].code);
        assert forall|code: Seq<char>, i: int|
            #![trigger reveals(n, code), sessions[i]]
            reveals(n, code) && 0 <= i < sessions.len() && sessions[i].id
                == n.session implies sessions[i].code != code && model::mutual(
            sessions,
            code,
            sessions[i].code,
        ) by {
            if i < j {
                assert(sessions[i].id != sessions[j].id);
            }
            if j < i {
                assert(sessions[j].id != sessions[i].id);
            }
            assert(discloses(message(sessions[j].code), code));
        }
    }
}

/// Whether all that is said between two states is said behind what was said
/// before, and stays between friends.
pub open spec fn newly_between_friends(before: PresenceModel, after: PresenceModel) -> bool {
    &&& before.outgoing.len() <= after.outgoing.len()
    &&& forall|k: int|
        0 <= k < before.outgoing.len() ==> #[trigger] after.outgoing[k] == before.outgoing[k]
    &&& forall|k: int|
        before.outgoing.len() <= k < after.outgoing.len() ==> between_friends(
            after.sessions,
            #[trigger] after.outgoing[k],
        )
}

proof fn lemma_tell(
    before: PresenceModel,
    state: PresenceModel,
    codes: Seq<Seq<char>>,
    message: spec_fn(Seq<char>) -> PresenceServerMessageView,
)
    requires
        told_apart(state.sessions),
        newly_between_friends(before, state),
        forall|peer: Seq<char>, code: Seq<char>|
            #![trigger codes.contains(peer), discloses(message(peer), code)]
            codes.contains(peer) && discloses(message(peer), code) ==> peer != code
                && model::mutual(state.sessions, code, peer),
    ensures
        newly_between_friends(
            before,
            state.tell(model::notices_to(state.sessions, codes, message)),
        ),
{
    lemma_between_friends(state.sessions, codes, message);
    let more = model::notices_to(state.sessions, codes, message);
    let after = state.tell(more);
    assert forall|k: int| before.outgoing.len() <= k < after.outgoing.len() implies between_friends(
        after.sessions,
        #[trigger] after.outgoing[k],
    ) by {
        if k >= state.outgoing.len() {
            assert(after.outgoing[k] == more[k - state.outgoing.len()]);
        } else {
            assert(after.outgoing[k] == state.outgoing[k]);
        }
    }
    assert forall|k: int| 0 <= k < before.outgoing.len() implies #[trigger] after.outgoing[k]
        == before.outgoing[k] by {
        assert(after.outgoing[k] == state.outgoing[k]);
    }
}

proof fn lemma_tell_one(
    before: PresenceModel,
    state: PresenceModel,
    code: Seq<char>,
    message: PresenceServerMessageView,
)
    requires
        told_apart(state.sessions),
        newly_between_friends(before, state),
        forall|of: Seq<char>| #[trigger]
            discloses(message, of) ==> code != of && model::mutual(state.sessions, of, code),
    ensures
        newly_between_friends(
            before,
            state.tell(model::notices(state.sessions, code, message)),
        ),
{
    let said = |p: Seq<char>| message;
    let codes = seq![code];
    assert forall|peer: Seq<char>, of: Seq<char>|
        #![trigger codes.contains(peer), discloses(said(peer), of)]
        codes.contains(peer) && discloses(said(peer), of) implies peer != of && model::mutual(
        state.sessions,
        of,
        peer,
    ) by {
        assert(peer == codes[0]);
        assert(discloses(message, of));
    }
    lemma_tell(before, state, codes, said);
    assert(codes.drop_last() =~= Seq::empty());
    assert(model::notices_to(state.sessions, codes.drop_last(), said) =~= Seq::empty());
    assert(model::notices_to(state.sessions, codes, said) =~= model::notices(
        state.sessions,
        code,
        message,
    ));
}

proof fn lemma_tell_updates(
    before: PresenceModel,
    state: PresenceModel,
    graph: PresenceModel,
    code: Seq<char>,
    peers: Seq<Seq<char>>,
    now: int,
)
    requires
        told_apart(state.sessions),
        newly_between_friends(before, state),
        state.sessions == graph.sessions,
        !peers.contains(code),
    ensures
        newly_between_friends(before, state.tell(graph.updates_to(code, peers, now))),
{
    let said = |p: Seq<char>| graph.shown_to(code, p, now);
    assert forall|peer: Seq<char>, of: Seq<char>|
        #![trigger peers.contains(peer), discloses(said(peer), of)]
        peers.contains(peer) && discloses(said(peer), of) implies peer != of && model::mutual(
        state.sessions,
        of,
        peer,
    ) by {}
    lemma_tell(before, state, peers, said);
}

proof fn lemma_tell_requests(
    before: PresenceModel,
    state: PresenceModel,
    graph: PresenceModel,
    targets: Seq<Seq<char>>,
    now: int,
)
    requires
        told_apart(state.sessions),
        newly_between_friends(before, state),
        state.sessions == graph.sessions,
    ensures
        newly_between_friends(before, state.tell(graph.requests_to(targets, now))),
{
    lemma_tell(before, state, targets, |t: Seq<char>| graph.requests_message(t, now));
}

proof fn lemma_notify(before: PresenceModel, state: PresenceModel, codes: Seq<Seq<char>>, now: int)
    requires
        told_apart(state.sessions),
        newly_between_friends(before, state),
    ensures
        newly_between_friends(before, state.notify_all(codes, now)),
        state.notify_all(codes, now).sessions == state.sessions,
    decreases codes.len(),
{
    if codes.len() > 0 {
        lemma_notify(before, state, codes.drop_last(), now);
        lemma_notify_one(before, state.notify_all(codes.drop_last(), now), codes.last(), now);
    }
}

proof fn lemma_notify_one(before: PresenceModel, state: PresenceModel, code: Seq<char>, now: int)
    requires
        told_apart(state.sessions),
        newly_between_friends(before, state),
    ensures
        newly_between_friends(before, state.notify_watchers(code, now)),
{
    let message = PresenceServerMessageView::Update {
        server_timestamp: clock::wire_time(now),
        friend: state.presence_of(code, now),
    };
    let watchers = model::watchers_of(state.sessions, code);
    let said = |p: Seq<char>| message;
    assert forall|peer: Seq<char>, of: Seq<char>|
        #![trigger watchers.contains(peer), discloses(said(peer), of)]
        watchers.contains(peer) && discloses(said(peer), of) implies peer != of && model::mutual(
        state.sessions,
        of,
        peer,
    ) by {
        law_visibility_is_mutual(state.sessions, code, peer);
    }
    lemma_tell(before, state, watchers, said);
}

/// Presence is for friends alone: whatever a command says, snapshots included, it
/// shows an identity online or hosting only to connections of others that watch
/// it and that it watches. What was said before stays as it is, and the
/// connections stay apart.
pub proof fn law_presence_is_for_friends_alone(
    state: PresenceModel,
    command: PresenceCommand,
    now: int,
)
    requires
        told_apart(state.sessions),
    ensures
        newly_between_friends(state, state::performed(state, command, now)),
        told_apart(state::performed(state, command, now).sessions),
{
    match command {
        PresenceCommand::Connect { id, .. } => {
            seqs::lemma_first_where(state.sessions, |s: SessionModel| s.id == id);
        },
        PresenceCommand::Subscribe { id, codes } => lemma_subscribe(
            state,
            id,
            codes.deep_view(),
            now,
        ),
        PresenceCommand::Announce { id, hosting } => {
            seqs::lemma_first_where(state.sessions, |s: SessionModel| s.id == id);
            if let Some(i) = model::find_session(state.sessions, id) {
                let changed = PresenceModel {
                    sessions: state.sessions.update(
                        i,
                        SessionModel { hosting: hosting.deep_view(), ..state.sessions[i] },
                    ),
                    ..state
                };
                lemma_notify_one(state, changed, state.sessions[i].code, now);
            }
        },
        PresenceCommand::RoomUpdated { room_id, viewer_count, sharing_state } => {
            let sessions = state.sessions.map_values(
                |s: SessionModel|
                    if s.hosts(room_id@) {
                        SessionModel {
                            hosting: Some(
                                HostedRoomView { viewer_count, sharing_state, ..s.hosting->0 },
                            ),
                            ..s
                        }
                    } else {
                        s
                    },
            );
            lemma_notify(
                state,
                PresenceModel { sessions, ..state },
                state.hosts_of(room_id@),
                now,
            );
        },
        PresenceCommand::RoomClosed { room_id } => {
            let sessions = state.sessions.map_values(
                |s: SessionModel|
                    if s.hosts(room_id@) {
                        SessionModel { hosting: None, ..s }
                    } else {
                        s
                    },
            );
            lemma_notify(
                state,
                PresenceModel { sessions, ..state },
                state.hosts_of(room_id@),
                now,
            );
        },
        PresenceCommand::Disconnect { id } => lemma_disconnect(state, id, now),
        PresenceCommand::Expire => {
            let next = PresenceModel {
                standing: state.expire_requests(now).standing,
                ..state
            };
            let lapsed = state.standing.filter(
                |x: InterestModel| model::is_lapsed(state.standing, x, now),
            );
            lemma_tell_requests(
                state,
                next,
                next,
                textset::distinct(lapsed.map_values(|x: InterestModel| x.target)),
                now,
            );
        },
    }
}

proof fn lemma_subscribe(state: PresenceModel, id: u64, codes: Seq<Seq<char>>, now: int)
    requires
        told_apart(state.sessions),
    ensures
        newly_between_friends(state, state.subscribe(id, codes, now)),
        told_apart(state.subscribe(id, codes, now).sessions),
{
    seqs::lemma_first_where(state.sessions, |s: SessionModel| s.id == id);
    if let Some(i) = model::find_session(state.sessions, id) {
        let code = state.sessions[i].code;
        let before = model::watchers_of(state.sessions, code);
        let next = state.resubscribed(i, codes, now);
        let after = model::watchers_of(next.sessions, code);
        let wanted = model::wanted_by(next.sessions, code);
        let snapshot = PresenceServerMessageView::Snapshot {
            server_timestamp: clock::wire_time(now),
            friends: next.friends(after, now),
        };
        assert(told_apart(next.sessions));
        assert forall|of: Seq<char>| #[trigger] discloses(snapshot, of) implies code != of
            && model::mutual(next.sessions, of, code) by {
            let friends = next.friends(after, now);
            let j = choose|j: int| 0 <= j < friends.len() && shows(#[trigger] friends[j], of);
            assert(friends[j].code == after[j]);
            assert(after.contains(of));
            law_visibility_is_mutual(next.sessions, code, of);
        }
        lemma_tell_one(state, next, code, snapshot);
        let first = next.tell(model::notices(next.sessions, code, snapshot));
        lemma_tell_one(state, first, code, next.requests_message(code, now));
        let second = first.tell(
            model::notices(next.sessions, code, next.requests_message(code, now)),
        );
        let peers = textset::with_all(after, before);
        lemma_with_all_members(after, before, code);
        law_visibility_is_mutual(next.sessions, code, code);
        law_visibility_is_mutual(state.sessions, code, code);
        lemma_tell_updates(state, second, next, code, peers, now);
        let third = second.tell(next.updates_to(code, peers, now));
        lemma_tell_requests(
            state,
            third,
            next,
            model::touched(state.standing, code, wanted),
            now,
        );
    }
}

proof fn lemma_disconnect(state: PresenceModel, id: u64, now: int)
    requires
        told_apart(state.sessions),
    ensures
        newly_between_friends(state, state.disconnect(id, now)),
        told_apart(state.disconnect(id, now).sessions),
{
    seqs::lemma_first_where(state.sessions, |s: SessionModel| s.id == id);
    if let Some(i) = model::find_session(state.sessions, id) {
        let code = state.sessions[i].code;
        let next = state.dropped(i, now);
        assert forall|a: int, b: int| 0 <= a < b < next.sessions.len() implies (
        #[trigger] next.sessions[a]).id != (#[trigger] next.sessions[b]).id by {
            let c = if a < i { a } else { a + 1 };
            let d = if b < i { b } else { b + 1 };
            assert(next.sessions[a] == state.sessions[c] && next.sessions[b] == state.sessions[d]);
        }
        let gone = |p: Seq<char>| p != code && model::subscribes(next.sessions, p, code);
        let lost = state.sessions[i].subscriptions.filter(gone);
        let watchers = model::watchers_of(next.sessions, code);
        let peers = textset::with_all(watchers, lost);
        seqs::lemma_filter_members(state.sessions[i].subscriptions, gone);
        lemma_with_all_members(watchers, lost, code);
        law_visibility_is_mutual(next.sessions, code, code);
        assert(!lost.contains(code));
        lemma_tell_updates(state, next, next, code, peers, now);
    }
}

/// The presence graph with nobody in it.
pub open spec fn nobody() -> PresenceModel {
    PresenceModel {
        sessions: Seq::empty(),
        last_seen: Seq::empty(),
        standing: Seq::empty(),
        outgoing: Seq::empty(),
    }
}

/// What a run of commands, each with its time, makes of an empty graph.
pub open spec fn reached(calls: Seq<(PresenceCommand, int)>) -> PresenceModel
    decreases calls.len(),
{
    if calls.len() == 0 {
        nobody()
    } else {
        state::performed(reached(calls.drop_last()), calls.last().0, calls.last().1)
    }
}

/// Whatever was done since the graph was empty, the next command shows presence to
/// friends alone.
pub proof fn law_presence_is_for_friends_in_every_run(
    calls: Seq<(PresenceCommand, int)>,
    command: PresenceCommand,
    now: int,
)
    ensures
        newly_between_friends(reached(calls), state::performed(reached(calls), command, now)),
{
    lemma_reached(calls);
    law_presence_is_for_friends_alone(reached(calls), command, now);
}

proof fn lemma_reached(calls: Seq<(PresenceCommand, int)>)
    ensures
        told_apart(reached(calls).sessions),
    decreases calls.len(),
{
    if calls.len() > 0 {
        let init = calls.drop_last();
        lemma_reached(init);
        law_presence_is_for_friends_alone(reached(init), calls.last().0, calls.last().1);
    }
}

} // verus!
