//! What the window shows of a room, told by what happened in it.
use vstd::prelude::*;

use super::hosting;
use super::hosting::{
    ChatMessageView, HostingEventView, HostingModel, JoinRequestView, ViewerCardView,
    ViewerEntryView,
};
use super::moments;
use super::moments::{Moment, RoomCountdown};
use super::watching;
use super::watching::{StreamStatsView, WatchingEventView, WatchingModel};
use crate::client::presenter::types::{
    ConnectionState, PresenterEnd, PresenterErrorView, PresenterUpdateView,
};
use crate::client::signaling::SignalingState;
use crate::client::viewer::types::{EndReason, ViewerPhase, ViewerUpdateView};
use crate::protocol::SharingState;
use crate::seqs;
use crate::text;

verus! {

/// A viewer is listed with this card.
pub open spec fn has_card(
    viewers: Seq<ViewerEntryView>,
    peer_id: Seq<char>,
    card: ViewerCardView,
) -> bool {
    viewers.contains(ViewerEntryView { peer_id, card })
}

/// A viewer is listed.
pub open spec fn is_listed(viewers: Seq<ViewerEntryView>, peer_id: Seq<char>) -> bool {
    exists|card: ViewerCardView| #[trigger] has_card(viewers, peer_id, card)
}

/// All but one viewer are listed as before.
pub open spec fn others_stay(
    before: Seq<ViewerEntryView>,
    after: Seq<ViewerEntryView>,
    peer_id: Seq<char>,
) -> bool {
    forall|of: Seq<char>, card: ViewerCardView|
        of != peer_id ==> (#[trigger] has_card(after, of, card) <==> has_card(before, of, card))
}

/// No viewer is listed twice.
pub open spec fn each_once(viewers: Seq<ViewerEntryView>) -> bool {
    forall|i: int, j: int|
        0 <= i < viewers.len() && 0 <= j < viewers.len() && (#[trigger] viewers[i]).peer_id == (
        #[trigger] viewers[j]).peer_id ==> i == j
}

/// A listed viewer has one card, and it is the one that is looked up.
proof fn lemma_card_of(viewers: Seq<ViewerEntryView>, peer_id: Seq<char>)
    requires
        each_once(viewers),
    ensures
        forall|card: ViewerCardView| #[trigger]
            has_card(viewers, peer_id, card) ==> hosting::card_of(viewers, peer_id) == card,
        !is_listed(viewers, peer_id) ==> hosting::card_of(viewers, peer_id)
            == hosting::blank_card(),
{
    seqs::lemma_first_where(viewers, hosting::of_peer(peer_id));
    match seqs::first_where(viewers, hosting::of_peer(peer_id)) {
        Some(i) => {
            assert(viewers[i] == (ViewerEntryView { peer_id, card: viewers[i].card }));
            assert(has_card(viewers, peer_id, viewers[i].card));
            assert forall|card: ViewerCardView| #[trigger] has_card(viewers, peer_id, card) implies
                hosting::card_of(viewers, peer_id) == card by {
                let k = choose|k: int|
                    0 <= k < viewers.len() && viewers[k] == (ViewerEntryView { peer_id, card });
                assert(viewers[k].peer_id == viewers[i].peer_id);
            }
        },
        None => {
            assert forall|card: ViewerCardView| !#[trigger] has_card(viewers, peer_id, card) by {
                if has_card(viewers, peer_id, card) {
                    let k = choose|k: int|
                        0 <= k < viewers.len() && viewers[k] == (ViewerEntryView { peer_id, card });
                    assert(hosting::of_peer(peer_id)(viewers[k]));
                }
            }
        },
    }
}

/// Giving a viewer a card lists it with that card alone.
proof fn lemma_with_card(viewers: Seq<ViewerEntryView>, peer_id: Seq<char>, card: ViewerCardView)
    requires
        each_once(viewers),
    ensures
        each_once(hosting::with_card(viewers, peer_id, card)),
        forall|other: ViewerCardView| #[trigger]
            has_card(hosting::with_card(viewers, peer_id, card), peer_id, other) <==> other == card,
        others_stay(viewers, hosting::with_card(viewers, peer_id, card), peer_id),
{
    let after = hosting::with_card(viewers, peer_id, card);
    seqs::lemma_first_where(viewers, hosting::of_peer(peer_id));
    let given = ViewerEntryView { peer_id, card };
    let at: int = match seqs::first_where(viewers, hosting::of_peer(peer_id)) {
        Some(i) => i,
        None => viewers.len() as int,
    };
    assert(after[at] == given);
    assert forall|k: int| 0 <= k < viewers.len() && k != at implies viewers[k].peer_id
        != peer_id by {
        if seqs::first_where(viewers, hosting::of_peer(peer_id)) is None {
            assert(!hosting::of_peer(peer_id)(viewers[k]));
        } else {
            assert(hosting::of_peer(peer_id)(viewers[at]));
        }
    }
    assert forall|other: ViewerCardView| #[trigger] has_card(after, peer_id, other) <==> other
        == card by {
        if has_card(after, peer_id, other) {
            let k = choose|k: int|
                0 <= k < after.len() && after[k] == (ViewerEntryView { peer_id, card: other });
            if k != at {
                assert(viewers[k].peer_id != peer_id);
            }
        }
    }
    assert forall|of: Seq<char>, other: ViewerCardView| of != peer_id implies (#[trigger] has_card(
        after,
        of,
        other,
    ) <==> has_card(viewers, of, other)) by {
        let entry = ViewerEntryView { peer_id: of, card: other };
        if has_card(after, of, other) {
            let k = choose|k: int| 0 <= k < after.len() && after[k] == entry;
            assert(k != at);
            assert(viewers[k] == entry);
        }
        if has_card(viewers, of, other) {
            let k = choose|k: int| 0 <= k < viewers.len() && viewers[k] == entry;
            if k == at {
                assert(hosting::of_peer(peer_id)(viewers[at]));
            }
            assert(after[k] == entry);
        }
    }
}

/// A viewer that joined is listed as connected, under the name it gave or as a
/// guest, with what was measured of it before; it waits no longer, and nothing
/// else changes.
pub proof fn law_joined_viewers_are_listed(
    m: HostingModel,
    peer_id: Seq<char>,
    name: Option<Seq<char>>,
    now: Moment,
)
    requires
        each_once(m.viewers),
    ensures
        ({
            let after = m.applied(HostingEventView::ViewerJoined { peer_id, name }, now);
            &&& is_listed(after.viewers, peer_id)
            &&& forall|card: ViewerCardView| #[trigger]
                has_card(after.viewers, peer_id, card) ==> card.connected && card.name == (
                match name {
                    Some(given) => given,
                    None => "Guest"@,
                })
            &&& forall|old_card: ViewerCardView, card: ViewerCardView|
                #![trigger has_card(m.viewers, peer_id, old_card), has_card(after.viewers, peer_id, card)]
                has_card(m.viewers, peer_id, old_card) && has_card(after.viewers, peer_id, card)
                    ==> (ViewerCardView { name: old_card.name, connected: old_card.connected, ..card })
                    == old_card
            &&& !is_listed(m.viewers, peer_id) ==> forall|card: ViewerCardView| #[trigger]
                has_card(after.viewers, peer_id, card) ==> card.bitrate_kbps is None
                    && card.round_trip_us is None && card.packets_lost is None
                    && card.packets_sent is None && card.codec is None && card.target_kbps == 0
            &&& others_stay(m.viewers, after.viewers, peer_id)
            &&& forall|request: JoinRequestView| #[trigger]
                after.requests.contains(request) <==> m.requests.contains(request)
                    && request.peer_id != peer_id
            &&& after == (HostingModel {
                viewers: after.viewers,
                requests: after.requests,
                ..m
            })
        }),
{
    let after = m.applied(HostingEventView::ViewerJoined { peer_id, name }, now);
    let known = hosting::card_of(m.viewers, peer_id);
    let card = ViewerCardView {
        name: match name {
            Some(given) => given,
            None => "Guest"@,
        },
        connected: true,
        ..known
    };
    lemma_card_of(m.viewers, peer_id);
    lemma_with_card(m.viewers, peer_id, card);
    assert(has_card(after.viewers, peer_id, card));
    seqs::lemma_filter_members(m.requests, |request: JoinRequestView| request.peer_id != peer_id);
}

/// A viewer that left is neither listed nor waiting; the others stay.
pub proof fn law_viewers_that_leave_are_unlisted(m: HostingModel, peer_id: Seq<char>, now: Moment)
    ensures
        ({
            let after = m.applied(HostingEventView::ViewerLeft { peer_id }, now);
            &&& !is_listed(after.viewers, peer_id)
            &&& others_stay(m.viewers, after.viewers, peer_id)
            &&& forall|request: JoinRequestView| #[trigger]
                after.requests.contains(request) <==> m.requests.contains(request)
                    && request.peer_id != peer_id
            &&& after == (HostingModel {
                viewers: after.viewers,
                requests: after.requests,
                ..m
            })
        }),
{
    seqs::lemma_filter_members(m.requests, |request: JoinRequestView| request.peer_id != peer_id);
    seqs::lemma_filter_members(m.viewers, |entry: ViewerEntryView| entry.peer_id != peer_id);
}

/// A viewer whose connection changes is listed as connected or not, and
/// otherwise as before.
pub proof fn law_connections_are_marked(
    m: HostingModel,
    peer_id: Seq<char>,
    connected: bool,
    now: Moment,
)
    requires
        each_once(m.viewers),
    ensures
        ({
            let after = m.applied(HostingEventView::ViewerConnection { peer_id, connected }, now);
            &&& is_listed(after.viewers, peer_id)
            &&& forall|card: ViewerCardView| #[trigger]
                has_card(after.viewers, peer_id, card) ==> card.connected == connected
            &&& forall|old_card: ViewerCardView, card: ViewerCardView|
                #![trigger has_card(m.viewers, peer_id, old_card), has_card(after.viewers, peer_id, card)]
                has_card(m.viewers, peer_id, old_card) && has_card(after.viewers, peer_id, card)
                    ==> (ViewerCardView { connected: old_card.connected, ..card }) == old_card
            &&& others_stay(m.viewers, after.viewers, peer_id)
            &&& after == (HostingModel { viewers: after.viewers, ..m })
        }),
{
    let after = m.applied(HostingEventView::ViewerConnection { peer_id, connected }, now);
    let card = ViewerCardView { connected, ..hosting::card_of(m.viewers, peer_id) };
    lemma_card_of(m.viewers, peer_id);
    lemma_with_card(m.viewers, peer_id, card);
    assert(has_card(after.viewers, peer_id, card));
}

/// Measurements replace those of a viewer, and keep its name and whether it is
/// connected; one without a name is a guest. The history grows by a sample.
pub proof fn law_measurements_are_shown(
    m: HostingModel,
    peer_id: Seq<char>,
    stats: ViewerCardView,
    now: Moment,
)
    requires
        each_once(m.viewers),
    ensures
        ({
            let after = m.applied(HostingEventView::ViewerStats(peer_id, stats), now);
            &&& is_listed(after.viewers, peer_id)
            &&& forall|card: ViewerCardView| #[trigger]
                has_card(after.viewers, peer_id, card) ==> (ViewerCardView {
                    name: stats.name,
                    connected: stats.connected,
                    ..card
                }) == stats && card.name.len() > 0
            &&& forall|old_card: ViewerCardView, card: ViewerCardView|
                #![trigger has_card(m.viewers, peer_id, old_card), has_card(after.viewers, peer_id, card)]
                has_card(m.viewers, peer_id, old_card) && has_card(after.viewers, peer_id, card)
                    ==> card.connected == old_card.connected && (old_card.name.len() > 0
                    ==> card.name == old_card.name) && (old_card.name.len() == 0 ==> card.name
                    == "Guest"@)
            &&& !is_listed(m.viewers, peer_id) ==> forall|card: ViewerCardView| #[trigger]
                has_card(after.viewers, peer_id, card) ==> card.name == "Guest"@
                    && !card.connected
            &&& others_stay(m.viewers, after.viewers, peer_id)
            &&& after == (HostingModel {
                viewers: after.viewers,
                bitrate_history: after.bitrate_history,
                ..m
            })
            &&& after.bitrate_history.len() > 0
            &&& after.bitrate_history.last().1 == least(all_kbps(after.viewers), u32::MAX as nat)
        }),
{
    reveal_strlit("Guest");
    let after = m.applied(HostingEventView::ViewerStats(peer_id, stats), now);
    let known = hosting::card_of(m.viewers, peer_id);
    let card = ViewerCardView {
        name: if known.name.len() == 0 {
            "Guest"@
        } else {
            known.name
        },
        connected: known.connected,
        ..stats
    };
    lemma_card_of(m.viewers, peer_id);
    lemma_with_card(m.viewers, peer_id, card);
    assert(has_card(after.viewers, peer_id, card));
    lemma_all_kbps(after.viewers);
    lemma_newest_sample(m.bitrate_history, now, hosting::sample_of(hosting::total_kbps(after.viewers)));
}

/// The lesser of two numbers.
pub open spec fn least(a: nat, b: nat) -> nat {
    if a <= b {
        a
    } else {
        b
    }
}

/// The rates of the viewers, added up from the first on; one that is not known
/// counts for nothing.
pub open spec fn all_kbps(viewers: Seq<ViewerEntryView>) -> nat
    decreases viewers.len(),
{
    if viewers.len() == 0 {
        0
    } else {
        all_kbps(viewers.skip(1)) + match viewers[0].card.bitrate_kbps {
            Some(kbps) => kbps as nat,
            None => 0,
        }
    }
}

proof fn lemma_all_kbps(viewers: Seq<ViewerEntryView>)
    ensures
        hosting::total_kbps(viewers) == all_kbps(viewers),
    decreases viewers.len(),
{
    if viewers.len() > 1 {
        let init = viewers.drop_last();
        let rest = viewers.skip(1);
        lemma_all_kbps(init);
        lemma_all_kbps(rest);
        lemma_all_kbps(init.skip(1));
        assert(init.skip(1) =~= rest.drop_last());
        assert(hosting::total_kbps(rest) == hosting::total_kbps(rest.drop_last()) + match rest.last().card.bitrate_kbps {
            Some(kbps) => kbps as nat,
            None => 0,
        });
        assert(all_kbps(init) == all_kbps(init.skip(1)) + match init[0].card.bitrate_kbps {
            Some(kbps) => kbps as nat,
            None => 0,
        });
        assert(rest.last() == viewers.last());
        assert(init[0] == viewers[0]);
    } else if viewers.len() == 1 {
        assert(viewers.drop_last() =~= viewers.skip(1));
        lemma_all_kbps(viewers.skip(1));
    }
}

/// The newest sample is what was recorded.
proof fn lemma_newest_sample(samples: Seq<(Moment, u32)>, at: Moment, kbps: u32)
    ensures
        moments::recorded(samples, at, kbps).len() > 0,
        moments::recorded(samples, at, kbps).last().1 == kbps,
{
    let noted = moments::noted(samples, at, kbps);
    assert(noted.len() > 0 && noted.last().1 == kbps);
    assert(moments::elapsed(noted.last().0, at) <= moments::WINDOW);
    lemma_recent_keeps_last(noted, at);
}

proof fn lemma_recent_keeps_last(samples: Seq<(Moment, u32)>, at: Moment)
    requires
        samples.len() > 0,
        moments::elapsed(samples.last().0, at) <= moments::WINDOW,
    ensures
        moments::recent(samples, at).len() > 0,
        moments::recent(samples, at).last() == samples.last(),
    decreases samples.len(),
{
    if moments::elapsed(samples[0].0, at) > moments::WINDOW {
        assert(samples.len() > 1);
        assert(samples.skip(1).last() == samples.last());
        lemma_recent_keeps_last(samples.skip(1), at);
    }
}

/// A viewer that asks waits behind the others, once.
pub proof fn law_requests_queue_up(m: HostingModel, request: JoinRequestView, now: Moment)
    ensures
        ({
            let after = m.applied(HostingEventView::JoinRequested(request), now);
            &&& hosting::waits(m.requests, request.peer_id) ==> after == m
            &&& !hosting::waits(m.requests, request.peer_id) ==> after.requests.len()
                == m.requests.len() + 1 && after.requests.last() == request
                && after.requests.drop_last() == m.requests
            &&& after == (HostingModel { requests: after.requests, ..m })
        }),
{
    let after = m.applied(HostingEventView::JoinRequested(request), now);
    if !hosting::waits(m.requests, request.peer_id) {
        assert(after.requests.drop_last() =~= m.requests);
    }
}

/// What is told of the hosted room is shown as it was told, and touches
/// nothing else.
pub proof fn law_news_of_the_hosted_room_are_shown(
    m: HostingModel,
    told: Seq<char>,
    sharing: SharingState,
    seconds: u64,
    flag: bool,
    now: Moment,
)
    ensures
        m.applied(HostingEventView::Status(told), now) == (HostingModel { status: told, ..m }),
        m.applied(HostingEventView::ShareFailed(told), now) == (HostingModel { status: told, ..m }),
        m.applied(HostingEventView::Reconnecting(flag), now) == (HostingModel {
            reconnecting: flag,
            ..m
        }),
        ({
            let after = m.applied(HostingEventView::Sharing(sharing), now);
            &&& after == (HostingModel { sharing, status: after.status, ..m })
            &&& sharing is Idle ==> after.status == "Room open — not sharing"@
            &&& sharing is Live ==> after.status == "Sharing your screen"@
            &&& sharing is Paused ==> after.status == "Sharing paused"@
        }),
        ({
            let after = m.applied(HostingEventView::Expiry(seconds), now);
            &&& after == (HostingModel { countdown: after.countdown, ..m })
            &&& after.countdown is Some
            &&& after.countdown->0.left(now) == seconds
        }),
        ({
            let after = m.applied(HostingEventView::Ended(told), now);
            &&& after.ended && after.sharing is Idle && after.status == told
            &&& after == (HostingModel {
                ended: after.ended,
                sharing: after.sharing,
                status: after.status,
                ..m
            })
        }),
{
}

/// A room that opened is shown as open, with its identifier, link and secret.
pub proof fn law_opened_rooms_are_shown(
    m: HostingModel,
    room_id: Seq<char>,
    viewer_url: Seq<char>,
    presenter_secret: Seq<char>,
    now: Moment,
)
    ensures
        ({
            let after = m.applied(
                HostingEventView::Opened { room_id, viewer_url, presenter_secret },
                now,
            );
            &&& after.open && after.status == "Room open"@
            &&& after.room_id == Some(room_id)
            &&& after.viewer_url == Some(viewer_url)
            &&& after.presenter_secret == Some(presenter_secret)
            &&& after == (HostingModel {
                open: after.open,
                status: after.status,
                room_id: after.room_id,
                viewer_url: after.viewer_url,
                presenter_secret: after.presenter_secret,
                ..m
            })
        }),
{
}

/// What others say in the hosted room is shown last, under their name.
pub proof fn law_hosted_chat_is_shown(
    m: HostingModel,
    sender: Seq<char>,
    said: Seq<char>,
    now: Moment,
)
    ensures
        ({
            let after = m.applied(HostingEventView::Chat { sender, text: said }, now);
            &&& after == (HostingModel { messages: after.messages, ..m })
            &&& after.messages.drop_last() == m.messages
            &&& after.messages.last() == (ChatMessageView { from: sender, text: said, own: false })
        }),
{
    let after = m.applied(HostingEventView::Chat { sender, text: said }, now);
    assert(after.messages.drop_last() =~= m.messages);
}

/// What the session of the host reports is what the window is told.
pub proof fn law_host_reports_are_told(
    peer_id: Seq<char>,
    name: Option<Seq<char>>,
    code: Option<Seq<char>>,
    said: Seq<char>,
    sharing: SharingState,
    seconds: u64,
    signaling: SignalingState,
    connection: ConnectionState,
)
    ensures
        hosting::event_of(PresenterUpdateView::SharingState { state: sharing })
            == HostingEventView::Sharing(sharing),
        hosting::event_of(PresenterUpdateView::RoomExpiry { expires_in_seconds: seconds })
            == HostingEventView::Expiry(seconds),
        hosting::event_of(PresenterUpdateView::Signaling { state: signaling })
            == HostingEventView::Reconnecting(signaling is Reconnecting),
        hosting::event_of(
            PresenterUpdateView::JoinRequested { peer_id, display_name: name, friend_code: code },
        ) matches HostingEventView::JoinRequested(request) && request.peer_id == peer_id
            && request.name == name && request.friend_code == code,
        hosting::event_of(PresenterUpdateView::ViewerJoined { peer_id, display_name: name }) == (
        HostingEventView::ViewerJoined { peer_id, name }),
        hosting::event_of(PresenterUpdateView::ViewerLeft { peer_id }) == (
        HostingEventView::ViewerLeft { peer_id }),
        hosting::event_of(PresenterUpdateView::ViewerConnection { peer_id, state: connection }) == (
        HostingEventView::ViewerConnection { peer_id, connected: connection is Connected }),
        hosting::event_of(
            PresenterUpdateView::Chat { peer_id, sender: name->0, text: said },
        ) == (HostingEventView::Chat { sender: name->0, text: said }),
        hosting::event_of(PresenterUpdateView::ShareFailed { message: said })
            == HostingEventView::ShareFailed("Sharing failed: "@ + said),
{
}

/// What is told of the watched room is shown as it was told, and touches
/// nothing else.
pub proof fn law_news_of_the_watched_room_are_shown(
    m: WatchingModel,
    told: Seq<char>,
    sharing: SharingState,
    seconds: u64,
    flag: bool,
    now: Moment,
)
    ensures
        m.applied(WatchingEventView::Status(told), now) == (WatchingModel { status: told, ..m }),
        m.applied(WatchingEventView::Sharing(sharing), now) == (WatchingModel {
            sharing: Some(sharing),
            ..m
        }),
        m.applied(WatchingEventView::PresenterConnected(flag), now) == (WatchingModel {
            presenter_connected: flag,
            ..m
        }),
        m.applied(WatchingEventView::Reconnecting(flag), now) == (WatchingModel {
            reconnecting: flag,
            ..m
        }),
        m.applied(WatchingEventView::NativeSurface, now) == (WatchingModel {
            native_video: true,
            ..m
        }),
        ({
            let after = m.applied(WatchingEventView::Live, now);
            &&& after.live && !after.reconnecting && after.status == "Live"@
            &&& after == (WatchingModel {
                live: after.live,
                reconnecting: after.reconnecting,
                status: after.status,
                ..m
            })
        }),
        ({
            let after = m.applied(WatchingEventView::Expiry(seconds), now);
            &&& after == (WatchingModel { countdown: after.countdown, ..m })
            &&& after.countdown is Some
            &&& after.countdown->0.left(now) == seconds
        }),
        ({
            let after = m.applied(WatchingEventView::Ended(told), now);
            &&& !after.live && !after.reconnecting && after.status == told
            &&& after == (WatchingModel {
                live: after.live,
                reconnecting: after.reconnecting,
                status: after.status,
                ..m
            })
        }),
{
}

/// Video shows exactly while the stream is connected and the share is not
/// known to be idle or paused.
pub proof fn law_video_shows_while_shared(m: WatchingModel)
    ensures
        m.showing_video() <==> m.live && m.sharing != Some(SharingState::Idle) && m.sharing != Some(
            SharingState::Paused,
        ),
{
    match m.sharing {
        Some(sharing) => {
            assert(sharing is Idle || sharing is Paused || sharing is Live);
        },
        None => {},
    }
}

/// What others say in the watched room is shown last, under their name.
pub proof fn law_watched_chat_is_shown(
    m: WatchingModel,
    sender: Seq<char>,
    said: Seq<char>,
    now: Moment,
)
    ensures
        ({
            let after = m.applied(WatchingEventView::Chat { sender, text: said }, now);
            &&& after == (WatchingModel { messages: after.messages, ..m })
            &&& after.messages.drop_last() == m.messages
            &&& after.messages.last() == (ChatMessageView { from: sender, text: said, own: false })
        }),
{
    let after = m.applied(WatchingEventView::Chat { sender, text: said }, now);
    assert(after.messages.drop_last() =~= m.messages);
}

/// Measurements of the stream are shown, its rate joins the history, and its
/// size is taken over where both sides are known and not nothing.
pub proof fn law_stream_measurements_are_shown(m: WatchingModel, stats: StreamStatsView, now: Moment)
    ensures
        ({
            let after = m.applied(WatchingEventView::Stats(stats), now);
            &&& after.bitrate_kbps == stats.bitrate_kbps
            &&& after.round_trip_us == stats.round_trip_us
            &&& after.packets_lost == stats.packets_lost
            &&& after.packets_received == stats.packets_received
            &&& after.milli_fps == stats.milli_fps
            &&& after.codec == stats.codec
            &&& after.bitrate_history.len() > 0
            &&& stats.bitrate_kbps is Some ==> Some(after.bitrate_history.last().1)
                == stats.bitrate_kbps
            &&& stats.bitrate_kbps is None ==> after.bitrate_history.last().1 == 0
            &&& stats.width is Some && stats.height is Some && stats.width->0 > 0 && stats.height->0
                > 0 ==> after.frame_size == Some((stats.width->0, stats.height->0))
            &&& stats.width is None || stats.height is None || stats.width == Some(0u32)
                || stats.height == Some(0u32) ==> after.frame_size == m.frame_size
            &&& after == (WatchingModel {
                bitrate_kbps: after.bitrate_kbps,
                round_trip_us: after.round_trip_us,
                packets_lost: after.packets_lost,
                packets_received: after.packets_received,
                milli_fps: after.milli_fps,
                codec: after.codec,
                bitrate_history: after.bitrate_history,
                frame_size: after.frame_size,
                ..m
            })
        }),
{
    lemma_newest_sample(
        m.bitrate_history,
        now,
        match stats.bitrate_kbps {
            Some(kbps) => kbps,
            None => 0,
        },
    );
}

/// What the session of a viewer reports is what the window is told; of the
/// signaling only that it is being made again.
pub proof fn law_viewer_reports_are_told(
    sender: Seq<char>,
    said: Seq<char>,
    sharing: SharingState,
    seconds: u64,
    flag: bool,
    signaling: SignalingState,
    connection: ConnectionState,
    phase: ViewerPhase,
)
    ensures
        watching::event_of(ViewerUpdateView::SharingState { state: sharing }) == Some(
            WatchingEventView::Sharing(sharing),
        ),
        watching::event_of(ViewerUpdateView::RoomExpiry { expires_in_seconds: seconds }) == Some(
            WatchingEventView::Expiry(seconds),
        ),
        watching::event_of(ViewerUpdateView::Chat { sender, text: said }) == Some(
            WatchingEventView::Chat { sender, text: said },
        ),
        watching::event_of(ViewerUpdateView::PresenterConnected { connected: flag }) == Some(
            WatchingEventView::PresenterConnected(flag),
        ),
        watching::event_of(ViewerUpdateView::Connection { state: connection }) == Some(
            WatchingEventView::Reconnecting(
                connection is Disconnected || connection is Failed,
            ),
        ),
        signaling is Reconnecting ==> watching::event_of(
            ViewerUpdateView::Signaling { state: signaling },
        ) == Some(WatchingEventView::Status("Reconnecting to the room…"@)),
        !(signaling is Reconnecting) ==> watching::event_of(
            ViewerUpdateView::Signaling { state: signaling },
        ) is None,
        phase is Live <==> watching::event_of(ViewerUpdateView::Phase { phase }) == Some(
            WatchingEventView::Live,
        ),
        phase is Connecting ==> watching::event_of(ViewerUpdateView::Phase { phase }) == Some(
            WatchingEventView::Status("Connecting…"@),
        ),
        phase is AwaitingApproval ==> watching::event_of(ViewerUpdateView::Phase { phase })
            == Some(WatchingEventView::Status("Waiting to be let in…"@)),
        phase is Negotiating ==> watching::event_of(ViewerUpdateView::Phase { phase }) == Some(
            WatchingEventView::Status("Connecting to the stream…"@),
        ),
{
}

/// Sessions end with words that differ from reason to reason.
pub proof fn law_endings_tell_the_reason(reason: EndReason, message: Seq<char>)
    ensures
        reason is RoomClosed ==> watching::end_text(reason) == "The presenter closed the room."@,
        reason is RoomExpired ==> watching::end_text(reason) == "The room expired."@,
        reason is Rejected ==> watching::end_text(reason) == "The presenter didn't let you in."@,
        reason is Kicked ==> watching::end_text(reason) == "You were removed from the room."@,
        reason is Left ==> watching::end_text(reason) == "You left the room."@,
        hosting::ending(Ok(PresenterEnd::RoomClosed)) == "The room was closed."@,
        hosting::ending(Ok(PresenterEnd::RoomExpired)) == "The room expired."@,
        hosting::ending(Ok(PresenterEnd::Left)) == "You left the room."@,
        hosting::ending(Err(PresenterErrorView::Broadcast { reason: message }))
            == "The room ended: "@ + ("the broadcast failed: "@ + message),
        hosting::ending(Err(PresenterErrorView::BroadcastStart { message }))
            == "The room ended: "@ + ("the broadcast could not start: "@ + message),
        hosting::ending(Err(PresenterErrorView::AuthenticationFailed { message }))
            == "The room ended: "@ + ("the room did not accept the presenter secret: "@ + message),
{
}

/// A countdown starts at what was told, falls by one with every second that
/// passes, and stays at nothing.
pub proof fn law_countdowns_fall_with_time(countdown: RoomCountdown, seconds: u64)
    ensures
        countdown.left(countdown.at) == countdown.seconds,
        forall|now: Moment|
            now <= countdown.at ==> #[trigger] countdown.left(now) == countdown.seconds,
        forall|now: Moment|
            now == countdown.at + seconds * 1_000_000_000 ==> #[trigger] countdown.left(now) == if seconds
                <= countdown.seconds {
                countdown.seconds - seconds
            } else {
                0
            },
        forall|now: Moment, later: Moment|
            now <= later ==> #[trigger] countdown.left(later) <= #[trigger] countdown.left(now),
{
}

/// Under an hour a countdown tells its minutes, from an hour on its hours and
/// the minutes beyond them.
pub proof fn law_countdowns_are_told_in_minutes(
    countdown: RoomCountdown,
    hours: nat,
    minutes: nat,
    now: Moment,
)
    requires
        minutes < 60,
        hours * 60 + minutes == countdown.left(now) / 60,
    ensures
        hours == 0 ==> countdown.text(now) == text::decimal(minutes) + "m left"@,
        hours > 0 ==> countdown.text(now) == text::decimal(hours) + "h "@ + text::two_digits(
            minutes,
        ) + "m left"@,
{
    assert((hours * 60 + minutes) / 60 == hours && (hours * 60 + minutes) % 60 == minutes)
        by (nonlinear_arith)
        requires
            minutes < 60,
    ;
}

/// A sample within half a second of the newest replaces its rate, a later one
/// is added; what is older than a minute is dropped from the front, and
/// nothing else.
pub proof fn law_samples_are_spaced_and_recent(
    samples: Seq<(Moment, u32)>,
    at: Moment,
    kbps: u32,
)
    ensures
        ({
            let noted = moments::noted(samples, at, kbps);
            let kept = moments::recorded(samples, at, kbps);
            &&& samples.len() > 0 && at < samples.last().0 + 500_000_000 ==> noted.len()
                == samples.len() && noted.last() == (samples.last().0, kbps) && noted.drop_last()
                == samples.drop_last()
            &&& samples.len() == 0 || at >= samples.last().0 + 500_000_000 ==> noted.last() == (
                at,
                kbps,
            ) && noted.drop_last() == samples
            &&& kept.len() <= noted.len()
            &&& kept == noted.skip(noted.len() - kept.len())
            &&& kept.len() > 0 ==> at <= kept[0].0 + 60_000_000_000
            &&& forall|i: int|
                0 <= i < noted.len() - kept.len() ==> at > (#[trigger] noted[i]).0 + 60_000_000_000
        }),
{
    let noted = moments::noted(samples, at, kbps);
    if samples.len() > 0 && at < samples.last().0 + 500_000_000 {
        assert(noted.drop_last() =~= samples.drop_last());
    } else {
        assert(noted.drop_last() =~= samples);
    }
    lemma_recent(noted, at);
}

proof fn lemma_recent(samples: Seq<(Moment, u32)>, at: Moment)
    ensures
        ({
            let kept = moments::recent(samples, at);
            &&& kept.len() <= samples.len()
            &&& kept == samples.skip(samples.len() - kept.len())
            &&& kept.len() > 0 ==> at <= kept[0].0 + 60_000_000_000
            &&& forall|i: int|
                0 <= i < samples.len() - kept.len() ==> at > (#[trigger] samples[i]).0
                    + 60_000_000_000
        }),
    decreases samples.len(),
{
    let kept = moments::recent(samples, at);
    if samples.len() > 0 && moments::elapsed(samples[0].0, at) > moments::WINDOW {
        let rest = samples.skip(1);
        lemma_recent(rest, at);
        assert(kept =~= samples.skip(samples.len() - kept.len()));
        assert forall|i: int| 0 <= i < samples.len() - kept.len() implies at > (
        #[trigger] samples[i]).0 + 60_000_000_000 by {
            if i > 0 {
                assert(rest[i - 1] == samples[i]);
            }
        }
    } else {
        assert(kept =~= samples.skip(0));
    }
}

} // verus!
