//! What the lists, labels and settings of the window say.
use vstd::prelude::*;

use super::friends;
use super::friends::{ContactView, FriendStatusView, FriendsModel, LiveRowView};
use super::hosting::HostingModel;
use super::labels;
use super::labels::WatchStageView;
use super::moments::{Moment, RoomCountdown};
use super::palette;
use super::palette::{PaletteActionView, PaletteEntryView};
use super::report;
use super::settings;
use super::settings::{CaptureProfile, PresenterConfigView, RoomAccess, RoomExpiry, SettingsView};
use super::watching::WatchingModel;
use crate::client::cli::VideoCodecId;
use crate::client::presence::{PresenceEventView, PresenceState};
use crate::clock;
use crate::protocol::{FriendPresenceView, RoomAccessPolicy, SharingState};
use crate::seqs;
use crate::text;

verus! {

/// A friend is among those that were seen.
pub open spec fn seen(seen_friends: Seq<FriendPresenceView>, code: Seq<char>) -> bool {
    exists|i: int| 0 <= i < seen_friends.len() && (#[trigger] seen_friends[i]).code == code
}

/// Looking a friend up gives one of that code, and the only one where each is
/// listed once.
pub proof fn law_friends_are_looked_up_by_code(
    seen_friends: Seq<FriendPresenceView>,
    code: Seq<char>,
    i: int,
)
    ensures
        friends::presence_of(seen_friends, code) is Some <==> seen(seen_friends, code),
        friends::presence_of(seen_friends, code) is Some ==> seen_friends.contains(
            friends::presence_of(seen_friends, code)->0,
        ) && friends::presence_of(seen_friends, code)->0.code == code,
        friends::listed_once(seen_friends) && 0 <= i < seen_friends.len() && seen_friends[i].code
            == code ==> friends::presence_of(seen_friends, code) == Some(seen_friends[i]),
{
    seqs::lemma_first_where(seen_friends, friends::of_code(code));
    match seqs::first_where(seen_friends, friends::of_code(code)) {
        Some(k) => {
            assert(seen_friends[k].code == code);
            if 0 <= i < seen_friends.len() && seen_friends[i].code == code {
                if i < k {
                    assert(!friends::of_code(code)(seen_friends[i]));
                }
            }
        },
        None => {
            if seen(seen_friends, code) {
                let k = choose|k: int|
                    0 <= k < seen_friends.len() && (#[trigger] seen_friends[k]).code == code;
                assert(!friends::of_code(code)(seen_friends[k]));
            }
            if 0 <= i < seen_friends.len() {
                assert(!friends::of_code(code)(seen_friends[i]));
            }
        },
    }
}

/// An update replaces what was known of that friend and of no other.
pub proof fn law_updates_touch_one_friend(
    m: FriendsModel,
    friend: FriendPresenceView,
    code: Seq<char>,
)
    requires
        friends::listed_once(m.friends),
    ensures
        ({
            let after = m.applied(PresenceEventView::Update(friend));
            &&& friends::presence_of(after.friends, friend.code) == Some(friend)
            &&& code != friend.code ==> friends::presence_of(after.friends, code)
                == friends::presence_of(m.friends, code)
            &&& after == (FriendsModel { friends: after.friends, ..m })
        }),
{
    let after = m.applied(PresenceEventView::Update(friend));
    lemma_with_friend(m.friends, friend);
    let at = choose|at: int| put_at(m.friends, after.friends, friend, at);
    assert(put_at(m.friends, after.friends, friend, at));
    law_friends_are_looked_up_by_code(after.friends, friend.code, at);
    law_friends_are_looked_up_by_code(m.friends, code, 0);
    law_friends_are_looked_up_by_code(after.friends, code, 0);
    if code != friend.code {
        if friends::presence_of(m.friends, code) is Some {
            let k = choose|k: int| 0 <= k < m.friends.len() && (#[trigger] m.friends[k]).code == code;
            assert(k != at);
            assert(m.friends[k] == after.friends[k]);
            law_friends_are_looked_up_by_code(m.friends, code, k);
            law_friends_are_looked_up_by_code(after.friends, code, k);
        } else if friends::presence_of(after.friends, code) is Some {
            let k = choose|k: int|
                0 <= k < after.friends.len() && (#[trigger] after.friends[k]).code == code;
            assert(k != at);
            assert(after.friends[k] == m.friends[k]);
            assert(seen(m.friends, code));
        }
    }
}

/// A friend stands at one place, and everywhere else is what stood there.
spec fn put_at(
    before: Seq<FriendPresenceView>,
    after: Seq<FriendPresenceView>,
    friend: FriendPresenceView,
    at: int,
) -> bool {
    &&& 0 <= at < after.len()
    &&& after[at] == friend
    &&& forall|k: int|
        0 <= k < after.len() && k != at ==> k < before.len() && #[trigger] after[k] == before[k]
    &&& forall|k: int|
        0 <= k < before.len() && k != at ==> k < after.len() && #[trigger] before[k] == after[k]
            && before[k].code != friend.code
    &&& at < before.len() ==> before[at].code == friend.code
}

proof fn lemma_with_friend(before: Seq<FriendPresenceView>, friend: FriendPresenceView)
    requires
        friends::listed_once(before),
    ensures
        friends::listed_once(friends::with_friend(before, friend)),
        exists|at: int| put_at(before, friends::with_friend(before, friend), friend, at),
{
    let after = friends::with_friend(before, friend);
    seqs::lemma_first_where(before, friends::of_code(friend.code));
    let at: int = match seqs::first_where(before, friends::of_code(friend.code)) {
        Some(i) => i,
        None => before.len() as int,
    };
    assert(after[at] == friend);
    assert forall|k: int| 0 <= k < before.len() && k != at implies k < after.len()
        && #[trigger] before[k] == after[k] && before[k].code != friend.code by {
        if at == before.len() {
            assert(!friends::of_code(friend.code)(before[k]));
        }
    }
    assert(put_at(before, after, friend, at));
}

/// Connecting, the own code, a snapshot and requests are shown as told.
pub proof fn law_presence_news_are_shown(
    m: FriendsModel,
    state: PresenceState,
    code: Seq<char>,
    codes: Seq<Seq<char>>,
)
    ensures
        m.applied(PresenceEventView::State(state)) == (FriendsModel {
            connected: state is Connected,
            ..m
        }),
        m.applied(PresenceEventView::Ready { code }) == (FriendsModel {
            self_code: Some(code),
            ..m
        }),
        m.applied(PresenceEventView::Requests(codes)) == (FriendsModel { requests: codes, ..m }),
{
}

/// A snapshot lists everyone in it, with the last that was told of each, and
/// forgets everyone else.
pub proof fn law_snapshots_replace_the_list(
    m: FriendsModel,
    told: Seq<FriendPresenceView>,
    code: Seq<char>,
)
    ensures
        ({
            let after = m.applied(PresenceEventView::Snapshot(told));
            &&& after == (FriendsModel { friends: after.friends, ..m })
            &&& friends::listed_once(after.friends)
            &&& seen(after.friends, code) <==> seen(told, code)
            &&& forall|i: int|
                0 <= i < told.len() && (#[trigger] told[i]).code == code && (forall|j: int|
                    i < j < told.len() ==> (#[trigger] told[j]).code != code)
                    ==> friends::presence_of(after.friends, code) == Some(told[i])
        }),
    decreases told.len(),
{
    let after = m.applied(PresenceEventView::Snapshot(told)).friends;
    if told.len() > 0 {
        let init = told.drop_last();
        let last = told.last();
        let before = FriendsModel { friends: friends::by_code(init), ..m };
        law_snapshots_replace_the_list(m, init, code);
        law_updates_touch_one_friend(before, last, code);
        lemma_with_friend(friends::by_code(init), last);
        assert(after == friends::with_friend(friends::by_code(init), last));
        law_friends_are_looked_up_by_code(after, code, 0);
        law_friends_are_looked_up_by_code(friends::by_code(init), code, 0);
        assert(told[told.len() - 1] == last);
        assert(seen(told, code) <==> seen(init, code) || last.code == code) by {
            if seen(init, code) {
                let k = choose|k: int| 0 <= k < init.len() && (#[trigger] init[k]).code == code;
                assert(told[k].code == code);
            }
            if seen(told, code) && last.code != code {
                let k = choose|k: int| 0 <= k < told.len() && (#[trigger] told[k]).code == code;
                assert(init[k].code == code);
            }
        }
        assert forall|i: int|
            0 <= i < told.len() && (#[trigger] told[i]).code == code && (forall|j: int|
                i < j < told.len() ==> (#[trigger] told[j]).code != code) implies
            friends::presence_of(after, code) == Some(told[i]) by {
            if i < init.len() {
                assert(last.code != code);
                assert(init[i] == told[i]);
                assert forall|j: int| i < j < init.len() implies (#[trigger] init[j]).code
                    != code by {
                    assert(told[j].code != code);
                }
            }
        }
    }
}

/// A contact is shown as waiting until it adds this identity back, and after
/// that as what was last seen of it.
pub proof fn law_contacts_show_what_was_seen(
    seen_friends: Seq<FriendPresenceView>,
    contact: ContactView,
    i: int,
)
    requires
        friends::listed_once(seen_friends),
        0 <= i < seen_friends.len(),
        seen_friends[i].code == contact.code,
    ensures
        ({
            let status = friends::status_of(seen_friends, contact);
            let friend = seen_friends[i];
            &&& contact.pending <==> status is Pending
            &&& !contact.pending ==> (friend.online <==> status is Online)
            &&& !contact.pending && !friend.online && friend.last_seen_seconds_ago is Some
                ==> status == FriendStatusView::LastSeen(
                clock::ago(friend.last_seen_seconds_ago->0 as nat),
            )
            &&& !contact.pending && !friend.online && friend.last_seen_seconds_ago is None
                ==> status is Offline
        }),
{
    law_friends_are_looked_up_by_code(seen_friends, contact.code, i);
}

/// A contact that was never seen is offline, or waits.
pub proof fn law_unseen_contacts_are_offline(
    seen_friends: Seq<FriendPresenceView>,
    contact: ContactView,
)
    requires
        !seen(seen_friends, contact.code),
    ensures
        contact.pending ==> friends::status_of(seen_friends, contact) is Pending,
        !contact.pending ==> friends::status_of(seen_friends, contact) is Offline,
{
    law_friends_are_looked_up_by_code(seen_friends, contact.code, 0);
}

/// A code is called what the contact of that code is named, or itself.
pub proof fn law_codes_are_called_by_name(contacts: Seq<ContactView>, code: Seq<char>, i: int)
    ensures
        (forall|k: int| 0 <= k < contacts.len() ==> (#[trigger] contacts[k]).code != code)
            ==> friends::known_as(contacts, code) == code,
        0 <= i < contacts.len() && contacts[i].code == code && (forall|k: int|
            0 <= k < i ==> (#[trigger] contacts[k]).code != code) ==> friends::known_as(
            contacts,
            code,
        ) == contacts[i].name,
{
    seqs::lemma_first_where(contacts, friends::contact_of(code));
    if 0 <= i < contacts.len() && contacts[i].code == code && (forall|k: int|
        0 <= k < i ==> (#[trigger] contacts[k]).code != code) {
        assert(seqs::is_first(contacts, friends::contact_of(code), i));
        seqs::lemma_first(contacts, friends::contact_of(code), i);
    }
}

/// The rooms of the friends that host one are listed, as they host them, and
/// one more friend adds a row at the end exactly if it hosts.
pub proof fn law_live_rooms_are_those_hosted(
    seen_friends: Seq<FriendPresenceView>,
    friend: FriendPresenceView,
    contacts: Seq<ContactView>,
)
    ensures
        ({
            let before = friends::live_rooms(seen_friends, contacts);
            let after = friends::live_rooms(seen_friends.push(friend), contacts);
            &&& friend.hosting is None ==> after == before
            &&& friend.hosting is Some ==> after.len() == before.len() + 1 && after.drop_last()
                == before && after.last().name == friends::known_as(contacts, friend.code)
                && after.last().viewer_url == friend.hosting->0.viewer_url
                && after.last().viewer_count == friend.hosting->0.viewer_count
                && after.last().sharing == friend.hosting->0.sharing_state
        }),
        friends::live_rooms(Seq::empty(), contacts).len() == 0,
{
    let before = friends::live_rooms(seen_friends, contacts);
    assert(seen_friends.push(friend).drop_last() =~= seen_friends);
    let after = friends::live_rooms(seen_friends.push(friend), contacts);
    if friend.hosting is Some {
        assert(after.drop_last() =~= before);
    }
}

/// An invite is open while its sender is no contact and was not dismissed.
pub proof fn law_open_invites_are_unanswered(
    requests: Seq<Seq<char>>,
    contacts: Seq<ContactView>,
    dismissed: Seq<Seq<char>>,
    code: Seq<char>,
)
    ensures
        friends::open_invites(requests, contacts, dismissed).contains(code) <==> requests.contains(
            code,
        ) && !dismissed.contains(code) && forall|i: int|
            0 <= i < contacts.len() ==> (#[trigger] contacts[i]).code != code,
{
    seqs::lemma_filter_members(
        requests,
        |code: Seq<char>| !friends::is_contact(contacts, code) && !dismissed.contains(code),
    );
}

/// A pending contact is confirmed exactly by being seen; nothing else about a
/// contact changes.
pub proof fn law_only_seen_contacts_are_confirmed(
    contacts: Seq<ContactView>,
    seen_friends: Seq<FriendPresenceView>,
    i: int,
)
    requires
        0 <= i < contacts.len(),
    ensures
        friends::confirmed(contacts, seen_friends).len() == contacts.len(),
        friends::confirmed(contacts, seen_friends)[i].code == contacts[i].code,
        friends::confirmed(contacts, seen_friends)[i].name == contacts[i].name,
        friends::confirmed(contacts, seen_friends)[i].pending <==> contacts[i].pending && !seen(
            seen_friends,
            contacts[i].code,
        ),
{
    law_friends_are_looked_up_by_code(seen_friends, contacts[i].code, 0);
}

/// Presence is reached at the server's own origin, over a socket that is secure
/// exactly where the server is.
pub proof fn law_presence_is_at_the_server(origin: Seq<char>)
    requires
        origin.len() > 0,
        origin.last() != '/',
        text::trim(origin) == origin,
    ensures
        forall|rest: Seq<char>|
            origin == #[trigger] ("https://"@ + rest) ==> friends::endpoint(origin) == Some(
                ("wss://"@ + rest + "/api/v1/presence"@, origin),
            ),
        forall|rest: Seq<char>|
            origin == #[trigger] ("http://"@ + rest) ==> friends::endpoint(origin) == Some(
                ("ws://"@ + rest + "/api/v1/presence"@, origin),
            ),
{
    reveal_strlit("https://");
    reveal_strlit("http://");
    assert(friends::strip_end(origin, '/') == origin);
    assert forall|rest: Seq<char>| origin == #[trigger] ("https://"@ + rest) implies
        friends::endpoint(origin) == Some(("wss://"@ + rest + "/api/v1/presence"@, origin)) by {
        assert(origin.subrange(0, 8) =~= "https://"@);
        assert(origin.skip(8) =~= rest);
    }
    assert forall|rest: Seq<char>| origin == #[trigger] ("http://"@ + rest) implies
        friends::endpoint(origin) == Some(("ws://"@ + rest + "/api/v1/presence"@, origin)) by {
        assert(origin[4] == ':');
        assert("https://"@[4] == 's');
        assert(origin.subrange(0, 7) =~= "http://"@);
        assert(origin.skip(7) =~= rest);
        if text::has_prefix(origin, "https://"@) {
            assert(origin[4] == "https://"@[4]);
        }
    }
}

/// A room that is hosted is opened with the configured rules, for the most
/// viewers that a hosted room takes.
pub proof fn law_hosted_rooms_follow_the_configuration(config: PresenterConfigView)
    ensures
        settings::options_for(config).maximum_viewers == settings::HOSTED_VIEWERS,
        settings::options_for(config).expires_in_seconds == config.expires_in_seconds,
        settings::options_for(config).access_policy == config.access_policy,
        settings::options_for(config).allowed_friend_codes == config.allowed_friend_codes,
{
}

/// Motion is captured at twice the rate and with twice the ceiling of text;
/// each choice of a longer room lasts twice as long as the one before.
pub proof fn law_choices_double()
    ensures
        CaptureProfile::Motion.rate() == 2 * CaptureProfile::Text.rate(),
        CaptureProfile::Text.rate() == 30,
        settings::ceiling(CaptureProfile::Motion) == 2 * settings::ceiling(CaptureProfile::Text),
        settings::ceiling(CaptureProfile::Text) == 200 * CaptureProfile::Text.rate(),
        RoomExpiry::TwoHours.span() == 2 * 3_600,
        RoomExpiry::FourHours.span() == 2 * RoomExpiry::TwoHours.span(),
        RoomExpiry::EightHours.span() == 2 * RoomExpiry::FourHours.span(),
        forall|access: RoomAccess, other: RoomAccess|
            #![trigger access.policy(), other.policy()]
            access.policy() == other.policy() ==> access == other,
        RoomAccess::FriendsOnly.policy() == RoomAccessPolicy::FriendsOnly,
        RoomAccess::AskFirst.policy() == RoomAccessPolicy::ApprovalRequired,
{
}

/// A room is public, approves by itself and lasts two hours until it is planned
/// otherwise; the rest is as the settings say.
pub proof fn law_settings_make_a_configuration(
    chosen: SettingsView,
    codecs: Seq<VideoCodecId>,
)
    ensures
        ({
            let config = settings::settled(chosen, codecs);
            &&& config.server == chosen.signaling_server
            &&& config.profile == chosen.capture_profile
            &&& config.include_system_audio == chosen.include_system_audio
            &&& config.force_relay == chosen.always_relay
            &&& config.video_codecs == codecs
            &&& config.access_policy == RoomAccessPolicy::Public
            &&& config.auto_approve && config.allowed_friend_codes.len() == 0
            &&& config.expires_in_seconds == 2 * 60 * 60
            &&& config.display_name is None && config.initial_source is None
        }),
{
}

/// Moving a codec exchanges two neighbours and leaves the rest in place.
pub proof fn law_moving_exchanges_two(order: Seq<VideoCodecId>, from: int, to: int, k: int)
    requires
        0 <= from < order.len(),
        0 <= to < order.len(),
        0 <= k < order.len(),
    ensures
        settings::swapped(order, from, to).len() == order.len(),
        settings::swapped(order, from, to)[from] == order[to],
        settings::swapped(order, from, to)[to] == order[from],
        k != from && k != to ==> settings::swapped(order, from, to)[k] == order[k],
{
}

/// What the host sees tells an ended room from one that opens, and an open one
/// by how it is shared.
pub proof fn law_the_host_sees_the_room(m: HostingModel, has_frame: bool)
    ensures
        ({
            let stage = labels::host_stage(m, has_frame);
            &&& m.ended <==> stage is Ended
            &&& !m.ended && !m.open <==> stage is Opening
            &&& !m.ended && m.open && m.sharing is Idle <==> stage is Offer
            &&& !m.ended && m.open && m.sharing is Paused <==> stage is Paused
            &&& stage is Ended ==> stage->failed == !m.open && stage->Ended_detail == m.status
            &&& m.ended && m.open ==> stage->headline == "The room has ended"@
            &&& m.ended && !m.open ==> stage->headline == "Couldn't open the room"@
            &&& stage is Opening ==> stage->Opening_detail == m.status
            &&& stage is Preview ==> has_frame && Some(stage->size) == m.frame_size
                && stage->size.0 > 0 && stage->size.1 > 0
            &&& stage is Waiting ==> !has_frame || m.frame_size is None || (m.frame_size->0).0 == 0
                || (m.frame_size->0).1 == 0
        }),
        m.ended ==> labels::hosting_tone(m.ended, m.sharing) is Bad,
        labels::hosting_tone(false, SharingState::Live) is Good,
        labels::hosting_tone(false, SharingState::Paused) is Warning,
        labels::hosting_tone(false, SharingState::Idle) is Quiet,
{
}

/// A viewer sees the video where it is shown and has a size, through the window
/// where it is drawn below it, and else words that tell why not.
pub proof fn law_the_viewer_sees_the_share(m: WatchingModel, has_frame: bool)
    ensures
        ({
            let stage = labels::watch_stage(m, has_frame);
            let sized = m.frame_size is Some && (m.frame_size->0).0 > 0 && (m.frame_size->0).1 > 0;
            let shows = m.live && m.sharing != Some(SharingState::Idle) && m.sharing != Some(
                SharingState::Paused,
            );
            &&& shows && sized && m.native_video ==> stage == WatchStageView::Hole(m.frame_size->0)
            &&& shows && sized && !m.native_video && has_frame ==> stage == WatchStageView::Video(
                m.frame_size->0,
            )
            &&& !shows || !sized || (!m.native_video && !has_frame) ==> stage is Notice
            &&& stage is Notice && m.sharing == Some(SharingState::Idle) ==> stage
                == WatchStageView::Notice("nothing is being shared right now"@)
            &&& stage is Notice && m.sharing == Some(SharingState::Paused) ==> stage
                == WatchStageView::Notice("share paused"@)
            &&& stage is Notice && (m.sharing is None || m.sharing == Some(SharingState::Live))
                ==> stage == WatchStageView::Notice(m.status)
        }),
{
    match m.sharing {
        Some(sharing) => {
            assert(sharing is Idle || sharing is Paused || sharing is Live);
        },
        None => {},
    }
}

/// A viewer's target is held back exactly where there is one under the ceiling.
pub proof fn law_held_back_is_under_the_ceiling(target: u32, ceiling: u32)
    ensures
        labels::held_back(target, ceiling) <==> target != 0 && target < ceiling,
        labels::transport(true) == "relay"@,
        labels::transport(false) == "direct"@,
{
}

/// A report of a hosted room tells each viewer's measurements in order, and
/// the rates of the history; one of a watched room tells the stream's.
pub proof fn law_reports_tell_what_is_shown(
    m: HostingModel,
    w: WatchingModel,
    force_relay: bool,
    now: Moment,
    i: int,
)
    ensures
        ({
            let told = report::of_hosting(m, force_relay, now);
            &&& told is Presenter
            &&& told->Presenter_force_relay == force_relay
            &&& told->Presenter_room is Some <==> m.room_id is Some
            &&& told->expires_in_seconds is Some <==> m.countdown is Some
            &&& told->viewers.len() == m.viewers.len()
            &&& 0 <= i < m.viewers.len() ==> {
                let card = m.viewers[i].card;
                let line = told->viewers[i];
                &&& line.name == card.name && line.connected == card.connected
                &&& line.bitrate_kbps == card.bitrate_kbps && line.target_kbps == card.target_kbps
                &&& line.round_trip_us == card.round_trip_us && line.packets_lost
                    == card.packets_lost
                &&& line.packets_sent == card.packets_sent && line.codec == card.codec
            }
            &&& told->outgoing_kbps.len() == m.bitrate_history.len()
            &&& 0 <= i < m.bitrate_history.len() ==> told->outgoing_kbps[i]
                == m.bitrate_history[i].1
        }),
        ({
            let told = report::of_watching(w, force_relay);
            &&& told is Viewer
            &&& told->Viewer_force_relay == force_relay
            &&& told->connected == w.live
            &&& told->Viewer_room is Some <==> w.room_code is Some
            &&& told->Viewer_sharing is Some <==> w.sharing is Some
            &&& told->stream.milli_fps == w.milli_fps && told->stream.codec == w.codec
            &&& told->stream.bitrate_kbps == w.bitrate_kbps
            &&& told->stream.round_trip_us == w.round_trip_us
            &&& told->stream.packets_lost == w.packets_lost
            &&& told->stream.packets_received == w.packets_received
            &&& told->stream.resolution is Some <==> w.frame_size is Some
            &&& told->incoming_kbps.len() == w.bitrate_history.len()
            &&& 0 <= i < w.bitrate_history.len() ==> told->incoming_kbps[i]
                == w.bitrate_history[i].1
        }),
{
}

/// An entry of the palette is visible exactly if its label matches, and the
/// visible ones keep their order.
pub proof fn law_visible_entries_match(
    entries: Seq<PaletteEntryView>,
    entry: PaletteEntryView,
    query: Seq<char>,
)
    ensures
        palette::visible(entries, query).contains(entry) <==> entries.contains(entry)
            && palette::matched(query, entry.label),
        palette::visible(entries.push(entry), query) == if palette::matched(query, entry.label) {
            palette::visible(entries, query).push(entry)
        } else {
            palette::visible(entries, query)
        },
        palette::fits(Seq::empty(), entry.label),
{
    let keep = |entry: PaletteEntryView| palette::matched(query, entry.label);
    seqs::lemma_filter_members(entries, keep);
    seqs::lemma_filter_push(entries, entry, keep);
}

/// Choosing a friend joins the room that the friend hosts, or goes to the
/// friends where there is none; choosing a room joins it.
pub proof fn law_palette_entries_lead_there(
    seen_friends: Seq<FriendPresenceView>,
    contact: ContactView,
    row: LiveRowView,
    i: int,
)
    requires
        friends::listed_once(seen_friends),
        0 <= i < seen_friends.len(),
        seen_friends[i].code == contact.code,
    ensures
        palette::friend_entry(seen_friends, contact).label == contact.name,
        seen_friends[i].hosting is Some ==> palette::friend_entry(seen_friends, contact).action
            == PaletteActionView::Join(seen_friends[i].hosting->0.viewer_url),
        seen_friends[i].hosting is None ==> palette::friend_entry(seen_friends, contact).action
            is Go,
        palette::room_entry(row).action == PaletteActionView::Join(row.viewer_url),
        row.sharing is Live ==> palette::room_entry(row).hint == "live"@,
        row.sharing is Paused ==> palette::room_entry(row).hint == "paused"@,
        row.sharing is Idle ==> palette::room_entry(row).hint == "idle"@,
{
    law_friends_are_looked_up_by_code(seen_friends, contact.code, i);
}

/// How many watch, are here or were invited is told in words for none and one,
/// and as a number for more.
pub proof fn law_counts_are_told(n: nat)
    requires
        n >= 2,
    ensures
        friends::watchers_text(0) == "no one watching yet · peer to peer"@,
        friends::watchers_text(1) == "1 watching · peer to peer"@,
        friends::watchers_text(n) == text::decimal(n) + " watching · peer to peer"@,
        friends::idle_text(0) == "Open, nobody sharing yet"@,
        friends::idle_text(1) == "Open, nobody sharing yet · "@ + text::decimal(1) + " here"@,
        friends::idle_text(n) == "Open, nobody sharing yet · "@ + text::decimal(n) + " here"@,
        friends::add_friend_text(0) == "Add a friend"@,
        friends::add_friend_text(1) == "Add a friend · 1 invite"@,
        friends::add_friend_text(n) == "Add a friend · "@ + text::decimal(n) + " invites"@,
        labels::peers_text(0) == text::decimal(0) + " peers"@,
        labels::peers_text(1) == "1 peer"@,
        labels::peers_text(n) == text::decimal(n) + " peers"@,
{
}

/// A friend's room is told by how it is shared, and with the friend counted in.
pub proof fn law_live_rooms_count_the_host(row: LiveRowView, name: Seq<char>, n: nat)
    requires
        n == row.viewer_count + 1,
        n <= u32::MAX,
    ensures
        row.sharing is Live ==> friends::live_text(row) == "sharing · "@ + text::decimal(n)
            + " here"@,
        row.sharing is Paused ==> friends::live_text(row) == "paused · "@ + text::decimal(n)
            + " here"@,
        row.sharing is Idle ==> friends::live_text(row) == "idle room · "@ + text::decimal(n)
            + " here"@,
        row.sharing is Live ==> friends::headline_text(name, row.sharing) == name
            + " is sharing"@,
        row.sharing is Paused ==> friends::headline_text(name, row.sharing) == name
            + " paused their share"@,
        row.sharing is Idle ==> friends::headline_text(name, row.sharing) == name
            + " has a room open"@,
{
}

/// An invite tells when it was sent, from a minute on how long ago.
pub proof fn law_invites_tell_their_age(code: Seq<char>, seconds: u64)
    ensures
        friends::invite_text(code, None) == code + " · pending"@,
        seconds < 60 ==> friends::invite_text(code, Some(seconds)) == code + " · sent just now"@,
        seconds >= 60 ==> friends::invite_text(code, Some(seconds)) == code + " · sent "@
            + clock::ago(seconds as nat) + " ago"@,
{
}

/// Initials are the capitals of the first two words, of one where there is no
/// second, and a question mark where there is none.
pub proof fn law_initials_are_of_two_words(name: Seq<char>)
    ensures
        text::words(name).len() == 0 ==> labels::initials_of(name) == "?"@,
        text::words(name).len() == 1 ==> labels::initials_of(name) == text::uppercase_of(
            seq![text::words(name)[0][0]],
        ),
        text::words(name).len() >= 2 ==> labels::initials_of(name) == text::uppercase_of(
            seq![text::words(name)[0][0]],
        ) + text::uppercase_of(seq![text::words(name)[1][0]]),
{
}

/// A room goes by the first eight characters of its identifier, in capitals.
pub proof fn law_room_codes_are_short(room_id: Seq<char>, rest: Seq<char>)
    ensures
        room_id.len() == 8 ==> labels::code_of(room_id + rest) == text::uppercase_of(room_id),
        room_id.len() <= 8 ==> labels::code_of(room_id) == text::uppercase_of(room_id),
{
    if room_id.len() == 8 {
        assert((room_id + rest).take(8) =~= room_id);
    }
    assert(room_id.take(room_id.len() as int) =~= room_id);
}

/// The line above a room tells what is known of it, in order: its code, how it
/// is reached, who is here and how long it lasts.
pub proof fn law_room_lines_tell_what_is_known(
    code: Seq<char>,
    relay: bool,
    here: nat,
    countdown: RoomCountdown,
    now: Moment,
)
    ensures
        labels::meta_parts(Some(code), relay, Some(here), Some(countdown), now) == seq![
            labels::code_of(code),
            labels::transport(relay),
            text::decimal(here) + " here"@,
            countdown.text(now),
        ],
        labels::meta_parts(None, relay, None, None, now) == seq![labels::transport(relay)],
        labels::meta_parts(Some(code), relay, None, None, now) == seq![
            labels::code_of(code),
            labels::transport(relay),
        ],
        labels::meta_parts(None, relay, Some(here), None, now) == seq![
            labels::transport(relay),
            text::decimal(here) + " here"@,
        ],
        labels::meta_parts(None, relay, None, Some(countdown), now) == seq![
            labels::transport(relay),
            countdown.text(now),
        ],
{
    assert(labels::meta_parts(Some(code), relay, Some(here), Some(countdown), now) =~= seq![
        labels::code_of(code),
        labels::transport(relay),
        text::decimal(here) + " here"@,
        countdown.text(now),
    ]);
    assert(labels::meta_parts(None, relay, None, None, now) =~= seq![labels::transport(relay)]);
    assert(labels::meta_parts(Some(code), relay, None, None, now) =~= seq![
        labels::code_of(code),
        labels::transport(relay),
    ]);
    assert(labels::meta_parts(None, relay, Some(here), None, now) =~= seq![
        labels::transport(relay),
        text::decimal(here) + " here"@,
    ]);
    assert(labels::meta_parts(None, relay, None, Some(countdown), now) =~= seq![
        labels::transport(relay),
        countdown.text(now),
    ]);
}

/// The figures of a stream stand in order, without those that are not known.
pub proof fn law_stream_lines_tell_what_is_known(
    size: (u32, u32),
    fps: Seq<char>,
    codec: Seq<char>,
    kbps: u32,
    round_trip: Seq<char>,
)
    ensures
        labels::stats_parts(Some(size), Some(fps), Some(codec), Some(kbps), Some(round_trip))
            == seq![
            text::decimal(size.0 as nat) + "×"@ + text::decimal(size.1 as nat),
            fps,
            codec,
            text::decimal(kbps as nat) + " kb/s"@,
            round_trip,
        ],
        labels::stats_parts(None, Some(fps), None, None, Some(round_trip)) == seq![
            fps,
            round_trip,
        ],
        labels::stats_parts(None, None, Some(codec), Some(kbps), None) == seq![
            codec,
            text::decimal(kbps as nat) + " kb/s"@,
        ],
        labels::stats_parts(None, None, None, None, None).len() == 0,
{
    assert(labels::stats_parts(Some(size), Some(fps), Some(codec), Some(kbps), Some(round_trip))
        =~= seq![
        text::decimal(size.0 as nat) + "×"@ + text::decimal(size.1 as nat),
        fps,
        codec,
        text::decimal(kbps as nat) + " kb/s"@,
        round_trip,
    ]);
    assert(labels::stats_parts(None, Some(fps), None, None, Some(round_trip)) =~= seq![
        fps,
        round_trip,
    ]);
    assert(labels::stats_parts(None, None, Some(codec), Some(kbps), None) =~= seq![
        codec,
        text::decimal(kbps as nat) + " kb/s"@,
    ]);
}

/// What this user said is marked as theirs, what others said by their name; one
/// that waits is told by name and code where they are known.
pub proof fn law_authors_are_named(from: Seq<char>, code: Seq<char>)
    ensures
        labels::author(true, from) == "You"@,
        labels::author(false, from) == from,
        labels::waiting(Some(from), Some(code)) == (from, code),
        labels::waiting(None, Some(code)) == ("Someone"@, code),
        labels::waiting(Some(from), None) == (from, "wants to join"@),
{
}

/// Loss is not told where nothing was counted, is nothing where nothing was
/// lost, and is flagged from one in a hundred on.
pub proof fn law_loss_is_told_of_what_was_counted(lost: i64, total: u64)
    ensures
        labels::loss(None, Some(total)) == ("—"@, false),
        labels::loss(Some(lost), None) == ("—"@, false),
        labels::loss(Some(lost), Some(0u64)) == ("—"@, false),
        lost < 0 ==> labels::loss(Some(lost), Some(total)) == labels::loss(Some(0i64), Some(total)),
{
}

} // verus!
