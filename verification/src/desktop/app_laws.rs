//! What the controls of the window do, told by what was pressed and typed.
use vstd::prelude::*;

use super::app;
use super::app::{
    AppModel, ChatRouteView, HostControl, HostingStepView, Keys, PresenterCommandView, RoomTab,
    Screen, ViewerCommandView, WatchingStepView,
};
use super::friends::ContactView;
use super::hosting::{ChatMessageView, HostingModel, JoinRequestView, ViewerEntryView};
use super::settings;
use super::settings::{CaptureProfile, ProfileView, RoomAccess, SettingsView, Source};
use super::watching::WatchingModel;
use crate::client::cli::VideoCodecId;
use crate::client::invite;
use crate::client::presenter::types::PresenterCommandView as SessionCommandView;
use crate::client::viewer::types::ViewerCommandView as WatcherCommandView;
use crate::protocol::{RoomAccessPolicy, SharingState};
use crate::seqs;
use crate::text;

verus! {

/// One command more is asked of the host's session, after those before.
pub open spec fn asks_host(m: AppModel, after: AppModel, command: PresenterCommandView) -> bool {
    &&& after.presenter_commands.len() == m.presenter_commands.len() + 1
    &&& after.presenter_commands.drop_last() == m.presenter_commands
    &&& after.presenter_commands.last() == command
}

/// One command more is asked of the viewer's session, after those before.
pub open spec fn asks_viewer(m: AppModel, after: AppModel, command: ViewerCommandView) -> bool {
    &&& after.viewer_commands.len() == m.viewer_commands.len() + 1
    &&& after.viewer_commands.drop_last() == m.viewer_commands
    &&& after.viewer_commands.last() == command
}

/// Going to a screen shows it and closes the palette; joining and opening a
/// room ask for it and show the room.
pub proof fn law_going_shows_the_screen(m: AppModel, screen: Screen, url: Seq<char>)
    ensures
        m.gone(screen).screen == screen,
        !m.gone(screen).palette_open,
        (AppModel { screen: m.screen, palette_open: m.palette_open, ..m.gone(screen) }) == m,
        asks_viewer(m, m.joining(url), ViewerCommandView::Join(url)),
        m.joining(url).screen == Screen::Room,
        m.joining(url).presenter_commands == m.presenter_commands,
        asks_host(m, m.opening(), PresenterCommandView::OpenRoom),
        m.opening().screen == Screen::Room,
        m.opening().viewer_commands == m.viewer_commands,
{
    assert(m.joining(url).viewer_commands.drop_last() =~= m.viewer_commands);
    assert(m.opening().presenter_commands.drop_last() =~= m.presenter_commands);
}

/// Answering a request hands the answer to the session, and that viewer waits
/// no longer; the others do.
pub proof fn law_answers_are_handed_on(m: AppModel, peer_id: Seq<char>)
    ensures
        asks_host(m, m.answered(peer_id, true), PresenterCommandView::Approve(peer_id)),
        asks_host(m, m.answered(peer_id, false), PresenterCommandView::Deny(peer_id)),
        forall|approve: bool, request: JoinRequestView| #[trigger]
            m.answered(peer_id, approve).presenter_view.requests.contains(request)
                <==> m.presenter_view.requests.contains(request) && request.peer_id != peer_id,
        forall|approve: bool|
            (HostingModel {
                requests: m.presenter_view.requests,
                ..(#[trigger] m.answered(peer_id, approve)).presenter_view
            }) == m.presenter_view,
{
    assert(m.answered(peer_id, true).presenter_commands.drop_last() =~= m.presenter_commands);
    assert(m.answered(peer_id, false).presenter_commands.drop_last() =~= m.presenter_commands);
    seqs::lemma_filter_members(
        m.presenter_view.requests,
        |request: JoinRequestView| request.peer_id != peer_id,
    );
}

/// What is said goes to the room that is hosted, else to the one that is
/// watched, in full and in order; without a room it is dropped.
pub proof fn law_chat_goes_to_the_session(m: AppModel)
    ensures
        forall|watching: bool| #[trigger]
            m.routed(true, watching) == ChatRouteView::ToHosting(m.chat_out),
        m.routed(false, true) == ChatRouteView::ToWatching(m.chat_out),
        m.routed(false, false) == ChatRouteView::Nowhere,
{
}

/// One message more, of this user.
pub open spec fn says(
    before: Seq<ChatMessageView>,
    after: Seq<ChatMessageView>,
    profile: Option<ProfileView>,
    said: Seq<char>,
) -> bool {
    &&& after.len() == before.len() + 1
    &&& after.drop_last() == before
    &&& after.last().text == said && after.last().own
    &&& profile is Some ==> after.last().from == profile->0.display_name
    &&& profile is None ==> after.last().from == "You"@
}

/// What a host types is said once in its room, trimmed, under its own name.
pub proof fn law_hosts_say_what_they_type(m: AppModel, typed: Seq<char>)
    requires
        m.presenter_view.active,
        text::trim(typed).len() > 0,
    ensures
        ({
            let after = m.chatted(typed);
            &&& says(
                m.presenter_view.messages,
                after.presenter_view.messages,
                m.profile,
                text::trim(typed),
            )
            &&& after.viewer_view == m.viewer_view
            &&& after.chat_out.drop_last() == m.chat_out
            &&& after.chat_out.last() == text::trim(typed)
        }),
{
    let after = m.chatted(typed);
    assert(after.chat_out.drop_last() =~= m.chat_out);
    assert(after.presenter_view.messages.drop_last() =~= m.presenter_view.messages);
}

/// What a viewer types is said once in the room that it watches, trimmed, under
/// its own name.
pub proof fn law_viewers_say_what_they_type(m: AppModel, typed: Seq<char>)
    requires
        !m.presenter_view.active,
        m.viewer_view.active,
        text::trim(typed).len() > 0,
    ensures
        ({
            let after = m.chatted(typed);
            &&& says(
                m.viewer_view.messages,
                after.viewer_view.messages,
                m.profile,
                text::trim(typed),
            )
            &&& after.presenter_view == m.presenter_view
            &&& after.chat_out.drop_last() == m.chat_out
            &&& after.chat_out.last() == text::trim(typed)
        }),
{
    let after = m.chatted(typed);
    assert(after.chat_out.drop_last() =~= m.chat_out);
    assert(after.viewer_view.messages.drop_last() =~= m.viewer_view.messages);
}

/// Blank text is not said.
pub proof fn law_blank_text_is_not_said(m: AppModel, typed: Seq<char>)
    requires
        text::trim(typed).len() == 0,
    ensures
        m.chatted(typed) == m,
{
}

/// Opening the palette, the form for a new room or the one for joining shows
/// that one, without an old query or error.
pub proof fn law_overlays_open_afresh(m: AppModel)
    ensures
        m.palette_shown().palette_open,
        m.palette_shown().palette_query.len() == 0,
        m.palette_shown().screen == m.screen,
        m.create_shown().create_open,
        m.create_shown().create_error is None,
        m.create_shown().screen == Screen::Home,
        m.join_shown().join_open,
        m.join_shown().join_error is None,
        m.join_shown().screen == Screen::Home,
        m.join_shown().join_draft == m.join_draft,
{
}

/// Escape closes every overlay and leaves theatre, and keeps the screen.
pub proof fn law_escape_closes_everything(m: AppModel)
    ensures
        ({
            let after = m.escaped();
            &&& !after.palette_open && !after.create_open && !after.join_open && !after.theatre
            &&& !after.name_edit_open
            &&& after == (AppModel {
                palette_open: false,
                create_open: false,
                join_open: false,
                theatre: false,
                name_edit_open: false,
                ..m
            })
        }),
{
}

/// A single shortcut does what its control does; while typing, the letters that
/// type are not shortcuts.
pub proof fn law_shortcuts_are_controls(m: AppModel, typing: bool)
    ensures
        ({
            let none = Keys {
                palette: false,
                create: false,
                friends: false,
                settings: false,
                escape: false,
                theatre: false,
            };
            &&& m.keyed(none, typing) == m
            &&& m.keyed(Keys { palette: true, ..none }, typing).palette_open
            &&& m.keyed(Keys { create: true, ..none }, false).create_open
            &&& m.keyed(Keys { create: true, ..none }, true) == m
            &&& m.keyed(Keys { friends: true, ..none }, typing).screen == Screen::Friends
            &&& m.keyed(Keys { settings: true, ..none }, typing).screen == Screen::Settings
            &&& m.keyed(Keys { escape: true, ..none }, typing) == m.escaped()
            &&& m.keyed(Keys { theatre: true, ..none }, true) == m
            &&& m.screen != Screen::Room ==> m.keyed(Keys { theatre: true, ..none }, typing) == m
            &&& m.screen == Screen::Room ==> m.keyed(Keys { theatre: true, ..none }, false).theatre
                == !m.theatre
        }),
{
}

/// Escape wins over whatever was opened by the same press, and theatre toggles
/// last.
pub proof fn law_escape_comes_after_opening(m: AppModel, keys: Keys, typing: bool)
    requires
        keys.escape,
    ensures
        ({
            let after = m.keyed(keys, typing);
            &&& !after.palette_open && !after.create_open && !after.join_open
            &&& after.theatre ==> after.screen == Screen::Room && keys.theatre && !typing
        }),
{
}

/// A room for friends needs a confirmed one; else the form says so and stays.
/// Any other room is opened, at the rate that was picked.
pub proof fn law_rooms_open_where_they_may(m: AppModel)
    ensures
        ({
            let after = m.room_tried();
            let barred = m.new_room_access == RoomAccess::FriendsOnly && forall|i: int|
                0 <= i < m.contacts.len() ==> (#[trigger] m.contacts[i]).pending;
            &&& barred ==> after.create_error is Some && after.presenter_commands
                == m.presenter_commands && after.create_open == m.create_open && after.screen
                == m.screen && after.settings == m.settings
            &&& !barred ==> asks_host(m, after, PresenterCommandView::OpenRoom)
                && after.create_error is None && !after.create_open && after.screen == Screen::Room
                && (m.new_room_motion ==> after.settings.capture_profile == CaptureProfile::Motion)
                && (!m.new_room_motion ==> after.settings.capture_profile == CaptureProfile::Text)
                && after.contacts == m.contacts
        }),
{
    let after = m.room_tried();
    assert(after.presenter_commands == m.presenter_commands
        || after.presenter_commands.drop_last() =~= m.presenter_commands);
}

/// A usable link is joined, trimmed, and the form is emptied and closed; an
/// empty or unusable one is told and kept.
pub proof fn law_links_are_joined(m: AppModel, usable: bool)
    ensures
        ({
            let after = m.join_tried(usable);
            let link = text::trim(m.join_draft);
            &&& link.len() > 0 && usable ==> asks_viewer(m, after, ViewerCommandView::Join(link))
                && after.join_draft.len() == 0 && !after.join_open && after.join_error is None
                && after.screen == Screen::Room
            &&& link.len() == 0 || !usable ==> after.join_error is Some && after.join_draft
                == m.join_draft && after.join_open == m.join_open && after.viewer_commands
                == m.viewer_commands && after.screen == m.screen
            &&& link.len() == 0 ==> after.join_error == Some("Paste a room link to join."@)
            &&& link.len() > 0 && !usable ==> after.join_error == Some(
                "That doesn't look like a Clarity room link."@,
            )
        }),
{
    let after = m.join_tried(usable);
    assert(after.viewer_commands == m.viewer_commands || after.viewer_commands.drop_last()
        =~= m.viewer_commands);
}

/// A friend is drafted under the name that was typed, or under the code where
/// there is none; adding empties the drafts, failing keeps them and tells why.
pub proof fn law_friends_are_drafted_and_added(
    m: AppModel,
    contacts: Seq<ContactView>,
    reason: Seq<char>,
)
    ensures
        m.friend_drafted().code == m.friend_code_draft,
        text::trim(m.friend_name_draft).len() > 0 ==> m.friend_drafted().name
            == m.friend_name_draft,
        text::trim(m.friend_name_draft).len() == 0 ==> m.friend_drafted().name
            == m.friend_code_draft,
        m.profile is Some ==> m.friend_drafted().own == m.profile->0.friend_code,
        ({
            let after = m.friend_added(Ok(contacts));
            &&& after.contacts == contacts
            &&& after.friend_code_draft.len() == 0 && after.friend_name_draft.len() == 0
            &&& after.friend_error is None
            &&& after.screen == m.screen && after.settings == m.settings && after.profile
                == m.profile
        }),
        m.friend_added(Err(reason)) == (AppModel { friend_error: Some(reason), ..m }),
{
}

/// An identity is drafted trimmed, the device named where it was not; a server
/// that was typed is taken over, and a blank one keeps the old.
pub proof fn law_identities_are_drafted(m: AppModel)
    ensures
        m.identity_drafted().name == text::trim(m.name_draft),
        text::trim(m.device_draft).len() > 0 ==> m.identity_drafted().device == text::trim(
            m.device_draft,
        ),
        text::trim(m.device_draft).len() == 0 ==> m.identity_drafted().device == "This device"@,
        text::trim(m.server_draft).len() > 0 ==> m.server_settled().settings.signaling_server
            == text::trim(m.server_draft),
        text::trim(m.server_draft).len() == 0 ==> m.server_settled().settings == m.settings,
        m.server_settled().server_draft == m.server_settled().settings.signaling_server,
        (SettingsView {
            signaling_server: m.settings.signaling_server,
            ..m.server_settled().settings
        }) == m.settings,
{
}

/// Creating an identity keeps it and goes home; failing tells why.
pub proof fn law_identities_are_kept(m: AppModel, profile: ProfileView, reason: Seq<char>)
    ensures
        m.identity_created(Ok(profile)).profile == Some(profile),
        m.identity_created(Ok(profile)).screen == Screen::Home,
        m.identity_created(Err(reason)) == (AppModel { friend_error: Some(reason), ..m }),
{
}

/// A new room admits whom its access rule names, for as long as was picked, at
/// the server and in the way that the settings say.
pub proof fn law_rooms_are_planned_as_picked(
    m: AppModel,
    codecs: Seq<VideoCodecId>,
    synthetic: bool,
)
    ensures
        ({
            let plan = m.plan(codecs, synthetic);
            &&& m.new_room_access is FriendsOnly ==> plan.access_policy
                == RoomAccessPolicy::FriendsOnly && forall|code: Seq<char>| #[trigger]
                plan.allowed_friend_codes.contains(code) <==> exists|i: int|
                    0 <= i < m.contacts.len() && (#[trigger] m.contacts[i]).code == code
                        && !m.contacts[i].pending
            &&& m.new_room_access is AnyoneWithLink ==> plan.access_policy
                == RoomAccessPolicy::Public && plan.allowed_friend_codes.len() == 0
            &&& m.new_room_access is AskFirst ==> plan.access_policy
                == RoomAccessPolicy::ApprovalRequired && plan.allowed_friend_codes.len() == 0
            &&& m.new_room_expiry is TwoHours ==> plan.expires_in_seconds == 2 * 60 * 60
            &&& m.new_room_expiry is FourHours ==> plan.expires_in_seconds == 4 * 60 * 60
            &&& m.new_room_expiry is EightHours ==> plan.expires_in_seconds == 8 * 60 * 60
            &&& m.profile is Some ==> plan.display_name == Some(m.profile->0.display_name)
            &&& m.profile is None ==> plan.display_name is None
            &&& synthetic ==> plan.initial_source == Some(Source::Synthetic)
            &&& !synthetic ==> plan.initial_source is None
            &&& plan.server == m.settings.signaling_server
            &&& plan.profile == m.settings.capture_profile
            &&& plan.include_system_audio == m.settings.include_system_audio
            &&& plan.force_relay == m.settings.always_relay
            &&& plan.video_codecs == codecs
        }),
{
    let plan = m.plan(codecs, synthetic);
    if m.new_room_access is FriendsOnly {
        lemma_active_codes(m.contacts);
    }
}

/// The codes of the confirmed contacts, and no others.
proof fn lemma_active_codes(contacts: Seq<ContactView>)
    ensures
        forall|code: Seq<char>| #[trigger]
            settings::active_codes(contacts).contains(code) <==> exists|i: int|
                0 <= i < contacts.len() && (#[trigger] contacts[i]).code == code
                    && !contacts[i].pending,
{
    let keep = |contact: ContactView| !contact.pending;
    let code_of = |contact: ContactView| contact.code;
    let kept = contacts.filter(keep);
    seqs::lemma_filter_members(contacts, keep);
    assert(settings::active_codes(contacts) =~= kept.map_values(code_of));
    assert forall|code: Seq<char>| #[trigger]
        settings::active_codes(contacts).contains(code) <==> exists|i: int|
            0 <= i < contacts.len() && (#[trigger] contacts[i]).code == code
                && !contacts[i].pending by {
        if settings::active_codes(contacts).contains(code) {
            let k = choose|k: int|
                0 <= k < settings::active_codes(contacts).len() && settings::active_codes(
                    contacts,
                )[k] == code;
            assert(contacts.contains(kept[k]) && keep(kept[k]));
            let i = choose|i: int| 0 <= i < contacts.len() && contacts[i] == kept[k];
            assert(contacts[i].code == code);
        }
        if exists|i: int|
            0 <= i < contacts.len() && (#[trigger] contacts[i]).code == code
                && !contacts[i].pending {
            let i = choose|i: int|
                0 <= i < contacts.len() && (#[trigger] contacts[i]).code == code
                    && !contacts[i].pending;
            assert(contacts.contains(contacts[i]));
            assert(kept.contains(contacts[i]));
            let k = choose|k: int| 0 <= k < kept.len() && kept[k] == contacts[i];
            assert(settings::active_codes(contacts)[k] == code);
        }
    }
}

/// Hosting starts from nothing but a session that is being opened, with the
/// ceiling of the rate that was picked.
pub proof fn law_hosting_starts_blank(m: AppModel, codecs: Seq<VideoCodecId>, synthetic: bool)
    ensures
        ({
            let (after, step) = m.host_step(PresenterCommandView::OpenRoom, codecs, synthetic);
            let view = after.presenter_view;
            &&& step == HostingStepView::Open(m.plan(codecs, synthetic))
            &&& view.active && !view.open && !view.ended && !view.reconnecting
            &&& view.sharing is Idle && view.status == "Creating room…"@
            &&& view.room_id is None && view.viewer_url is None && view.presenter_secret is None
            &&& view.countdown is None && view.frame_size is None
            &&& view.viewers.len() == 0 && view.requests.len() == 0 && view.messages.len() == 0
            &&& view.bitrate_history.len() == 0
            &&& m.settings.capture_profile is Text ==> view.target_ceiling_kbps == 6_000
            &&& m.settings.capture_profile is Motion ==> view.target_ceiling_kbps == 12_000
            &&& (AppModel { presenter_view: m.presenter_view, ..after }) == m
        }),
{
}

/// What the host asks for is handed to the session as it was asked.
pub proof fn law_host_commands_are_handed_on(
    m: AppModel,
    peer_id: Seq<char>,
    codecs: Seq<VideoCodecId>,
    synthetic: bool,
)
    ensures
        m.host_step(PresenterCommandView::PauseShare, codecs, synthetic) == (
            m,
            HostingStepView::Ask(SessionCommandView::PauseShare),
        ),
        m.host_step(PresenterCommandView::ResumeShare, codecs, synthetic) == (
            m,
            HostingStepView::Ask(SessionCommandView::ResumeShare),
        ),
        m.host_step(PresenterCommandView::StopShare, codecs, synthetic) == (
            m,
            HostingStepView::Ask(SessionCommandView::StopShare),
        ),
        m.host_step(PresenterCommandView::Approve(peer_id), codecs, synthetic) == (
            m,
            HostingStepView::Ask(SessionCommandView::ApproveViewer { peer_id }),
        ),
        m.host_step(PresenterCommandView::Deny(peer_id), codecs, synthetic) == (
            m,
            HostingStepView::Ask(SessionCommandView::RejectViewer { peer_id }),
        ),
        m.host_step(PresenterCommandView::StartShare, codecs, true) == (
            m,
            HostingStepView::Share(Source::Synthetic),
        ),
        m.host_step(PresenterCommandView::StartShare, codecs, false) == (
            m,
            HostingStepView::Share(Source::Screen),
        ),
        m.host_step(PresenterCommandView::ChangeSource, codecs, synthetic) == m.host_step(
            PresenterCommandView::StartShare,
            codecs,
            synthetic,
        ),
{
}

/// Closing asks the session and says so; leaving lets go of it, forgets the
/// room and goes home.
pub proof fn law_closing_and_leaving_the_hosted_room(
    m: AppModel,
    codecs: Seq<VideoCodecId>,
    synthetic: bool,
)
    ensures
        ({
            let (after, step) = m.host_step(PresenterCommandView::CloseRoom, codecs, synthetic);
            &&& step == HostingStepView::Ask(SessionCommandView::CloseRoom)
            &&& after.presenter_view.status == "Closing the room…"@
            &&& (AppModel {
                presenter_view: HostingModel {
                    status: m.presenter_view.status,
                    ..after.presenter_view
                },
                ..after
            }) == m
        }),
        ({
            let (after, step) = m.host_step(PresenterCommandView::Leave, codecs, synthetic);
            &&& step == HostingStepView::Detach
            &&& !after.presenter_view.active && !after.presenter_view.open
            &&& after.presenter_view.room_id is None && after.presenter_view.viewer_url is None
            &&& after.presenter_view.presenter_secret is None
            &&& after.presenter_view.viewers.len() == 0 && after.presenter_view.requests.len() == 0
            &&& after.presenter_view.messages.len() == 0
            &&& after.screen == Screen::Home
            &&& after.viewer_view == m.viewer_view
        }),
{
}

/// Watching starts from nothing but a session that connects to the room of the
/// link, under the user's name and key, over a relay where that is wished.
pub proof fn law_watching_starts_blank(m: AppModel, url: Seq<char>)
    ensures
        ({
            let (after, step) = m.watch_step(ViewerCommandView::Join(url));
            let view = after.viewer_view;
            &&& step matches WatchingStepView::Join { url: joined, config } && joined == url
                && config.force_relay == m.settings.always_relay && (m.profile is Some
                ==> config.display_name == Some(m.profile->0.display_name) && config.identity
                == Some(m.profile->0.public_key)) && (m.profile is None
                ==> config.display_name is None && config.identity is None)
            &&& view.active && !view.live && !view.reconnecting && view.presenter_connected
            &&& view.status == "Connecting…"@ && view.sharing is None && view.countdown is None
            &&& view.frame_size is None && !view.native_video && view.messages.len() == 0
            &&& view.bitrate_history.len() == 0 && view.bitrate_kbps is None
            &&& invite::invited(url) is Ok ==> view.room_code == Some(
                invite::invited(url)->Ok_0.room_id,
            )
            &&& invite::invited(url) is Err ==> view.room_code is None
            &&& (AppModel { viewer_view: m.viewer_view, ..after }) == m
        }),
{
}

/// What a viewer asks for is handed to the session as it was asked; leaving
/// lets go of it, forgets the room and goes home.
pub proof fn law_viewer_commands_are_handed_on(m: AppModel, name: Seq<char>)
    ensures
        m.watch_step(ViewerCommandView::SetName(name)) == (
            m,
            WatchingStepView::Ask(WatcherCommandView::SetDisplayName { name }),
        ),
        m.watch_step(ViewerCommandView::RestartIce) == (
            m,
            WatchingStepView::Ask(WatcherCommandView::RestartIce),
        ),
        ({
            let (after, step) = m.watch_step(ViewerCommandView::Leave);
            &&& step == WatchingStepView::Detach
            &&& !after.viewer_view.active && !after.viewer_view.live
            &&& after.viewer_view.room_code is None && after.viewer_view.messages.len() == 0
            &&& after.screen == Screen::Home
            &&& after.presenter_view == m.presenter_view
        }),
{
}

/// A name that was entered is asked for, trimmed; a blank or abandoned one is
/// not. The field closes either way.
pub proof fn law_names_are_changed_when_entered(m: AppModel, entered: bool)
    ensures
        ({
            let after = m.name_edited(entered);
            let name = text::trim(m.name_edit_draft);
            &&& !after.name_edit_open
            &&& entered && name.len() > 0 ==> asks_viewer(m, after, ViewerCommandView::SetName(name))
            &&& !entered || name.len() == 0 ==> after.viewer_commands == m.viewer_commands
            &&& after == (AppModel {
                name_edit_open: false,
                viewer_commands: after.viewer_commands,
                ..m
            })
        }),
{
    let after = m.name_edited(entered);
    assert(after.viewer_commands == m.viewer_commands || after.viewer_commands.drop_last()
        =~= m.viewer_commands);
}

/// The hosted room is shown before the watched one, with its own messages.
pub proof fn law_the_hosted_room_comes_first(m: AppModel)
    ensures
        m.room_screen() is Hosting <==> m.presenter_view.active,
        m.room_screen() is Watching <==> !m.presenter_view.active && m.viewer_view.active,
        m.presenter_view.active ==> m.shown_messages() == m.presenter_view.messages,
        !m.presenter_view.active ==> m.shown_messages() == m.viewer_view.messages,
{
}

/// The host is offered what fits the share: to start one, to change, pause or
/// stop one that runs, to resume or stop one that is paused.
pub proof fn law_controls_fit_the_share(sharing: SharingState)
    ensures
        app::offered(sharing).contains(HostControl::Share) <==> sharing is Idle,
        app::offered(sharing).contains(HostControl::ChangeSource) <==> sharing is Live,
        app::offered(sharing).contains(HostControl::Pause) <==> sharing is Live,
        app::offered(sharing).contains(HostControl::Resume) <==> sharing is Paused,
        app::offered(sharing).contains(HostControl::StopSharing) <==> !(sharing is Idle),
        app::asks(HostControl::Share) == PresenterCommandView::StartShare,
        app::asks(HostControl::ChangeSource) == PresenterCommandView::ChangeSource,
        app::asks(HostControl::Pause) == PresenterCommandView::PauseShare,
        app::asks(HostControl::Resume) == PresenterCommandView::ResumeShare,
        app::asks(HostControl::StopSharing) == PresenterCommandView::StopShare,
{
    let o = app::offered(sharing);
    match sharing {
        SharingState::Idle => {
            assert(o[0] == HostControl::Share);
        },
        SharingState::Live => {
            assert(o[0] == HostControl::ChangeSource && o[1] == HostControl::Pause && o[2]
                == HostControl::StopSharing);
        },
        SharingState::Paused => {
            assert(o[0] == HostControl::Resume && o[1] == HostControl::StopSharing);
        },
    }
}

/// A room is announced while it is open and goes on, once everything about it
/// is known, as it is: its link, how it is shared, and how many are connected.
pub proof fn law_open_rooms_are_announced(m: HostingModel, last: Option<Seq<char>>)
    ensures
        ({
            let open = m.active && m.open && !m.ended && m.room_id is Some && m.viewer_url is Some
                && m.presenter_secret is Some;
            let (told, kept) = app::announcing(m, last);
            &&& open && last != m.room_id ==> told is Some && told->0 is Some
                && told->0->0.presenter_secret == m.presenter_secret->0
                && told->0->0.room.room_id == m.room_id->0 && told->0->0.room.viewer_url
                == m.viewer_url->0 && told->0->0.room.sharing_state == m.sharing
            &&& open && last != m.room_id && m.viewers.len() <= u32::MAX
                ==> told->0->0.room.viewer_count == m.viewers.filter(
                |entry: ViewerEntryView| entry.card.connected,
            ).len()
            &&& open && last == m.room_id ==> told is None
            &&& open ==> kept == m.room_id
            &&& !open ==> kept is None
            &&& !open && last is Some ==> told is Some && told->0 is None
            &&& !open && last is None ==> told is None
        }),
{
    lemma_counted(m.viewers, |entry: ViewerEntryView| entry.card.connected);
}

/// Counting is taking the length of what passes.
proof fn lemma_counted<A>(s: Seq<A>, pred: spec_fn(A) -> bool)
    ensures
        seqs::count(s, pred) == s.filter(pred).len(),
        s.filter(pred).len() <= s.len(),
    decreases s.len(),
{
    reveal(Seq::filter);
    if s.len() > 0 {
        lemma_counted(s.drop_last(), pred);
    }
}

/// The window starts at home for a known user and with a welcome for another,
/// with nothing open, drafted or asked.
pub proof fn law_the_window_starts_plain(
    profile: Option<ProfileView>,
    contacts: Seq<ContactView>,
    chosen: SettingsView,
    hostname: Option<Seq<char>>,
)
    ensures
        ({
            let m = AppModel::started(profile, contacts, chosen, hostname);
            &&& m.profile == profile && m.contacts == contacts && m.settings == chosen
            &&& profile is Some ==> m.screen == Screen::Home && m.name_draft
                == profile->0.display_name && m.device_draft == profile->0.device_name
            &&& profile is None ==> m.screen == Screen::Onboarding && m.name_draft.len() == 0
            &&& profile is None && hostname is Some && hostname->0.len() > 0 ==> Some(
                m.device_draft,
            ) == hostname
            &&& profile is None && (hostname is None || hostname->0.len() == 0) ==> m.device_draft
                == "This device"@
            &&& m.server_draft == chosen.signaling_server
            &&& !m.palette_open && !m.create_open && !m.join_open && !m.theatre
            &&& !m.name_edit_open && m.theatre_chat_open && m.room_tab is Chat
            &&& m.new_room_access is FriendsOnly && m.new_room_expiry is TwoHours
            &&& !m.new_room_motion
            &&& m.presenter_commands.len() == 0 && m.viewer_commands.len() == 0
            &&& m.chat_out.len() == 0 && m.chat_draft.len() == 0 && m.join_draft.len() == 0
            &&& !m.presenter_view.active && !m.viewer_view.active && !m.presence_view.connected
            &&& m.friend_error is None && m.join_error is None && m.create_error is None
        }),
{
}

/// A word of a scene shows the screen, form or tab that it names.
pub proof fn law_scenes_show_what_they_name(m: AppModel)
    ensures
        m.token("home"@) == Some(AppModel { screen: Screen::Home, ..m }),
        m.token("room"@) == Some(AppModel { screen: Screen::Room, ..m }),
        m.token("friends"@) == Some(AppModel { screen: Screen::Friends, ..m }),
        m.token("settings"@) == Some(AppModel { screen: Screen::Settings, ..m }),
        m.token("onboarding"@) == Some(AppModel { screen: Screen::Onboarding, ..m }),
        m.token("palette"@) == Some(AppModel { palette_open: true, ..m }),
        m.token("create"@) == Some(AppModel { create_open: true, ..m }),
        m.token("join"@) == Some(AppModel { join_open: true, ..m }),
        m.token("chat"@) == Some(AppModel { room_tab: RoomTab::Chat, ..m }),
        m.token("diagnostics"@) == Some(AppModel { room_tab: RoomTab::Diagnostics, ..m }),
        m.token("theatre"@) == Some(AppModel { theatre: true, ..m }),
        m.token("theater"@) == m.token("theatre"@),
        m.token("motion"@) == Some(AppModel { new_room_motion: true, ..m }),
        m.token("text"@) == Some(AppModel { new_room_motion: false, ..m }),
{
    reveal_strlit("home");
    reveal_strlit("room");
    reveal_strlit("friends");
    reveal_strlit("settings");
    reveal_strlit("onboarding");
    reveal_strlit("palette");
    reveal_strlit("create");
    reveal_strlit("join");
    reveal_strlit("chat");
    reveal_strlit("diagnostics");
    reveal_strlit("theatre");
    reveal_strlit("theater");
    reveal_strlit("motion");
    reveal_strlit("text");
    assert("home"@[0] == 'h' && "home"@.len() == 4);
    assert("room"@[0] == 'r' && "room"@.len() == 4);
    assert("friends"@[0] == 'f' && "friends"@.len() == 7);
    assert("settings"@[0] == 's' && "settings"@.len() == 8);
    assert("onboarding"@[0] == 'o' && "onboarding"@.len() == 10);
    assert("palette"@[0] == 'p' && "palette"@.len() == 7);
    assert("create"@[0] == 'c' && "create"@.len() == 6);
    assert("join"@[0] == 'j' && "join"@.len() == 4);
    assert("chat"@[0] == 'c' && "chat"@.len() == 4);
    assert("diagnostics"@[0] == 'd' && "diagnostics"@.len() == 11);
    assert("theatre"@[0] == 't' && "theatre"@.len() == 7);
    assert("theater"@[0] == 't' && "theater"@.len() == 7);
    assert("motion"@[0] == 'm' && "motion"@.len() == 6);
    assert("text"@[0] == 't' && "text"@.len() == 4);
}

/// The words of a scene are followed one after another, whatever their case;
/// one that names nothing is handed back.
pub proof fn law_scenes_are_followed_in_order(
    m: AppModel,
    tokens: Seq<Seq<char>>,
    token: Seq<char>,
)
    ensures
        ({
            let (before, unknown) = m.staged(tokens);
            let (after, left) = m.staged(tokens.push(token));
            let word = text::ascii_lowered(token);
            &&& before.token(word) is Some ==> after == before.token(word)->0 && left == unknown
            &&& before.token(word) is None ==> after == before && left == unknown.push(word)
        }),
        m.staged(Seq::empty()) == (m, Seq::<Seq<char>>::empty()),
{
    assert(tokens.push(token).drop_last() =~= tokens);
}

} // verus!
