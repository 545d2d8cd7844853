use clarity::client::cli::VideoCodecId;
use clarity::client::presence::{PresenceEvent, PresenceState};
use clarity::client::presenter::types::PresenterCommand as SessionCommand;
use clarity::client::presenter::{ConnectionState, PresenterEnd, PresenterError, PresenterUpdate};
use clarity::client::viewer::types::ViewerCommand as WatcherCommand;
use clarity::client::viewer::{EndReason, ViewerError, ViewerPhase, ViewerUpdate};
use clarity::crypto::{secret_as_str, Secret};
use clarity::desktop::app::{
    host_controls, Announcer, AppState, ChatRoute, HostControl, HostingStep, Keys,
    PresenterCommand, RoomScreen, RoomTab, Screen, ViewerCommand, WatchingStep,
};
use clarity::desktop::capture::{Capture, CaptureStep};
use clarity::desktop::friends::{
    add_friend_label, contact_codes, headline, idle_room_line, invite_line, live_label, name_of,
    presence_config, presence_endpoint, sync, watchers, Contact, FriendStatus, LiveRow,
    PresenceView,
};
use clarity::desktop::hosting;
use clarity::desktop::hosting::{
    ChatMessage, HostingEvent, JoinRequest, PresenterView, ViewerCard, ViewerEntry,
};
use clarity::desktop::labels::{
    body_radius, chat_author, connection_note, fullscreen_key, header_meta, hosting_mark,
    initials, is_held_back, loss_percent, mod_key, nothing_live_note, offers_retry, peers_label,
    presenter_marks, presenter_stage, short_code, stats_line, transport_label, viewer_stage,
    waiting_label, HostStage, Tone, WatchStage,
};
use clarity::desktop::moments::{BitrateHistory, Moment, RoomCountdown};
use clarity::desktop::palette::{
    matches_lowered, palette_entries, palette_match, visible_entries, PaletteAction,
};
use clarity::desktop::report::Report;
use clarity::desktop::settings::{
    allowed_codes, bitrate_for, codec_order, hosting_options, move_codec, CaptureProfile,
    PresenterConfig, Profile, RoomAccess, RoomExpiry, Settings, Source,
};
use clarity::desktop::watching;
use clarity::desktop::watching::{StreamStats, ViewerView, WatchingEvent};
use clarity::protocol::{FriendPresence, HostedRoom, RoomAccessPolicy, SharingState};

const SECOND: Moment = 1_000_000_000;

#[test]
fn loss_percent_formats_and_flags_high_loss() {
    assert_eq!(loss_percent(None, None).0, "—");
    assert_eq!(loss_percent(Some(5), Some(0)).0, "—");
    assert_eq!(loss_percent(Some(0), Some(1000)), ("0.0%".to_owned(), false));
    assert_eq!(loss_percent(Some(14), Some(1000)), ("1.4%".to_owned(), true));
    // A negative cumulative counter (RTCP quirk) clamps to zero.
    assert_eq!(loss_percent(Some(-5), Some(1000)).0, "0.0%");
}

/// The percentage in the machine's own floating-point numbers.
fn measured_loss(lost: i64, total: u64) -> (String, bool) {
    let percent = lost.max(0) as f64 / total as f64 * 100.0;
    (format!("{percent:.1}%"), percent >= 1.0)
}

#[test]
fn loss_is_rounded_to_the_nearest_tenth() {
    assert_eq!(loss_percent(Some(1), Some(3)), ("33.3%".to_owned(), true));
    assert_eq!(loss_percent(Some(2), Some(3)).0, "66.7%");
    assert_eq!(loss_percent(Some(1), Some(400)).0, "0.2%");
    assert_eq!(loss_percent(Some(3), Some(400)).0, "0.8%");
    assert_eq!(loss_percent(Some(1), Some(2000)), ("0.1%".to_owned(), false));
    assert_eq!(loss_percent(Some(10), Some(1001)), ("1.0%".to_owned(), false));
    assert_eq!(loss_percent(Some(i64::MAX), Some(1)).0, "922337203685477580800.0%");
    assert_eq!(loss_percent(Some(1), Some(u64::MAX)), ("0.0%".to_owned(), false));
}

#[test]
fn loss_is_what_floating_point_makes_of_it() {
    for total in 1..400 {
        for lost in 0..=(total as i64) {
            assert_eq!(loss_percent(Some(lost), Some(total)), measured_loss(lost, total));
        }
    }
    for lost in 0..4000 {
        assert_eq!(loss_percent(Some(lost), Some(4000)), measured_loss(lost, 4000));
    }
    let mut seed: u64 = 0x9e37_79b9_7f4a_7c15;
    for round in 0..20_000_u32 {
        seed = seed.wrapping_mul(6_364_136_223_846_793_005).wrapping_add(1_442_695_040_888_963_407);
        let total = (seed >> (round % 63)).max(1);
        seed = seed.wrapping_mul(6_364_136_223_846_793_005).wrapping_add(1_442_695_040_888_963_407);
        let lost = (seed >> 1 >> (round / 63 % 63)) as i64;
        assert_eq!(loss_percent(Some(lost), Some(total)), measured_loss(lost, total));
        let near = (total / 100) as i64 + i64::from(round % 5) - 2;
        assert_eq!(loss_percent(Some(near), Some(total)), measured_loss(near, total));
    }
}

#[test]
fn palette_match_accepts_substrings_and_subsequences() {
    assert!(palette_match("", "Create a room"));
    assert!(palette_match("room", "Create a room"));
    assert!(palette_match("ROOM", "Create a room"));
    assert!(palette_match("crm", "Create a room"));
    assert!(palette_match("mara", "Join Mara's room"));
    assert!(!palette_match("settings", "Create a room"));
    assert!(!palette_match("zzz", "Join Mara's room"));
}

#[test]
fn palette_queries_skip_spaces_and_keep_order() {
    assert!(palette_match("  c r m ", "Create a room"));
    assert!(!palette_match("mrc", "Create a room"));
    assert!(matches_lowered("c m", "cram"));
    assert!(!matches_lowered("cc", "cram"));
}

#[test]
fn names_are_shortened() {
    assert_eq!(initials("Mara Kovács"), "MK");
    assert_eq!(initials("  mara  "), "M");
    assert_eq!(initials("a b c"), "AB");
    assert_eq!(initials(""), "?");
    assert_eq!(initials("émile zola"), "ÉZ");
    assert_eq!(initials("éa ßb"), "ÉSS");
    assert_eq!(short_code("yciug6x8-rest"), "YCIUG6X8");
    assert_eq!(short_code("abc"), "ABC");
    assert_eq!(short_code("straße"), "STRASSE");
}

#[test]
fn keys_go_by_the_platform() {
    assert_eq!(mod_key(true), "⌘");
    assert_eq!(mod_key(false), "Ctrl");
    assert_eq!(fullscreen_key(true), "⌃⌘F");
    assert_eq!(fullscreen_key(false), "F11");
    assert_eq!(body_radius(false, false), 12);
    assert_eq!(body_radius(true, false), 0);
}

#[test]
fn headers_name_what_is_known() {
    let countdown = RoomCountdown { seconds: 3 * 3600 + 12 * 60, at: 0 };
    assert_eq!(
        header_meta(Some("abcdefghij"), false, Some(5), Some(countdown), 0),
        "ABCDEFGH · direct · 5 here · 3h 12m left"
    );
    assert_eq!(header_meta(None, true, None, None, 0), "relay");
    assert_eq!(transport_label(false), "direct");
    assert_eq!(peers_label(1), "1 peer");
    assert_eq!(peers_label(0), "0 peers");
    assert_eq!(
        stats_line(
            Some((1920, 1080)),
            Some("30 fps".to_owned()),
            Some("AV1".to_owned()),
            Some(2100),
            Some("12 ms".to_owned()),
        )
        .as_deref(),
        Some("1920×1080 · 30 fps · AV1 · 2100 kb/s · 12 ms")
    );
    assert_eq!(stats_line(None, None, None, None, None), None);
}

#[test]
fn countdowns_run_out() {
    let countdown = RoomCountdown { seconds: 3725, at: 10 * SECOND };
    assert_eq!(countdown.remaining_seconds(10 * SECOND), 3725);
    assert_eq!(countdown.label(10 * SECOND), "1h 02m left");
    assert_eq!(countdown.label(3000 * SECOND), "12m left");
    assert_eq!(countdown.remaining_seconds(9999 * SECOND), 0);
    assert_eq!(countdown.label(9999 * SECOND), "0m left");
}

#[test]
fn histories_hold_a_minute_of_spaced_samples() {
    let mut history = BitrateHistory::new();
    history.record(SECOND, 100);
    history.record_at(SECOND + SECOND / 4, 200);
    assert_eq!(history.samples(), &vec![(SECOND, 200)]);
    history.record_at(2 * SECOND, 300);
    assert_eq!(history.samples().len(), 2);
    history.record_at(62 * SECOND, 400);
    assert_eq!(history.samples(), &vec![(2 * SECOND, 300), (62 * SECOND, 400)]);
}

fn contact(code: &str, name: &str, pending: bool) -> Contact {
    Contact { code: code.to_owned(), name: name.to_owned(), pending }
}

fn room(url: &str, sharing_state: SharingState) -> HostedRoom {
    HostedRoom {
        room_id: "room".to_owned(),
        viewer_url: url.to_owned(),
        viewer_count: 3,
        sharing_state,
    }
}

fn friend(code: &str, online: bool, hosting: Option<HostedRoom>) -> FriendPresence {
    FriendPresence { code: code.to_owned(), online, hosting, last_seen_seconds_ago: None }
}

fn contacts() -> Vec<Contact> {
    vec![contact("clr-M", "Mara", false), contact("clr-D", "Dan", true)]
}

#[test]
fn presence_is_shown_as_it_comes() {
    let mut view = PresenceView::new();
    view.apply(PresenceEvent::State(PresenceState::Connected));
    view.apply(PresenceEvent::Ready { code: "clr-ME".to_owned() });
    view.apply(PresenceEvent::Snapshot(vec![friend("clr-M", false, None)]));
    view.apply(PresenceEvent::Update(friend(
        "clr-M",
        true,
        Some(room("https://h/r/a#s", SharingState::Live)),
    )));
    view.apply(PresenceEvent::Requests(vec!["clr-X".to_owned(), "clr-M".to_owned()]));
    assert!(view.connected);
    assert_eq!(view.self_code.as_deref(), Some("clr-ME"));
    let live = view.live(&contacts());
    assert_eq!(live.len(), 1);
    assert_eq!(live[0].name, "Mara");
    assert_eq!(live_label(&live[0]), "sharing · 4 here");
    assert_eq!(view.status(&contacts()[0]), FriendStatus::Online);
    assert_eq!(view.status(&contacts()[1]), FriendStatus::Pending);
    assert_eq!(view.rows(&contacts()).len(), 2);
    assert_eq!(view.invites(&contacts(), &Vec::new()), 1);
    assert_eq!(view.invites(&contacts(), &vec!["clr-X".to_owned()]), 0);
    assert!(view.hosting("clr-M").is_some());
    assert!(view.hosting("clr-D").is_none());
}

#[test]
fn seeing_a_contact_confirms_it() {
    let mut view = PresenceView::new();
    view.apply(PresenceEvent::Snapshot(vec![friend("clr-D", true, None)]));
    let mut known = contacts();
    assert!(view.confirm_seen_contacts(&mut known));
    assert!(!known[1].pending);
    assert!(!view.confirm_seen_contacts(&mut known));
}

#[test]
fn friends_are_put_in_words() {
    let row = |sharing| LiveRow {
        name: "Mara".to_owned(),
        viewer_url: "u".to_owned(),
        viewer_count: u32::MAX,
        sharing,
    };
    assert_eq!(live_label(&row(SharingState::Idle)), "idle room · 4294967295 here");
    assert_eq!(live_label(&row(SharingState::Paused)), "paused · 4294967295 here");
    assert_eq!(headline("Mara", SharingState::Live), "Mara is sharing");
    assert_eq!(headline("Mara", SharingState::Paused), "Mara paused their share");
    assert_eq!(headline("Mara", SharingState::Idle), "Mara has a room open");
    assert_eq!(watchers(0), "no one watching yet · peer to peer");
    assert_eq!(watchers(1), "1 watching · peer to peer");
    assert_eq!(watchers(2), "2 watching · peer to peer");
    assert_eq!(idle_room_line(0), "Open, nobody sharing yet");
    assert_eq!(idle_room_line(2), "Open, nobody sharing yet · 2 here");
    assert_eq!(add_friend_label(0), "Add a friend");
    assert_eq!(add_friend_label(1), "Add a friend · 1 invite");
    assert_eq!(add_friend_label(2), "Add a friend · 2 invites");
    assert_eq!(invite_line("clr-A", Some(5)), "clr-A · sent just now");
    assert_eq!(invite_line("clr-A", Some(7200)), "clr-A · sent 2h ago");
    assert_eq!(invite_line("clr-A", None), "clr-A · pending");
    assert_eq!(name_of(&contacts(), "clr-M"), "Mara");
    assert_eq!(name_of(&contacts(), "clr-?"), "clr-?");
    assert!(connection_note(true).starts_with("Connected"));
    assert!(nothing_live_note(false).starts_with("Connecting"));
}

#[test]
fn presence_endpoints_follow_the_server() {
    assert_eq!(
        presence_endpoint(" https://host:8443/ "),
        Some((
            "wss://host:8443/api/v1/presence".to_owned(),
            "https://host:8443".to_owned()
        ))
    );
    assert_eq!(
        presence_endpoint("http://host").map(|(url, _)| url).as_deref(),
        Some("ws://host/api/v1/presence")
    );
    assert_eq!(presence_endpoint("host"), None);
    let config = presence_config("https://host", vec![1]).expect("usable");
    assert_eq!(config.origin, "https://host");
    assert_eq!(config.public_key, [1]);
}

#[test]
fn subscriptions_change_with_the_contacts_alone() {
    let codes = contact_codes(&contacts());
    assert_eq!(codes, ["clr-M", "clr-D"]);
    let watched = sync(&Vec::new(), &codes).expect("new");
    assert_eq!(watched, ["clr-D", "clr-M"]);
    assert_eq!(sync(&watched, &codes), None);
}

fn settings() -> Settings {
    Settings {
        signaling_server: "https://host".to_owned(),
        capture_profile: CaptureProfile::Text,
        max_capture: "2560 × 1440".to_owned(),
        include_system_audio: true,
        always_relay: false,
        dismissed_requests: Vec::new(),
    }
}

fn profile() -> Profile {
    Profile {
        display_name: "Jamie".to_owned(),
        device_name: "Studio".to_owned(),
        friend_code: "clr-ME".to_owned(),
        public_key: vec![7; 32],
    }
}

fn app() -> AppState {
    AppState::new(Some(profile()), contacts(), settings(), None)
}

#[test]
fn choices_have_words_and_figures() {
    assert_eq!(RoomAccess::FriendsOnly.label(), "Friends only");
    assert_eq!(RoomAccess::AnyoneWithLink.label(), "Anyone with the link");
    assert_eq!(RoomAccess::AskFirst.label(), "Ask me first");
    assert_eq!(RoomAccess::all()[RoomAccess::AskFirst.position()], RoomAccess::AskFirst);
    assert_eq!(RoomExpiry::TwoHours.label(), "2 hours");
    assert_eq!(RoomExpiry::FourHours.label(), "4 hours");
    assert_eq!(RoomExpiry::EightHours.seconds(), 28_800);
    assert_eq!(RoomExpiry::all()[RoomExpiry::FourHours.position()], RoomExpiry::FourHours);
    assert_eq!(CaptureProfile::Text.fps(), 30);
    assert_eq!(CaptureProfile::Motion.fps(), 60);
    assert_eq!(bitrate_for(CaptureProfile::Text), 6_000);
    assert_eq!(bitrate_for(CaptureProfile::Motion), 12_000);
}

#[test]
fn codecs_are_ranked_and_moved() {
    let (av1, h264, h265) = (VideoCodecId::Av1, VideoCodecId::H264, VideoCodecId::H265);
    let (vp8, vp9) = (VideoCodecId::Vp8, VideoCodecId::Vp9);
    let engine = vec![av1, h265, h264, vp9, vp8];
    let order = codec_order(&vec![vp8, h264, vp8], &engine);
    assert_eq!(order, [vp8, h264, av1, h265, vp9]);
    assert_eq!(move_codec(&order, 1, true), Some(vec![h264, vp8, av1, h265, vp9]));
    assert_eq!(move_codec(&order, 0, false), Some(vec![h264, vp8, av1, h265, vp9]));
    assert_eq!(move_codec(&order, 0, true), None);
    assert_eq!(move_codec(&order, 4, false), None);
    assert_eq!(move_codec(&order, 9, false), None);
}

#[test]
fn rooms_start_from_the_settings() {
    let config = PresenterConfig::from_settings(&settings(), vec![VideoCodecId::Av1]);
    assert_eq!(config.server, "https://host");
    assert_eq!(config.access_policy, RoomAccessPolicy::Public);
    assert!(config.auto_approve);
    assert_eq!(config.expires_in_seconds, 7_200);
    assert_eq!(config.video_codecs, [VideoCodecId::Av1]);
    assert_eq!(allowed_codes(&contacts()), ["clr-M"]);
}

#[test]
fn the_first_start_is_onboarding() {
    let first = AppState::new(None, Vec::new(), settings(), Some("box".to_owned()));
    assert_eq!(first.screen, Screen::Onboarding);
    assert_eq!(first.device_draft, "box");
    assert_eq!(first.own_display_name(), "You");
    assert_eq!(first.own_code(), "clr-????-????");
    assert!(!first.shows_sidebar());
    let unnamed = AppState::new(None, Vec::new(), settings(), Some(String::new()));
    assert_eq!(unnamed.device_draft, "This device");
    let later = app();
    assert_eq!(later.screen, Screen::Home);
    assert_eq!(later.name_draft, "Jamie");
    assert!(later.shows_sidebar());
    assert_eq!(later.window_title(), "Clarity — Home");
}

#[test]
fn chat_goes_to_the_room_and_is_echoed() {
    let mut app = app();
    app.send_chat("hello".to_owned());
    assert!(app.chat_out.is_empty());
    app.viewer_view.active = true;
    app.chat_draft = " hi ".to_owned();
    app.submit_chat();
    assert_eq!(app.chat_draft, "");
    assert_eq!(app.messages().len(), 1);
    assert_eq!(chat_author(&app.messages()[0]), "You");
    assert_eq!(app.messages()[0].text, "hi");
    app.presenter_view.active = true;
    app.send_chat("up".to_owned());
    assert_eq!(app.messages().len(), 1);
    assert_eq!(app.room_screen(), RoomScreen::Hosting);
    assert!(matches!(
        app.route_chat(true, true),
        ChatRoute::ToHosting(lines) if lines == ["hi", "up"]
    ));
    app.send_chat("on".to_owned());
    assert!(matches!(
        app.route_chat(false, true),
        ChatRoute::ToWatching(lines) if lines == ["on"]
    ));
    app.send_chat("gone".to_owned());
    assert!(matches!(app.route_chat(false, false), ChatRoute::Nowhere));
    assert!(app.chat_out.is_empty());
}

#[test]
fn scenes_are_set_token_by_token() {
    let mut app = app();
    let unknown = app.apply_scene("ROOM.theater, diagnostics:palette nonsense motion");
    assert_eq!(unknown, ["nonsense"]);
    assert_eq!(app.screen, Screen::Room);
    assert!(app.theatre_active());
    assert_eq!(app.room_tab, RoomTab::Diagnostics);
    assert!(app.palette_open);
    assert!(app.new_room_motion);
}

fn keys() -> Keys {
    Keys {
        palette: false,
        create: false,
        friends: false,
        settings: false,
        escape: false,
        theatre: false,
    }
}

#[test]
fn keys_do_nothing_that_could_be_typed() {
    let mut app = app();
    app.handle_shortcuts(Keys { create: true, ..keys() }, true);
    assert!(!app.create_open);
    app.handle_shortcuts(Keys { create: true, ..keys() }, false);
    assert!(app.create_open);
    app.handle_shortcuts(Keys { escape: true, ..keys() }, true);
    assert!(!app.create_open);
    app.go(Screen::Room);
    app.handle_shortcuts(Keys { theatre: true, ..keys() }, true);
    assert!(!app.theatre);
    app.handle_shortcuts(Keys { theatre: true, ..keys() }, false);
    assert!(app.theatre_active());
    app.handle_shortcuts(Keys { settings: true, ..keys() }, false);
    assert_eq!(app.screen, Screen::Settings);
    assert!(app.shows_sidebar());
    app.handle_shortcuts(Keys { palette: true, ..keys() }, true);
    assert!(app.palette_open);
}

#[test]
fn a_room_for_friends_needs_a_friend() {
    let mut lonely =
        AppState::new(Some(profile()), vec![contact("clr-D", "Dan", true)], settings(), None);
    lonely.open_create();
    assert!(!lonely.try_open_room());
    assert!(lonely.create_error.as_deref().unwrap_or("").starts_with("No confirmed friends"));
    assert!(lonely.create_open);
    lonely.choose_access(1);
    lonely.choose_expiry(2);
    lonely.new_room_motion = true;
    assert!(lonely.try_open_room());
    assert!(!lonely.create_open);
    assert_eq!(lonely.settings.capture_profile, CaptureProfile::Motion);
    assert_eq!(lonely.screen, Screen::Room);
    assert_eq!(lonely.presenter_commands, [PresenterCommand::OpenRoom]);
}

#[test]
fn links_are_checked_before_joining() {
    let mut app = app();
    app.open_join();
    app.try_join();
    assert_eq!(app.join_error.as_deref(), Some("Paste a room link to join."));
    app.join_draft = "nonsense".to_owned();
    app.try_join();
    assert_eq!(
        app.join_error.as_deref(),
        Some("That doesn't look like a Clarity room link.")
    );
    app.join_draft = " https://host/r/room#secret ".to_owned();
    app.try_join();
    assert!(!app.join_open);
    assert_eq!(app.join_draft, "");
    assert_eq!(
        app.viewer_commands,
        [ViewerCommand::Join("https://host/r/room#secret".to_owned())]
    );
    app.join_draft = "x".to_owned();
    app.finish_join(true);
    assert_eq!(app.viewer_commands.len(), 2);
}

#[test]
fn hosting_requests_are_taken_up() {
    let mut app = app();
    let step = app.hosting_step(PresenterCommand::OpenRoom, Vec::new(), false);
    let HostingStep::Open(config) = step else {
        panic!("a room is opened");
    };
    assert_eq!(config.access_policy, RoomAccessPolicy::FriendsOnly);
    assert_eq!(config.allowed_friend_codes, ["clr-M"]);
    assert_eq!(config.display_name.as_deref(), Some("Jamie"));
    assert_eq!(config.initial_source, None);
    assert!(app.presenter_view.active);
    assert_eq!(app.presenter_view.status, "Creating room…");
    assert_eq!(app.presenter_view.target_ceiling_kbps, 6_000);
    assert!(matches!(
        app.hosting_step(PresenterCommand::StartShare, Vec::new(), true),
        HostingStep::Share(Source::Synthetic)
    ));
    assert!(matches!(
        app.hosting_step(PresenterCommand::ChangeSource, Vec::new(), false),
        HostingStep::Share(Source::Screen)
    ));
    assert!(matches!(
        app.hosting_step(PresenterCommand::Approve("v1".to_owned()), Vec::new(), false),
        HostingStep::Ask(SessionCommand::ApproveViewer { peer_id }) if peer_id == "v1"
    ));
    assert!(matches!(
        app.hosting_step(PresenterCommand::CloseRoom, Vec::new(), false),
        HostingStep::Ask(SessionCommand::CloseRoom)
    ));
    assert_eq!(app.presenter_view.status, "Closing the room…");
    assert!(matches!(
        app.hosting_step(PresenterCommand::Leave, Vec::new(), false),
        HostingStep::Detach
    ));
    assert!(!app.presenter_view.active);
    assert_eq!(app.screen, Screen::Home);
    app.new_room_access = RoomAccess::AskFirst;
    let step = app.hosting_step(PresenterCommand::OpenRoom, Vec::new(), true);
    let HostingStep::Open(config) = step else {
        panic!("a room is opened");
    };
    assert!(!config.auto_approve);
    assert_eq!(config.initial_source, Some(Source::Synthetic));
}

#[test]
fn watching_requests_are_taken_up() {
    let mut app = app();
    let step = app.watching_step(ViewerCommand::Join("https://host/r/room#s".to_owned()));
    let WatchingStep::Join { url, config } = step else {
        panic!("a room is joined");
    };
    assert_eq!(url, "https://host/r/room#s");
    assert_eq!(config.display_name.as_deref(), Some("Jamie"));
    assert_eq!(config.identity.map(|identity| identity.public_key), Some(vec![7; 32]));
    assert!(!config.force_relay);
    assert_eq!(app.viewer_view.room_code.as_deref(), Some("room"));
    assert_eq!(app.viewer_view.status, "Connecting…");
    assert!(matches!(
        app.watching_step(ViewerCommand::SetName("Me".to_owned())),
        WatchingStep::Ask(WatcherCommand::SetDisplayName { name }) if name == "Me"
    ));
    assert!(matches!(
        app.watching_step(ViewerCommand::RestartIce),
        WatchingStep::Ask(WatcherCommand::RestartIce)
    ));
    assert!(matches!(app.watching_step(ViewerCommand::Leave), WatchingStep::Detach));
    assert!(!app.viewer_view.active);
}

#[test]
fn controls_ask_for_what_they_say() {
    assert_eq!(host_controls(SharingState::Idle), [HostControl::Share]);
    assert_eq!(
        host_controls(SharingState::Paused),
        [HostControl::Resume, HostControl::StopSharing]
    );
    let mut app = app();
    for control in host_controls(SharingState::Live) {
        app.press(control);
    }
    assert_eq!(
        app.presenter_commands,
        [
            PresenterCommand::ChangeSource,
            PresenterCommand::PauseShare,
            PresenterCommand::StopShare,
        ]
    );
    assert_eq!(HostControl::Share.label(), "Share my screen");
    app.answer_request("v1".to_owned(), false);
    app.close_room();
    app.leave_presenter();
    assert_eq!(app.presenter_commands[3], PresenterCommand::Deny("v1".to_owned()));
    assert_eq!(app.presenter_commands.len(), 6);
    app.leave_room();
    app.restart_ice();
    assert_eq!(app.viewer_commands, [ViewerCommand::Leave, ViewerCommand::RestartIce]);
}

#[test]
fn names_identities_and_friends_are_drafted() {
    let mut app = app();
    app.edit_name();
    assert_eq!(app.name_edit_draft, "Jamie");
    app.name_edit_draft = " ".to_owned();
    app.finish_name(true);
    assert!(app.viewer_commands.is_empty());
    app.name_edit_draft = " Jam ".to_owned();
    app.finish_name(false);
    assert!(app.viewer_commands.is_empty());
    app.finish_name(true);
    assert_eq!(app.viewer_commands, [ViewerCommand::SetName("Jam".to_owned())]);

    app.friend_code_draft = "clr-NEW".to_owned();
    let draft = app.drafted_friend();
    assert_eq!((draft.name.as_str(), draft.own.as_str()), ("clr-NEW", "clr-ME"));
    app.add_friend(Err("already there".to_owned()));
    assert_eq!(app.friend_error.as_deref(), Some("already there"));
    app.add_friend(Ok(Vec::new()));
    assert_eq!(app.friend_code_draft, "");
    assert_eq!(app.friend_error, None);
    assert!(app.contacts.is_empty());

    let mut fresh = AppState::new(None, Vec::new(), settings(), None);
    assert!(!fresh.can_create_identity());
    fresh.name_draft = " Jamie ".to_owned();
    fresh.device_draft = " ".to_owned();
    fresh.server_draft = " https://other ".to_owned();
    assert!(fresh.can_create_identity());
    let draft = fresh.drafted_identity();
    assert_eq!((draft.name.as_str(), draft.device.as_str()), ("Jamie", "This device"));
    assert_eq!(fresh.settings.signaling_server, "https://other");
    assert_eq!(fresh.server_draft, "https://other");
    fresh.create_identity(Err("no keys".to_owned()));
    assert_eq!(fresh.screen, Screen::Onboarding);
    fresh.create_identity(Ok(profile()));
    assert_eq!(fresh.screen, Screen::Home);
    assert_eq!(fresh.own_code(), "clr-ME");
    assert_eq!(fresh.drafted_names(), ("Jamie".to_owned(), String::new()));
}

#[test]
fn settings_are_edited() {
    let mut app = app();
    assert_eq!(app.max_capture_choice(), 0);
    assert!(app.choose_max_capture(1));
    assert!(!app.choose_max_capture(1));
    assert_eq!(app.settings.max_capture, "1920 × 1080");
    assert_eq!(app.max_capture_choice(), 1);
    assert!(app.choose_profile(CaptureProfile::Motion));
    assert!(!app.choose_profile(CaptureProfile::Motion));
    app.edit_server("https://x".to_owned());
    assert_eq!(app.server_draft, "https://x");
}

#[test]
fn the_chat_button_minds_theatre() {
    let mut app = app();
    app.go(Screen::Room);
    app.viewer_view.active = true;
    app.room_tab = RoomTab::Diagnostics;
    assert!(!app.chat_shown());
    app.press_chat();
    assert!(app.chat_shown());
    assert!(!app.floats_chat());
    app.theatre = true;
    assert!(app.floats_chat());
    app.press_chat();
    assert!(!app.chat_shown());
    assert!(!app.floats_chat());
    assert_eq!(app.peers(), 0);
    app.viewer_view.live = true;
    assert_eq!(app.peers(), 1);
    assert_eq!(app.window_title(), "Clarity — Watching");
}

fn hosted(sharing: SharingState) -> PresenterView {
    let mut view = PresenterView::new();
    view.active = true;
    view.open = true;
    view.sharing = sharing;
    view.status = "status".to_owned();
    view.room_id = Some("abcdefghij".to_owned());
    view.viewer_url = Some("https://host/r/abcdefghij#hidden".to_owned());
    view.presenter_secret = Some(Secret::new("hidden".to_owned()));
    view
}

#[test]
fn rooms_are_announced_once_and_withdrawn() {
    let mut announcer = Announcer::new();
    let mut view = hosted(SharingState::Live);
    let announced = announcer.update(&view).expect("announced").expect("a room");
    assert_eq!(announced.room.room_id, "abcdefghij");
    assert_eq!(secret_as_str(&announced.presenter_secret), "hidden");
    assert!(announcer.update(&view).is_none());
    view.ended = true;
    assert!(matches!(announcer.update(&view), Some(None)));
    assert!(announcer.update(&view).is_none());
    view.ended = false;
    announcer.update(&view);
    assert!(announcer.withdraw());
    assert!(!announcer.withdraw());
    announcer.update(&view);
    announcer.reset();
    assert!(announcer.update(&view).is_some());
}

#[test]
fn the_hosted_stage_shows_what_is_there() {
    let mut view = hosted(SharingState::Live);
    assert_eq!(presenter_stage(&view, true), HostStage::Waiting);
    view.frame_size = Some((0, 5));
    assert_eq!(presenter_stage(&view, true), HostStage::Waiting);
    view.frame_size = Some((640, 480));
    assert_eq!(presenter_stage(&view, false), HostStage::Waiting);
    assert_eq!(presenter_stage(&view, true), HostStage::Preview { size: (640, 480) });
    view.reconnecting = true;
    assert_eq!(presenter_marks(&view, true), ["LIVE", "640×480", "RECONNECTING"]);
    assert_eq!(presenter_stage(&hosted(SharingState::Idle), true), HostStage::Offer);
    assert_eq!(presenter_stage(&hosted(SharingState::Paused), true), HostStage::Paused);
    view.ended = true;
    assert_eq!(
        presenter_stage(&view, true),
        HostStage::Ended {
            headline: "The room has ended".to_owned(),
            failed: false,
            detail: "status".to_owned(),
        }
    );
    assert!(presenter_marks(&view, true).is_empty());
    view.open = false;
    assert!(matches!(presenter_stage(&view, true), HostStage::Ended { failed: true, .. }));
    view.ended = false;
    assert_eq!(
        presenter_stage(&view, true),
        HostStage::Opening { detail: "status".to_owned(), preview: Some((640, 480)) }
    );
    assert_eq!(
        presenter_stage(&view, false),
        HostStage::Opening { detail: "status".to_owned(), preview: None }
    );
    view.sharing = SharingState::Idle;
    assert_eq!(
        presenter_stage(&view, true),
        HostStage::Opening { detail: "status".to_owned(), preview: None }
    );
    assert_eq!(hosting_mark(true, SharingState::Live), Tone::Bad);
    assert_eq!(hosting_mark(false, SharingState::Live), Tone::Good);
    assert_eq!(hosting_mark(false, SharingState::Paused), Tone::Warning);
    assert_eq!(hosting_mark(false, SharingState::Idle), Tone::Quiet);
}

#[test]
fn the_watched_stage_never_shows_through_without_a_share() {
    let mut view = ViewerView::new();
    view.status = "Connecting…".to_owned();
    view.frame_size = Some((640, 480));
    assert_eq!(viewer_stage(&view, true), WatchStage::Notice("Connecting…".to_owned()));
    view.live = true;
    assert_eq!(viewer_stage(&view, true), WatchStage::Video((640, 480)));
    view.native_video = true;
    assert_eq!(viewer_stage(&view, false), WatchStage::Hole((640, 480)));
    view.sharing = Some(SharingState::Paused);
    assert_eq!(viewer_stage(&view, true), WatchStage::Notice("share paused".to_owned()));
    view.sharing = Some(SharingState::Idle);
    assert_eq!(
        viewer_stage(&view, true),
        WatchStage::Notice("nothing is being shared right now".to_owned())
    );
    assert!(!offers_retry(&view));
    view.reconnecting = true;
    assert!(offers_retry(&view));
    assert!(is_held_back(2_500, 6_000));
    assert!(!is_held_back(6_000, 6_000));
    assert!(!is_held_back(0, 6_000));
}

#[test]
fn the_hosted_room_follows_its_events() {
    let mut view = hosted(SharingState::Idle);
    let joined = hosting::forward_update(PresenterUpdate::JoinRequested {
        peer_id: "v1".to_owned(),
        display_name: None,
        friend_code: Some("clr-V".to_owned()),
    });
    view.apply(joined, 0);
    assert_eq!(view.requests.len(), 1);
    assert_eq!(
        waiting_label(&view.requests[0]),
        ("Someone".to_owned(), "clr-V".to_owned())
    );
    view.apply(
        hosting::forward_update(PresenterUpdate::ViewerJoined {
            peer_id: "v1".to_owned(),
            display_name: Some("Vee".to_owned()),
        }),
        0,
    );
    assert!(view.requests.is_empty());
    view.apply(
        hosting::forward_update(PresenterUpdate::ViewerConnection {
            peer_id: "v1".to_owned(),
            state: ConnectionState::Connected,
        }),
        0,
    );
    assert_eq!(view.connected_viewers(), 1);
    view.apply(
        hosting::forward_update(PresenterUpdate::SharingState { state: SharingState::Live }),
        0,
    );
    assert!(view.is_live());
    view.apply(
        hosting::forward_update(PresenterUpdate::ViewerLeft { peer_id: "v1".to_owned() }),
        0,
    );
    assert_eq!(view.connected_viewers(), 0);
    view.apply(HostingEvent::Ended("over".to_owned()), 0);
    assert!(view.ended);
    assert_eq!(view.status, "over");
    assert_eq!(view.outgoing_kbps(), 0);
    assert!(!hosting::ended_reason(&Ok(PresenterEnd::RoomExpired)).is_empty());
    assert!(hosting::failure_text(&PresenterError::Broadcast { reason: "gone".to_owned() })
        .contains("gone"));
}

#[test]
fn the_watched_room_follows_its_events() {
    let mut view = ViewerView::new();
    let phase = watching::forward_update(ViewerUpdate::Phase { phase: ViewerPhase::Live })
        .expect("shown");
    view.apply(phase, 0);
    assert!(view.live);
    assert!(view.showing_video());
    view.apply(
        WatchingEvent::Stats(StreamStats {
            bitrate_kbps: Some(900),
            round_trip_us: None,
            packets_lost: None,
            packets_received: None,
            milli_fps: None,
            codec: Some("VP9".to_owned()),
            width: Some(640),
            height: Some(480),
        }),
        SECOND,
    );
    assert_eq!(view.bitrate_kbps, Some(900));
    assert_eq!(view.bitrate_history.samples(), &vec![(SECOND, 900)]);
    view.apply(
        watching::forward_update(ViewerUpdate::SharingState { state: SharingState::Idle })
            .expect("shown"),
        0,
    );
    assert!(!view.showing_video());
    view.apply(WatchingEvent::Ended("over".to_owned()), 0);
    assert!(!view.live);
    assert_eq!(view.status, "over");
    assert_ne!(
        watching::end_label(EndReason::Kicked),
        watching::end_label(EndReason::Rejected)
    );
    assert_ne!(
        watching::phase_label(ViewerPhase::Live),
        watching::phase_label(ViewerPhase::Negotiating)
    );
    let failed: Result<EndReason, ViewerError> =
        Err(ViewerError::PlaybackStart { message: "no decoder".to_owned() });
    assert!(watching::ended_reason(&failed).contains("no decoder"));
}

#[test]
fn the_palette_lists_actions_rooms_and_friends() {
    let mut presence = PresenceView::new();
    presence.apply(PresenceEvent::Snapshot(vec![friend(
        "clr-M",
        true,
        Some(room("https://h/r/a#s", SharingState::Paused)),
    )]));
    let groups = palette_entries(&presence, &contacts(), "Ctrl");
    assert_eq!(groups.actions.len(), 4);
    assert_eq!(groups.actions[0].hint, "Ctrl N");
    assert_eq!(groups.rooms[0].label, "Join Mara's room");
    assert_eq!(groups.rooms[0].hint, "paused");
    assert_eq!(groups.friends[0].hint, "online");
    assert_eq!(groups.friends[0].action, PaletteAction::Join("https://h/r/a#s".to_owned()));
    assert_eq!(groups.friends[1].hint, "pending");
    assert_eq!(groups.friends[1].action, PaletteAction::Go(Screen::Friends));
    let found = visible_entries(&groups.actions, "sett");
    assert_eq!(found.len(), 1);
    assert_eq!(found[0].action, PaletteAction::Go(Screen::Settings));

    let mut app = app();
    app.open_palette();
    app.run_action(PaletteAction::JoinByLink);
    assert!(app.join_open && !app.palette_open);
    app.run_action(PaletteAction::Create);
    assert!(app.create_open && !app.join_open);
    app.run_action(PaletteAction::Join("u".to_owned()));
    assert_eq!(app.viewer_commands, [ViewerCommand::Join("u".to_owned())]);
}

#[test]
fn reports_hold_no_links_or_secrets() {
    let mut app = app();
    app.presenter_view = hosted(SharingState::Live);
    app.presenter_view.viewers = vec![ViewerEntry {
        peer_id: "v1".to_owned(),
        card: ViewerCard {
            name: "June".to_owned(),
            connected: true,
            bitrate_kbps: Some(2_100),
            round_trip_us: Some(12_000),
            packets_lost: Some(0),
            packets_sent: Some(184_000),
            target_kbps: 6_000,
            codec: Some("AV1".to_owned()),
        },
    }];
    app.presenter_view.countdown = Some(RoomCountdown { seconds: 60, at: 0 });
    app.presenter_view.messages =
        vec![ChatMessage { from: "June".to_owned(), text: "hidden".to_owned(), own: false }];
    app.presenter_view.requests = vec![JoinRequest {
        peer_id: "p".to_owned(),
        name: Some("hidden".to_owned()),
        friend_code: None,
    }];
    let report = app.report(10 * SECOND);
    assert!(!format!("{report:?}").contains("hidden"));
    let Report::Presenter { room, sharing, expires_in_seconds, viewers, .. } = report else {
        panic!("the hosted room is reported");
    };
    assert_eq!(room.as_deref(), Some("ABCDEFGH"));
    assert_eq!(sharing, "live");
    assert_eq!(expires_in_seconds, Some(50));
    assert_eq!(viewers[0].name, "June");

    app.presenter_view.active = false;
    app.viewer_view.frame_size = Some((640, 480));
    app.viewer_view.room_code = Some("abc".to_owned());
    let Report::Viewer { room, sharing, stream, .. } = app.report(0) else {
        panic!("the watched room is reported");
    };
    assert_eq!(room.as_deref(), Some("ABC"));
    assert_eq!(sharing, None);
    assert_eq!(stream.resolution.as_deref(), Some("640x480"));
}

#[test]
fn pictures_are_taken_once_the_window_has_settled() {
    let idle = CaptureStep { repaint: false, request: false, save: false };
    assert_eq!(Capture::new(None, None).tick(true), idle);
    let mut capture = Capture::new(Some("shot.png".to_owned()), Some("2".to_owned()));
    assert_eq!(capture.path().as_deref(), Some("shot.png"));
    assert!(!capture.tick(false).request);
    assert!(capture.tick(false).request);
    assert!(!capture.tick(false).request);
    assert!(capture.tick(true).save);
    let mut default = Capture::new(Some("shot.png".to_owned()), Some("x".to_owned()));
    let requests: Vec<bool> = (0..5).map(|_| default.tick(false).request).collect();
    assert_eq!(requests, [false, false, false, true, false]);
}

#[test]
fn histories_stay_a_minute_long_when_the_clock_jumps() {
    let mut history = BitrateHistory::new();
    for step in 0..400 {
        history.record_at(1000 * SECOND + step * SECOND / 2, step as u32);
        assert!(history.samples().len() <= 121);
    }
    assert_eq!(history.samples().len(), 121);
    // An earlier moment is noted on the newest sample.
    history.record_at(SECOND, 9);
    assert_eq!(history.samples().len(), 121);
    assert_eq!(history.samples().last(), Some(&(1199 * SECOND + SECOND / 2, 9)));
    history.record_at(5000 * SECOND, 10);
    assert_eq!(history.samples(), &vec![(5000 * SECOND, 10)]);
}

fn asking(peer_id: &str) -> HostingEvent {
    HostingEvent::JoinRequested(JoinRequest {
        peer_id: peer_id.to_owned(),
        name: None,
        friend_code: None,
    })
}

fn waiting(view: &PresenterView) -> Vec<&str> {
    view.requests.iter().map(|request| request.peer_id.as_str()).collect()
}

#[test]
fn requests_wait_in_the_order_they_came_until_settled() {
    let mut view = PresenterView::new();
    for peer_id in ["a", "b", "c", "b"] {
        view.apply(asking(peer_id), 0);
    }
    assert_eq!(waiting(&view), ["a", "b", "c"]);
    view.apply(HostingEvent::ViewerJoined { peer_id: "b".to_owned(), name: None }, 0);
    assert_eq!(waiting(&view), ["a", "c"]);
    view.apply(HostingEvent::ViewerLeft { peer_id: "a".to_owned() }, 0);
    assert_eq!(waiting(&view), ["c"]);
    // One that asks again waits behind the others.
    view.apply(asking("a"), 0);
    assert_eq!(waiting(&view), ["c", "a"]);
    assert_eq!(view.viewers.len(), 1);
    view.apply(HostingEvent::ViewerLeft { peer_id: "b".to_owned() }, 0);
    assert!(view.viewers.is_empty());
    assert_eq!(waiting(&view), ["c", "a"]);
}

#[test]
fn the_room_of_a_configuration_holds_ten() {
    let config = PresenterConfig {
        server: "https://host".to_owned(),
        profile: CaptureProfile::Motion,
        include_system_audio: true,
        force_relay: false,
        video_codecs: Vec::new(),
        access_policy: RoomAccessPolicy::FriendsOnly,
        allowed_friend_codes: vec!["clr-A".to_owned(), "clr-B".to_owned()],
        auto_approve: true,
        expires_in_seconds: 7200,
        display_name: None,
        initial_source: None,
    };
    let options = hosting_options(&config);
    assert_eq!(options.maximum_viewers, 10);
    assert_eq!(options.expires_in_seconds, 7200);
    assert_eq!(options.access_policy, RoomAccessPolicy::FriendsOnly);
    assert_eq!(options.allowed_friend_codes, config.allowed_friend_codes);
}

#[test]
fn letters_are_matched_and_shown_whatever_their_case() {
    assert!(palette_match("ÉMILE", "Join émile's room"));
    assert!(palette_match("[a] Z", "[A] z"));
    assert_eq!(initials("zoe @home"), "Z@");
    assert_eq!(short_code("az-_09{`"), "AZ-_09{`");
}
