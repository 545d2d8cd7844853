use clarity::client::audio_apps::{
    AudioAppError, AudioApplication, DefaultAudioDecision, DumpOutput, NoAudioReason,
};
use clarity::client::cli::{
    application_audio, audio_mix_except, audio_request, chosen_audio, default_audio, named_audio,
    parse_number, pick, presenter_command_for, restore_token, room_options, typed_line,
    AudioCapture, AudioChoiceError, AudioRequest, CodecArg, PickError, VideoCodecId,
};
use clarity::client::presenter::{ConnectionState, PresenterCommand, PresenterEnd, PresenterUpdate};
use clarity::client::signaling::SignalingState;
use clarity::client::terminal::{
    presenter_end, receiving_text, report, report_presenter, sending_text, viewer_end, LogLevel,
    LogLine,
};
use clarity::client::viewer::{EndReason, ViewerPhase, ViewerUpdate};
use clarity::protocol::{RoomAccessPolicy, SharingState};

fn texts(entries: &[&str]) -> Vec<String> {
    entries.iter().map(|entry| (*entry).to_owned()).collect()
}

fn streams(targets: &[&str]) -> AudioCapture {
    AudioCapture::Streams { targets: texts(targets) }
}

fn app(serial: u64) -> AudioApplication {
    AudioApplication { serial, label: format!("app {serial}"), binary: None }
}

#[test]
fn a_pinned_codec_is_offered_alone() {
    assert_eq!(CodecArg::Auto.ranking(), []);
    assert_eq!(CodecArg::Av1.ranking(), [VideoCodecId::Av1]);
    assert_eq!(CodecArg::H265.ranking(), [VideoCodecId::H265]);
    assert_eq!(CodecArg::H264.ranking(), [VideoCodecId::H264]);
    assert_eq!(CodecArg::Vp9.ranking(), [VideoCodecId::Vp9]);
    assert_eq!(CodecArg::Vp8.ranking(), [VideoCodecId::Vp8]);
}

#[test]
fn audio_flags_are_weighed_in_order() {
    let none = || Vec::new();
    assert_eq!(audio_request(true, true, false, None, none()), AudioRequest::Silent);
    assert_eq!(audio_request(false, true, false, None, none()), AudioRequest::Everything);
    assert_eq!(audio_request(false, false, true, None, none()), AudioRequest::Everything);
    assert_eq!(
        audio_request(false, false, false, Some(Some("mpv".to_owned())), none()),
        AudioRequest::Application("mpv".to_owned())
    );
    assert_eq!(audio_request(false, false, false, Some(None), none()), AudioRequest::Pick);
    assert_eq!(
        audio_request(false, false, false, None, texts(&["discord"])),
        AudioRequest::Except(texts(&["discord"]))
    );
    assert_eq!(audio_request(false, false, false, None, none()), AudioRequest::Default);
}

#[test]
fn default_shares_never_capture_the_mix() {
    let excluded = || texts(&["discord"]);
    assert_eq!(
        default_audio(&DefaultAudioDecision::Share(vec![app(5), app(9)]), excluded()),
        (streams(&["5", "9"]), Some(excluded()))
    );
    for reason in [NoAudioReason::OnlyExcludedPlaying, NoAudioReason::NothingPlaying] {
        assert_eq!(
            default_audio(&DefaultAudioDecision::NoAudio(reason), excluded()),
            (streams(&[]), Some(excluded()))
        );
    }
    let unreadable = NoAudioReason::GraphUnreadable("no".to_owned());
    assert_eq!(
        default_audio(&DefaultAudioDecision::NoAudio(unreadable), excluded()),
        (AudioCapture::Disabled, None)
    );
}

fn playing() -> DumpOutput {
    let node = |serial: u32, name: &str| {
        format!(
            r#"{{"type":"PipeWire:Interface:Node","info":{{"props":{{"media.class":"Stream/Output/Audio","object.serial":{serial},"application.name":"{name}"}}}}}}"#
        )
    };
    DumpOutput::Exited {
        success: true,
        status: "exit status: 0".to_owned(),
        stdout: format!("[{},{}]", node(5, "Discord"), node(9, "Spotify")).into_bytes(),
    }
}

#[test]
fn exclusions_of_the_command_line_are_strict() {
    assert_eq!(audio_mix_except(&playing(), &texts(&["discord"])), Ok(streams(&["9"])));
    assert_eq!(
        audio_mix_except(&playing(), &texts(&["discord", "spotify"])),
        Ok(AudioCapture::Disabled)
    );
    assert!(matches!(
        audio_mix_except(&playing(), &texts(&["discrod"])),
        Err(AudioAppError::NotFound { .. })
    ));
}

#[test]
fn a_named_application_is_captured_alone() {
    assert_eq!(named_audio(&playing(), "spot"), Ok(streams(&["9"])));
    assert!(matches!(named_audio(&playing(), "vlc"), Err(AudioAppError::NotFound { .. })));
    let failed = DumpOutput::Failed { error: "no".to_owned() };
    assert!(matches!(named_audio(&failed, "spot"), Err(AudioAppError::Unavailable(_))));
    assert_eq!(application_audio(&app(7)), streams(&["7"]));
}

#[test]
fn numbers_are_read_as_typed() {
    assert_eq!(parse_number("0"), Some(0));
    assert_eq!(parse_number("+12"), Some(12));
    assert_eq!(parse_number("18446744073709551615"), Some(u64::MAX));
    assert_eq!(parse_number("18446744073709551616"), None);
    for text in ["", "+", "-1", "1x", " 1"] {
        assert_eq!(parse_number(text), None);
    }
}

#[test]
fn applications_are_picked_by_number() {
    assert_eq!(pick(0, "1"), Err(PickError::NothingPlaying));
    assert_eq!(pick(1, "nonsense"), Ok(0));
    assert_eq!(pick(3, " 2\n"), Ok(1));
    assert_eq!(pick(3, "0"), Ok(0));
    assert_eq!(pick(3, "x"), Err(PickError::NotANumber));
    assert_eq!(pick(3, "4"), Err(PickError::OutOfRange));
}

#[test]
fn naming_friends_restricts_a_room_to_them() {
    let options = room_options(4, 2, true, texts(&["clr-A"]));
    assert_eq!(options.access_policy, RoomAccessPolicy::FriendsOnly);
    assert_eq!(options.expires_in_seconds, 7200);
    assert_eq!(
        room_options(4, 1, true, Vec::new()).access_policy,
        RoomAccessPolicy::ApprovalRequired
    );
    assert_eq!(room_options(4, 1, false, Vec::new()).access_policy, RoomAccessPolicy::Public);
    assert_eq!(room_options(4, u32::MAX, false, Vec::new()).expires_in_seconds, u32::MAX);
}

#[test]
fn typed_lines_answer_requests_or_chat() {
    assert_eq!(
        presenter_command_for("/approve  v1 "),
        PresenterCommand::ApproveViewer { peer_id: "v1".to_owned() }
    );
    assert_eq!(
        presenter_command_for("/deny v1"),
        PresenterCommand::RejectViewer { peer_id: "v1".to_owned() }
    );
    assert_eq!(
        presenter_command_for("/approve"),
        PresenterCommand::Chat { text: "/approve".to_owned() }
    );
    assert_eq!(typed_line("  hello \n").as_deref(), Some("hello"));
    assert_eq!(typed_line(" \n"), None);
}

#[test]
fn grants_are_reused_only_when_remembered() {
    let kept = || Some(" token\n".to_owned());
    assert_eq!(restore_token(true, false, kept()).as_deref(), Some("token"));
    assert_eq!(restore_token(false, false, kept()), None);
    assert_eq!(restore_token(true, true, kept()), None);
    assert_eq!(restore_token(true, false, Some(" ".to_owned())), None);
    assert_eq!(restore_token(true, false, None), None);
}

#[test]
fn a_choice_says_what_is_watched() {
    let output = playing();
    let failed = DumpOutput::Failed { error: "no".to_owned() };
    assert_eq!(
        chosen_audio(AudioRequest::Silent, &failed, ""),
        Ok((AudioCapture::Disabled, None))
    );
    assert_eq!(
        chosen_audio(AudioRequest::Everything, &failed, ""),
        Ok((AudioCapture::SystemMix, None))
    );
    assert_eq!(
        chosen_audio(AudioRequest::Application("spot".to_owned()), &output, ""),
        Ok((streams(&["9"]), None))
    );
    assert_eq!(chosen_audio(AudioRequest::Pick, &output, "2\n"), Ok((streams(&["9"]), None)));
    assert_eq!(
        chosen_audio(AudioRequest::Pick, &output, "x"),
        Err(AudioChoiceError::Pick(PickError::NotANumber))
    );
    assert_eq!(
        chosen_audio(AudioRequest::Except(texts(&["discord"])), &output, ""),
        Ok((streams(&["9"]), Some(texts(&["discord"]))))
    );
    assert_eq!(
        chosen_audio(AudioRequest::Except(texts(&["spotify", "discord"])), &output, ""),
        Ok((AudioCapture::Disabled, Some(texts(&["spotify", "discord"]))))
    );
    assert!(matches!(
        chosen_audio(AudioRequest::Except(texts(&["discrod"])), &output, ""),
        Err(AudioChoiceError::Apps(AudioAppError::NotFound { .. }))
    ));
    assert!(matches!(
        chosen_audio(AudioRequest::Pick, &failed, "1"),
        Err(AudioChoiceError::Apps(AudioAppError::Unavailable(_)))
    ));
    assert_eq!(
        chosen_audio(AudioRequest::Default, &output, ""),
        Ok((streams(&["9"]), Some(texts(&["discord"]))))
    );
    assert_eq!(
        chosen_audio(AudioRequest::Default, &failed, ""),
        Ok((AudioCapture::Disabled, None))
    );
}

#[test]
fn errors_of_a_choice_are_said() {
    let failed = DumpOutput::Failed { error: "no".to_owned() };
    let said = |request, line: &str| {
        let error = chosen_audio(request, &playing(), line).expect_err("a refusal");
        error.message(2)
    };
    assert_eq!(said(AudioRequest::Pick, "x"), "expected a number between 1 and 2");
    assert_eq!(
        said(AudioRequest::Pick, "3"),
        "expected a number between 1 and the listed count"
    );
    assert_eq!(
        AudioChoiceError::Pick(PickError::NothingPlaying).message(0),
        "nothing is playing audio right now; start playback in the application first"
    );
    let unavailable = chosen_audio(AudioRequest::Pick, &failed, "").expect_err("a refusal");
    assert_eq!(
        unavailable.message(0),
        AudioAppError::Unavailable("no".to_owned()).message()
    );
}

fn line(level: LogLevel, text: &str) -> Option<LogLine> {
    Some(LogLine { level, text: text.to_owned() })
}

#[test]
fn presenters_see_what_happens_in_their_room() {
    let peer_id = "p1".to_owned();
    assert_eq!(
        report_presenter(&PresenterUpdate::Signaling { state: SignalingState::Reconnecting }),
        line(LogLevel::Warn, "connection lost; reconnecting")
    );
    assert_eq!(
        report_presenter(&PresenterUpdate::Signaling { state: SignalingState::Closed }),
        None
    );
    assert_eq!(
        report_presenter(&PresenterUpdate::SharingState { state: SharingState::Idle }),
        line(LogLevel::Info, "not sharing; the room stays open")
    );
    assert_eq!(
        report_presenter(&PresenterUpdate::RoomExpiry { expires_in_seconds: 60 }),
        line(LogLevel::Debug, "room expiry expires_in_seconds=60")
    );
    assert_eq!(
        report_presenter(&PresenterUpdate::JoinRequested {
            peer_id: peer_id.clone(),
            display_name: None,
            friend_code: None,
        }),
        line(LogLevel::Info, "a viewer asked to join viewer=p1 friend=-")
    );
    assert_eq!(
        report_presenter(&PresenterUpdate::ViewerJoined {
            peer_id: peer_id.clone(),
            display_name: Some("Mara".to_owned()),
        }),
        line(LogLevel::Info, "Mara joined viewer=p1")
    );
    assert_eq!(
        report_presenter(&PresenterUpdate::ViewerConnection {
            peer_id: peer_id.clone(),
            state: ConnectionState::Failed,
        }),
        line(LogLevel::Debug, "viewer connection state viewer=p1 state=Failed")
    );
    assert_eq!(
        report_presenter(&PresenterUpdate::Chat {
            peer_id,
            sender: "Mara".to_owned(),
            text: "hi".to_owned(),
        }),
        line(LogLevel::Info, "chat: Mara: hi viewer=p1")
    );
    assert_eq!(
        sending_text("p1", Some(800), 900, Some(-1), Some("12 ms".to_owned())),
        "sending 800 kbps (target 900), -1 lost, rtt 12 ms viewer=p1"
    );
    assert_eq!(presenter_end(PresenterEnd::Left), "left the room; it stays open until it expires");
}

#[test]
fn viewers_see_what_happens_in_a_room() {
    assert_eq!(
        report(&ViewerUpdate::Signaling { state: SignalingState::Authenticating }),
        line(LogLevel::Info, "presenting the invitation")
    );
    assert_eq!(report(&ViewerUpdate::Phase { phase: ViewerPhase::Connecting }), None);
    assert_eq!(
        report(&ViewerUpdate::Phase { phase: ViewerPhase::Live }),
        line(LogLevel::Info, "live — the stream window is open")
    );
    assert_eq!(report(&ViewerUpdate::SharingState { state: SharingState::Live }), None);
    assert_eq!(
        report(&ViewerUpdate::PresenterConnected { connected: false }),
        line(LogLevel::Warn, "the presenter disconnected; the room is waiting for them")
    );
    assert_eq!(
        report(&ViewerUpdate::Chat { sender: "Mara".to_owned(), text: "hi".to_owned() }),
        line(LogLevel::Info, "chat: Mara: hi")
    );
    assert_eq!(
        receiving_text(Some(640), Some(480), Some("AV1".to_owned()), Some(5), None, None),
        "640x480 AV1 5 kbps, ? lost, rtt ?"
    );
    assert_eq!(receiving_text(Some(640), None, None, None, None, None), "? ? ? kbps, ? lost, rtt ?");
    assert_eq!(viewer_end(EndReason::Kicked), "the presenter removed you from the room");
}
