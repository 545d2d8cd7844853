use clarity::client::audio_apps::{
    applications_except, applications_except_in, applications_in_dump, decide_default_audio,
    default_audio_exclusion, default_excluded, excluded_mix_targets, playing_applications,
    resolve_application, resolve_in_dump, AudioAppError, AudioApplication, DefaultAudioDecision,
    DumpOutput, MissingExclusion, NoAudioReason, PlaybackStream,
};
use serde_json::Value;

const DISCORD: &str = r#"{
    "type": "PipeWire:Interface:Node",
    "info": { "props": {
        "media.class": "Stream/Output/Audio",
        "object.serial": 22689,
        "node.name": "WEBRTC VoiceEngine",
        "application.name": "WEBRTC VoiceEngine",
        "application.process.binary": "Discord",
        "media.name": "playStream"
    }}
}"#;

const SPOTIFY: &str = r#"{
    "type": "PipeWire:Interface:Node",
    "info": { "props": {
        "media.class": "Stream/Output/Audio",
        "object.serial": 30001,
        "node.name": "spotify",
        "application.name": "Spotify",
        "application.process.binary": "spotify"
    }}
}"#;

const RECORDER: &str = r#"{
    "type": "PipeWire:Interface:Node",
    "info": { "props": {
        "media.class": "Stream/Input/Audio",
        "object.serial": 40001,
        "application.name": "Some Recorder"
    }}
}"#;

fn parsed(objects: &[&str]) -> Value {
    serde_json::from_str(&format!("[{}]", objects.join(","))).expect("valid JSON")
}

fn dump() -> Value {
    parsed(&[DISCORD, SPOTIFY, RECORDER, r#"{ "type": "PipeWire:Interface:Port" }"#])
}

/// The graph while the voice app is idle: it plays nothing, so it has no output
/// stream.
fn dump_without_discord_playing() -> Value {
    parsed(&[SPOTIFY])
}

fn printed(objects: &[&str]) -> DumpOutput {
    DumpOutput::Exited {
        success: true,
        status: "exit status: 0".to_owned(),
        stdout: format!("[{}]", objects.join(",")).into_bytes(),
    }
}

fn names(applications: &[AudioApplication]) -> Vec<String> {
    applications.iter().map(AudioApplication::display_name).collect()
}

#[test]
fn resolves_by_binary_name_case_insensitively() {
    let resolved = resolve_in_dump(&dump(), "discord").expect("resolves");
    assert_eq!(resolved.serial, 22689);
}

#[test]
fn resolves_by_application_name() {
    let resolved = resolve_in_dump(&dump(), "spot").expect("resolves");
    assert_eq!(resolved.serial, 30001);
    assert_eq!(resolved.label, "Spotify");
}

#[test]
fn recording_streams_are_not_candidates() {
    assert!(matches!(
        resolve_in_dump(&dump(), "recorder"),
        Err(AudioAppError::NotFound { .. })
    ));
}

#[test]
fn unknown_names_list_what_is_playing() {
    let Err(AudioAppError::NotFound { available, .. }) = resolve_in_dump(&dump(), "vlc") else {
        panic!("expected NotFound");
    };
    assert_eq!(available, ["Spotify", "WEBRTC VoiceEngine (Discord)"]);
}

#[test]
fn lists_one_entry_per_application_with_recognizable_names() {
    let applications = applications_in_dump(&dump());
    assert_eq!(names(&applications), ["WEBRTC VoiceEngine (Discord)", "Spotify"]);
}

#[test]
fn matches_across_different_applications_are_ambiguous() {
    // "s" hits both Spotify and the Discord voice engine stream.
    assert!(matches!(
        resolve_in_dump(&dump(), "s"),
        Err(AudioAppError::Ambiguous { .. })
    ));
}

#[test]
fn excluding_an_app_keeps_the_rest() {
    let kept =
        applications_except_in(&dump(), &vec!["discord".to_owned()], MissingExclusion::Reject)
            .expect("resolves");
    assert_eq!(names(&kept), ["Spotify"]);
}

#[test]
fn excluding_something_not_playing_is_an_error_when_strict() {
    // Guards against a typo silently sharing the audio meant to be private.
    assert!(matches!(
        applications_except_in(&dump(), &vec!["discrod".to_owned()], MissingExclusion::Reject),
        Err(AudioAppError::NotFound { .. })
    ));
}

#[test]
fn lenient_exclusion_tolerates_an_idle_app() {
    let kept = applications_except_in(
        &dump_without_discord_playing(),
        &vec!["discord".to_owned()],
        MissingExclusion::Ignore,
    )
    .expect("never rejects");
    assert_eq!(names(&kept), ["Spotify"]);
}

#[test]
fn default_excludes_a_playing_voice_app() {
    let decision = decide_default_audio(&dump(), &vec!["discord".to_owned()]);
    let DefaultAudioDecision::Share(kept) = decision else {
        panic!("music keeps the share audible");
    };
    assert_eq!(names(&kept), ["Spotify"]);
}

#[test]
fn default_never_falls_back_to_the_monitor_when_the_voice_app_is_idle() {
    let decision =
        decide_default_audio(&dump_without_discord_playing(), &vec!["discord".to_owned()]);
    let DefaultAudioDecision::Share(kept) = decision else {
        panic!("playing music is shared per stream");
    };
    assert_eq!(kept.len(), 1);
    assert_eq!(kept[0].label, "Spotify");
}

#[test]
fn default_shares_no_audio_when_only_the_voice_app_plays() {
    let voice_only = parsed(&[r#"{
        "type": "PipeWire:Interface:Node",
        "info": { "props": {
            "media.class": "Stream/Output/Audio",
            "object.serial": 22689,
            "node.name": "WEBRTC VoiceEngine",
            "application.name": "WEBRTC VoiceEngine",
            "application.process.binary": "Discord"
        }}
    }"#]);
    assert_eq!(
        decide_default_audio(&voice_only, &vec!["discord".to_owned()]),
        DefaultAudioDecision::NoAudio(NoAudioReason::OnlyExcludedPlaying)
    );
}

#[test]
fn default_shares_no_audio_when_nothing_plays() {
    assert_eq!(
        decide_default_audio(&parsed(&[]), &vec!["discord".to_owned()]),
        DefaultAudioDecision::NoAudio(NoAudioReason::NothingPlaying)
    );
}

#[test]
fn a_printed_graph_is_read() {
    let output = printed(&[DISCORD, SPOTIFY]);
    assert_eq!(
        names(&playing_applications(&output).expect("read")),
        ["WEBRTC VoiceEngine (Discord)", "Spotify"]
    );
    assert_eq!(resolve_application(&output, "spotify").expect("found").serial, 30001);
    assert_eq!(
        names(&applications_except(&output, &vec!["spotify".to_owned()]).expect("kept")),
        ["WEBRTC VoiceEngine (Discord)"]
    );
    assert_eq!(
        excluded_mix_targets(&output, &default_excluded()),
        Some(vec!["30001".to_owned()])
    );
}

#[test]
fn an_unreadable_graph_shares_nothing() {
    let failed = DumpOutput::Failed { error: "no such file".to_owned() };
    let refused = DumpOutput::Exited {
        success: false,
        status: "exit status: 1".to_owned(),
        stdout: Vec::new(),
    };
    let garbled = DumpOutput::Exited {
        success: true,
        status: "exit status: 0".to_owned(),
        stdout: b"not json".to_vec(),
    };
    for output in [failed, refused, garbled] {
        assert!(matches!(
            playing_applications(&output),
            Err(AudioAppError::Unavailable(_))
        ));
        assert!(matches!(
            default_audio_exclusion(&output, &default_excluded()),
            DefaultAudioDecision::NoAudio(NoAudioReason::GraphUnreadable(_))
        ));
        assert_eq!(excluded_mix_targets(&output, &default_excluded()), None);
    }
}

#[test]
fn streams_fall_back_to_their_own_name() {
    let stream = PlaybackStream {
        serial: 5,
        application_name: None,
        binary: None,
        node_name: Some("mpv".to_owned()),
    };
    assert_eq!(stream.application().label, "mpv");
    assert_eq!(stream.match_terms(), ["mpv"]);
    assert!(stream.goes_by("MPV"));
    assert!(!stream.goes_by("vlc"));
}

#[test]
fn errors_say_what_plays() {
    let error = resolve_in_dump(&dump_without_discord_playing(), "vlc").expect_err("not there");
    assert!(error.message().contains("vlc"));
    assert!(error.message().contains("Spotify"));
    let error = resolve_in_dump(&parsed(&[]), "vlc").expect_err("not there");
    assert!(!error.message().contains("Spotify"));
}
