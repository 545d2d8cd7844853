//! What the command line asks for.
use vstd::prelude::*;
use vstd::string::*;

use crate::client::audio_apps;
use crate::client::audio_apps::{
    AudioAppError, AudioAppErrorView, AudioApplication, AudioApplicationView, DefaultAudioDecision,
    DefaultAudioDecisionView, DumpOutput, DumpOutputView, MissingExclusion, NoAudioReason,
    NoAudioReasonView, PlaybackStreamView,
};
use crate::client::presenter::types::{PresenterCommand, PresenterCommandView};
use crate::client::rooms::{RoomOptions, RoomOptionsView};
use crate::protocol::RoomAccessPolicy;
use crate::text;

verus! {

/// A video codec.
#[derive(Debug, Clone, Copy, PartialEq, Eq, Structural)]
pub enum VideoCodecId {
    Av1,
    H265,
    H264,
    Vp9,
    Vp8,
}

impl DeepView for VideoCodecId {
    type V = VideoCodecId;

    open spec fn deep_view(&self) -> VideoCodecId {
        *self
    }
}

/// The codec that the command line asks for.
#[derive(Debug, Clone, Copy, PartialEq, Eq, Structural)]
pub enum CodecArg {
    Auto,
    Av1,
    H265,
    H264,
    Vp9,
    Vp8,
}

impl DeepView for CodecArg {
    type V = CodecArg;

    open spec fn deep_view(&self) -> CodecArg {
        *self
    }
}

/// The sound that goes with a share.
#[derive(Debug, PartialEq, Eq)]
pub enum AudioCapture {
    Disabled,
    /// Everything that plays.
    SystemMix,
    /// Exactly these streams.
    Streams {
        targets: Vec<String>,
    },
}

/// What a [`AudioCapture`] holds.
#[verifier::ext_equal]
pub enum AudioCaptureView {
    Disabled,
    SystemMix,
    Streams { targets: Seq<Seq<char>> },
}

impl View for AudioCapture {
    type V = AudioCaptureView;

    open spec fn view(&self) -> AudioCaptureView {
        match self {
            AudioCapture::Disabled => AudioCaptureView::Disabled,
            AudioCapture::SystemMix => AudioCaptureView::SystemMix,
            AudioCapture::Streams { targets } => AudioCaptureView::Streams {
                targets: targets.deep_view(),
            },
        }
    }
}

impl DeepView for AudioCapture {
    type V = AudioCaptureView;

    open spec fn deep_view(&self) -> AudioCaptureView {
        self@
    }
}

impl Clone for AudioCapture {
    fn clone(&self) -> (r: Self)
        ensures
            r@ == self@,
    {
        match self {
            AudioCapture::Disabled => AudioCapture::Disabled,
            AudioCapture::SystemMix => AudioCapture::SystemMix,
            AudioCapture::Streams { targets } => {
                let targets_copy = targets.clone();
                assert(targets_copy.deep_view() =~= targets.deep_view());
                AudioCapture::Streams {
                    targets: targets_copy,
                }
            },
        }
    }
}

/// What the command line says of sound.
#[derive(Debug, PartialEq, Eq)]
pub enum AudioRequest {
    Silent,
    Everything,
    /// One application, by its name.
    Application(String),
    /// One application, picked from those that play.
    Pick,
    /// Everything but these.
    Except(Vec<String>),
    Default,
}

/// What a [`AudioRequest`] holds.
#[verifier::ext_equal]
pub enum AudioRequestView {
    Silent,
    Everything,
    Application(Seq<char>),
    Pick,
    Except(Seq<Seq<char>>),
    Default,
}

impl View for AudioRequest {
    type V = AudioRequestView;

    open spec fn view(&self) -> AudioRequestView {
        match self {
            AudioRequest::Silent => AudioRequestView::Silent,
            AudioRequest::Everything => AudioRequestView::Everything,
            AudioRequest::Application(first) => AudioRequestView::Application(first@),
            AudioRequest::Pick => AudioRequestView::Pick,
            AudioRequest::Except(first) => AudioRequestView::Except(first.deep_view()),
            AudioRequest::Default => AudioRequestView::Default,
        }
    }
}

impl DeepView for AudioRequest {
    type V = AudioRequestView;

    open spec fn deep_view(&self) -> AudioRequestView {
        self@
    }
}

impl Clone for AudioRequest {
    fn clone(&self) -> (r: Self)
        ensures
            r@ == self@,
    {
        match self {
            AudioRequest::Silent => AudioRequest::Silent,
            AudioRequest::Everything => AudioRequest::Everything,
            AudioRequest::Application(first) => AudioRequest::Application(first.clone()),
            AudioRequest::Pick => AudioRequest::Pick,
            AudioRequest::Except(first) => {
                let first_copy = first.clone();
                assert(first_copy.deep_view() =~= first.deep_view());
                AudioRequest::Except(first_copy)
            },
            AudioRequest::Default => AudioRequest::Default,
        }
    }
}

/// The codecs to offer, best first; none for the ranking of the engine. A codec
/// that is asked for is offered alone.
pub open spec fn ranking_of(codec: CodecArg) -> Seq<VideoCodecId> {
    match codec {
        CodecArg::Auto => Seq::empty(),
        CodecArg::Av1 => seq![VideoCodecId::Av1],
        CodecArg::H265 => seq![VideoCodecId::H265],
        CodecArg::H264 => seq![VideoCodecId::H264],
        CodecArg::Vp9 => seq![VideoCodecId::Vp9],
        CodecArg::Vp8 => seq![VideoCodecId::Vp8],
    }
}

impl CodecArg {
    /// The codecs to offer, best first.
    pub fn ranking(self) -> (r: Vec<VideoCodecId>)
        ensures
            r@ == ranking_of(self),
    {
        let mut r: Vec<VideoCodecId> = Vec::new();
        match self {
            CodecArg::Auto => {},
            CodecArg::Av1 => r.push(VideoCodecId::Av1),
            CodecArg::H265 => r.push(VideoCodecId::H265),
            CodecArg::H264 => r.push(VideoCodecId::H264),
            CodecArg::Vp9 => r.push(VideoCodecId::Vp9),
            CodecArg::Vp8 => r.push(VideoCodecId::Vp8),
        }
        assert(r@ =~= ranking_of(self));
        r
    }
}

/// What is said of sound: silence first, then everything, then one application,
/// then exclusions; otherwise the default.
pub open spec fn requested(
    no_audio: bool,
    all_audio: bool,
    synthetic: bool,
    audio_app: Option<Option<Seq<char>>>,
    audio_except: Seq<Seq<char>>,
) -> AudioRequestView {
    if no_audio {
        AudioRequestView::Silent
    } else if all_audio || synthetic {
        AudioRequestView::Everything
    } else {
        match audio_app {
            Some(Some(name)) => AudioRequestView::Application(name),
            Some(None) => AudioRequestView::Pick,
            None => if audio_except.len() > 0 {
                AudioRequestView::Except(audio_except)
            } else {
                AudioRequestView::Default
            },
        }
    }
}

/// What the command line says of sound.
pub fn audio_request(
    no_audio: bool,
    all_audio: bool,
    synthetic: bool,
    audio_app: Option<Option<String>>,
    audio_except: Vec<String>,
) -> (r: AudioRequest)
    ensures
        r@ == requested(
            no_audio,
            all_audio,
            synthetic,
            audio_app.deep_view(),
            audio_except.deep_view(),
        ),
{
    if no_audio {
        return AudioRequest::Silent;
    }
    if all_audio || synthetic {
        return AudioRequest::Everything;
    }
    match audio_app {
        Some(Some(name)) => AudioRequest::Application(name),
        Some(None) => AudioRequest::Pick,
        None => {
            if audio_except.len() > 0 {
                AudioRequest::Except(audio_except)
            } else {
                AudioRequest::Default
            }
        },
    }
}

/// The streams of these applications.
pub open spec fn streams(apps: Seq<AudioApplicationView>) -> AudioCaptureView {
    AudioCaptureView::Streams { targets: audio_apps::targets(apps) }
}

/// The capture of a default share, and what is kept out of it while it lasts.
/// Without a readable graph nothing is captured.
pub open spec fn default_capture(decision: DefaultAudioDecisionView, excluded: Seq<Seq<char>>) -> (
    AudioCaptureView,
    Option<Seq<Seq<char>>>,
) {
    match decision {
        DefaultAudioDecisionView::Share(apps) => (streams(apps), Some(excluded)),
        DefaultAudioDecisionView::NoAudio(reason) => match reason {
            NoAudioReasonView::GraphUnreadable(_) => (AudioCaptureView::Disabled, None),
            _ => (AudioCaptureView::Streams { targets: Seq::empty() }, Some(excluded)),
        },
    }
}

/// The targets of applications.
pub fn target_texts(apps: &Vec<AudioApplication>) -> (r: Vec<String>)
    ensures
        r.deep_view() == audio_apps::targets(apps.deep_view()),
{
    let ghost all = audio_apps::targets(apps.deep_view());
    let mut r: Vec<String> = Vec::new();
    assert(r.deep_view() =~= all.take(0));
    for i in 0..apps.len()
        invariant
            all == audio_apps::targets(apps.deep_view()),
            r.deep_view() == all.take(i as int),
    {
        let ghost before = r.deep_view();
        r.push(text::decimal_text(apps[i].serial));
        assert(r.deep_view() =~= before.push(all[i as int]));
        assert(r.deep_view() =~= all.take(i + 1));
    }
    assert(all.take(all.len() as int) =~= all);
    r
}

/// The capture of a default share.
pub fn default_audio(decision: &DefaultAudioDecision, excluded: Vec<String>) -> (r: (
    AudioCapture,
    Option<Vec<String>>,
))
    ensures
        (r.0@, r.1.deep_view()) == default_capture(decision@, excluded.deep_view()),
{
    match decision {
        DefaultAudioDecision::Share(apps) => (
            AudioCapture::Streams { targets: target_texts(apps) },
            Some(excluded),
        ),
        DefaultAudioDecision::NoAudio(NoAudioReason::GraphUnreadable(_)) => (
            AudioCapture::Disabled,
            None,
        ),
        DefaultAudioDecision::NoAudio(_) => {
            let none: Vec<String> = Vec::new();
            assert(none.deep_view() =~= Seq::empty());
            (AudioCapture::Streams { targets: none }, Some(excluded))
        },
    }
}

/// The capture of everything but some applications: none where nothing else
/// plays.
pub open spec fn capture_without(kept: Seq<AudioApplicationView>) -> AudioCaptureView {
    if kept.len() == 0 {
        AudioCaptureView::Disabled
    } else {
        streams(kept)
    }
}

/// Resolves the exclusions of the command line. A mistyped name is an error.
pub fn audio_mix_except(output: &DumpOutput, excluded: &Vec<String>) -> (r: Result<
    AudioCapture,
    AudioAppError,
>)
    ensures
        match audio_apps::dumped(output@) {
            Ok(leaves) => match audio_apps::without(
                audio_apps::streams_of(leaves),
                excluded.deep_view(),
                MissingExclusion::Reject,
            ) {
                Ok(kept) => r matches Ok(capture) && capture@ == capture_without(kept),
                Err(error) => r matches Err(e) && e@ == error,
            },
            Err(reason) => r matches Err(e) && e@ == AudioAppErrorView::Unavailable(reason),
        },
{
    match audio_apps::applications_except(output, excluded) {
        Ok(kept) => {
            if kept.len() == 0 {
                Ok(AudioCapture::Disabled)
            } else {
                Ok(AudioCapture::Streams { targets: target_texts(&kept) })
            }
        },
        Err(error) => Err(error),
    }
}

/// Why no application was picked.
#[derive(Debug, Clone, Copy, PartialEq, Eq, Structural)]
pub enum PickError {
    /// Nothing plays audio.
    NothingPlaying,
    /// The answer is no number.
    NotANumber,
    /// There are not so many applications.
    OutOfRange,
}

impl DeepView for PickError {
    type V = PickError;

    open spec fn deep_view(&self) -> PickError {
        *self
    }
}

/// The number that a text is in decimal, with a plus sign before it or not, as
/// far as it fits in 64 bits.
pub open spec fn number(s: Seq<char>) -> Option<nat> {
    let digits = if s.len() > 0 && s[0] == '+' {
        s.skip(1)
    } else {
        s
    };
    if digits.len() > 0 && all_digits(digits) && value_of(digits) <= u64::MAX {
        Some(value_of(digits))
    } else {
        None
    }
}

/// Whether there is nothing but decimal digits.
pub open spec fn all_digits(s: Seq<char>) -> bool {
    forall|i: int| 0 <= i < s.len() ==> '0' <= #[trigger] s[i] <= '9'
}

/// What digits stand for.
pub open spec fn value_of(s: Seq<char>) -> nat
    decreases s.len(),
{
    if s.len() == 0 {
        0
    } else {
        (value_of(s.drop_last()) * 10 + (s.last() as int - '0' as int)) as nat
    }
}

proof fn lemma_value_grows(s: Seq<char>, n: int)
    requires
        0 <= n <= s.len(),
        all_digits(s),
    ensures
        value_of(s.take(n)) <= value_of(s),
    decreases s.len(),
{
    if n < s.len() {
        let init = s.drop_last();
        assert(all_digits(init)) by {
            assert forall|i: int| 0 <= i < init.len() implies '0' <= #[trigger] init[i] <= '9' by {
                assert('0' <= s[i] <= '9');
            }
        }
        lemma_value_grows(init, n);
        assert(init.take(n) =~= s.take(n));
        assert('0' <= s[s.len() - 1] <= '9');
    } else {
        assert(s.take(n) =~= s);
    }
}

/// The number that a text is.
pub fn parse_number(s: &str) -> (r: Option<u64>)
    ensures
        match r {
            Some(n) => number(s@) == Some(n as nat),
            None => number(s@) is None,
        },
{
    let chars = text::chars_of(s);
    let start: usize = if chars.len() > 0 && chars[0] == '+' {
        1
    } else {
        0
    };
    let ghost digits = chars@.skip(start as int);
    assert(start == 0 ==> digits =~= s@);
    if chars.len() == start {
        return None;
    }
    let mut n: u64 = 0;
    assert(digits.take(0) =~= Seq::empty());
    for i in start..chars.len()
        invariant
            start <= i <= chars@.len(),
            start <= 1,
            chars@ == s@,
            digits == chars@.skip(start as int),
            digits == if s@.len() > 0 && s@[0] == '+' {
                s@.skip(1)
            } else {
                s@
            },
            forall|j: int| 0 <= j < i - start ==> '0' <= #[trigger] digits[j] <= '9',
            n == value_of(digits.take(i - start)),
    {
        let c: char = chars[i];
        assert(digits[i - start] == c);
        if c < '0' || c > '9' {
            assert(!all_digits(digits));
            return None;
        }
        proof {
            let next = digits.take(i - start + 1);
            assert(next.drop_last() =~= digits.take(i - start));
            assert(next.last() == c);
        }
        let digit: u64 = (c as u32 - 48) as u64;
        if n > (0xffff_ffff_ffff_ffff - digit) / 10 {
            proof {
                if all_digits(digits) {
                    lemma_value_grows(digits, i - start + 1);
                }
            }
            return None;
        }
        n = n * 10 + digit;
    }
    assert(digits.take(digits.len() as int) =~= digits);
    assert(all_digits(digits));
    Some(n)
}

/// Which of so many applications is picked: the only one without asking, or the
/// one whose number is answered. Zero stands for the first.
pub open spec fn picked(count: nat, answer: Seq<char>) -> Result<nat, PickError> {
    if count == 0 {
        Err(PickError::NothingPlaying)
    } else if count == 1 {
        Ok(0)
    } else {
        match number(text::trim(answer)) {
            None => Err(PickError::NotANumber),
            Some(n) => {
                let index = if n == 0 {
                    0
                } else {
                    (n - 1) as nat
                };
                if index < count {
                    Ok(index)
                } else {
                    Err(PickError::OutOfRange)
                }
            },
        }
    }
}

/// Which of so many applications is picked.
pub fn pick(count: usize, answer: &str) -> (r: Result<usize, PickError>)
    ensures
        match r {
            Ok(index) => picked(count as nat, answer@) == Ok::<nat, PickError>(index as nat),
            Err(error) => picked(count as nat, answer@) == Err::<nat, PickError>(error),
        },
{
    if count == 0 {
        return Err(PickError::NothingPlaying);
    }
    if count == 1 {
        return Ok(0);
    }
    match parse_number(text::trimmed(answer).as_str()) {
        None => Err(PickError::NotANumber),
        Some(n) => {
            let index: u64 = if n == 0 {
                0
            } else {
                n - 1
            };
            if index < count as u64 {
                Ok(index as usize)
            } else {
                Err(PickError::OutOfRange)
            }
        },
    }
}

/// The sound of one application alone.
pub fn application_audio(application: &AudioApplication) -> (r: AudioCapture)
    ensures
        r@ == streams(seq![application@]),
{
    let targets: Vec<String> = vec![text::decimal_text(application.serial)];
    assert(targets.deep_view() =~= audio_apps::targets(seq![application@]));
    AudioCapture::Streams { targets }
}

/// Resolves the application that the command line names.
pub fn named_audio(output: &DumpOutput, name: &str) -> (r: Result<AudioCapture, AudioAppError>)
    ensures
        match audio_apps::dumped(output@) {
            Ok(leaves) => match audio_apps::resolved(audio_apps::streams_of(leaves), name@) {
                Ok(application) => r matches Ok(capture) && capture@ == streams(seq![application]),
                Err(error) => r matches Err(e) && e@ == error,
            },
            Err(reason) => r matches Err(e) && e@ == AudioAppErrorView::Unavailable(reason),
        },
{
    match audio_apps::resolve_application(output, name) {
        Ok(application) => Ok(application_audio(&application)),
        Err(error) => Err(error),
    }
}

/// Why the sound that is asked for cannot be had.
#[derive(Debug, PartialEq, Eq)]
pub enum AudioChoiceError {
    /// The applications that play do not allow it.
    Apps(AudioAppError),
    /// No application was picked.
    Pick(PickError),
}

/// What an [`AudioChoiceError`] holds.
#[verifier::ext_equal]
pub enum AudioChoiceErrorView {
    Apps(AudioAppErrorView),
    Pick(PickError),
}

impl View for AudioChoiceError {
    type V = AudioChoiceErrorView;

    open spec fn view(&self) -> AudioChoiceErrorView {
        match self {
            AudioChoiceError::Apps(error) => AudioChoiceErrorView::Apps(error@),
            AudioChoiceError::Pick(error) => AudioChoiceErrorView::Pick(*error),
        }
    }
}

/// What is said where the sound cannot be had, with so many applications to pick
/// from.
pub open spec fn choice_message(error: AudioChoiceErrorView, count: nat) -> Seq<char> {
    match error {
        AudioChoiceErrorView::Apps(error) => audio_apps::message_of(error),
        AudioChoiceErrorView::Pick(PickError::NothingPlaying) =>
            "nothing is playing audio right now; start playback in the application first"@,
        AudioChoiceErrorView::Pick(PickError::NotANumber) => "expected a number between 1 and "@
            + text::decimal(count),
        AudioChoiceErrorView::Pick(PickError::OutOfRange) =>
            "expected a number between 1 and the listed count"@,
    }
}

impl AudioChoiceError {
    /// What is said of it, with so many applications to pick from.
    pub fn message(&self, count: usize) -> (r: String)
        ensures
            r@ == choice_message(self@, count as nat),
    {
        match self {
            AudioChoiceError::Apps(error) => error.message(),
            AudioChoiceError::Pick(PickError::NothingPlaying) =>
                "nothing is playing audio right now; start playback in the application first".to_owned(),
            AudioChoiceError::Pick(PickError::NotANumber) => {
                let mut r = "expected a number between 1 and ".to_owned();
                r.push_str(text::decimal_text(count as u64).as_str());
                r
            },
            AudioChoiceError::Pick(PickError::OutOfRange) =>
                "expected a number between 1 and the listed count".to_owned(),
        }
    }
}

/// The graph that was dumped, or the error that there is none.
pub open spec fn heard(output: DumpOutputView) -> Result<
    Seq<PlaybackStreamView>,
    AudioChoiceErrorView,
> {
    match audio_apps::dumped(output) {
        Ok(leaves) => Ok(audio_apps::streams_of(leaves)),
        Err(reason) => Err(AudioChoiceErrorView::Apps(AudioAppErrorView::Unavailable(reason))),
    }
}

/// The sound of a share, and what is kept out of it while it lasts. Only an
/// exclusion and the default keep anything out; `line` is the answer to which
/// application is picked.
pub open spec fn chosen(request: AudioRequestView, output: DumpOutputView, line: Seq<char>) -> Result<
    (AudioCaptureView, Option<Seq<Seq<char>>>),
    AudioChoiceErrorView,
> {
    match request {
        AudioRequestView::Silent => Ok((AudioCaptureView::Disabled, None)),
        AudioRequestView::Everything => Ok((AudioCaptureView::SystemMix, None)),
        AudioRequestView::Application(name) => match heard(output) {
            Ok(playing) => match audio_apps::resolved(playing, name) {
                Ok(application) => Ok((streams(seq![application]), None)),
                Err(error) => Err(AudioChoiceErrorView::Apps(error)),
            },
            Err(error) => Err(error),
        },
        AudioRequestView::Pick => match heard(output) {
            Ok(playing) => {
                let applications = audio_apps::applications(playing);
                match picked(applications.len(), line) {
                    Ok(index) => Ok((streams(seq![applications[index as int]]), None)),
                    Err(error) => Err(AudioChoiceErrorView::Pick(error)),
                }
            },
            Err(error) => Err(error),
        },
        AudioRequestView::Except(excluded) => match heard(output) {
            Ok(playing) => match audio_apps::without(playing, excluded, MissingExclusion::Reject) {
                Ok(kept) => Ok((capture_without(kept), Some(excluded))),
                Err(error) => Err(AudioChoiceErrorView::Apps(error)),
            },
            Err(error) => Err(error),
        },
        AudioRequestView::Default => Ok(
            default_capture(
                audio_apps::excluding(audio_apps::dumped(output), seq!["discord"@]),
                seq!["discord"@],
            ),
        ),
    }
}

/// The sound of a share, and what is kept out of it while it lasts. An exclusion
/// is strict at the start, so that a typo does not share what it meant to
/// remove, and watched from there on: what starts to play later joins the mix.
pub fn chosen_audio(request: AudioRequest, output: &DumpOutput, line: &str) -> (r: Result<
    (AudioCapture, Option<Vec<String>>),
    AudioChoiceError,
>)
    ensures
        match chosen(request@, output@, line@) {
            Ok(choice) => r matches Ok(pair) && (pair.0@, pair.1.deep_view()) == choice,
            Err(error) => r matches Err(e) && e@ == error,
        },
{
    match request {
        AudioRequest::Silent => Ok((AudioCapture::Disabled, None)),
        AudioRequest::Everything => Ok((AudioCapture::SystemMix, None)),
        AudioRequest::Application(name) => match named_audio(output, name.as_str()) {
            Ok(capture) => Ok((capture, None)),
            Err(error) => Err(AudioChoiceError::Apps(error)),
        },
        AudioRequest::Pick => match audio_apps::playing_applications(output) {
            Ok(applications) => match pick(applications.len(), line) {
                Ok(index) => Ok((application_audio(&applications[index]), None)),
                Err(error) => Err(AudioChoiceError::Pick(error)),
            },
            Err(error) => Err(AudioChoiceError::Apps(error)),
        },
        AudioRequest::Except(excluded) => match audio_mix_except(output, &excluded) {
            Ok(capture) => Ok((capture, Some(excluded))),
            Err(error) => Err(AudioChoiceError::Apps(error)),
        },
        AudioRequest::Default => {
            let excluded = audio_apps::default_excluded();
            let decision = audio_apps::default_audio_exclusion(output, &excluded);
            Ok(default_audio(&decision, excluded))
        },
    }
}

/// The grant to reuse: the one that is kept, where remembering is asked for and
/// a new choice is not.
pub open spec fn reused(remember: bool, pick: bool, kept: Option<Seq<char>>) -> Option<Seq<char>> {
    match kept {
        Some(token) => if remember && !pick && text::trim(token).len() > 0 {
            Some(text::trim(token))
        } else {
            None
        },
        None => None,
    }
}

/// The grant to reuse.
pub fn restore_token(remember: bool, pick: bool, kept: Option<String>) -> (r: Option<String>)
    ensures
        r.deep_view() == reused(remember, pick, kept.deep_view()),
{
    if let Some(token) = kept {
        if remember && !pick {
            let token = text::trimmed(token.as_str());
            if !text::is_empty(token.as_str()) {
                return Some(token);
            }
        }
    }
    None
}

/// What a read line says, if anything.
pub fn typed_line(line: &str) -> (r: Option<String>)
    ensures
        r.deep_view() == if text::trim(line@).len() > 0 {
            Some(text::trim(line@))
        } else {
            None
        },
{
    let line = text::trimmed(line);
    if text::is_empty(line.as_str()) {
        None
    } else {
        Some(line)
    }
}

/// What a room that the command line opens is like. Naming friends restricts it
/// to them, whatever else is asked for.
pub open spec fn options(viewers: u8, hours: u32, approval: bool, friends: Seq<Seq<char>>) -> RoomOptionsView {
    RoomOptionsView {
        maximum_viewers: viewers,
        expires_in_seconds: if hours * 3600 <= u32::MAX {
            (hours * 3600) as u32
        } else {
            u32::MAX
        },
        access_policy: if friends.len() > 0 {
            RoomAccessPolicy::FriendsOnly
        } else if approval {
            RoomAccessPolicy::ApprovalRequired
        } else {
            RoomAccessPolicy::Public
        },
        allowed_friend_codes: friends,
    }
}

/// What a room that the command line opens is like.
pub fn room_options(viewers: u8, hours: u32, approval: bool, friends: Vec<String>) -> (r:
    RoomOptions)
    ensures
        r@ == options(viewers, hours, approval, friends.deep_view()),
{
    let seconds: u64 = hours as u64 * 3600;
    let expires_in_seconds: u32 = if seconds <= 0xffff_ffff {
        seconds as u32
    } else {
        0xffff_ffff
    };
    let access_policy = if friends.len() > 0 {
        RoomAccessPolicy::FriendsOnly
    } else if approval {
        RoomAccessPolicy::ApprovalRequired
    } else {
        RoomAccessPolicy::Public
    };
    RoomOptions {
        maximum_viewers: viewers,
        expires_in_seconds,
        access_policy,
        allowed_friend_codes: friends,
    }
}

/// What a typed line asks for: an answer to a join request, or chat.
pub open spec fn line_command(line: Seq<char>) -> PresenterCommandView {
    if text::has_prefix(line, "/approve "@) {
        PresenterCommandView::ApproveViewer {
            peer_id: text::trim(line.skip("/approve "@.len() as int)),
        }
    } else if text::has_prefix(line, "/deny "@) {
        PresenterCommandView::RejectViewer {
            peer_id: text::trim(line.skip("/deny "@.len() as int)),
        }
    } else {
        PresenterCommandView::Chat { text: line }
    }
}

/// Maps one typed line to a command: `/approve <peer>` and `/deny <peer>` answer
/// join requests, anything else is chat.
pub fn presenter_command_for(line: &str) -> (r: PresenterCommand)
    ensures
        r@ == line_command(line@),
{
    if let Some(peer) = text::after_prefix(line, "/approve ") {
        return PresenterCommand::ApproveViewer { peer_id: text::trimmed(peer.as_str()) };
    }
    if let Some(peer) = text::after_prefix(line, "/deny ") {
        return PresenterCommand::RejectViewer { peer_id: text::trimmed(peer.as_str()) };
    }
    PresenterCommand::Chat { text: line.to_owned() }
}

/// The mix of the device is only ever an explicit choice.
pub proof fn law_the_mix_is_only_asked_for(
    decision: DefaultAudioDecisionView,
    excluded: Seq<Seq<char>>,
    kept: Seq<AudioApplicationView>,
)
    ensures
        default_capture(decision, excluded).0 != AudioCaptureView::SystemMix,
        capture_without(kept) != AudioCaptureView::SystemMix,
{
}

/// An explicit exclusion stays watched for as long as the share lasts, and no
/// other explicit choice is.
pub proof fn law_exclusions_stay_watched(
    request: AudioRequestView,
    output: DumpOutputView,
    line: Seq<char>,
)
    ensures
        chosen(request, output, line) matches Ok((_, watched)) ==> match request {
            AudioRequestView::Except(excluded) => watched == Some(excluded),
            AudioRequestView::Default => true,
            _ => watched is None,
        },
{
}

/// While a default share lasts, what it excludes is kept out, unless nothing is
/// captured at all.
pub proof fn law_default_shares_stay_watched(
    decision: DefaultAudioDecisionView,
    excluded: Seq<Seq<char>>,
)
    ensures
        default_capture(decision, excluded).0 == AudioCaptureView::Disabled || default_capture(
            decision,
            excluded,
        ).1 == Some(excluded),
{
}

} // verus!
