//! What command lines, typed lines and log lines say.
use vstd::prelude::*;

use super::audio_apps;
use super::audio_apps::{AudioApplicationView, DefaultAudioDecisionView, DumpOutputView};
use super::cli;
use super::cli::{
    AudioCaptureView, AudioChoiceErrorView, AudioRequestView, CodecArg, PickError, VideoCodecId,
};
use super::presenter::types::{PresenterCommandView, PresenterUpdateView};
use super::signaling::SignalingState;
use super::terminal;
use super::terminal::{LogLevel, LogLineView};
use super::viewer::types::{ViewerPhase, ViewerUpdateView};
use crate::protocol::{RoomAccessPolicy, SharingState};
use crate::text;
use crate::text_laws;

verus! {

/// A codec that is named is the only one offered; none is named by `auto`.
pub proof fn law_named_codecs_stand_alone(codec: CodecArg)
    ensures
        codec is Auto <==> cli::ranking_of(codec).len() == 0,
        !(codec is Auto) ==> cli::ranking_of(codec).len() == 1,
        codec is Av1 ==> cli::ranking_of(codec)[0] == VideoCodecId::Av1,
        codec is H265 ==> cli::ranking_of(codec)[0] == VideoCodecId::H265,
        codec is H264 ==> cli::ranking_of(codec)[0] == VideoCodecId::H264,
        codec is Vp9 ==> cli::ranking_of(codec)[0] == VideoCodecId::Vp9,
        codec is Vp8 ==> cli::ranking_of(codec)[0] == VideoCodecId::Vp8,
{
}

/// Silence wins over everything, the whole mix over applications, and a named
/// application over exclusions; a synthetic share takes the whole mix.
pub proof fn law_audio_flags_have_an_order(
    no_audio: bool,
    all_audio: bool,
    synthetic: bool,
    app: Option<Option<Seq<char>>>,
    except: Seq<Seq<char>>,
)
    ensures
        ({
            let asked = cli::requested(no_audio, all_audio, synthetic, app, except);
            &&& asked is Silent <==> no_audio
            &&& asked is Everything <==> !no_audio && (all_audio || synthetic)
            &&& asked is Pick <==> !no_audio && !all_audio && !synthetic && app == Some(
                None::<Seq<char>>,
            )
            &&& asked is Application <==> !no_audio && !all_audio && !synthetic && app is Some
                && app->0 is Some
            &&& asked matches AudioRequestView::Application(name) ==> app == Some(Some(name))
            &&& asked is Except <==> !no_audio && !all_audio && !synthetic && app is None
                && except.len() > 0
            &&& asked matches AudioRequestView::Except(names) ==> names == except
        }),
{
}

/// Sharing captures the streams of the applications that were decided on, one
/// for each; a graph that cannot be read shares nothing and is not watched.
pub proof fn law_default_shares_capture_the_applications(
    decision: DefaultAudioDecisionView,
    excluded: Seq<Seq<char>>,
    i: int,
)
    ensures
        ({
            let (capture, watched) = cli::default_capture(decision, excluded);
            &&& decision is Share ==> capture is Streams && capture->targets.len()
                == decision->Share_0.len()
            &&& decision is Share && 0 <= i < decision->Share_0.len() ==> capture->targets[i]
                == text::decimal(decision->Share_0[i].serial as nat)
            &&& decision is NoAudio && decision->NoAudio_0 is GraphUnreadable
                ==> capture is Disabled && watched is None
            &&& decision is NoAudio && !(decision->NoAudio_0 is GraphUnreadable)
                ==> capture is Streams && capture->targets.len() == 0
            &&& !(capture is Disabled) ==> watched == Some(excluded)
        }),
{
}

/// What is left after exclusions is captured, or nothing where nothing is left.
pub proof fn law_exclusions_capture_the_rest(kept: Seq<AudioApplicationView>, i: int)
    ensures
        cli::capture_without(kept) is Disabled <==> kept.len() == 0,
        kept.len() > 0 ==> cli::capture_without(kept) is Streams && cli::capture_without(
            kept,
        )->targets.len() == kept.len(),
        0 <= i < kept.len() ==> cli::capture_without(kept)->targets[i] == text::decimal(
            kept[i].serial as nat,
        ),
{
}

/// A number is read back as it is written, with or without a plus sign, and
/// nothing else is a number.
pub proof fn law_numbers_read_back(n: nat)
    requires
        n <= u64::MAX,
    ensures
        cli::number(text::decimal(n)) == Some(n),
        cli::number(seq!['+'] + text::decimal(n)) == Some(n),
        cli::number(Seq::empty()) is None,
{
    lemma_value_of_decimal(n);
    let signed = seq!['+'] + text::decimal(n);
    assert(signed.skip(1) =~= text::decimal(n));
    assert(signed[0] == '+');
    assert('0' <= text::decimal(n)[0] <= '9');
}

proof fn lemma_value_of_decimal(n: nat)
    ensures
        text::decimal(n).len() > 0,
        cli::all_digits(text::decimal(n)),
        cli::value_of(text::decimal(n)) == n,
    decreases n,
{
    text_laws::law_decimals_read_back(n);
    let s = text::decimal(n);
    if n < 10 {
        assert(s.len() == 1);
        assert(s.drop_last() =~= Seq::<char>::empty());
        assert(cli::value_of(s.drop_last()) == 0);
    } else {
        lemma_value_of_decimal(n / 10);
        assert(s.drop_last() =~= text::decimal(n / 10));
    }
}

/// Picking by number takes the application that is listed under it, counted
/// from one; one alone is taken without asking, and a number beyond the list
/// is refused.
pub proof fn law_picks_count_from_one(count: nat, answer: Seq<char>, n: nat)
    ensures
        cli::picked(0, answer) == Err::<nat, PickError>(PickError::NothingPlaying),
        cli::picked(1, answer) == Ok::<nat, PickError>(0),
        count > 1 && cli::number(text::trim(answer)) is None ==> cli::picked(count, answer) == Err::<
            nat,
            PickError,
        >(PickError::NotANumber),
        count > 1 && cli::number(text::trim(answer)) == Some(n) && 1 <= n <= count ==> cli::picked(
            count,
            answer,
        ) == Ok::<nat, PickError>((n - 1) as nat),
        count > 1 && cli::number(text::trim(answer)) == Some(n) && n > count ==> cli::picked(
            count,
            answer,
        ) == Err::<nat, PickError>(PickError::OutOfRange),
        count > 1 && cli::number(text::trim(answer)) == Some(0nat) ==> cli::picked(count, answer)
            == Ok::<nat, PickError>(0),
{
}

/// What is asked for is what is captured: nothing, the mix, the application
/// that answers to the name, or the one that was picked.
pub proof fn law_requests_are_captured(output: DumpOutputView, line: Seq<char>, name: Seq<char>)
    ensures
        cli::chosen(AudioRequestView::Silent, output, line) matches Ok(choice) && choice.0
            is Disabled,
        cli::chosen(AudioRequestView::Everything, output, line) matches Ok(choice) && choice.0
            is SystemMix,
        audio_apps::dumped(output) is Err ==> cli::chosen(
            AudioRequestView::Application(name),
            output,
            line,
        ) is Err && cli::chosen(AudioRequestView::Pick, output, line) is Err,
        audio_apps::dumped(output) matches Ok(leaves) ==> {
            let playing = audio_apps::streams_of(leaves);
            let named = cli::chosen(AudioRequestView::Application(name), output, line);
            let pick = cli::chosen(AudioRequestView::Pick, output, line);
            &&& audio_apps::resolved(playing, name) is Ok ==> named is Ok && named->Ok_0.0
                is Streams && named->Ok_0.0->targets.len() == 1 && named->Ok_0.0->targets[0]
                == text::decimal(audio_apps::resolved(playing, name)->Ok_0.serial as nat)
            &&& audio_apps::resolved(playing, name) is Err ==> named == Err::<
                (AudioCaptureView, Option<Seq<Seq<char>>>),
                AudioChoiceErrorView,
            >(AudioChoiceErrorView::Apps(audio_apps::resolved(playing, name)->Err_0))
            &&& cli::picked(audio_apps::applications(playing).len(), line) is Ok ==> pick is Ok
                && pick->Ok_0.0 is Streams && pick->Ok_0.0->targets.len() == 1
                && pick->Ok_0.0->targets[0] == text::decimal(
                audio_apps::applications(playing)[cli::picked(
                    audio_apps::applications(playing).len(),
                    line,
                )->Ok_0 as int].serial as nat,
            )
            &&& cli::picked(audio_apps::applications(playing).len(), line) is Err ==> pick is Err
        },
{
}

/// A kept token is used again, trimmed, where it is to be remembered and no
/// new choice is asked for.
pub proof fn law_tokens_are_used_again(remember: bool, pick: bool, kept: Seq<char>)
    ensures
        cli::reused(remember, pick, Some(kept)) is Some <==> remember && !pick && text::trim(
            kept,
        ).len() > 0,
        cli::reused(remember, pick, Some(kept)) matches Some(token) ==> token == text::trim(kept),
        cli::reused(remember, pick, None) is None,
{
}

/// A room lasts for the hours that were asked for, as far as they can be
/// counted, is for the friends that were named, and else asks or is open.
pub proof fn law_rooms_are_made_as_asked(
    viewers: u8,
    hours: u32,
    approval: bool,
    friends: Seq<Seq<char>>,
)
    ensures
        ({
            let options = cli::options(viewers, hours, approval, friends);
            &&& options.maximum_viewers == viewers
            &&& options.allowed_friend_codes == friends
            &&& hours <= 1_193_046 ==> options.expires_in_seconds == hours * 60 * 60
            &&& hours > 1_193_046 ==> options.expires_in_seconds == u32::MAX
            &&& friends.len() > 0 <==> options.access_policy == RoomAccessPolicy::FriendsOnly
            &&& friends.len() == 0 && approval <==> options.access_policy
                == RoomAccessPolicy::ApprovalRequired
        }),
{
}

/// A line that starts with `/approve` or `/deny` answers a viewer; any other is
/// said as it stands.
pub proof fn law_lines_are_commands(line: Seq<char>, rest: Seq<char>)
    ensures
        cli::line_command("/approve "@ + rest) == (PresenterCommandView::ApproveViewer {
            peer_id: text::trim(rest),
        }),
        cli::line_command("/deny "@ + rest) == (PresenterCommandView::RejectViewer {
            peer_id: text::trim(rest),
        }),
        line.len() == 0 || line[0] != '/' ==> cli::line_command(line) == (
        PresenterCommandView::Chat { text: line }),
{
    reveal_strlit("/approve ");
    reveal_strlit("/deny ");
    let approving = "/approve "@ + rest;
    let denying = "/deny "@ + rest;
    assert(approving.skip("/approve "@.len() as int) =~= rest);
    assert(denying.skip("/deny "@.len() as int) =~= rest);
    assert(approving.subrange(0, "/approve "@.len() as int) =~= "/approve "@);
    assert(denying.subrange(0, "/deny "@.len() as int) =~= "/deny "@);
    assert(denying[1] == 'd');
    assert("/approve "@[1] == 'a');
    assert(!text::has_prefix(denying, "/approve "@)) by {
        if text::has_prefix(denying, "/approve "@) {
            assert(denying[1] == "/approve "@[1]);
        }
    }
    if line.len() == 0 || line[0] != '/' {
        assert("/approve "@[0] == '/' && "/deny "@[0] == '/');
        assert(!text::has_prefix(line, "/approve "@)) by {
            if text::has_prefix(line, "/approve "@) {
                assert(line[0] == "/approve "@[0]);
            }
        }
        assert(!text::has_prefix(line, "/deny "@)) by {
            if text::has_prefix(line, "/deny "@) {
                assert(line[0] == "/deny "@[0]);
            }
        }
    }
}

/// Losing the connection is a warning on either side; the other steps of
/// connecting are news, and ended signaling is not logged.
pub proof fn law_signaling_is_logged(state: SignalingState)
    ensures
        forall|from: Seq<char>, to: Seq<char>|
            state is Reconnecting ==> #[trigger] terminal::signaling_news(state, from, to) is Some
                && terminal::signaling_news(state, from, to)->0.level == LogLevel::Warn,
        forall|from: Seq<char>, to: Seq<char>|
            state is Connecting ==> #[trigger] terminal::signaling_news(state, from, to) == Some(
                LogLineView { level: LogLevel::Info, text: from },
            ),
        forall|from: Seq<char>, to: Seq<char>|
            state is Authenticating ==> #[trigger] terminal::signaling_news(state, from, to)
                == Some(LogLineView { level: LogLevel::Info, text: to }),
{
}

/// What happens to viewers is logged under their identifiers, by name where
/// they gave one.
pub proof fn law_viewers_are_logged_by_name(
    peer_id: Seq<char>,
    name: Seq<char>,
    sender: Seq<char>,
    said: Seq<char>,
)
    ensures
        terminal::presenter_news(
            PresenterUpdateView::ViewerJoined { peer_id, display_name: Some(name) },
        ) == Some(
            LogLineView { level: LogLevel::Info, text: name + " joined viewer="@ + peer_id },
        ),
        terminal::presenter_news(
            PresenterUpdateView::ViewerJoined { peer_id, display_name: None },
        ) == Some(
            LogLineView { level: LogLevel::Info, text: "a viewer"@ + " joined viewer="@ + peer_id },
        ),
        terminal::presenter_news(PresenterUpdateView::ViewerLeft { peer_id }) == Some(
            LogLineView { level: LogLevel::Info, text: "viewer left viewer="@ + peer_id },
        ),
        terminal::presenter_news(PresenterUpdateView::Chat { peer_id, sender, text: said }) == Some(
            LogLineView {
                level: LogLevel::Info,
                text: "chat: "@ + sender + ": "@ + said + " viewer="@ + peer_id,
            },
        ),
        terminal::presenter_news(PresenterUpdateView::ShareFailed { message: said }) == Some(
            LogLineView { level: LogLevel::Warn, text: "sharing failed: "@ + said },
        ),
        terminal::viewer_news(ViewerUpdateView::Chat { sender, text: said }) == Some(
            LogLineView { level: LogLevel::Info, text: "chat: "@ + sender + ": "@ + said },
        ),
{
}

/// A viewer's phase and the presenter's presence are told as they are.
pub proof fn law_watching_is_logged(phase: ViewerPhase, connected: bool, sharing: SharingState)
    ensures
        phase is Connecting <==> terminal::viewer_news(ViewerUpdateView::Phase { phase }) is None,
        phase is AwaitingApproval ==> terminal::viewer_news(ViewerUpdateView::Phase { phase })
            == Some(
            LogLineView {
                level: LogLevel::Info,
                text: "waiting for the presenter to approve you"@,
            },
        ),
        connected ==> terminal::viewer_news(ViewerUpdateView::PresenterConnected { connected })
            == Some(LogLineView { level: LogLevel::Info, text: "the presenter is connected"@ }),
        !connected ==> terminal::viewer_news(ViewerUpdateView::PresenterConnected { connected })
            is Some && terminal::viewer_news(
            ViewerUpdateView::PresenterConnected { connected },
        )->0.level == LogLevel::Warn,
        sharing is Live <==> terminal::viewer_news(
            ViewerUpdateView::SharingState { state: sharing },
        ) is None,
{
}

/// A picture's size is told where both of its sides are known.
pub proof fn law_sizes_are_told_whole(w: u32, h: u32)
    ensures
        terminal::picture_size(Some(w), Some(h)) == text::decimal(w as nat) + "x"@ + text::decimal(
            h as nat,
        ),
        terminal::picture_size(None, Some(h)) == "?"@,
        terminal::picture_size(Some(w), None) == "?"@,
        terminal::known(None) == "?"@,
        terminal::known(Some(w as int)) == text::signed_decimal(w as int),
{
}

} // verus!
