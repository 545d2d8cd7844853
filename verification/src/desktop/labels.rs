//! The words of the window.
use vstd::prelude::*;
use vstd::string::*;

use super::doubles;
use super::hosting::{ChatMessage, HostingModel, JoinRequest, PresenterView};
use super::moments::{Moment, RoomCountdown};
use super::watching::{ViewerView, WatchingModel};
use crate::protocol::SharingState;
use crate::text;

verus! {

/// The name of the command key.
pub fn mod_key(macos: bool) -> (r: &'static str)
    ensures
        r@ == if macos {
            "⌘"@
        } else {
            "Ctrl"@
        },
{
    if macos {
        "⌘"
    } else {
        "Ctrl"
    }
}

/// The keys that toggle the full screen.
pub fn fullscreen_key(macos: bool) -> (r: &'static str)
    ensures
        r@ == if macos {
            "⌃⌘F"@
        } else {
            "F11"@
        },
{
    if macos {
        "⌃⌘F"
    } else {
        "F11"
    }
}

/// How round the corners of the window are: not at all where it fills the
/// screen.
pub fn body_radius(maximized: bool, fullscreen: bool) -> (r: u8)
    ensures
        r == if maximized || fullscreen {
            0u8
        } else {
            12u8
        },
{
    if maximized || fullscreen {
        0
    } else {
        12
    }
}

/// A letter as a capital.
pub open spec fn capital(c: char) -> Seq<char> {
    text::uppercase_of(seq![c])
}

/// The initials of a name: the first letters of its first two words in upper
/// case, or a question mark without any.
pub open spec fn initials_of(name: Seq<char>) -> Seq<char> {
    let words = text::words(name);
    if words.len() == 0 {
        "?"@
    } else if words.len() == 1 {
        capital(words[0][0])
    } else {
        capital(words[0][0]) + capital(words[1][0])
    }
}

/// The first letter of a word as a capital.
fn initial(word: &str) -> (r: String)
    requires
        word@.len() > 0,
    ensures
        r@ == capital(word@[0]),
        word@[0] <= '\u{7f}' ==> r@ == seq![text::ascii_upper(word@[0])],
{
    let chars = text::chars_of(word);
    let mut letter = String::new();
    letter.push(chars[0]);
    assert(letter@ =~= seq![word@[0]]);
    assert(text::ascii_uppered(letter@) =~= seq![text::ascii_upper(word@[0])]);
    text::uppercase(letter.as_str())
}

/// The first letters of the first two words of a name as ASCII capitals, or a
/// question mark without any.
pub open spec fn ascii_initials(name: Seq<char>) -> Seq<char> {
    let words = text::words(name);
    if words.len() == 0 {
        "?"@
    } else if words.len() == 1 {
        seq![text::ascii_upper(words[0][0])]
    } else {
        seq![text::ascii_upper(words[0][0]), text::ascii_upper(words[1][0])]
    }
}

/// Up to two uppercase initials of a name. A nameless one has a question mark.
pub fn initials(name: &str) -> (r: String)
    ensures
        r@ == initials_of(name@),
        vstd::utf8::is_ascii_chars(name@) ==> r@ == ascii_initials(name@),
{
    let words = text::words_of(name);
    if words.len() == 0 {
        return "?".to_owned();
    }
    proof {
        text::lemma_words_nonempty(name@);
        if vstd::utf8::is_ascii_chars(name@) {
            text::lemma_words_ascii(name@);
        }
    }
    let ghost all = words.deep_view();
    assert(all[0].len() > 0 && all[0] == words@[0]@);
    let mut r = initial(words[0].as_str());
    if words.len() > 1 {
        assert(all[1].len() > 0 && all[1] == words@[1]@);
        r.push_str(initial(words[1].as_str()).as_str());
    }
    r
}

/// A room id in short.
pub open spec fn code_of(room_id: Seq<char>) -> Seq<char> {
    text::uppercase_of(text::head(room_id, 8))
}

/// A short slice of a room id, for display.
pub fn short_code(room_id: &str) -> (r: String)
    ensures
        r@ == code_of(room_id@),
        vstd::utf8::is_ascii_chars(room_id@) ==> r@ == text::ascii_uppered(
            text::head(room_id@, 8),
        ),
{
    text::uppercase(text::first_chars(room_id, 8).as_str())
}

/// How the media travels.
pub open spec fn transport(relay: bool) -> Seq<char> {
    if relay {
        "relay"@
    } else {
        "direct"@
    }
}

/// How the media travels.
pub fn transport_label(relay: bool) -> (r: &'static str)
    ensures
        r@ == transport(relay),
{
    if relay {
        "relay"
    } else {
        "direct"
    }
}

/// What the header says of a room, part by part.
pub open spec fn meta_parts(
    code: Option<Seq<char>>,
    relay: bool,
    here: Option<nat>,
    countdown: Option<RoomCountdown>,
    now: Moment,
) -> Seq<Seq<char>> {
    let named = match code {
        Some(code) => seq![code_of(code)],
        None => Seq::empty(),
    };
    let counted = match here {
        Some(here) => seq![text::decimal(here) + " here"@],
        None => Seq::empty(),
    };
    let timed = match countdown {
        Some(countdown) => seq![countdown.text(now)],
        None => Seq::empty(),
    };
    named + seq![transport(relay)] + counted + timed
}

/// What the header says of a room: "CODE · direct · 5 here · 3h 12m left".
pub fn header_meta(
    code: Option<&str>,
    relay: bool,
    here: Option<usize>,
    countdown: Option<RoomCountdown>,
    now: Moment,
) -> (r: String)
    ensures
        r@ == text::joined(
            meta_parts(
                match code {
                    Some(code) => Some(code@),
                    None => None,
                },
                relay,
                match here {
                    Some(here) => Some(here as nat),
                    None => None,
                },
                countdown,
                now,
            ),
            " · "@,
        ),
{
    let mut parts: Vec<String> = Vec::new();
    if let Some(code) = code {
        parts.push(short_code(code));
    }
    parts.push(transport_label(relay).to_owned());
    if let Some(here) = here {
        let mut count = text::decimal_text(here as u64);
        count.push_str(" here");
        parts.push(count);
    }
    if let Some(countdown) = countdown {
        parts.push(countdown.label(now));
    }
    assert(parts.deep_view() =~= meta_parts(
        match code {
            Some(code) => Some(code@),
            None => None,
        },
        relay,
        match here {
            Some(here) => Some(here as nat),
            None => None,
        },
        countdown,
        now,
    ));
    text::join(&parts, " · ")
}

/// The percentage of `lost` in `total`, computed in floating-point numbers: both
/// counts, their quotient and its hundredfold. It is a numerator over a power of
/// two.
pub open spec fn loss_share(lost: nat, total: nat) -> (nat, nat) {
    let share = doubles::quotient(doubles::significant(lost, 1), doubles::significant(total, 1));
    (doubles::significant(100 * share.0, 1), share.1)
}

/// A percentage with one decimal: the nearest; halfway, the even one.
pub open spec fn percent_text(percent: (nat, nat)) -> Seq<char> {
    let tenths = doubles::nearest(10 * percent.0, percent.1);
    text::decimal(tenths / 10) + "."@ + text::decimal(tenths % 10) + "%"@
}

/// Packet loss in words, and whether it is high: from one percent on. A
/// negative count is none, and without packets nothing is known.
pub open spec fn loss(lost: Option<i64>, total: Option<u64>) -> (Seq<char>, bool) {
    match (lost, total) {
        (Some(lost), Some(total)) => if total > 0 {
            let count = if lost > 0 {
                lost as nat
            } else {
                0
            };
            let percent = loss_share(count, total as nat);
            (percent_text(percent), percent.0 >= percent.1)
        } else {
            ("—"@, false)
        },
        _ => ("—"@, false),
    }
}

/// Packet loss as a percentage of all packets; the flag says whether it is high.
pub fn loss_percent(lost: Option<i64>, total: Option<u64>) -> (r: (String, bool))
    ensures
        (r.0@, r.1) == loss(lost, total),
{
    if let (Some(lost), Some(total)) = (lost, total) {
        if total > 0 {
            let count: u128 = if lost > 0 {
                lost as u128
            } else {
                0
            };
            let part: u128 = doubles::to_significant(count, 1);
            let whole: u128 = doubles::to_significant(total as u128, 1);
            proof {
                doubles::lemma_positive(total as nat);
            }
            let share: (u128, u128) = doubles::to_quotient(part, whole);
            let percent: u128 = doubles::to_significant(100 * share.0, 1);
            let tenths: u128 = doubles::to_nearest(10 * percent, share.1);
            let mut r = text::long_decimal_text(tenths / 10);
            r.push_str(".");
            r.push_str(text::long_decimal_text(tenths % 10).as_str());
            r.push_str("%");
            return (r, percent >= share.1);
        }
    }
    ("—".to_owned(), false)
}

/// The size of a picture in words.
pub open spec fn size_text(size: (u32, u32)) -> Seq<char> {
    text::decimal(size.0 as nat) + "×"@ + text::decimal(size.1 as nat)
}

/// The size of a picture in words.
pub fn resolution(size: (u32, u32)) -> (r: String)
    ensures
        r@ == size_text(size),
{
    let mut r = text::decimal_text(size.0 as u64);
    r.push_str("×");
    r.push_str(text::decimal_text(size.1 as u64).as_str());
    r
}

/// What is known of a stream, part by part: its size, its frames, its codec, its
/// bitrate and its round trip.
pub open spec fn stats_parts(
    size: Option<(u32, u32)>,
    fps: Option<Seq<char>>,
    codec: Option<Seq<char>>,
    kbps: Option<u32>,
    round_trip: Option<Seq<char>>,
) -> Seq<Seq<char>> {
    one(
        match size {
            Some(size) => Some(size_text(size)),
            None => None,
        },
    ) + one(fps) + one(codec) + one(
        match kbps {
            Some(kbps) => Some(text::decimal(kbps as nat) + " kb/s"@),
            None => None,
        },
    ) + one(round_trip)
}

/// The entry that there is, if any.
pub open spec fn one(entry: Option<Seq<char>>) -> Seq<Seq<char>> {
    match entry {
        Some(entry) => seq![entry],
        None => Seq::empty(),
    }
}

/// What is known of a stream, on one line; `None` where nothing is. The frames
/// and the round trip come as they are written.
pub fn stats_line(
    size: Option<(u32, u32)>,
    fps: Option<String>,
    codec: Option<String>,
    kbps: Option<u32>,
    round_trip: Option<String>,
) -> (r: Option<String>)
    ensures
        ({
            let parts = stats_parts(
                size,
                fps.deep_view(),
                codec.deep_view(),
                kbps,
                round_trip.deep_view(),
            );
            match r {
                Some(line) => parts.len() > 0 && line@ == text::joined(parts, " · "@),
                None => parts.len() == 0,
            }
        }),
{
    let ghost all = stats_parts(
        size,
        fps.deep_view(),
        codec.deep_view(),
        kbps,
        round_trip.deep_view(),
    );
    let mut parts: Vec<String> = Vec::new();
    if let Some(size) = size {
        parts.push(resolution(size));
    }
    if let Some(fps) = fps {
        parts.push(fps);
    }
    if let Some(codec) = codec {
        parts.push(codec);
    }
    if let Some(kbps) = kbps {
        let mut rate = text::decimal_text(kbps as u64);
        rate.push_str(" kb/s");
        parts.push(rate);
    }
    if let Some(round_trip) = round_trip {
        parts.push(round_trip);
    }
    assert(parts.deep_view() =~= all);
    if parts.len() == 0 {
        None
    } else {
        Some(text::join(&parts, " · "))
    }
}

/// How many peers a room has, in words.
pub open spec fn peers_text(peers: nat) -> Seq<char> {
    if peers == 1 {
        "1 peer"@
    } else {
        text::decimal(peers) + " peers"@
    }
}

/// How many peers a room has, in words.
pub fn peers_label(peers: usize) -> (r: String)
    ensures
        r@ == peers_text(peers as nat),
{
    if peers == 1 {
        "1 peer".to_owned()
    } else {
        let mut r = text::decimal_text(peers as u64);
        r.push_str(" peers");
        r
    }
}

/// Who a chat message is from.
pub open spec fn author(own: bool, from: Seq<char>) -> Seq<char> {
    if own {
        "You"@
    } else {
        from
    }
}

/// Who a chat message is from.
pub fn chat_author(message: &ChatMessage) -> (r: String)
    ensures
        r@ == author(message@.own, message@.from),
{
    if message.own {
        "You".to_owned()
    } else {
        message.from.clone()
    }
}

/// Who waits, and what is known of them.
pub open spec fn waiting(name: Option<Seq<char>>, friend_code: Option<Seq<char>>) -> (
    Seq<char>,
    Seq<char>,
) {
    (
        match name {
            Some(name) => name,
            None => "Someone"@,
        },
        match friend_code {
            Some(code) => code,
            None => "wants to join"@,
        },
    )
}

/// Who waits, and what is known of them.
pub fn waiting_label(request: &JoinRequest) -> (r: (String, String))
    ensures
        (r.0@, r.1@) == waiting(request@.name, request@.friend_code),
{
    let name = match &request.name {
        Some(name) => name.clone(),
        None => "Someone".to_owned(),
    };
    let code = match &request.friend_code {
        Some(code) => code.clone(),
        None => "wants to join".to_owned(),
    };
    (name, code)
}

/// Whether the rate controller holds a viewer below the ceiling.
pub open spec fn held_back(target_kbps: u32, ceiling_kbps: u32) -> bool {
    0 < target_kbps < ceiling_kbps
}

/// Whether the rate controller holds a viewer below the ceiling.
pub fn is_held_back(target_kbps: u32, ceiling_kbps: u32) -> (r: bool)
    ensures
        r == held_back(target_kbps, ceiling_kbps),
{
    ceiling_kbps > 0 && target_kbps > 0 && target_kbps < ceiling_kbps
}

/// What is said of the connection to the server.
pub fn connection_note(connected: bool) -> (r: &'static str)
    ensures
        r@ == if connected {
            "Connected to your server."@
        } else {
            "Not connected yet. Clarity connects when you go online."@
        },
{
    if connected {
        "Connected to your server."
    } else {
        "Not connected yet. Clarity connects when you go online."
    }
}

/// What is said where nobody shares.
pub fn nothing_live_note(connected: bool) -> (r: &'static str)
    ensures
        r@ == if connected {
            "Create a room to share your screen, or wait for a friend to share — theirs appears here."@
        } else {
            "Connecting to your server…"@
        },
{
    if connected {
        "Create a room to share your screen, or wait for a friend to share — theirs appears here."
    } else {
        "Connecting to your server…"
    }
}

/// How a mark is coloured.
#[derive(Debug, Clone, Copy, PartialEq, Eq, Structural)]
pub enum Tone {
    /// Green.
    Good,
    /// Amber.
    Warning,
    /// Red.
    Bad,
    /// Faint.
    Quiet,
}

impl DeepView for Tone {
    type V = Tone;

    open spec fn deep_view(&self) -> Tone {
        *self
    }
}

/// How the mark of a hosted room is coloured.
pub open spec fn hosting_tone(ended: bool, sharing: SharingState) -> Tone {
    if ended {
        Tone::Bad
    } else {
        match sharing {
            SharingState::Live => Tone::Good,
            SharingState::Paused => Tone::Warning,
            SharingState::Idle => Tone::Quiet,
        }
    }
}

/// How the mark of a hosted room is coloured.
pub fn hosting_mark(ended: bool, sharing: SharingState) -> (r: Tone)
    ensures
        r == hosting_tone(ended, sharing),
{
    if ended {
        Tone::Bad
    } else {
        match sharing {
            SharingState::Live => Tone::Good,
            SharingState::Paused => Tone::Warning,
            SharingState::Idle => Tone::Quiet,
        }
    }
}

/// How a share is, as its mark says it.
pub open spec fn sharing_text(sharing: SharingState) -> Seq<char> {
    match sharing {
        SharingState::Live => "LIVE"@,
        SharingState::Paused => "PAUSED"@,
        SharingState::Idle => "IDLE"@,
    }
}

/// How a share is, as its mark says it.
pub fn sharing_mark(sharing: SharingState) -> (r: &'static str)
    ensures
        r@ == sharing_text(sharing),
{
    match sharing {
        SharingState::Live => "LIVE",
        SharingState::Paused => "PAUSED",
        SharingState::Idle => "IDLE",
    }
}

/// What the stage of a hosted room shows.
#[derive(Debug, PartialEq, Eq)]
#[allow(inconsistent_fields)]
pub enum HostStage {
    /// The room is over, or could not be opened.
    Ended {
        headline: String,
        failed: bool,
        detail: String,
    },
    /// The room is being created, in front of what is captured already.
    Opening {
        detail: String,
        preview: Option<(u32, u32)>,
    },
    /// Nothing is shared, and sharing is offered.
    Offer,
    Paused,
    /// A share has begun, and no frame has come yet.
    Waiting,
    /// What viewers see.
    Preview {
        size: (u32, u32),
    },
}

/// What a [`HostStage`] holds.
#[verifier::ext_equal]
pub enum HostStageView {
    Ended { headline: Seq<char>, failed: bool, detail: Seq<char> },
    Opening { detail: Seq<char>, preview: Option<(u32, u32)> },
    Offer,
    Paused,
    Waiting,
    Preview { size: (u32, u32) },
}

impl View for HostStage {
    type V = HostStageView;

    open spec fn view(&self) -> HostStageView {
        match self {
            HostStage::Ended { headline, failed, detail } => HostStageView::Ended {
                headline: headline@,
                failed: *failed,
                detail: detail@,
            },
            HostStage::Opening { detail, preview } => HostStageView::Opening {
                detail: detail@,
                preview: *preview,
            },
            HostStage::Offer => HostStageView::Offer,
            HostStage::Paused => HostStageView::Paused,
            HostStage::Waiting => HostStageView::Waiting,
            HostStage::Preview { size } => HostStageView::Preview {
                size: *size,
            },
        }
    }
}

impl DeepView for HostStage {
    type V = HostStageView;

    open spec fn deep_view(&self) -> HostStageView {
        self@
    }
}

impl Clone for HostStage {
    fn clone(&self) -> (r: Self)
        ensures
            r@ == self@,
    {
        match self {
            HostStage::Ended { headline, failed, detail } => HostStage::Ended {
                headline: headline.clone(),
                failed: *failed,
                detail: detail.clone(),
            },
            HostStage::Opening { detail, preview } => HostStage::Opening {
                detail: detail.clone(),
                preview: *preview,
            },
            HostStage::Offer => HostStage::Offer,
            HostStage::Paused => HostStage::Paused,
            HostStage::Waiting => HostStage::Waiting,
            HostStage::Preview { size } => HostStage::Preview {
                size: *size,
            },
        }
    }
}

/// The size of a picture that can be shown.
pub open spec fn shown_size(size: Option<(u32, u32)>) -> Option<(u32, u32)> {
    match size {
        Some(size) => if size.0 > 0 && size.1 > 0 {
            Some(size)
        } else {
            None
        },
        None => None,
    }
}

fn visible_size(size: Option<(u32, u32)>) -> (r: Option<(u32, u32)>)
    ensures
        r == shown_size(size),
{
    match size {
        Some(size) => {
            if size.0 > 0 && size.1 > 0 {
                Some(size)
            } else {
                None
            }
        },
        None => None,
    }
}

/// The size of the picture that the host sees of the share, given whether a frame
/// has come.
pub open spec fn previewed(m: HostingModel, has_frame: bool) -> Option<(u32, u32)> {
    if !m.ended && m.sharing == SharingState::Live && has_frame {
        shown_size(m.frame_size)
    } else {
        None
    }
}

fn preview_size(view: &PresenterView, has_frame: bool) -> (r: Option<(u32, u32)>)
    ensures
        r == previewed(view@, has_frame),
{
    if !view.ended && view.sharing == SharingState::Live && has_frame {
        visible_size(view.frame_size)
    } else {
        None
    }
}

/// What the stage of a hosted room shows, given whether a frame has come.
pub open spec fn host_stage(m: HostingModel, has_frame: bool) -> HostStageView {
    if m.ended {
        HostStageView::Ended {
            headline: if m.open {
                "The room has ended"@
            } else {
                "Couldn't open the room"@
            },
            failed: !m.open,
            detail: m.status,
        }
    } else if !m.open {
        HostStageView::Opening { detail: m.status, preview: previewed(m, has_frame) }
    } else {
        match m.sharing {
            SharingState::Idle => HostStageView::Offer,
            SharingState::Paused => HostStageView::Paused,
            SharingState::Live => match previewed(m, has_frame) {
                Some(size) => HostStageView::Preview { size },
                None => HostStageView::Waiting,
            },
        }
    }
}

/// What the stage of a hosted room shows.
pub fn presenter_stage(view: &PresenterView, has_frame: bool) -> (r: HostStage)
    ensures
        r@ == host_stage(view@, has_frame),
{
    if view.ended {
        let headline = if view.open {
            "The room has ended"
        } else {
            "Couldn't open the room"
        };
        return HostStage::Ended {
            headline: headline.to_owned(),
            failed: !view.open,
            detail: view.status.clone(),
        };
    }
    if !view.open {
        return HostStage::Opening {
            detail: view.status.clone(),
            preview: preview_size(view, has_frame),
        };
    }
    match view.sharing {
        SharingState::Idle => HostStage::Offer,
        SharingState::Paused => HostStage::Paused,
        SharingState::Live => match preview_size(view, has_frame) {
            Some(size) => HostStage::Preview { size },
            None => HostStage::Waiting,
        },
    }
}

/// The marks on the stage of a hosted room: how the share is, the size of what
/// is shown, and whether the connection is being made again.
pub open spec fn host_marks(m: HostingModel, has_frame: bool) -> Seq<Seq<char>> {
    let sized = match host_stage(m, has_frame) {
        HostStageView::Preview { size } => seq![size_text(size)],
        _ => Seq::empty(),
    };
    let lost = if m.reconnecting {
        seq!["RECONNECTING"@]
    } else {
        Seq::empty()
    };
    if m.ended || !m.open {
        Seq::empty()
    } else {
        seq![sharing_text(m.sharing)] + sized + lost
    }
}

/// The marks on the stage of a hosted room.
pub fn presenter_marks(view: &PresenterView, has_frame: bool) -> (r: Vec<String>)
    ensures
        r.deep_view() == host_marks(view@, has_frame),
{
    let mut r: Vec<String> = Vec::new();
    if !view.ended && view.open {
        r.push(sharing_mark(view.sharing).to_owned());
        if let HostStage::Preview { size } = presenter_stage(view, has_frame) {
            r.push(resolution(size));
        }
        if view.reconnecting {
            r.push("RECONNECTING".to_owned());
        }
    }
    assert(r.deep_view() =~= host_marks(view@, has_frame));
    r
}

/// What the stage of a watched room shows.
#[derive(Debug, PartialEq, Eq)]
pub enum WatchStage {
    /// The video below the window shows through.
    Hole((u32, u32)),
    /// The latest frame.
    Video((u32, u32)),
    /// Words in place of the picture.
    Notice(String),
}

/// What a [`WatchStage`] holds.
#[verifier::ext_equal]
pub enum WatchStageView {
    Hole((u32, u32)),
    Video((u32, u32)),
    Notice(Seq<char>),
}

impl View for WatchStage {
    type V = WatchStageView;

    open spec fn view(&self) -> WatchStageView {
        match self {
            WatchStage::Hole(first) => WatchStageView::Hole(*first),
            WatchStage::Video(first) => WatchStageView::Video(*first),
            WatchStage::Notice(first) => WatchStageView::Notice(first@),
        }
    }
}

impl DeepView for WatchStage {
    type V = WatchStageView;

    open spec fn deep_view(&self) -> WatchStageView {
        self@
    }
}

impl Clone for WatchStage {
    fn clone(&self) -> (r: Self)
        ensures
            r@ == self@,
    {
        match self {
            WatchStage::Hole(first) => WatchStage::Hole(*first),
            WatchStage::Video(first) => WatchStage::Video(*first),
            WatchStage::Notice(first) => WatchStage::Notice(first.clone()),
        }
    }
}

/// What the stage of a watched room shows, given whether a frame has come. The
/// window is never cut open unless something is shared.
pub open spec fn watch_stage(m: WatchingModel, has_frame: bool) -> WatchStageView {
    let notice = match m.sharing {
        Some(SharingState::Idle) => "nothing is being shared right now"@,
        Some(SharingState::Paused) => "share paused"@,
        _ => m.status,
    };
    match shown_size(m.frame_size) {
        Some(size) => if m.showing_video() && m.native_video {
            WatchStageView::Hole(size)
        } else if m.showing_video() && has_frame {
            WatchStageView::Video(size)
        } else {
            WatchStageView::Notice(notice)
        },
        None => WatchStageView::Notice(notice),
    }
}

/// What the stage of a watched room shows.
pub fn viewer_stage(view: &ViewerView, has_frame: bool) -> (r: WatchStage)
    ensures
        r@ == watch_stage(view@, has_frame),
{
    if let Some(size) = visible_size(view.frame_size) {
        if view.showing_video() {
            if view.native_video {
                return WatchStage::Hole(size);
            }
            if has_frame {
                return WatchStage::Video(size);
            }
        }
    }
    match view.sharing {
        Some(SharingState::Idle) => WatchStage::Notice(
            "nothing is being shared right now".to_owned(),
        ),
        Some(SharingState::Paused) => WatchStage::Notice("share paused".to_owned()),
        _ => WatchStage::Notice(view.status.clone()),
    }
}

/// Whether a manual retry is offered: the stream was there and is being
/// recovered.
pub fn offers_retry(view: &ViewerView) -> (r: bool)
    ensures
        r == (view@.reconnecting && view@.live),
{
    view.reconnecting && view.live
}

/// A room that is idle, paused or not yet live never shows the desktop or an old
/// frame.
pub proof fn law_nothing_shows_without_a_share(m: WatchingModel, has_frame: bool)
    ensures
        !m.live || m.sharing == Some(SharingState::Idle) || m.sharing == Some(SharingState::Paused)
            ==> watch_stage(m, has_frame) is Notice,
{
}

/// A preview is only shown of a room that shares and has not ended, alone once it
/// is open and behind the setup before.
pub proof fn law_previews_need_a_share(m: HostingModel, has_frame: bool)
    ensures
        host_stage(m, has_frame) is Preview ==> m.open && previewed(m, has_frame) is Some,
        host_stage(m, has_frame) matches HostStageView::Opening { preview, .. } ==> !m.open
            && preview == previewed(m, has_frame),
        previewed(m, has_frame) is Some ==> !m.ended && m.sharing == SharingState::Live
            && has_frame,
{
}

/// More loss of as many packets is never written as less, and stays high.
pub proof fn law_loss_grows(lost: nat, more: nat, total: nat)
    requires
        lost <= more,
        total > 0,
    ensures
        ({
            let (a, b) = (loss_share(lost, total), loss_share(more, total));
            &&& doubles::nearest(10 * a.0, a.1) <= doubles::nearest(10 * b.0, b.1)
            &&& a.0 >= a.1 ==> b.0 >= b.1
        }),
{
    let (a, b) = (loss_share(lost, total), loss_share(more, total));
    doubles::lemma_positive(total);
    doubles::lemma_counted_grows(lost, more, 1, 1);
    doubles::lemma_percent_grows(
        doubles::significant(lost, 1),
        doubles::significant(more, 1),
        doubles::significant(total, 1),
        1,
    );
    assert((10 * a.0) * b.1 <= (10 * b.0) * a.1) by (nonlinear_arith)
        requires
            a.0 * b.1 <= b.0 * a.1,
    ;
    doubles::lemma_nearest_grows(10 * a.0, a.1, 10 * b.0, b.1);
    assert(a.0 >= a.1 ==> b.0 >= b.1) by (nonlinear_arith)
        requires
            a.0 * b.1 <= b.0 * a.1,
            a.1 > 0,
            b.1 > 0,
    ;
}

} // verus!
