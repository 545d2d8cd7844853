//! The settings of the window.
use vstd::prelude::*;
use vstd::string::*;

use super::friends::{Contact, ContactView};
use crate::client::cli::VideoCodecId;
use crate::client::rooms::{RoomOptions, RoomOptionsView};
use crate::protocol::RoomAccessPolicy;
use crate::seqs;
use crate::textset;

verus! {

/// What a capture is tuned for.
#[derive(Debug, Clone, Copy, PartialEq, Eq, Structural)]
pub enum CaptureProfile {
    /// Sharp, at 30 frames a second.
    Text,
    /// Smooth, at 60 frames a second.
    Motion,
}

impl DeepView for CaptureProfile {
    type V = CaptureProfile;

    open spec fn deep_view(&self) -> CaptureProfile {
        *self
    }
}

/// What the presenter shares.
#[derive(Debug, Clone, Copy, PartialEq, Eq, Structural)]
pub enum Source {
    /// What is picked on the desktop.
    Screen,
    /// A test pattern.
    Synthetic,
}

impl DeepView for Source {
    type V = Source;

    open spec fn deep_view(&self) -> Source {
        *self
    }
}

/// Who may join a new room.
#[derive(Debug, Clone, Copy, PartialEq, Eq, Structural)]
pub enum RoomAccess {
    FriendsOnly,
    AnyoneWithLink,
    AskFirst,
}

impl DeepView for RoomAccess {
    type V = RoomAccess;

    open spec fn deep_view(&self) -> RoomAccess {
        *self
    }
}

/// How long a new room lives.
#[derive(Debug, Clone, Copy, PartialEq, Eq, Structural)]
pub enum RoomExpiry {
    TwoHours,
    FourHours,
    EightHours,
}

impl DeepView for RoomExpiry {
    type V = RoomExpiry;

    open spec fn deep_view(&self) -> RoomExpiry {
        *self
    }
}

/// What is remembered of the choices of this user.
#[derive(Debug, PartialEq, Eq)]
pub struct Settings {
    pub signaling_server: String,
    pub capture_profile: CaptureProfile,
    pub max_capture: String,
    pub include_system_audio: bool,
    pub always_relay: bool,
    pub dismissed_requests: Vec<String>,
}

/// What a [`Settings`] holds.
#[verifier::ext_equal]
pub struct SettingsView {
    pub signaling_server: Seq<char>,
    pub capture_profile: CaptureProfile,
    pub max_capture: Seq<char>,
    pub include_system_audio: bool,
    pub always_relay: bool,
    pub dismissed_requests: Seq<Seq<char>>,
}

impl View for Settings {
    type V = SettingsView;

    open spec fn view(&self) -> SettingsView {
        SettingsView {
            signaling_server: self.signaling_server@,
            capture_profile: self.capture_profile,
            max_capture: self.max_capture@,
            include_system_audio: self.include_system_audio,
            always_relay: self.always_relay,
            dismissed_requests: self.dismissed_requests.deep_view(),
        }
    }
}

impl DeepView for Settings {
    type V = SettingsView;

    open spec fn deep_view(&self) -> SettingsView {
        self@
    }
}

impl Clone for Settings {
    fn clone(&self) -> (r: Self)
        ensures
            r@ == self@,
    {
        let r = Settings {
            signaling_server: self.signaling_server.clone(),
            capture_profile: self.capture_profile,
            max_capture: self.max_capture.clone(),
            include_system_audio: self.include_system_audio,
            always_relay: self.always_relay,
            dismissed_requests: self.dismissed_requests.clone(),
        };
        assert(r.dismissed_requests.deep_view() =~= self.dismissed_requests.deep_view());
        r
    }
}

/// Who this user is.
#[derive(Debug, PartialEq, Eq)]
pub struct Profile {
    pub display_name: String,
    pub device_name: String,
    pub friend_code: String,
    pub public_key: Vec<u8>,
}

/// What a [`Profile`] holds.
#[verifier::ext_equal]
pub struct ProfileView {
    pub display_name: Seq<char>,
    pub device_name: Seq<char>,
    pub friend_code: Seq<char>,
    pub public_key: Seq<u8>,
}

impl View for Profile {
    type V = ProfileView;

    open spec fn view(&self) -> ProfileView {
        ProfileView {
            display_name: self.display_name@,
            device_name: self.device_name@,
            friend_code: self.friend_code@,
            public_key: self.public_key@,
        }
    }
}

impl DeepView for Profile {
    type V = ProfileView;

    open spec fn deep_view(&self) -> ProfileView {
        self@
    }
}

impl Clone for Profile {
    fn clone(&self) -> (r: Self)
        ensures
            r@ == self@,
    {
        let r = Profile {
            display_name: self.display_name.clone(),
            device_name: self.device_name.clone(),
            friend_code: self.friend_code.clone(),
            public_key: self.public_key.clone(),
        };
        assert(r.public_key@ =~= self.public_key@);
        r
    }
}

/// Everything needed to open a room, gathered from the settings and the choices
/// made for it.
pub struct PresenterConfig {
    pub server: String,
    pub profile: CaptureProfile,
    pub include_system_audio: bool,
    pub force_relay: bool,
    /// The codecs to offer, best first; none for the ranking of the engine.
    pub video_codecs: Vec<VideoCodecId>,
    pub access_policy: RoomAccessPolicy,
    /// Who a friends-only room admits.
    pub allowed_friend_codes: Vec<String>,
    /// Whether every join request is approved without asking.
    pub auto_approve: bool,
    pub expires_in_seconds: u32,
    /// The name that outgoing chat carries.
    pub display_name: Option<String>,
    /// What to share the moment the room opens.
    pub initial_source: Option<Source>,
}

/// What a [`PresenterConfig`] holds.
#[verifier::ext_equal]
pub struct PresenterConfigView {
    pub server: Seq<char>,
    pub profile: CaptureProfile,
    pub include_system_audio: bool,
    pub force_relay: bool,
    pub video_codecs: Seq<VideoCodecId>,
    pub access_policy: RoomAccessPolicy,
    pub allowed_friend_codes: Seq<Seq<char>>,
    pub auto_approve: bool,
    pub expires_in_seconds: u32,
    pub display_name: Option<Seq<char>>,
    pub initial_source: Option<Source>,
}

impl View for PresenterConfig {
    type V = PresenterConfigView;

    open spec fn view(&self) -> PresenterConfigView {
        PresenterConfigView {
            server: self.server@,
            profile: self.profile,
            include_system_audio: self.include_system_audio,
            force_relay: self.force_relay,
            video_codecs: self.video_codecs@,
            access_policy: self.access_policy,
            allowed_friend_codes: self.allowed_friend_codes.deep_view(),
            auto_approve: self.auto_approve,
            expires_in_seconds: self.expires_in_seconds,
            display_name: self.display_name.deep_view(),
            initial_source: self.initial_source,
        }
    }
}

/// The viewers that fit into a room of the window.
pub const HOSTED_VIEWERS: u8 = 10;

/// What the room of a configuration is to be like.
pub open spec fn options_for(config: PresenterConfigView) -> RoomOptionsView {
    RoomOptionsView {
        maximum_viewers: HOSTED_VIEWERS,
        expires_in_seconds: config.expires_in_seconds,
        access_policy: config.access_policy,
        allowed_friend_codes: config.allowed_friend_codes,
    }
}

/// What the room of a configuration is to be like.
pub fn hosting_options(config: &PresenterConfig) -> (r: RoomOptions)
    ensures
        r@ == options_for(config@),
{
    let r = RoomOptions {
        maximum_viewers: HOSTED_VIEWERS,
        expires_in_seconds: config.expires_in_seconds,
        access_policy: config.access_policy,
        allowed_friend_codes: config.allowed_friend_codes.clone(),
    };
    assert(r@ =~= options_for(config@));
    r
}

impl CaptureProfile {
    /// The frames in a second.
    pub open spec fn rate(self) -> u32 {
        match self {
            CaptureProfile::Text => 30,
            CaptureProfile::Motion => 60,
        }
    }

    /// The frames in a second.
    pub fn fps(self) -> (r: u32)
        ensures
            r == self.rate(),
    {
        match self {
            CaptureProfile::Text => 30,
            CaptureProfile::Motion => 60,
        }
    }
}

/// What the encoder may use at most, in kilobits a second.
pub open spec fn ceiling(profile: CaptureProfile) -> u32 {
    match profile {
        CaptureProfile::Text => 6_000,
        CaptureProfile::Motion => 12_000,
    }
}

/// What the encoder may use at most.
pub fn bitrate_for(profile: CaptureProfile) -> (r: u32)
    ensures
        r == ceiling(profile),
{
    match profile {
        CaptureProfile::Text => 6_000,
        CaptureProfile::Motion => 12_000,
    }
}

impl RoomAccess {
    /// The choice in words.
    pub open spec fn text(self) -> Seq<char> {
        match self {
            RoomAccess::FriendsOnly => "Friends only"@,
            RoomAccess::AnyoneWithLink => "Anyone with the link"@,
            RoomAccess::AskFirst => "Ask me first"@,
        }
    }

    /// The choices, in the order in which they are offered.
    pub open spec fn choices() -> Seq<RoomAccess> {
        seq![RoomAccess::FriendsOnly, RoomAccess::AnyoneWithLink, RoomAccess::AskFirst]
    }

    /// The choice in words.
    pub fn label(self) -> (r: &'static str)
        ensures
            r@ == self.text(),
    {
        match self {
            RoomAccess::FriendsOnly => "Friends only",
            RoomAccess::AnyoneWithLink => "Anyone with the link",
            RoomAccess::AskFirst => "Ask me first",
        }
    }

    /// The choices, in the order in which they are offered.
    pub fn all() -> (r: Vec<RoomAccess>)
        ensures
            r@ == RoomAccess::choices(),
    {
        vec![RoomAccess::FriendsOnly, RoomAccess::AnyoneWithLink, RoomAccess::AskFirst]
    }

    /// Where the choice is offered.
    pub fn position(self) -> (r: usize)
        ensures
            r < RoomAccess::choices().len(),
            RoomAccess::choices()[r as int] == self,
    {
        match self {
            RoomAccess::FriendsOnly => 0,
            RoomAccess::AnyoneWithLink => 1,
            RoomAccess::AskFirst => 2,
        }
    }

    /// How the server admits viewers under this choice.
    pub open spec fn policy(self) -> RoomAccessPolicy {
        match self {
            RoomAccess::FriendsOnly => RoomAccessPolicy::FriendsOnly,
            RoomAccess::AnyoneWithLink => RoomAccessPolicy::Public,
            RoomAccess::AskFirst => RoomAccessPolicy::ApprovalRequired,
        }
    }
}

impl RoomExpiry {
    /// The choice in words.
    pub open spec fn text(self) -> Seq<char> {
        match self {
            RoomExpiry::TwoHours => "2 hours"@,
            RoomExpiry::FourHours => "4 hours"@,
            RoomExpiry::EightHours => "8 hours"@,
        }
    }

    /// The choice in seconds.
    pub open spec fn span(self) -> u32 {
        match self {
            RoomExpiry::TwoHours => 7_200,
            RoomExpiry::FourHours => 14_400,
            RoomExpiry::EightHours => 28_800,
        }
    }

    /// The choices, in the order in which they are offered.
    pub open spec fn choices() -> Seq<RoomExpiry> {
        seq![RoomExpiry::TwoHours, RoomExpiry::FourHours, RoomExpiry::EightHours]
    }

    /// The choice in words.
    pub fn label(self) -> (r: &'static str)
        ensures
            r@ == self.text(),
    {
        match self {
            RoomExpiry::TwoHours => "2 hours",
            RoomExpiry::FourHours => "4 hours",
            RoomExpiry::EightHours => "8 hours",
        }
    }

    /// The choice in seconds.
    pub fn seconds(self) -> (r: u32)
        ensures
            r == self.span(),
    {
        match self {
            RoomExpiry::TwoHours => 2 * 60 * 60,
            RoomExpiry::FourHours => 4 * 60 * 60,
            RoomExpiry::EightHours => 8 * 60 * 60,
        }
    }

    /// The choices, in the order in which they are offered.
    pub fn all() -> (r: Vec<RoomExpiry>)
        ensures
            r@ == RoomExpiry::choices(),
    {
        vec![RoomExpiry::TwoHours, RoomExpiry::FourHours, RoomExpiry::EightHours]
    }

    /// Where the choice is offered.
    pub fn position(self) -> (r: usize)
        ensures
            r < RoomExpiry::choices().len(),
            RoomExpiry::choices()[r as int] == self,
    {
        match self {
            RoomExpiry::TwoHours => 0,
            RoomExpiry::FourHours => 1,
            RoomExpiry::EightHours => 2,
        }
    }
}

/// The codes of the contacts that added this identity back.
pub open spec fn active_codes(contacts: Seq<ContactView>) -> Seq<Seq<char>> {
    contacts.filter(|contact: ContactView| !contact.pending).map_values(
        |contact: ContactView| contact.code,
    )
}

/// The codes of the contacts that added this identity back.
pub fn allowed_codes(contacts: &Vec<Contact>) -> (r: Vec<String>)
    ensures
        r.deep_view() == active_codes(contacts.deep_view()),
{
    let ghost all = contacts.deep_view();
    let ghost active = |contact: ContactView| !contact.pending;
    let ghost code_of = |contact: ContactView| contact.code;
    let mut r: Vec<String> = Vec::new();
    assert(all.take(0).filter(active) =~= Seq::empty()) by {
        reveal(Seq::filter);
    }
    assert(r.deep_view() =~= all.take(0).filter(active).map_values(code_of));
    for i in 0..contacts.len()
        invariant
            all == contacts.deep_view(),
            active == |contact: ContactView| !contact.pending,
            code_of == |contact: ContactView| contact.code,
            r.deep_view() == all.take(i as int).filter(active).map_values(code_of),
    {
        let ghost before = r.deep_view();
        proof {
            assert(all.take(i + 1) =~= all.take(i as int).push(all[i as int]));
            seqs::lemma_filter_push(all.take(i as int), all[i as int], active);
        }
        if !contacts[i].pending {
            r.push(contacts[i].code.clone());
            assert(r.deep_view() =~= before.push(all[i as int].code));
            assert(r.deep_view() =~= all.take(i + 1).filter(active).map_values(code_of));
        }
    }
    assert(all.take(all.len() as int) =~= all);
    r
}

/// What the settings say of a room. Who may join and how long it lives is up to
/// whoever opens it.
pub open spec fn settled(settings: SettingsView, codecs: Seq<VideoCodecId>) -> PresenterConfigView {
    PresenterConfigView {
        server: settings.signaling_server,
        profile: settings.capture_profile,
        include_system_audio: settings.include_system_audio,
        force_relay: settings.always_relay,
        video_codecs: codecs,
        access_policy: RoomAccessPolicy::Public,
        allowed_friend_codes: Seq::empty(),
        auto_approve: true,
        expires_in_seconds: 7_200,
        display_name: None,
        initial_source: None,
    }
}

impl PresenterConfig {
    /// What the settings say of a room, with the codecs that they rank.
    pub fn from_settings(settings: &Settings, video_codecs: Vec<VideoCodecId>) -> (r: Self)
        ensures
            r@ == settled(settings@, video_codecs@),
    {
        let r = PresenterConfig {
            server: settings.signaling_server.clone(),
            profile: settings.capture_profile,
            include_system_audio: settings.include_system_audio,
            force_relay: settings.always_relay,
            video_codecs,
            access_policy: RoomAccessPolicy::Public,
            allowed_friend_codes: Vec::new(),
            auto_approve: true,
            expires_in_seconds: 2 * 60 * 60,
            display_name: None,
            initial_source: None,
        };
        assert(r@.allowed_friend_codes =~= Seq::empty());
        r
    }
}

/// The order in which codecs are listed: those that are ranked, then the rest in
/// the order of the engine, so that a new codec appears rather than vanishing.
pub open spec fn effective_order(ranked: Seq<VideoCodecId>, engine: Seq<VideoCodecId>) -> Seq<
    VideoCodecId,
> {
    textset::distinct(ranked + engine)
}

/// The order after a codec has changed places with its neighbour.
pub open spec fn swapped(order: Seq<VideoCodecId>, from: int, to: int) -> Seq<VideoCodecId> {
    order.update(from, order[to]).update(to, order[from])
}

fn push_new(order: &mut Vec<VideoCodecId>, codec: VideoCodecId)
    ensures
        final(order)@ == textset::with(old(order)@, codec),
{
    for i in 0..order.len()
        invariant
            *order == *old(order),
            forall|j: int| 0 <= j < i ==> order@[j] != codec,
    {
        if order[i] == codec {
            assert(order@.contains(codec));
            return;
        }
    }
    order.push(codec);
}

/// The order in which codecs are listed.
pub fn codec_order(ranked: &Vec<VideoCodecId>, engine: &Vec<VideoCodecId>) -> (r: Vec<VideoCodecId>)
    ensures
        r@ == effective_order(ranked@, engine@),
{
    let ghost all = ranked@ + engine@;
    let mut r: Vec<VideoCodecId> = Vec::new();
    assert(r@ =~= textset::distinct(all.take(0)));
    for i in 0..ranked.len()
        invariant
            all == ranked@ + engine@,
            r@ == textset::distinct(all.take(i as int)),
    {
        proof {
            let next = all.take(i + 1);
            assert(next.drop_last() =~= all.take(i as int));
            assert(next.last() == ranked@[i as int]);
        }
        push_new(&mut r, ranked[i]);
    }
    let first: usize = ranked.len();
    for i in 0..engine.len()
        invariant
            first == ranked@.len(),
            all == ranked@ + engine@,
            r@ == textset::distinct(all.take(first + i)),
    {
        proof {
            let next = all.take(first + i + 1);
            assert(next.drop_last() =~= all.take(first + i));
            assert(next.last() == engine@[i as int]);
        }
        push_new(&mut r, engine[i]);
    }
    assert(all.take(all.len() as int) =~= all);
    r
}

/// Moves a codec up or down by one; `None` where it is at the end.
pub fn move_codec(order: &Vec<VideoCodecId>, index: usize, up: bool) -> (r: Option<
    Vec<VideoCodecId>,
>)
    ensures
        match r {
            Some(moved) => index < order@.len() && if up {
                index > 0 && moved@ == swapped(order@, index as int, index - 1)
            } else {
                index + 1 < order@.len() && moved@ == swapped(order@, index as int, index + 1)
            },
            None => index >= order@.len() || if up {
                index == 0
            } else {
                index + 1 == order@.len()
            },
        },
{
    if index >= order.len() || (up && index == 0) || (!up && index == order.len() - 1) {
        return None;
    }
    let to: usize = if up {
        index - 1
    } else {
        index + 1
    };
    let mut moved: Vec<VideoCodecId> = Vec::new();
    for i in 0..order.len()
        invariant
            index < order@.len(),
            to < order@.len(),
            to != index,
            moved@ == swapped(order@, index as int, to as int).take(i as int),
    {
        let codec = if i == index {
            order[to]
        } else if i == to {
            order[index]
        } else {
            order[i]
        };
        moved.push(codec);
        assert(moved@ =~= swapped(order@, index as int, to as int).take(i + 1));
    }
    assert(moved@ =~= swapped(order@, index as int, to as int));
    Some(moved)
}

/// Every codec of the engine is listed once, whatever is ranked.
pub proof fn law_no_codec_vanishes(ranked: Seq<VideoCodecId>, engine: Seq<VideoCodecId>)
    ensures
        effective_order(ranked, engine).no_duplicates(),
        forall|c: VideoCodecId| #[trigger]
            effective_order(ranked, engine).contains(c) <==> ranked.contains(c) || engine.contains(
                c,
            ),
{
    let all = ranked + engine;
    textset::lemma_distinct_members(all);
    assert forall|c: VideoCodecId| #[trigger] all.contains(c) <==> ranked.contains(c)
        || engine.contains(c) by {
        if ranked.contains(c) {
            let i = choose|i: int| 0 <= i < ranked.len() && ranked[i] == c;
            assert(all[i] == c);
        }
        if engine.contains(c) {
            let i = choose|i: int| 0 <= i < engine.len() && engine[i] == c;
            assert(all[ranked.len() + i] == c);
        }
        if all.contains(c) {
            let i = choose|i: int| 0 <= i < all.len() && all[i] == c;
            if i < ranked.len() {
                assert(ranked[i] == c);
            } else {
                assert(engine[i - ranked.len()] == c);
            }
        }
    }
}

/// Moving a codec and moving it back changes nothing.
pub proof fn law_moving_back_undoes(order: Seq<VideoCodecId>, from: int, to: int)
    requires
        0 <= from < order.len(),
        0 <= to < order.len(),
    ensures
        swapped(swapped(order, from, to), to, from) == order,
{
    assert(swapped(swapped(order, from, to), to, from) =~= order);
}

} // verus!
