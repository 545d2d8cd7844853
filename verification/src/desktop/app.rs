//! The state of the window and what its controls do to it.
use vstd::prelude::*;
use vstd::string::*;

use super::friends::{Contact, ContactView, FriendsModel, PresenceView};
use super::hosting;
use super::hosting::{ChatMessage, ChatMessageView, HostingModel, PresenterView};
use super::settings;
use super::settings::{
    CaptureProfile, PresenterConfig, PresenterConfigView, Profile, ProfileView, RoomAccess,
    RoomExpiry, Settings, SettingsView, Source,
};
use super::watching::{ViewerView, WatchingModel};
use crate::client::cli::VideoCodecId;
use crate::client::invite;
use crate::client::presence::{HostingAnnouncement, HostingAnnouncementView};
use crate::client::presenter::types::{
    PresenterCommand as SessionCommand, PresenterCommandView as SessionCommandView,
};
use crate::client::signaling::SessionIdentity;
use crate::client::viewer::types::{
    ViewerCommand as WatcherCommand, ViewerCommandView as WatcherCommandView,
};
use crate::protocol::{HostedRoom, HostedRoomView, RoomAccessPolicy, SharingState};
use crate::text;

verus! {

/// What the window shows.
#[derive(Debug, Clone, Copy, PartialEq, Eq, Structural)]
pub enum Screen {
    Home,
    Room,
    Friends,
    Settings,
    Onboarding,
}

impl DeepView for Screen {
    type V = Screen;

    open spec fn deep_view(&self) -> Screen {
        *self
    }
}

/// What the panel of a room shows.
#[derive(Debug, Clone, Copy, PartialEq, Eq, Structural)]
pub enum RoomTab {
    Chat,
    Diagnostics,
}

impl DeepView for RoomTab {
    type V = RoomTab;

    open spec fn deep_view(&self) -> RoomTab {
        *self
    }
}

/// How the stage fits the video.
#[derive(Debug, Clone, Copy, PartialEq, Eq, Structural)]
pub enum StageFit {
    /// Whole, with bands.
    Fit,
    /// Cropped to fill.
    Fill,
    /// One to one.
    Native,
}

impl DeepView for StageFit {
    type V = StageFit;

    open spec fn deep_view(&self) -> StageFit {
        *self
    }
}

/// What the window asks of the watching session.
#[derive(Debug, PartialEq, Eq)]
pub enum ViewerCommand {
    /// Join the room at this viewer URL.
    Join(String),
    Leave,
    /// Rename this viewer for the room and for chat.
    SetName(String),
    /// Ask the presenter for an ICE restart now.
    RestartIce,
}

/// What a [`ViewerCommand`] holds.
#[verifier::ext_equal]
pub enum ViewerCommandView {
    Join(Seq<char>),
    Leave,
    SetName(Seq<char>),
    RestartIce,
}

impl View for ViewerCommand {
    type V = ViewerCommandView;

    open spec fn view(&self) -> ViewerCommandView {
        match self {
            ViewerCommand::Join(first) => ViewerCommandView::Join(first@),
            ViewerCommand::Leave => ViewerCommandView::Leave,
            ViewerCommand::SetName(first) => ViewerCommandView::SetName(first@),
            ViewerCommand::RestartIce => ViewerCommandView::RestartIce,
        }
    }
}

impl DeepView for ViewerCommand {
    type V = ViewerCommandView;

    open spec fn deep_view(&self) -> ViewerCommandView {
        self@
    }
}

impl Clone for ViewerCommand {
    fn clone(&self) -> (r: Self)
        ensures
            r@ == self@,
    {
        match self {
            ViewerCommand::Join(first) => ViewerCommand::Join(first.clone()),
            ViewerCommand::Leave => ViewerCommand::Leave,
            ViewerCommand::SetName(first) => ViewerCommand::SetName(first.clone()),
            ViewerCommand::RestartIce => ViewerCommand::RestartIce,
        }
    }
}

/// What the window asks of the hosting session.
#[derive(Debug, PartialEq, Eq)]
pub enum PresenterCommand {
    /// Create a room and open it idle.
    OpenRoom,
    /// Pick a capture and share it into the open room.
    StartShare,
    /// Pick a capture again and swap it.
    ChangeSource,
    PauseShare,
    ResumeShare,
    /// Back to idle; the room and its chat stay up.
    StopShare,
    /// End the room for everyone.
    CloseRoom,
    /// Detach without closing the room, or put away an ended session.
    Leave,
    Approve(String),
    Deny(String),
}

/// What a [`PresenterCommand`] holds.
#[verifier::ext_equal]
pub enum PresenterCommandView {
    OpenRoom,
    StartShare,
    ChangeSource,
    PauseShare,
    ResumeShare,
    StopShare,
    CloseRoom,
    Leave,
    Approve(Seq<char>),
    Deny(Seq<char>),
}

impl View for PresenterCommand {
    type V = PresenterCommandView;

    open spec fn view(&self) -> PresenterCommandView {
        match self {
            PresenterCommand::OpenRoom => PresenterCommandView::OpenRoom,
            PresenterCommand::StartShare => PresenterCommandView::StartShare,
            PresenterCommand::ChangeSource => PresenterCommandView::ChangeSource,
            PresenterCommand::PauseShare => PresenterCommandView::PauseShare,
            PresenterCommand::ResumeShare => PresenterCommandView::ResumeShare,
            PresenterCommand::StopShare => PresenterCommandView::StopShare,
            PresenterCommand::CloseRoom => PresenterCommandView::CloseRoom,
            PresenterCommand::Leave => PresenterCommandView::Leave,
            PresenterCommand::Approve(first) => PresenterCommandView::Approve(first@),
            PresenterCommand::Deny(first) => PresenterCommandView::Deny(first@),
        }
    }
}

impl DeepView for PresenterCommand {
    type V = PresenterCommandView;

    open spec fn deep_view(&self) -> PresenterCommandView {
        self@
    }
}

impl Clone for PresenterCommand {
    fn clone(&self) -> (r: Self)
        ensures
            r@ == self@,
    {
        match self {
            PresenterCommand::OpenRoom => PresenterCommand::OpenRoom,
            PresenterCommand::StartShare => PresenterCommand::StartShare,
            PresenterCommand::ChangeSource => PresenterCommand::ChangeSource,
            PresenterCommand::PauseShare => PresenterCommand::PauseShare,
            PresenterCommand::ResumeShare => PresenterCommand::ResumeShare,
            PresenterCommand::StopShare => PresenterCommand::StopShare,
            PresenterCommand::CloseRoom => PresenterCommand::CloseRoom,
            PresenterCommand::Leave => PresenterCommand::Leave,
            PresenterCommand::Approve(first) => PresenterCommand::Approve(first.clone()),
            PresenterCommand::Deny(first) => PresenterCommand::Deny(first.clone()),
        }
    }
}

/// What a watching session starts from.
pub struct ViewerConfig {
    pub display_name: Option<String>,
    pub identity: Option<SessionIdentity>,
    pub force_relay: bool,
}

/// What a [`ViewerConfig`] holds.
#[verifier::ext_equal]
pub struct ViewerConfigView {
    pub display_name: Option<Seq<char>>,
    pub identity: Option<Seq<u8>>,
    pub force_relay: bool,
}

impl View for ViewerConfig {
    type V = ViewerConfigView;

    open spec fn view(&self) -> ViewerConfigView {
        ViewerConfigView {
            display_name: self.display_name.deep_view(),
            identity: self.identity.deep_view(),
            force_relay: self.force_relay,
        }
    }
}

impl DeepView for ViewerConfig {
    type V = ViewerConfigView;

    open spec fn deep_view(&self) -> ViewerConfigView {
        self@
    }
}

/// The state of the window.
pub struct AppState {
    pub screen: Screen,
    pub palette_open: bool,
    pub create_open: bool,
    pub join_open: bool,
    pub join_draft: String,
    pub join_error: Option<String>,
    pub room_tab: RoomTab,
    pub stage_fit: StageFit,
    pub theatre: bool,
    pub theatre_chat_open: bool,
    pub new_room_motion: bool,
    pub new_room_access: RoomAccess,
    pub new_room_expiry: RoomExpiry,
    pub create_error: Option<String>,
    pub chat_draft: String,
    pub palette_query: String,
    pub name_edit_open: bool,
    pub name_edit_draft: String,
    pub report_note: Option<String>,
    pub profile: Option<Profile>,
    pub contacts: Vec<Contact>,
    pub settings: Settings,
    pub name_draft: String,
    pub device_draft: String,
    pub server_draft: String,
    pub friend_code_draft: String,
    pub friend_name_draft: String,
    pub friend_error: Option<String>,
    pub presence_view: PresenceView,
    pub presenter_view: PresenterView,
    pub presenter_commands: Vec<PresenterCommand>,
    pub viewer_view: ViewerView,
    pub viewer_commands: Vec<ViewerCommand>,
    pub chat_out: Vec<String>,
}

/// What a [`AppState`] holds.
#[verifier::ext_equal]
pub struct AppModel {
    pub screen: Screen,
    pub palette_open: bool,
    pub create_open: bool,
    pub join_open: bool,
    pub join_draft: Seq<char>,
    pub join_error: Option<Seq<char>>,
    pub room_tab: RoomTab,
    pub stage_fit: StageFit,
    pub theatre: bool,
    pub theatre_chat_open: bool,
    pub new_room_motion: bool,
    pub new_room_access: RoomAccess,
    pub new_room_expiry: RoomExpiry,
    pub create_error: Option<Seq<char>>,
    pub chat_draft: Seq<char>,
    pub palette_query: Seq<char>,
    pub name_edit_open: bool,
    pub name_edit_draft: Seq<char>,
    pub report_note: Option<Seq<char>>,
    pub profile: Option<ProfileView>,
    pub contacts: Seq<ContactView>,
    pub settings: SettingsView,
    pub name_draft: Seq<char>,
    pub device_draft: Seq<char>,
    pub server_draft: Seq<char>,
    pub friend_code_draft: Seq<char>,
    pub friend_name_draft: Seq<char>,
    pub friend_error: Option<Seq<char>>,
    pub presence_view: FriendsModel,
    pub presenter_view: HostingModel,
    pub presenter_commands: Seq<PresenterCommandView>,
    pub viewer_view: WatchingModel,
    pub viewer_commands: Seq<ViewerCommandView>,
    pub chat_out: Seq<Seq<char>>,
}

impl View for AppState {
    type V = AppModel;

    open spec fn view(&self) -> AppModel {
        AppModel {
            screen: self.screen,
            palette_open: self.palette_open,
            create_open: self.create_open,
            join_open: self.join_open,
            join_draft: self.join_draft@,
            join_error: self.join_error.deep_view(),
            room_tab: self.room_tab,
            stage_fit: self.stage_fit,
            theatre: self.theatre,
            theatre_chat_open: self.theatre_chat_open,
            new_room_motion: self.new_room_motion,
            new_room_access: self.new_room_access,
            new_room_expiry: self.new_room_expiry,
            create_error: self.create_error.deep_view(),
            chat_draft: self.chat_draft@,
            palette_query: self.palette_query@,
            name_edit_open: self.name_edit_open,
            name_edit_draft: self.name_edit_draft@,
            report_note: self.report_note.deep_view(),
            profile: self.profile.deep_view(),
            contacts: self.contacts.deep_view(),
            settings: self.settings@,
            name_draft: self.name_draft@,
            device_draft: self.device_draft@,
            server_draft: self.server_draft@,
            friend_code_draft: self.friend_code_draft@,
            friend_name_draft: self.friend_name_draft@,
            friend_error: self.friend_error.deep_view(),
            presence_view: self.presence_view@,
            presenter_view: self.presenter_view@,
            presenter_commands: self.presenter_commands.deep_view(),
            viewer_view: self.viewer_view@,
            viewer_commands: self.viewer_commands.deep_view(),
            chat_out: self.chat_out.deep_view(),
        }
    }
}

impl DeepView for AppState {
    type V = AppModel;

    open spec fn deep_view(&self) -> AppModel {
        self@
    }
}

/// What the room screen shows.
#[derive(Debug, Clone, Copy, PartialEq, Eq, Structural)]
pub enum RoomScreen {
    /// The room that is hosted.
    Hosting,
    /// The room that is watched.
    Watching,
    /// There is no session.
    Empty,
}

impl DeepView for RoomScreen {
    type V = RoomScreen;

    open spec fn deep_view(&self) -> RoomScreen {
        *self
    }
}

/// Where typed chat goes.
#[derive(Debug, PartialEq, Eq)]
pub enum ChatRoute {
    ToHosting(Vec<String>),
    ToWatching(Vec<String>),
    /// There is no session: it is dropped.
    Nowhere,
}

/// What a [`ChatRoute`] holds.
#[verifier::ext_equal]
pub enum ChatRouteView {
    ToHosting(Seq<Seq<char>>),
    ToWatching(Seq<Seq<char>>),
    Nowhere,
}

impl View for ChatRoute {
    type V = ChatRouteView;

    open spec fn view(&self) -> ChatRouteView {
        match self {
            ChatRoute::ToHosting(first) => ChatRouteView::ToHosting(first.deep_view()),
            ChatRoute::ToWatching(first) => ChatRouteView::ToWatching(first.deep_view()),
            ChatRoute::Nowhere => ChatRouteView::Nowhere,
        }
    }
}

impl DeepView for ChatRoute {
    type V = ChatRouteView;

    open spec fn deep_view(&self) -> ChatRouteView {
        self@
    }
}

impl Clone for ChatRoute {
    fn clone(&self) -> (r: Self)
        ensures
            r@ == self@,
    {
        match self {
            ChatRoute::ToHosting(first) => {
                let first_copy = first.clone();
                assert(first_copy.deep_view() =~= first.deep_view());
                ChatRoute::ToHosting(first_copy)
            },
            ChatRoute::ToWatching(first) => {
                let first_copy = first.clone();
                assert(first_copy.deep_view() =~= first.deep_view());
                ChatRoute::ToWatching(first_copy)
            },
            ChatRoute::Nowhere => ChatRoute::Nowhere,
        }
    }
}

/// What is to be done for a request to the hosting session.
pub enum HostingStep {
    /// Create this room.
    Open(PresenterConfig),
    /// Pick a capture and share it.
    Share(Source),
    /// Hand this to the session.
    Ask(SessionCommand),
    /// Let go of the session.
    Detach,
}

/// What a [`HostingStep`] holds.
#[verifier::ext_equal]
pub enum HostingStepView {
    Open(PresenterConfigView),
    Share(Source),
    Ask(SessionCommandView),
    Detach,
}

impl View for HostingStep {
    type V = HostingStepView;

    open spec fn view(&self) -> HostingStepView {
        match self {
            HostingStep::Open(first) => HostingStepView::Open(first@),
            HostingStep::Share(first) => HostingStepView::Share(*first),
            HostingStep::Ask(first) => HostingStepView::Ask(first@),
            HostingStep::Detach => HostingStepView::Detach,
        }
    }
}

impl DeepView for HostingStep {
    type V = HostingStepView;

    open spec fn deep_view(&self) -> HostingStepView {
        self@
    }
}

/// What is to be done for a request to the watching session.
pub enum WatchingStep {
    /// Watch the room at this URL.
    Join {
        url: String,
        config: ViewerConfig,
    },
    /// Hand this to the session.
    Ask(WatcherCommand),
    /// Let go of the session.
    Detach,
}

/// What a [`WatchingStep`] holds.
#[verifier::ext_equal]
pub enum WatchingStepView {
    Join { url: Seq<char>, config: ViewerConfigView },
    Ask(WatcherCommandView),
    Detach,
}

impl View for WatchingStep {
    type V = WatchingStepView;

    open spec fn view(&self) -> WatchingStepView {
        match self {
            WatchingStep::Join { url, config } => WatchingStepView::Join {
                url: url@,
                config: config@,
            },
            WatchingStep::Ask(first) => WatchingStepView::Ask(first@),
            WatchingStep::Detach => WatchingStepView::Detach,
        }
    }
}

impl DeepView for WatchingStep {
    type V = WatchingStepView;

    open spec fn deep_view(&self) -> WatchingStepView {
        self@
    }
}

/// A friend to add.
pub struct FriendDraft {
    pub code: String,
    pub name: String,
    pub own: String,
}

/// What a [`FriendDraft`] holds.
#[verifier::ext_equal]
pub struct FriendDraftView {
    pub code: Seq<char>,
    pub name: Seq<char>,
    pub own: Seq<char>,
}

impl View for FriendDraft {
    type V = FriendDraftView;

    open spec fn view(&self) -> FriendDraftView {
        FriendDraftView {
            code: self.code@,
            name: self.name@,
            own: self.own@,
        }
    }
}

impl DeepView for FriendDraft {
    type V = FriendDraftView;

    open spec fn deep_view(&self) -> FriendDraftView {
        self@
    }
}

/// An identity to create.
pub struct IdentityDraft {
    pub name: String,
    pub device: String,
}

/// What a [`IdentityDraft`] holds.
#[verifier::ext_equal]
pub struct IdentityDraftView {
    pub name: Seq<char>,
    pub device: Seq<char>,
}

impl View for IdentityDraft {
    type V = IdentityDraftView;

    open spec fn view(&self) -> IdentityDraftView {
        IdentityDraftView {
            name: self.name@,
            device: self.device@,
        }
    }
}

impl DeepView for IdentityDraft {
    type V = IdentityDraftView;

    open spec fn deep_view(&self) -> IdentityDraftView {
        self@
    }
}

/// A control of the hosted room.
#[derive(Debug, Clone, Copy, PartialEq, Eq, Structural)]
pub enum HostControl {
    Share,
    ChangeSource,
    Pause,
    Resume,
    StopSharing,
}

impl DeepView for HostControl {
    type V = HostControl;

    open spec fn deep_view(&self) -> HostControl {
        *self
    }
}

/// The keys that were pressed.
#[derive(Debug, Clone, Copy, PartialEq, Eq, Structural)]
pub struct Keys {
    pub palette: bool,
    pub create: bool,
    pub friends: bool,
    pub settings: bool,
    pub escape: bool,
    pub theatre: bool,
}

/// What separates the tokens of a scene.
pub open spec fn scene_separators() -> Seq<char> {
    seq!['.', ',', ' ', ':']
}

impl AppModel {
    /// The window as it starts: first on onboarding, later at home.
    pub open spec fn started(
        profile: Option<ProfileView>,
        contacts: Seq<ContactView>,
        settings: SettingsView,
        hostname: Option<Seq<char>>,
    ) -> AppModel {
        AppModel {
            screen: if profile is Some {
                Screen::Home
            } else {
                Screen::Onboarding
            },
            palette_open: false,
            create_open: false,
            join_open: false,
            join_draft: Seq::empty(),
            join_error: None,
            room_tab: RoomTab::Chat,
            stage_fit: StageFit::Fit,
            theatre: false,
            theatre_chat_open: true,
            new_room_motion: false,
            new_room_access: RoomAccess::FriendsOnly,
            new_room_expiry: RoomExpiry::TwoHours,
            create_error: None,
            chat_draft: Seq::empty(),
            palette_query: Seq::empty(),
            name_edit_open: false,
            name_edit_draft: Seq::empty(),
            report_note: None,
            profile,
            contacts,
            settings,
            name_draft: match profile {
                Some(profile) => profile.display_name,
                None => Seq::empty(),
            },
            device_draft: match profile {
                Some(profile) => profile.device_name,
                None => device_name(hostname),
            },
            server_draft: settings.signaling_server,
            friend_code_draft: Seq::empty(),
            friend_name_draft: Seq::empty(),
            friend_error: None,
            presence_view: FriendsModel {
                friends: Seq::empty(),
                self_code: None,
                connected: false,
                requests: Seq::empty(),
            },
            presenter_view: HostingModel::blank(),
            presenter_commands: Seq::empty(),
            viewer_view: WatchingModel::blank(),
            viewer_commands: Seq::empty(),
            chat_out: Seq::empty(),
        }
    }

    /// The name that chat carries.
    pub open spec fn own_name(self) -> Seq<char> {
        match self.profile {
            Some(profile) => profile.display_name,
            None => "You"@,
        }
    }

    /// A message is sent to the room, and shown.
    pub open spec fn chatted(self, typed: Seq<char>) -> AppModel {
        let said = text::trim(typed);
        let message = ChatMessageView { from: self.own_name(), text: said, own: true };
        if said.len() == 0 {
            self
        } else if self.presenter_view.active {
            AppModel {
                presenter_view: HostingModel {
                    messages: self.presenter_view.messages.push(message),
                    ..self.presenter_view
                },
                chat_out: self.chat_out.push(said),
                ..self
            }
        } else if self.viewer_view.active {
            AppModel {
                viewer_view: WatchingModel {
                    messages: self.viewer_view.messages.push(message),
                    ..self.viewer_view
                },
                chat_out: self.chat_out.push(said),
                ..self
            }
        } else {
            self
        }
    }

    /// Another screen is shown.
    pub open spec fn gone(self, screen: Screen) -> AppModel {
        AppModel { screen, palette_open: false, ..self }
    }

    /// The hosting session is asked something.
    pub open spec fn asking_host(self, command: PresenterCommandView) -> AppModel {
        AppModel { presenter_commands: self.presenter_commands.push(command), ..self }
    }

    /// The watching session is asked something.
    pub open spec fn asking_viewer(self, command: ViewerCommandView) -> AppModel {
        AppModel { viewer_commands: self.viewer_commands.push(command), ..self }
    }

    /// A room is to be joined.
    pub open spec fn joining(self, url: Seq<char>) -> AppModel {
        self.asking_viewer(ViewerCommandView::Join(url)).gone(Screen::Room)
    }

    /// A room is to be opened.
    pub open spec fn opening(self) -> AppModel {
        self.asking_host(PresenterCommandView::OpenRoom).gone(Screen::Room)
    }

    /// A request is answered.
    pub open spec fn answered(self, peer_id: Seq<char>, approve: bool) -> AppModel {
        AppModel {
            presenter_view: HostingModel {
                requests: hosting::without_request(self.presenter_view.requests, peer_id),
                ..self.presenter_view
            },
            ..self
        }.asking_host(
            if approve {
                PresenterCommandView::Approve(peer_id)
            } else {
                PresenterCommandView::Deny(peer_id)
            },
        )
    }

    /// Whether the stage has the whole width: inside the room alone.
    pub open spec fn in_theatre(self) -> bool {
        self.theatre && self.screen == Screen::Room
    }

    /// The palette is open with a fresh query.
    pub open spec fn palette_shown(self) -> AppModel {
        AppModel { palette_query: Seq::empty(), palette_open: true, ..self }
    }

    /// The form for a new room is open.
    pub open spec fn create_shown(self) -> AppModel {
        AppModel {
            screen: Screen::Home,
            palette_open: false,
            join_open: false,
            create_error: None,
            create_open: true,
            ..self
        }
    }

    /// The form for a link is open.
    pub open spec fn join_shown(self) -> AppModel {
        AppModel {
            screen: Screen::Home,
            palette_open: false,
            create_open: false,
            join_error: None,
            join_open: true,
            ..self
        }
    }

    /// One token of a scene is applied, where it is known.
    pub open spec fn token(self, token: Seq<char>) -> Option<AppModel> {
        if token == "home"@ {
            Some(AppModel { screen: Screen::Home, ..self })
        } else if token == "room"@ {
            Some(AppModel { screen: Screen::Room, ..self })
        } else if token == "friends"@ {
            Some(AppModel { screen: Screen::Friends, ..self })
        } else if token == "settings"@ {
            Some(AppModel { screen: Screen::Settings, ..self })
        } else if token == "onboarding"@ {
            Some(AppModel { screen: Screen::Onboarding, ..self })
        } else if token == "palette"@ {
            Some(AppModel { palette_open: true, ..self })
        } else if token == "create"@ {
            Some(AppModel { create_open: true, ..self })
        } else if token == "join"@ {
            Some(AppModel { join_open: true, ..self })
        } else if token == "chat"@ {
            Some(AppModel { room_tab: RoomTab::Chat, ..self })
        } else if token == "diagnostics"@ {
            Some(AppModel { room_tab: RoomTab::Diagnostics, ..self })
        } else if token == "theatre"@ || token == "theater"@ {
            Some(AppModel { theatre: true, ..self })
        } else if token == "motion"@ {
            Some(AppModel { new_room_motion: true, ..self })
        } else if token == "text"@ {
            Some(AppModel { new_room_motion: false, ..self })
        } else {
            None
        }
    }

    /// Tokens are applied in order; those that are unknown are left out.
    pub open spec fn staged(self, tokens: Seq<Seq<char>>) -> (AppModel, Seq<Seq<char>>)
        decreases tokens.len(),
    {
        if tokens.len() == 0 {
            (self, Seq::empty())
        } else {
            let (before, unknown) = self.staged(tokens.drop_last());
            let last = text::ascii_lowered(tokens.last());
            match before.token(last) {
                Some(after) => (after, unknown),
                None => (before, unknown.push(last)),
            }
        }
    }

    /// Everything that floats is put away.
    pub open spec fn escaped(self) -> AppModel {
        AppModel {
            palette_open: false,
            create_open: false,
            join_open: false,
            theatre: false,
            name_edit_open: false,
            ..self
        }
    }

    /// Keys are pressed, one after another. Those that could be typed do nothing
    /// while something is typed.
    pub open spec fn keyed(self, keys: Keys, typing: bool) -> AppModel {
        let a = if keys.palette {
            self.palette_shown()
        } else {
            self
        };
        let b = if !typing && keys.create {
            a.create_shown()
        } else {
            a
        };
        let c = if keys.friends {
            b.gone(Screen::Friends)
        } else {
            b
        };
        let d = if keys.settings {
            c.gone(Screen::Settings)
        } else {
            c
        };
        let e = if keys.escape {
            d.escaped()
        } else {
            d
        };
        if e.screen == Screen::Room && !typing && keys.theatre {
            AppModel { theatre: !e.theatre, ..e }
        } else {
            e
        }
    }

    /// Whether someone added this identity back.
    pub open spec fn has_friends(self) -> bool {
        exists|i: int| 0 <= i < self.contacts.len() && !(#[trigger] self.contacts[i]).pending
    }

    /// The form for a new room is sent. A room for friends needs a friend.
    pub open spec fn room_tried(self) -> AppModel {
        if self.new_room_access == RoomAccess::FriendsOnly && !self.has_friends() {
            AppModel {
                create_error: Some(
                    "No confirmed friends to allow yet. Add a friend first, or pick another access rule."@,
                ),
                ..self
            }
        } else {
            AppModel {
                settings: SettingsView {
                    capture_profile: if self.new_room_motion {
                        CaptureProfile::Motion
                    } else {
                        CaptureProfile::Text
                    },
                    ..self.settings
                },
                create_error: None,
                create_open: false,
                ..self
            }.opening()
        }
    }

    /// The form for a link is sent, given whether the link can be used.
    pub open spec fn join_tried(self, usable: bool) -> AppModel {
        let link = text::trim(self.join_draft);
        if link.len() == 0 {
            AppModel { join_error: Some("Paste a room link to join."@), ..self }
        } else if usable {
            AppModel {
                join_open: false,
                join_error: None,
                join_draft: Seq::empty(),
                ..self
            }.joining(link)
        } else {
            AppModel {
                join_error: Some("That doesn't look like a Clarity room link."@),
                ..self
            }
        }
    }

    /// The friend that the form names. Without a name the code stands for it.
    pub open spec fn friend_drafted(self) -> FriendDraftView {
        FriendDraftView {
            code: self.friend_code_draft,
            name: if text::trim(self.friend_name_draft).len() == 0 {
                self.friend_code_draft
            } else {
                self.friend_name_draft
            },
            own: match self.profile {
                Some(profile) => profile.friend_code,
                None => Seq::empty(),
            },
        }
    }

    /// A friend was added, or why not.
    pub open spec fn friend_added(self, outcome: Result<Seq<ContactView>, Seq<char>>) -> AppModel {
        match outcome {
            Ok(contacts) => AppModel {
                contacts,
                friend_code_draft: Seq::empty(),
                friend_name_draft: Seq::empty(),
                friend_error: None,
                ..self
            },
            Err(reason) => AppModel { friend_error: Some(reason), ..self },
        }
    }

    /// The identity that the form names.
    pub open spec fn identity_drafted(self) -> IdentityDraftView {
        IdentityDraftView {
            name: text::trim(self.name_draft),
            device: if text::trim(self.device_draft).len() == 0 {
                "This device"@
            } else {
                text::trim(self.device_draft)
            },
        }
    }

    /// The server of the form is taken over, where there is one.
    pub open spec fn server_settled(self) -> AppModel {
        let server = text::trim(self.server_draft);
        let settings = if server.len() > 0 {
            SettingsView { signaling_server: server, ..self.settings }
        } else {
            self.settings
        };
        AppModel { settings, server_draft: settings.signaling_server, ..self }
    }

    /// An identity was created, or why not.
    pub open spec fn identity_created(self, outcome: Result<ProfileView, Seq<char>>) -> AppModel {
        match outcome {
            Ok(profile) => AppModel { profile: Some(profile), ..self }.gone(Screen::Home),
            Err(reason) => AppModel { friend_error: Some(reason), ..self },
        }
    }

    /// What a new room is like.
    pub open spec fn plan(self, codecs: Seq<VideoCodecId>, synthetic: bool) -> PresenterConfigView {
        PresenterConfigView {
            access_policy: self.new_room_access.policy(),
            auto_approve: self.new_room_access != RoomAccess::AskFirst,
            allowed_friend_codes: if self.new_room_access == RoomAccess::FriendsOnly {
                settings::active_codes(self.contacts)
            } else {
                Seq::empty()
            },
            expires_in_seconds: self.new_room_expiry.span(),
            display_name: match self.profile {
                Some(profile) => Some(profile.display_name),
                None => None,
            },
            initial_source: if synthetic {
                Some(Source::Synthetic)
            } else {
                None
            },
            ..settings::settled(self.settings, codecs)
        }
    }

    /// A hosted room begins.
    pub open spec fn hosting(self) -> AppModel {
        AppModel {
            presenter_view: HostingModel {
                active: true,
                status: "Creating room…"@,
                target_ceiling_kbps: settings::ceiling(self.settings.capture_profile),
                ..HostingModel::blank()
            },
            ..self
        }
    }

    /// The hosted room is being closed.
    pub open spec fn closing(self) -> AppModel {
        AppModel {
            presenter_view: HostingModel { status: "Closing the room…"@, ..self.presenter_view },
            ..self
        }
    }

    /// The hosted room is let go.
    pub open spec fn detached(self) -> AppModel {
        AppModel { presenter_view: HostingModel::blank(), ..self }.gone(Screen::Home)
    }

    /// A request to the hosting session is taken up.
    pub open spec fn host_step(
        self,
        command: PresenterCommandView,
        codecs: Seq<VideoCodecId>,
        synthetic: bool,
    ) -> (AppModel, HostingStepView) {
        match command {
            PresenterCommandView::OpenRoom => (
                self.hosting(),
                HostingStepView::Open(self.plan(codecs, synthetic)),
            ),
            PresenterCommandView::StartShare | PresenterCommandView::ChangeSource => (
                self,
                HostingStepView::Share(
                    if synthetic {
                        Source::Synthetic
                    } else {
                        Source::Screen
                    },
                ),
            ),
            PresenterCommandView::PauseShare => (
                self,
                HostingStepView::Ask(SessionCommandView::PauseShare),
            ),
            PresenterCommandView::ResumeShare => (
                self,
                HostingStepView::Ask(SessionCommandView::ResumeShare),
            ),
            PresenterCommandView::StopShare => (
                self,
                HostingStepView::Ask(SessionCommandView::StopShare),
            ),
            PresenterCommandView::CloseRoom => (
                self.closing(),
                HostingStepView::Ask(SessionCommandView::CloseRoom),
            ),
            PresenterCommandView::Leave => (
                self.detached(),
                HostingStepView::Detach,
            ),
            PresenterCommandView::Approve(peer_id) => (
                self,
                HostingStepView::Ask(SessionCommandView::ApproveViewer { peer_id }),
            ),
            PresenterCommandView::Deny(peer_id) => (
                self,
                HostingStepView::Ask(SessionCommandView::RejectViewer { peer_id }),
            ),
        }
    }

    /// A watched room begins, under the code that its link gives.
    pub open spec fn watching(self, room_code: Option<Seq<char>>) -> AppModel {
        AppModel {
            viewer_view: WatchingModel {
                active: true,
                status: "Connecting…"@,
                presenter_connected: true,
                room_code,
                ..WatchingModel::blank()
            },
            ..self
        }
    }

    /// What a watching session starts from.
    pub open spec fn watch_config(self) -> ViewerConfigView {
        ViewerConfigView {
            display_name: match self.profile {
                Some(profile) => Some(profile.display_name),
                None => None,
            },
            identity: match self.profile {
                Some(profile) => Some(profile.public_key),
                None => None,
            },
            force_relay: self.settings.always_relay,
        }
    }

    /// A request to the watching session is taken up.
    pub open spec fn watch_step(self, command: ViewerCommandView) -> (AppModel, WatchingStepView) {
        match command {
            ViewerCommandView::Join(url) => (
                self.watching(code_in(url)),
                WatchingStepView::Join { url, config: self.watch_config() },
            ),
            ViewerCommandView::Leave => (
                AppModel { viewer_view: WatchingModel::blank(), ..self }.gone(Screen::Home),
                WatchingStepView::Detach,
            ),
            ViewerCommandView::SetName(name) => (
                self,
                WatchingStepView::Ask(WatcherCommandView::SetDisplayName { name }),
            ),
            ViewerCommandView::RestartIce => (
                self,
                WatchingStepView::Ask(WatcherCommandView::RestartIce),
            ),
        }
    }

    /// Typed chat goes to the session that hosts, or else to the one that
    /// watches, or else nowhere.
    pub open spec fn routed(self, hosting: bool, watching: bool) -> ChatRouteView {
        if hosting {
            ChatRouteView::ToHosting(self.chat_out)
        } else if watching {
            ChatRouteView::ToWatching(self.chat_out)
        } else {
            ChatRouteView::Nowhere
        }
    }

    /// The name editor is left.
    pub open spec fn name_edited(self, entered: bool) -> AppModel {
        let name = text::trim(self.name_edit_draft);
        let closed = AppModel { name_edit_open: false, ..self };
        if entered && name.len() > 0 {
            closed.asking_viewer(ViewerCommandView::SetName(name))
        } else {
            closed
        }
    }

    /// What the room screen shows: the hosted room first.
    pub open spec fn room_screen(self) -> RoomScreen {
        if self.presenter_view.active {
            RoomScreen::Hosting
        } else if self.viewer_view.active {
            RoomScreen::Watching
        } else {
            RoomScreen::Empty
        }
    }

    /// The messages that are shown.
    pub open spec fn shown_messages(self) -> Seq<ChatMessageView> {
        if self.presenter_view.active {
            self.presenter_view.messages
        } else {
            self.viewer_view.messages
        }
    }

    /// The title of the window.
    pub open spec fn title(self) -> Seq<char> {
        "Clarity — "@ + match self.screen {
            Screen::Home => "Home"@,
            Screen::Room => match self.room_screen() {
                RoomScreen::Hosting => "Your room"@,
                RoomScreen::Watching => "Watching"@,
                RoomScreen::Empty => "Room"@,
            },
            Screen::Friends => "Add friend"@,
            Screen::Settings => "Settings"@,
            Screen::Onboarding => "Welcome"@,
        }
    }
}

/// The name of a device: its host name, where there is one.
pub open spec fn device_name(hostname: Option<Seq<char>>) -> Seq<char> {
    match hostname {
        Some(name) => if name.len() > 0 {
            name
        } else {
            "This device"@
        },
        None => "This device"@,
    }
}

/// The room id that a link names.
pub open spec fn code_in(url: Seq<char>) -> Option<Seq<char>> {
    match invite::invited(url) {
        Ok(invitation) => Some(invitation.room_id),
        Err(_) => None,
    }
}

/// The widest captures that can be chosen.
pub open spec fn max_captures() -> Seq<Seq<char>> {
    seq!["2560 × 1440"@, "1920 × 1080"@]
}

fn default_device_name(hostname: Option<String>) -> (r: String)
    ensures
        r@ == device_name(hostname.deep_view()),
{
    match hostname {
        Some(name) => {
            if text::is_empty(name.as_str()) {
                "This device".to_owned()
            } else {
                name
            }
        },
        None => "This device".to_owned(),
    }
}

impl AppState {
    /// The window as it starts.
    pub fn new(
        profile: Option<Profile>,
        contacts: Vec<Contact>,
        settings: Settings,
        hostname: Option<String>,
    ) -> (r: Self)
        ensures
            r@ == AppModel::started(
                profile.deep_view(),
                contacts.deep_view(),
                settings@,
                hostname.deep_view(),
            ),
    {
        let ghost start = AppModel::started(
            profile.deep_view(),
            contacts.deep_view(),
            settings@,
            hostname.deep_view(),
        );
        let screen = if profile.is_some() {
            Screen::Home
        } else {
            Screen::Onboarding
        };
        let (name_draft, device_draft) = match &profile {
            Some(profile) => (profile.display_name.clone(), profile.device_name.clone()),
            None => (String::new(), default_device_name(hostname)),
        };
        let server_draft = settings.signaling_server.clone();
        let r = AppState {
            screen,
            palette_open: false,
            create_open: false,
            join_open: false,
            join_draft: String::new(),
            join_error: None,
            room_tab: RoomTab::Chat,
            stage_fit: StageFit::Fit,
            theatre: false,
            theatre_chat_open: true,
            new_room_motion: false,
            new_room_access: RoomAccess::FriendsOnly,
            new_room_expiry: RoomExpiry::TwoHours,
            create_error: None,
            chat_draft: String::new(),
            palette_query: String::new(),
            name_edit_open: false,
            name_edit_draft: String::new(),
            report_note: None,
            profile,
            contacts,
            settings,
            name_draft,
            device_draft,
            server_draft,
            friend_code_draft: String::new(),
            friend_name_draft: String::new(),
            friend_error: None,
            presence_view: PresenceView::new(),
            presenter_view: PresenterView::new(),
            presenter_commands: Vec::new(),
            viewer_view: ViewerView::new(),
            viewer_commands: Vec::new(),
            chat_out: Vec::new(),
        };
        assert(r@ =~~= start);
        r
    }

    /// The name that chat carries for what this user sends.
    pub fn own_display_name(&self) -> (r: String)
        ensures
            r@ == self@.own_name(),
    {
        match &self.profile {
            Some(profile) => profile.display_name.clone(),
            None => "You".to_owned(),
        }
    }

    /// Sends a message to the room and shows it. Without a session, or without
    /// words, nothing happens.
    pub fn send_chat(&mut self, typed: String)
        ensures
            final(self)@ == old(self)@.chatted(typed@),
    {
        let said = text::trimmed(typed.as_str());
        if text::is_empty(said.as_str()) {
            return;
        }
        let message = ChatMessage {
            from: self.own_display_name(),
            text: said.clone(),
            own: true,
        };
        let ghost shown = message@;
        if self.presenter_view.active {
            self.presenter_view.messages.push(message);
            assert(self@.presenter_view.messages =~= old(self)@.presenter_view.messages.push(
                shown,
            ));
        } else if self.viewer_view.active {
            self.viewer_view.messages.push(message);
            assert(self@.viewer_view.messages =~= old(self)@.viewer_view.messages.push(shown));
        } else {
            return;
        }
        self.chat_out.push(said);
        assert(self@.chat_out =~= old(self)@.chat_out.push(said@));
    }

    /// Sends the draft.
    pub fn submit_chat(&mut self)
        ensures
            final(self)@ == (AppModel { chat_draft: Seq::empty(), ..old(self)@ }).chatted(
                old(self)@.chat_draft,
            ),
    {
        let mut typed = String::new();
        std::mem::swap(&mut typed, &mut self.chat_draft);
        assert(self@.chat_draft =~= Seq::empty());
        self.send_chat(typed);
    }

    fn ask_host(&mut self, command: PresenterCommand)
        ensures
            final(self)@ == old(self)@.asking_host(command@),
    {
        self.presenter_commands.push(command);
        assert(self@.presenter_commands =~= old(self)@.presenter_commands.push(command@));
    }

    fn ask_viewer(&mut self, command: ViewerCommand)
        ensures
            final(self)@ == old(self)@.asking_viewer(command@),
    {
        self.viewer_commands.push(command);
        assert(self@.viewer_commands =~= old(self)@.viewer_commands.push(command@));
    }

    /// Asks to join the room at a viewer URL, and shows it.
    pub fn join_room(&mut self, viewer_url: String)
        ensures
            final(self)@ == old(self)@.joining(viewer_url@),
    {
        self.ask_viewer(ViewerCommand::Join(viewer_url));
        self.go(Screen::Room);
    }

    /// Asks to leave the watched room.
    pub fn leave_room(&mut self)
        ensures
            final(self)@ == old(self)@.asking_viewer(ViewerCommandView::Leave),
    {
        self.ask_viewer(ViewerCommand::Leave);
    }

    /// Asks for an ICE restart now.
    pub fn restart_ice(&mut self)
        ensures
            final(self)@ == old(self)@.asking_viewer(ViewerCommandView::RestartIce),
    {
        self.ask_viewer(ViewerCommand::RestartIce);
    }

    /// Asks for an idle room, and shows it.
    pub fn open_room(&mut self)
        ensures
            final(self)@ == old(self)@.opening(),
    {
        self.ask_host(PresenterCommand::OpenRoom);
        self.go(Screen::Room);
    }

    /// Asks to share into the open room.
    pub fn start_share(&mut self)
        ensures
            final(self)@ == old(self)@.asking_host(PresenterCommandView::StartShare),
    {
        self.ask_host(PresenterCommand::StartShare);
    }

    /// Asks to swap what is shared.
    pub fn change_source(&mut self)
        ensures
            final(self)@ == old(self)@.asking_host(PresenterCommandView::ChangeSource),
    {
        self.ask_host(PresenterCommand::ChangeSource);
    }

    /// Asks to pause the share.
    pub fn pause_share(&mut self)
        ensures
            final(self)@ == old(self)@.asking_host(PresenterCommandView::PauseShare),
    {
        self.ask_host(PresenterCommand::PauseShare);
    }

    /// Asks to resume the share.
    pub fn resume_share(&mut self)
        ensures
            final(self)@ == old(self)@.asking_host(PresenterCommandView::ResumeShare),
    {
        self.ask_host(PresenterCommand::ResumeShare);
    }

    /// Asks to stop the share; the room stays open.
    pub fn stop_share(&mut self)
        ensures
            final(self)@ == old(self)@.asking_host(PresenterCommandView::StopShare),
    {
        self.ask_host(PresenterCommand::StopShare);
    }

    /// Asks to end the room for everyone.
    pub fn close_room(&mut self)
        ensures
            final(self)@ == old(self)@.asking_host(PresenterCommandView::CloseRoom),
    {
        self.ask_host(PresenterCommand::CloseRoom);
    }

    /// Asks to detach from the hosted room, which stays open.
    pub fn leave_presenter(&mut self)
        ensures
            final(self)@ == old(self)@.asking_host(PresenterCommandView::Leave),
    {
        self.ask_host(PresenterCommand::Leave);
    }

    /// Answers a request and forgets it.
    pub fn answer_request(&mut self, peer_id: String, approve: bool)
        ensures
            final(self)@ == old(self)@.answered(peer_id@, approve),
    {
        self.presenter_view.drop_request(peer_id.as_str());
        self.ask_host(
            if approve {
                PresenterCommand::Approve(peer_id)
            } else {
                PresenterCommand::Deny(peer_id)
            },
        );
    }

    /// Whether the stage has the whole width.
    pub fn theatre_active(&self) -> (r: bool)
        ensures
            r == self@.in_theatre(),
    {
        self.theatre && self.screen == Screen::Room
    }

    /// Whether the sidebar is there: not in theatre, nor at the first start.
    pub fn shows_sidebar(&self) -> (r: bool)
        ensures
            r == (!self@.in_theatre() && self@.screen != Screen::Onboarding),
    {
        !self.theatre_active() && self.screen != Screen::Onboarding
    }

    /// Shows a screen.
    pub fn go(&mut self, screen: Screen)
        ensures
            final(self)@ == old(self)@.gone(screen),
    {
        self.screen = screen;
        self.palette_open = false;
    }

    /// Opens the palette with a fresh query.
    pub fn open_palette(&mut self)
        ensures
            final(self)@ == old(self)@.palette_shown(),
    {
        self.palette_query = String::new();
        self.palette_open = true;
        assert(self@.palette_query =~= Seq::empty());
    }

    /// Opens the form for a new room, over the home screen.
    pub fn open_create(&mut self)
        ensures
            final(self)@ == old(self)@.create_shown(),
    {
        self.screen = Screen::Home;
        self.palette_open = false;
        self.join_open = false;
        self.create_error = None;
        self.create_open = true;
    }

    /// Opens the form for a link, over the home screen.
    pub fn open_join(&mut self)
        ensures
            final(self)@ == old(self)@.join_shown(),
    {
        self.screen = Screen::Home;
        self.palette_open = false;
        self.create_open = false;
        self.join_error = None;
        self.join_open = true;
    }

    fn apply_token(&mut self, token: &str) -> (known: bool)
        ensures
            match old(self)@.token(token@) {
                Some(after) => known && final(self)@ == after,
                None => !known && final(self)@ == old(self)@,
            },
    {
        if text::same(token, "home") {
            self.screen = Screen::Home;
        } else if text::same(token, "room") {
            self.screen = Screen::Room;
        } else if text::same(token, "friends") {
            self.screen = Screen::Friends;
        } else if text::same(token, "settings") {
            self.screen = Screen::Settings;
        } else if text::same(token, "onboarding") {
            self.screen = Screen::Onboarding;
        } else if text::same(token, "palette") {
            self.palette_open = true;
        } else if text::same(token, "create") {
            self.create_open = true;
        } else if text::same(token, "join") {
            self.join_open = true;
        } else if text::same(token, "chat") {
            self.room_tab = RoomTab::Chat;
        } else if text::same(token, "diagnostics") {
            self.room_tab = RoomTab::Diagnostics;
        } else if text::same(token, "theatre") || text::same(token, "theater") {
            self.theatre = true;
        } else if text::same(token, "motion") {
            self.new_room_motion = true;
        } else if text::same(token, "text") {
            self.new_room_motion = false;
        } else {
            return false;
        }
        true
    }

    /// Goes straight to a scene, which tokens describe. Returns the tokens that
    /// are unknown, so that a typo is told and does no harm.
    pub fn apply_scene(&mut self, scene: &str) -> (unknown: Vec<String>)
        ensures
            (final(self)@, unknown.deep_view()) == old(self)@.staged(
                text::runs(scene@, scene_separators()),
            ),
    {
        let separators: Vec<char> = vec!['.', ',', ' ', ':'];
        assert(separators@ =~= scene_separators());
        let tokens = text::runs_of(scene, &separators);
        let ghost all = tokens.deep_view();
        let ghost start = self@;
        let mut unknown: Vec<String> = Vec::new();
        assert(unknown.deep_view() =~= Seq::empty());
        assert(all.take(0) =~= Seq::empty());
        for i in 0..tokens.len()
            invariant
                all == tokens.deep_view(),
                (self@, unknown.deep_view()) == start.staged(all.take(i as int)),
        {
            let ghost before = unknown.deep_view();
            proof {
                let next = all.take(i + 1);
                assert(next.drop_last() =~= all.take(i as int));
                assert(next.last() == tokens@[i as int]@);
            }
            let token = text::to_ascii_lowered(tokens[i].as_str());
            if !self.apply_token(token.as_str()) {
                unknown.push(token);
                assert(unknown.deep_view() =~= before.push(token@));
            }
        }
        assert(all.take(all.len() as int) =~= all);
        unknown
    }

    /// Does what the pressed keys ask for.
    pub fn handle_shortcuts(&mut self, keys: Keys, typing: bool)
        ensures
            final(self)@ == old(self)@.keyed(keys, typing),
    {
        if keys.palette {
            self.open_palette();
        }
        if !typing && keys.create {
            self.open_create();
        }
        if keys.friends {
            self.go(Screen::Friends);
        }
        if keys.settings {
            self.go(Screen::Settings);
        }
        if keys.escape {
            self.palette_open = false;
            self.create_open = false;
            self.join_open = false;
            self.theatre = false;
            self.name_edit_open = false;
        }
        if self.screen == Screen::Room && !typing && keys.theatre {
            self.theatre = !self.theatre;
        }
    }

    /// Chooses who may join a new room.
    pub fn choose_access(&mut self, index: usize)
        requires
            index < RoomAccess::choices().len(),
        ensures
            final(self)@ == (AppModel {
                new_room_access: RoomAccess::choices()[index as int],
                ..old(self)@
            }),
    {
        self.new_room_access = RoomAccess::all()[index];
    }

    /// Chooses how long a new room lives.
    pub fn choose_expiry(&mut self, index: usize)
        requires
            index < RoomExpiry::choices().len(),
        ensures
            final(self)@ == (AppModel {
                new_room_expiry: RoomExpiry::choices()[index as int],
                ..old(self)@
            }),
    {
        self.new_room_expiry = RoomExpiry::all()[index];
    }

    fn has_friend(&self) -> (r: bool)
        ensures
            r == self@.has_friends(),
    {
        for i in 0..self.contacts.len()
            invariant
                forall|j: int| 0 <= j < i ==> (#[trigger] self@.contacts[j]).pending,
        {
            assert(self.contacts@[i as int]@ == self@.contacts[i as int]);
            if !self.contacts[i].pending {
                return true;
            }
        }
        false
    }

    /// Sends the form for a new room. Whether it was accepted is returned: the
    /// settings have then changed.
    pub fn try_open_room(&mut self) -> (accepted: bool)
        ensures
            final(self)@ == old(self)@.room_tried(),
            accepted == (old(self)@.new_room_access != RoomAccess::FriendsOnly
                || old(self)@.has_friends()),
    {
        if self.new_room_access == RoomAccess::FriendsOnly && !self.has_friend() {
            self.create_error = Some(
                "No confirmed friends to allow yet. Add a friend first, or pick another access rule.".to_owned(),
            );
            return false;
        }
        self.settings.capture_profile = if self.new_room_motion {
            CaptureProfile::Motion
        } else {
            CaptureProfile::Text
        };
        self.create_error = None;
        self.create_open = false;
        self.open_room();
        true
    }

    /// Sends the form for a link, given whether the link can be used.
    pub fn finish_join(&mut self, usable: bool)
        ensures
            final(self)@ == old(self)@.join_tried(usable),
    {
        let link = text::trimmed(self.join_draft.as_str());
        if text::is_empty(link.as_str()) {
            self.join_error = Some("Paste a room link to join.".to_owned());
        } else if usable {
            self.join_open = false;
            self.join_error = None;
            self.join_draft = String::new();
            assert(self@.join_draft =~= Seq::empty());
            self.join_room(link);
        } else {
            self.join_error = Some("That doesn't look like a Clarity room link.".to_owned());
        }
    }

    /// Sends the form for a link.
    pub fn try_join(&mut self)
        ensures
            final(self)@ == old(self)@.join_tried(
                invite::invited(text::trim(old(self)@.join_draft)) is Ok,
            ),
    {
        let link = text::trimmed(self.join_draft.as_str());
        let usable = invite::parse_invitation(link.as_str()).is_ok();
        self.finish_join(usable);
    }

    /// The friend that the form names.
    pub fn drafted_friend(&self) -> (r: FriendDraft)
        ensures
            r@ == self@.friend_drafted(),
    {
        let code = self.friend_code_draft.clone();
        let trimmed = text::trimmed(self.friend_name_draft.as_str());
        let name = if text::is_empty(trimmed.as_str()) {
            code.clone()
        } else {
            self.friend_name_draft.clone()
        };
        let own = match &self.profile {
            Some(profile) => profile.friend_code.clone(),
            None => String::new(),
        };
        let r = FriendDraft { code, name, own };
        assert(r@ =~= self@.friend_drafted());
        r
    }

    /// Notes that a friend was added, or why not.
    pub fn add_friend(&mut self, outcome: Result<Vec<Contact>, String>)
        ensures
            final(self)@ == old(self)@.friend_added(
                match outcome {
                    Ok(contacts) => Ok(contacts.deep_view()),
                    Err(reason) => Err(reason@),
                },
            ),
    {
        match outcome {
            Ok(contacts) => {
                self.contacts = contacts;
                self.friend_code_draft = String::new();
                self.friend_name_draft = String::new();
                self.friend_error = None;
                assert(self@.friend_code_draft =~= Seq::empty());
                assert(self@.friend_name_draft =~= Seq::empty());
            },
            Err(reason) => {
                self.friend_error = Some(reason);
            },
        }
    }

    /// Whether an identity can be created: it needs a name.
    pub fn can_create_identity(&self) -> (r: bool)
        ensures
            r == (text::trim(self@.name_draft).len() > 0),
    {
        !text::is_empty(text::trimmed(self.name_draft.as_str()).as_str())
    }

    fn settle_server(&mut self)
        ensures
            final(self)@ == old(self)@.server_settled(),
    {
        let server = text::trimmed(self.server_draft.as_str());
        if !text::is_empty(server.as_str()) {
            self.settings.signaling_server = server;
        }
        self.server_draft = self.settings.signaling_server.clone();
    }

    /// Takes the server of the form over and returns the identity to create.
    pub fn drafted_identity(&mut self) -> (r: IdentityDraft)
        ensures
            final(self)@ == old(self)@.server_settled(),
            r@ == old(self)@.identity_drafted(),
    {
        let name = text::trimmed(self.name_draft.as_str());
        let device = text::trimmed(self.device_draft.as_str());
        let device = if text::is_empty(device.as_str()) {
            "This device".to_owned()
        } else {
            device
        };
        self.settle_server();
        IdentityDraft { name, device }
    }

    /// Notes that an identity was created, or why not.
    pub fn create_identity(&mut self, outcome: Result<Profile, String>)
        ensures
            final(self)@ == old(self)@.identity_created(
                match outcome {
                    Ok(profile) => Ok(profile@),
                    Err(reason) => Err(reason@),
                },
            ),
    {
        match outcome {
            Ok(profile) => {
                self.profile = Some(profile);
                self.go(Screen::Home);
            },
            Err(reason) => {
                self.friend_error = Some(reason);
            },
        }
    }

    /// The names that the settings give this identity and its device.
    pub fn drafted_names(&self) -> (r: (String, String))
        ensures
            r.0@ == text::trim(self@.name_draft),
            r.1@ == text::trim(self@.device_draft),
    {
        (text::trimmed(self.name_draft.as_str()), text::trimmed(self.device_draft.as_str()))
    }

    /// The friend code of this identity, or a blank for it.
    pub fn own_code(&self) -> (r: String)
        ensures
            r@ == match self@.profile {
                Some(profile) => profile.friend_code,
                None => "clr-????-????"@,
            },
    {
        match &self.profile {
            Some(profile) => profile.friend_code.clone(),
            None => "clr-????-????".to_owned(),
        }
    }

    /// Which of the widest captures is chosen.
    pub fn max_capture_choice(&self) -> (r: usize)
        ensures
            r == if text::has_prefix(self@.settings.max_capture, "2560"@) {
                0nat
            } else {
                1
            },
    {
        if text::after_prefix(self.settings.max_capture.as_str(), "2560").is_some() {
            0
        } else {
            1
        }
    }

    /// Chooses the widest capture. Whether that is a change is returned.
    pub fn choose_max_capture(&mut self, index: usize) -> (changed: bool)
        requires
            index < max_captures().len(),
        ensures
            changed == (old(self)@.settings.max_capture != max_captures()[index as int]),
            final(self)@ == (AppModel {
                settings: SettingsView {
                    max_capture: max_captures()[index as int],
                    ..old(self)@.settings
                },
                ..old(self)@
            }),
    {
        let chosen = if index == 0 {
            "2560 × 1440".to_owned()
        } else {
            "1920 × 1080".to_owned()
        };
        let changed = !text::same(self.settings.max_capture.as_str(), chosen.as_str());
        self.settings.max_capture = chosen;
        changed
    }

    /// Chooses what captures are tuned for. Whether that is a change is
    /// returned.
    pub fn choose_profile(&mut self, profile: CaptureProfile) -> (changed: bool)
        ensures
            changed == (old(self)@.settings.capture_profile != profile),
            final(self)@ == (AppModel {
                settings: SettingsView { capture_profile: profile, ..old(self)@.settings },
                ..old(self)@
            }),
    {
        let changed = self.settings.capture_profile != profile;
        self.settings.capture_profile = profile;
        changed
    }

    /// Notes the server that is typed in the settings.
    pub fn edit_server(&mut self, server: String)
        ensures
            final(self)@ == (AppModel {
                settings: SettingsView { signaling_server: server@, ..old(self)@.settings },
                server_draft: server@,
                ..old(self)@
            }),
    {
        self.server_draft = server.clone();
        self.settings.signaling_server = server;
    }

    fn room_plan(&self, codecs: Vec<VideoCodecId>, synthetic: bool) -> (r: PresenterConfig)
        ensures
            r@ == self@.plan(codecs@, synthetic),
    {
        let mut config = PresenterConfig::from_settings(&self.settings, codecs);
        config.expires_in_seconds = self.new_room_expiry.seconds();
        config.display_name = match &self.profile {
            Some(profile) => Some(profile.display_name.clone()),
            None => None,
        };
        match self.new_room_access {
            RoomAccess::AnyoneWithLink => {
                config.access_policy = RoomAccessPolicy::Public;
                config.auto_approve = true;
            },
            RoomAccess::AskFirst => {
                config.access_policy = RoomAccessPolicy::ApprovalRequired;
                config.auto_approve = false;
            },
            RoomAccess::FriendsOnly => {
                config.access_policy = RoomAccessPolicy::FriendsOnly;
                config.auto_approve = true;
                config.allowed_friend_codes = settings::allowed_codes(&self.contacts);
            },
        }
        if synthetic {
            config.initial_source = Some(Source::Synthetic);
        }
        config
    }

    /// Begins to host a room.
    pub fn begin_hosting(&mut self)
        ensures
            final(self)@ == old(self)@.hosting(),
    {
        let mut view = PresenterView::new();
        view.active = true;
        view.status = "Creating room…".to_owned();
        view.target_ceiling_kbps = settings::bitrate_for(self.settings.capture_profile);
        self.presenter_view = view;
    }

    fn note_closing(&mut self)
        ensures
            final(self)@ == old(self)@.closing(),
    {
        self.presenter_view.status = "Closing the room…".to_owned();
    }

    fn detach_presenter(&mut self)
        ensures
            final(self)@ == old(self)@.detached(),
    {
        self.presenter_view = PresenterView::new();
        self.go(Screen::Home);
    }

    /// Takes up a request to the hosting session.
    pub fn hosting_step(
        &mut self,
        command: PresenterCommand,
        codecs: Vec<VideoCodecId>,
        synthetic: bool,
    ) -> (r: HostingStep)
        ensures
            (final(self)@, r@) == old(self)@.host_step(command@, codecs@, synthetic),
    {
        match command {
            PresenterCommand::OpenRoom => {
                let config = self.room_plan(codecs, synthetic);
                self.begin_hosting();
                HostingStep::Open(config)
            },
            PresenterCommand::StartShare | PresenterCommand::ChangeSource => HostingStep::Share(
                if synthetic {
                    Source::Synthetic
                } else {
                    Source::Screen
                },
            ),
            PresenterCommand::PauseShare => HostingStep::Ask(SessionCommand::PauseShare),
            PresenterCommand::ResumeShare => HostingStep::Ask(SessionCommand::ResumeShare),
            PresenterCommand::StopShare => HostingStep::Ask(SessionCommand::StopShare),
            PresenterCommand::CloseRoom => {
                self.note_closing();
                HostingStep::Ask(SessionCommand::CloseRoom)
            },
            PresenterCommand::Leave => {
                self.detach_presenter();
                HostingStep::Detach
            },
            PresenterCommand::Approve(peer_id) => HostingStep::Ask(
                SessionCommand::ApproveViewer { peer_id },
            ),
            PresenterCommand::Deny(peer_id) => HostingStep::Ask(
                SessionCommand::RejectViewer { peer_id },
            ),
        }
    }

    /// Begins to watch a room, under the code that its link gives.
    pub fn begin_watching(&mut self, room_code: Option<String>)
        ensures
            final(self)@ == old(self)@.watching(room_code.deep_view()),
    {
        let mut view = ViewerView::new();
        view.active = true;
        view.status = "Connecting…".to_owned();
        view.presenter_connected = true;
        view.room_code = room_code;
        self.viewer_view = view;
    }

    fn viewer_config(&self) -> (r: ViewerConfig)
        ensures
            r@ == self@.watch_config(),
    {
        match &self.profile {
            Some(profile) => {
                let public_key = profile.public_key.clone();
                assert(public_key@ =~= profile.public_key@);
                ViewerConfig {
                    display_name: Some(profile.display_name.clone()),
                    identity: Some(SessionIdentity { public_key }),
                    force_relay: self.settings.always_relay,
                }
            },
            None => ViewerConfig {
                display_name: None,
                identity: None,
                force_relay: self.settings.always_relay,
            },
        }
    }

    /// Takes up a request to the watching session.
    pub fn watching_step(&mut self, command: ViewerCommand) -> (r: WatchingStep)
        ensures
            (final(self)@, r@) == old(self)@.watch_step(command@),
    {
        match command {
            ViewerCommand::Join(url) => {
                let room_code = match invite::parse_invitation(url.as_str()) {
                    Ok(invitation) => Some(invitation.room_id),
                    Err(_) => None,
                };
                let config = self.viewer_config();
                self.begin_watching(room_code);
                WatchingStep::Join { url, config }
            },
            ViewerCommand::Leave => {
                self.viewer_view = ViewerView::new();
                self.go(Screen::Home);
                WatchingStep::Detach
            },
            ViewerCommand::SetName(name) => WatchingStep::Ask(
                WatcherCommand::SetDisplayName { name },
            ),
            ViewerCommand::RestartIce => WatchingStep::Ask(WatcherCommand::RestartIce),
        }
    }

    /// Takes the typed chat, for the session that it goes to.
    pub fn route_chat(&mut self, hosting: bool, watching: bool) -> (r: ChatRoute)
        ensures
            r@ == old(self)@.routed(hosting, watching),
            final(self)@ == (AppModel { chat_out: Seq::empty(), ..old(self)@ }),
    {
        let mut typed: Vec<String> = Vec::new();
        std::mem::swap(&mut typed, &mut self.chat_out);
        assert(self@.chat_out =~= Seq::empty());
        if hosting {
            ChatRoute::ToHosting(typed)
        } else if watching {
            ChatRoute::ToWatching(typed)
        } else {
            ChatRoute::Nowhere
        }
    }

    /// Opens the name editor on the present name.
    pub fn edit_name(&mut self)
        ensures
            final(self)@ == (AppModel {
                name_edit_draft: old(self)@.own_name(),
                name_edit_open: true,
                ..old(self)@
            }),
    {
        self.name_edit_draft = self.own_display_name();
        self.name_edit_open = true;
    }

    /// Leaves the name editor, having entered the name or not.
    pub fn finish_name(&mut self, entered: bool)
        ensures
            final(self)@ == old(self)@.name_edited(entered),
    {
        self.name_edit_open = false;
        if entered {
            let name = text::trimmed(self.name_edit_draft.as_str());
            if !text::is_empty(name.as_str()) {
                self.ask_viewer(ViewerCommand::SetName(name));
            }
        }
    }

    /// Whether the chat button is lit.
    pub fn chat_shown(&self) -> (r: bool)
        ensures
            r == if self@.in_theatre() {
                self@.theatre_chat_open
            } else {
                self@.room_tab == RoomTab::Chat
            },
    {
        if self.theatre_active() {
            self.theatre_chat_open
        } else {
            self.room_tab == RoomTab::Chat
        }
    }

    /// Presses the chat button: in theatre it toggles the floating chat,
    /// otherwise it selects the tab.
    pub fn press_chat(&mut self)
        ensures
            final(self)@ == if old(self)@.in_theatre() {
                AppModel { theatre_chat_open: !old(self)@.theatre_chat_open, ..old(self)@ }
            } else {
                AppModel { room_tab: RoomTab::Chat, ..old(self)@ }
            },
    {
        if self.theatre_active() {
            self.theatre_chat_open = !self.theatre_chat_open;
        } else {
            self.room_tab = RoomTab::Chat;
        }
    }

    /// What the room screen shows.
    pub fn room_screen(&self) -> (r: RoomScreen)
        ensures
            r == self@.room_screen(),
    {
        if self.presenter_view.active {
            RoomScreen::Hosting
        } else if self.viewer_view.active {
            RoomScreen::Watching
        } else {
            RoomScreen::Empty
        }
    }

    /// Whether the floating chat is shown.
    pub fn floats_chat(&self) -> (r: bool)
        ensures
            r == (self@.in_theatre() && self@.theatre_chat_open && self@.room_screen()
                != RoomScreen::Empty),
    {
        self.theatre_active() && self.theatre_chat_open && (self.presenter_view.active
            || self.viewer_view.active)
    }

    /// How many peers the shown room has.
    pub fn peers(&self) -> (r: usize)
        ensures
            r == if self@.presenter_view.active {
                self@.presenter_view.viewers.len()
            } else if self@.viewer_view.live {
                1
            } else {
                0
            },
    {
        if self.presenter_view.active {
            self.presenter_view.viewers.len()
        } else if self.viewer_view.live {
            1
        } else {
            0
        }
    }

    /// The messages that are shown.
    pub fn messages(&self) -> (r: &Vec<ChatMessage>)
        ensures
            r.deep_view() == self@.shown_messages(),
    {
        if self.presenter_view.active {
            &self.presenter_view.messages
        } else {
            &self.viewer_view.messages
        }
    }

    /// The title of the window.
    pub fn window_title(&self) -> (r: String)
        ensures
            r@ == self@.title(),
    {
        let mut r = "Clarity — ".to_owned();
        r.push_str(
            match self.screen {
                Screen::Home => "Home",
                Screen::Room => match self.room_screen() {
                    RoomScreen::Hosting => "Your room",
                    RoomScreen::Watching => "Watching",
                    RoomScreen::Empty => "Room",
                },
                Screen::Friends => "Add friend",
                Screen::Settings => "Settings",
                Screen::Onboarding => "Welcome",
            },
        );
        r
    }
}

/// The controls that a hosted room offers.
pub open spec fn offered(sharing: SharingState) -> Seq<HostControl> {
    match sharing {
        SharingState::Idle => seq![HostControl::Share],
        SharingState::Live => seq![
            HostControl::ChangeSource,
            HostControl::Pause,
            HostControl::StopSharing,
        ],
        SharingState::Paused => seq![HostControl::Resume, HostControl::StopSharing],
    }
}

/// What a control asks for.
pub open spec fn asks(control: HostControl) -> PresenterCommandView {
    match control {
        HostControl::Share => PresenterCommandView::StartShare,
        HostControl::ChangeSource => PresenterCommandView::ChangeSource,
        HostControl::Pause => PresenterCommandView::PauseShare,
        HostControl::Resume => PresenterCommandView::ResumeShare,
        HostControl::StopSharing => PresenterCommandView::StopShare,
    }
}

/// The controls that a hosted room offers.
pub fn host_controls(sharing: SharingState) -> (r: Vec<HostControl>)
    ensures
        r@ == offered(sharing),
{
    match sharing {
        SharingState::Idle => vec![HostControl::Share],
        SharingState::Live => vec![
            HostControl::ChangeSource,
            HostControl::Pause,
            HostControl::StopSharing,
        ],
        SharingState::Paused => vec![HostControl::Resume, HostControl::StopSharing],
    }
}

impl HostControl {
    /// What the control is called.
    pub fn label(self) -> (r: &'static str)
        ensures
            r@ == match self {
                HostControl::Share => "Share my screen"@,
                HostControl::ChangeSource => "Change source"@,
                HostControl::Pause => "Pause"@,
                HostControl::Resume => "Resume"@,
                HostControl::StopSharing => "Stop sharing"@,
            },
    {
        match self {
            HostControl::Share => "Share my screen",
            HostControl::ChangeSource => "Change source",
            HostControl::Pause => "Pause",
            HostControl::Resume => "Resume",
            HostControl::StopSharing => "Stop sharing",
        }
    }
}

impl AppState {
    /// Presses a control of the hosted room.
    pub fn press(&mut self, control: HostControl)
        ensures
            final(self)@ == old(self)@.asking_host(asks(control)),
    {
        match control {
            HostControl::Share => self.start_share(),
            HostControl::ChangeSource => self.change_source(),
            HostControl::Pause => self.pause_share(),
            HostControl::Resume => self.resume_share(),
            HostControl::StopSharing => self.stop_share(),
        }
    }
}

/// No control of a share ends the room, and a share can always be stopped.
pub proof fn law_controls_keep_the_room(sharing: SharingState, control: HostControl)
    ensures
        asks(control) != PresenterCommandView::CloseRoom,
        asks(control) != PresenterCommandView::Leave,
        sharing != SharingState::Idle <==> offered(sharing).contains(HostControl::StopSharing),
        sharing == SharingState::Idle <==> offered(sharing).contains(HostControl::Share),
{
    let all = offered(sharing);
    match sharing {
        SharingState::Idle => assert(all[0] == HostControl::Share),
        SharingState::Live => assert(all[2] == HostControl::StopSharing),
        SharingState::Paused => assert(all[1] == HostControl::StopSharing),
    }
}

/// The room that is announced to friends, where there is one.
pub open spec fn announceable(m: HostingModel) -> Option<HostingAnnouncementView> {
    if m.active && m.open && !m.ended {
        match (m.room_id, m.viewer_url, m.presenter_secret) {
            (Some(room_id), Some(viewer_url), Some(presenter_secret)) => Some(
                HostingAnnouncementView {
                    room: HostedRoomView {
                        room_id,
                        viewer_url,
                        viewer_count: m.connected_viewers() as u32,
                        sharing_state: m.sharing,
                    },
                    presenter_secret,
                },
            ),
            _ => None,
        }
    } else {
        None
    }
}

/// What is to be announced, given the room that was announced last; and the
/// room that is announced then. One announcement per room is enough.
pub open spec fn announcing(m: HostingModel, last: Option<Seq<char>>) -> (
    Option<Option<HostingAnnouncementView>>,
    Option<Seq<char>>,
) {
    match announceable(m) {
        Some(hosting) => if last == Some(hosting.room.room_id) {
            (None, last)
        } else {
            (Some(Some(hosting)), Some(hosting.room.room_id))
        },
        None => if last is Some {
            (Some(None), None)
        } else {
            (None, None)
        },
    }
}

/// Keeps friends told about the hosted room.
pub struct Announcer {
    announced: Option<String>,
}

impl View for Announcer {
    type V = Option<Seq<char>>;

    closed spec fn view(&self) -> Option<Seq<char>> {
        self.announced.deep_view()
    }
}

fn hosting_of(view: &PresenterView) -> (r: Option<HostingAnnouncement>)
    ensures
        r.deep_view() == announceable(view@),
{
    if !view.active || !view.open || view.ended {
        return None;
    }
    match (&view.room_id, &view.viewer_url, &view.presenter_secret) {
        (Some(room_id), Some(viewer_url), Some(presenter_secret)) => Some(
            HostingAnnouncement {
                room: HostedRoom {
                    room_id: room_id.clone(),
                    viewer_url: viewer_url.clone(),
                    viewer_count: view.connected_viewers() as u32,
                    sharing_state: view.sharing,
                },
                presenter_secret: presenter_secret.clone(),
            },
        ),
        _ => None,
    }
}

impl Announcer {
    /// Nothing is announced.
    pub fn new() -> (r: Self)
        ensures
            r@ is None,
    {
        Announcer { announced: None }
    }

    /// What is to be announced now, if anything; nothing in it withdraws the
    /// room.
    pub fn update(&mut self, view: &PresenterView) -> (r: Option<Option<HostingAnnouncement>>)
        ensures
            (r.deep_view(), final(self)@) == announcing(view@, old(self)@),
    {
        match hosting_of(view) {
            Some(hosting) => {
                let known = match &self.announced {
                    Some(last) => text::same(last.as_str(), hosting.room.room_id.as_str()),
                    None => false,
                };
                if known {
                    None
                } else {
                    self.announced = Some(hosting.room.room_id.clone());
                    Some(Some(hosting))
                }
            },
            None => {
                if self.announced.is_some() {
                    self.announced = None;
                    Some(None)
                } else {
                    None
                }
            },
        }
    }

    /// A new room begins: nothing of it has been announced.
    pub fn reset(&mut self)
        ensures
            final(self)@ is None,
    {
        self.announced = None;
    }

    /// The session is let go. Whether the room has to be withdrawn is returned.
    pub fn withdraw(&mut self) -> (r: bool)
        ensures
            r == (old(self)@ is Some),
            final(self)@ is None,
    {
        let announced = self.announced.is_some();
        self.announced = None;
        announced
    }
}

/// Chat without a session goes nowhere and is not shown.
pub proof fn law_no_chat_without_a_room(m: AppModel, typed: Seq<char>)
    requires
        m.room_screen() == RoomScreen::Empty,
    ensures
        m.chatted(typed) == m,
{
}

/// What is said to a room is shown at its end and sent, and nothing else
/// changes on the screen.
pub proof fn law_chat_is_echoed(m: AppModel, typed: Seq<char>)
    requires
        m.room_screen() != RoomScreen::Empty,
        text::trim(typed).len() > 0,
    ensures
        m.chatted(typed).shown_messages() == m.shown_messages().push(
            ChatMessageView { from: m.own_name(), text: text::trim(typed), own: true },
        ),
        m.chatted(typed).chat_out == m.chat_out.push(text::trim(typed)),
        m.chatted(typed).screen == m.screen,
{
}

/// Leaving the room brings the sidebar back, whatever theatre says.
pub proof fn law_theatre_stays_in_the_room(m: AppModel, screen: Screen)
    requires
        screen != Screen::Room,
    ensures
        !m.gone(screen).in_theatre(),
        m.gone(screen).gone(Screen::Room).in_theatre() == m.theatre,
{
}

/// At most one form floats after it was opened.
pub proof fn law_forms_exclude_each_other(m: AppModel)
    ensures
        m.create_shown().create_open && !m.create_shown().join_open,
        m.join_shown().join_open && !m.join_shown().create_open,
        !m.create_shown().palette_open && !m.join_shown().palette_open,
{
}

/// A room for friends is never opened without one: its list is never empty.
pub proof fn law_friend_rooms_have_friends(m: AppModel, codecs: Seq<VideoCodecId>, synthetic: bool)
    requires
        m.new_room_access == RoomAccess::FriendsOnly,
        m.room_tried().presenter_commands != m.presenter_commands,
    ensures
        m.room_tried().plan(codecs, synthetic).access_policy == RoomAccessPolicy::FriendsOnly,
        m.room_tried().plan(codecs, synthetic).allowed_friend_codes.len() > 0,
{
    let active = |contact: ContactView| !contact.pending;
    assert(m.has_friends());
    let i = choose|i: int| 0 <= i < m.contacts.len() && !(#[trigger] m.contacts[i]).pending;
    crate::seqs::lemma_filter_members(m.contacts, active);
    assert(active(m.contacts[i]));
    assert(m.contacts.filter(active).contains(m.contacts[i]));
}

/// Only a room that asks first asks its host about anyone.
pub proof fn law_only_asking_rooms_ask(m: AppModel, codecs: Seq<VideoCodecId>, synthetic: bool)
    ensures
        m.plan(codecs, synthetic).auto_approve <==> m.plan(codecs, synthetic).access_policy
            != RoomAccessPolicy::ApprovalRequired,
{
}

/// An announced room is announced once: a second look says nothing.
pub proof fn law_rooms_are_announced_once(m: HostingModel, last: Option<Seq<char>>)
    ensures
        announcing(m, announcing(m, last).1).0 is None,
{
}

/// A room that ends is withdrawn.
pub proof fn law_ended_rooms_are_withdrawn(m: HostingModel, last: Option<Seq<char>>)
    requires
        m.ended || !m.open || !m.active,
        last is Some,
    ensures
        announcing(m, last) == (Some(None::<HostingAnnouncementView>), None::<Seq<char>>),
{
}

} // verus!
