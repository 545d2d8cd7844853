//! Creating rooms on a server.
use vstd::prelude::*;
use vstd::string::*;

use crate::client::urls;
use crate::client::urls::{UrlParts, UrlPartsView};
use crate::protocol::RoomAccessPolicy;

verus! {

/// What a new room is to be like.
#[derive(Debug, PartialEq, Eq)]
pub struct RoomOptions {
    pub maximum_viewers: u8,
    pub expires_in_seconds: u32,
    pub access_policy: RoomAccessPolicy,
    /// The friends that a friends-only room admits.
    pub allowed_friend_codes: Vec<String>,
}

/// What a [`RoomOptions`] holds.
#[verifier::ext_equal]
pub struct RoomOptionsView {
    pub maximum_viewers: u8,
    pub expires_in_seconds: u32,
    pub access_policy: RoomAccessPolicy,
    pub allowed_friend_codes: Seq<Seq<char>>,
}

impl View for RoomOptions {
    type V = RoomOptionsView;

    open spec fn view(&self) -> RoomOptionsView {
        RoomOptionsView {
            maximum_viewers: self.maximum_viewers,
            expires_in_seconds: self.expires_in_seconds,
            access_policy: self.access_policy,
            allowed_friend_codes: self.allowed_friend_codes.deep_view(),
        }
    }
}

impl DeepView for RoomOptions {
    type V = RoomOptionsView;

    open spec fn deep_view(&self) -> RoomOptionsView {
        self@
    }
}

impl Clone for RoomOptions {
    fn clone(&self) -> (r: Self)
        ensures
            r@ == self@,
    {
        let r = RoomOptions {
            maximum_viewers: self.maximum_viewers,
            expires_in_seconds: self.expires_in_seconds,
            access_policy: self.access_policy,
            allowed_friend_codes: self.allowed_friend_codes.clone(),
        };
        assert(r.allowed_friend_codes.deep_view() =~= self.allowed_friend_codes.deep_view());
        r
    }
}

/// Where a server is connected to: the signaling WebSocket, and the origin that
/// the server allows.
#[derive(Debug, PartialEq, Eq)]
pub struct ServerEndpoints {
    pub signaling_url: String,
    pub origin: String,
}

/// What a [`ServerEndpoints`] holds.
#[verifier::ext_equal]
pub struct ServerEndpointsView {
    pub signaling_url: Seq<char>,
    pub origin: Seq<char>,
}

impl View for ServerEndpoints {
    type V = ServerEndpointsView;

    open spec fn view(&self) -> ServerEndpointsView {
        ServerEndpointsView {
            signaling_url: self.signaling_url@,
            origin: self.origin@,
        }
    }
}

impl DeepView for ServerEndpoints {
    type V = ServerEndpointsView;

    open spec fn deep_view(&self) -> ServerEndpointsView {
        self@
    }
}

impl Clone for ServerEndpoints {
    fn clone(&self) -> (r: Self)
        ensures
            r@ == self@,
    {
        let r = ServerEndpoints {
            signaling_url: self.signaling_url.clone(),
            origin: self.origin.clone(),
        };
        r
    }
}

/// Why a room could not be created.
#[derive(Debug, PartialEq, Eq)]
pub enum RoomError {
    /// The server URL is not an http or https address.
    InvalidServer,
    /// The server could not be reached.
    Unreachable(String),
    /// The server declined.
    Declined(String),
}

/// What a [`RoomError`] holds.
#[verifier::ext_equal]
pub enum RoomErrorView {
    InvalidServer,
    Unreachable(Seq<char>),
    Declined(Seq<char>),
}

impl View for RoomError {
    type V = RoomErrorView;

    open spec fn view(&self) -> RoomErrorView {
        match self {
            RoomError::InvalidServer => RoomErrorView::InvalidServer,
            RoomError::Unreachable(first) => RoomErrorView::Unreachable(first@),
            RoomError::Declined(first) => RoomErrorView::Declined(first@),
        }
    }
}

impl DeepView for RoomError {
    type V = RoomErrorView;

    open spec fn deep_view(&self) -> RoomErrorView {
        self@
    }
}

impl Clone for RoomError {
    fn clone(&self) -> (r: Self)
        ensures
            r@ == self@,
    {
        match self {
            RoomError::InvalidServer => RoomError::InvalidServer,
            RoomError::Unreachable(first) => RoomError::Unreachable(first.clone()),
            RoomError::Declined(first) => RoomError::Declined(first.clone()),
        }
    }
}

/// The body of a request for a room.
#[derive(Debug, PartialEq, Eq)]
pub struct CreateRoomRequest {
    pub maximum_viewers: Option<u8>,
    pub expires_in_seconds: Option<u32>,
    pub access_policy: Option<RoomAccessPolicy>,
    pub allowed_friend_codes: Option<Vec<String>>,
}

/// What a [`CreateRoomRequest`] holds.
#[verifier::ext_equal]
pub struct CreateRoomRequestView {
    pub maximum_viewers: Option<u8>,
    pub expires_in_seconds: Option<u32>,
    pub access_policy: Option<RoomAccessPolicy>,
    pub allowed_friend_codes: Option<Seq<Seq<char>>>,
}

impl View for CreateRoomRequest {
    type V = CreateRoomRequestView;

    open spec fn view(&self) -> CreateRoomRequestView {
        CreateRoomRequestView {
            maximum_viewers: self.maximum_viewers,
            expires_in_seconds: self.expires_in_seconds,
            access_policy: self.access_policy,
            allowed_friend_codes: self.allowed_friend_codes.deep_view(),
        }
    }
}

/// A room that was created.
#[derive(PartialEq, Eq)]
pub struct CreateRoomResponse {
    pub room_id: String,
    pub presenter_secret: String,
    pub viewer_url: String,
    pub expires_at: String,
}

/// What a [`CreateRoomResponse`] holds.
#[verifier::ext_equal]
pub struct CreateRoomResponseView {
    pub room_id: Seq<char>,
    pub presenter_secret: Seq<char>,
    pub viewer_url: Seq<char>,
    pub expires_at: Seq<char>,
}

impl View for CreateRoomResponse {
    type V = CreateRoomResponseView;

    open spec fn view(&self) -> CreateRoomResponseView {
        CreateRoomResponseView {
            room_id: self.room_id@,
            presenter_secret: self.presenter_secret@,
            viewer_url: self.viewer_url@,
            expires_at: self.expires_at@,
        }
    }
}

impl DeepView for CreateRoomResponse {
    type V = CreateRoomResponseView;

    open spec fn deep_view(&self) -> CreateRoomResponseView {
        self@
    }
}

impl Clone for CreateRoomResponse {
    fn clone(&self) -> (r: Self)
        ensures
            r@ == self@,
    {
        let r = CreateRoomResponse {
            room_id: self.room_id.clone(),
            presenter_secret: self.presenter_secret.clone(),
            viewer_url: self.viewer_url.clone(),
            expires_at: self.expires_at.clone(),
        };
        r
    }
}

/// What came of asking for a room.
#[derive(PartialEq, Eq)]
pub enum RoomReply {
    /// The request could not be made.
    Unreachable {
        error: String,
    },
    /// The server refused, with this status and this message where it could be read.
    Refused {
        status: String,
        message: Option<String>,
    },
    /// The reply could not be read.
    Unreadable {
        error: String,
    },
    Created {
        room: CreateRoomResponse,
    },
}

/// What a [`RoomReply`] holds.
#[verifier::ext_equal]
pub enum RoomReplyView {
    Unreachable { error: Seq<char> },
    Refused { status: Seq<char>, message: Option<Seq<char>> },
    Unreadable { error: Seq<char> },
    Created { room: CreateRoomResponseView },
}

impl View for RoomReply {
    type V = RoomReplyView;

    open spec fn view(&self) -> RoomReplyView {
        match self {
            RoomReply::Unreachable { error } => RoomReplyView::Unreachable {
                error: error@,
            },
            RoomReply::Refused { status, message } => RoomReplyView::Refused {
                status: status@,
                message: message.deep_view(),
            },
            RoomReply::Unreadable { error } => RoomReplyView::Unreadable {
                error: error@,
            },
            RoomReply::Created { room } => RoomReplyView::Created {
                room: room@,
            },
        }
    }
}

impl DeepView for RoomReply {
    type V = RoomReplyView;

    open spec fn deep_view(&self) -> RoomReplyView {
        self@
    }
}

impl Clone for RoomReply {
    fn clone(&self) -> (r: Self)
        ensures
            r@ == self@,
    {
        match self {
            RoomReply::Unreachable { error } => RoomReply::Unreachable {
                error: error.clone(),
            },
            RoomReply::Refused { status, message } => RoomReply::Refused {
                status: status.clone(),
                message: message.clone(),
            },
            RoomReply::Unreadable { error } => RoomReply::Unreadable {
                error: error.clone(),
            },
            RoomReply::Created { room } => RoomReply::Created {
                room: room.clone(),
            },
        }
    }
}

/// A request for a room, ready to be posted.
pub struct RoomPost {
    pub url: String,
    /// The origin header that the server expects.
    pub origin: String,
    pub body: CreateRoomRequest,
}

/// Where a server is connected to.
pub open spec fn endpoints(server: UrlPartsView) -> Result<ServerEndpointsView, RoomErrorView> {
    match (urls::socket_scheme(server.scheme), urls::authority(server)) {
        (Some(scheme), Some(authority)) => Ok(
            ServerEndpointsView {
                signaling_url: urls::signaling_at(scheme, authority),
                origin: urls::origin_at(server.scheme, authority),
            },
        ),
        _ => Err(RoomErrorView::InvalidServer),
    }
}

/// The body of a request for a room. A list of friends that is empty is left
/// out.
pub open spec fn request_for(options: RoomOptionsView) -> CreateRoomRequestView {
    CreateRoomRequestView {
        maximum_viewers: Some(options.maximum_viewers),
        expires_in_seconds: Some(options.expires_in_seconds),
        access_policy: Some(options.access_policy),
        allowed_friend_codes: if options.allowed_friend_codes.len() == 0 {
            None
        } else {
            Some(options.allowed_friend_codes)
        },
    }
}

/// What came of a request for a room.
pub open spec fn outcome(reply: RoomReplyView) -> Result<CreateRoomResponseView, RoomErrorView> {
    match reply {
        RoomReplyView::Unreachable { error } => Err(RoomErrorView::Unreachable(error)),
        RoomReplyView::Unreadable { error } => Err(RoomErrorView::Unreachable(error)),
        RoomReplyView::Refused { status, message } => Err(
            RoomErrorView::Declined(
                match message {
                    Some(message) => message,
                    None => "HTTP "@ + status,
                },
            ),
        ),
        RoomReplyView::Created { room } => Ok(room),
    }
}

/// The message of an error.
pub open spec fn message_of(error: RoomErrorView) -> Seq<char> {
    match error {
        RoomErrorView::InvalidServer => "the server URL must be an http or https address"@,
        RoomErrorView::Unreachable(reason) => "the server could not be reached: "@ + reason,
        RoomErrorView::Declined(reason) => "the server declined to create a room: "@ + reason,
    }
}

impl RoomError {
    /// The error in words.
    pub fn message(&self) -> (r: String)
        ensures
            r@ == message_of(self@),
    {
        match self {
            RoomError::InvalidServer =>
                "the server URL must be an http or https address".to_owned(),
            RoomError::Unreachable(reason) => {
                let mut r = "the server could not be reached: ".to_owned();
                r.push_str(reason.as_str());
                r
            },
            RoomError::Declined(reason) => {
                let mut r = "the server declined to create a room: ".to_owned();
                r.push_str(reason.as_str());
                r
            },
        }
    }
}

/// Where a server is connected to.
pub fn server_endpoints(server: &UrlParts) -> (r: Result<ServerEndpoints, RoomError>)
    ensures
        match r {
            Ok(found) => endpoints(server@) == Ok::<_, RoomErrorView>(found@),
            Err(error) => endpoints(server@) == Err::<ServerEndpointsView, _>(error@),
        },
{
    let scheme = match urls::ws_scheme(server.scheme.as_str()) {
        Some(scheme) => scheme,
        None => {
            return Err(RoomError::InvalidServer);
        },
    };
    match urls::url_authority(server) {
        Some(authority) => Ok(
            ServerEndpoints {
                signaling_url: urls::signaling_text(scheme.as_str(), authority.as_str()),
                origin: urls::origin_text(server.scheme.as_str(), authority.as_str()),
            },
        ),
        None => Err(RoomError::InvalidServer),
    }
}

/// The body of a request for a room.
pub fn create_room_request(options: RoomOptions) -> (r: CreateRoomRequest)
    ensures
        r@ == request_for(options@),
{
    CreateRoomRequest {
        maximum_viewers: Some(options.maximum_viewers),
        expires_in_seconds: Some(options.expires_in_seconds),
        access_policy: Some(options.access_policy),
        allowed_friend_codes: if options.allowed_friend_codes.len() == 0 {
            None
        } else {
            Some(options.allowed_friend_codes)
        },
    }
}

/// The request that creates a room on a server. It carries the server's own
/// origin.
pub fn room_post(server: &str, options: RoomOptions) -> (r: Result<RoomPost, RoomError>)
    ensures
        match (urls::url_of(server@), urls::url_joined(server@, "api/v1/rooms"@)) {
            (Some(url), Some(target)) => match endpoints(url) {
                Ok(found) => r matches Ok(post) && post.url@ == target && post.origin@
                    == found.origin && post.body@ == request_for(options@),
                Err(error) => r matches Err(e) && e@ == error,
            },
            _ => r matches Err(e) && e@ == RoomErrorView::InvalidServer,
        },
{
    let url = match UrlParts::parse(server) {
        Some(url) => url,
        None => {
            return Err(RoomError::InvalidServer);
        },
    };
    let endpoints = match server_endpoints(&url) {
        Ok(endpoints) => endpoints,
        Err(_) => {
            return Err(RoomError::InvalidServer);
        },
    };
    match urls::join_url(server, "api/v1/rooms") {
        Some(target) => Ok(
            RoomPost {
                url: target,
                origin: endpoints.origin,
                body: create_room_request(options),
            },
        ),
        None => Err(RoomError::InvalidServer),
    }
}

/// What came of a request for a room.
pub fn created_room(reply: RoomReply) -> (r: Result<CreateRoomResponse, RoomError>)
    ensures
        match r {
            Ok(room) => outcome(reply@) == Ok::<_, RoomErrorView>(room@),
            Err(error) => outcome(reply@) == Err::<CreateRoomResponseView, _>(error@),
        },
{
    match reply {
        RoomReply::Unreachable { error } => Err(RoomError::Unreachable(error)),
        RoomReply::Unreadable { error } => Err(RoomError::Unreachable(error)),
        RoomReply::Refused { status, message } => {
            let message = match message {
                Some(message) => message,
                None => {
                    let mut m = "HTTP ".to_owned();
                    m.push_str(status.as_str());
                    m
                },
            };
            Err(RoomError::Declined(message))
        },
        RoomReply::Created { room } => Ok(room),
    }
}

} // verus!
