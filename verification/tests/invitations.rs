use clarity::client::invite::{parse_invitation, read_invitation, InvitationError};
use clarity::client::rooms::{
    create_room_request, created_room, room_post, server_endpoints, CreateRoomResponse, RoomError,
    RoomOptions, RoomReply,
};
use clarity::client::urls::{host_from, server_host, url_authority, UrlHost, UrlParts};
use clarity::crypto::secret_as_str;
use clarity::protocol::RoomAccessPolicy;

#[test]
fn parses_a_production_invitation() {
    let invitation =
        parse_invitation("https://share.example.com/r/abc123?access=public#s3cr3t").ok().unwrap();
    assert_eq!(invitation.room_id, "abc123");
    assert_eq!(secret_as_str(&invitation.secret), "s3cr3t");
    assert_eq!(invitation.signaling_url, "wss://share.example.com/api/v1/ws");
    assert_eq!(invitation.origin, "https://share.example.com");
}

#[test]
fn parses_a_local_development_invitation() {
    let invitation = parse_invitation("http://127.0.0.1:5173/r/room#secret").ok().unwrap();
    assert_eq!(invitation.signaling_url, "ws://127.0.0.1:5173/api/v1/ws");
    assert_eq!(invitation.origin, "http://127.0.0.1:5173");
}

#[test]
fn preserves_ipv6_brackets_in_connection_endpoints() {
    let invitation = parse_invitation("http://[::1]:5173/r/room#secret").ok().unwrap();
    assert_eq!(invitation.signaling_url, "ws://[::1]:5173/api/v1/ws");
    assert_eq!(invitation.origin, "http://[::1]:5173");
}

#[test]
fn rejects_incomplete_invitations() {
    assert!(matches!(parse_invitation("not a url"), Err(InvitationError::Invalid)));
    assert!(matches!(
        parse_invitation("ftp://host/r/room#s"),
        Err(InvitationError::UnsupportedScheme)
    ));
    assert!(matches!(
        parse_invitation("https://host/watch/room#s"),
        Err(InvitationError::UnrecognizedPath)
    ));
    assert!(matches!(
        parse_invitation("https://host/r/room"),
        Err(InvitationError::MissingSecret)
    ));
    assert!(matches!(
        parse_invitation("https://host/r/room#"),
        Err(InvitationError::MissingSecret)
    ));
}

#[test]
fn derives_signaling_endpoints_from_the_server_url() {
    let endpoints = server_endpoints(&UrlParts::parse("http://127.0.0.1:3000").unwrap()).unwrap();
    assert_eq!(endpoints.signaling_url, "ws://127.0.0.1:3000/api/v1/ws");
    assert_eq!(endpoints.origin, "http://127.0.0.1:3000");

    let endpoints =
        server_endpoints(&UrlParts::parse("https://share.example.com").unwrap()).unwrap();
    assert_eq!(endpoints.signaling_url, "wss://share.example.com/api/v1/ws");
    assert_eq!(endpoints.origin, "https://share.example.com");

    let endpoints = server_endpoints(&UrlParts::parse("http://[::1]:3000").unwrap()).unwrap();
    assert_eq!(endpoints.signaling_url, "ws://[::1]:3000/api/v1/ws");
    assert_eq!(endpoints.origin, "http://[::1]:3000");

    assert!(matches!(
        server_endpoints(&UrlParts::parse("ftp://example.com").unwrap()),
        Err(RoomError::InvalidServer)
    ));
}

#[test]
fn identity_host_preserves_ipv6_brackets() {
    assert_eq!(server_host("wss://[2001:db8::1]:8443/api/v1/ws"), "[2001:db8::1]:8443");
}

#[test]
fn hosts_leave_default_ports_out() {
    assert_eq!(server_host("https://share.example.com:443/x"), "share.example.com");
    assert_eq!(server_host("not a url"), "");
    assert_eq!(host_from(&None), "");
}

#[test]
fn urls_are_taken_apart() {
    let url = UrlParts::parse("HTTPS://Host.Example:8443/a/b/?q=1#frag").unwrap();
    assert_eq!(url.scheme, "https");
    assert!(matches!(&url.host, Some(UrlHost::Domain(name)) if name == "host.example"));
    assert_eq!(url.port, Some(8443));
    assert_eq!(
        url.segments,
        Some(vec!["a".to_owned(), "b".to_owned(), String::new()])
    );
    assert_eq!(url.fragment.as_deref(), Some("frag"));
    assert_eq!(url_authority(&url).as_deref(), Some("host.example:8443"));
    assert!(UrlParts::parse("::").is_none());
}

#[test]
fn invitations_are_read_from_the_parts_of_a_url() {
    let url = || UrlParts {
        scheme: "https".to_owned(),
        host: Some(UrlHost::Domain("h".to_owned())),
        port: None,
        segments: Some(vec!["r".to_owned(), "room".to_owned(), String::new()]),
        fragment: Some("s".to_owned()),
    };
    assert_eq!(read_invitation(Some(url())).ok().unwrap().room_id, "room");
    assert!(matches!(read_invitation(None), Err(InvitationError::Invalid)));
    let nowhere = UrlParts { host: None, ..url() };
    assert!(matches!(read_invitation(Some(nowhere)), Err(InvitationError::Invalid)));
    let opaque = UrlParts { segments: None, ..url() };
    assert!(matches!(read_invitation(Some(opaque)), Err(InvitationError::UnrecognizedPath)));
}

#[test]
fn invitations_may_have_spaces_around_them() {
    let invitation = parse_invitation("  https://host/r/room#secret\n").ok().unwrap();
    assert_eq!(invitation.room_id, "room");
    assert!(InvitationError::MissingSecret.message().contains("secret"));
}

fn options() -> RoomOptions {
    RoomOptions {
        maximum_viewers: 4,
        expires_in_seconds: 3600,
        access_policy: RoomAccessPolicy::Public,
        allowed_friend_codes: Vec::new(),
    }
}

#[test]
fn room_requests_name_friends_only_where_there_are_some() {
    let request = create_room_request(options());
    assert_eq!(request.maximum_viewers, Some(4));
    assert_eq!(request.expires_in_seconds, Some(3600));
    assert_eq!(request.access_policy, Some(RoomAccessPolicy::Public));
    assert_eq!(request.allowed_friend_codes, None);
    let request = create_room_request(RoomOptions {
        allowed_friend_codes: vec!["clr-A".to_owned()],
        ..options()
    });
    assert_eq!(request.allowed_friend_codes, Some(vec!["clr-A".to_owned()]));
}

#[test]
fn room_requests_go_to_the_server() {
    let post = room_post("https://share.example.com", options()).ok().unwrap();
    assert_eq!(post.url, "https://share.example.com/api/v1/rooms");
    assert_eq!(post.origin, "https://share.example.com");
    assert!(matches!(room_post("nowhere", options()), Err(RoomError::InvalidServer)));
    assert!(matches!(room_post("ftp://host", options()), Err(RoomError::InvalidServer)));
}

#[test]
fn replies_to_room_requests_are_told_apart() {
    let room = || CreateRoomResponse {
        room_id: "room".to_owned(),
        presenter_secret: "p".to_owned(),
        viewer_url: "https://host/r/room#v".to_owned(),
        expires_at: "2026-01-01T00:00:00Z".to_owned(),
    };
    assert_eq!(created_room(RoomReply::Created { room: room() }).ok().unwrap().room_id, "room");
    assert_eq!(
        created_room(RoomReply::Unreachable { error: "down".to_owned() }).err(),
        Some(RoomError::Unreachable("down".to_owned()))
    );
    assert_eq!(
        created_room(RoomReply::Unreadable { error: "odd".to_owned() }).err(),
        Some(RoomError::Unreachable("odd".to_owned()))
    );
    assert_eq!(
        created_room(RoomReply::Refused {
            status: "503 Service Unavailable".to_owned(),
            message: None,
        })
        .err(),
        Some(RoomError::Declined("HTTP 503 Service Unavailable".to_owned()))
    );
    assert_eq!(
        created_room(RoomReply::Refused {
            status: "403".to_owned(),
            message: Some("full".to_owned()),
        })
        .err(),
        Some(RoomError::Declined("full".to_owned()))
    );
    assert!(RoomError::Declined("full".to_owned()).message().contains("full"));
}
