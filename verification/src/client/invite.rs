//! Viewer invitations.
use vstd::prelude::*;
use vstd::string::*;

use crate::client::urls;
use crate::client::urls::{UrlParts, UrlPartsView};
use crate::crypto::Secret;
use crate::seqs;
use crate::text;

verus! {

/// A parsed viewer invitation. The secret leaves it only inside the
/// authentication message.
pub struct Invitation {
    pub room_id: String,
    pub secret: Secret,
    /// The signaling endpoint at the host of the invitation.
    pub signaling_url: String,
    /// The web origin of the invitation, which the server expects.
    pub origin: String,
}

/// What an [`Invitation`] holds.
#[verifier::ext_equal]
pub struct InvitationView {
    pub room_id: Seq<char>,
    pub secret: Seq<char>,
    pub signaling_url: Seq<char>,
    pub origin: Seq<char>,
}

impl View for Invitation {
    type V = InvitationView;

    open spec fn view(&self) -> InvitationView {
        InvitationView {
            room_id: self.room_id@,
            secret: self.secret@,
            signaling_url: self.signaling_url@,
            origin: self.origin@,
        }
    }
}

/// Why an invitation could not be used.
#[derive(Debug, Clone, Copy, PartialEq, Eq, Structural)]
pub enum InvitationError {
    /// It is not a valid URL.
    Invalid,
    /// It is not an http or https link.
    UnsupportedScheme,
    /// Its path is incomplete.
    UnrecognizedPath,
    /// Its secret is missing.
    MissingSecret,
}

impl DeepView for InvitationError {
    type V = InvitationError;

    open spec fn deep_view(&self) -> InvitationError {
        *self
    }
}

impl InvitationError {
    /// The error in words.
    pub open spec fn text(self) -> Seq<char> {
        match self {
            InvitationError::Invalid => "the invitation is not a valid URL"@,
            InvitationError::UnsupportedScheme =>
                "the invitation must be an http or https link"@,
            InvitationError::UnrecognizedPath =>
                "the invitation path is incomplete; expected a link like https://host/r/<room>"@,
            InvitationError::MissingSecret =>
                "the invitation secret is missing; copy the complete viewer link, including everything after `#`"@,
        }
    }

    /// The error in words.
    pub fn message(&self) -> (r: &'static str)
        ensures
            r@ == self.text(),
    {
        match self {
            InvitationError::Invalid => "the invitation is not a valid URL",
            InvitationError::UnsupportedScheme => "the invitation must be an http or https link",
            InvitationError::UnrecognizedPath =>
                "the invitation path is incomplete; expected a link like https://host/r/<room>",
            InvitationError::MissingSecret =>
                "the invitation secret is missing; copy the complete viewer link, including everything after `#`",
        }
    }
}

/// The segments of a path that are not empty.
pub open spec fn named_segments(segments: Seq<Seq<char>>) -> Seq<Seq<char>> {
    segments.filter(|segment: Seq<char>| segment.len() > 0)
}

/// What a URL of the form `https://host/r/<room>#<secret>` invites to. What is
/// wrong with any other is said in this order: the URL itself, its scheme, its
/// host, its path, its secret.
pub open spec fn invitation(url: Option<UrlPartsView>) -> Result<InvitationView, InvitationError> {
    match url {
        None => Err(InvitationError::Invalid),
        Some(url) => match (urls::socket_scheme(url.scheme), urls::authority(url)) {
            (None, _) => Err(InvitationError::UnsupportedScheme),
            (Some(_), None) => Err(InvitationError::Invalid),
            (Some(scheme), Some(authority)) => match url.segments {
                None => Err(InvitationError::UnrecognizedPath),
                Some(segments) => {
                    let named = named_segments(segments);
                    if named.len() != 2 || named[0] != "r"@ {
                        Err(InvitationError::UnrecognizedPath)
                    } else {
                        match url.fragment {
                            Some(secret) if secret.len() > 0 => Ok(
                                InvitationView {
                                    room_id: named[1],
                                    secret,
                                    signaling_url: urls::signaling_at(scheme, authority),
                                    origin: urls::origin_at(url.scheme, authority),
                                },
                            ),
                            _ => Err(InvitationError::MissingSecret),
                        }
                    }
                },
            },
        },
    }
}

/// What the parts of a URL invite to.
pub fn read_invitation(url: Option<UrlParts>) -> (r: Result<Invitation, InvitationError>)
    ensures
        match r {
            Ok(found) => invitation(url.deep_view()) == Ok::<_, InvitationError>(found@),
            Err(error) => invitation(url.deep_view()) == Err::<InvitationView, _>(error),
        },
{
    let url = match url {
        Some(url) => url,
        None => {
            return Err(InvitationError::Invalid);
        },
    };
    let scheme = match urls::ws_scheme(url.scheme.as_str()) {
        Some(scheme) => scheme,
        None => {
            return Err(InvitationError::UnsupportedScheme);
        },
    };
    let authority = match urls::url_authority(&url) {
        Some(authority) => authority,
        None => {
            return Err(InvitationError::Invalid);
        },
    };
    let segments = match url.segments {
        Some(segments) => segments,
        None => {
            return Err(InvitationError::UnrecognizedPath);
        },
    };
    let ghost all = segments.deep_view();
    let ghost named = |segment: Seq<char>| segment.len() > 0;
    let mut kept: Vec<String> = Vec::new();
    assert(all.take(0).filter(named) =~= Seq::empty()) by {
        reveal(Seq::filter);
    }
    assert(kept.deep_view() =~= Seq::empty());
    for i in 0..segments.len()
        invariant
            all == segments.deep_view(),
            named == |segment: Seq<char>| segment.len() > 0,
            kept.deep_view() == all.take(i as int).filter(named),
    {
        let ghost before = kept.deep_view();
        proof {
            assert(all.take(i + 1) =~= all.take(i as int).push(all[i as int]));
            seqs::lemma_filter_push(all.take(i as int), all[i as int], named);
        }
        if !text::is_empty(segments[i].as_str()) {
            kept.push(segments[i].clone());
            assert(kept.deep_view() =~= before.push(all[i as int]));
        }
    }
    assert(all.take(all.len() as int) =~= all);
    assert(kept.deep_view() == named_segments(all));
    if kept.len() != 2 || !text::same(kept[0].as_str(), "r") {
        return Err(InvitationError::UnrecognizedPath);
    }
    match url.fragment {
        Some(secret) => {
            if text::is_empty(secret.as_str()) {
                return Err(InvitationError::MissingSecret);
            }
            Ok(
                Invitation {
                    room_id: kept[1].clone(),
                    secret: Secret::new(secret),
                    signaling_url: urls::signaling_text(scheme.as_str(), authority.as_str()),
                    origin: urls::origin_text(url.scheme.as_str(), authority.as_str()),
                },
            )
        },
        None => Err(InvitationError::MissingSecret),
    }
}

/// What a text invites to, spaces around it left out.
pub open spec fn invited(input: Seq<char>) -> Result<InvitationView, InvitationError> {
    invitation(urls::url_of(text::trim(input)))
}

/// Parses a viewer invitation URL of the form
/// `https://host/r/<roomId>[?access=public]#<viewerSecret>`.
pub fn parse_invitation(input: &str) -> (r: Result<Invitation, InvitationError>)
    ensures
        match r {
            Ok(found) => invited(input@) == Ok::<_, InvitationError>(found@),
            Err(error) => invited(input@) == Err::<InvitationView, _>(error),
        },
{
    read_invitation(UrlParts::parse(text::trimmed(input).as_str()))
}

/// An invitation always carries a room and a secret.
pub proof fn law_invitations_are_complete(url: Option<UrlPartsView>)
    requires
        invitation(url) is Ok,
    ensures
        invitation(url)->Ok_0.secret.len() > 0,
        invitation(url)->Ok_0.room_id.len() > 0,
{
    let segments = url->0.segments->0;
    let named = |segment: Seq<char>| segment.len() > 0;
    seqs::lemma_filter_members(segments, named);
    assert(named(named_segments(segments)[1]));
}

} // verus!
