//! The parts of a URL that connections are made of.
use url::{Host, Url};
use vstd::prelude::*;
use vstd::string::*;

use crate::text;

verus! {

/// The host of a URL, without the brackets of an IPv6 address.
#[derive(Debug, PartialEq, Eq)]
pub enum UrlHost {
    Domain(String),
    Ipv4(String),
    Ipv6(String),
}

/// What a [`UrlHost`] holds.
#[verifier::ext_equal]
pub enum UrlHostView {
    Domain(Seq<char>),
    Ipv4(Seq<char>),
    Ipv6(Seq<char>),
}

impl View for UrlHost {
    type V = UrlHostView;

    open spec fn view(&self) -> UrlHostView {
        match self {
            UrlHost::Domain(first) => UrlHostView::Domain(first@),
            UrlHost::Ipv4(first) => UrlHostView::Ipv4(first@),
            UrlHost::Ipv6(first) => UrlHostView::Ipv6(first@),
        }
    }
}

impl DeepView for UrlHost {
    type V = UrlHostView;

    open spec fn deep_view(&self) -> UrlHostView {
        self@
    }
}

impl Clone for UrlHost {
    fn clone(&self) -> (r: Self)
        ensures
            r@ == self@,
    {
        match self {
            UrlHost::Domain(first) => UrlHost::Domain(first.clone()),
            UrlHost::Ipv4(first) => UrlHost::Ipv4(first.clone()),
            UrlHost::Ipv6(first) => UrlHost::Ipv6(first.clone()),
        }
    }
}

/// The parts of a URL.
#[derive(Debug, PartialEq, Eq)]
pub struct UrlParts {
    pub scheme: String,
    pub host: Option<UrlHost>,
    /// The port, unless it is the default of the scheme.
    pub port: Option<u16>,
    /// The segments of the path, where it is a hierarchical one.
    pub segments: Option<Vec<String>>,
    pub fragment: Option<String>,
}

/// What a [`UrlParts`] holds.
#[verifier::ext_equal]
pub struct UrlPartsView {
    pub scheme: Seq<char>,
    pub host: Option<UrlHostView>,
    pub port: Option<u16>,
    pub segments: Option<Seq<Seq<char>>>,
    pub fragment: Option<Seq<char>>,
}

impl View for UrlParts {
    type V = UrlPartsView;

    open spec fn view(&self) -> UrlPartsView {
        UrlPartsView {
            scheme: self.scheme@,
            host: self.host.deep_view(),
            port: self.port,
            segments: self.segments.deep_view(),
            fragment: self.fragment.deep_view(),
        }
    }
}

impl DeepView for UrlParts {
    type V = UrlPartsView;

    open spec fn deep_view(&self) -> UrlPartsView {
        self@
    }
}

/// The parts of the URL that a text is, or `None` where it is none.
pub uninterp spec fn url_of(text: Seq<char>) -> Option<UrlPartsView>;

/// What a relative reference is under a base URL, or `None` where one of the
/// two is unusable.
pub uninterp spec fn url_joined(base: Seq<char>, reference: Seq<char>) -> Option<Seq<char>>;

/// `Url::parse`, and the accessors of its result: a function of the text.
#[verifier::external_body]
fn url_parts(text: &str) -> (r: Option<UrlParts>)
    ensures
        r.deep_view() == url_of(text@),
{
    let url = Url::parse(text).ok()?;
    let host = match url.host() {
        Some(Host::Domain(name)) => Some(UrlHost::Domain(name.to_owned())),
        Some(Host::Ipv4(address)) => Some(UrlHost::Ipv4(address.to_string())),
        Some(Host::Ipv6(address)) => Some(UrlHost::Ipv6(address.to_string())),
        None => None,
    };
    let scheme = url.scheme().to_owned();
    let segments = url.path_segments().map(|all| all.map(str::to_owned).collect());
    let fragment = url.fragment().map(str::to_owned);
    Some(UrlParts { scheme, host, port: url.port(), segments, fragment })
}

/// `Url::parse`, then `Url::join`, as text: a function of both texts.
#[verifier::external_body]
pub(crate) fn join_url(base: &str, reference: &str) -> (r: Option<String>)
    ensures
        r.deep_view() == url_joined(base@, reference@),
{
    Some(Url::parse(base).ok()?.join(reference).ok()?.to_string())
}

/// The host as it stands in an authority.
pub open spec fn host_text(host: UrlHostView) -> Seq<char> {
    match host {
        UrlHostView::Domain(name) => name,
        UrlHostView::Ipv4(address) => address,
        UrlHostView::Ipv6(address) => "["@ + address + "]"@,
    }
}

/// The canonical `host[:port]`, including the brackets that an IPv6 authority
/// requires and leaving out default ports.
pub open spec fn authority(url: UrlPartsView) -> Option<Seq<char>> {
    match url.host {
        None => None,
        Some(host) => Some(
            match url.port {
                Some(port) => host_text(host) + ":"@ + text::decimal(port as nat),
                None => host_text(host),
            },
        ),
    }
}

/// The WebSocket scheme that goes with a web scheme.
pub open spec fn socket_scheme(scheme: Seq<char>) -> Option<Seq<char>> {
    if scheme == "https"@ {
        Some("wss"@)
    } else if scheme == "http"@ {
        Some("ws"@)
    } else {
        None
    }
}

/// The signaling endpoint at an authority.
pub open spec fn signaling_at(scheme: Seq<char>, authority: Seq<char>) -> Seq<char> {
    scheme + "://"@ + authority + "/api/v1/ws"@
}

/// The web origin at an authority.
pub open spec fn origin_at(scheme: Seq<char>, authority: Seq<char>) -> Seq<char> {
    scheme + "://"@ + authority
}

/// The host that an identity challenge is bound to; empty where there is none.
pub open spec fn host_of(url: Option<UrlPartsView>) -> Seq<char> {
    match url {
        Some(url) => match authority(url) {
            Some(host) => host,
            None => ""@,
        },
        None => ""@,
    }
}

impl UrlParts {
    /// Reads a URL.
    pub fn parse(text: &str) -> (r: Option<UrlParts>)
        ensures
            r.deep_view() == url_of(text@),
    {
        url_parts(text)
    }
}

/// The canonical `host[:port]` of a URL.
pub fn url_authority(url: &UrlParts) -> (r: Option<String>)
    ensures
        r.deep_view() == authority(url@),
{
    let mut r = match &url.host {
        None => {
            return None;
        },
        Some(UrlHost::Domain(name)) => name.clone(),
        Some(UrlHost::Ipv4(address)) => address.clone(),
        Some(UrlHost::Ipv6(address)) => {
            let mut bracketed = "[".to_owned();
            bracketed.push_str(address.as_str());
            bracketed.push_str("]");
            bracketed
        },
    };
    if let Some(port) = url.port {
        r.push_str(":");
        r.push_str(text::decimal_text(port as u64).as_str());
    }
    Some(r)
}

/// The WebSocket scheme that goes with a web scheme.
pub(crate) fn ws_scheme(scheme: &str) -> (r: Option<String>)
    ensures
        r.deep_view() == socket_scheme(scheme@),
{
    if text::same(scheme, "https") {
        Some("wss".to_owned())
    } else if text::same(scheme, "http") {
        Some("ws".to_owned())
    } else {
        None
    }
}

pub(crate) fn signaling_text(scheme: &str, authority: &str) -> (r: String)
    ensures
        r@ == signaling_at(scheme@, authority@),
{
    let mut r = origin_text(scheme, authority);
    r.push_str("/api/v1/ws");
    r
}

pub(crate) fn origin_text(scheme: &str, authority: &str) -> (r: String)
    ensures
        r@ == origin_at(scheme@, authority@),
{
    let mut r = scheme.to_owned();
    r.push_str("://");
    r.push_str(authority);
    r
}

/// The host that an identity challenge is bound to, given the URL that was
/// dialed.
pub fn host_from(url: &Option<UrlParts>) -> (r: String)
    ensures
        r@ == host_of(url.deep_view()),
{
    match url {
        Some(url) => match url_authority(url) {
            Some(host) => host,
            None => "".to_owned(),
        },
        None => "".to_owned(),
    }
}

/// The `host[:port]` that an identity challenge signature is bound to, from the
/// URL that was dialed.
pub fn server_host(url: &str) -> (r: String)
    ensures
        r@ == host_of(url_of(url@)),
{
    host_from(&UrlParts::parse(url))
}

/// An IPv6 host keeps its brackets, and a default port is left out.
pub proof fn law_authorities_are_canonical(url: UrlPartsView)
    requires
        url.host is Some,
    ensures
        url.host matches Some(UrlHostView::Ipv6(_)) ==> authority(url)->0[0] == '[',
        url.port is None ==> authority(url) == Some(host_text(url.host->0)),
{
    reveal_strlit("[");
}

} // verus!
