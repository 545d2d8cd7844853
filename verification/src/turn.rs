//! Short-lived credentials for a TURN server.
use vstd::prelude::*;
use vstd::string::*;
use vstd::utf8::*;

use crate::clock;
use crate::clock::{Span, Timestamp};
use crate::crypto;
use crate::crypto::Secret;
use crate::protocol::{IceConfiguration, IceConfigurationView, IceServer, IceServerView};
use crate::text;

verus! {

/// How a TURN server is reached, and the secret shared with it.
pub struct TurnConfig {
    pub urls: Vec<String>,
    pub shared_secret: Secret,
    pub credential_ttl: Span,
}

/// The end of a credential's life has no RFC 3339 form.
#[derive(Debug, Clone, Copy, PartialEq, Eq, Structural)]
pub struct UnformattableExpiry;

/// Issues credentials by the REST convention of coturn: the user name holds
/// the expiry, and the password is its keyed digest.
pub struct TurnCredentialService {
    config: TurnConfig,
}

/// What a [`TurnConfig`] holds.
pub struct TurnView {
    pub urls: Seq<Seq<char>>,
    pub shared_secret: Seq<char>,
    pub credential_ttl: int,
}

impl View for TurnConfig {
    type V = TurnView;

    open spec fn view(&self) -> TurnView {
        TurnView {
            urls: self.urls.deep_view(),
            shared_secret: self.shared_secret@,
            credential_ttl: self.credential_ttl as int,
        }
    }
}

impl View for TurnCredentialService {
    type V = TurnView;

    closed spec fn view(&self) -> TurnView {
        self.config@
    }
}

/// A configuration in words, for logs: nothing of the shared secret.
pub open spec fn config_shown(m: TurnView) -> Seq<char> {
    "TurnConfig { urls: "@ + text::quoted_list(m.urls)
        + ", shared_secret: \"[REDACTED]\", credential_ttl: "@ + clock::shown_span(
        m.credential_ttl,
    ) + " }"@
}

impl TurnConfig {
    /// The configuration in words, for logs.
    pub fn describe(&self) -> (r: String)
        requires
            clock::is_span(self@.credential_ttl),
        ensures
            r@ == config_shown(self@),
    {
        let mut r = "TurnConfig { urls: ".to_owned();
        r.push_str(text::list_shown(&self.urls).as_str());
        r.push_str(", shared_secret: \"[REDACTED]\", credential_ttl: ");
        r.push_str(clock::span_shown(self.credential_ttl).as_str());
        r.push_str(" }");
        r
    }
}

/// The user name of a credential: when it expires, and for whom it is.
pub open spec fn username(expires_at: int, peer_id: Seq<char>) -> Seq<char> {
    text::signed_decimal(clock::unix_seconds(expires_at)).push(':') + peer_id
}

/// The password that belongs to a user name.
pub open spec fn password(shared_secret: Seq<char>, username: Seq<char>) -> Seq<char> {
    crypto::base64_of(crypto::hmac_sha1_of(encode_utf8(shared_secret), encode_utf8(username)))
}

/// The user name of a credential.
pub fn turn_username(expires_at: Timestamp, peer_id: &str) -> (r: String)
    requires
        clock::is_timestamp(expires_at as int),
    ensures
        r@ == username(expires_at as int, peer_id@),
{
    let mut name = text::signed_decimal_text(clock::whole_unix_seconds(expires_at));
    name.push(':');
    name.push_str(peer_id);
    name
}

/// What is handed to a peer for a credential with this user name, password and
/// end.
pub fn ice_configuration(
    urls: &Vec<String>,
    username: String,
    credential: String,
    expires_at: Option<String>,
) -> (r: Result<IceConfiguration, UnformattableExpiry>)
    ensures
        match expires_at {
            None => r == Err::<IceConfiguration, UnformattableExpiry>(UnformattableExpiry),
            Some(date) => r matches Ok(configuration) && configuration@ == (IceConfigurationView {
                expires_at: date@,
                ice_servers: seq![
                    IceServerView {
                        urls: urls.deep_view(),
                        username: Some(username@),
                        credential: Some(credential@),
                    },
                ],
            }),
        },
{
    match expires_at {
        None => Err(UnformattableExpiry),
        Some(date) => {
            let server = IceServer {
                urls: urls.clone(),
                username: Some(username),
                credential: Some(credential),
            };
            assert(server.urls.deep_view() =~= urls.deep_view());
            let configuration = IceConfiguration { expires_at: date, ice_servers: vec![server] };
            assert(configuration.ice_servers.deep_view() =~= seq![server@]);
            Ok(configuration)
        },
    }
}

impl TurnCredentialService {
    pub fn new(config: TurnConfig) -> (r: Self)
        ensures
            r@ == config@,
    {
        TurnCredentialService { config }
    }

    /// The service in words, for logs.
    pub fn describe(&self) -> (r: String)
        requires
            clock::is_span(self@.credential_ttl),
        ensures
            r@ == "TurnCredentialService { config: "@ + config_shown(self@) + " }"@,
    {
        let mut r = "TurnCredentialService { config: ".to_owned();
        r.push_str(self.config.describe().as_str());
        r.push_str(" }");
        r
    }

    /// A credential for one peer that lasts from `now` for the configured time.
    pub fn issue(&self, peer_id: &str, now: Timestamp) -> (r: Result<
        IceConfiguration,
        UnformattableExpiry,
    >)
        requires
            clock::is_timestamp(now as int),
            clock::is_span(self@.credential_ttl),
            clock::is_timestamp(now + self@.credential_ttl),
        ensures
            ({
                let expires_at = now + self@.credential_ttl;
                match clock::rfc3339_text(expires_at) {
                    None => r == Err::<IceConfiguration, UnformattableExpiry>(UnformattableExpiry),
                    Some(date) => r matches Ok(configuration) && configuration@ == (
                    IceConfigurationView {
                        expires_at: date,
                        ice_servers: seq![
                            IceServerView {
                                urls: self@.urls,
                                username: Some(username(expires_at, peer_id@)),
                                credential: Some(
                                    password(
                                        self@.shared_secret,
                                        username(expires_at, peer_id@),
                                    ),
                                ),
                            },
                        ],
                    }),
                }
            }),
            now + self@.credential_ttl >= clock::YEAR_ZERO ==> r is Ok,
            r matches Ok(configuration) ==> configuration@.ice_servers[0].credential matches Some(
                credential,
            ) && credential.len() == 28,
    {
        let expires_at: i128 = now + self.config.credential_ttl;
        let name = turn_username(expires_at, peer_id);
        let digest = crypto::hmac_sha1(
            crypto::secret_as_str(&self.config.shared_secret).as_bytes(),
            name.as_str().as_bytes(),
        );
        let credential = crypto::base64_standard(digest.as_slice());
        ice_configuration(&self.config.urls, name, credential, clock::rfc3339_time(expires_at))
    }
}

/// What is said of a configuration tells nothing of its shared secret.
pub proof fn law_descriptions_are_redacted(m: TurnView, shared_secret: Seq<char>)
    ensures
        config_shown(TurnView { shared_secret, ..m }) == config_shown(m),
{
}

} // verus!
