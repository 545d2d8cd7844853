//! Proving an identity: the holder of a key signs a challenge.
use ring::signature::{UnparsedPublicKey, ED25519};
use vstd::prelude::*;
use vstd::string::*;
use vstd::utf8::*;

use crate::crypto;
use crate::protocol::ErrorCode;

verus! {

/// Why credentials were not accepted.
#[derive(Debug, Clone, Copy, PartialEq, Eq, Structural)]
pub enum PresenceAuthError {
    Malformed,
    BadSignature,
}

/// The presence service has stopped and takes no more changes.
#[derive(Debug, Clone, Copy, PartialEq, Eq, Structural)]
pub struct PresenceUnavailable;

impl PresenceAuthError {
    /// The code that a refusal has on the wire.
    pub fn code(&self) -> (r: ErrorCode)
        ensures
            r == ErrorCode::AuthenticationFailed,
    {
        ErrorCode::AuthenticationFailed
    }

    /// The sentence that describes the refusal.
    pub fn message(&self) -> (r: &'static str)
        ensures
            r@ == match self {
                PresenceAuthError::Malformed => "the presence credentials were malformed"@,
                PresenceAuthError::BadSignature => "the presence signature did not verify"@,
            },
    {
        match self {
            PresenceAuthError::Malformed => "the presence credentials were malformed",
            PresenceAuthError::BadSignature => "the presence signature did not verify",
        }
    }
}

/// Whether a signature of a message verifies under an Ed25519 public key.
pub uninterp spec fn ed25519_accepts(key: Seq<u8>, message: Seq<u8>, signature: Seq<u8>) -> bool;

/// `UnparsedPublicKey::verify` with `ED25519`. Whether the signature is
/// accepted is a function of the key, the message and the signature; a key or
/// signature of the wrong length is not accepted.
#[verifier::external_body]
fn ed25519_verify(key: &[u8], message: &[u8], signature: &[u8]) -> (r: bool)
    ensures
        r == ed25519_accepts(key@, message@, signature@),
        key@.len() != 32 || signature@.len() != 64 ==> !r,
{
    UnparsedPublicKey::new(&ED25519, key).verify(message, signature).is_ok()
}

/// A random challenge for a connecting client to sign: the base64 of 32 random
/// bytes.
pub fn new_challenge() -> (r: String)
    ensures
        crypto::base64_bytes(r@) matches Some(bytes) && bytes.len() == 32 && r@
            == crypto::base64_of(bytes),
{
    crypto::base64_standard(crypto::random_bytes(32).as_slice())
}

/// What a claim of an identity comes to: the key that was proven, or why it was
/// not.
pub open spec fn proven_key(
    public_key: Option<Seq<u8>>,
    signature: Option<Seq<u8>>,
    message: Seq<char>,
) -> Result<Seq<u8>, PresenceAuthError> {
    if public_key is None || signature is None || public_key->0.len() != 32 {
        Err(PresenceAuthError::Malformed)
    } else if !ed25519_accepts(public_key->0, encode_utf8(message), signature->0) {
        Err(PresenceAuthError::BadSignature)
    } else {
        Ok(public_key->0)
    }
}

/// The outcome of a proof, by what it holds.
pub open spec fn proof_view(r: Result<Vec<u8>, PresenceAuthError>) -> Result<
    Seq<u8>,
    PresenceAuthError,
> {
    match r {
        Ok(key) => Ok(key@),
        Err(error) => Err(error),
    }
}

/// Judges a claim whose parts were decoded and whose signature was checked.
pub fn judge_identity(public_key: Option<Vec<u8>>, has_signature: bool, accepted: bool) -> (r: Result<
    Vec<u8>,
    PresenceAuthError,
>)
    ensures
        r == if public_key is None || !has_signature || public_key->0@.len() != 32 {
            Err::<Vec<u8>, PresenceAuthError>(PresenceAuthError::Malformed)
        } else if !accepted {
            Err(PresenceAuthError::BadSignature)
        } else {
            Ok(public_key->0)
        },
{
    match public_key {
        None => Err(PresenceAuthError::Malformed),
        Some(key) => {
            if !has_signature || key.len() != 32 {
                Err(PresenceAuthError::Malformed)
            } else if !accepted {
                Err(PresenceAuthError::BadSignature)
            } else {
                Ok(key)
            }
        },
    }
}

/// Verifies a signature over `message` and returns the public key that was
/// proven. The friend code is derived from that key, not from what the client
/// says, so a client cannot claim a code that is not its own.
pub fn verify_identity(public_key_b64: &str, signature_b64: &str, message: &str) -> (r: Result<
    Vec<u8>,
    PresenceAuthError,
>)
    ensures
        proof_view(r) == proven_key(
            crypto::base64_bytes(public_key_b64@),
            crypto::base64_bytes(signature_b64@),
            message@,
        ),
{
    let public_key = crypto::base64_decode(public_key_b64);
    let signature = crypto::base64_decode(signature_b64);
    let accepted = match (&public_key, &signature) {
        (Some(key), Some(signed)) => ed25519_verify(
            key.as_slice(),
            message.as_bytes(),
            signed.as_slice(),
        ),
        _ => false,
    };
    assert(public_key is Some ==> public_key->0.deep_view() =~= public_key->0@);
    assert(signature is Some ==> signature->0.deep_view() =~= signature->0@);
    judge_identity(public_key, signature.is_some(), accepted)
}

/// What a claim comes to when it may be bound to any of several payloads: the
/// first that verifies counts.
pub open spec fn proven_for(
    public_key: Option<Seq<u8>>,
    signature: Option<Seq<u8>>,
    payloads: Seq<Seq<char>>,
) -> Result<Seq<u8>, PresenceAuthError> {
    if payloads.len() == 0 {
        Err(PresenceAuthError::BadSignature)
    } else if exists|i: int|
        0 <= i < payloads.len() && proven_key(public_key, signature, #[trigger] payloads[i]) is Ok {
        Ok(public_key->0)
    } else {
        proven_key(public_key, signature, payloads[0])
    }
}

/// Verifies a signature against each payload that this server would have
/// accepted, one per host that it answers to. A signature bound to another
/// server's host is in none of them, so it never verifies here.
pub fn verify_identity_for_hosts(
    public_key_b64: &str,
    signature_b64: &str,
    payloads: &Vec<String>,
) -> (r: Result<Vec<u8>, PresenceAuthError>)
    ensures
        proof_view(r) == proven_for(
            crypto::base64_bytes(public_key_b64@),
            crypto::base64_bytes(signature_b64@),
            payloads.deep_view(),
        ),
{
    let ghost key = crypto::base64_bytes(public_key_b64@);
    let ghost signed = crypto::base64_bytes(signature_b64@);
    let ghost all = payloads.deep_view();
    let mut outcome: Result<Vec<u8>, PresenceAuthError> = Err(PresenceAuthError::BadSignature);
    for i in 0..payloads.len()
        invariant
            key == crypto::base64_bytes(public_key_b64@),
            signed == crypto::base64_bytes(signature_b64@),
            all == payloads.deep_view(),
            forall|j: int|
                0 <= j < i ==> proven_key(key, signed, #[trigger] all[j])
                    == Err::<Seq<u8>, PresenceAuthError>(PresenceAuthError::BadSignature),
            outcome == Err::<Vec<u8>, PresenceAuthError>(PresenceAuthError::BadSignature),
    {
        match verify_identity(public_key_b64, signature_b64, payloads[i].as_str()) {
            Ok(proven) => {
                assert(proven_key(key, signed, all[i as int]) is Ok);
                return Ok(proven);
            },
            Err(PresenceAuthError::Malformed) => {
                assert(proven_key(key, signed, all[0]) == Err::<Seq<u8>, PresenceAuthError>(
                    PresenceAuthError::Malformed,
                ));
                return Err(PresenceAuthError::Malformed);
            },
            Err(error) => {
                assert(proven_key(key, signed, all[i as int]) == Err::<Seq<u8>, PresenceAuthError>(
                    PresenceAuthError::BadSignature,
                ));
                outcome = Err(error);
            },
        }
    }
    proof {
        if all.len() > 0 {
            assert(proven_key(key, signed, all[0]) == Err::<Seq<u8>, PresenceAuthError>(
                PresenceAuthError::BadSignature,
            ));
        }
    }
    outcome
}

/// An identity is proven only by a 32-byte key under which the signature of
/// the very message verifies.
pub proof fn law_only_the_key_holder_is_proven(
    public_key: Option<Seq<u8>>,
    signature: Option<Seq<u8>>,
    message: Seq<char>,
)
    ensures
        proven_key(public_key, signature, message) matches Ok(key) ==> public_key == Some(key)
            && key.len() == 32 && signature is Some && ed25519_accepts(
            key,
            encode_utf8(message),
            signature->0,
        ),
{
}

/// A signature that verifies for none of the server's payloads is refused.
pub proof fn law_foreign_payloads_are_refused(
    public_key: Option<Seq<u8>>,
    signature: Option<Seq<u8>>,
    payloads: Seq<Seq<char>>,
)
    requires
        forall|i: int|
            0 <= i < payloads.len() ==> !ed25519_accepts(
                public_key->0,
                encode_utf8(#[trigger] payloads[i]),
                signature->0,
            ),
    ensures
        proven_for(public_key, signature, payloads) is Err,
{
}

} // verus!
