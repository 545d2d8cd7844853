//! Secrets, the tokens that are generated for them, and their digests.
use base64::engine::general_purpose::{STANDARD, URL_SAFE_NO_PAD};
use base64::Engine;
use hmac::{Hmac, Mac};
use rand::rngs::OsRng;
use rand::RngCore;
use sha1::Sha1;
use sha2::Sha256;
use subtle::ConstantTimeEq;
use vstd::prelude::*;
use vstd::string::*;
use vstd::utf8::*;

use crate::text;

verus! {

pub const ROOM_ID_BYTES: usize = 12;

pub const SECRET_BYTES: usize = 32;

pub const PEER_ID_BYTES: usize = 12;

/// A piece of text that is never shown: it has no debug form, and reading it
/// takes a call of its own.
pub struct Secret {
    text: String,
}

impl View for Secret {
    type V = Seq<char>;

    closed spec fn view(&self) -> Seq<char> {
        self.text@
    }
}

impl DeepView for Secret {
    type V = Seq<char>;

    open spec fn deep_view(&self) -> Seq<char> {
        self@
    }
}

impl Secret {
    pub fn new(text: String) -> (r: Self)
        ensures
            r@ == text@,
    {
        Secret { text }
    }
}

impl Clone for Secret {
    fn clone(&self) -> (r: Self)
        ensures
            r@ == self@,
    {
        Secret { text: self.text.clone() }
    }
}

/// The text of a secret.
pub fn secret_as_str(secret: &Secret) -> (r: &str)
    ensures
        r@ == secret@,
{
    secret.text.as_str()
}

/// The HMAC-SHA256 of a message under a key.
pub uninterp spec fn hmac_sha256_of(key: Seq<u8>, message: Seq<u8>) -> Seq<u8>;

/// The HMAC-SHA1 of a message under a key.
pub uninterp spec fn hmac_sha1_of(key: Seq<u8>, message: Seq<u8>) -> Seq<u8>;

/// The URL-safe base64 of some bytes, without padding.
pub uninterp spec fn base64_url_of(bytes: Seq<u8>) -> Seq<char>;

/// The standard base64 of some bytes, with padding.
pub uninterp spec fn base64_of(bytes: Seq<u8>) -> Seq<char>;

/// What standard base64 with padding decodes to, or `None` where the text is
/// not of that form.
pub uninterp spec fn base64_bytes(text: Seq<char>) -> Option<Seq<u8>>;

/// `Hmac<Sha256>` over two pieces of one message, fed one after the other. Any
/// key length is taken; the result is a function of the key and the message,
/// and 32 bytes long.
#[verifier::external_body]
fn hmac_sha256(key: &[u8], first: &[u8], second: &[u8]) -> (r: [u8; 32])
    ensures
        r@ == hmac_sha256_of(key@, first@ + second@),
{
    let mut mac = Hmac::<Sha256>::new_from_slice(key).expect("HMAC accepts keys of every length");
    mac.update(first);
    mac.update(second);
    mac.finalize().into_bytes().into()
}

/// `Hmac<Sha1>` of a message. Any key length is taken; the result is a
/// function of the key and the message, and 20 bytes long.
#[verifier::external_body]
pub(crate) fn hmac_sha1(key: &[u8], message: &[u8]) -> (r: Vec<u8>)
    ensures
        r@ == hmac_sha1_of(key@, message@),
        r@.len() == 20,
{
    let mut mac = Hmac::<Sha1>::new_from_slice(key).expect("HMAC accepts keys of every length");
    mac.update(message);
    mac.finalize().into_bytes().to_vec()
}

/// `ConstantTimeEq::ct_eq` on slices: whether they hold the same bytes.
#[verifier::external_body]
fn same_bytes(a: &[u8], b: &[u8]) -> (r: bool)
    ensures
        r == (a@ == b@),
{
    bool::from(a.ct_eq(b))
}

/// The most bytes whose base64 text fits in memory where addresses have 32
/// bits.
pub const LONGEST_ENCODED: usize = 0x5fff_fffd;

/// `OsRng::fill_bytes`: random bytes from the operating system. Which ones is
/// left open; there are as many as asked for.
#[verifier::external_body]
pub(crate) fn random_bytes(count: usize) -> (r: Vec<u8>)
    requires
        count <= LONGEST_ENCODED,
    ensures
        r@.len() == count,
{
    let mut bytes = vec![0_u8; count];
    OsRng.fill_bytes(&mut bytes);
    bytes
}

/// How many characters unpadded base64 takes for `n` bytes.
pub open spec fn unpadded_length(n: nat) -> nat {
    (n * 4 + 2) / 3
}

/// How many characters padded base64 takes for `n` bytes.
pub open spec fn padded_length(n: nat) -> nat {
    4 * ((n + 2) / 3)
}

/// Whether a character belongs to the URL-safe base64 alphabet.
pub open spec fn url_safe(c: char) -> bool {
    ||| 'a' <= c <= 'z'
    ||| 'A' <= c <= 'Z'
    ||| '0' <= c <= '9'
    ||| c == '-'
    ||| c == '_'
}

/// `URL_SAFE_NO_PAD.encode`. The text is a function of the bytes, has four
/// characters for every three bytes, rounded up, and is made of letters,
/// digits, `-` and `_`.
#[verifier::external_body]
fn base64_url(bytes: &[u8]) -> (r: String)
    requires
        bytes@.len() <= LONGEST_ENCODED,
    ensures
        r@ == base64_url_of(bytes@),
        r@.len() == unpadded_length(bytes@.len()),
        forall|i: int| 0 <= i < r@.len() ==> url_safe(#[trigger] r@[i]),
{
    URL_SAFE_NO_PAD.encode(bytes)
}

/// `STANDARD.encode`. The text is a function of the bytes, has four characters
/// for every three bytes, padded to a multiple of four, and decoding it gives
/// the bytes back.
#[verifier::external_body]
pub(crate) fn base64_standard(bytes: &[u8]) -> (r: String)
    requires
        bytes@.len() <= LONGEST_ENCODED,
    ensures
        r@ == base64_of(bytes@),
        r@.len() == padded_length(bytes@.len()),
        base64_bytes(r@) == Some(bytes@),
{
    STANDARD.encode(bytes)
}

/// `STANDARD.decode`, with the reason for a refusal left out. The result is a
/// function of the text.
#[verifier::external_body]
pub(crate) fn base64_decode(text: &str) -> (r: Option<Vec<u8>>)
    ensures
        r.deep_view() == base64_bytes(text@),
{
    STANDARD.decode(text).ok()
}

/// The keyed digest of a secret. Like a [`Secret`], it has no debug form.
#[derive(Clone, Copy, PartialEq, Eq, Hash)]
pub struct SecretDigest {
    bytes: [u8; 32],
}

impl View for SecretDigest {
    type V = Seq<u8>;

    closed spec fn view(&self) -> Seq<u8> {
        self.bytes@
    }
}

impl SecretDigest {
    /// The digest in words, for logs: nothing of its bytes.
    pub fn describe(&self) -> (r: String)
        ensures
            r@ == "SecretDigest([REDACTED])"@,
    {
        "SecretDigest([REDACTED])".to_owned()
    }
}

/// The two keys of the service, as text.
pub struct DigestKeys {
    pub room: Seq<char>,
    pub resume: Seq<char>,
}

/// The bytes that are digested for a secret: the label of its use, then the
/// secret itself.
pub open spec fn labelled(label: Seq<char>, secret: Seq<char>) -> Seq<u8> {
    encode_utf8(label) + encode_utf8(secret)
}

impl DigestKeys {
    /// The digest of a presenter secret.
    pub open spec fn presenter(self, secret: Seq<char>) -> Seq<u8> {
        hmac_sha256_of(encode_utf8(self.room), labelled("presenter\0"@, secret))
    }

    /// The digest of a viewer secret.
    pub open spec fn viewer(self, secret: Seq<char>) -> Seq<u8> {
        hmac_sha256_of(encode_utf8(self.room), labelled("viewer\0"@, secret))
    }

    /// The digest of a resume token.
    pub open spec fn resume(self, secret: Seq<char>) -> Seq<u8> {
        hmac_sha256_of(encode_utf8(self.resume), labelled("resume\0"@, secret))
    }
}

/// The secrets of a new room.
pub struct GeneratedRoomSecrets {
    pub room_id: String,
    pub presenter_secret: Secret,
    pub viewer_secret: Secret,
}

impl GeneratedRoomSecrets {
    /// The secrets of a new room in words, for logs: nothing but its identifier.
    pub fn describe(&self) -> (r: String)
        ensures
            r@ == "GeneratedRoomSecrets { room_id: "@ + text::quoted_of(self.room_id@)
                + ", presenter_secret: \"[REDACTED]\", viewer_secret: \"[REDACTED]\" }"@,
    {
        let mut r = "GeneratedRoomSecrets { room_id: ".to_owned();
        r.push_str(text::quoted(self.room_id.as_str()).as_str());
        r.push_str(", presenter_secret: \"[REDACTED]\", viewer_secret: \"[REDACTED]\" }");
        r
    }
}

/// Generates tokens and digests secrets under two keys: one for the secrets
/// of rooms, one for resume tokens.
pub struct SecretDigestService {
    room_token_key: Secret,
    resume_token_key: Secret,
}

impl View for SecretDigestService {
    type V = DigestKeys;

    closed spec fn view(&self) -> DigestKeys {
        DigestKeys { room: self.room_token_key@, resume: self.resume_token_key@ }
    }
}

impl Clone for SecretDigestService {
    fn clone(&self) -> (r: Self)
        ensures
            r@ == self@,
    {
        SecretDigestService {
            room_token_key: self.room_token_key.clone(),
            resume_token_key: self.resume_token_key.clone(),
        }
    }
}

/// What every generated token of `bytes` random bytes looks like.
pub open spec fn is_token(text: Seq<char>, bytes: nat) -> bool {
    &&& text.len() == unpadded_length(bytes)
    &&& forall|i: int| 0 <= i < text.len() ==> url_safe(#[trigger] text[i])
}

/// The token that stands for some random bytes.
pub fn token_of(bytes: &Vec<u8>) -> (r: String)
    requires
        bytes@.len() <= LONGEST_ENCODED,
    ensures
        r@ == base64_url_of(bytes@),
        is_token(r@, bytes@.len()),
{
    base64_url(bytes.as_slice())
}

fn random_token(bytes: usize) -> (r: String)
    requires
        bytes <= LONGEST_ENCODED,
    ensures
        is_token(r@, bytes as nat),
{
    token_of(&random_bytes(bytes))
}

impl SecretDigestService {
    pub fn new(room_token_key: Secret, resume_token_key: Secret) -> (r: Self)
        ensures
            r@ == (DigestKeys { room: room_token_key@, resume: resume_token_key@ }),
    {
        SecretDigestService { room_token_key, resume_token_key }
    }

    /// The service in words, for logs: nothing of its keys.
    pub fn describe(&self) -> (r: String)
        ensures
            r@ == "SecretDigestService([REDACTED])"@,
    {
        "SecretDigestService([REDACTED])".to_owned()
    }

    /// Fresh secrets for a room: an identifier of 12 random bytes and two
    /// secrets of 32.
    pub fn generate_room_secrets(&self) -> (r: GeneratedRoomSecrets)
        ensures
            is_token(r.room_id@, 12),
            is_token(r.presenter_secret@, 32),
            is_token(r.viewer_secret@, 32),
    {
        GeneratedRoomSecrets {
            room_id: random_token(ROOM_ID_BYTES),
            presenter_secret: Secret::new(random_token(SECRET_BYTES)),
            viewer_secret: Secret::new(random_token(SECRET_BYTES)),
        }
    }

    pub fn generate_peer_id(&self) -> (r: String)
        ensures
            is_token(r@, 12),
    {
        random_token(PEER_ID_BYTES)
    }

    pub fn generate_resume_token(&self) -> (r: Secret)
        ensures
            is_token(r@, 32),
    {
        Secret::new(random_token(SECRET_BYTES))
    }

    pub fn presenter_digest(&self, secret: &Secret) -> (r: SecretDigest)
        ensures
            r@ == self@.presenter(secret@),
    {
        self.digest(&self.room_token_key, "presenter\0", secret)
    }

    pub fn viewer_digest(&self, secret: &Secret) -> (r: SecretDigest)
        ensures
            r@ == self@.viewer(secret@),
    {
        self.digest(&self.room_token_key, "viewer\0", secret)
    }

    pub fn resume_digest(&self, secret: &Secret) -> (r: SecretDigest)
        ensures
            r@ == self@.resume(secret@),
    {
        self.digest(&self.resume_token_key, "resume\0", secret)
    }

    /// Whether two digests are the same, compared in constant time.
    pub fn verify(&self, expected: &SecretDigest, supplied: &SecretDigest) -> (r: bool)
        ensures
            r == (expected@ == supplied@),
    {
        same_bytes(&expected.bytes, &supplied.bytes)
    }

    fn digest(&self, key: &Secret, label: &str, secret: &Secret) -> (r: SecretDigest)
        ensures
            r@ == hmac_sha256_of(encode_utf8(key@), labelled(label@, secret@)),
    {
        SecretDigest {
            bytes: hmac_sha256(
                key.text.as_str().as_bytes(),
                label.as_bytes(),
                secret.text.as_str().as_bytes(),
            ),
        }
    }
}

/// Distinct uses of a secret never digest the same bytes, whatever the secrets
/// are.
pub proof fn law_digest_domains_are_separated(a: Seq<char>, b: Seq<char>)
    ensures
        labelled("presenter\0"@, a) != labelled("viewer\0"@, b),
        labelled("presenter\0"@, a) != labelled("resume\0"@, b),
        labelled("viewer\0"@, a) != labelled("resume\0"@, b),
{
    reveal_strlit("presenter\0");
    reveal_strlit("viewer\0");
    reveal_strlit("resume\0");
    assert(is_ascii_chars("presenter\0"@));
    assert(is_ascii_chars("viewer\0"@));
    assert(is_ascii_chars("resume\0"@));
    is_ascii_chars_encode_utf8("presenter\0"@);
    is_ascii_chars_encode_utf8("viewer\0"@);
    is_ascii_chars_encode_utf8("resume\0"@);
    assert(labelled("presenter\0"@, a)[0] == 'p' as u8);
    assert(labelled("viewer\0"@, a)[0] == 'v' as u8);
    assert(labelled("viewer\0"@, b)[0] == 'v' as u8);
    assert(labelled("resume\0"@, b)[0] == 'r' as u8);
}

} // verus!
