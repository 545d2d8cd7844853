//! What times, secrets, credentials, identities and names come to.
use vstd::prelude::*;
use vstd::utf8::*;

use crate::clock;
use crate::crypto;
use crate::crypto::DigestKeys;
use crate::presence::identity;
use crate::presence::identity::PresenceAuthError;
use crate::protocol::{RoomAccessPolicy, RoomLifecycle, SharingState};
use crate::room::model;
use crate::room::state;
use crate::room::types::{DomainError, RoomActorConfig};
use crate::seqs;
use crate::text;
use crate::text_laws;
use crate::turn;

verus! {

/// A second has a billion nanoseconds, and a time within the second after `n`
/// seconds is in second `n`, also before the epoch.
pub proof fn law_times_fall_into_seconds(n: int, rest: int)
    requires
        0 <= rest < 1_000_000_000,
    ensures
        clock::seconds(n) == n * 1_000_000_000,
        clock::unix_seconds(clock::seconds(n) + rest) == n,
{
    assert((n * 1_000_000_000 + rest) / 1_000_000_000 == n) by (nonlinear_arith)
        requires
            0 <= rest < 1_000_000_000,
    ;
}

/// A time is written as its date, or as its seconds where it has no date.
pub proof fn law_times_are_written(t: int)
    ensures
        clock::rfc3339_text(t) is Some ==> Some(clock::wire_time(t)) == clock::rfc3339_text(t),
        clock::rfc3339_text(t) is None ==> clock::wire_time(t) == text::signed_decimal(
            clock::unix_seconds(t),
        ),
{
}

/// A length of time is its whole seconds and the nanoseconds beyond them, both
/// with its sign.
pub proof fn law_spans_are_seconds_and_rest(d: int)
    ensures
        clock::span_seconds(d) * 1_000_000_000 + clock::span_rest(d) == d,
        -1_000_000_000 < clock::span_rest(d) < 1_000_000_000,
        d >= 0 ==> clock::span_seconds(d) >= 0 && clock::span_rest(d) >= 0,
        d <= 0 ==> clock::span_seconds(d) <= 0 && clock::span_rest(d) <= 0,
        clock::span_seconds(-d) == -clock::span_seconds(d),
{
}

/// How long ago something was is told in its largest whole unit.
pub proof fn law_ago_is_told_in_the_largest_unit(days: nat, hours: nat, minutes: nat, seconds: nat)
    requires
        hours < 24,
        minutes < 60,
        seconds < 60,
    ensures
        ({
            let told = clock::ago(((days * 24 + hours) * 60 + minutes) * 60 + seconds);
            &&& days > 0 ==> told == text::decimal(days) + seq!['d']
            &&& days == 0 && hours > 0 ==> told == text::decimal(hours) + seq!['h']
            &&& days == 0 && hours == 0 && minutes > 0 ==> told == text::decimal(minutes)
                + seq!['m']
            &&& days == 0 && hours == 0 && minutes == 0 ==> told == "now"@
        }),
{
    let all: nat = ((days * 24 + hours) * 60 + minutes) * 60 + seconds;
    assert(all == days * 86400 + hours * 3600 + minutes * 60 + seconds) by (nonlinear_arith)
        requires
            all == ((days * 24 + hours) * 60 + minutes) * 60 + seconds,
    ;
    if days > 0 {
        assert(all / 86400 == days);
        assert(text::decimal(days).push('d') =~= text::decimal(days) + seq!['d']);
    } else if hours > 0 {
        assert(all / 3600 == hours);
        assert(text::decimal(hours).push('h') =~= text::decimal(hours) + seq!['h']);
    } else if minutes > 0 {
        assert(all / 60 == minutes);
        assert(text::decimal(minutes).push('m') =~= text::decimal(minutes) + seq!['m']);
    }
}

/// A digest is keyed by its service's own key, and is taken of its label and
/// the secret: rooms' secrets under one key, resume tokens under the other.
pub proof fn law_digests_are_keyed_and_labelled(keys: DigestKeys, secret: Seq<char>)
    ensures
        keys.presenter(secret) == crypto::hmac_sha256_of(
            encode_utf8(keys.room),
            encode_utf8("presenter\0"@) + encode_utf8(secret),
        ),
        keys.viewer(secret) == crypto::hmac_sha256_of(
            encode_utf8(keys.room),
            encode_utf8("viewer\0"@) + encode_utf8(secret),
        ),
        keys.resume(secret) == crypto::hmac_sha256_of(
            encode_utf8(keys.resume),
            encode_utf8("resume\0"@) + encode_utf8(secret),
        ),
        forall|other: Seq<char>|
            keys.presenter(secret) == #[trigger] (DigestKeys { resume: other, ..keys }).presenter(
                secret,
            ),
        forall|other: Seq<char>|
            keys.resume(secret) == #[trigger] (DigestKeys { room: other, ..keys }).resume(secret),
{
}

/// Base64 takes four characters for three bytes: rounded up without padding,
/// and to whole groups with it.
pub proof fn law_base64_takes_four_for_three(n: nat)
    ensures
        4 * n <= 3 * crypto::unpadded_length(n) < 4 * n + 3,
        crypto::padded_length(n) % 4 == 0,
        crypto::unpadded_length(n) <= crypto::padded_length(n) < crypto::unpadded_length(n) + 4,
{
}

/// A credential's user name is the second in which it ends, a colon and the
/// peer; its password is the digest of that name under the shared secret.
pub proof fn law_credentials_name_their_end_and_peer(
    n: int,
    rest: int,
    peer_id: Seq<char>,
    shared_secret: Seq<char>,
    name: Seq<char>,
)
    requires
        0 <= rest < 1_000_000_000,
    ensures
        turn::username(n * 1_000_000_000 + rest, peer_id) == text::signed_decimal(n) + seq![':']
            + peer_id,
        turn::password(shared_secret, name) == crypto::base64_of(
            crypto::hmac_sha1_of(encode_utf8(shared_secret), encode_utf8(name)),
        ),
{
    law_times_fall_into_seconds(n, rest);
    assert(turn::username(n * 1_000_000_000 + rest, peer_id) =~= text::signed_decimal(n)
        + seq![':'] + peer_id);
}

/// A claim is proven exactly by a key of 32 bytes under which its signature of
/// the message verifies; one that cannot be read is malformed, and any other
/// signature is bad.
pub proof fn law_claims_are_proven_by_signatures(
    key: Seq<u8>,
    signature: Seq<u8>,
    message: Seq<char>,
)
    ensures
        identity::proven_key(Some(key), Some(signature), message) is Ok <==> key.len() == 32
            && identity::ed25519_accepts(key, encode_utf8(message), signature),
        identity::proven_key(Some(key), Some(signature), message) matches Ok(proven) ==> proven
            == key,
        key.len() != 32 ==> identity::proven_key(Some(key), Some(signature), message) == Err::<
            Seq<u8>,
            PresenceAuthError,
        >(PresenceAuthError::Malformed),
        key.len() == 32 && !identity::ed25519_accepts(key, encode_utf8(message), signature)
            ==> identity::proven_key(Some(key), Some(signature), message) == Err::<
            Seq<u8>,
            PresenceAuthError,
        >(PresenceAuthError::BadSignature),
        identity::proven_key(None, Some(signature), message) == Err::<Seq<u8>, PresenceAuthError>(
            PresenceAuthError::Malformed,
        ),
        identity::proven_key(Some(key), None, message) == Err::<Seq<u8>, PresenceAuthError>(
            PresenceAuthError::Malformed,
        ),
{
}

/// A claim may be bound to any of the server's names: one signature that
/// verifies is enough, and the key that it proves is the claimed one.
pub proof fn law_one_payload_is_enough(
    key: Seq<u8>,
    signature: Seq<u8>,
    payloads: Seq<Seq<char>>,
)
    ensures
        identity::proven_for(Some(key), Some(signature), payloads) is Ok <==> key.len() == 32
            && exists|i: int|
            0 <= i < payloads.len() && identity::ed25519_accepts(
                key,
                encode_utf8(#[trigger] payloads[i]),
                signature,
            ),
        identity::proven_for(Some(key), Some(signature), payloads) matches Ok(proven) ==> proven
            == key,
        payloads.len() > 0 && key.len() != 32 ==> identity::proven_for(
            Some(key),
            Some(signature),
            payloads,
        ) == Err::<Seq<u8>, PresenceAuthError>(PresenceAuthError::Malformed),
{
    if key.len() == 32 && exists|i: int|
        0 <= i < payloads.len() && identity::ed25519_accepts(
            key,
            encode_utf8(#[trigger] payloads[i]),
            signature,
        ) {
        let i = choose|i: int|
            0 <= i < payloads.len() && identity::ed25519_accepts(
                key,
                encode_utf8(#[trigger] payloads[i]),
                signature,
            );
        assert(identity::proven_key(Some(key), Some(signature), payloads[i]) is Ok);
    }
}

/// A new room is open, idle and empty, admits whom it was made for, and holds
/// the digests, times and limits that it was given.
pub proof fn law_new_rooms_are_empty(
    room_id: Seq<char>,
    maximum_viewers: u8,
    access_policy: RoomAccessPolicy,
    allowed_friend_codes: Seq<Seq<char>>,
    created_at: int,
    expires_at: int,
    presenter_digest: Seq<u8>,
    viewer_digest: Seq<u8>,
    keys: DigestKeys,
    config: RoomActorConfig,
)
    ensures
        ({
            let room = state::new_room(
                room_id,
                maximum_viewers,
                access_policy,
                allowed_friend_codes,
                created_at,
                expires_at,
                presenter_digest,
                viewer_digest,
                keys,
                config,
            );
            &&& room.room_id == room_id && room.access_policy == access_policy
            &&& room.allowed_friend_codes == allowed_friend_codes
            &&& room.maximum_viewers == maximum_viewers
            &&& room.created_at == created_at && room.expires_at == expires_at
            &&& room.presenter_digest == presenter_digest && room.viewer_digest == viewer_digest
            &&& room.keys == keys
            &&& room.lifecycle == RoomLifecycle::Open && room.sharing_state == SharingState::Idle
            &&& room.presenter is None && room.viewers.len() == 0 && room.outgoing.len() == 0
            &&& room.maximum_viewers_hard_limit == config.maximum_viewers_hard_limit
            &&& room.maximum_pending_viewers == config.maximum_pending_viewers
            &&& room.pending_viewer_ttl == config.pending_viewer_ttl
            &&& room.presenter_resume_grace == config.presenter_resume_grace
            &&& room.viewer_resume_grace == config.viewer_resume_grace
        }),
{
}

/// Each refusal has a code of its own on the wire, but for an identity that is
/// missing and a room that cannot be reached, which are told in general terms.
pub proof fn law_refusals_have_codes(a: DomainError, b: DomainError)
    ensures
        a.wire_code() == b.wire_code() ==> a == b,
        a is IdentityRequired <==> a.wire_code() is AuthenticationRequired,
        a is Unavailable <==> a.wire_code() is Internal,
        a is AuthenticationFailed <==> a.wire_code() is AuthenticationFailed,
        a is SessionExpired <==> a.wire_code() is SessionExpired,
        a is AuthorizationDenied <==> a.wire_code() is AuthorizationDenied,
        a is RoomFull <==> a.wire_code() is RoomFull,
        a is RoomExpired <==> a.wire_code() is RoomExpired,
        a is RoomClosed <==> a.wire_code() is RoomClosed,
        a is ViewerNotFound <==> a.wire_code() is ViewerNotFound,
        a is ViewerNotApproved <==> a.wire_code() is ViewerNotApproved,
        a is PendingViewerLimitReached <==> a.wire_code() is PendingViewerLimitReached,
        a is InvalidDestination <==> a.wire_code() is InvalidDestination,
        a is InvalidCapacity <==> a.wire_code() is InvalidCapacity,
        a is RoomNotFound <==> a.wire_code() is RoomNotFound,
        a is MessageTooLarge <==> a.wire_code() is MessageTooLarge,
{
}

/// The characters of a text that can be seen.
pub open spec fn visible(s: Seq<char>) -> Seq<char> {
    s.filter(|c: char| !text::white(c) && !text::control(c))
}

/// Spacing the words of a text anew keeps what is not white space.
proof fn lemma_spacing_keeps(s: Seq<char>, seen: spec_fn(char) -> bool)
    requires
        forall|c: char| text::white(c) ==> !#[trigger] seen(c),
        !seen(' '),
    ensures
        text::spaced(text::words(s)).filter(seen) == s.filter(seen),
    decreases s.len(),
{
    if s.len() == 0 {
        assert(text::spaced(text::words(s)) =~= s);
    } else {
        let init = s.drop_last();
        let c = s.last();
        let before = text::words(init);
        lemma_spacing_keeps(init, seen);
        assert(s =~= init.push(c));
        seqs::lemma_filter_push(init, c, seen);
        text::lemma_spaced_push(before, c);
        seqs::lemma_filter_push(text::spaced(before), c, seen);
        seqs::lemma_filter_push(text::spaced(before), ' ', seen);
        seqs::lemma_filter_push(text::spaced(before).push(' '), c, seen);
        seqs::lemma_filter_push(Seq::empty(), c, seen);
        assert(Seq::<char>::empty().push(c) =~= seq![c]);
        text::lemma_words_nonempty(init);
        if before.len() == 0 {
            assert(text::spaced(before) =~= Seq::<char>::empty());
        }
    }
}

/// A text has words exactly where it has something that is not white space.
proof fn lemma_some_words(s: Seq<char>, seen: spec_fn(char) -> bool)
    requires
        forall|i: int| 0 <= i < s.len() ==> (seen(#[trigger] s[i]) <==> !text::white(s[i])),
    ensures
        text::words(s).len() > 0 <==> s.filter(seen).len() > 0,
    decreases s.len(),
{
    if s.len() > 0 {
        let init = s.drop_last();
        assert forall|i: int| 0 <= i < init.len() implies (seen(#[trigger] init[i])
            <==> !text::white(init[i])) by {
            assert(init[i] == s[i]);
        }
        lemma_some_words(init, seen);
        assert(s =~= init.push(s.last()));
        assert(s.last() == s[s.len() - 1]);
        seqs::lemma_filter_push(init, s.last(), seen);
        text::lemma_words_nonempty(s);
        if !text::white(s.last()) {
            assert(text::words(s).len() > 0);
        }
    } else {
        assert(s.filter(seen) =~= Seq::<char>::empty());
    }
}

/// Words hold no white space.
proof fn lemma_word_shapes(s: Seq<char>)
    ensures
        forall|i: int, j: int|
            0 <= i < text::words(s).len() && 0 <= j < text::words(s)[i].len() ==> !text::white(
                #[trigger] text::words(s)[i][j],
            ),
    decreases s.len(),
{
    if s.len() > 0 {
        let init = s.drop_last();
        let before = text::words(init);
        let all = text::words(s);
        lemma_word_shapes(init);
        text::lemma_words_nonempty(init);
        assert forall|i: int, j: int| 0 <= i < all.len() && 0 <= j < all[i].len() implies !text::white(
            #[trigger] all[i][j],
        ) by {
            if i < before.len() && j < before[i].len() {
                assert(!text::white(before[i][j]));
            }
        }
    }
}

/// Of a display name the characters that can be seen are kept, in order, as far
/// as there is room; a name with none is not kept.
pub proof fn law_names_keep_what_is_seen(name: Seq<char>)
    ensures
        model::kept_name(name) is None <==> visible(name).len() == 0,
        model::kept_name(name) matches Some(kept) ==> kept.len() <= 48 && visible(kept)
            == visible(name).take(visible(kept).len() as int) && (kept.len() < 48 ==> visible(kept)
            == visible(name) && text::words(kept) == text::words(text::printable(name))),
{
    let seen = |c: char| !text::white(c) && !text::control(c);
    let clean = text::printable(name);
    let normal = text::spaced(text::words(clean));
    assert(text::white(' '));
    lemma_spacing_keeps(clean, seen);
    seqs::lemma_filter_twice(name, |c: char| !text::control(c), seen, seen);
    assert(visible(normal) == visible(name));
    text::lemma_words_nonempty(clean);
    seqs::lemma_filter_members(name, |c: char| !text::control(c));
    lemma_some_words(clean, seen);
    if normal.len() > 0 {
        let cut = if normal.len() <= 48 {
            normal
        } else {
            normal.take(48)
        };
        assert(normal =~= cut + normal.skip(cut.len() as int));
        seqs::lemma_filter_sum(cut, normal.skip(cut.len() as int), seen);
        assert(visible(normal) == visible(cut) + visible(normal.skip(cut.len() as int)));
        assert(visible(name).take(visible(cut).len() as int) =~= visible(cut));
        if cut.len() < 48 {
            lemma_word_shapes(clean);
            text_laws::law_spacing_is_undone_by_words(text::words(clean));
        }
    } else {
        assert(visible(normal) =~= Seq::<char>::empty());
    }
}

} // verus!
