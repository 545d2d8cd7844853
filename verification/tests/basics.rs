use std::collections::HashSet;

use base64::Engine;
use clarity::clock::{
    ago_compact, format_time, rfc3339_time, time_text, whole_unix_seconds, Clock, SystemClock,
    MIN_TIMESTAMP, NANOS_PER_SECOND,
};
use clarity::crypto::{secret_as_str, token_of, Secret, SecretDigestService};
use clarity::sorting::dedup_texts;
use clarity::text;
use clarity::textset::TextSet;
use clarity::turn::{ice_configuration, turn_username, TurnConfig, TurnCredentialService};
use hmac::{Hmac, Mac};

fn service() -> SecretDigestService {
    SecretDigestService::new(
        Secret::new("room-key-with-at-least-32-bytes-long".to_owned()),
        Secret::new("resume-key-with-at-least-32-bytes".to_owned()),
    )
}

#[test]
fn ago_compact_picks_the_largest_whole_unit() {
    assert_eq!(ago_compact(0), "now");
    assert_eq!(ago_compact(59), "now");
    assert_eq!(ago_compact(60), "1m");
    assert_eq!(ago_compact(2 * 60 * 60 + 40 * 60), "2h");
    assert_eq!(ago_compact(6 * 24 * 60 * 60 + 3600), "6d");
}

#[test]
fn generated_values_have_required_entropy_lengths_and_are_unique() {
    let service = service();
    let mut room_ids = HashSet::new();
    let mut secrets = HashSet::new();
    for _ in 0..128 {
        let generated = service.generate_room_secrets();
        assert_eq!(generated.room_id.len(), 16);
        assert!(secret_as_str(&generated.presenter_secret).len() >= 43);
        assert!(secret_as_str(&generated.viewer_secret).len() >= 43);
        assert!(room_ids.insert(generated.room_id));
        assert!(secrets.insert(secret_as_str(&generated.presenter_secret).to_owned()));
    }
}

#[test]
fn digest_domains_are_separated_and_compare_in_constant_time() {
    let service = service();
    let secret = Secret::new("same-secret".to_owned());
    let presenter = service.presenter_digest(&secret);
    let viewer = service.viewer_digest(&secret);
    let resume = service.resume_digest(&secret);
    assert!(!service.verify(&presenter, &viewer));
    assert!(!service.verify(&viewer, &resume));
    assert!(service.verify(&presenter, &service.presenter_digest(&secret)));
    assert!(!service.verify(&presenter, &viewer));
}

#[test]
fn public_identifiers_are_url_safe() {
    for _ in 0..64 {
        let id = service().generate_room_secrets().room_id;
        assert!(id
            .chars()
            .all(|character| character.is_ascii_alphanumeric() || character == '-' || character == '_'));
    }
}

#[test]
fn tokens_are_unpadded_base64() {
    assert_eq!(token_of(&vec![0xfb, 0xff]), "-_8");
    assert_eq!(token_of(&vec![0; 12]).len(), 16);
    assert_eq!(service().generate_peer_id().len(), 16);
    assert_eq!(secret_as_str(&service().generate_resume_token()).len(), 43);
}

#[test]
fn issues_coturn_rest_credentials_with_exact_expiry() {
    let service = TurnCredentialService::new(TurnConfig {
        urls: vec!["turn:turn.example.test:3478?transport=udp".into()],
        shared_secret: Secret::new("shared-secret".to_owned()),
        credential_ttl: 3600 * NANOS_PER_SECOND,
    });
    let now = 1_700_000_000 * NANOS_PER_SECOND;
    let configuration = service.issue("peer-1", now).ok().expect("formats");
    assert_eq!(
        configuration.ice_servers[0].username.as_deref(),
        Some("1700003600:peer-1")
    );
    assert!(!configuration.ice_servers[0].credential.as_deref().unwrap_or_default().is_empty());
    assert_eq!(configuration.expires_at, "2023-11-14T23:13:20Z");
}

#[test]
fn credentials_are_the_keyed_digest_of_the_user_name() {
    let service = TurnCredentialService::new(TurnConfig {
        urls: vec!["turn:host".into(), "turns:host".into()],
        shared_secret: Secret::new("shared-secret".to_owned()),
        credential_ttl: 3600 * NANOS_PER_SECOND,
    });
    let configuration =
        service.issue("peer-1", 1_700_000_000 * NANOS_PER_SECOND).ok().expect("formats");
    let mut digest = Hmac::<sha1::Sha1>::new_from_slice(b"shared-secret").expect("key");
    digest.update(b"1700003600:peer-1");
    let expected =
        base64::engine::general_purpose::STANDARD.encode(digest.finalize().into_bytes());
    assert_eq!(configuration.ice_servers[0].credential.as_deref(), Some(expected.as_str()));
    assert_eq!(configuration.ice_servers[0].urls, ["turn:host", "turns:host"]);
    assert_eq!(expected.len(), 28);
}

#[test]
fn secrets_are_redacted_in_logs() {
    let config = TurnConfig {
        urls: vec!["turn:host".into(), "a\"b".into()],
        shared_secret: Secret::new("shared-secret".to_owned()),
        credential_ttl: 3600 * NANOS_PER_SECOND + 5,
    };
    let shown = "TurnConfig { urls: [\"turn:host\", \"a\\\"b\"], shared_secret: \"[REDACTED]\", \
                 credential_ttl: SignedDuration { seconds: 3600, nanoseconds: 5 } }";
    assert_eq!(config.describe(), shown);
    let short = TurnConfig {
        urls: Vec::new(),
        shared_secret: Secret::new("shared-secret".to_owned()),
        credential_ttl: -1_500_000_000,
    };
    assert_eq!(
        short.describe(),
        "TurnConfig { urls: [], shared_secret: \"[REDACTED]\", credential_ttl: SignedDuration { \
         seconds: -1, nanoseconds: -500000000 } }"
    );
    assert_eq!(
        TurnCredentialService::new(config).describe(),
        format!("TurnCredentialService {{ config: {shown} }}")
    );
    let secrets = service();
    assert_eq!(secrets.describe(), "SecretDigestService([REDACTED])");
    let generated = secrets.generate_room_secrets();
    assert_eq!(
        generated.describe(),
        format!(
            "GeneratedRoomSecrets {{ room_id: \"{}\", presenter_secret: \"[REDACTED]\", \
             viewer_secret: \"[REDACTED]\" }}",
            generated.room_id
        )
    );
    let digest = secrets.viewer_digest(&generated.viewer_secret);
    assert_eq!(digest.describe(), "SecretDigest([REDACTED])");
}

#[test]
fn a_credential_needs_a_date() {
    assert_eq!(turn_username(-1, "p"), "-1:p");
    assert!(ice_configuration(&Vec::new(), "u".into(), "c".into(), None).is_err());
}

#[test]
fn times_are_written_as_rfc3339_or_in_seconds() {
    assert_eq!(format_time(1_700_000_000 * NANOS_PER_SECOND), "2023-11-14T22:13:20Z");
    assert_eq!(rfc3339_time(0).as_deref(), Some("1970-01-01T00:00:00Z"));
    assert_eq!(rfc3339_time(MIN_TIMESTAMP), None);
    assert_eq!(format_time(MIN_TIMESTAMP), "-377705116800");
    assert_eq!(time_text(None, 1_500_000_000), "1");
    assert_eq!(whole_unix_seconds(-1), -1);
    assert_eq!(whole_unix_seconds(1_999_999_999), 1);
}

#[test]
fn the_system_clock_moves_on() {
    let first = SystemClock.now();
    let second = SystemClock.now();
    assert!(first <= second);
    assert!(first > 1_600_000_000 * NANOS_PER_SECOND);
}

#[test]
fn texts_are_taken_apart_and_put_together() {
    assert_eq!(text::decimal_text(0), "0");
    assert_eq!(text::decimal_text(u64::MAX), "18446744073709551615");
    assert_eq!(
        text::long_decimal_text(u128::MAX),
        "340282366920938463463374607431768211455"
    );
    assert_eq!(text::signed_decimal_text(i64::MIN), "-9223372036854775808");
    assert_eq!(text::trimmed(" \u{3000}a b\n"), "a b");
    assert_eq!(text::words_of("  one\ttwo  "), ["one", "two"]);
    assert_eq!(text::split_at("a::b", ':'), ["a", "", "b"]);
    assert_eq!(text::join(&vec!["a".to_owned(), "b".to_owned()], ", "), "a, b");
    assert_eq!(text::after_prefix("/deny x", "/deny ").as_deref(), Some("x"));
    assert_eq!(text::after_prefix("deny", "/deny "), None);
    assert!(text::is_same_ascii("Öster", "ÖSTER"));
    assert!(!text::is_same_ascii("öster", "ÖSTER"));
    assert!(text::is_text_le("a", "a"));
    assert!(!text::is_text_le("b", "a"));
    assert_eq!(text::first_chars("čšž", 2), "čš");
    assert_eq!(text::two_digit_text(7), "07");
    assert_eq!(text::runs_of("a.b, c", &vec!['.', ',', ' ']), ["a", "b", "c"]);
}

#[test]
fn sets_keep_the_first_of_each() {
    let set = TextSet::of(&vec!["b".to_owned(), "a".to_owned(), "b".to_owned()]);
    assert_eq!(set.to_vec(), ["b", "a"]);
    assert!(set.contains("a"));
    assert!(!set.contains("c"));
    let repeated = vec!["a".to_owned(), "a".to_owned(), "b".to_owned()];
    assert_eq!(dedup_texts(&repeated), ["a", "b"]);
}
