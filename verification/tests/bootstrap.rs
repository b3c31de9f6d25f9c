use client_binding::client_binding_bootstrap::{
    read_version, read_wire, validate_bootstrap_with_verification, validate_bootstrap_wire,
    validate_client_binding_bootstrap_event, ClientBindingBootstrapBuildError,
    ClientBindingBootstrapError, ClientBindingBootstrapInputV1, ClientBindingBootstrapV1,
    ClientBindingEpoch, WireClientBindingBootstrapV1, CLIENT_BINDING_BOOTSTRAP_SUB_ID,
    CLIENT_BINDING_BOOTSTRAP_VERSION, CLIENT_BINDING_EPOCH_HEADER, CLIENT_BINDING_STATUS_SUB_ID,
    KIND_CLIENT_BINDING_BOOTSTRAP, MAX_CLIENT_BINDING_BOOTSTRAP_PAYLOAD_BYTES,
};
use client_binding::community::CommunityId;
use client_binding::event::{Event, PublicKey, RelayKeys};

const NOW: u64 = 2_000_000_000;
const DOMAIN: &str = "0123abcd-4567-89ef-0011-223344556677";
const DOMAIN_BYTES: [u8; 16] = [
    0x01, 0x23, 0xab, 0xcd, 0x45, 0x67, 0x89, 0xef, 0x00, 0x11, 0x22, 0x33, 0x44, 0x55, 0x66, 0x77,
];

fn relay() -> RelayKeys {
    RelayKeys::from_secret_bytes([1; 32]).expect("relay secret")
}

fn author() -> PublicKey {
    PublicKey { bytes: [0xab; 32] }
}

fn epoch() -> ClientBindingEpoch {
    ClientBindingEpoch::from_random_bytes([0x11; 32])
}

fn signed_at(issued_at: u64) -> Event {
    ClientBindingBootstrapInputV1::new(
        CommunityId::from_bytes(DOMAIN_BYTES),
        author(),
        epoch(),
        issued_at,
    )
    .expect("valid input")
    .sign_with_relay_keys(&relay())
    .expect("signs")
}

fn validate(event: &Event, now: u64) -> Result<ClientBindingBootstrapV1, ClientBindingBootstrapError> {
    validate_client_binding_bootstrap_event(event, &relay().public_key(), &epoch(), &author(), now)
}

fn error_of(event: &Event) -> ClientBindingBootstrapError {
    validate(event, NOW).err().expect("refused")
}

fn payload(version: &str, domain: &str, author: &str, epoch: &str, issued_at: &str) -> String {
    format!(
        "{{\"version\":{version},\"authorization_domain\":\"{domain}\",\"event_author_pubkey\":\"{author}\",\"connection_epoch\":\"{epoch}\",\"issued_at\":{issued_at}}}"
    )
}

fn good_payload() -> String {
    payload("1", DOMAIN, &"ab".repeat(32), &"11".repeat(32), "2000000000")
}

fn sign_content(content: &str) -> Event {
    relay()
        .sign(KIND_CLIENT_BINDING_BOOTSTRAP as u16, content, NOW)
        .expect("signs")
}

#[test]
fn constants_have_their_wire_values() {
    assert_eq!(CLIENT_BINDING_EPOCH_HEADER, "x-buzz-client-binding-epoch-v1");
    assert_eq!(CLIENT_BINDING_BOOTSTRAP_SUB_ID, "__buzz_client_binding_bootstrap_v1__");
    assert_eq!(CLIENT_BINDING_STATUS_SUB_ID, "__buzz_client_binding_status_v1__");
    assert_eq!(CLIENT_BINDING_BOOTSTRAP_VERSION, 1);
    assert_eq!(MAX_CLIENT_BINDING_BOOTSTRAP_PAYLOAD_BYTES, 1024);
    assert_eq!(KIND_CLIENT_BINDING_BOOTSTRAP, 24245);
}

#[test]
fn epoch_is_lowercase_hex_of_its_bytes() {
    let mut bytes = [0_u8; 32];
    bytes[0] = 0xf0;
    bytes[31] = 0x0a;
    let epoch = ClientBindingEpoch::from_random_bytes(bytes);
    assert_eq!(epoch.as_str(), format!("f0{}0a", "00".repeat(30)));
}

#[test]
fn epoch_round_trips_through_its_text() {
    let epoch = ClientBindingEpoch::from_random_bytes([0x5c; 32]);
    let parsed = ClientBindingEpoch::parse(epoch.as_str()).expect("canonical");
    assert!(parsed.is_same(&epoch));
    assert_eq!(parsed.as_str(), "5c".repeat(32));
    assert!(epoch.clone().is_same(&epoch));
}

#[test]
fn epochs_of_different_bytes_are_different() {
    let one = ClientBindingEpoch::from_random_bytes([0x11; 32]);
    let two = ClientBindingEpoch::from_random_bytes([0x12; 32]);
    assert!(!one.is_same(&two));
    assert!(one != two);
}

#[test]
fn epoch_parse_refuses_other_forms() {
    let upper = "AB".repeat(32);
    let short = "ab".repeat(31);
    let long = format!("{}0", "ab".repeat(32));
    let letters = "g".repeat(64);
    let wide = "\u{e9}".repeat(32);
    for text in ["", upper.as_str(), short.as_str(), long.as_str(), letters.as_str(), wide.as_str()] {
        assert_eq!(
            ClientBindingEpoch::parse(text).err(),
            Some(ClientBindingBootstrapError::InvalidConnectionEpoch)
        );
    }
}

#[test]
fn debug_texts_show_no_value() {
    assert_eq!(epoch().debug_text(), "ClientBindingEpoch(\"[redacted]\")");
    let bootstrap = validate(&signed_at(NOW), NOW).expect("valid");
    assert_eq!(
        bootstrap.debug_text(),
        "ClientBindingBootstrapV1 { authorization_domain: \"[redacted]\", event_author_pubkey: \"[redacted]\", connection_epoch: \"[redacted]\", issued_at: \"[redacted]\" }"
    );
    let input = ClientBindingBootstrapInputV1::new(
        CommunityId::from_bytes(DOMAIN_BYTES),
        author(),
        epoch(),
        NOW,
    )
    .expect("valid input");
    assert_eq!(
        input.debug_text(),
        "ClientBindingBootstrapInputV1 { authorization_domain: \"[redacted]\", event_author_pubkey: \"[redacted]\", connection_epoch: \"[redacted]\", issued_at: \"[redacted]\" }"
    );
}

#[test]
fn relay_keys_derive_the_public_key() {
    assert_eq!(
        relay().public_key().to_hex(),
        "1b84c5567b126440995d3ed5aaba0565d71e1834604819ff9c17f5e9d5dd078f"
    );
    assert!(RelayKeys::from_secret_bytes([0; 32]).is_none());
    assert!(RelayKeys::from_secret_bytes([0xff; 32]).is_none());
}

#[test]
fn community_text_is_hyphenated() {
    let community = CommunityId::from_bytes(DOMAIN_BYTES);
    assert_eq!(community.to_text(), DOMAIN);
    assert_eq!(community.to_bytes(), DOMAIN_BYTES);
    assert!(!community.is_nil());
    assert!(CommunityId::from_bytes([0; 16]).is_nil());
    assert!(CommunityId::parse_canonical(DOMAIN) == Some(community));
}

#[test]
fn community_parse_takes_the_canonical_text_only() {
    let upper = DOMAIN.to_uppercase();
    let plain = DOMAIN.replace('-', "");
    let braced = format!("{{{DOMAIN}}}");
    let urn = format!("urn:uuid:{DOMAIN}");
    for text in [
        upper.as_str(),
        plain.as_str(),
        braced.as_str(),
        urn.as_str(),
        "",
        "00000000-0000-0000-0000-000000000000",
        "0123abcd-4567-89ef-0011-22334455667g",
    ] {
        assert!(CommunityId::parse_canonical(text).is_none(), "{text}");
    }
}

#[test]
fn input_refuses_nil_domain_and_zero_time() {
    let nil = CommunityId::from_bytes([0; 16]);
    let community = CommunityId::from_bytes(DOMAIN_BYTES);
    assert_eq!(
        ClientBindingBootstrapInputV1::new(nil, author(), epoch(), 0).err(),
        Some(ClientBindingBootstrapError::InvalidAuthorizationDomain)
    );
    assert_eq!(
        ClientBindingBootstrapInputV1::new(community, author(), epoch(), 0).err(),
        Some(ClientBindingBootstrapError::InvalidIssueTime)
    );
    assert!(ClientBindingBootstrapInputV1::new(community, author(), epoch(), 1).is_ok());
}

#[test]
fn signed_event_has_the_exact_payload() {
    let event = signed_at(NOW);
    assert_eq!(event.content, good_payload());
    assert_eq!(event.kind, 24245);
    assert_eq!(event.created_at, NOW);
    assert!(event.tags.is_empty());
    assert_eq!(event.pubkey, relay().public_key());
    assert!(event.verify());
}

#[test]
fn signed_bootstrap_validates_on_its_connection() {
    let event = signed_at(NOW);
    for now in [NOW, NOW + 1, u64::MAX] {
        let bootstrap = validate(&event, now).expect("validates");
        assert_eq!(bootstrap.authorization_domain().to_bytes(), DOMAIN_BYTES);
        assert_eq!(bootstrap.event_author_pubkey(), author());
        assert_eq!(bootstrap.connection_epoch().as_str(), "11".repeat(32));
        assert_eq!(bootstrap.issued_at(), NOW);
        assert!(bootstrap.clone() == bootstrap);
    }
    assert!(validate(&signed_at(u64::MAX), u64::MAX).is_ok());
    assert!(validate(&signed_at(1), NOW).is_ok());
}

#[test]
fn signed_bootstrap_is_refused_on_other_connections() {
    let event = signed_at(NOW);
    let other = PublicKey { bytes: [0xcd; 32] };
    let other_epoch = ClientBindingEpoch::from_random_bytes([0x22; 32]);
    let key = relay().public_key();
    assert_eq!(
        validate_client_binding_bootstrap_event(&event, &other, &epoch(), &author(), NOW).err(),
        Some(ClientBindingBootstrapError::UnexpectedRelay)
    );
    assert_eq!(
        validate_client_binding_bootstrap_event(&event, &key, &epoch(), &other, NOW).err(),
        Some(ClientBindingBootstrapError::EventAuthorMismatch)
    );
    assert_eq!(
        validate_client_binding_bootstrap_event(&event, &key, &other_epoch, &author(), NOW).err(),
        Some(ClientBindingBootstrapError::ConnectionEpochMismatch)
    );
    assert_eq!(
        validate(&event, NOW - 1).err(),
        Some(ClientBindingBootstrapError::NotYetValid)
    );
}

#[test]
fn envelope_errors_come_in_order() {
    let wrong_kind = relay().sign(24244, &good_payload(), NOW).expect("signs");
    assert_eq!(error_of(&wrong_kind), ClientBindingBootstrapError::WrongKind);

    let bound = "x".repeat(1024);
    let over = "x".repeat(1025);
    let wide = "\u{e9}".repeat(513);
    assert_eq!(error_of(&sign_content(&over)), ClientBindingBootstrapError::PayloadTooLarge);
    assert_eq!(error_of(&sign_content(&wide)), ClientBindingBootstrapError::PayloadTooLarge);
    assert_eq!(error_of(&sign_content(&bound)), ClientBindingBootstrapError::MalformedPayload);

    let mut forged = signed_at(NOW);
    forged.id[0] ^= 1;
    assert_eq!(error_of(&forged), ClientBindingBootstrapError::UnauthenticatedEvent);
    let mut resigned = signed_at(NOW);
    resigned.sig[5] ^= 1;
    assert_eq!(error_of(&resigned), ClientBindingBootstrapError::UnauthenticatedEvent);
    let mut altered = signed_at(NOW);
    altered.created_at += 1;
    assert_eq!(error_of(&altered), ClientBindingBootstrapError::UnauthenticatedEvent);
    let mut tagged = signed_at(NOW);
    tagged.tags = vec![vec!["d".to_string()]];
    assert_eq!(error_of(&tagged), ClientBindingBootstrapError::UnauthenticatedEvent);
    tagged.tags = vec![vec![]];
    assert_eq!(error_of(&tagged), ClientBindingBootstrapError::UnauthenticatedEvent);
}

#[test]
fn tags_are_refused_once_the_event_is_authentic() {
    let keys = nostr::Keys::new(nostr::SecretKey::from_slice(&[1; 32]).expect("secret"));
    let signed = nostr::EventBuilder::new(nostr::Kind::Custom(24245), good_payload())
        .tags([nostr::Tag::parse(["d", "x"]).expect("tag")])
        .custom_created_at(nostr::Timestamp::from(NOW))
        .sign_with_keys(&keys)
        .expect("signs");
    let json = serde_json::to_string(&signed).expect("serializes");
    let event = Event::from_json(&json).expect("parses");
    assert!(event.verify());
    assert_eq!(event.tags, vec![vec!["d".to_string(), "x".to_string()]]);
    assert_eq!(error_of(&event), ClientBindingBootstrapError::UnexpectedTags);
}

#[test]
fn verification_result_decides_after_size_and_kind() {
    let event = signed_at(NOW);
    let key = relay().public_key();
    assert_eq!(
        validate_bootstrap_with_verification(&event, false, &key, &epoch(), &author(), NOW).err(),
        Some(ClientBindingBootstrapError::UnauthenticatedEvent)
    );
    assert!(
        validate_bootstrap_with_verification(&event, true, &key, &epoch(), &author(), NOW).is_ok()
    );
}

#[test]
fn malformed_payloads_are_refused() {
    let ab = "ab".repeat(32);
    let e = "11".repeat(32);
    let good = good_payload();
    let unknown = good.replace("\"version\":1", "\"version\":1,\"extra\":null");
    let missing = good.replace(",\"issued_at\":2000000000", "");
    let twice = good.replace("\"version\":1", "\"version\":1,\"version\":1");
    let twice_other = good.replace("\"issued_at\":", "\"issued_at\":2000000000,\"issued_at\":");
    let array = format!("[1,\"{DOMAIN}\",\"{ab}\",\"{e}\",2000000000]");
    let trailing = format!("{good}x");
    let comma = good.replace("2000000000}", "2000000000,}");
    let number = payload("1", DOMAIN, &ab, &e, "\"2000000000\"");
    let float = payload("1", DOMAIN, &ab, &e, "2000000000.0");
    let negative = payload("1", DOMAIN, &ab, &e, "-1");
    let big = payload("1", DOMAIN, &ab, &e, "18446744073709551616");
    let zero = payload("01", DOMAIN, &ab, &e, "2000000000");
    let text_version = payload("\"1\"", DOMAIN, &ab, &e, "2000000000");
    let domain_number = good.replace(&format!("\"{DOMAIN}\""), "7");
    for content in [
        "", "{}", "[]", "[1]", "[1,2]", "null", "1", "{", "{\"version\"}", "{\"version\":}",
        "{\"version\":1}", "{version:1}", "{\"version\":1,}",
        unknown.as_str(), missing.as_str(), twice.as_str(), twice_other.as_str(), array.as_str(),
        trailing.as_str(), comma.as_str(), number.as_str(), float.as_str(), negative.as_str(),
        big.as_str(), zero.as_str(), text_version.as_str(), domain_number.as_str(),
    ] {
        assert_eq!(
            error_of(&sign_content(content)),
            ClientBindingBootstrapError::MalformedPayload,
            "{content}"
        );
    }
}

#[test]
fn version_is_looked_at_before_the_other_fields() {
    for content in ["{\"version\":2}", "[2]", " [ 2 ] ", "{\"version\":0,\"version2\":{\"a\":[1,\"x\"]}}"] {
        assert_eq!(
            error_of(&sign_content(content)),
            ClientBindingBootstrapError::UnsupportedVersion,
            "{content}"
        );
    }
    let two = good_payload().replace("\"version\":1", "\"version\":2");
    assert_eq!(error_of(&sign_content(&two)), ClientBindingBootstrapError::UnsupportedVersion);
    assert_eq!(read_version(b"{\"version\":7,\"other\":\"\\n\"}"), Some(7));
    assert_eq!(read_version(b"[18446744073709551615]"), Some(u64::MAX));
    assert_eq!(read_version(b"{\"other\":7}"), None);
}

#[test]
fn spaces_order_and_escapes_do_not_matter() {
    let ab = "ab".repeat(32);
    let e = "11".repeat(32);
    let content = format!(
        " {{ \"issued_at\" : 2000000000 ,\n\"connection_epoch\":\"{e}\",\t\"event_author_pubkey\":\"{ab}\",\"authorization_domain\":\"{DOMAIN}\",\"ver\\u0073ion\":1}} "
    );
    assert!(validate(&sign_content(&content), NOW).is_ok());
    let escaped = good_payload().replace("\"11", "\"\\u00311");
    assert!(validate(&sign_content(&escaped), NOW).is_ok());
}

#[test]
fn field_errors_come_in_order() {
    let ab = "ab".repeat(32);
    let e = "11".repeat(32);
    let upper_domain = DOMAIN.to_uppercase();
    let nil = "00000000-0000-0000-0000-000000000000";
    for domain in [upper_domain.as_str(), nil, "", "x", "0123abcd456789ef0011223344556677"] {
        let content = payload("1", domain, "x", "x", "0");
        assert_eq!(
            error_of(&sign_content(&content)),
            ClientBindingBootstrapError::InvalidAuthorizationDomain,
            "{domain}"
        );
    }
    let upper_author = "AB".repeat(32);
    for author in ["", "x", upper_author.as_str()] {
        let content = payload("1", DOMAIN, author, "x", "0");
        assert_eq!(
            error_of(&sign_content(&content)),
            ClientBindingBootstrapError::InvalidEventAuthorPubkey
        );
    }
    let cases = [
        (payload("1", DOMAIN, &"cd".repeat(32), "x", "0"), ClientBindingBootstrapError::EventAuthorMismatch),
        (payload("1", DOMAIN, &ab, "x", "0"), ClientBindingBootstrapError::InvalidConnectionEpoch),
        (payload("1", DOMAIN, &ab, &"22".repeat(32), "0"), ClientBindingBootstrapError::ConnectionEpochMismatch),
        (payload("1", DOMAIN, &ab, &e, "0"), ClientBindingBootstrapError::InvalidIssueTime),
        (payload("1", DOMAIN, &ab, &e, "1999999999"), ClientBindingBootstrapError::EventTimeMismatch),
    ];
    for (content, expected) in cases {
        assert_eq!(error_of(&sign_content(&content)), expected);
    }
}

#[test]
fn wire_fields_are_read_and_checked() {
    let wire = read_wire(good_payload().as_bytes()).expect("five members");
    assert_eq!(wire.version, 1);
    assert_eq!(wire.authorization_domain, DOMAIN);
    assert_eq!(wire.event_author_pubkey, "ab".repeat(32));
    assert_eq!(wire.connection_epoch, "11".repeat(32));
    assert_eq!(wire.issued_at, NOW);
    assert!(validate_bootstrap_wire(&wire, NOW, &epoch(), &author(), NOW).is_ok());
    assert_eq!(
        validate_bootstrap_wire(&wire, NOW + 1, &epoch(), &author(), NOW).err(),
        Some(ClientBindingBootstrapError::EventTimeMismatch)
    );
    assert_eq!(
        validate_bootstrap_wire(&wire, NOW, &epoch(), &author(), NOW - 1).err(),
        Some(ClientBindingBootstrapError::NotYetValid)
    );
    let zero = WireClientBindingBootstrapV1 { issued_at: 0, ..wire };
    assert_eq!(
        validate_bootstrap_wire(&zero, 0, &epoch(), &author(), NOW).err(),
        Some(ClientBindingBootstrapError::InvalidIssueTime)
    );
}

#[test]
fn errors_have_their_texts() {
    assert_eq!(
        ClientBindingBootstrapError::WrongKind.message(),
        "client binding bootstrap event has the wrong kind"
    );
    assert_eq!(
        ClientBindingBootstrapError::NotYetValid.message(),
        "client binding bootstrap is not yet valid"
    );
    assert_eq!(
        ClientBindingBootstrapError::ConnectionEpochMismatch.message(),
        "client binding bootstrap connection epoch does not match"
    );
    assert_eq!(
        ClientBindingBootstrapBuildError::Serialization.message(),
        "client binding bootstrap serialization failed"
    );
    assert_eq!(
        ClientBindingBootstrapBuildError::PayloadTooLarge.message(),
        "client binding bootstrap payload is too large"
    );
    assert_eq!(
        ClientBindingBootstrapBuildError::Signing.message(),
        "client binding bootstrap signing failed"
    );
}

#[test]
fn key_text_is_canonical_only_in_lower_case() {
    assert_eq!(author().to_hex(), "ab".repeat(32));
    assert_eq!(PublicKey::parse_canonical(&"ab".repeat(32)), Some(author()));
    assert!(PublicKey::parse_canonical(&"AB".repeat(32)).is_none());
    assert!(PublicKey::parse_canonical(&"ab".repeat(31)).is_none());
}
