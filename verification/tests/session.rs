use client_binding::client_binding_bootstrap::{
    ClientBindingBootstrapInputV1, ClientBindingEpoch, CLIENT_BINDING_BOOTSTRAP_SUB_ID,
    CLIENT_BINDING_STATUS_SUB_ID,
};
use client_binding::client_binding_status_session::{
    is_reserved_text, reserved_channel, ClientBindingStatusSession, CurrentProjection,
    ProjectionUpdate, ReservedChannel, ReservedEvent, ReservedFrame, SessionStep, StatusOutcome,
};
use client_binding::community::CommunityId;
use client_binding::event::{Event, PublicKey, RelayKeys};
use client_binding::json::JsonElement;

const NOW: u64 = 2_000_000_000;
const STATUS_KIND: u16 = 24244;
const ORDINARY_SUB_ID: &str = "synthetic-ordinary-events";

fn keys(seed: u8) -> RelayKeys {
    RelayKeys::from_secret_bytes([seed; 32]).expect("secret")
}

fn nostr_keys(seed: u8) -> nostr::Keys {
    nostr::Keys::new(nostr::SecretKey::from_slice(&[seed; 32]).expect("secret"))
}

fn epoch(seed: u8) -> ClientBindingEpoch {
    ClientBindingEpoch::from_random_bytes([seed; 32])
}

fn domain(seed: u8) -> CommunityId {
    CommunityId::from_bytes([seed; 16])
}

fn event_json(event: &Event) -> String {
    format!(
        "{{\"id\":\"{}\",\"pubkey\":\"{}\",\"created_at\":{},\"kind\":{},\"tags\":{},\"content\":{},\"sig\":\"{}\"}}",
        hex::encode(event.id),
        event.pubkey.to_hex(),
        event.created_at,
        event.kind,
        serde_json::to_string(&event.tags).expect("tags"),
        serde_json::to_string(&event.content).expect("content"),
        hex::encode(event.sig),
    )
}

fn frame(sub_id: &str, event: &Event) -> String {
    format!("[\"EVENT\",\"{sub_id}\",{}]", event_json(event))
}

fn bootstrap(
    relay: &RelayKeys,
    domain: CommunityId,
    author: PublicKey,
    epoch: ClientBindingEpoch,
    issued_at: u64,
) -> Event {
    ClientBindingBootstrapInputV1::new(domain, author, epoch, issued_at)
        .expect("construct bootstrap")
        .sign_with_relay_keys(relay)
        .expect("sign bootstrap")
}

fn status(relay: &RelayKeys, content: &str, issued_at: u64) -> Event {
    relay.sign(STATUS_KIND, content, issued_at).expect("sign status")
}

fn copy(event: &Event) -> Event {
    Event::from_json(&event_json(event)).expect("event")
}

/// A session, what it shows, and the scope of its tracker.
struct Flow {
    session: ClientBindingStatusSession,
    projection: Option<CurrentProjection>,
    opened: Option<CommunityId>,
}

impl Flow {
    fn connect(relay: PublicKey, author: PublicKey, epoch: ClientBindingEpoch) -> Flow {
        Flow {
            session: ClientBindingStatusSession::new(relay, author, epoch),
            projection: None,
            opened: None,
        }
    }

    fn apply(&mut self, update: ProjectionUpdate) {
        match update {
            ProjectionUpdate::Unchanged => {}
            ProjectionUpdate::Clear => self.projection = None,
            ProjectionUpdate::Current(projection) => self.projection = Some(projection),
        }
    }

    fn send(&mut self, sub_id: &str, event: &Event, outcome: StatusOutcome, now: u64) -> bool {
        match self.session.consume_text(&frame(sub_id, event), now) {
            None => false,
            Some(SessionStep::Project(update)) => {
                self.apply(update);
                true
            }
            Some(SessionStep::OpenTracker(scope)) => {
                self.opened = Some(scope.authorization_domain);
                true
            }
            Some(SessionStep::FoldStatus(folded)) => {
                assert_eq!(folded.id, event.id);
                assert_eq!(folded.content, event.content);
                let update = self.session.fold_status(outcome);
                self.apply(update);
                true
            }
        }
    }

    fn send_ordinary(&mut self, event: &nostr::Event, now: u64) -> bool {
        let event = serde_json::to_string(event).expect("serialize synthetic Nostr event");
        let text = format!("[\"EVENT\",\"{ORDINARY_SUB_ID}\",{event}]");
        self.session.consume_text(&text, now).is_some()
    }

    fn bootstrap(&mut self, event: &Event, now: u64) {
        assert!(self.send(CLIENT_BINDING_BOOTSTRAP_SUB_ID, event, StatusOutcome::Rejected, now));
    }

    fn status(&mut self, event: &Event, outcome: StatusOutcome, now: u64) {
        assert!(self.send(CLIENT_BINDING_STATUS_SUB_ID, event, outcome, now));
    }

    fn expire(&mut self, now: u64) {
        let update = self.session.expire(now);
        self.apply(update);
    }

    fn disconnect(&mut self) {
        let update = self.session.disconnect();
        self.apply(update);
    }
}

fn established(relay: &RelayKeys, author: PublicKey, seed: u8, now: u64) -> Flow {
    let mut flow = Flow::connect(relay.public_key(), author, epoch(seed));
    flow.bootstrap(&bootstrap(relay, domain(7), author, epoch(seed), now), now);
    flow.status(&status(relay, "current", now), StatusOutcome::Accepted(Some(now + 120)), now);
    assert!(flow.projection.is_some());
    flow
}

#[test]
fn loopback_relay_drives_production_projection_and_trace() {
    let relay = keys(1);
    let wrong_signer = keys(2);
    let author = keys(3).public_key();
    let other_author = keys(4).public_key();
    let mut trace: Vec<(&str, bool)> = Vec::new();

    let mut flow = Flow::connect(relay.public_key(), author, epoch(0x11));
    flow.bootstrap(&bootstrap(&relay, domain(7), author, epoch(0x11), NOW), NOW);
    assert!(flow.opened == Some(domain(7)));
    trace.push(("bootstrap", flow.projection.is_some()));

    let current = status(&relay, "10", NOW);
    flow.status(&current, StatusOutcome::Accepted(Some(NOW + 120)), NOW);
    let first = flow.projection.clone();
    let projected = flow.projection.as_ref().expect("current status projects");
    assert_eq!(projected.event_author_pubkey, author.to_hex());
    assert_eq!(projected.fresh_until, NOW + 120);
    assert_eq!(projected.connection_epoch, "11".repeat(32));
    trace.push(("current", flow.projection.is_some()));

    flow.status(&current, StatusOutcome::Duplicate, NOW);
    assert_eq!(flow.projection, first);
    trace.push(("duplicate", flow.projection.is_some()));

    flow.status(&status(&relay, "10 again", NOW), StatusOutcome::Rejected, NOW);
    assert!(flow.projection.is_none());
    trace.push(("equal-conflict", flow.projection.is_some()));

    flow.status(&status(&relay, "9", NOW), StatusOutcome::Rejected, NOW);
    assert!(flow.projection.is_none());
    trace.push(("rollback", flow.projection.is_some()));

    flow.status(&status(&relay, "11", NOW), StatusOutcome::Accepted(Some(NOW + 120)), NOW);
    assert!(flow.projection.is_some());
    trace.push(("newer-restoration", flow.projection.is_some()));

    flow.status(&status(&relay, "12", NOW), StatusOutcome::Accepted(None), NOW);
    assert!(flow.projection.is_none());
    trace.push(("withdrawal", flow.projection.is_some()));

    flow.status(&status(&relay, "13", NOW), StatusOutcome::Accepted(Some(NOW + 2)), NOW);
    assert!(flow.projection.is_some());
    flow.expire(NOW + 1);
    assert!(flow.projection.is_some());
    flow.expire(NOW + 2);
    assert!(flow.projection.is_none());
    trace.push(("passive-expiry", flow.projection.is_some()));

    flow.status(&status(&relay, "14", NOW + 3), StatusOutcome::Accepted(Some(NOW + 123)), NOW + 3);
    assert!(flow.projection.is_some());
    flow.disconnect();
    assert!(flow.projection.is_none());
    trace.push(("disconnect", flow.projection.is_some()));

    let mut reconnected = established(&relay, author, 0x12, NOW + 10);
    trace.push(("reconnect", reconnected.projection.is_some()));
    reconnected.disconnect();
    trace.push(("logout", reconnected.projection.is_some()));

    let mut restarted = established(&relay, author, 0x13, NOW + 20);
    restarted.disconnect();
    trace.push(("restart", restarted.projection.is_some()));

    let relay_scope = Flow::connect(relay.public_key(), author, epoch(0x14));
    trace.push(("relay-scope-change", relay_scope.projection.is_some()));

    let mut signer_scope = Flow::connect(wrong_signer.public_key(), author, epoch(0x15));
    signer_scope.bootstrap(&bootstrap(&relay, domain(7), author, epoch(0x15), NOW + 30), NOW + 30);
    assert!(signer_scope.opened.is_none());
    trace.push(("signer-scope-change", signer_scope.projection.is_some()));

    let mut author_scope = Flow::connect(relay.public_key(), other_author, epoch(0x16));
    author_scope.bootstrap(&bootstrap(&relay, domain(7), author, epoch(0x16), NOW + 31), NOW + 31);
    assert!(author_scope.opened.is_none());
    trace.push(("author-scope-change", author_scope.projection.is_some()));

    let mut domain_scope = Flow::connect(relay.public_key(), author, epoch(0x17));
    domain_scope.bootstrap(&bootstrap(&relay, domain(8), author, epoch(0x17), NOW + 32), NOW + 32);
    assert!(domain_scope.opened == Some(domain(8)));
    domain_scope.status(&status(&relay, "1", NOW + 32), StatusOutcome::Rejected, NOW + 32);
    trace.push(("domain-scope-change", domain_scope.projection.is_some()));

    let mut epoch_scope = Flow::connect(relay.public_key(), author, epoch(0x19));
    epoch_scope.bootstrap(&bootstrap(&relay, domain(7), author, epoch(0x18), NOW + 33), NOW + 33);
    assert!(epoch_scope.opened.is_none());
    trace.push(("epoch-scope-change", epoch_scope.projection.is_some()));

    let mut malformed = established(&relay, author, 0x1a, NOW + 40);
    malformed.status(
        &status(&relay, "{\"version\":1,\"domain\":\"broken\"}", NOW + 40),
        StatusOutcome::Rejected,
        NOW + 40,
    );
    trace.push(("malformed-trusted", malformed.projection.is_some()));

    let mut unsupported = established(&relay, author, 0x1b, NOW + 41);
    unsupported.status(
        &status(&relay, "{\"version\":2}", NOW + 41),
        StatusOutcome::Rejected,
        NOW + 41,
    );
    trace.push(("unsupported-version", unsupported.projection.is_some()));

    let mut mismatched = established(&relay, author, 0x1c, NOW + 42);
    mismatched.status(&status(&relay, "2", NOW + 42), StatusOutcome::Rejected, NOW + 42);
    trace.push(("author-mismatch", mismatched.projection.is_some()));

    let mut legacy = Flow::connect(relay.public_key(), author, epoch(0x1d));
    let profile = nostr::EventBuilder::new(
        nostr::Kind::Metadata,
        "{\"display_name\":\"Spoofed Verified User\",\"nip05\":\"spoof@identity.example.invalid\"}",
    )
    .sign_with_keys(&nostr_keys(5))
    .expect("sign synthetic profile spoof");
    assert!(!legacy.send_ordinary(&profile, NOW + 50));
    trace.push(("profile-spoof", legacy.projection.is_some()));
    let subject = author.to_hex();
    let expiry = (NOW + 170).to_string();
    let tag = |parts: [&str; 2]| nostr::Tag::parse(parts).expect("synthetic tag");
    let assertion = nostr::EventBuilder::new(nostr::Kind::Custom(30382), String::new())
        .tags([
            tag(["d", subject.as_str()]),
            tag(["p", subject.as_str()]),
            tag(["verified", "relay"]),
            tag(["active", "true"]),
            tag(["expiration", expiry.as_str()]),
            tag(["display_name", "Spoofed Legacy Assertion"]),
        ])
        .sign_with_keys(&nostr_keys(1))
        .expect("sign synthetic NIP-85 assertion");
    assert!(!legacy.send_ordinary(&assertion, NOW + 50));
    trace.push(("nip85-no-fallback", legacy.projection.is_some()));

    let cases: Vec<&str> = trace.iter().map(|step| step.0).collect();
    assert_eq!(
        cases,
        [
            "bootstrap",
            "current",
            "duplicate",
            "equal-conflict",
            "rollback",
            "newer-restoration",
            "withdrawal",
            "passive-expiry",
            "disconnect",
            "reconnect",
            "logout",
            "restart",
            "relay-scope-change",
            "signer-scope-change",
            "author-scope-change",
            "domain-scope-change",
            "epoch-scope-change",
            "malformed-trusted",
            "unsupported-version",
            "author-mismatch",
            "profile-spoof",
            "nip85-no-fallback",
        ]
    );
    for (case, shown) in trace {
        let expected = matches!(case, "current" | "duplicate" | "newer-restoration" | "reconnect");
        assert_eq!(shown, expected, "unexpected retained projection for {case}");
    }
}

#[test]
fn only_the_reserved_event_frames_are_reserved() {
    let event = bootstrap(&keys(1), domain(7), keys(3).public_key(), epoch(0x11), NOW);
    assert!(is_reserved_text(&frame(CLIENT_BINDING_BOOTSTRAP_SUB_ID, &event)));
    assert!(is_reserved_text(&frame(CLIENT_BINDING_STATUS_SUB_ID, &event)));
    assert!(is_reserved_text(&format!("[\"EVENT\",\"{CLIENT_BINDING_BOOTSTRAP_SUB_ID}\"]")));
    assert!(is_reserved_text(&format!(
        " [ \"EVENT\" , \"{CLIENT_BINDING_STATUS_SUB_ID}\", \"malformed\", 4 ] "
    )));
    assert!(is_reserved_text(&format!(
        "[\"\\u0045VENT\",\"{CLIENT_BINDING_STATUS_SUB_ID}\"]"
    )));
    assert!(!is_reserved_text(&frame(ORDINARY_SUB_ID, &event)));
    assert!(!is_reserved_text(&format!("[\"EOSE\",\"{CLIENT_BINDING_STATUS_SUB_ID}\"]")));
    assert!(!is_reserved_text(&format!("[\"event\",\"{CLIENT_BINDING_STATUS_SUB_ID}\"]")));
    assert!(!is_reserved_text("[\"EVENT\"]"));
    assert!(!is_reserved_text("[]"));
    assert!(!is_reserved_text("ordinary"));
    assert!(!is_reserved_text(""));
    assert!(!is_reserved_text(&format!("{{\"EVENT\":\"{CLIENT_BINDING_STATUS_SUB_ID}\"}}")));
    assert!(!is_reserved_text(&format!("[\"EVENT\",\"{CLIENT_BINDING_STATUS_SUB_ID}\"] x")));
}

#[test]
fn channel_comes_from_the_first_two_elements() {
    let element = |text: Option<&str>| JsonElement {
        string: text.map(str::to_string),
        json: "null".to_string(),
    };
    assert_eq!(
        reserved_channel(&vec![element(Some("EVENT")), element(Some(CLIENT_BINDING_BOOTSTRAP_SUB_ID))]),
        Some(ReservedChannel::Bootstrap)
    );
    assert_eq!(
        reserved_channel(&vec![element(Some("EVENT")), element(Some(CLIENT_BINDING_STATUS_SUB_ID))]),
        Some(ReservedChannel::Status)
    );
    assert_eq!(reserved_channel(&vec![element(Some("EVENT")), element(None)]), None);
    assert_eq!(
        reserved_channel(&vec![element(None), element(Some(CLIENT_BINDING_STATUS_SUB_ID))]),
        None
    );
    assert_eq!(reserved_channel(&vec![element(Some("EVENT"))]), None);
    assert_eq!(reserved_channel(&vec![]), None);
}

#[test]
fn ordinary_text_is_not_consumed() {
    let mut session =
        ClientBindingStatusSession::new(keys(1).public_key(), keys(3).public_key(), epoch(0x11));
    assert!(session.consume_text("[\"EOSE\",\"x\"]", NOW).is_none());
    assert!(session.consume_text("not json", NOW).is_none());
    assert!(session.debug_text().contains("tracker: None"));
}

#[test]
fn untrusted_noise_changes_nothing() {
    let relay = keys(1);
    let author = keys(3).public_key();
    let mut flow = established(&relay, author, 0x21, NOW);
    let shown = flow.projection.clone();

    // Another signer, on both channels.
    flow.bootstrap(&bootstrap(&keys(2), domain(9), author, epoch(0x21), NOW), NOW);
    flow.status(&status(&keys(2), "x", NOW), StatusOutcome::Rejected, NOW);
    // A broken signature.
    let mut forged = status(&relay, "y", NOW);
    forged.sig[0] ^= 1;
    flow.status(&forged, StatusOutcome::Rejected, NOW);
    // A frame without an event.
    let text = format!("[\"EVENT\",\"{CLIENT_BINDING_BOOTSTRAP_SUB_ID}\"]");
    assert!(matches!(
        flow.session.consume_text(&text, NOW),
        Some(SessionStep::Project(ProjectionUpdate::Unchanged))
    ));
    let text = format!("[\"EVENT\",\"{CLIENT_BINDING_STATUS_SUB_ID}\",{{\"id\":1}}]");
    assert!(matches!(
        flow.session.consume_text(&text, NOW),
        Some(SessionStep::Project(ProjectionUpdate::Unchanged))
    ));
    assert_eq!(flow.projection, shown);
    assert_eq!(flow.session.projected_fresh_until(), Some(NOW + 120));
}

#[test]
fn latched_session_never_projects_again() {
    let relay = keys(1);
    let author = keys(3).public_key();
    let mut flow = established(&relay, author, 0x22, NOW);
    let valid = bootstrap(&relay, domain(7), author, epoch(0x22), NOW);

    // A second, different bootstrap.
    flow.bootstrap(&bootstrap(&relay, domain(7), author, epoch(0x22), NOW + 1), NOW + 1);
    assert!(flow.projection.is_none());
    assert!(flow.session.debug_text().contains("bootstrap_latched_invalid: true"));

    flow.bootstrap(&valid, NOW + 2);
    flow.status(&status(&relay, "z", NOW + 2), StatusOutcome::Accepted(Some(NOW + 500)), NOW + 2);
    assert!(flow.projection.is_none());
    assert!(matches!(
        flow.session.fold_status(StatusOutcome::Accepted(Some(NOW + 500))),
        ProjectionUpdate::Clear
    ));
    assert_eq!(flow.session.projected_fresh_until(), None);
}

#[test]
fn repeated_bootstrap_changes_nothing() {
    let relay = keys(1);
    let author = keys(3).public_key();
    let mut flow = Flow::connect(relay.public_key(), author, epoch(0x23));
    let event = bootstrap(&relay, domain(7), author, epoch(0x23), NOW);
    flow.bootstrap(&event, NOW);
    flow.status(&status(&relay, "a", NOW), StatusOutcome::Accepted(Some(NOW + 9)), NOW);
    flow.opened = None;
    flow.bootstrap(&event, NOW + 1);
    assert!(flow.opened.is_none());
    assert!(flow.projection.is_some());
}

#[test]
fn status_before_bootstrap_latches_the_session() {
    let relay = keys(1);
    let author = keys(3).public_key();
    let mut flow = Flow::connect(relay.public_key(), author, epoch(0x24));
    flow.status(&status(&relay, "a", NOW), StatusOutcome::Accepted(Some(NOW + 9)), NOW);
    assert!(flow.projection.is_none());
    flow.bootstrap(&bootstrap(&relay, domain(7), author, epoch(0x24), NOW), NOW);
    assert!(flow.opened.is_none());
}

#[test]
fn inexact_frames_are_refused() {
    let relay = keys(1);
    let author = keys(3).public_key();
    let event = bootstrap(&relay, domain(7), author, epoch(0x25), NOW);

    // Four elements on the bootstrap channel latch.
    let mut flow = Flow::connect(relay.public_key(), author, epoch(0x25));
    let text = format!(
        "[\"EVENT\",\"{CLIENT_BINDING_BOOTSTRAP_SUB_ID}\",{},null]",
        event_json(&event)
    );
    assert!(matches!(
        flow.session.consume_text(&text, NOW),
        Some(SessionStep::Project(ProjectionUpdate::Clear))
    ));
    flow.bootstrap(&event, NOW);
    assert!(flow.opened.is_none());

    // On the status channel of a bound session they only clear.
    let mut bound = established(&relay, author, 0x26, NOW);
    let text = format!(
        "[\"EVENT\",\"{CLIENT_BINDING_STATUS_SUB_ID}\",{},null]",
        event_json(&status(&relay, "b", NOW))
    );
    assert!(matches!(
        bound.session.consume_text(&text, NOW),
        Some(SessionStep::Project(ProjectionUpdate::Clear))
    ));
    assert_eq!(bound.session.projected_fresh_until(), None);
    bound.status(&status(&relay, "c", NOW), StatusOutcome::Accepted(Some(NOW + 5)), NOW);
    assert!(bound.projection.is_some());
}

#[test]
fn accepted_frames_depend_on_the_verification_result() {
    let relay = keys(1);
    let author = keys(3).public_key();
    let event = bootstrap(&relay, domain(7), author, epoch(0x27), NOW);
    let frame_of = |event: Event| ReservedFrame {
        channel: ReservedChannel::Bootstrap,
        reserved: ReservedEvent { event: Some(event), exact_outer_shape: true },
    };
    let mut session = ClientBindingStatusSession::new(relay.public_key(), author, epoch(0x27));
    assert!(matches!(
        session.accept_frame(frame_of(copy(&event)), false, NOW),
        SessionStep::Project(ProjectionUpdate::Unchanged)
    ));
    match session.accept_frame(frame_of(copy(&event)), true, NOW) {
        SessionStep::OpenTracker(scope) => {
            assert_eq!(scope.trusted_relay_pubkey, relay.public_key());
            assert_eq!(scope.event_author_pubkey, author);
            assert!(scope.authorization_domain == domain(7));
        }
        _ => panic!("the bootstrap binds"),
    }
    assert!(session.debug_text().contains("tracker: Some"));
}

#[test]
fn expiry_is_idempotent_and_keeps_fresh_projections() {
    let relay = keys(1);
    let mut flow = established(&relay, keys(3).public_key(), 0x28, NOW);
    assert!(matches!(flow.session.expire(NOW + 119), ProjectionUpdate::Unchanged));
    assert!(matches!(flow.session.expire(NOW + 120), ProjectionUpdate::Clear));
    assert!(matches!(flow.session.expire(NOW + 120), ProjectionUpdate::Unchanged));
    assert!(matches!(flow.session.disconnect(), ProjectionUpdate::Clear));
    assert!(matches!(flow.session.disconnect(), ProjectionUpdate::Clear));
}

#[test]
fn session_debug_text_shows_state_only() {
    let relay = keys(1);
    let author = keys(3).public_key();
    let session = ClientBindingStatusSession::new(relay.public_key(), author, epoch(0x29));
    assert_eq!(
        session.debug_text(),
        "ClientBindingStatusSession { trusted_relay_pubkey: \"[redacted]\", expected_event_author_pubkey: \"[redacted]\", connection_epoch: \"[redacted]\", bootstrap_event_id: None, bootstrap_latched_invalid: false, tracker: None, projected_fresh_until: \"[redacted]\" }"
    );
    let bound = established(&relay, author, 0x29, NOW);
    assert_eq!(
        bound.session.debug_text(),
        "ClientBindingStatusSession { trusted_relay_pubkey: \"[redacted]\", expected_event_author_pubkey: \"[redacted]\", connection_epoch: \"[redacted]\", bootstrap_event_id: Some(\"[redacted]\"), bootstrap_latched_invalid: false, tracker: Some(\"[redacted]\"), projected_fresh_until: \"[redacted]\" }"
    );
    assert_eq!(bound.session.connection_epoch().as_str(), "29".repeat(32));
}

#[test]
fn events_are_read_from_json() {
    let event = status(&keys(1), "with \"quotes\" and \u{e9}", NOW);
    let read = copy(&event);
    assert_eq!(read.id, event.id);
    assert_eq!(read.pubkey, event.pubkey);
    assert_eq!(read.created_at, NOW);
    assert_eq!(read.kind, STATUS_KIND);
    assert_eq!(read.content, event.content);
    assert_eq!(read.sig, event.sig);
    assert!(read.verify());
    assert!(Event::from_json("{}").is_none());
    assert!(Event::from_json("nonsense").is_none());
}
