//! Relay-authenticated connection bootstrap for client binding status.
//!
//! Kind `24245` is delivered only on the WebSocket connection whose native
//! client supplied the echoed epoch. It binds the relay's NIP-11 signing key,
//! the server-resolved authorization domain, and the authenticated event
//! author before kind `24244` status can be consumed.

use vstd::prelude::*;

use crate::community;
use crate::community::CommunityId;
use crate::event;
use crate::event::{Event, EventView, PublicKey, RelayKeys};
use crate::json;
use crate::text;

verus! {

/// The event kind of a connection bootstrap.
pub const KIND_CLIENT_BINDING_BOOTSTRAP: u32 = 24245;

/// WebSocket upgrade header carrying a native-generated connection epoch.
pub const CLIENT_BINDING_EPOCH_HEADER: &'static str = "x-buzz-client-binding-epoch-v1";

/// Reserved exact-connection subscription id for bootstrap delivery.
pub const CLIENT_BINDING_BOOTSTRAP_SUB_ID: &'static str = "__buzz_client_binding_bootstrap_v1__";

/// Reserved exact-connection subscription id for status delivery.
pub const CLIENT_BINDING_STATUS_SUB_ID: &'static str = "__buzz_client_binding_status_v1__";

/// Bootstrap wire version accepted by this module.
pub const CLIENT_BINDING_BOOTSTRAP_VERSION: u64 = 1;

/// Maximum encoded bootstrap payload length.
pub const MAX_CLIENT_BINDING_BOOTSTRAP_PAYLOAD_BYTES: usize = 1024;

/// Fail-closed bootstrap validation failure.
#[derive(Debug, Clone, Copy, PartialEq, Eq)]
#[non_exhaustive]
pub enum ClientBindingBootstrapError {
    /// Event kind was not the dedicated bootstrap kind.
    WrongKind,
    /// Payload exceeded the public bound.
    PayloadTooLarge,
    /// Event signature or identifier was invalid.
    UnauthenticatedEvent,
    /// Signer did not match NIP-11 `self`.
    UnexpectedRelay,
    /// Bootstrap events must have no tags.
    UnexpectedTags,
    /// Payload was not the bounded v1 shape.
    MalformedPayload,
    /// Wire version is unsupported.
    UnsupportedVersion,
    /// Authorization domain was nil or noncanonical.
    InvalidAuthorizationDomain,
    /// Event-author key was noncanonical.
    InvalidEventAuthorPubkey,
    /// Authenticated author did not match native signing state.
    EventAuthorMismatch,
    /// Connection epoch was noncanonical.
    InvalidConnectionEpoch,
    /// Echoed epoch did not match the native upgrade header.
    ConnectionEpochMismatch,
    /// Issue time was zero.
    InvalidIssueTime,
    /// Signed timestamp did not equal the payload timestamp.
    EventTimeMismatch,
    /// Bootstrap claims a future issue time.
    NotYetValid,
}

/// Bootstrap serialization or signing failure.
#[derive(Debug, Clone, Copy, PartialEq, Eq)]
pub enum ClientBindingBootstrapBuildError {
    /// JSON serialization failed.
    Serialization,
    /// Serialized payload exceeded its public bound.
    PayloadTooLarge,
    /// Relay signing failed.
    Signing,
}

/// The text of an error.
pub open spec fn bootstrap_error_text(error: ClientBindingBootstrapError) -> Seq<char> {
    match error {
        ClientBindingBootstrapError::WrongKind => "client binding bootstrap event has the wrong kind"@,
        ClientBindingBootstrapError::PayloadTooLarge => "client binding bootstrap payload is too large"@,
        ClientBindingBootstrapError::UnauthenticatedEvent => "client binding bootstrap event is not authenticated"@,
        ClientBindingBootstrapError::UnexpectedRelay => "client binding bootstrap signer is not the trusted relay"@,
        ClientBindingBootstrapError::UnexpectedTags => "client binding bootstrap contains unexpected tags"@,
        ClientBindingBootstrapError::MalformedPayload => "client binding bootstrap payload is malformed"@,
        ClientBindingBootstrapError::UnsupportedVersion => "client binding bootstrap version is unsupported"@,
        ClientBindingBootstrapError::InvalidAuthorizationDomain => "client binding bootstrap authorization domain is invalid"@,
        ClientBindingBootstrapError::InvalidEventAuthorPubkey => "client binding bootstrap event author is invalid"@,
        ClientBindingBootstrapError::EventAuthorMismatch => "client binding bootstrap event author does not match"@,
        ClientBindingBootstrapError::InvalidConnectionEpoch => "client binding bootstrap connection epoch is invalid"@,
        ClientBindingBootstrapError::ConnectionEpochMismatch => "client binding bootstrap connection epoch does not match"@,
        ClientBindingBootstrapError::InvalidIssueTime => "client binding bootstrap issue time is invalid"@,
        ClientBindingBootstrapError::EventTimeMismatch => "client binding bootstrap event time does not match"@,
        ClientBindingBootstrapError::NotYetValid => "client binding bootstrap is not yet valid"@,
    }
}

impl ClientBindingBootstrapError {
    /// The text of the error.
    pub fn message(&self) -> (message: &'static str)
        ensures
            message@ == bootstrap_error_text(*self),
    {
        match self {
            ClientBindingBootstrapError::WrongKind => "client binding bootstrap event has the wrong kind",
            ClientBindingBootstrapError::PayloadTooLarge => "client binding bootstrap payload is too large",
            ClientBindingBootstrapError::UnauthenticatedEvent => "client binding bootstrap event is not authenticated",
            ClientBindingBootstrapError::UnexpectedRelay => "client binding bootstrap signer is not the trusted relay",
            ClientBindingBootstrapError::UnexpectedTags => "client binding bootstrap contains unexpected tags",
            ClientBindingBootstrapError::MalformedPayload => "client binding bootstrap payload is malformed",
            ClientBindingBootstrapError::UnsupportedVersion => "client binding bootstrap version is unsupported",
            ClientBindingBootstrapError::InvalidAuthorizationDomain => "client binding bootstrap authorization domain is invalid",
            ClientBindingBootstrapError::InvalidEventAuthorPubkey => "client binding bootstrap event author is invalid",
            ClientBindingBootstrapError::EventAuthorMismatch => "client binding bootstrap event author does not match",
            ClientBindingBootstrapError::InvalidConnectionEpoch => "client binding bootstrap connection epoch is invalid",
            ClientBindingBootstrapError::ConnectionEpochMismatch => "client binding bootstrap connection epoch does not match",
            ClientBindingBootstrapError::InvalidIssueTime => "client binding bootstrap issue time is invalid",
            ClientBindingBootstrapError::EventTimeMismatch => "client binding bootstrap event time does not match",
            ClientBindingBootstrapError::NotYetValid => "client binding bootstrap is not yet valid",
        }
    }
}

/// The text of an error.
pub open spec fn build_error_text(error: ClientBindingBootstrapBuildError) -> Seq<char> {
    match error {
        ClientBindingBootstrapBuildError::Serialization => "client binding bootstrap serialization failed"@,
        ClientBindingBootstrapBuildError::PayloadTooLarge => "client binding bootstrap payload is too large"@,
        ClientBindingBootstrapBuildError::Signing => "client binding bootstrap signing failed"@,
    }
}

impl ClientBindingBootstrapBuildError {
    /// The text of the error.
    pub fn message(&self) -> (message: &'static str)
        ensures
            message@ == build_error_text(*self),
    {
        match self {
            ClientBindingBootstrapBuildError::Serialization => "client binding bootstrap serialization failed",
            ClientBindingBootstrapBuildError::PayloadTooLarge => "client binding bootstrap payload is too large",
            ClientBindingBootstrapBuildError::Signing => "client binding bootstrap signing failed",
        }
    }
}

/// Opaque, native-generated 256-bit connection epoch.
#[derive(PartialEq, Eq, Hash)]
pub struct ClientBindingEpoch {
    characters: String,
}

impl View for ClientBindingEpoch {
    type V = Seq<char>;

    closed spec fn view(&self) -> Seq<char> {
        self.characters@
    }
}

/// What `parse` gives for a text.
pub open spec fn parsed_epoch(value: Seq<char>) -> Result<Seq<char>, ClientBindingBootstrapError> {
    if text::is_canonical_hex(value) {
        Ok(value)
    } else {
        Err(ClientBindingBootstrapError::InvalidConnectionEpoch)
    }
}

/// The text of an epoch, or why there is none.
pub open spec fn epoch_view(
    epoch: Result<ClientBindingEpoch, ClientBindingBootstrapError>,
) -> Result<Seq<char>, ClientBindingBootstrapError> {
    match epoch {
        Ok(value) => Ok(value@),
        Err(error) => Err(error),
    }
}

impl ClientBindingEpoch {
    /// An epoch always has the canonical wire form.
    #[verifier::type_invariant]
    spec fn is_canonical(self) -> bool {
        text::is_canonical_hex(self.characters@)
    }

    /// Construct an epoch from 32 CSPRNG bytes.
    pub fn from_random_bytes(bytes: [u8; 32]) -> (epoch: Self)
        ensures
            epoch@ == text::hex_lower(bytes@),
    {
        proof {
            text::lemma_hex_round_trip(bytes@);
        }
        ClientBindingEpoch { characters: text::hex_encode(&bytes) }
    }

    /// Parse the canonical 64-character lowercase hexadecimal wire form.
    pub fn parse(value: &str) -> (epoch: Result<Self, ClientBindingBootstrapError>)
        ensures
            epoch_view(epoch) == parsed_epoch(value@),
    {
        if !text::is_canonical_hex_text(value) {
            return Err(ClientBindingBootstrapError::InvalidConnectionEpoch);
        }
        Ok(ClientBindingEpoch { characters: value.to_owned() })
    }

    /// Canonical header and payload representation.
    pub fn as_str(&self) -> (value: &str)
        ensures
            value@ == self@,
            text::is_canonical_hex(value@),
    {
        proof {
            use_type_invariant(self);
        }
        self.characters.as_str()
    }

    /// Whether the two are the same epoch.
    pub fn is_same(&self, other: &Self) -> (same: bool)
        ensures
            same == (self@ == other@),
    {
        text::same_text(self.characters.as_str(), other.characters.as_str())
    }

    /// The text for diagnostics, which does not show the epoch.
    pub fn debug_text(&self) -> (shown: String)
        ensures
            shown@ == "ClientBindingEpoch(\"[redacted]\")"@,
    {
        "ClientBindingEpoch(\"[redacted]\")".to_owned()
    }
}

impl Clone for ClientBindingEpoch {
    fn clone(&self) -> (copy: Self)
        ensures
            copy@ == self@,
    {
        proof {
            use_type_invariant(self);
        }
        ClientBindingEpoch { characters: self.characters.clone() }
    }
}

/// What a bootstrap binds to a connection.
pub struct BootstrapView {
    pub authorization_domain: Seq<u8>,
    pub event_author_pubkey: Seq<u8>,
    pub connection_epoch: Seq<char>,
    pub issued_at: u64,
}

/// Validated relay-authenticated bootstrap.
#[derive(PartialEq, Eq)]
pub struct ClientBindingBootstrapV1 {
    authorization_domain: CommunityId,
    event_author_pubkey: PublicKey,
    connection_epoch: ClientBindingEpoch,
    issued_at: u64,
}

impl View for ClientBindingBootstrapV1 {
    type V = BootstrapView;

    closed spec fn view(&self) -> BootstrapView {
        BootstrapView {
            authorization_domain: self.authorization_domain@,
            event_author_pubkey: self.event_author_pubkey@,
            connection_epoch: self.connection_epoch@,
            issued_at: self.issued_at,
        }
    }
}

impl Clone for ClientBindingBootstrapV1 {
    fn clone(&self) -> (copy: Self)
        ensures
            copy@ == self@,
    {
        ClientBindingBootstrapV1 {
            authorization_domain: self.authorization_domain,
            event_author_pubkey: self.event_author_pubkey,
            connection_epoch: self.connection_epoch.clone(),
            issued_at: self.issued_at,
        }
    }
}

impl ClientBindingBootstrapV1 {
    /// Server-resolved authorization domain pinned by this connection.
    pub fn authorization_domain(&self) -> (domain: CommunityId)
        ensures
            domain@ == self@.authorization_domain,
    {
        self.authorization_domain
    }

    /// Authenticated event author pinned by this connection.
    pub fn event_author_pubkey(&self) -> (author: PublicKey)
        ensures
            author@ == self@.event_author_pubkey,
    {
        self.event_author_pubkey
    }

    /// Echoed native connection epoch.
    pub fn connection_epoch(&self) -> (epoch: &ClientBindingEpoch)
        ensures
            epoch@ == self@.connection_epoch,
    {
        &self.connection_epoch
    }

    /// Relay issue time in Unix seconds.
    pub fn issued_at(&self) -> (time: u64)
        ensures
            time == self@.issued_at,
    {
        self.issued_at
    }

    /// The text for diagnostics, which shows no value.
    pub fn debug_text(&self) -> (shown: String)
        ensures
            shown@ == "ClientBindingBootstrapV1 { authorization_domain: \"[redacted]\", event_author_pubkey: \"[redacted]\", connection_epoch: \"[redacted]\", issued_at: \"[redacted]\" }"@,
    {
        "ClientBindingBootstrapV1 { authorization_domain: \"[redacted]\", event_author_pubkey: \"[redacted]\", connection_epoch: \"[redacted]\", issued_at: \"[redacted]\" }".to_owned()
    }
}

/// The fields of a bootstrap payload.
pub struct WireClientBindingBootstrapV1 {
    pub version: u64,
    pub authorization_domain: String,
    pub event_author_pubkey: String,
    pub connection_epoch: String,
    pub issued_at: u64,
}

/// The fields of a bootstrap payload.
pub struct WireView {
    pub version: u64,
    pub authorization_domain: Seq<char>,
    pub event_author_pubkey: Seq<char>,
    pub connection_epoch: Seq<char>,
    pub issued_at: u64,
}

impl View for WireClientBindingBootstrapV1 {
    type V = WireView;

    open spec fn view(&self) -> WireView {
        WireView {
            version: self.version,
            authorization_domain: self.authorization_domain@,
            event_author_pubkey: self.event_author_pubkey@,
            connection_epoch: self.connection_epoch@,
            issued_at: self.issued_at,
        }
    }
}

/// The fields of a payload, where it has them.
pub open spec fn optional_wire(wire: Option<WireClientBindingBootstrapV1>) -> Option<WireView> {
    match wire {
        Some(fields) => Some(fields@),
        None => None,
    }
}

/// The number of the only member called `name`.
pub open spec fn u64_field(members: Seq<json::MemberView>, name: Seq<char>) -> Option<u64> {
    match json::only_named(members, name) {
        Some(token) => json::u64_token(token),
        None => None,
    }
}

/// The characters of the only member called `name`.
pub open spec fn string_field(members: Seq<json::MemberView>, name: Seq<char>) -> Option<
    Seq<char>,
> {
    match json::only_named(members, name) {
        Some(token) => json::string_token(token),
        None => None,
    }
}

/// The version of a payload, whatever else it holds.
pub open spec fn payload_version(payload: Seq<u8>) -> Option<u64> {
    match json::record_field(payload, "version"@) {
        Some(token) => json::u64_token(token),
        None => None,
    }
}

/// The fields of a payload: an object with these five members and no other.
pub open spec fn payload_wire(payload: Seq<u8>) -> Option<WireView> {
    match json::object_members(payload) {
        Some(members) => match (
            u64_field(members, "version"@),
            string_field(members, "authorization_domain"@),
            string_field(members, "event_author_pubkey"@),
            string_field(members, "connection_epoch"@),
            u64_field(members, "issued_at"@),
        ) {
            (
                Some(version),
                Some(authorization_domain),
                Some(event_author_pubkey),
                Some(connection_epoch),
                Some(issued_at),
            ) => if members.len() == 5 {
                Some(
                    WireView {
                        version,
                        authorization_domain,
                        event_author_pubkey,
                        connection_epoch,
                        issued_at,
                    },
                )
            } else {
                None
            },
            _ => None,
        },
        None => None,
    }
}

/// What the fields of a payload bind, or the first rule that they break.
pub open spec fn wire_result(
    wire: WireView,
    created_at: u64,
    epoch: Seq<char>,
    author: Seq<u8>,
    now: u64,
) -> Result<BootstrapView, ClientBindingBootstrapError> {
    match (
        community::canonical_uuid(wire.authorization_domain),
        event::canonical_key(wire.event_author_pubkey),
    ) {
        (None, _) => Err(ClientBindingBootstrapError::InvalidAuthorizationDomain),
        (Some(domain), key) => if community::is_nil(domain) {
            Err(ClientBindingBootstrapError::InvalidAuthorizationDomain)
        } else if key is None {
            Err(ClientBindingBootstrapError::InvalidEventAuthorPubkey)
        } else if key != Some(author) {
            Err(ClientBindingBootstrapError::EventAuthorMismatch)
        } else if !text::is_canonical_hex(wire.connection_epoch) {
            Err(ClientBindingBootstrapError::InvalidConnectionEpoch)
        } else if wire.connection_epoch != epoch {
            Err(ClientBindingBootstrapError::ConnectionEpochMismatch)
        } else if wire.issued_at == 0 {
            Err(ClientBindingBootstrapError::InvalidIssueTime)
        } else if created_at != wire.issued_at {
            Err(ClientBindingBootstrapError::EventTimeMismatch)
        } else if wire.issued_at > now {
            Err(ClientBindingBootstrapError::NotYetValid)
        } else {
            Ok(
                BootstrapView {
                    authorization_domain: domain,
                    event_author_pubkey: author,
                    connection_epoch: epoch,
                    issued_at: wire.issued_at,
                },
            )
        },
    }
}

/// What an event binds, or the first rule that it breaks. `authenticated`: its
/// identifier and its signature hold.
pub open spec fn bootstrap_outcome(
    event: EventView,
    authenticated: bool,
    relay: Seq<u8>,
    epoch: Seq<char>,
    author: Seq<u8>,
    now: u64,
) -> Result<BootstrapView, ClientBindingBootstrapError> {
    let payload = vstd::utf8::encode_utf8(event.content);
    if event.kind != KIND_CLIENT_BINDING_BOOTSTRAP {
        Err(ClientBindingBootstrapError::WrongKind)
    } else if payload.len() > MAX_CLIENT_BINDING_BOOTSTRAP_PAYLOAD_BYTES {
        Err(ClientBindingBootstrapError::PayloadTooLarge)
    } else if !authenticated {
        Err(ClientBindingBootstrapError::UnauthenticatedEvent)
    } else if event.pubkey != relay {
        Err(ClientBindingBootstrapError::UnexpectedRelay)
    } else if event.tags.len() > 0 {
        Err(ClientBindingBootstrapError::UnexpectedTags)
    } else if payload_version(payload) is None {
        Err(ClientBindingBootstrapError::MalformedPayload)
    } else if payload_version(payload) != Some(CLIENT_BINDING_BOOTSTRAP_VERSION) {
        Err(ClientBindingBootstrapError::UnsupportedVersion)
    } else {
        match payload_wire(payload) {
            Some(wire) => wire_result(wire, event.created_at, epoch, author, now),
            None => Err(ClientBindingBootstrapError::MalformedPayload),
        }
    }
}

/// What an event binds, or the first rule that it breaks.
pub open spec fn bootstrap_result(
    event: EventView,
    relay: Seq<u8>,
    epoch: Seq<char>,
    author: Seq<u8>,
    now: u64,
) -> Result<BootstrapView, ClientBindingBootstrapError> {
    bootstrap_outcome(event, event::nostr_verifies(event), relay, epoch, author, now)
}

/// What a validated bootstrap binds, or why there is none.
pub open spec fn bootstrap_view(
    bootstrap: Result<ClientBindingBootstrapV1, ClientBindingBootstrapError>,
) -> Result<BootstrapView, ClientBindingBootstrapError> {
    match bootstrap {
        Ok(value) => Ok(value@),
        Err(error) => Err(error),
    }
}

/// The version of a payload, whatever else it holds.
pub fn read_version(payload: &[u8]) -> (version: Option<u64>)
    ensures
        version == payload_version(payload@),
{
    match json::read_record_field(payload, "version") {
        Some(token) => json::read_u64(token.as_slice()),
        None => None,
    }
}

/// The number of the only member called `name`.
fn read_u64_field(members: &Vec<json::Member>, name: &str) -> (number: Option<u64>)
    ensures
        number == u64_field(json::members_view(members@), name@),
{
    match json::find_only(members, name) {
        Some(token) => json::read_u64(token.as_slice()),
        None => None,
    }
}

/// The characters of the only member called `name`.
fn read_string_field(members: &Vec<json::Member>, name: &str) -> (string: Option<String>)
    ensures
        text::optional_view(string) == string_field(json::members_view(members@), name@),
{
    match json::find_only(members, name) {
        Some(token) => json::read_string(token.as_slice()),
        None => None,
    }
}

/// The fields of a payload: an object with the five members and no other.
pub fn read_wire(payload: &[u8]) -> (wire: Option<WireClientBindingBootstrapV1>)
    ensures
        optional_wire(wire) == payload_wire(payload@),
{
    let members = match json::read_object(payload) {
        Some(members) => members,
        None => return None,
    };
    if members.len() != 5 {
        return None;
    }
    match (
        read_u64_field(&members, "version"),
        read_string_field(&members, "authorization_domain"),
        read_string_field(&members, "event_author_pubkey"),
        read_string_field(&members, "connection_epoch"),
        read_u64_field(&members, "issued_at"),
    ) {
        (
            Some(version),
            Some(authorization_domain),
            Some(event_author_pubkey),
            Some(connection_epoch),
            Some(issued_at),
        ) => Some(
            WireClientBindingBootstrapV1 {
                version,
                authorization_domain,
                event_author_pubkey,
                connection_epoch,
                issued_at,
            },
        ),
        _ => None,
    }
}

/// The key of a canonical text, or the error for an author that has none.
fn parse_canonical_pubkey(value: &str) -> (key: Result<PublicKey, ClientBindingBootstrapError>)
    ensures
        match event::canonical_key(value@) {
            Some(bytes) => key matches Ok(parsed) && parsed@ == bytes,
            None => key == Err::<PublicKey, ClientBindingBootstrapError>(
                ClientBindingBootstrapError::InvalidEventAuthorPubkey,
            ),
        },
{
    match PublicKey::parse_canonical(value) {
        Some(parsed) => Ok(parsed),
        None => Err(ClientBindingBootstrapError::InvalidEventAuthorPubkey),
    }
}

/// Checks the fields of a payload against native authority.
pub fn validate_bootstrap_wire(
    wire: &WireClientBindingBootstrapV1,
    created_at: u64,
    expected_connection_epoch: &ClientBindingEpoch,
    expected_event_author_pubkey: &PublicKey,
    now: u64,
) -> (bootstrap: Result<ClientBindingBootstrapV1, ClientBindingBootstrapError>)
    ensures
        bootstrap_view(bootstrap) == wire_result(
            wire@,
            created_at,
            expected_connection_epoch@,
            expected_event_author_pubkey@,
            now,
        ),
{
    let authorization_domain = match CommunityId::parse_canonical(
        wire.authorization_domain.as_str(),
    ) {
        Some(domain) => domain,
        None => return Err(ClientBindingBootstrapError::InvalidAuthorizationDomain),
    };
    let event_author_pubkey = match parse_canonical_pubkey(wire.event_author_pubkey.as_str()) {
        Ok(author) => author,
        Err(error) => return Err(error),
    };
    if !event_author_pubkey.is_same(expected_event_author_pubkey) {
        return Err(ClientBindingBootstrapError::EventAuthorMismatch);
    }
    let connection_epoch = match ClientBindingEpoch::parse(wire.connection_epoch.as_str()) {
        Ok(epoch) => epoch,
        Err(error) => return Err(error),
    };
    if !connection_epoch.is_same(expected_connection_epoch) {
        return Err(ClientBindingBootstrapError::ConnectionEpochMismatch);
    }
    if wire.issued_at == 0 {
        return Err(ClientBindingBootstrapError::InvalidIssueTime);
    }
    if created_at != wire.issued_at {
        return Err(ClientBindingBootstrapError::EventTimeMismatch);
    }
    if wire.issued_at > now {
        return Err(ClientBindingBootstrapError::NotYetValid);
    }
    Ok(
        ClientBindingBootstrapV1 {
            authorization_domain,
            event_author_pubkey,
            connection_epoch,
            issued_at: wire.issued_at,
        },
    )
}

/// Validates a connection bootstrap against native authority, given whether its
/// identifier and its signature hold.
pub fn validate_bootstrap_with_verification(
    event: &Event,
    authenticated: bool,
    trusted_relay_pubkey: &PublicKey,
    expected_connection_epoch: &ClientBindingEpoch,
    expected_event_author_pubkey: &PublicKey,
    now: u64,
) -> (bootstrap: Result<ClientBindingBootstrapV1, ClientBindingBootstrapError>)
    ensures
        bootstrap_view(bootstrap) == bootstrap_outcome(
            event@,
            authenticated,
            trusted_relay_pubkey@,
            expected_connection_epoch@,
            expected_event_author_pubkey@,
            now,
        ),
{
    if event.kind as u32 != KIND_CLIENT_BINDING_BOOTSTRAP {
        return Err(ClientBindingBootstrapError::WrongKind);
    }
    let payload = event.content.as_str().as_bytes();
    if payload.len() > MAX_CLIENT_BINDING_BOOTSTRAP_PAYLOAD_BYTES {
        return Err(ClientBindingBootstrapError::PayloadTooLarge);
    }
    if !authenticated {
        return Err(ClientBindingBootstrapError::UnauthenticatedEvent);
    }
    if !event.pubkey.is_same(trusted_relay_pubkey) {
        return Err(ClientBindingBootstrapError::UnexpectedRelay);
    }
    if event.tags.len() != 0 {
        return Err(ClientBindingBootstrapError::UnexpectedTags);
    }
    let version: u64 = match read_version(payload) {
        Some(version) => version,
        None => return Err(ClientBindingBootstrapError::MalformedPayload),
    };
    if version != CLIENT_BINDING_BOOTSTRAP_VERSION {
        return Err(ClientBindingBootstrapError::UnsupportedVersion);
    }
    match read_wire(payload) {
        Some(wire) => validate_bootstrap_wire(
            &wire,
            event.created_at,
            expected_connection_epoch,
            expected_event_author_pubkey,
            now,
        ),
        None => Err(ClientBindingBootstrapError::MalformedPayload),
    }
}

/// Authenticate and validate a connection bootstrap against native authority.
pub fn validate_client_binding_bootstrap_event(
    event: &Event,
    trusted_relay_pubkey: &PublicKey,
    expected_connection_epoch: &ClientBindingEpoch,
    expected_event_author_pubkey: &PublicKey,
    now: u64,
) -> (bootstrap: Result<ClientBindingBootstrapV1, ClientBindingBootstrapError>)
    ensures
        bootstrap_view(bootstrap) == bootstrap_result(
            event@,
            trusted_relay_pubkey@,
            expected_connection_epoch@,
            expected_event_author_pubkey@,
            now,
        ),
{
    validate_bootstrap_with_verification(
        event,
        event.verify(),
        trusted_relay_pubkey,
        expected_connection_epoch,
        expected_event_author_pubkey,
        now,
    )
}

/// Validated server-side signing input for one connection bootstrap.
pub struct ClientBindingBootstrapInputV1 {
    authorization_domain: CommunityId,
    event_author_pubkey: PublicKey,
    connection_epoch: ClientBindingEpoch,
    issued_at: u64,
}

impl View for ClientBindingBootstrapInputV1 {
    type V = BootstrapView;

    closed spec fn view(&self) -> BootstrapView {
        BootstrapView {
            authorization_domain: self.authorization_domain@,
            event_author_pubkey: self.event_author_pubkey@,
            connection_epoch: self.connection_epoch@,
            issued_at: self.issued_at,
        }
    }
}

/// What may be signed: a domain that is not nil and an issue time that is not
/// zero.
pub open spec fn is_signable(input: BootstrapView) -> bool {
    !community::is_nil(input.authorization_domain) && input.issued_at != 0
}

/// The parts have the sizes and the form that their types have.
pub open spec fn is_bindable(input: BootstrapView) -> bool {
    &&& input.authorization_domain.len() == 16
    &&& input.event_author_pubkey.len() == 32
    &&& text::is_canonical_hex(input.connection_epoch)
}

/// The members of a signed payload, in their order.
pub open spec fn payload_members(input: BootstrapView) -> Seq<(Seq<char>, Seq<char>)> {
    seq![
        ("version"@, text::decimal(CLIENT_BINDING_BOOTSTRAP_VERSION as nat)),
        (
            "authorization_domain"@,
            json::quoted(community::uuid_text(input.authorization_domain)),
        ),
        ("event_author_pubkey"@, json::quoted(text::hex_lower(input.event_author_pubkey))),
        ("connection_epoch"@, json::quoted(input.connection_epoch)),
        ("issued_at"@, text::decimal(input.issued_at as nat)),
    ]
}

/// The payload that is signed.
pub open spec fn signed_payload(input: BootstrapView) -> Seq<char> {
    json::object_text(payload_members(input))
}

/// Lowercase digits and hyphens stand for themselves inside a JSON string.
proof fn lemma_wire_text_is_plain(input: BootstrapView)
    requires
        is_bindable(input),
    ensures
        json::is_plain_text(community::uuid_text(input.authorization_domain)),
        json::is_plain_text(text::hex_lower(input.event_author_pubkey)),
        json::is_plain_text(input.connection_epoch),
{
    community::uuid_text_is_canonical(input.authorization_domain);
    text::lemma_hex_round_trip(input.event_author_pubkey);
    let domain = community::uuid_text(input.authorization_domain);
    let author = text::hex_lower(input.event_author_pubkey);
    let epoch = input.connection_epoch;
    assert forall|i: int| 0 <= i < domain.len() implies json::is_plain_char(
        #[trigger] domain[i],
    ) by {
        assert(community::is_hyphen_position(i) || text::is_lower_hex_char(domain[i]));
    }
    assert forall|i: int| 0 <= i < author.len() implies json::is_plain_char(
        #[trigger] author[i],
    ) by {
        assert(text::is_lower_hex_char(author[i]));
    }
    assert forall|i: int| 0 <= i < epoch.len() implies json::is_plain_char(#[trigger] epoch[i]) by {
        assert(text::is_lower_hex_char(epoch[i]));
    }
}

/// The names of a payload are plain, and no two are the same.
proof fn lemma_member_names()
    ensures
        json::is_plain_text("version"@),
        json::is_plain_text("authorization_domain"@),
        json::is_plain_text("event_author_pubkey"@),
        json::is_plain_text("connection_epoch"@),
        json::is_plain_text("issued_at"@),
        "version"@.len() == 7,
        "authorization_domain"@.len() == 20,
        "event_author_pubkey"@.len() == 19,
        "connection_epoch"@.len() == 16,
        "issued_at"@.len() == 9,
{
    reveal_strlit("version");
    reveal_strlit("authorization_domain");
    reveal_strlit("event_author_pubkey");
    reveal_strlit("connection_epoch");
    reveal_strlit("issued_at");
}

/// The members of a signed payload are simple.
proof fn lemma_payload_members(input: BootstrapView)
    requires
        is_bindable(input),
    ensures
        forall|i: int|
            0 <= i < 5 ==> json::is_simple_member(#[trigger] payload_members(input)[i]),
{
    lemma_wire_text_is_plain(input);
    lemma_member_names();
    let members = payload_members(input);
    assert(json::is_simple_value(members[0].1));
    assert(json::is_simple_value(members[1].1));
    assert(json::is_simple_value(members[2].1));
    assert(json::is_simple_value(members[3].1));
    assert(json::is_simple_value(members[4].1));
}

/// A signed payload keeps to the bound.
proof fn lemma_signed_payload_len(input: BootstrapView)
    requires
        is_bindable(input),
    ensures
        signed_payload(input).len() <= MAX_CLIENT_BINDING_BOOTSTRAP_PAYLOAD_BYTES,
{
    lemma_member_names();
    text::lemma_decimal_u64_len(CLIENT_BINDING_BOOTSTRAP_VERSION);
    text::lemma_decimal_u64_len(input.issued_at);
    let all = payload_members(input);
    let four = all.drop_last();
    let three = four.drop_last();
    let two = three.drop_last();
    let one = two.drop_last();
    assert(json::members_text(one).len() == json::member_text(all[0].0, all[0].1).len());
    assert(json::members_text(two).len() == json::members_text(one).len() + 1 + json::member_text(
        all[1].0,
        all[1].1,
    ).len());
    assert(json::members_text(three).len() == json::members_text(two).len() + 1
        + json::member_text(all[2].0, all[2].1).len());
    assert(json::members_text(four).len() == json::members_text(three).len() + 1
        + json::member_text(all[3].0, all[3].1).len());
    assert(json::members_text(all).len() == json::members_text(four).len() + 1 + json::member_text(
        all[4].0,
        all[4].1,
    ).len());
}

/// A signed payload is read as the fields that were signed.
pub proof fn signed_payload_is_read(input: BootstrapView)
    requires
        is_bindable(input),
    ensures
        ({
            let payload = vstd::utf8::encode_utf8(signed_payload(input));
            &&& payload.len() <= MAX_CLIENT_BINDING_BOOTSTRAP_PAYLOAD_BYTES
            &&& payload_version(payload) == Some(CLIENT_BINDING_BOOTSTRAP_VERSION)
            &&& payload_wire(payload) == Some(
                WireView {
                    version: CLIENT_BINDING_BOOTSTRAP_VERSION,
                    authorization_domain: community::uuid_text(input.authorization_domain),
                    event_author_pubkey: text::hex_lower(input.event_author_pubkey),
                    connection_epoch: input.connection_epoch,
                    issued_at: input.issued_at,
                },
            )
        }),
{
    let written = payload_members(input);
    let payload = vstd::utf8::encode_utf8(signed_payload(input));
    lemma_payload_members(input);
    lemma_signed_payload_len(input);
    json::lemma_object_text_bytes(written);
    json::object_text_is_read_back(written);
    let members = written.map_values(|member: (Seq<char>, Seq<char>)| json::read_back(member));
    assert(json::object_members(payload) == Some(members));
    lemma_member_names();
    assert forall|i: int, j: int| 0 <= i < 5 && 0 <= j < 5 && i != j implies (
    #[trigger] members[i]).0 != (#[trigger] members[j]).0 by {
        assert(members[i].0.len() != members[j].0.len());
    }
    json::lemma_only_named(members, 0);
    json::lemma_only_named(members, 1);
    json::lemma_only_named(members, 2);
    json::lemma_only_named(members, 3);
    json::lemma_only_named(members, 4);
    lemma_wire_text_is_plain(input);
    json::lemma_u64_token(CLIENT_BINDING_BOOTSTRAP_VERSION);
    json::lemma_u64_token(input.issued_at);
    json::lemma_string_token(community::uuid_text(input.authorization_domain));
    json::lemma_string_token(text::hex_lower(input.event_author_pubkey));
    json::lemma_string_token(input.connection_epoch);
}

/// What an event with a signed payload gives on any connection: the first
/// mismatch between what was signed and what the connection expects, or what
/// was signed.
pub open spec fn signed_result(
    input: BootstrapView,
    signer: Seq<u8>,
    relay: Seq<u8>,
    epoch: Seq<char>,
    author: Seq<u8>,
    now: u64,
) -> Result<BootstrapView, ClientBindingBootstrapError> {
    if signer != relay {
        Err(ClientBindingBootstrapError::UnexpectedRelay)
    } else if input.event_author_pubkey != author {
        Err(ClientBindingBootstrapError::EventAuthorMismatch)
    } else if input.connection_epoch != epoch {
        Err(ClientBindingBootstrapError::ConnectionEpochMismatch)
    } else if input.issued_at > now {
        Err(ClientBindingBootstrapError::NotYetValid)
    } else {
        Ok(input)
    }
}

/// `event` carries what was signed from `input`.
pub open spec fn is_signed_from(event: EventView, input: BootstrapView) -> bool {
    &&& event.kind == KIND_CLIENT_BINDING_BOOTSTRAP
    &&& event.content == signed_payload(input)
    &&& event.created_at == input.issued_at
    &&& event.tags.len() == 0
    &&& event::nostr_verifies(event)
}

/// A signed bootstrap validates on the connection that it was signed for, from
/// its issue time on. On any other connection it is refused: for another relay,
/// another author or another epoch.
pub proof fn signed_bootstrap_binds_one_connection(
    event: EventView,
    input: BootstrapView,
    relay: Seq<u8>,
    epoch: Seq<char>,
    author: Seq<u8>,
    now: u64,
)
    requires
        is_bindable(input),
        is_signable(input),
        is_signed_from(event, input),
    ensures
        bootstrap_result(event, relay, epoch, author, now) == signed_result(
            input,
            event.pubkey,
            relay,
            epoch,
            author,
            now,
        ),
{
    signed_payload_is_read(input);
    community::uuid_text_is_canonical(input.authorization_domain);
    event::key_text_is_canonical(input.event_author_pubkey);
}

/// An event that validates holds what the connection expects, and was
/// authenticated, untagged, issued at its own time and not in the future.
pub proof fn validated_bootstrap_is_authentic(
    event: EventView,
    relay: Seq<u8>,
    epoch: Seq<char>,
    author: Seq<u8>,
    now: u64,
)
    requires
        bootstrap_result(event, relay, epoch, author, now) is Ok,
    ensures
        event.kind == KIND_CLIENT_BINDING_BOOTSTRAP,
        event.tags.len() == 0,
        event.pubkey == relay,
        event::nostr_verifies(event),
        bootstrap_result(event, relay, epoch, author, now) matches Ok(bootstrap) && {
            &&& !community::is_nil(bootstrap.authorization_domain)
            &&& bootstrap.event_author_pubkey == author
            &&& bootstrap.connection_epoch == epoch
            &&& bootstrap.issued_at == event.created_at
            &&& 0 < bootstrap.issued_at <= now
        },
{
}

/// No event validates on two connections: what validates on both is expected by
/// both, and gives the same bootstrap.
pub proof fn bootstrap_cannot_be_replayed(
    event: EventView,
    relay: Seq<u8>,
    epoch: Seq<char>,
    author: Seq<u8>,
    now: u64,
    other_relay: Seq<u8>,
    other_epoch: Seq<char>,
    other_author: Seq<u8>,
    later: u64,
)
    requires
        bootstrap_result(event, relay, epoch, author, now) is Ok,
        bootstrap_result(event, other_relay, other_epoch, other_author, later) is Ok,
    ensures
        other_relay == relay,
        other_epoch == epoch,
        other_author == author,
        bootstrap_result(event, other_relay, other_epoch, other_author, later) == bootstrap_result(
            event,
            relay,
            epoch,
            author,
            now,
        ),
{
}

/// A bootstrap that validates at some time does so, with the same result, at every
/// time from its issue time on, and is not yet valid at every time before.
pub proof fn validated_bootstrap_stays_valid(
    event: EventView,
    relay: Seq<u8>,
    epoch: Seq<char>,
    author: Seq<u8>,
    now: u64,
    other: u64,
)
    requires
        bootstrap_result(event, relay, epoch, author, now) is Ok,
    ensures
        bootstrap_result(event, relay, epoch, author, now) matches Ok(bootstrap) && {
            &&& bootstrap.issued_at <= other ==> bootstrap_result(
                event,
                relay,
                epoch,
                author,
                other,
            ) == Ok::<BootstrapView, ClientBindingBootstrapError>(bootstrap)
            &&& other < bootstrap.issued_at ==> bootstrap_result(
                event,
                relay,
                epoch,
                author,
                other,
            ) == Err::<BootstrapView, ClientBindingBootstrapError>(
                ClientBindingBootstrapError::NotYetValid,
            )
        },
{
}

/// Random bytes give an epoch in the wire form, which `parse` accepts and gives
/// back unchanged.
pub proof fn epoch_text_parses(bytes: Seq<u8>)
    requires
        bytes.len() == 32,
    ensures
        parsed_epoch(text::hex_lower(bytes)) == Ok::<Seq<char>, ClientBindingBootstrapError>(
            text::hex_lower(bytes),
        ),
{
    text::lemma_hex_round_trip(bytes);
}

/// Different random bytes give different epochs.
pub proof fn epochs_of_different_bytes_differ(left: Seq<u8>, right: Seq<u8>)
    requires
        left != right,
    ensures
        text::hex_lower(left) != text::hex_lower(right),
{
    text::lemma_hex_round_trip(left);
    text::lemma_hex_round_trip(right);
}

impl ClientBindingBootstrapInputV1 {
    /// An input can be signed.
    #[verifier::type_invariant]
    spec fn can_be_signed(self) -> bool {
        is_signable(self@)
    }

    /// Bind server-resolved connection authority to a native epoch.
    pub fn new(
        authorization_domain: CommunityId,
        event_author_pubkey: PublicKey,
        connection_epoch: ClientBindingEpoch,
        issued_at: u64,
    ) -> (input: Result<Self, ClientBindingBootstrapError>)
        ensures
            match input {
                Ok(value) => {
                    &&& !community::is_nil(authorization_domain@) && issued_at != 0
                    &&& value@ == (BootstrapView {
                        authorization_domain: authorization_domain@,
                        event_author_pubkey: event_author_pubkey@,
                        connection_epoch: connection_epoch@,
                        issued_at,
                    })
                },
                Err(error) => if community::is_nil(authorization_domain@) {
                    error == ClientBindingBootstrapError::InvalidAuthorizationDomain
                } else {
                    issued_at == 0 && error == ClientBindingBootstrapError::InvalidIssueTime
                },
            },
    {
        if authorization_domain.is_nil() {
            return Err(ClientBindingBootstrapError::InvalidAuthorizationDomain);
        }
        if issued_at == 0 {
            return Err(ClientBindingBootstrapError::InvalidIssueTime);
        }
        Ok(
            ClientBindingBootstrapInputV1 {
                authorization_domain,
                event_author_pubkey,
                connection_epoch,
                issued_at,
            },
        )
    }

    /// The payload to be signed.
    fn payload(&self) -> (content: String)
        ensures
            is_bindable(self@),
            content@ == signed_payload(self@),
    {
        let epoch = self.connection_epoch.as_str();
        proof {
            self.authorization_domain.lemma_len();
            lemma_wire_text_is_plain(self@);
        }
        let members = vec![
            ("version", text::decimal_text(CLIENT_BINDING_BOOTSTRAP_VERSION)),
            (
                "authorization_domain",
                json::write_string(self.authorization_domain.to_text().as_str()),
            ),
            ("event_author_pubkey", json::write_string(self.event_author_pubkey.to_hex().as_str())),
            ("connection_epoch", json::write_string(epoch)),
            ("issued_at", text::decimal_text(self.issued_at)),
        ];
        assert(json::written_members(members@) =~= payload_members(self@));
        json::write_object(&members)
    }

    /// Sign the bootstrap with the relay key advertised by NIP-11 `self`. The
    /// event validates, from the issue time on, against that key and what was
    /// signed.
    pub fn sign_with_relay_keys(self, relay_keys: &RelayKeys) -> (event: Result<
        Event,
        ClientBindingBootstrapBuildError,
    >)
        ensures
            event matches Ok(signed) && {
                &&& signed@.pubkey == relay_keys.spec_public_key()
                &&& is_signed_from(signed@, self@)
                &&& forall|now: u64|
                    now >= self@.issued_at ==> #[trigger] bootstrap_result(
                        signed@,
                        relay_keys.spec_public_key(),
                        self@.connection_epoch,
                        self@.event_author_pubkey,
                        now,
                    ) == Ok::<BootstrapView, ClientBindingBootstrapError>(self@)
            },
    {
        proof {
            use_type_invariant(&self);
        }
        let content = self.payload();
        proof {
            signed_payload_is_read(self@);
        }
        if content.as_str().as_bytes().len() > MAX_CLIENT_BINDING_BOOTSTRAP_PAYLOAD_BYTES {
            return Err(ClientBindingBootstrapBuildError::PayloadTooLarge);
        }
        match relay_keys.sign(
            KIND_CLIENT_BINDING_BOOTSTRAP as u16,
            content.as_str(),
            self.issued_at,
        ) {
            Some(signed) => {
                assert forall|now: u64| now >= self@.issued_at implies #[trigger] bootstrap_result(
                    signed@,
                    relay_keys.spec_public_key(),
                    self@.connection_epoch,
                    self@.event_author_pubkey,
                    now,
                ) == Ok::<BootstrapView, ClientBindingBootstrapError>(self@) by {
                    signed_bootstrap_binds_one_connection(
                        signed@,
                        self@,
                        relay_keys.spec_public_key(),
                        self@.connection_epoch,
                        self@.event_author_pubkey,
                        now,
                    );
                }
                Ok(signed)
            },
            None => Err(ClientBindingBootstrapBuildError::Signing),
        }
    }

    /// The text for diagnostics, which shows no value.
    pub fn debug_text(&self) -> (shown: String)
        ensures
            shown@ == "ClientBindingBootstrapInputV1 { authorization_domain: \"[redacted]\", event_author_pubkey: \"[redacted]\", connection_epoch: \"[redacted]\", issued_at: \"[redacted]\" }"@,
    {
        "ClientBindingBootstrapInputV1 { authorization_domain: \"[redacted]\", event_author_pubkey: \"[redacted]\", connection_epoch: \"[redacted]\", issued_at: \"[redacted]\" }".to_owned()
    }
}

/// An event is accepted exactly if it is an authentic, untagged event of the
/// bootstrap kind by the expected relay, with a payload of at most 1024 bytes of
/// version 1 whose fields are the text of a domain that is not nil, of the expected
/// author and of the expected epoch, and the time of the event, which is not zero
/// and not in the future.
pub proof fn bootstrap_is_accepted_exactly_if(
    event: EventView,
    relay: Seq<u8>,
    epoch: Seq<char>,
    author: Seq<u8>,
    now: u64,
)
    requires
        author.len() == 32,
        text::is_canonical_hex(epoch),
    ensures
        ({
            let payload = vstd::utf8::encode_utf8(event.content);
            bootstrap_result(event, relay, epoch, author, now) is Ok <==> {
                &&& event.kind == 24245
                &&& payload.len() <= 1024
                &&& event::nostr_verifies(event)
                &&& event.pubkey == relay
                &&& event.tags.len() == 0
                &&& payload_version(payload) == Some(1u64)
                &&& payload_wire(payload) matches Some(wire) && {
                    &&& exists|domain: Seq<u8>|
                        {
                            &&& domain.len() == 16
                            &&& domain != Seq::new(16, |i: int| 0u8)
                            &&& wire.authorization_domain == #[trigger] community::uuid_text(
                                domain,
                            )
                        }
                    &&& wire.event_author_pubkey == text::hex_lower(author)
                    &&& wire.connection_epoch == epoch
                    &&& wire.issued_at == event.created_at
                    &&& 0 < wire.issued_at <= now
                }
            }
        }),
        bootstrap_result(event, relay, epoch, author, now) matches Ok(bootstrap) ==> {
            &&& bootstrap.event_author_pubkey == author
            &&& bootstrap.connection_epoch == epoch
            &&& bootstrap.issued_at == event.created_at
            &&& payload_wire(vstd::utf8::encode_utf8(event.content)) matches Some(wire)
                && community::uuid_text(bootstrap.authorization_domain)
                == wire.authorization_domain
        },
{
    event::key_text_is_canonical(author);
    if let Some(wire) = payload_wire(vstd::utf8::encode_utf8(event.content)) {
        community::uuid_is_read_exactly_from_its_text(wire.authorization_domain);
        event::key_is_read_exactly_from_its_text(wire.event_author_pubkey);
        if let Some(domain) = community::canonical_uuid(wire.authorization_domain) {
            community::nil_is_all_zeros(domain);
            assert(wire.authorization_domain == community::uuid_text(domain));
        }
    }
}

/// The envelope of an event is looked at before its payload: the kind, the length,
/// the authenticity, the relay, the tags, and then the version. Each failure has
/// its own error, and only that.
pub proof fn envelope_is_refused_in_order(
    event: EventView,
    relay: Seq<u8>,
    epoch: Seq<char>,
    author: Seq<u8>,
    now: u64,
)
    ensures
        ({
            let payload = vstd::utf8::encode_utf8(event.content);
            let result = bootstrap_result(event, relay, epoch, author, now);
            let kind = event.kind == 24245;
            let short = payload.len() <= 1024;
            let authentic = event::nostr_verifies(event);
            let trusted = event.pubkey == relay;
            let untagged = event.tags.len() == 0;
            &&& !kind <==> result == Err::<BootstrapView, ClientBindingBootstrapError>(
                ClientBindingBootstrapError::WrongKind,
            )
            &&& kind && !short <==> result == Err::<BootstrapView, ClientBindingBootstrapError>(
                ClientBindingBootstrapError::PayloadTooLarge,
            )
            &&& kind && short && !authentic <==> result == Err::<
                BootstrapView,
                ClientBindingBootstrapError,
            >(ClientBindingBootstrapError::UnauthenticatedEvent)
            &&& kind && short && authentic && !trusted <==> result == Err::<
                BootstrapView,
                ClientBindingBootstrapError,
            >(ClientBindingBootstrapError::UnexpectedRelay)
            &&& kind && short && authentic && trusted && !untagged <==> result == Err::<
                BootstrapView,
                ClientBindingBootstrapError,
            >(ClientBindingBootstrapError::UnexpectedTags)
            &&& kind && short && authentic && trusted && untagged && (payload_version(payload)
                is None || (payload_version(payload) == Some(1u64) && payload_wire(payload)
                is None)) <==> result == Err::<BootstrapView, ClientBindingBootstrapError>(
                ClientBindingBootstrapError::MalformedPayload,
            )
            &&& kind && short && authentic && trusted && untagged && (payload_version(
                payload,
            ) matches Some(version) && version != 1) <==> result == Err::<
                BootstrapView,
                ClientBindingBootstrapError,
            >(ClientBindingBootstrapError::UnsupportedVersion)
        }),
{
}

/// The fields of a payload are looked at in order: the domain, the author, whether
/// it is the expected one, the epoch, whether it is the expected one, and the three
/// rules of the issue time. Each failure has its own error, and only that.
pub proof fn fields_are_refused_in_order(
    wire: WireView,
    created_at: u64,
    epoch: Seq<char>,
    author: Seq<u8>,
    now: u64,
)
    ensures
        ({
            let result = wire_result(wire, created_at, epoch, author, now);
            let domain = community::canonical_uuid(wire.authorization_domain) matches Some(bytes)
                && !community::is_nil(bytes);
            let key = event::canonical_key(wire.event_author_pubkey);
            let hex = text::is_canonical_hex(wire.connection_epoch);
            let scoped = domain && key == Some(author) && hex && wire.connection_epoch == epoch;
            &&& !domain <==> result == Err::<BootstrapView, ClientBindingBootstrapError>(
                ClientBindingBootstrapError::InvalidAuthorizationDomain,
            )
            &&& domain && key is None <==> result == Err::<
                BootstrapView,
                ClientBindingBootstrapError,
            >(ClientBindingBootstrapError::InvalidEventAuthorPubkey)
            &&& domain && key is Some && key != Some(author) <==> result == Err::<
                BootstrapView,
                ClientBindingBootstrapError,
            >(ClientBindingBootstrapError::EventAuthorMismatch)
            &&& domain && key == Some(author) && !hex <==> result == Err::<
                BootstrapView,
                ClientBindingBootstrapError,
            >(ClientBindingBootstrapError::InvalidConnectionEpoch)
            &&& domain && key == Some(author) && hex && wire.connection_epoch != epoch <==> result
                == Err::<BootstrapView, ClientBindingBootstrapError>(
                ClientBindingBootstrapError::ConnectionEpochMismatch,
            )
            &&& scoped && wire.issued_at == 0 <==> result == Err::<
                BootstrapView,
                ClientBindingBootstrapError,
            >(ClientBindingBootstrapError::InvalidIssueTime)
            &&& scoped && wire.issued_at != 0 && wire.issued_at != created_at <==> result == Err::<
                BootstrapView,
                ClientBindingBootstrapError,
            >(ClientBindingBootstrapError::EventTimeMismatch)
            &&& scoped && wire.issued_at != 0 && wire.issued_at == created_at && wire.issued_at
                > now <==> result == Err::<BootstrapView, ClientBindingBootstrapError>(
                ClientBindingBootstrapError::NotYetValid,
            )
        }),
{
}

/// The result of a payload that has the version and the fields is that of its
/// fields, taken at the time of the event.
pub proof fn payload_fields_decide(
    event: EventView,
    relay: Seq<u8>,
    epoch: Seq<char>,
    author: Seq<u8>,
    now: u64,
    wire: WireView,
)
    requires
        event.kind == 24245,
        vstd::utf8::encode_utf8(event.content).len() <= 1024,
        event::nostr_verifies(event),
        event.pubkey == relay,
        event.tags.len() == 0,
        payload_version(vstd::utf8::encode_utf8(event.content)) == Some(1u64),
        payload_wire(vstd::utf8::encode_utf8(event.content)) == Some(wire),
    ensures
        bootstrap_result(event, relay, epoch, author, now) == wire_result(
            wire,
            event.created_at,
            epoch,
            author,
            now,
        ),
{
}

/// Five names that differ: members of other names are not counted among them.
proof fn lemma_five_names(
    members: Seq<json::MemberView>,
    a: Seq<char>,
    b: Seq<char>,
    c: Seq<char>,
    d: Seq<char>,
    e: Seq<char>,
)
    requires
        a != b && a != c && a != d && a != e && b != c && b != d && b != e && c != d && c != e && d
            != e,
    ensures
        ({
            let total = json::count_named(members, a) + json::count_named(members, b)
                + json::count_named(members, c) + json::count_named(members, d)
                + json::count_named(members, e);
            &&& total <= members.len()
            &&& (exists|i: int|
                0 <= i < members.len() && (#[trigger] members[i]).0 != a && members[i].0 != b
                    && members[i].0 != c && members[i].0 != d && members[i].0 != e) ==> total
                < members.len()
        }),
    decreases members.len(),
{
    if members.len() > 0 {
        let before = members.drop_last();
        lemma_five_names(before, a, b, c, d, e);
        if exists|i: int|
            0 <= i < members.len() && (#[trigger] members[i]).0 != a && members[i].0 != b
                && members[i].0 != c && members[i].0 != d && members[i].0 != e {
            let i = choose|i: int|
                0 <= i < members.len() && (#[trigger] members[i]).0 != a && members[i].0 != b
                    && members[i].0 != c && members[i].0 != d && members[i].0 != e;
            if i < members.len() - 1 {
                assert(before[i] == members[i]);
            }
        }
    }
}

/// A payload that is read is an object of exactly five members, one for each
/// field, and each field is read from the member of its name.
pub proof fn payload_holds_exactly_its_fields(payload: Seq<u8>)
    requires
        payload_wire(payload) is Some,
    ensures
        json::object_members(payload) matches Some(members) && payload_wire(
            payload,
        ) matches Some(wire) && {
            &&& members.len() == 5
            &&& forall|i: int|
                0 <= i < 5 ==> {
                    let (name, token) = #[trigger] members[i];
                    ||| name == "version"@ && json::u64_token(token) == Some(wire.version)
                    ||| name == "authorization_domain"@ && json::string_token(token) == Some(
                        wire.authorization_domain,
                    )
                    ||| name == "event_author_pubkey"@ && json::string_token(token) == Some(
                        wire.event_author_pubkey,
                    )
                    ||| name == "connection_epoch"@ && json::string_token(token) == Some(
                        wire.connection_epoch,
                    )
                    ||| name == "issued_at"@ && json::u64_token(token) == Some(wire.issued_at)
                }
        },
{
    lemma_member_names();
    let members = json::object_members(payload).unwrap();
    let wire = payload_wire(payload).unwrap();
    lemma_five_names(
        members,
        "version"@,
        "authorization_domain"@,
        "event_author_pubkey"@,
        "connection_epoch"@,
        "issued_at"@,
    );
    json::name_is_read_exactly_if_single(members, "version"@);
    json::name_is_read_exactly_if_single(members, "authorization_domain"@);
    json::name_is_read_exactly_if_single(members, "event_author_pubkey"@);
    json::name_is_read_exactly_if_single(members, "connection_epoch"@);
    json::name_is_read_exactly_if_single(members, "issued_at"@);
    assert forall|i: int| 0 <= i < 5 implies {
        let (name, token) = #[trigger] members[i];
        ||| name == "version"@ && json::u64_token(token) == Some(wire.version)
        ||| name == "authorization_domain"@ && json::string_token(token) == Some(
            wire.authorization_domain,
        )
        ||| name == "event_author_pubkey"@ && json::string_token(token) == Some(
            wire.event_author_pubkey,
        )
        ||| name == "connection_epoch"@ && json::string_token(token) == Some(
            wire.connection_epoch,
        )
        ||| name == "issued_at"@ && json::u64_token(token) == Some(wire.issued_at)
    } by {
        let (name, token) = members[i];
        assert(members[i].0 == name);
    }
}

/// An object with the five fields is read in whatever order its members stand.
pub proof fn payload_is_read_in_any_order(
    payload: Seq<u8>,
    members: Seq<json::MemberView>,
    wire: WireView,
    v: int,
    d: int,
    a: int,
    e: int,
    t: int,
)
    requires
        json::object_members(payload) == Some(members),
        members.len() == 5,
        0 <= v < 5 && 0 <= d < 5 && 0 <= a < 5 && 0 <= e < 5 && 0 <= t < 5,
        members[v].0 == "version"@ && json::u64_token(members[v].1) == Some(wire.version),
        members[d].0 == "authorization_domain"@ && json::string_token(members[d].1) == Some(
            wire.authorization_domain,
        ),
        members[a].0 == "event_author_pubkey"@ && json::string_token(members[a].1) == Some(
            wire.event_author_pubkey,
        ),
        members[e].0 == "connection_epoch"@ && json::string_token(members[e].1) == Some(
            wire.connection_epoch,
        ),
        members[t].0 == "issued_at"@ && json::u64_token(members[t].1) == Some(wire.issued_at),
    ensures
        payload_wire(payload) == Some(wire),
        payload_version(payload) == Some(wire.version),
{
    lemma_member_names();
    assert(members[v].0.len() == 7 && members[d].0.len() == 20 && members[a].0.len() == 19
        && members[e].0.len() == 16 && members[t].0.len() == 9);
    assert forall|i: int| 0 <= i < 5 && i != v implies (#[trigger] members[i]).0 != members[v].0 by {
        assert(i == d || i == a || i == e || i == t);
    }
    assert forall|i: int| 0 <= i < 5 && i != d implies (#[trigger] members[i]).0 != members[d].0 by {
        assert(i == v || i == a || i == e || i == t);
    }
    assert forall|i: int| 0 <= i < 5 && i != a implies (#[trigger] members[i]).0 != members[a].0 by {
        assert(i == v || i == d || i == e || i == t);
    }
    assert forall|i: int| 0 <= i < 5 && i != e implies (#[trigger] members[i]).0 != members[e].0 by {
        assert(i == v || i == d || i == a || i == t);
    }
    assert forall|i: int| 0 <= i < 5 && i != t implies (#[trigger] members[i]).0 != members[t].0 by {
        assert(i == v || i == d || i == a || i == e);
    }
    json::lemma_only_named(members, v);
    json::lemma_only_named(members, d);
    json::lemma_only_named(members, a);
    json::lemma_only_named(members, e);
    json::lemma_only_named(members, t);
}

/// The version of an object is that of its one member called `version`, whatever
/// else it holds; without such a member, or with two, there is none.
pub proof fn version_is_read_from_its_member(
    payload: Seq<u8>,
    members: Seq<json::MemberView>,
)
    requires
        json::object_members(payload) == Some(members),
    ensures
        (forall|i: int| 0 <= i < members.len() ==> (#[trigger] members[i]).0 != "version"@)
            ==> payload_version(payload) is None,
        forall|i: int, j: int|
            0 <= i < j < members.len() && (#[trigger] members[i]).0 == "version"@ && (
            #[trigger] members[j]).0 == "version"@ ==> payload_version(payload) is None,
        forall|i: int|
            0 <= i < members.len() && (#[trigger] members[i]).0 == "version"@ && (forall|j: int|
                0 <= j < members.len() && j != i ==> (#[trigger] members[j]).0 != "version"@)
                ==> payload_version(payload) == json::u64_token(members[i].1),
{
    json::name_is_read_exactly_if_single(members, "version"@);
}

/// `parse` accepts exactly the lowercase digits of 32 bytes, and gives them back.
pub proof fn epoch_is_parsed_exactly_from_32_bytes(value: Seq<char>)
    ensures
        parsed_epoch(value) is Ok <==> exists|bytes: Seq<u8>|
            bytes.len() == 32 && #[trigger] text::hex_lower(bytes) == value,
        parsed_epoch(value) matches Ok(epoch) ==> epoch == value,
        parsed_epoch(value) matches Err(error) ==> error
            == ClientBindingBootstrapError::InvalidConnectionEpoch,
{
    text::canonical_hex_is_of_32_bytes(value);
}

/// Whether an event verifies is all that its result takes from its identifier and
/// its signature.
pub proof fn result_rests_on_verification(
    event: EventView,
    relay: Seq<u8>,
    epoch: Seq<char>,
    author: Seq<u8>,
    now: u64,
)
    ensures
        event::nostr_verifies(event) ==> bootstrap_result(event, relay, epoch, author, now)
            == bootstrap_outcome(event, true, relay, epoch, author, now),
        !event::nostr_verifies(event) ==> bootstrap_result(event, relay, epoch, author, now)
            == bootstrap_outcome(event, false, relay, epoch, author, now),
        bootstrap_outcome(event, false, relay, epoch, author, now) is Err,
{
}

/// Each refusal tells what was wrong.
pub proof fn refusals_have_their_texts()
    ensures
        bootstrap_error_text(ClientBindingBootstrapError::WrongKind) == "client binding bootstrap event has the wrong kind"@,
        bootstrap_error_text(ClientBindingBootstrapError::PayloadTooLarge) == "client binding bootstrap payload is too large"@,
        bootstrap_error_text(ClientBindingBootstrapError::UnauthenticatedEvent) == "client binding bootstrap event is not authenticated"@,
        bootstrap_error_text(ClientBindingBootstrapError::UnexpectedRelay) == "client binding bootstrap signer is not the trusted relay"@,
        bootstrap_error_text(ClientBindingBootstrapError::UnexpectedTags) == "client binding bootstrap contains unexpected tags"@,
        bootstrap_error_text(ClientBindingBootstrapError::MalformedPayload) == "client binding bootstrap payload is malformed"@,
        bootstrap_error_text(ClientBindingBootstrapError::UnsupportedVersion) == "client binding bootstrap version is unsupported"@,
        bootstrap_error_text(ClientBindingBootstrapError::InvalidAuthorizationDomain) == "client binding bootstrap authorization domain is invalid"@,
        bootstrap_error_text(ClientBindingBootstrapError::InvalidEventAuthorPubkey) == "client binding bootstrap event author is invalid"@,
        bootstrap_error_text(ClientBindingBootstrapError::EventAuthorMismatch) == "client binding bootstrap event author does not match"@,
        bootstrap_error_text(ClientBindingBootstrapError::InvalidConnectionEpoch) == "client binding bootstrap connection epoch is invalid"@,
        bootstrap_error_text(ClientBindingBootstrapError::ConnectionEpochMismatch) == "client binding bootstrap connection epoch does not match"@,
        bootstrap_error_text(ClientBindingBootstrapError::InvalidIssueTime) == "client binding bootstrap issue time is invalid"@,
        bootstrap_error_text(ClientBindingBootstrapError::EventTimeMismatch) == "client binding bootstrap event time does not match"@,
        bootstrap_error_text(ClientBindingBootstrapError::NotYetValid) == "client binding bootstrap is not yet valid"@,
        build_error_text(ClientBindingBootstrapBuildError::Serialization) == "client binding bootstrap serialization failed"@,
        build_error_text(ClientBindingBootstrapBuildError::PayloadTooLarge) == "client binding bootstrap payload is too large"@,
        build_error_text(ClientBindingBootstrapBuildError::Signing) == "client binding bootstrap signing failed"@,
{
}

} // verus!
