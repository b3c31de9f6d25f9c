//! Signed Nostr events, and the keys that sign them.

use vstd::prelude::*;

use crate::text;

verus! {

/// A public key in its x-only form of 32 bytes.
#[derive(Clone, Copy, PartialEq, Eq, Hash, Debug)]
pub struct PublicKey {
    pub bytes: [u8; 32],
}

impl View for PublicKey {
    type V = Seq<u8>;

    open spec fn view(&self) -> Seq<u8> {
        self.bytes@
    }
}

/// The key that a hexadecimal text of either case stands for.
pub open spec fn key_from_hex(characters: Seq<char>) -> Option<Seq<u8>> {
    if characters.len() == 64 && forall|i: int|
        0 <= i < 64 ==> text::is_hex_char(#[trigger] characters[i]) {
        Some(text::hex_bytes(characters))
    } else {
        None
    }
}

/// The key whose canonical text, 64 lowercase digits, is `characters`.
pub open spec fn canonical_key(characters: Seq<char>) -> Option<Seq<u8>> {
    if text::is_canonical_hex(characters) {
        Some(text::hex_bytes(characters))
    } else {
        None
    }
}

/// The bytes of a key, where there is one.
pub open spec fn optional_key(key: Option<PublicKey>) -> Option<Seq<u8>> {
    match key {
        Some(present) => Some(present@),
        None => None,
    }
}

/// `nostr::PublicKey::from_hex`: 64 hexadecimal digits of either case give the
/// key of those 32 bytes, and nothing else gives a key.
#[verifier::external_body]
fn nostr_key_from_hex(characters: &str) -> (key: Option<PublicKey>)
    ensures
        optional_key(key) == key_from_hex(characters@),
{
    nostr::PublicKey::from_hex(characters).ok().map(|key| PublicKey { bytes: key.to_bytes() })
}

/// `nostr::PublicKey::to_hex`: the lowercase digits of the key.
#[verifier::external_body]
fn nostr_key_to_hex(key: &PublicKey) -> (characters: String)
    ensures
        characters@ == text::hex_lower(key@),
{
    nostr::PublicKey::from_byte_array(key.bytes).to_hex()
}

impl PublicKey {
    /// The key as 64 lowercase digits.
    pub fn to_hex(&self) -> (characters: String)
        ensures
            characters@ == text::hex_lower(self@),
    {
        nostr_key_to_hex(self)
    }

    /// The key whose canonical text, 64 lowercase digits, is `characters`.
    pub fn parse_canonical(characters: &str) -> (key: Option<Self>)
        ensures
            optional_key(key) == canonical_key(characters@),
    {
        if !text::is_canonical_hex_text(characters) {
            return None;
        }
        nostr_key_from_hex(characters)
    }

    /// Whether the two are the same key.
    pub fn is_same(&self, other: &Self) -> (same: bool)
        ensures
            same == (self@ == other@),
    {
        text::same_bytes(&self.bytes, &other.bytes)
    }
}

/// The canonical text of a key is read as that key.
pub proof fn key_text_is_canonical(key: Seq<u8>)
    requires
        key.len() == 32,
    ensures
        canonical_key(text::hex_lower(key)) == Some(key),
{
    text::lemma_hex_round_trip(key);
}

/// A signed event.
pub struct Event {
    pub id: [u8; 32],
    pub pubkey: PublicKey,
    /// Unix seconds.
    pub created_at: u64,
    pub kind: u16,
    pub tags: Vec<Vec<String>>,
    pub content: String,
    pub sig: [u8; 64],
}

/// What an event holds.
pub struct EventView {
    pub id: Seq<u8>,
    pub pubkey: Seq<u8>,
    pub created_at: u64,
    pub kind: u16,
    pub tags: Seq<Seq<Seq<char>>>,
    pub content: Seq<char>,
    pub sig: Seq<u8>,
}

impl View for Event {
    type V = EventView;

    open spec fn view(&self) -> EventView {
        EventView {
            id: self.id@,
            pubkey: self.pubkey@,
            created_at: self.created_at,
            kind: self.kind,
            tags: self.tags@.map_values(
                |tag: Vec<String>| tag@.map_values(|item: String| item@),
            ),
            content: self.content@,
            sig: self.sig@,
        }
    }
}

/// What an event holds, where there is one.
pub open spec fn optional_event(event: Option<Event>) -> Option<EventView> {
    match event {
        Some(present) => Some(present@),
        None => None,
    }
}

/// Whether `nostr` finds that the event's identifier is the hash of what the
/// event holds and its signature is one of its author on that hash.
pub uninterp spec fn nostr_verifies(event: EventView) -> bool;

/// The event that `nostr` reads from JSON text.
pub uninterp spec fn nostr_event(json: Seq<char>) -> Option<EventView>;

/// The public key that `nostr` derives from a secret key. `None`: the bytes are
/// no secret key.
pub uninterp spec fn nostr_public_key(secret: Seq<u8>) -> Option<Seq<u8>>;

/// `nostr::Event::verify`. An event with an empty tag, which `nostr::Tag::parse`
/// refuses, does not verify.
#[verifier::external_body]
fn nostr_verify(event: &Event) -> (verified: bool)
    ensures
        verified == nostr_verifies(event@),
{
    let tags = event.tags.iter().map(|tag| nostr::Tag::parse(tag.clone())).collect::<
        Result<Vec<_>, _>,
    >();
    match (tags, nostr::secp256k1::schnorr::Signature::from_slice(&event.sig)) {
        (Ok(tags), Ok(sig)) => {
            let id = nostr::EventId::from_byte_array(event.id);
            let key = nostr::PublicKey::from_byte_array(event.pubkey.bytes);
            let time = nostr::Timestamp::from_secs(event.created_at);
            let kind = nostr::Kind::from(event.kind);
            nostr::Event::new(id, key, time, kind, tags, event.content.clone(), sig).verify().is_ok()
        },
        _ => false,
    }
}

/// `serde_json` into a `nostr::Event`, by way of a `serde_json::Value`.
#[verifier::external_body]
fn nostr_event_from_json(json: &str) -> (event: Option<Event>)
    ensures
        optional_event(event) == nostr_event(json@),
{
    let value: serde_json::Value = serde_json::from_str(json).ok()?;
    let event: nostr::Event = serde_json::from_value(value).ok()?;
    Some(
        Event {
            id: event.id.to_bytes(),
            pubkey: PublicKey { bytes: event.pubkey.to_bytes() },
            created_at: event.created_at.as_secs(),
            kind: event.kind.as_u16(),
            tags: event.tags.iter().map(|tag| tag.as_slice().to_vec()).collect(),
            content: event.content,
            sig: event.sig.serialize(),
        },
    )
}

/// `nostr::SecretKey::from_slice` and the public key of the `nostr::Keys` made
/// from it.
#[verifier::external_body]
fn nostr_derive_public_key(secret: &[u8; 32]) -> (key: Option<PublicKey>)
    ensures
        optional_key(key) == nostr_public_key(secret@),
{
    nostr::SecretKey::from_slice(secret).ok().map(
        |secret| PublicKey { bytes: nostr::Keys::new(secret).public_key().to_bytes() },
    )
}

/// `nostr::EventBuilder::sign_with_keys`, on a builder with a kind, a content, a
/// creation time and no tags. With a secret key it signs: the event holds what
/// was given, its author is the key's public key, and it verifies. Which
/// identifier and signature it carries is not stated: the signature is drawn
/// with fresh randomness.
#[verifier::external_body]
fn nostr_sign(secret: &[u8; 32], kind: u16, content: &str, created_at: u64) -> (event: Option<
    Event,
>)
    ensures
        event.is_some() == nostr_public_key(secret@).is_some(),
        event matches Some(signed) ==> {
            &&& Some(signed@.pubkey) == nostr_public_key(secret@)
            &&& signed@.kind == kind
            &&& signed@.content == content@
            &&& signed@.created_at == created_at
            &&& signed@.tags.len() == 0
            &&& nostr_verifies(signed@)
        },
{
    let keys = nostr::Keys::new(nostr::SecretKey::from_slice(secret).ok()?);
    let builder = nostr::EventBuilder::new(nostr::Kind::Custom(kind), content).tags([]);
    let time = nostr::Timestamp::from(created_at);
    let event = builder.custom_created_at(time).sign_with_keys(&keys).ok()?;
    Some(
        Event {
            id: event.id.to_bytes(),
            pubkey: PublicKey { bytes: event.pubkey.to_bytes() },
            created_at: event.created_at.as_secs(),
            kind: event.kind.as_u16(),
            tags: event.tags.iter().map(|tag| tag.as_slice().to_vec()).collect(),
            content: event.content,
            sig: event.sig.serialize(),
        },
    )
}

impl Event {
    /// Whether the identifier and the signature are those of the event.
    pub fn verify(&self) -> (verified: bool)
        ensures
            verified == nostr_verifies(self@),
    {
        nostr_verify(self)
    }

    /// The event that JSON text holds.
    pub fn from_json(json: &str) -> (event: Option<Self>)
        ensures
            optional_event(event) == nostr_event(json@),
    {
        nostr_event_from_json(json)
    }
}

/// The key pair with which a relay signs.
pub struct RelayKeys {
    secret: [u8; 32],
    public: PublicKey,
}

impl RelayKeys {
    /// The public key is the one of the secret key.
    #[verifier::type_invariant]
    spec fn is_pair(self) -> bool {
        nostr_public_key(self.secret@) == Some(self.public@)
    }

    /// The public key of the pair.
    pub closed spec fn spec_public_key(self) -> Seq<u8> {
        self.public@
    }

    /// The pair of a secret key.
    pub fn from_secret_bytes(secret: [u8; 32]) -> (keys: Option<Self>)
        ensures
            keys.is_some() == nostr_public_key(secret@).is_some(),
            keys matches Some(pair) ==> nostr_public_key(secret@) == Some(pair.spec_public_key()),
    {
        match nostr_derive_public_key(&secret) {
            Some(public) => Some(RelayKeys { secret, public }),
            None => None,
        }
    }

    /// The public key of the pair.
    pub fn public_key(&self) -> (key: PublicKey)
        ensures
            key@ == self.spec_public_key(),
    {
        self.public
    }

    /// An event of `kind` without tags, signed with this pair.
    pub fn sign(&self, kind: u16, content: &str, created_at: u64) -> (event: Option<Event>)
        ensures
            event matches Some(signed) && {
                &&& signed@.pubkey == self.spec_public_key()
                &&& signed@.kind == kind
                &&& signed@.content == content@
                &&& signed@.created_at == created_at
                &&& signed@.tags.len() == 0
                &&& nostr_verifies(signed@)
            },
    {
        proof {
            use_type_invariant(self);
        }
        nostr_sign(&self.secret, kind, content, created_at)
    }
}

/// The lowercase digits of a key, and no other text, are read as that key.
pub proof fn key_is_read_exactly_from_its_text(characters: Seq<char>)
    ensures
        canonical_key(characters) matches Some(key) ==> key.len() == 32 && text::hex_lower(key)
            == characters,
        forall|key: Seq<u8>|
            key.len() == 32 && #[trigger] text::hex_lower(key) == characters ==> canonical_key(
                characters,
            ) == Some(key),
{
    if text::is_canonical_hex(characters) {
        text::lemma_canonical_hex(characters);
    }
    assert forall|key: Seq<u8>|
        key.len() == 32 && #[trigger] text::hex_lower(key) == characters implies canonical_key(
        characters,
    ) == Some(key) by {
        key_text_is_canonical(key);
    }
}

} // verus!
