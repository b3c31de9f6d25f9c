//! The relay's own signing key, as its NIP-11 document gives it.

use vstd::prelude::*;

use crate::client_binding_bootstrap::ClientBindingEpoch;
use crate::client_binding_status_session;
use crate::client_binding_status_session::ClientBindingStatusSession;
use crate::event;
use crate::event::PublicKey;
use crate::json;
use crate::text;

verus! {

/// The longest NIP-11 document that is read.
pub const MAX_NIP11_BODY_BYTES: usize = 65536;

/// The last position in a URL that can move two bytes further, as a longer scheme
/// makes it: positions are 32 bits wide.
pub const MAX_RELAY_URL_POSITION: usize = 0xffff_fffd;

/// The host of a URL.
#[derive(PartialEq, Eq, Debug)]
pub enum RelayHost {
    /// No host.
    Missing,
    Domain(String),
    Ipv4([u8; 4]),
    Ipv6([u8; 16]),
}

/// The host of a URL.
pub enum HostView {
    Missing,
    Domain(Seq<char>),
    Ipv4(Seq<u8>),
    Ipv6(Seq<u8>),
}

impl View for RelayHost {
    type V = HostView;

    open spec fn view(&self) -> HostView {
        match self {
            RelayHost::Missing => HostView::Missing,
            RelayHost::Domain(name) => HostView::Domain(name@),
            RelayHost::Ipv4(address) => HostView::Ipv4(address@),
            RelayHost::Ipv6(address) => HostView::Ipv6(address@),
        }
    }
}

/// A URL in its normal form.
#[derive(PartialEq, Eq, Debug)]
pub struct RelayUrl {
    /// The whole URL.
    pub serialization: String,
    /// What stands before the first colon.
    pub scheme: String,
    pub host: RelayHost,
    /// Where the path starts.
    pub path_start: usize,
    /// Where the path ends: at the query, the fragment or the end.
    pub path_end: usize,
    /// Where the query ends, or the path if there is none: at the fragment or the
    /// end.
    pub query_end: usize,
}

/// A URL in its normal form.
pub struct UrlView {
    pub serialization: Seq<char>,
    pub scheme: Seq<char>,
    pub host: HostView,
    pub path_start: usize,
    pub path_end: usize,
    pub query_end: usize,
}

impl View for RelayUrl {
    type V = UrlView;

    open spec fn view(&self) -> UrlView {
        UrlView {
            serialization: self.serialization@,
            scheme: self.scheme@,
            host: self.host@,
            path_start: self.path_start,
            path_end: self.path_end,
            query_end: self.query_end,
        }
    }
}

/// A URL, where there is one.
pub open spec fn optional_url(url: Option<RelayUrl>) -> Option<UrlView> {
    match url {
        Some(present) => Some(present@),
        None => None,
    }
}

/// The positions of a URL can move two bytes further: where the path starts, where
/// the query starts if there is one, and where the fragment starts if there is one.
/// What stands before the path has smaller positions.
pub open spec fn positions_can_move(url: UrlView) -> bool {
    let end = vstd::utf8::encode_utf8(url.serialization).len();
    &&& url.path_start <= MAX_RELAY_URL_POSITION
    &&& url.path_end < url.query_end ==> url.path_end <= MAX_RELAY_URL_POSITION
    &&& url.query_end < end ==> url.query_end <= MAX_RELAY_URL_POSITION
}

/// What `url` reads from a text.
pub uninterp spec fn parsed_url(characters: Seq<char>) -> Option<UrlView>;

/// `url::Url::parse`, with the serialization, the scheme, the host, and the
/// positions of path and query of the URL.
#[verifier::external_body]
fn parse_url(characters: &str) -> (url: Option<RelayUrl>)
    ensures
        optional_url(url) == parsed_url(characters@),
{
    let url = url::Url::parse(characters).ok()?;
    let host = match url.host() {
        None => RelayHost::Missing,
        Some(url::Host::Domain(name)) => RelayHost::Domain(name.to_owned()),
        Some(url::Host::Ipv4(address)) => RelayHost::Ipv4(address.octets()),
        Some(url::Host::Ipv6(address)) => RelayHost::Ipv6(address.octets()),
    };
    let scheme = url.scheme().to_owned();
    let path_start = url[..url::Position::BeforePath].len();
    let path_end = url[..url::Position::AfterPath].len();
    let query_end = url[..url::Position::AfterQuery].len();
    Some(RelayUrl { serialization: url.into(), scheme, host, path_start, path_end, query_end })
}

/// `url::Url::set_scheme`, from `wss` to `https` or from `ws` to `http`. These
/// schemes have a host and the same default ports, so the change succeeds and
/// exchanges what stands before the first colon. A URL keeps the positions of its
/// parts, 32 bits wide, and all of them move: each must have room to.
#[verifier::external_body]
fn change_scheme(characters: &str, scheme: &str) -> (changed: Option<String>)
    requires
        parsed_url(characters@) matches Some(url) && {
            &&& (url.scheme == "wss"@ && scheme@ == "https"@) || (url.scheme == "ws"@ && scheme@
                == "http"@)
            &&& positions_can_move(url)
        },
    ensures
        text::optional_view(changed) == match parsed_url(characters@) {
            Some(url) => Some(scheme@ + url.serialization.skip(url.scheme.len() as int)),
            None => None,
        },
{
    let mut url = url::Url::parse(characters).ok()?;
    url.set_scheme(scheme).ok()?;
    Some(url.into())
}

/// An ASCII letter in lower case; any other character as it is.
pub open spec fn ascii_lower(c: char) -> char {
    if 'A' <= c && c <= 'Z' {
        (c as u32 + 32) as char
    } else {
        c
    }
}

/// The same text but for the case of ASCII letters.
pub open spec fn same_ignoring_case(left: Seq<char>, right: Seq<char>) -> bool {
    &&& left.len() == right.len()
    &&& forall|i: int|
        0 <= i < left.len() ==> ascii_lower(#[trigger] left[i]) == ascii_lower(right[i])
}

/// The host is this machine: the name `localhost`, an IPv4 address that starts
/// with 127, or the IPv6 address one.
pub open spec fn is_loopback_host(host: HostView) -> bool {
    match host {
        HostView::Missing => false,
        HostView::Domain(name) => same_ignoring_case(name, "localhost"@),
        HostView::Ipv4(address) => address[0] == 127,
        HostView::Ipv6(address) => address[15] == 1 && forall|i: int|
            0 <= i < 15 ==> #[trigger] address[i] == 0,
    }
}

/// The scheme by which the NIP-11 document of a relay URL is fetched: over TLS for
/// `wss`, and in the clear only for `ws` to this machine.
pub open spec fn identity_scheme(url: UrlView) -> Option<Seq<char>> {
    if !positions_can_move(url) {
        None
    } else if url.scheme == "wss"@ {
        Some("https"@)
    } else if url.scheme == "ws"@ && is_loopback_host(url.host) {
        Some("http"@)
    } else {
        None
    }
}

/// Where a relay URL gives its NIP-11 document: at the same URL, but for the
/// scheme.
pub open spec fn identity_url(url: UrlView) -> Option<Seq<char>> {
    match identity_scheme(url) {
        Some(scheme) => Some(scheme + url.serialization.skip(url.scheme.len() as int)),
        None => None,
    }
}

/// The one message for everything that goes wrong.
fn unavailable() -> (message: String)
    ensures
        message@ == "NIP-11 unavailable"@,
{
    "NIP-11 unavailable".to_owned()
}

/// A byte with an ASCII letter in lower case.
fn lower_byte(byte: u8) -> (lower: u8)
    ensures
        lower == if 0x41 <= byte <= 0x5a {
            (byte + 32) as u8
        } else {
            byte
        },
{
    if 0x41 <= byte && byte <= 0x5a {
        byte + 32
    } else {
        byte
    }
}

/// Whether a name is `localhost`, but for the case of its letters.
fn is_localhost(name: &str) -> (same: bool)
    ensures
        same == same_ignoring_case(name@, "localhost"@),
{
    let expected = "localhost";
    proof {
        reveal_strlit("localhost");
        assert(vstd::utf8::is_ascii_chars(expected@));
        vstd::utf8::is_ascii_chars_encode_utf8(expected@);
    }
    if !name.is_ascii() {
        proof {
            assert(same_ignoring_case(name@, "localhost"@) ==> vstd::utf8::is_ascii_chars(name@))
                by {
                if same_ignoring_case(name@, "localhost"@) {
                    assert forall|i: int| 0 <= i < name@.len() implies '\0' <= #[trigger] name@[i]
                        && name@[i] <= '\u{7f}' by {
                        assert(ascii_lower(name@[i]) == ascii_lower(expected@[i]));
                    }
                }
            }
        }
        return false;
    }
    let bytes = name.as_bytes();
    let letters = expected.as_bytes();
    proof {
        vstd::utf8::is_ascii_chars_encode_utf8(name@);
    }
    if bytes.len() != letters.len() {
        return false;
    }
    let mut i: usize = 0;
    while i < bytes.len()
        invariant
            vstd::utf8::is_ascii_chars(name@),
            vstd::utf8::is_ascii_chars(expected@),
            expected@ == "localhost"@,
            name@.len() == expected@.len(),
            bytes@.len() == name@.len(),
            letters@.len() == name@.len(),
            forall|k: int| 0 <= k < name@.len() ==> name@[k] as u8 == #[trigger] bytes@[k],
            forall|k: int| 0 <= k < name@.len() ==> expected@[k] as u8 == #[trigger] letters@[k],
            i <= bytes@.len(),
            forall|k: int|
                0 <= k < i ==> ascii_lower(#[trigger] name@[k]) == ascii_lower(expected@[k]),
        decreases bytes@.len() - i,
    {
        proof {
            let c = name@[i as int];
            let d = expected@[i as int];
            assert('\0' <= c <= '\u{7f}');
            assert('\0' <= d <= '\u{7f}');
            assert(c as u8 == bytes@[i as int]);
            assert(d as u8 == letters@[i as int]);
        }
        if lower_byte(bytes[i]) != lower_byte(letters[i]) {
            assert(ascii_lower(name@[i as int]) != ascii_lower(expected@[i as int]));
            return false;
        }
        i += 1;
    }
    true
}

impl RelayUrl {
    /// The URL that a text holds.
    pub fn parse(characters: &str) -> (url: Option<Self>)
        ensures
            optional_url(url) == parsed_url(characters@),
    {
        parse_url(characters)
    }
}

/// Whether the host of a URL is this machine.
pub fn is_loopback_url(url: &RelayUrl) -> (loopback: bool)
    ensures
        loopback == is_loopback_host(url@.host),
{
    match &url.host {
        RelayHost::Missing => false,
        RelayHost::Domain(name) => is_localhost(name.as_str()),
        RelayHost::Ipv4(address) => address[0] == 127,
        RelayHost::Ipv6(address) => {
            let mut i: usize = 0;
            while i < 15
                invariant
                    i <= 15,
                    url@.host == HostView::Ipv6(address@),
                    forall|k: int| 0 <= k < i ==> #[trigger] address@[k] == 0,
                decreases 15 - i,
            {
                if address[i] != 0 {
                    return false;
                }
                i += 1;
            }
            address[15] == 1
        },
    }
}

/// The scheme by which the NIP-11 document of a relay URL is fetched.
pub fn nip11_scheme(url: &RelayUrl) -> (scheme: Option<&'static str>)
    ensures
        scheme.is_some() == identity_scheme(url@).is_some(),
        scheme matches Some(chosen) ==> identity_scheme(url@) == Some(chosen@),
{
    let end = url.serialization.as_str().as_bytes().len();
    if url.path_start > MAX_RELAY_URL_POSITION || (url.path_end < url.query_end && url.path_end
        > MAX_RELAY_URL_POSITION) || (url.query_end < end && url.query_end
        > MAX_RELAY_URL_POSITION) {
        None
    } else if text::same_text(url.scheme.as_str(), "wss") {
        Some("https")
    } else if text::same_text(url.scheme.as_str(), "ws") && is_loopback_url(url) {
        Some("http")
    } else {
        None
    }
}

/// Where a relay gives its NIP-11 document.
pub fn nip11_url(relay_url: &str) -> (url: Result<String, String>)
    ensures
        match parsed_url(relay_url@) {
            Some(parsed) => match identity_url(parsed) {
                Some(expected) => url matches Ok(text) && text@ == expected,
                None => url matches Err(error) && error@ == "NIP-11 unavailable"@,
            },
            None => url matches Err(error) && error@ == "NIP-11 unavailable"@,
        },
{
    let url = match RelayUrl::parse(relay_url) {
        Some(url) => url,
        None => return Err(unavailable()),
    };
    let scheme = match nip11_scheme(&url) {
        Some(scheme) => scheme,
        None => return Err(unavailable()),
    };
    match change_scheme(relay_url, scheme) {
        Some(text) => Ok(text),
        None => Err(unavailable()),
    }
}

/// Whether a response is read on: it is a success and does not announce a
/// document that is too long.
pub fn accepts_response(success: bool, content_length: Option<u64>) -> (accepted: bool)
    ensures
        accepted == (success && (content_length matches Some(length) ==> length
            <= MAX_NIP11_BODY_BYTES)),
{
    success && match content_length {
        Some(length) => length <= MAX_NIP11_BODY_BYTES as u64,
        None => true,
    }
}

/// A document is not longer than the bound.
pub open spec fn is_bounded(body: Seq<u8>) -> bool {
    body.len() <= MAX_NIP11_BODY_BYTES
}

/// The document as far as it has arrived.
pub struct Nip11Body {
    bytes: Vec<u8>,
}

impl View for Nip11Body {
    type V = Seq<u8>;

    closed spec fn view(&self) -> Seq<u8> {
        self.bytes@
    }
}

impl Nip11Body {
    /// A document never gets longer than the bound.
    #[verifier::type_invariant]
    pub open spec fn is_bounded_body(self) -> bool {
        is_bounded(self@)
    }

    /// Nothing has arrived.
    pub fn new() -> (body: Self)
        ensures
            body@ == Seq::<u8>::empty(),
            is_bounded(body@),
    {
        Nip11Body { bytes: Vec::new() }
    }

    /// The document with its next part, unless it would be too long.
    pub fn append(self, chunk: &[u8]) -> (longer: Result<Self, String>)
        ensures
            longer is Ok == is_bounded(self@ + chunk@),
            longer matches Ok(body) ==> body@ == self@ + chunk@ && is_bounded(body@),
            longer matches Err(error) ==> error@ == "NIP-11 unavailable"@,
    {
        let mut bytes = self.bytes;
        if bytes.len().saturating_add(chunk.len()) > MAX_NIP11_BODY_BYTES {
            return Err(unavailable());
        }
        bytes.extend_from_slice(chunk);
        assert(bytes@ =~= self@ + chunk@);
        Ok(Nip11Body { bytes })
    }

    /// What has arrived.
    pub fn as_bytes(&self) -> (bytes: &[u8])
        ensures
            bytes@ == self@,
            is_bounded(bytes@),
    {
        proof {
            use_type_invariant(self);
        }
        self.bytes.as_slice()
    }
}

/// The signing key that a document gives in its field `self`: 64 lowercase
/// digits.
pub open spec fn document_signer(body: Seq<u8>) -> Option<Seq<u8>> {
    match json::record_field(body, "self"@) {
        Some(token) => match json::string_token(token) {
            Some(characters) => event::canonical_key(characters),
            None => None,
        },
        None => None,
    }
}

/// The signing key that a document gives.
pub fn nip11_signer(body: &[u8]) -> (signer: Result<PublicKey, String>)
    ensures
        match document_signer(body@) {
            Some(key) => signer matches Ok(found) && found@ == key,
            None => signer matches Err(error) && error@ == "NIP-11 unavailable"@,
        },
{
    let token = match json::read_record_field(body, "self") {
        Some(token) => token,
        None => return Err(unavailable()),
    };
    let relay_self = match json::read_string(token.as_slice()) {
        Some(relay_self) => relay_self,
        None => return Err(unavailable()),
    };
    match PublicKey::parse_canonical(relay_self.as_str()) {
        Some(key) => Ok(key),
        None => Err(unavailable()),
    }
}

/// The document is fetched over TLS, or from this machine; from the relay URL
/// only the scheme changes.
pub proof fn identity_is_fetched_safely(url: UrlView)
    ensures
        identity_url(url) matches Some(address) ==> {
            ||| url.scheme == "wss"@ && address == "https"@ + url.serialization.skip(3)
            ||| url.scheme == "ws"@ && is_loopback_host(url.host) && address == "http"@
                + url.serialization.skip(2)
        },
        url.scheme == "ws"@ && !is_loopback_host(url.host) ==> identity_url(url) is None,
        url.scheme != "ws"@ && url.scheme != "wss"@ ==> identity_url(url) is None,
{
    reveal_strlit("ws");
    reveal_strlit("wss");
    assert("ws"@.len() != "wss"@.len());
}

/// A document of plain members, one of them called `self` with the canonical text
/// of a key, gives that key, whatever the others are.
pub proof fn document_gives_its_signer(
    members: Seq<(Seq<char>, Seq<char>)>,
    k: int,
    key: Seq<u8>,
)
    requires
        0 <= k < members.len(),
        key.len() == 32,
        members[k] == ("self"@, json::quoted(text::hex_lower(key))),
        forall|j: int| 0 <= j < members.len() ==> json::is_simple_member(#[trigger] members[j]),
        forall|j: int| 0 <= j < members.len() && j != k ==> (#[trigger] members[j]).0 != "self"@,
    ensures
        document_signer(vstd::utf8::encode_utf8(json::object_text(members))) == Some(key),
{
    json::lemma_object_text_bytes(members);
    json::object_text_is_read_back(members);
    let read = members.map_values(|member: (Seq<char>, Seq<char>)| json::read_back(member));
    assert forall|j: int| 0 <= j < read.len() && j != k implies (#[trigger] read[j]).0
        != read[k].0 by {
        assert(members[j].0 != "self"@);
    }
    json::lemma_only_named(read, k);
    text::lemma_hex_round_trip(key);
    let characters = text::hex_lower(key);
    assert forall|i: int| 0 <= i < characters.len() implies json::is_plain_char(
        #[trigger] characters[i],
    ) by {
        assert(text::is_lower_hex_char(characters[i]));
    }
    json::lemma_string_token(characters);
    event::key_text_is_canonical(key);
}

/// Whether a connection to `requested_url` may show status: it is the relay that
/// is configured.
pub fn is_configured_relay(requested_url: &str, configured_url: &str) -> (configured: bool)
    ensures
        configured == (requested_url@ == configured_url@),
{
    text::same_text(requested_url, configured_url)
}

/// `getrandom::getrandom` into 32 bytes. They come from the system: nothing is
/// stated of them, nor when there are none.
#[verifier::external_body]
fn random_epoch_bytes() -> Option<[u8; 32]> {
    let mut bytes = [0_u8; 32];
    getrandom::getrandom(&mut bytes).ok().map(|_| bytes)
}

/// The session of a connection whose epoch has these random bytes.
pub fn session_from_random_bytes(
    relay_signer: PublicKey,
    expected_author: PublicKey,
    epoch_bytes: [u8; 32],
) -> (session: ClientBindingStatusSession)
    ensures
        session@ == client_binding_status_session::fresh_session(
            relay_signer@,
            expected_author@,
            text::hex_lower(epoch_bytes@),
        ),
{
    ClientBindingStatusSession::new(
        relay_signer,
        expected_author,
        ClientBindingEpoch::from_random_bytes(epoch_bytes),
    )
}

/// The session of a new connection: one for the relay that is configured, if the
/// author, the relay's signing key and random bytes for the epoch are there.
pub open spec fn prepared_session(
    requested_url: Seq<char>,
    configured_url: Seq<char>,
    expected_author: Option<PublicKey>,
    relay_signer: Option<PublicKey>,
    epoch_bytes: Option<[u8; 32]>,
) -> Option<client_binding_status_session::SessionView> {
    match (expected_author, relay_signer, epoch_bytes) {
        (Some(author), Some(signer), Some(bytes)) => if requested_url == configured_url {
            Some(
                client_binding_status_session::fresh_session(
                    signer@,
                    author@,
                    text::hex_lower(bytes@),
                ),
            )
        } else {
            None
        },
        _ => None,
    }
}

/// The state of a session, where there is one.
pub open spec fn session_view(session: Option<ClientBindingStatusSession>) -> Option<
    client_binding_status_session::SessionView,
> {
    match session {
        Some(state) => Some(state@),
        None => None,
    }
}

/// The session of a new connection, given the random bytes for its epoch, where
/// the system has some.
pub fn session_for_draw(
    requested_url: &str,
    configured_url: &str,
    expected_author: Option<PublicKey>,
    relay_signer: Option<PublicKey>,
    epoch_bytes: Option<[u8; 32]>,
) -> (session: Option<ClientBindingStatusSession>)
    ensures
        session_view(session) == prepared_session(
            requested_url@,
            configured_url@,
            expected_author,
            relay_signer,
            epoch_bytes,
        ),
{
    if !is_configured_relay(requested_url, configured_url) {
        return None;
    }
    match (expected_author, relay_signer, epoch_bytes) {
        (Some(author), Some(signer), Some(bytes)) => Some(
            session_from_random_bytes(signer, author, bytes),
        ),
        _ => None,
    }
}

/// The session of a new connection, with an epoch of fresh random bytes. Whether
/// there are such bytes, and which, only the system knows: whatever it gave, the
/// session is the one of [`session_for_draw`]. Nothing is drawn where there can be
/// no session.
pub fn prepare_status_session(
    requested_url: &str,
    configured_url: &str,
    expected_author: Option<PublicKey>,
    relay_signer: Option<PublicKey>,
) -> (session: Option<ClientBindingStatusSession>)
    ensures
        exists|draw: Option<[u8; 32]>|
            session_view(session) == #[trigger] prepared_session(
                requested_url@,
                configured_url@,
                expected_author,
                relay_signer,
                draw,
            ),
        requested_url@ != configured_url@ ==> session is None,
        expected_author is None ==> session is None,
        relay_signer is None ==> session is None,
        session matches Some(prepared) ==> {
            &&& prepared@ == client_binding_status_session::fresh_session(
                relay_signer.unwrap()@,
                expected_author.unwrap()@,
                prepared@.epoch,
            )
            &&& text::is_canonical_hex(prepared@.epoch)
        },
{
    let draw = if is_configured_relay(requested_url, configured_url) && expected_author.is_some()
        && relay_signer.is_some() {
        random_epoch_bytes()
    } else {
        None
    };
    proof {
        if let Some(bytes) = draw {
            text::lemma_hex_round_trip(bytes@);
        }
    }
    session_for_draw(requested_url, configured_url, expected_author, relay_signer, draw)
}

/// The host is this machine exactly for the name `localhost` in any case of its
/// letters, the IPv4 addresses that start with 127, and the IPv6 address one.
pub proof fn loopback_is_this_machine(name: Seq<char>, address: Seq<u8>)
    ensures
        is_loopback_host(HostView::Domain(name)) <==> name.len() == 9 && forall|i: int|
            0 <= i < 9 ==> (#[trigger] name[i]) as u32 == "localhost"@[i] as u32 || name[i] as u32
                + 32 == "localhost"@[i] as u32,
        address.len() == 4 ==> (is_loopback_host(HostView::Ipv4(address)) <==> address[0] == 127),
        address.len() == 16 ==> (is_loopback_host(HostView::Ipv6(address)) <==> address
            == Seq::new(15, |i: int| 0u8).push(1u8)),
        !is_loopback_host(HostView::Missing),
{
    reveal_strlit("localhost");
    let host = "localhost"@;
    assert(forall|i: int| 0 <= i < 9 ==> 'a' <= #[trigger] host[i] && host[i] <= 'z');
    if is_loopback_host(HostView::Domain(name)) {
        assert forall|i: int| 0 <= i < 9 implies (#[trigger] name[i]) as u32 == host[i] as u32
            || name[i] as u32 + 32 == host[i] as u32 by {
            assert(ascii_lower(name[i]) == ascii_lower(host[i]));
            assert('a' <= host[i] && host[i] <= 'z');
        }
    }
    if name.len() == 9 && forall|i: int|
        0 <= i < 9 ==> (#[trigger] name[i]) as u32 == host[i] as u32 || name[i] as u32 + 32
            == host[i] as u32 {
        assert forall|i: int| 0 <= i < 9 implies ascii_lower(#[trigger] name[i]) == ascii_lower(
            host[i],
        ) by {
            assert('a' <= host[i] && host[i] <= 'z');
            assert(name[i] as u32 == host[i] as u32 || name[i] as u32 + 32 == host[i] as u32);
        }
    }
    if address.len() == 16 && is_loopback_host(HostView::Ipv6(address)) {
        assert(address =~= Seq::new(15, |i: int| 0u8).push(1u8));
    }
}

/// Every `wss` relay URL, and every `ws` URL to this machine, has its document at
/// the same URL under `https` or `http`, as long as no part of the URL starts
/// beyond what its positions can hold.
pub proof fn eligible_relay_has_identity_url(url: UrlView)
    requires
        url.path_start <= 0xffff_fffd,
        url.path_end <= 0xffff_fffd || url.path_end >= url.query_end,
        url.query_end <= 0xffff_fffd || url.query_end >= vstd::utf8::encode_utf8(
            url.serialization,
        ).len(),
    ensures
        url.scheme == "wss"@ ==> identity_url(url) == Some(
            "https"@ + url.serialization.skip(3),
        ),
        url.scheme == "ws"@ && is_loopback_host(url.host) ==> identity_url(url) == Some(
            "http"@ + url.serialization.skip(2),
        ),
{
    reveal_strlit("ws");
    reveal_strlit("wss");
    assert("ws"@.len() != "wss"@.len());
}

/// A document gives a key exactly if its field `self` is a string of the 64
/// lowercase digits of that key.
pub proof fn document_signer_is_its_self_field(body: Seq<u8>, key: Seq<u8>)
    ensures
        document_signer(body) == Some(key) <==> key.len() == 32 && (json::record_field(
            body,
            "self"@,
        ) matches Some(token) && json::string_token(token) == Some(text::hex_lower(key))),
{
    if let Some(token) = json::record_field(body, "self"@) {
        if let Some(characters) = json::string_token(token) {
            event::key_is_read_exactly_from_its_text(characters);
        }
    }
    if key.len() == 32 {
        event::key_text_is_canonical(key);
    }
}

/// There is a session exactly for the relay that is configured and with author,
/// signing key and random bytes; it is new, and expects just these.
pub proof fn prepared_session_expects_its_parts(
    requested_url: Seq<char>,
    configured_url: Seq<char>,
    expected_author: Option<PublicKey>,
    relay_signer: Option<PublicKey>,
    epoch_bytes: Option<[u8; 32]>,
)
    ensures
        ({
            let prepared = prepared_session(
                requested_url,
                configured_url,
                expected_author,
                relay_signer,
                epoch_bytes,
            );
            &&& prepared is Some <==> requested_url == configured_url && expected_author is Some
                && relay_signer is Some && epoch_bytes is Some
            &&& prepared matches Some(session) ==> {
                &&& relay_signer matches Some(signer) && session.relay == signer@
                &&& expected_author matches Some(author) && session.author == author@
                &&& epoch_bytes matches Some(bytes) && session.epoch == text::hex_lower(bytes@)
                &&& session.bootstrap_event_id is None
                &&& session.tracker is None
                &&& !session.latched_invalid
                &&& session.fresh_until is None
            }
        }),
{
}

/// A document is bounded exactly up to 64 KiB.
pub proof fn document_bound_is_64_kib(body: Seq<u8>)
    ensures
        is_bounded(body) <==> body.len() <= 65536,
{
}

} // verus!
