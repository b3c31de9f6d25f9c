//! The identifier of a community: the domain that an authorization holds in.

use vstd::prelude::*;

use crate::text;

verus! {

/// The identifier of a community, a UUID.
#[derive(Clone, Copy, PartialEq, Eq, Hash)]
pub struct CommunityId {
    bytes: [u8; 16],
}

impl View for CommunityId {
    type V = Seq<u8>;

    closed spec fn view(&self) -> Seq<u8> {
        self.bytes@
    }
}

/// Where the canonical text has its hyphens.
pub open spec fn is_hyphen_position(i: int) -> bool {
    i == 8 || i == 13 || i == 18 || i == 23
}

/// Where digit `k` stands in the canonical text: the digits form groups of 8, 4,
/// 4, 4 and 12.
pub open spec fn digit_position(k: int) -> int {
    if k < 8 {
        k
    } else if k < 12 {
        k + 1
    } else if k < 16 {
        k + 2
    } else if k < 20 {
        k + 3
    } else {
        k + 4
    }
}

/// Which digit stands at position `i` of the canonical text.
pub open spec fn digit_at(i: int) -> int {
    if i < 8 {
        i
    } else if i < 13 {
        i - 1
    } else if i < 18 {
        i - 2
    } else if i < 23 {
        i - 3
    } else {
        i - 4
    }
}

/// The canonical text of a UUID: lowercase digits in five groups.
pub open spec fn uuid_text(bytes: Seq<u8>) -> Seq<char> {
    Seq::new(
        36,
        |i: int|
            if is_hyphen_position(i) {
                '-'
            } else {
                text::hex_lower(bytes)[digit_at(i)]
            },
    )
}

/// `characters` is the canonical text of a UUID.
pub open spec fn is_uuid_text(characters: Seq<char>) -> bool {
    &&& characters.len() == 36
    &&& forall|i: int|
        0 <= i < 36 ==> if is_hyphen_position(i) {
            #[trigger] characters[i] == '-'
        } else {
            text::is_lower_hex_char(characters[i])
        }
}

/// The digits of a canonical text, without the hyphens.
pub open spec fn uuid_digits(characters: Seq<char>) -> Seq<char> {
    Seq::new(32, |k: int| characters[digit_position(k)])
}

/// The UUID whose canonical text `characters` is.
pub open spec fn canonical_uuid(characters: Seq<char>) -> Option<Seq<u8>> {
    if is_uuid_text(characters) {
        Some(text::hex_bytes(uuid_digits(characters)))
    } else {
        None
    }
}

/// The UUID that has all bits zero.
pub open spec fn is_nil(bytes: Seq<u8>) -> bool {
    forall|i: int| 0 <= i < bytes.len() ==> #[trigger] bytes[i] == 0
}

/// What `uuid` reads from a text that is not canonical: other cases of the
/// digits, and forms without hyphens, in braces or with a prefix.
pub uninterp spec fn lenient_uuid(characters: Seq<char>) -> Option<Seq<u8>>;

/// The canonical text of a UUID is read as that UUID.
pub proof fn uuid_text_is_canonical(bytes: Seq<u8>)
    requires
        bytes.len() == 16,
    ensures
        is_uuid_text(uuid_text(bytes)),
        canonical_uuid(uuid_text(bytes)) == Some(bytes),
{
    text::lemma_hex_round_trip(bytes);
    let written = uuid_text(bytes);
    assert(uuid_digits(written) =~= text::hex_lower(bytes));
    assert forall|i: int| 0 <= i < 36 && !is_hyphen_position(i) implies text::is_lower_hex_char(
        #[trigger] written[i],
    ) by {
        assert(written[i] == text::hex_lower(bytes)[digit_at(i)]);
    }
}

/// A canonical text is the text of the UUID that is read from it.
pub proof fn canonical_uuid_is_written_back(characters: Seq<char>)
    requires
        is_uuid_text(characters),
    ensures
        text::hex_bytes(uuid_digits(characters)).len() == 16,
        uuid_text(text::hex_bytes(uuid_digits(characters))) == characters,
{
    let digits = uuid_digits(characters);
    assert forall|k: int| 0 <= k < 32 implies text::is_lower_hex_char(#[trigger] digits[k]) by {
        assert(digits[k] == characters[digit_position(k)]);
    }
    text::lemma_canonical_hex(digits);
    assert(uuid_text(text::hex_bytes(digits)) =~= characters);
}

/// The bytes of a UUID, where there is one.
pub open spec fn optional_uuid(uuid: Option<[u8; 16]>) -> Option<Seq<u8>> {
    match uuid {
        Some(bytes) => Some(bytes@),
        None => None,
    }
}

/// `uuid::Uuid::parse_str`. A canonical text gives the UUID whose digits it
/// holds; of any other text the result is what that function reads.
#[verifier::external_body]
fn parse_uuid(characters: &str) -> (uuid: Option<[u8; 16]>)
    ensures
        optional_uuid(uuid) == match canonical_uuid(characters@) {
            Some(bytes) => Some(bytes),
            None => lenient_uuid(characters@),
        },
{
    uuid::Uuid::parse_str(characters).ok().map(uuid::Uuid::into_bytes)
}

/// `uuid::Uuid`'s `to_string`: the canonical text.
#[verifier::external_body]
fn write_uuid(bytes: &[u8; 16]) -> (characters: String)
    ensures
        characters@ == uuid_text(bytes@),
{
    uuid::Uuid::from_bytes(*bytes).to_string()
}

impl CommunityId {
    /// The community with this UUID.
    pub fn from_bytes(bytes: [u8; 16]) -> (id: Self)
        ensures
            id@ == bytes@,
    {
        CommunityId { bytes }
    }

    /// The bytes of the UUID.
    pub fn to_bytes(&self) -> (bytes: [u8; 16])
        ensures
            bytes@ == self@,
    {
        self.bytes
    }

    /// The UUID has sixteen bytes.
    pub proof fn lemma_len(self)
        ensures
            self@.len() == 16,
    {
    }

    /// Whether the UUID has all bits zero.
    pub fn is_nil(&self) -> (nil: bool)
        ensures
            nil == is_nil(self@),
    {
        let mut i: usize = 0;
        while i < 16
            invariant
                i <= 16,
                forall|k: int| 0 <= k < i ==> #[trigger] self.bytes@[k] == 0,
            decreases 16 - i,
        {
            if self.bytes[i] != 0 {
                return false;
            }
            i += 1;
        }
        true
    }

    /// The canonical text of the UUID.
    pub fn to_text(&self) -> (characters: String)
        ensures
            characters@ == uuid_text(self@),
    {
        write_uuid(&self.bytes)
    }

    /// The community whose UUID has the canonical text `characters`, unless
    /// that UUID is nil.
    pub fn parse_canonical(characters: &str) -> (id: Option<Self>)
        ensures
            id.is_some() == (canonical_uuid(characters@) matches Some(bytes) && !is_nil(bytes)),
            id matches Some(community) ==> canonical_uuid(characters@) == Some(community@),
    {
        let bytes: [u8; 16] = match parse_uuid(characters) {
            Some(bytes) => bytes,
            None => return None,
        };
        let id = CommunityId { bytes };
        let canonical = id.to_text();
        proof {
            if is_uuid_text(characters@) {
                canonical_uuid_is_written_back(characters@);
            }
            uuid_text_is_canonical(bytes@);
        }
        if id.is_nil() || !text::same_text(canonical.as_str(), characters) {
            return None;
        }
        Some(id)
    }
}

/// The canonical text of a UUID, and no other text, is read as that UUID.
pub proof fn uuid_is_read_exactly_from_its_text(characters: Seq<char>)
    ensures
        canonical_uuid(characters) matches Some(bytes) ==> bytes.len() == 16 && uuid_text(bytes)
            == characters,
        forall|bytes: Seq<u8>|
            bytes.len() == 16 && #[trigger] uuid_text(bytes) == characters ==> canonical_uuid(
                characters,
            ) == Some(bytes),
{
    if is_uuid_text(characters) {
        canonical_uuid_is_written_back(characters);
    }
    assert forall|bytes: Seq<u8>|
        bytes.len() == 16 && #[trigger] uuid_text(bytes) == characters implies canonical_uuid(
        characters,
    ) == Some(bytes) by {
        uuid_text_is_canonical(bytes);
    }
}

/// Nil is the UUID of sixteen zeros and no other.
pub proof fn nil_is_all_zeros(bytes: Seq<u8>)
    requires
        bytes.len() == 16,
    ensures
        is_nil(bytes) <==> bytes == Seq::new(16, |i: int| 0u8),
{
    if is_nil(bytes) {
        assert(bytes =~= Seq::new(16, |i: int| 0u8));
    }
}

} // verus!
