//! Text forms shared by the wire formats: lowercase hexadecimal, decimal
//! numbers and byte comparison.

use vstd::prelude::*;
use vstd::string::StringExecFns;

verus! {

/// The lowercase hexadecimal digit of `n`, for `0 <= n < 16`.
pub open spec fn hex_digit(n: int) -> char {
    if n < 10 {
        (48 + n) as char
    } else {
        (87 + n) as char
    }
}

/// Two lowercase digits per byte, high half first.
pub open spec fn hex_lower(bytes: Seq<u8>) -> Seq<char> {
    Seq::new(
        2 * bytes.len(),
        |i: int|
            if i % 2 == 0 {
                hex_digit(bytes[i / 2] as int / 16)
            } else {
                hex_digit(bytes[i / 2] as int % 16)
            },
    )
}

/// `0`-`9` or `a`-`f`.
pub open spec fn is_lower_hex_char(c: char) -> bool {
    ('0' <= c && c <= '9') || ('a' <= c && c <= 'f')
}

/// `0`-`9`, `a`-`f` or `A`-`F`.
pub open spec fn is_hex_char(c: char) -> bool {
    is_lower_hex_char(c) || ('A' <= c && c <= 'F')
}

/// The number that a hexadecimal digit of either case stands for.
pub open spec fn hex_value(c: char) -> int {
    if c <= '9' {
        c as int - 48
    } else if c <= 'F' {
        c as int - 55
    } else {
        c as int - 87
    }
}

/// The bytes that a hexadecimal text of even length stands for.
pub open spec fn hex_bytes(text: Seq<char>) -> Seq<u8> {
    Seq::new(
        text.len() / 2,
        |i: int| (16 * hex_value(text[2 * i]) + hex_value(text[2 * i + 1])) as u8,
    )
}

/// The canonical form of 32 bytes: 64 lowercase hexadecimal digits.
pub open spec fn is_canonical_hex(text: Seq<char>) -> bool {
    &&& text.len() == 64
    &&& forall|i: int| 0 <= i < 64 ==> is_lower_hex_char(#[trigger] text[i])
}

/// Decimal digits without a leading zero.
pub open spec fn decimal(n: nat) -> Seq<char>
    decreases n,
{
    if n < 10 {
        seq![(48 + n) as char]
    } else {
        decimal(n / 10).push((48 + n % 10) as char)
    }
}

/// `10` to the power of `n`.
pub open spec fn power_of_ten(n: nat) -> nat
    decreases n,
{
    if n == 0 {
        1
    } else {
        10 * power_of_ten((n - 1) as nat)
    }
}

/// A number below `10` to the power of `digits` has at most that many digits.
proof fn lemma_decimal_len(n: nat, digits: nat)
    requires
        0 < digits,
        n < power_of_ten(digits),
    ensures
        decimal(n).len() <= digits,
    decreases n,
{
    if n >= 10 {
        if digits == 1 {
            assert(power_of_ten(1) == 10 * power_of_ten(0));
        }
        lemma_decimal_len(n / 10, (digits - 1) as nat);
    }
}

/// A 64-bit number has at most twenty digits.
pub proof fn lemma_decimal_u64_len(n: u64)
    ensures
        decimal(n as nat).len() <= 20,
{
    reveal_with_fuel(power_of_ten, 21);
    lemma_decimal_len(n as nat, 20);
}

/// The characters of a text, where there is one.
pub open spec fn optional_view(text: Option<String>) -> Option<Seq<char>> {
    match text {
        Some(characters) => Some(characters@),
        None => None,
    }
}

/// Reading back what [`hex_lower`] writes gives the same bytes.
pub proof fn lemma_hex_round_trip(bytes: Seq<u8>)
    ensures
        hex_bytes(hex_lower(bytes)) == bytes,
        forall|i: int|
            0 <= i < 2 * bytes.len() ==> is_lower_hex_char(#[trigger] hex_lower(bytes)[i]),
{
    let text = hex_lower(bytes);
    assert forall|i: int| 0 <= i < bytes.len() implies hex_bytes(text)[i] == bytes[i] by {
        assert((2 * i) % 2 == 0 && (2 * i) / 2 == i);
        assert((2 * i + 1) % 2 == 1 && (2 * i + 1) / 2 == i);
    }
    assert(hex_bytes(text) =~= bytes);
}

/// Two lowercase digits are what is written for the byte that they stand for.
proof fn lemma_hex_pair(high: char, low: char)
    requires
        is_lower_hex_char(high),
        is_lower_hex_char(low),
    ensures
        0 <= 16 * hex_value(high) + hex_value(low) < 256,
        hex_digit((16 * hex_value(high) + hex_value(low)) / 16) == high,
        hex_digit((16 * hex_value(high) + hex_value(low)) % 16) == low,
{
    let h = hex_value(high);
    let l = hex_value(low);
    assert(0 <= h < 16 && 0 <= l < 16);
    assert((16 * h + l) / 16 == h && (16 * h + l) % 16 == l);
}

/// A canonical text is what [`hex_lower`] writes for the bytes it stands for.
pub proof fn lemma_canonical_hex(text: Seq<char>)
    requires
        text.len() % 2 == 0,
        forall|i: int| 0 <= i < text.len() ==> is_lower_hex_char(#[trigger] text[i]),
    ensures
        hex_lower(hex_bytes(text)) == text,
{
    let bytes = hex_bytes(text);
    assert forall|i: int| 0 <= i < text.len() implies hex_lower(bytes)[i] == text[i] by {
        let k = i / 2;
        assert(i == 2 * k || i == 2 * k + 1);
        lemma_hex_pair(text[2 * k], text[2 * k + 1]);
        assert(bytes[k] as int == 16 * hex_value(text[2 * k]) + hex_value(text[2 * k + 1]));
    }
    assert(hex_lower(bytes) =~= text);
}

/// `hex::encode`: the lowercase hexadecimal text of `bytes`, two digits each.
#[verifier::external_body]
pub(crate) fn hex_encode(bytes: &[u8]) -> (text: String)
    ensures
        text@ == hex_lower(bytes@),
{
    hex::encode(bytes)
}

/// Whether `text` is the canonical form of 32 bytes.
pub fn is_canonical_hex_text(text: &str) -> (canonical: bool)
    ensures
        canonical == is_canonical_hex(text@),
{
    if !text.is_ascii() {
        assert(is_canonical_hex(text@) ==> vstd::utf8::is_ascii_chars(text@));
        return false;
    }
    let bytes = text.as_bytes();
    if bytes.len() != 64 {
        return false;
    }
    let mut i: usize = 0;
    while i < 64
        invariant
            bytes@.len() == 64,
            text@.len() == 64,
            bytes@ == Seq::new(text@.len(), |k: int| text@.index(k) as u8),
            vstd::utf8::is_ascii_chars(text@),
            i <= 64,
            forall|k: int| 0 <= k < i ==> is_lower_hex_char(#[trigger] text@[k]),
        decreases 64 - i,
    {
        let byte: u8 = bytes[i];
        let ghost c: char = text@[i as int];
        assert('\0' <= c <= '\u{7f}');
        assert(byte == c as u8);
        if !((0x30 <= byte && byte <= 0x39) || (0x61 <= byte && byte <= 0x66)) {
            assert(!is_lower_hex_char(text@[i as int]));
            return false;
        }
        i += 1;
    }
    true
}

/// Whether two byte strings are the same.
pub fn same_bytes(left: &[u8], right: &[u8]) -> (same: bool)
    ensures
        same == (left@ == right@),
{
    if left.len() != right.len() {
        return false;
    }
    let mut i: usize = 0;
    while i < left.len()
        invariant
            left@.len() == right@.len(),
            i <= left@.len(),
            forall|k: int| 0 <= k < i ==> left@[k] == right@[k],
        decreases left@.len() - i,
    {
        if left[i] != right[i] {
            return false;
        }
        i += 1;
    }
    assert(left@ =~= right@);
    true
}

/// Whether two texts are the same.
pub fn same_text(left: &str, right: &str) -> (same: bool)
    ensures
        same == (left@ == right@),
{
    proof {
        vstd::utf8::encode_utf8_decode_utf8(left@);
        vstd::utf8::encode_utf8_decode_utf8(right@);
    }
    same_bytes(left.as_bytes(), right.as_bytes())
}

/// The decimal digit of `n` as text.
fn digit_text(n: u64) -> (digit: &'static str)
    requires
        n < 10,
    ensures
        digit@ == seq![(48 + n) as char],
{
    proof {
        reveal_strlit("0");
        reveal_strlit("1");
        reveal_strlit("2");
        reveal_strlit("3");
        reveal_strlit("4");
        reveal_strlit("5");
        reveal_strlit("6");
        reveal_strlit("7");
        reveal_strlit("8");
        reveal_strlit("9");
    }
    if n == 0 {
        "0"
    } else if n == 1 {
        "1"
    } else if n == 2 {
        "2"
    } else if n == 3 {
        "3"
    } else if n == 4 {
        "4"
    } else if n == 5 {
        "5"
    } else if n == 6 {
        "6"
    } else if n == 7 {
        "7"
    } else if n == 8 {
        "8"
    } else {
        "9"
    }
}

/// The decimal text of `n`.
pub fn decimal_text(n: u64) -> (text: String)
    ensures
        text@ == decimal(n as nat),
    decreases n,
{
    if n < 10 {
        digit_text(n).to_owned()
    } else {
        let mut text = decimal_text(n / 10);
        text.append(digit_text(n % 10));
        text
    }
}

/// The canonical texts are exactly the lowercase digits of 32 bytes.
pub proof fn canonical_hex_is_of_32_bytes(characters: Seq<char>)
    ensures
        is_canonical_hex(characters) <==> exists|bytes: Seq<u8>|
            bytes.len() == 32 && #[trigger] hex_lower(bytes) == characters,
{
    if is_canonical_hex(characters) {
        lemma_canonical_hex(characters);
        assert(hex_bytes(characters).len() == 32);
        assert(hex_lower(hex_bytes(characters)) == characters);
    }
    if exists|bytes: Seq<u8>| bytes.len() == 32 && #[trigger] hex_lower(bytes) == characters {
        let bytes = choose|bytes: Seq<u8>|
            bytes.len() == 32 && #[trigger] hex_lower(bytes) == characters;
        lemma_hex_round_trip(bytes);
        assert forall|i: int| 0 <= i < 64 implies is_lower_hex_char(#[trigger] characters[i]) by {
            assert(is_lower_hex_char(hex_lower(bytes)[i]));
        }
    }
}

/// Each byte is written as two digits, the sixteens first, and no digit stands for
/// two numbers.
pub proof fn hex_digits_write_the_byte(bytes: Seq<u8>, i: int)
    requires
        0 <= i < bytes.len(),
    ensures
        hex_lower(bytes).len() == 2 * bytes.len(),
        bytes[i] as int == 16 * hex_value(hex_lower(bytes)[2 * i]) + hex_value(
            hex_lower(bytes)[2 * i + 1],
        ),
{
    lemma_hex_round_trip(bytes);
    assert(hex_bytes(hex_lower(bytes))[i] == bytes[i]);
    assert((2 * i) % 2 == 0 && (2 * i) / 2 == i);
    assert((2 * i + 1) % 2 == 1 && (2 * i + 1) / 2 == i);
}

} // verus!
