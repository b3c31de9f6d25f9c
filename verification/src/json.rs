//! Reading the fields of a JSON payload.
//!
//! Where a token ends and what a string or a number token stands for comes from
//! `serde_json`. Which members a payload has, how often, and under which names
//! is decided here.

use vstd::prelude::*;
use vstd::slice::{slice_subrange, slice_to_vec};
use vstd::string::StringExecFns;

use crate::text;

verus! {

/// JSON white space.
pub open spec fn is_space(b: u8) -> bool {
    b == 0x20 || b == 0x09 || b == 0x0a || b == 0x0d
}

/// A byte that may follow a number: white space, a quote or punctuation.
pub open spec fn is_delimiter(b: u8) -> bool {
    is_space(b) || b == 0x22 || b == 0x5b || b == 0x5d || b == 0x7b || b == 0x7d || b == 0x2c || b
        == 0x3a
}

/// A printable ASCII byte that stands for itself inside a string.
pub open spec fn is_plain(b: u8) -> bool {
    0x20 <= b <= 0x7e && b != 0x22 && b != 0x5c
}

pub open spec fn is_digit(b: u8) -> bool {
    0x30 <= b <= 0x39
}

/// The first position from `i` on that holds no white space.
pub open spec fn skip_space(text: Seq<u8>, i: int) -> int
    decreases text.len() - i,
{
    if 0 <= i < text.len() && is_space(text[i]) {
        skip_space(text, i + 1)
    } else {
        i
    }
}

/// The first position from `i` on that holds no plain byte.
pub open spec fn plain_run(text: Seq<u8>, i: int) -> int
    decreases text.len() - i,
{
    if 0 <= i < text.len() && is_plain(text[i]) {
        plain_run(text, i + 1)
    } else {
        i
    }
}

/// The first position from `i` on that holds no digit.
pub open spec fn digit_run(text: Seq<u8>, i: int) -> int
    decreases text.len() - i,
{
    if 0 <= i < text.len() && is_digit(text[i]) {
        digit_run(text, i + 1)
    } else {
        i
    }
}

/// `text` starts with a string of plain bytes only.
pub open spec fn starts_with_plain_string(text: Seq<u8>) -> bool {
    &&& text.len() > 0
    &&& text[0] == 0x22
    &&& plain_run(text, 1) < text.len()
    &&& text[plain_run(text, 1)] == 0x22
}

/// `text` starts with a number of digits only, without a leading zero, and
/// something that may follow a number comes next.
pub open spec fn starts_with_whole_number(text: Seq<u8>) -> bool {
    &&& text.len() > 0
    &&& is_digit(text[0])
    &&& (digit_run(text, 0) == 1 || text[0] != 0x30)
    &&& (digit_run(text, 0) == text.len() || is_delimiter(text[digit_run(text, 0)]))
}

/// The number that decimal digits stand for.
pub open spec fn digits_value(text: Seq<u8>) -> nat
    decreases text.len(),
{
    if text.len() == 0 {
        0
    } else {
        10 * digits_value(text.drop_last()) + (text.last() - 0x30) as nat
    }
}

/// The number of bytes that `serde_json` takes for the first value of `text`.
pub uninterp spec fn serde_value_end(text: Seq<u8>) -> Option<usize>;

/// What `serde_json` reads from `token` as a string.
pub uninterp spec fn serde_string(token: Seq<u8>) -> Option<Seq<char>>;

/// What `serde_json` reads from `token` as an unsigned 64-bit number.
pub uninterp spec fn serde_u64(token: Seq<u8>) -> Option<u64>;

/// The elements of the array that `serde_json` reads from `text`: of each the
/// characters, where it is a string, and its JSON text.
pub uninterp spec fn serde_array(text: Seq<u8>) -> Option<Seq<(Option<Seq<char>>, Seq<char>)>>;

/// Where the first value of `text` ends. `None`: it does not start with one.
pub open spec fn value_end(text: Seq<u8>) -> Option<int> {
    if starts_with_plain_string(text) {
        Some(plain_run(text, 1) + 1)
    } else if starts_with_whole_number(text) {
        Some(digit_run(text, 0))
    } else {
        match serde_value_end(text) {
            Some(end) => if 0 < end <= text.len() {
                Some(end as int)
            } else {
                None
            },
            None => None,
        }
    }
}

/// `token` is one string of plain bytes.
pub open spec fn is_plain_string(token: Seq<u8>) -> bool {
    starts_with_plain_string(token) && plain_run(token, 1) == token.len() - 1
}

/// What stands between the quotes of a plain string.
pub open spec fn plain_characters(token: Seq<u8>) -> Seq<char> {
    Seq::new((token.len() - 2) as nat, |i: int| token[i + 1] as char)
}

/// `token` is one number of digits that fits.
pub open spec fn is_plain_u64(token: Seq<u8>) -> bool {
    &&& starts_with_whole_number(token)
    &&& digit_run(token, 0) == token.len()
    &&& digits_value(token) <= u64::MAX
}

/// The characters of a string token.
pub open spec fn string_token(token: Seq<u8>) -> Option<Seq<char>> {
    if is_plain_string(token) {
        Some(plain_characters(token))
    } else {
        serde_string(token)
    }
}

/// The number of an unsigned 64-bit token.
pub open spec fn u64_token(token: Seq<u8>) -> Option<u64> {
    if is_plain_u64(token) {
        Some(digits_value(token) as u64)
    } else {
        serde_u64(token)
    }
}

/// A member of an object: its name, and its value as it stands in the text.
pub type MemberView = (Seq<char>, Seq<u8>);

/// The member whose name starts at `key`, and the position behind its value.
pub open spec fn member_at(text: Seq<u8>, key: int) -> Option<(MemberView, int)> {
    match value_end(text.skip(key)) {
        None => None,
        Some(key_len) => {
            let colon = skip_space(text, key + key_len);
            let value = skip_space(text, colon + 1);
            match (
                string_token(text.subrange(key, key + key_len)),
                value_end(text.skip(value)),
            ) {
                (Some(name), Some(value_len)) => if colon < text.len() && text[colon] == 0x3a
                    && value < text.len() {
                    Some(
                        ((name, text.subrange(value, value + value_len)), value + value_len),
                    )
                } else {
                    None
                },
                _ => None,
            }
        },
    }
}

/// Skipping white space moves forward and stays within the text.
proof fn lemma_skip_space(text: Seq<u8>, i: int)
    requires
        0 <= i,
    ensures
        i <= skip_space(text, i),
        i <= text.len() ==> skip_space(text, i) <= text.len(),
        skip_space(text, i) < text.len() ==> !is_space(text[skip_space(text, i)]),
    decreases text.len() - i,
{
    if i < text.len() && is_space(text[i]) {
        lemma_skip_space(text, i + 1);
    }
}

/// A run of plain bytes starts at `i` and ends within the text.
proof fn lemma_plain_run(text: Seq<u8>, i: int)
    requires
        0 <= i <= text.len(),
    ensures
        i <= plain_run(text, i) <= text.len(),
        forall|k: int| i <= k < plain_run(text, i) ==> is_plain(#[trigger] text[k]),
    decreases text.len() - i,
{
    if i < text.len() && is_plain(text[i]) {
        lemma_plain_run(text, i + 1);
    }
}

/// A run of digits starts at `i` and ends within the text.
proof fn lemma_digit_run(text: Seq<u8>, i: int)
    requires
        0 <= i <= text.len(),
    ensures
        i <= digit_run(text, i) <= text.len(),
        forall|k: int| i <= k < digit_run(text, i) ==> is_digit(#[trigger] text[k]),
    decreases text.len() - i,
{
    if i < text.len() && is_digit(text[i]) {
        lemma_digit_run(text, i + 1);
    }
}

/// A value takes at least one byte and ends within the text.
proof fn lemma_value_end(text: Seq<u8>)
    ensures
        value_end(text) matches Some(end) ==> 0 < end <= text.len(),
{
    if text.len() > 0 {
        lemma_plain_run(text, 1);
        lemma_digit_run(text, 0);
        if is_digit(text[0]) {
            lemma_digit_run(text, 1);
        }
    }
}

/// A member ends behind its start and within the text.
proof fn lemma_member_at(text: Seq<u8>, key: int)
    requires
        0 <= key < text.len(),
    ensures
        member_at(text, key) matches Some((member, end)) ==> key < end <= text.len(),
{
    lemma_value_end(text.skip(key));
    if let Some(key_len) = value_end(text.skip(key)) {
        lemma_skip_space(text, key + key_len);
        let colon = skip_space(text, key + key_len);
        lemma_skip_space(text, colon + 1);
        let value = skip_space(text, colon + 1);
        if value < text.len() {
            lemma_value_end(text.skip(value));
        }
    }
}

/// The members from position `i` to the end of the object, after `seen`. The
/// object is all that is left of `text`. `first`: no member came before.
pub open spec fn members_from(
    text: Seq<u8>,
    i: int,
    first: bool,
    seen: Seq<MemberView>,
) -> Option<Seq<MemberView>>
    decreases text.len() - i,
    when 0 <= i <= text.len()
    via members_from_decreases
{
    let next = skip_space(text, i);
    if next >= text.len() {
        None
    } else if text[next] == 0x7d {
        if skip_space(text, next + 1) == text.len() {
            Some(seen)
        } else {
            None
        }
    } else if !first && text[next] != 0x2c {
        None
    } else {
        let key = if first {
            next
        } else {
            skip_space(text, next + 1)
        };
        if key >= text.len() || text[key] != 0x22 {
            None
        } else {
            match member_at(text, key) {
                None => None,
                Some((member, end)) => members_from(text, end, false, seen.push(member)),
            }
        }
    }
}

#[via_fn]
proof fn members_from_decreases(
    text: Seq<u8>,
    i: int,
    first: bool,
    seen: Seq<MemberView>,
) {
    let next = skip_space(text, i);
    lemma_skip_space(text, i);
    if next < text.len() {
        lemma_skip_space(text, next + 1);
        let key = if first {
            next
        } else {
            skip_space(text, next + 1)
        };
        if key < text.len() {
            lemma_member_at(text, key);
        }
    }
}

/// The members of an object that makes up all of `text`, in their order.
pub open spec fn object_members(text: Seq<u8>) -> Option<Seq<MemberView>> {
    let open = skip_space(text, 0);
    if open < text.len() && text[open] == 0x7b {
        members_from(text, open + 1, true, Seq::empty())
    } else {
        None
    }
}

/// The only element of an array that makes up all of `text`.
pub open spec fn only_element(text: Seq<u8>) -> Option<Seq<u8>> {
    let open = skip_space(text, 0);
    let start = skip_space(text, open + 1);
    if open < text.len() && text[open] == 0x5b && start < text.len() {
        match value_end(text.skip(start)) {
            None => None,
            Some(len) => {
                let close = skip_space(text, start + len);
                if close < text.len() && text[close] == 0x5d && skip_space(text, close + 1)
                    == text.len() {
                    Some(text.subrange(start, start + len))
                } else {
                    None
                }
            },
        }
    } else {
        None
    }
}

/// How many members are called `name`.
pub open spec fn count_named(members: Seq<MemberView>, name: Seq<char>) -> nat
    decreases members.len(),
{
    if members.len() == 0 {
        0
    } else {
        count_named(members.drop_last(), name) + if members.last().0 == name {
            1nat
        } else {
            0
        }
    }
}

/// The value of the last member called `name`.
pub open spec fn value_named(members: Seq<MemberView>, name: Seq<char>) -> Option<Seq<u8>>
    decreases members.len(),
{
    if members.len() == 0 {
        None
    } else if members.last().0 == name {
        Some(members.last().1)
    } else {
        value_named(members.drop_last(), name)
    }
}

/// The value of the only member called `name`.
pub open spec fn only_named(members: Seq<MemberView>, name: Seq<char>) -> Option<Seq<u8>> {
    if count_named(members, name) == 1 {
        value_named(members, name)
    } else {
        None
    }
}

/// The field of a record with one field: the value of the only member called
/// `name` of an object, whatever else the object holds, or the only element of
/// an array.
pub open spec fn record_field(text: Seq<u8>, name: Seq<char>) -> Option<Seq<u8>> {
    match object_members(text) {
        Some(members) => only_named(members, name),
        None => only_element(text),
    }
}

/// `serde_json`'s stream reader over `serde`'s `IgnoredAny`: how many bytes the
/// first value of `text` takes. Of a string of plain bytes and of a number of
/// digits the end is stated; of any other text it is what the reader finds, and
/// lies behind the first byte and within `text`.
#[verifier::external_body]
fn first_value_end(text: &[u8]) -> (end: Option<usize>)
    ensures
        starts_with_plain_string(text@) ==> end == Some((plain_run(text@, 1) + 1) as usize),
        !starts_with_plain_string(text@) && starts_with_whole_number(text@) ==> end == Some(
            digit_run(text@, 0) as usize,
        ),
        !starts_with_plain_string(text@) && !starts_with_whole_number(text@) ==> end
            == serde_value_end(text@),
        end matches Some(n) ==> 0 < n <= text@.len(),
{
    let mut values = serde_json::Deserializer::from_slice(text).into_iter::<serde::de::IgnoredAny>();
    match values.next() {
        Some(Ok(_)) => Some(values.byte_offset()),
        _ => None,
    }
}

/// `serde_json::from_slice` into a `String`: the characters of a string token.
/// A token of plain bytes stands for the characters between its quotes.
#[verifier::external_body]
pub(crate) fn read_string(token: &[u8]) -> (string: Option<String>)
    ensures
        is_plain_string(token@) ==> text::optional_view(string) == Some(plain_characters(token@)),
        !is_plain_string(token@) ==> text::optional_view(string) == serde_string(token@),
{
    serde_json::from_slice(token).ok()
}

/// `serde_json::from_slice` into a `u64`. A token of digits stands for the
/// number that they write, where it fits.
#[verifier::external_body]
pub(crate) fn read_u64(token: &[u8]) -> (number: Option<u64>)
    ensures
        is_plain_u64(token@) ==> number == Some(digits_value(token@) as u64),
        !is_plain_u64(token@) ==> number == serde_u64(token@),
{
    serde_json::from_slice(token).ok()
}

/// What `serde_json` writes for a string that holds more than plain characters.
pub uninterp spec fn serde_escaped(characters: Seq<char>) -> Seq<char>;

/// `serde_json::to_string` on a string. Plain characters are written as they are,
/// between quotes; of a text with others the result is what that function writes.
/// Writing a string does not fail.
#[verifier::external_body]
pub(crate) fn write_string(characters: &str) -> (json: String)
    ensures
        json@ == if is_plain_text(characters@) {
            quoted(characters@)
        } else {
            serde_escaped(characters@)
        },
{
    serde_json::to_string(characters).unwrap()
}

/// An element of a JSON array.
pub struct JsonElement {
    /// The characters, where the element is a string.
    pub string: Option<String>,
    /// The element as JSON text.
    pub json: String,
}

impl View for JsonElement {
    type V = (Option<Seq<char>>, Seq<char>);

    open spec fn view(&self) -> (Option<Seq<char>>, Seq<char>) {
        (text::optional_view(self.string), self.json@)
    }
}

/// The elements of an array, where there is one.
pub open spec fn elements_view(elements: Option<Vec<JsonElement>>) -> Option<
    Seq<(Option<Seq<char>>, Seq<char>)>,
> {
    match elements {
        Some(items) => Some(items@.map_values(|item: JsonElement| item@)),
        None => None,
    }
}

/// `serde_json::from_slice` into a `Value`: the elements, where the value is an
/// array, each by `Value::as_str` and by its JSON text.
#[verifier::external_body]
pub(crate) fn read_array(text: &[u8]) -> (elements: Option<Vec<JsonElement>>)
    ensures
        elements_view(elements) == serde_array(text@),
{
    match serde_json::from_slice(text) {
        Ok(serde_json::Value::Array(items)) => Some(
            items.iter().map(
                |item| JsonElement {
                    string: item.as_str().map(str::to_owned),
                    json: item.to_string(),
                },
            ).collect(),
        ),
        _ => None,
    }
}

/// A member of an object: its name, and its value as it stands in the text.
pub struct Member {
    pub name: String,
    pub value: Vec<u8>,
}

impl View for Member {
    type V = MemberView;

    open spec fn view(&self) -> MemberView {
        (self.name@, self.value@)
    }
}

/// The members that the items of a list stand for.
pub open spec fn members_view(members: Seq<Member>) -> Seq<MemberView> {
    members.map_values(|member: Member| member@)
}

/// The bytes of a token, where there is one.
pub open spec fn optional_bytes(token: Option<Vec<u8>>) -> Option<Seq<u8>> {
    match token {
        Some(bytes) => Some(bytes@),
        None => None,
    }
}

/// The first position from `start` on that holds no white space.
fn find_non_space(text: &[u8], start: usize) -> (position: usize)
    requires
        start <= text@.len(),
    ensures
        position == skip_space(text@, start as int),
        start <= position <= text@.len(),
{
    let mut i: usize = start;
    while i < text.len() && (text[i] == 0x20 || text[i] == 0x09 || text[i] == 0x0a || text[i]
        == 0x0d)
        invariant
            start <= i <= text@.len(),
            skip_space(text@, i as int) == skip_space(text@, start as int),
        decreases text@.len() - i,
    {
        i += 1;
    }
    i
}

/// Where the value that starts at `start` ends.
fn find_value_end(text: &[u8], start: usize) -> (end: Option<usize>)
    requires
        start <= text@.len(),
    ensures
        end.is_some() == value_end(text@.skip(start as int)).is_some(),
        end matches Some(n) ==> {
            &&& n == start + value_end(text@.skip(start as int)).unwrap()
            &&& start < n <= text@.len()
        },
{
    let rest = slice_subrange(text, start, text.len());
    proof {
        assert(rest@ =~= text@.skip(start as int));
        lemma_value_end(rest@);
    }
    match first_value_end(rest) {
        Some(len) => Some(start + len),
        None => None,
    }
}

/// The member whose name starts at `key`, and the position behind its value.
fn read_member(text: &[u8], key: usize) -> (read: Option<(Member, usize)>)
    requires
        key < text@.len(),
    ensures
        read.is_some() == member_at(text@, key as int).is_some(),
        read matches Some((member, end)) ==> {
            &&& member_at(text@, key as int) == Some((member@, end as int))
            &&& key < end <= text@.len()
        },
{
    let key_end: usize = match find_value_end(text, key) {
        Some(n) => n,
        None => return None,
    };
    let colon = find_non_space(text, key_end);
    if colon >= text.len() || text[colon] != 0x3a {
        return None;
    }
    let value = find_non_space(text, colon + 1);
    if value >= text.len() {
        return None;
    }
    let value_end: usize = match find_value_end(text, value) {
        Some(n) => n,
        None => return None,
    };
    match read_string(slice_subrange(text, key, key_end)) {
        Some(name) => Some(
            (Member { name, value: slice_to_vec(slice_subrange(text, value, value_end)) }, value_end),
        ),
        None => None,
    }
}

/// The members of an object that makes up all of `text`, in their order.
pub fn read_object(text: &[u8]) -> (members: Option<Vec<Member>>)
    ensures
        members.is_some() == object_members(text@).is_some(),
        members matches Some(list) ==> object_members(text@) == Some(members_view(list@)),
{
    let open = find_non_space(text, 0);
    if open >= text.len() || text[open] != 0x7b {
        return None;
    }
    let mut members: Vec<Member> = Vec::new();
    let mut i: usize = open + 1;
    let mut first: bool = true;
    assert(members_view(members@) =~= Seq::empty());
    loop
        invariant
            i <= text@.len(),
            object_members(text@) == members_from(
                text@,
                i as int,
                first,
                members_view(members@),
            ),
        decreases text@.len() - i,
    {
        let next = find_non_space(text, i);
        if next >= text.len() {
            return None;
        }
        if text[next] == 0x7d {
            if find_non_space(text, next + 1) == text.len() {
                return Some(members);
            }
            return None;
        }
        if !first && text[next] != 0x2c {
            return None;
        }
        let key: usize = if first {
            next
        } else {
            find_non_space(text, next + 1)
        };
        if key >= text.len() || text[key] != 0x22 {
            return None;
        }
        match read_member(text, key) {
            None => {
                return None;
            },
            Some((member, end)) => {
                let ghost before = members@;
                members.push(member);
                assert(members_view(members@) =~= members_view(before).push(member@));
                i = end;
                first = false;
            },
        }
    }
}

/// The only element of an array that makes up all of `text`.
fn read_only_element(text: &[u8]) -> (element: Option<Vec<u8>>)
    ensures
        optional_bytes(element) == only_element(text@),
{
    let open = find_non_space(text, 0);
    if open >= text.len() || text[open] != 0x5b {
        return None;
    }
    let start = find_non_space(text, open + 1);
    if start >= text.len() {
        return None;
    }
    let end: usize = match find_value_end(text, start) {
        Some(n) => n,
        None => return None,
    };
    let close = find_non_space(text, end);
    if close < text.len() && text[close] == 0x5d && find_non_space(text, close + 1) == text.len() {
        Some(slice_to_vec(slice_subrange(text, start, end)))
    } else {
        None
    }
}

/// The value of the only member called `name`.
pub fn find_only<'a>(members: &'a Vec<Member>, name: &str) -> (value: Option<&'a Vec<u8>>)
    ensures
        value.is_some() == only_named(members_view(members@), name@).is_some(),
        value matches Some(bytes) ==> only_named(members_view(members@), name@) == Some(bytes@),
{
    let mut found: Option<&'a Vec<u8>> = None;
    let mut count: usize = 0;
    let mut i: usize = 0;
    while i < members.len()
        invariant
            i <= members@.len(),
            count <= i,
            count == count_named(members_view(members@).take(i as int), name@),
            found.is_some() == value_named(members_view(members@).take(i as int), name@).is_some(),
            found matches Some(bytes) ==> value_named(
                members_view(members@).take(i as int),
                name@,
            ) == Some(bytes@),
        decreases members@.len() - i,
    {
        proof {
            let views = members_view(members@);
            assert(views.take(i + 1).drop_last() =~= views.take(i as int));
            assert(views.take(i + 1).last() == members@[i as int]@);
        }
        if text::same_text(members[i].name.as_str(), name) {
            count += 1;
            found = Some(&members[i].value);
        }
        i += 1;
    }
    proof {
        assert(members_view(members@).take(i as int) =~= members_view(members@));
        lemma_value_named(members_view(members@), name@);
    }
    if count == 1 {
        found
    } else {
        None
    }
}

/// A name that occurs has a value.
proof fn lemma_value_named(members: Seq<MemberView>, name: Seq<char>)
    ensures
        count_named(members, name) > 0 ==> value_named(members, name).is_some(),
    decreases members.len(),
{
    if members.len() > 0 {
        lemma_value_named(members.drop_last(), name);
    }
}

/// A name that no member has.
proof fn lemma_absent_name(members: Seq<MemberView>, name: Seq<char>)
    requires
        forall|j: int| 0 <= j < members.len() ==> (#[trigger] members[j]).0 != name,
    ensures
        count_named(members, name) == 0,
    decreases members.len(),
{
    if members.len() > 0 {
        lemma_absent_name(members.drop_last(), name);
        assert(members[members.len() - 1].0 != name);
    }
}

/// A member whose name no other member has is the only one of its name.
pub proof fn lemma_only_named(members: Seq<MemberView>, k: int)
    requires
        0 <= k < members.len(),
        forall|j: int|
            0 <= j < members.len() && j != k ==> (#[trigger] members[j]).0 != members[k].0,
    ensures
        only_named(members, members[k].0) == Some(members[k].1),
    decreases members.len(),
{
    let before = members.drop_last();
    if k == members.len() - 1 {
        assert forall|j: int| 0 <= j < before.len() implies (#[trigger] before[j]).0
            != members[k].0 by {
            assert(members[j].0 != members[k].0);
        }
        lemma_absent_name(before, members[k].0);
    } else {
        assert(members[members.len() - 1].0 != members[k].0);
        assert forall|j: int| 0 <= j < before.len() && j != k implies (#[trigger] before[j]).0
            != before[k].0 by {
            assert(members[j].0 != members[k].0);
        }
        lemma_only_named(before, k);
    }
}

/// The field of a record with one field called `name`.
pub fn read_record_field(text: &[u8], name: &str) -> (field: Option<Vec<u8>>)
    ensures
        optional_bytes(field) == record_field(text@, name@),
{
    match read_object(text) {
        Some(members) => match find_only(&members, name) {
            Some(value) => Some(slice_to_vec(value.as_slice())),
            None => None,
        },
        None => read_only_element(text),
    }
}

/// The bytes of a text of ASCII characters.
pub open spec fn ascii_bytes(characters: Seq<char>) -> Seq<u8> {
    Seq::new(characters.len(), |i: int| characters[i] as u8)
}

/// A text of characters that stand for themselves inside a string.
pub open spec fn is_plain_text(characters: Seq<char>) -> bool {
    forall|i: int| 0 <= i < characters.len() ==> is_plain_char(#[trigger] characters[i])
}

/// A printable ASCII character that stands for itself inside a string.
pub open spec fn is_plain_char(c: char) -> bool {
    ' ' <= c && c <= '~' && c != '"' && c != '\\'
}

/// A text between quotes.
pub open spec fn quoted(characters: Seq<char>) -> Seq<char> {
    seq!['"'] + characters + seq!['"']
}

/// A member as it is written: name, colon and value, without white space.
pub open spec fn member_text(name: Seq<char>, value: Seq<char>) -> Seq<char> {
    quoted(name) + seq![':'] + value
}

/// Members as they are written, with commas between them.
pub open spec fn members_text(members: Seq<(Seq<char>, Seq<char>)>) -> Seq<char>
    decreases members.len(),
{
    if members.len() == 0 {
        Seq::empty()
    } else if members.len() == 1 {
        member_text(members[0].0, members[0].1)
    } else {
        members_text(members.drop_last()) + seq![','] + member_text(
            members.last().0,
            members.last().1,
        )
    }
}

/// An object as it is written.
pub open spec fn object_text(members: Seq<(Seq<char>, Seq<char>)>) -> Seq<char> {
    seq!['{'] + members_text(members) + seq!['}']
}

/// The members that a list of names and JSON values stands for.
pub open spec fn written_members(members: Seq<(&str, String)>) -> Seq<(Seq<char>, Seq<char>)> {
    members.map_values(|member: (&str, String)| (member.0@, member.1@))
}

/// Writes an object with these names and JSON values, without white space.
pub fn write_object(members: &Vec<(&str, String)>) -> (json: String)
    ensures
        json@ == object_text(written_members(members@)),
{
    proof {
        reveal_strlit("{");
        reveal_strlit("}");
        reveal_strlit(",");
        reveal_strlit("\"");
        reveal_strlit("\":");
    }
    let ghost all = written_members(members@);
    let mut json: String = "{".to_owned();
    let mut i: usize = 0;
    assert(json@ =~= seq!['{'] + members_text(all.take(0)));
    while i < members.len()
        invariant
            i <= members@.len(),
            all == written_members(members@),
            json@ == seq!['{'] + members_text(all.take(i as int)),
            "}"@ == seq!['}'],
            ","@ == seq![','],
            "\""@ == seq!['"'],
            "\":"@ == seq!['"', ':'],
        decreases members@.len() - i,
    {
        let ghost before = json@;
        if i > 0 {
            json.append(",");
        }
        json.append("\"");
        json.append(members[i].0);
        json.append("\":");
        json.append(members[i].1.as_str());
        proof {
            let (name, value) = all[i as int];
            assert(all.take(i + 1).drop_last() =~= all.take(i as int));
            assert(all.take(i + 1).last() == all[i as int]);
            if i == 0 {
                assert(all.take(1)[0] == all[0]);
                assert(json@ =~= seq!['{'] + member_text(name, value));
            } else {
                assert(json@ =~= seq!['{'] + (members_text(all.take(i as int)) + seq![',']
                    + member_text(name, value)));
            }
        }
        i += 1;
    }
    json.append("}");
    assert(all.take(i as int) =~= all);
    json
}

/// A string of plain characters or a number in decimal digits.
pub open spec fn is_simple_value(value: Seq<char>) -> bool {
    ||| exists|characters: Seq<char>|
        is_plain_text(characters) && value == #[trigger] quoted(characters)
    ||| exists|n: nat| value == #[trigger] text::decimal(n)
}

/// A member that is read back as it was written.
pub open spec fn is_simple_member(member: (Seq<char>, Seq<char>)) -> bool {
    is_plain_text(member.0) && is_simple_value(member.1)
}

/// What is read of a written member.
pub open spec fn read_back(member: (Seq<char>, Seq<char>)) -> MemberView {
    (member.0, ascii_bytes(member.1))
}

/// A run of plain bytes that something else ends.
proof fn lemma_plain_run_end(text: Seq<u8>, i: int, end: int)
    requires
        0 <= i <= end < text.len(),
        forall|k: int| i <= k < end ==> is_plain(#[trigger] text[k]),
        !is_plain(text[end]),
    ensures
        plain_run(text, i) == end,
    decreases end - i,
{
    if i < end {
        lemma_plain_run_end(text, i + 1, end);
    }
}

/// A run of digits that something else, or the end of the text, ends.
proof fn lemma_digit_run_end(text: Seq<u8>, i: int, end: int)
    requires
        0 <= i <= end <= text.len(),
        forall|k: int| i <= k < end ==> is_digit(#[trigger] text[k]),
        end < text.len() ==> !is_digit(text[end]),
    ensures
        digit_run(text, i) == end,
    decreases end - i,
{
    if i < end {
        lemma_digit_run_end(text, i + 1, end);
    }
}

/// Decimal text holds digits only, starts with a zero only for zero itself, and
/// stands for its number.
pub proof fn lemma_decimal(n: nat)
    ensures
        text::decimal(n).len() > 0,
        forall|k: int|
            0 <= k < text::decimal(n).len() ==> '0' <= #[trigger] text::decimal(n)[k]
                && text::decimal(n)[k] <= '9',
        text::decimal(n)[0] == '0' ==> n == 0 && text::decimal(n).len() == 1,
        digits_value(ascii_bytes(text::decimal(n))) == n,
    decreases n,
{
    let d = text::decimal(n);
    let bytes = ascii_bytes(d);
    if n < 10 {
        assert(bytes.drop_last() =~= Seq::empty());
        assert(digits_value(Seq::<u8>::empty()) == 0);
    } else {
        lemma_decimal(n / 10);
        assert(bytes.drop_last() =~= ascii_bytes(text::decimal(n / 10)));
    }
}

/// A simple value at the start of `text`, followed by a comma, a colon, a closing
/// bracket or nothing, is the first value of `text`, and read as a token it is itself.
proof fn lemma_simple_value(text: Seq<u8>, value: Seq<char>)
    requires
        is_simple_value(value),
        value.len() <= text.len(),
        text.take(value.len() as int) == ascii_bytes(value),
        value.len() < text.len() ==> text[value.len() as int] == 0x2c || text[value.len() as int]
            == 0x7d || text[value.len() as int] == 0x3a || text[value.len() as int] == 0x5d,
    ensures
        value.len() > 0,
        text[0] != 0x20 && text[0] != 0x09 && text[0] != 0x0a && text[0] != 0x0d,
        value_end(text) == Some(value.len() as int),
{
    let bytes = ascii_bytes(value);
    assert forall|k: int| 0 <= k < value.len() implies text[k] == value[k] as u8 by {
        assert(text.take(value.len() as int)[k] == bytes[k]);
    }
    if exists|characters: Seq<char>|
        is_plain_text(characters) && value == #[trigger] quoted(characters) {
        let characters = choose|characters: Seq<char>|
            is_plain_text(characters) && value == #[trigger] quoted(characters);
        let end = value.len() - 1;
        assert(value[end] == '"');
        assert forall|k: int| 1 <= k < end implies is_plain(#[trigger] text[k]) by {
            assert(value[k] == characters[k - 1]);
            assert(is_plain_char(characters[k - 1]));
        }
        lemma_plain_run_end(text, 1, end);
    } else {
        let n = choose|n: nat| value == #[trigger] text::decimal(n);
        lemma_decimal(n);
        assert forall|k: int| 0 <= k < value.len() implies is_digit(#[trigger] text[k]) by {
            assert('0' <= text::decimal(n)[k] <= '9');
        }
        lemma_digit_run_end(text, 0, value.len() as int);
    }
}

/// A quoted plain text is read as that text.
pub proof fn lemma_string_token(characters: Seq<char>)
    requires
        is_plain_text(characters),
    ensures
        string_token(ascii_bytes(quoted(characters))) == Some(characters),
{
    let token = ascii_bytes(quoted(characters));
    let end = token.len() - 1;
    assert forall|k: int| 1 <= k < end implies is_plain(#[trigger] token[k]) by {
        assert(is_plain_char(characters[k - 1]));
    }
    lemma_plain_run_end(token, 1, end);
    assert forall|k: int| 0 <= k < characters.len() implies plain_characters(token)[k]
        == characters[k] by {
        assert(is_plain_char(characters[k]));
    }
    assert(plain_characters(token) =~= characters);
}

/// Decimal text is read as its number.
pub proof fn lemma_u64_token(n: u64)
    ensures
        u64_token(ascii_bytes(text::decimal(n as nat))) == Some(n),
{
    let token = ascii_bytes(text::decimal(n as nat));
    lemma_decimal(n as nat);
    assert forall|k: int| 0 <= k < token.len() implies is_digit(#[trigger] token[k]) by {
        assert('0' <= text::decimal(n as nat)[k] <= '9');
    }
    lemma_digit_run_end(token, 0, token.len() as int);
}

/// A written member is read back at the position where it stands.
proof fn lemma_member_read(text: Seq<u8>, key: int, member: (Seq<char>, Seq<char>))
    requires
        is_simple_member(member),
        0 <= key,
        key + member_text(member.0, member.1).len() < text.len(),
        text.subrange(key, key + member_text(member.0, member.1).len()) == ascii_bytes(
            member_text(member.0, member.1),
        ),
        text[key + member_text(member.0, member.1).len()] == 0x2c || text[key + member_text(
            member.0,
            member.1,
        ).len()] == 0x7d,
    ensures
        text[key] == 0x22,
        member_at(text, key) == Some(
            (read_back(member), key + member_text(member.0, member.1).len()),
        ),
{
    let (name, value) = member;
    let written = member_text(name, value);
    let len = written.len() as int;
    assert forall|k: int| 0 <= k < len implies text[key + k] == written[k] as u8 by {
        assert(text.subrange(key, key + len)[k] == ascii_bytes(written)[k]);
    }
    let key_len: int = name.len() + 2int;
    let q = quoted(name);
    assert(written[0] == '"');
    assert(text[key + 0] == 0x22);
    assert forall|k: int| 0 <= k < key_len implies text[key + k] == q[k] as u8 by {
        assert(written[k] == q[k]);
    }
    assert(text.skip(key).take(key_len) =~= ascii_bytes(q));
    assert(text.subrange(key, key + key_len) =~= ascii_bytes(q));
    assert(is_simple_value(q));
    assert(written[key_len] == ':');
    assert(text[key + key_len] == 0x3a);
    lemma_simple_value(text.skip(key), q);
    lemma_string_token(name);
    let start = key + key_len + 1;
    assert forall|k: int| 0 <= k < value.len() implies text[start + k] == value[k] as u8 by {
        assert(written[key_len + 1 + k] == value[k]);
        assert(text[key + (key_len + 1 + k)] == written[key_len + 1 + k] as u8);
    }
    assert(text.skip(start).take(value.len() as int) =~= ascii_bytes(value));
    assert(text.subrange(start, start + value.len()) =~= ascii_bytes(value));
    lemma_simple_value(text.skip(start), value);
    assert(text[start] == text.skip(start)[0]);
    assert(skip_space(text, key + key_len) == key + key_len);
    assert(skip_space(text, start) == start);
}

/// The text of the first members stands at the start of the text of all.
proof fn lemma_members_prefix(members: Seq<(Seq<char>, Seq<char>)>, k: int)
    requires
        0 <= k < members.len(),
    ensures
        members_text(members.take(k)).len() + (if k == 0 {
            0int
        } else {
            1
        }) + member_text(members[k].0, members[k].1).len() == members_text(members.take(k + 1)).len(),
        members_text(members.take(k + 1)).len() <= members_text(members).len(),
        members_text(members).take(members_text(members.take(k + 1)).len() as int) == members_text(
            members.take(k + 1),
        ),
    decreases members.len(),
{
    assert(members.take(k + 1).drop_last() =~= members.take(k));
    assert(members.take(k + 1).last() == members[k]);
    if k == 0 {
        assert(members.take(1)[0] == members[0]);
    }
    if k + 1 < members.len() {
        let shorter = members.drop_last();
        lemma_members_prefix(shorter, k);
        assert(shorter.take(k + 1) =~= members.take(k + 1));
        assert(shorter.take(k) =~= members.take(k));
        let len = members_text(members.take(k + 1)).len() as int;
        assert(members_text(members).take(len) =~= members_text(shorter).take(len));
    } else {
        assert(members.take(k + 1) =~= members);
        assert(members_text(members).take(members_text(members).len() as int) =~= members_text(
            members,
        ));
    }
}

/// Where the text of member `k` starts in the text of the object.
spec fn member_position(members: Seq<(Seq<char>, Seq<char>)>, k: int) -> int {
    1 + members_text(members.take(k)).len() + if k == 0 {
        0int
    } else {
        1
    }
}

/// Member `k` stands at its place, a comma before it unless it is the first, and
/// a comma or the closing brace behind it.
proof fn lemma_member_place(members: Seq<(Seq<char>, Seq<char>)>, k: int)
    requires
        0 <= k < members.len(),
    ensures
        ({
            let written = object_text(members);
            let one = member_text(members[k].0, members[k].1);
            let key = member_position(members, k);
            let behind = 1 + members_text(members.take(k + 1)).len();
            &&& key + one.len() == behind
            &&& behind < written.len()
            &&& written.subrange(key, behind as int) == one
            &&& k > 0 ==> written[key - 1] == ','
            &&& written[behind as int] == ',' || written[behind as int] == '}'
        }),
{
    lemma_members_prefix(members, k);
    let member = members[k];
    let written = object_text(members);
    let one = member_text(member.0, member.1);
    let upto = members_text(members.take(k + 1));
    let body = members_text(members);
    let key = member_position(members, k);
    let behind = 1 + upto.len();
    assert(members.take(k + 1).drop_last() =~= members.take(k));
    assert(members.take(k + 1).last() == member);
    assert forall|j: int| 0 <= j < upto.len() implies written[1 + j] == upto[j] by {
        assert(body.take(upto.len() as int)[j] == body[j]);
    }
    assert forall|j: int| 0 <= j < one.len() implies written[key + j] == one[j] by {
        assert(written[1 + (key + j - 1)] == upto[key + j - 1]);
    }
    assert(written.subrange(key, behind as int) =~= one);
    if k > 0 {
        assert(written[1 + (key - 2)] == upto[key - 2]);
    }
    if k + 1 == members.len() {
        assert(members.take(k + 1) =~= members);
    } else {
        lemma_members_prefix(members, k + 1);
        let further = members_text(members.take(k + 2));
        assert(members.take(k + 2).drop_last() =~= members.take(k + 1));
        assert(further[upto.len() as int] == ',');
        assert(body.take(further.len() as int)[upto.len() as int] == ',');
    }
}

/// One step of reading: the member that stands at `key` is added to those seen.
proof fn lemma_members_step(
    text: Seq<u8>,
    at: int,
    first: bool,
    seen: Seq<MemberView>,
    member: MemberView,
    end: int,
)
    requires
        0 <= at < text.len(),
        !first ==> at + 1 < text.len() && text[at] == 0x2c,
        ({
            let key = if first {
                at
            } else {
                at + 1
            };
            &&& text[key] == 0x22
            &&& member_at(text, key) == Some((member, end))
        }),
    ensures
        members_from(text, at, first, seen) == members_from(text, end, false, seen.push(member)),
{
    assert(skip_space(text, at) == at);
    if first {
        lemma_member_at(text, at);
    } else {
        assert(skip_space(text, at + 1) == at + 1);
        lemma_member_at(text, at + 1);
    }
}

/// Reading from behind the first `k` written members on gives all of them.
proof fn lemma_members_read(members: Seq<(Seq<char>, Seq<char>)>, k: int)
    requires
        0 <= k <= members.len(),
        forall|j: int| 0 <= j < members.len() ==> is_simple_member(#[trigger] members[j]),
    ensures
        members_from(
            ascii_bytes(object_text(members)),
            1int + members_text(members.take(k)).len(),
            k == 0,
            members.take(k).map_values(|member: (Seq<char>, Seq<char>)| read_back(member)),
        ) == Some(members.map_values(|member: (Seq<char>, Seq<char>)| read_back(member))),
    decreases members.len() - k,
{
    let read = |member: (Seq<char>, Seq<char>)| read_back(member);
    let written = object_text(members);
    let text = ascii_bytes(written);
    let at: int = 1int + members_text(members.take(k)).len();
    if k == members.len() {
        assert(members.take(k) =~= members);
        assert(written[at] == '}');
        assert(skip_space(text, at) == at);
        assert(skip_space(text, at + 1) == at + 1);
    } else {
        let member = members[k];
        let key = member_position(members, k);
        let end = 1int + members_text(members.take(k + 1)).len();
        lemma_member_place(members, k);
        lemma_members_read(members, k + 1);
        assert(is_simple_member(member));
        assert(text.subrange(key, end) =~= ascii_bytes(written.subrange(key, end)));
        lemma_member_read(text, key, member);
        lemma_members_step(
            text,
            at,
            k == 0,
            members.take(k).map_values(read),
            read_back(member),
            end,
        );
        assert(members.take(k + 1).map_values(read) =~= members.take(k).map_values(read).push(
            read_back(member),
        ));
    }
}

/// What is written as an object of simple members is read as those members.
pub proof fn object_text_is_read_back(members: Seq<(Seq<char>, Seq<char>)>)
    requires
        forall|j: int| 0 <= j < members.len() ==> is_simple_member(#[trigger] members[j]),
    ensures
        object_members(ascii_bytes(object_text(members))) == Some(
            members.map_values(|member: (Seq<char>, Seq<char>)| read_back(member)),
        ),
{
    let text = ascii_bytes(object_text(members));
    assert(object_text(members)[0] == '{');
    assert(skip_space(text, 0) == 0);
    lemma_members_read(members, 0);
    assert(members.take(0) =~= Seq::empty());
    assert(members.take(0).map_values(|member: (Seq<char>, Seq<char>)| read_back(member))
        =~= Seq::<MemberView>::empty());
}

/// A simple member is written in ASCII characters.
proof fn lemma_member_text_is_ascii(member: (Seq<char>, Seq<char>))
    requires
        is_simple_member(member),
    ensures
        vstd::utf8::is_ascii_chars(member_text(member.0, member.1)),
{
    let (name, value) = member;
    assert(vstd::utf8::is_ascii_chars(value)) by {
        if exists|characters: Seq<char>|
            is_plain_text(characters) && value == #[trigger] quoted(characters) {
            let characters = choose|characters: Seq<char>|
                is_plain_text(characters) && value == #[trigger] quoted(characters);
            assert forall|i: int| 1 <= i < value.len() - 1 implies is_plain_char(
                #[trigger] value[i],
            ) by {
                assert(is_plain_char(characters[i - 1]));
            }
        } else {
            let n = choose|n: nat| value == #[trigger] text::decimal(n);
            lemma_decimal(n);
        }
    }
    let written = member_text(name, value);
    assert forall|i: int| 0 <= i < written.len() implies '\0' <= #[trigger] written[i]
        && written[i] <= '\u{7f}' by {
        if 1 <= i < name.len() + 1 {
            assert(is_plain_char(name[i - 1]));
        } else if i >= name.len() + 3 {
            assert(written[i] == value[i - name.len() - 3]);
        }
    }
}

/// Simple members are written in ASCII characters.
proof fn lemma_members_text_is_ascii(members: Seq<(Seq<char>, Seq<char>)>)
    requires
        forall|j: int| 0 <= j < members.len() ==> is_simple_member(#[trigger] members[j]),
    ensures
        vstd::utf8::is_ascii_chars(members_text(members)),
    decreases members.len(),
{
    if members.len() > 0 {
        lemma_member_text_is_ascii(members.last());
        lemma_members_text_is_ascii(members.drop_last());
    }
}

/// An object of simple members has one byte for each character.
pub proof fn lemma_object_text_bytes(members: Seq<(Seq<char>, Seq<char>)>)
    requires
        forall|j: int| 0 <= j < members.len() ==> is_simple_member(#[trigger] members[j]),
    ensures
        vstd::utf8::encode_utf8(object_text(members)) == ascii_bytes(object_text(members)),
{
    lemma_members_text_is_ascii(members);
    let written = object_text(members);
    assert(vstd::utf8::is_ascii_chars(written));
    vstd::utf8::is_ascii_chars_encode_utf8(written);
    assert(vstd::utf8::encode_utf8(written) =~= ascii_bytes(written));
}

/// A member that is there is counted.
proof fn lemma_present_name(members: Seq<MemberView>, i: int)
    requires
        0 <= i < members.len(),
    ensures
        count_named(members, members[i].0) >= 1,
    decreases members.len(),
{
    if i < members.len() - 1 {
        lemma_present_name(members.drop_last(), i);
    }
}

/// Two members of one name are counted twice.
proof fn lemma_repeated_name(members: Seq<MemberView>, i: int, j: int)
    requires
        0 <= i < j < members.len(),
        members[i].0 == members[j].0,
    ensures
        count_named(members, members[i].0) >= 2,
    decreases members.len(),
{
    let before = members.drop_last();
    if j < members.len() - 1 {
        lemma_repeated_name(before, i, j);
    } else {
        lemma_present_name(before, i);
    }
}

/// A name is read exactly if one member has it, and then as the value of that
/// member: not where none has it, and not where two have it.
pub proof fn name_is_read_exactly_if_single(members: Seq<MemberView>, name: Seq<char>)
    ensures
        forall|i: int|
            0 <= i < members.len() && (#[trigger] members[i]).0 == name && only_named(
                members,
                name,
            ) is Some ==> only_named(members, name) == Some(members[i].1),
        forall|i: int, j: int|
            0 <= i < j < members.len() && (#[trigger] members[i]).0 == name && (
            #[trigger] members[j]).0 == name ==> only_named(members, name) is None,
        (forall|i: int| 0 <= i < members.len() ==> (#[trigger] members[i]).0 != name)
            ==> only_named(members, name) is None,
        forall|i: int|
            0 <= i < members.len() && (#[trigger] members[i]).0 == name && (forall|j: int|
                0 <= j < members.len() && j != i ==> (#[trigger] members[j]).0 != name)
                ==> only_named(members, name) == Some(members[i].1),
{
    assert forall|i: int, j: int|
        0 <= i < j < members.len() && (#[trigger] members[i]).0 == name && (
        #[trigger] members[j]).0 == name implies only_named(members, name) is None by {
        lemma_repeated_name(members, i, j);
    }
    if forall|i: int| 0 <= i < members.len() ==> (#[trigger] members[i]).0 != name {
        lemma_absent_name(members, name);
    }
    assert forall|i: int|
        0 <= i < members.len() && (#[trigger] members[i]).0 == name && (forall|j: int|
            0 <= j < members.len() && j != i ==> (#[trigger] members[j]).0 != name)
        implies only_named(members, name) == Some(members[i].1) by {
        lemma_only_named(members, i);
    }
    assert forall|i: int|
        0 <= i < members.len() && (#[trigger] members[i]).0 == name && only_named(
            members,
            name,
        ) is Some implies only_named(members, name) == Some(members[i].1) by {
        assert forall|j: int| 0 <= j < members.len() && j != i implies (
        #[trigger] members[j]).0 != name by {
            if members[j].0 == name {
                if i < j {
                    lemma_repeated_name(members, i, j);
                } else {
                    lemma_repeated_name(members, j, i);
                }
            }
        }
        lemma_only_named(members, i);
    }
}

/// What is left of an object ends with a brace and white space.
proof fn lemma_members_close(text: Seq<u8>, i: int, first: bool, seen: Seq<MemberView>)
    requires
        0 <= i <= text.len(),
        members_from(text, i, first, seen) is Some,
    ensures
        exists|close: int|
            i <= close < text.len() && #[trigger] text[close] == 0x7d && skip_space(
                text,
                close + 1,
            ) == text.len(),
    decreases text.len() - i,
{
    let next = skip_space(text, i);
    lemma_skip_space(text, i);
    if text[next] == 0x7d {
        assert(text[next] == 0x7d);
    } else {
        lemma_skip_space(text, next + 1);
        let key = if first {
            next
        } else {
            skip_space(text, next + 1)
        };
        lemma_member_at(text, key);
        if let Some((member, end)) = member_at(text, key) {
            lemma_members_close(text, end, false, seen.push(member));
            let close = choose|close: int|
                end <= close < text.len() && #[trigger] text[close] == 0x7d && skip_space(
                    text,
                    close + 1,
                ) == text.len();
            assert(i <= close);
        }
    }
}

/// Only a text that starts with an opening brace and ends with a closing one, but
/// for white space, is an object.
pub proof fn object_stands_between_braces(text: Seq<u8>)
    requires
        object_members(text) is Some,
    ensures
        skip_space(text, 0) < text.len(),
        text[skip_space(text, 0)] == 0x7b,
        exists|close: int|
            skip_space(text, 0) < close < text.len() && #[trigger] text[close] == 0x7d
                && skip_space(text, close + 1) == text.len(),
{
    let open = skip_space(text, 0);
    lemma_skip_space(text, 0);
    lemma_members_close(text, open + 1, true, Seq::empty());
    let close = choose|close: int|
        open + 1 <= close < text.len() && #[trigger] text[close] == 0x7d && skip_space(
            text,
            close + 1,
        ) == text.len();
    assert(open < close);
}

/// What skipping passes is white space.
proof fn lemma_skipped_is_space(text: Seq<u8>, i: int, k: int)
    requires
        0 <= i <= k < skip_space(text, i),
    ensures
        k < text.len(),
        is_space(text[k]),
    decreases text.len() - i,
{
    if i < text.len() && is_space(text[i]) && i < k {
        lemma_skipped_is_space(text, i + 1, k);
    }
}

/// White space is a space, a tab, a line feed or a carriage return; skipping it
/// passes nothing else.
pub proof fn only_white_space_is_skipped(text: Seq<u8>, i: int)
    requires
        0 <= i <= text.len(),
    ensures
        forall|k: int|
            i <= k < skip_space(text, i) ==> {
                ||| #[trigger] text[k] == 0x20
                ||| text[k] == 0x09
                ||| text[k] == 0x0a
                ||| text[k] == 0x0d
            },
        i <= skip_space(text, i) <= text.len(),
        skip_space(text, i) < text.len() ==> {
            let stop = text[skip_space(text, i)];
            stop != 0x20 && stop != 0x09 && stop != 0x0a && stop != 0x0d
        },
{
    lemma_skip_space(text, i);
    assert forall|k: int| i <= k < skip_space(text, i) implies is_space(#[trigger] text[k]) by {
        lemma_skipped_is_space(text, i, k);
    }
}

/// What is written as an array of one simple value is read as that value, and as
/// the field of any name of a record.
pub proof fn single_array_is_read_back(value: Seq<char>, name: Seq<char>)
    requires
        is_simple_value(value),
    ensures
        ({
            let text = ascii_bytes(seq!['['] + value + seq![']']);
            &&& only_element(text) == Some(ascii_bytes(value))
            &&& object_members(text) is None
            &&& record_field(text, name) == Some(ascii_bytes(value))
        }),
{
    let written = seq!['['] + value + seq![']'];
    let text = ascii_bytes(written);
    let end: int = value.len() + 1int;
    assert(text[0] == 0x5b);
    assert(skip_space(text, 0) == 0);
    assert(text.skip(1).take(value.len() as int) =~= ascii_bytes(value));
    assert(text.subrange(1, end) =~= ascii_bytes(value));
    assert(text[end] == 0x5d);
    lemma_simple_value(text.skip(1), value);
    assert(text[1] == text.skip(1)[0]);
    assert(skip_space(text, 1) == 1);
    assert(skip_space(text, end) == end);
    assert(skip_space(text, end + 1) == end + 1);
}

/// The field of an object is its one member of that name; the field of anything
/// else is the one element of an array.
pub proof fn record_field_is_member_or_element(text: Seq<u8>, name: Seq<char>)
    ensures
        object_members(text) matches Some(members) ==> record_field(text, name) == only_named(
            members,
            name,
        ),
        object_members(text) is None ==> record_field(text, name) == only_element(text),
{
}

/// White space may stand before and behind each part of an object: before a comma
/// and behind it, around a colon, before the closing brace. A member is read for
/// each name and value, in their order, whatever the value is.
pub proof fn members_are_read_one_by_one(
    text: Seq<u8>,
    at: int,
    first: bool,
    seen: Seq<MemberView>,
    key: int,
    key_len: int,
    name: Seq<char>,
    value: int,
    value_len: int,
)
    requires
        0 <= at <= text.len(),
        first ==> key == skip_space(text, at),
        !first ==> {
            &&& skip_space(text, at) < text.len()
            &&& text[skip_space(text, at)] == 0x2c
            &&& key == skip_space(text, skip_space(text, at) + 1)
        },
        key < text.len(),
        text[key] == 0x22,
        value_end(text.skip(key)) == Some(key_len),
        string_token(text.subrange(key, key + key_len)) == Some(name),
        skip_space(text, key + key_len) < text.len(),
        text[skip_space(text, key + key_len)] == 0x3a,
        value == skip_space(text, skip_space(text, key + key_len) + 1),
        value < text.len(),
        value_end(text.skip(value)) == Some(value_len),
    ensures
        members_from(text, at, first, seen) == members_from(
            text,
            value + value_len,
            false,
            seen.push((name, text.subrange(value, value + value_len))),
        ),
{
    lemma_skip_space(text, at);
    lemma_skip_space(text, skip_space(text, at) + 1);
    lemma_member_at(text, key);
}

/// An object ends at a closing brace, with the members that were seen, if nothing
/// but white space follows; where something else follows, or there is neither a
/// brace nor, behind the first member, a comma, it is none.
pub proof fn object_ends_at_its_brace(
    text: Seq<u8>,
    at: int,
    first: bool,
    seen: Seq<MemberView>,
)
    requires
        0 <= at <= text.len(),
    ensures
        ({
            let next = skip_space(text, at);
            let read = members_from(text, at, first, seen);
            &&& next == text.len() ==> read is None
            &&& next < text.len() && text[next] == 0x7d && skip_space(text, next + 1) == text.len()
                ==> read == Some(seen)
            &&& next < text.len() && text[next] == 0x7d && skip_space(text, next + 1) < text.len()
                ==> read is None
            &&& next < text.len() && text[next] != 0x7d && !first && text[next] != 0x2c
                ==> read is None
            &&& next < text.len() && text[next] != 0x7d && first && text[next] != 0x22
                ==> read is None
            &&& next < text.len() && text[next] == 0x2c && !first && (skip_space(text, next + 1)
                == text.len() || text[skip_space(text, next + 1)] != 0x22) ==> read is None
        }),
{
    lemma_skip_space(text, at);
    if skip_space(text, at) < text.len() {
        lemma_skip_space(text, skip_space(text, at) + 1);
    }
}

} // verus!
