//! JSON values, and what is read from them.

use vstd::prelude::*;

use super::digits::{self, parse_number};

verus! {

/// A JSON value.
#[verifier::external_type_specification]
#[verifier::external_body]
pub struct ExValue(serde_json::Value);

/// Why text or a JSON value is not what was expected.
#[verifier::external_type_specification]
#[verifier::external_body]
pub struct ExError(serde_json::Error);

/// What a JSON value holds.
pub enum Json {
    Null,
    Bool(bool),
    /// A whole number that is not negative.
    Unsigned(u64),
    /// A negative whole number.
    Negative(i64),
    /// Any other number, by the bits of its double.
    Float(u64),
    Text(Seq<char>),
    Array(Seq<Json>),
    Object(Map<Seq<char>, Json>),
}

/// What a `serde_json::Value` holds: the items of its arrays in their order, and the
/// members of its objects by their names.
pub uninterp spec fn json_view(value: serde_json::Value) -> Json;

impl Json {
    /// The member of an object.
    pub open spec fn member(self, name: Seq<char>) -> Option<Json> {
        match self {
            Json::Object(members) if members.contains_key(name) => Some(members[name]),
            _ => None,
        }
    }

    /// The item of an array.
    pub open spec fn item(self, index: int) -> Option<Json> {
        match self {
            Json::Array(items) if 0 <= index < items.len() => Some(items[index]),
            _ => None,
        }
    }

    /// The number that a value is, or writes as text: with the prefix `0x` in hexadecimal,
    /// else in decimal.
    pub open spec fn number(self) -> Option<u64> {
        match self {
            Json::Unsigned(number) => Some(number),
            Json::Text(text) => if text.len() >= 2 && text[0] == '0' && text[1] == 'x' {
                digits::parsed_number(text.skip(2), 16)
            } else {
                digits::parsed_number(text, 10)
            },
            _ => None,
        }
    }

    /// The result of a notification, whose parameters come by name or by position.
    pub open spec fn notified_result(self) -> Option<Json> {
        match self {
            Json::Object(_) => self.member("result"@),
            Json::Array(_) => self.item(1),
            _ => None,
        }
    }

    /// The number that the member `field` of a notification's result is or writes.
    pub open spec fn result_number(self, field: Seq<char>) -> Option<u64> {
        match self.notified_result() {
            Some(result) => match result.member(field) {
                Some(value) => value.number(),
                None => None,
            },
            None => None,
        }
    }
}

/// `serde_json::Value::get` with a text: the member of an object, and nothing of any other
/// value.
#[verifier::external_body]
fn get_member<'a>(value: &'a serde_json::Value, name: &str) -> (member: Option<
    &'a serde_json::Value,
>)
    ensures
        match member {
            Some(member) => json_view(*value).member(name@) == Some(json_view(*member)),
            None => json_view(*value).member(name@) is None,
        },
{
    value.get(name)
}

/// `serde_json::Value::get` with a number: the item of an array, and nothing of any other
/// value.
#[verifier::external_body]
fn get_item<'a>(value: &'a serde_json::Value, index: usize) -> (item: Option<
    &'a serde_json::Value,
>)
    ensures
        match item {
            Some(item) => json_view(*value).item(index as int) == Some(json_view(*item)),
            None => json_view(*value).item(index as int) is None,
        },
{
    value.get(index)
}

/// `serde_json::Value::as_u64` gives a whole number that is not negative, and nothing of
/// any other value.
#[verifier::external_body]
fn as_unsigned(value: &serde_json::Value) -> (number: Option<u64>)
    ensures
        number == (match json_view(*value) {
            Json::Unsigned(number) => Some(number),
            _ => None,
        }),
{
    value.as_u64()
}

/// `serde_json::Value::as_str` gives a text, and nothing of any other value.
#[verifier::external_body]
fn as_text(value: &serde_json::Value) -> (text: Option<&str>)
    ensures
        match text {
            Some(text) => json_view(*value) == Json::Text(text@),
            None => !(json_view(*value) is Text),
        },
{
    value.as_str()
}

/// The number that a value is or writes.
pub fn json_value_as_u64(value: &serde_json::Value) -> (number: Option<u64>)
    ensures
        number == json_view(*value).number(),
{
    if let Some(number) = as_unsigned(value) {
        return Some(number);
    }
    match as_text(value) {
        Some(text) => {
            let length = text.unicode_len();
            if length >= 2 && text.get_char(0) == '0' && text.get_char(1) == 'x' {
                let digits = text.substring_char(2, length);
                assert(digits@ =~= text@.skip(2));
                parse_number(digits, 16)
            } else {
                parse_number(text, 10)
            }
        },
        None => None,
    }
}

/// The number that a member of a notification's result is or writes.
pub fn extract_result_u64(params: &serde_json::Value, field: &str) -> (number: Option<u64>)
    ensures
        number == json_view(*params).result_number(field@),
{
    let result = match get_member(params, "result") {
        Some(result) => Some(result),
        None => get_item(params, 1),
    };
    match result {
        Some(result) => match get_member(result, field) {
            Some(value) => json_value_as_u64(value),
            None => None,
        },
        None => None,
    }
}

/// No two of the members have one name.
pub open spec fn names_differ(members: Seq<(String, serde_json::Value)>) -> bool {
    forall|i: int, j: int|
        0 <= i < j < members.len() ==> (#[trigger] members[i]).0@ != (#[trigger] members[j]).0@
}

/// The members of an object that was put together of `members`, by their names.
pub open spec fn named_members(members: Seq<(String, serde_json::Value)>) -> Map<Seq<char>, Json>
    decreases members.len(),
{
    if members.len() == 0 {
        Map::empty()
    } else {
        named_members(members.drop_last()).insert(
            members.last().0@,
            json_view(members.last().1),
        )
    }
}

/// The text that a JSON value is written as.
pub uninterp spec fn json_text(value: Json) -> Seq<char>;

/// `serde_json::Value::from` of a text.
#[verifier::external_body]
pub(crate) fn text_value(text: &str) -> (value: serde_json::Value)
    ensures
        json_view(value) == Json::Text(text@),
{
    serde_json::Value::from(text)
}

/// `serde_json::Value::from` of a whole number that is not negative.
#[verifier::external_body]
pub(crate) fn number_value(number: u64) -> (value: serde_json::Value)
    ensures
        json_view(value) == Json::Unsigned(number),
{
    serde_json::Value::from(number)
}

/// `serde_json::Value::from` of a list of values: an array of them.
#[verifier::external_body]
pub(crate) fn array_value(items: Vec<serde_json::Value>) -> (value: serde_json::Value)
    ensures
        json_view(value) == Json::Array(
            items@.map_values(|item: serde_json::Value| json_view(item)),
        ),
{
    serde_json::Value::from(items)
}

/// `serde_json::Value::from_iter` of values with different names: an object with these
/// members.
#[verifier::external_body]
pub(crate) fn object_value(members: Vec<(String, serde_json::Value)>) -> (value: serde_json::Value)
    requires
        names_differ(members@),
    ensures
        json_view(value) == Json::Object(named_members(members@)),
{
    serde_json::Value::from_iter(members)
}

/// `serde_json::to_string` of a value, which writes members in the order of their names:
/// the text depends on what the value holds alone.
#[verifier::external_body]
pub(crate) fn json_string(value: &serde_json::Value) -> (text: String)
    ensures
        text@ == json_text(json_view(*value)),
{
    serde_json::to_string(value).expect("serialization")
}

} // verus!
