//! What is taken on trust of functions that are defined elsewhere.
use vstd::prelude::*;

use crate::apis::message::optional_view;

verus! {

/// `String::push` appends one character.
pub assume_specification[ String::push ](s: &mut String, ch: char)
    ensures
        final(s)@ == old(s)@.push(ch),
;

/// `String::from` of a string slice copies its characters.
pub assume_specification<'a>[ <String as From<&'a str>>::from ](s: &str) -> (res: String)
    ensures
        res@ == s@,
;

/// `T::from` of a value of the same type hands the value back.
pub assume_specification<T>[ <T as From<T>>::from ](t: T) -> (res: T)
    ensures
        res == t,
;

/// A JSON value of `serde_json`, which is carried and never looked into.
#[verifier::external_type_specification]
#[verifier::external_body]
pub struct ExJsonValue(serde_json::Value);

/// `clone` of a JSON value, which `serde_json` derives, copies the whole tree.
pub assume_specification[ <serde_json::Value as Clone>::clone ](
    value: &serde_json::Value,
) -> (res: serde_json::Value)
    ensures
        res == *value,
;

/// The string that the member `member` of the JSON object `document` holds: `None` if `document`
/// is no JSON text or no object, or the member is absent or no string. The parser is that of
/// `serde_json`.
pub uninterp spec fn json_string_member(document: Seq<char>, member: Seq<char>) -> Option<Seq<char>>;

/// `serde_json::from_str`, then `Value::get` and `Value::as_str` on what it made of the text. The
/// result is a function of the two texts.
#[verifier::external_body]
pub(crate) fn string_member(document: &str, member: &str) -> (text: Option<String>)
    ensures
        optional_view(text) == json_string_member(document@, member@),
{
    match serde_json::from_str::<serde_json::Value>(document) {
        Ok(value) => value.get(member).and_then(|v| v.as_str()).map(|s| s.to_string()),
        Err(_) => None,
    }
}

/// A hexadecimal digit, in lower case.
pub open spec fn hex_digit(d: int) -> char {
    if d < 10 {
        ('0' as int + d) as char
    } else {
        ('a' as int + d - 10) as char
    }
}

/// A character as JSON text writes it within a string.
pub open spec fn json_char(c: char) -> Seq<char> {
    if c == '"' || c == '\\' {
        seq!['\\', c]
    } else if c == '\u{8}' {
        seq!['\\', 'b']
    } else if c == '\t' {
        seq!['\\', 't']
    } else if c == '\n' {
        seq!['\\', 'n']
    } else if c == '\u{c}' {
        seq!['\\', 'f']
    } else if c == '\r' {
        seq!['\\', 'r']
    } else if (c as int) < 32 {
        seq!['\\', 'u', '0', '0', hex_digit(c as int / 16), hex_digit(c as int % 16)]
    } else {
        seq![c]
    }
}

/// Characters as JSON text writes them within a string.
pub open spec fn json_chars(text: Seq<char>) -> Seq<char>
    decreases text.len(),
{
    if text.len() == 0 {
        seq![]
    } else {
        json_chars(text.drop_last()) + json_char(text.last())
    }
}

/// The compact JSON text of the object whose one member `member` holds the string `text`.
pub open spec fn json_object_text(member: Seq<char>, text: Seq<char>) -> Seq<char> {
    "{\""@ + json_chars(member) + "\":\""@ + json_chars(text) + "\"}"@
}

/// `Value::to_string` on an object with one member, a string: compact text, in which a quotation
/// mark, a backslash and the control characters below the space are escaped, and every other
/// character stands for itself.
#[verifier::external_body]
pub(crate) fn object_text(member: &str, text: &str) -> (json: String)
    ensures
        json@ == json_object_text(member@, text@),
{
    let mut object = serde_json::Map::new();
    object.insert(member.to_string(), serde_json::Value::String(text.to_string()));
    serde_json::Value::Object(object).to_string()
}

/// `sort_unstable` brings the numbers into ascending order and keeps each as often as it is
/// there.
#[verifier::external_body]
pub(crate) fn sort_numbers(numbers: &mut Vec<u128>)
    ensures
        final(numbers)@.to_multiset() == old(numbers)@.to_multiset(),
        forall|i: int, j: int|
            0 <= i <= j < final(numbers)@.len() ==> final(numbers)@[i] <= final(numbers)@[j],
{
    numbers.sort_unstable();
}

/// JSON text of two texts, one behind the other, is that of the one and that of the other.
pub proof fn law_json_text_is_written_one_by_one(first: Seq<char>, rest: Seq<char>)
    ensures
        json_chars(first + rest) == json_chars(first) + json_chars(rest),
    decreases rest.len(),
{
    if rest.len() == 0 {
        assert(first + rest == first);
    } else {
        law_json_text_is_written_one_by_one(first, rest.drop_last());
        assert((first + rest).drop_last() == first + rest.drop_last());
    }
}

/// A quotation mark and a backslash are written behind a backslash, a control character by its
/// letter or by the four digits of its code, and every other character as it is.
pub proof fn law_json_character(c: char)
    ensures
        ({
            let text = json_chars(seq![c]);
            if c == '"' || c == '\\' {
                text == seq!['\\', c]
            } else if c as int >= 32 {
                text == seq![c]
            } else if c as int == 8 {
                text == seq!['\\', 'b']
            } else if c as int == 9 {
                text == seq!['\\', 't']
            } else if c as int == 10 {
                text == seq!['\\', 'n']
            } else if c as int == 12 {
                text == seq!['\\', 'f']
            } else if c as int == 13 {
                text == seq!['\\', 'r']
            } else {
                &&& text.len() == 6
                &&& text.take(4) == seq!['\\', 'u', '0', '0']
                &&& '0' <= text[4] <= '1'
                &&& '0' <= text[5] <= '9' || 'a' <= text[5] <= 'f'
                &&& c as int == (text[4] as int - '0' as int) * 16 + if text[5] <= '9' {
                    text[5] as int - '0' as int
                } else {
                    text[5] as int - 'a' as int + 10
                }
            }
        }),
{
    reveal_with_fuel(json_chars, 2);
    assert(json_chars(seq![c]) == json_char(c));
}

}
