//! The JSON value codec for string values, from serde_json.
use vstd::prelude::*;

verus! {

#[verifier::external_type_specification]
#[verifier::external_body]
pub struct ExJsonError(serde_json::Error);

/// A lower-case hexadecimal digit.
pub open spec fn hex_digit(d: int) -> char {
    seq!['0', '1', '2', '3', '4', '5', '6', '7', '8', '9', 'a', 'b', 'c', 'd', 'e', 'f'][d]
}

/// How one character stands inside a JSON string: the quote, the backslash and
/// the control characters are escaped, every other character stands as it is.
pub open spec fn json_escape_char(c: char) -> Seq<char> {
    if c == '"' {
        seq!['\\', '"']
    } else if c == '\\' {
        seq!['\\', '\\']
    } else if c == '\u{08}' {
        seq!['\\', 'b']
    } else if c == '\t' {
        seq!['\\', 't']
    } else if c == '\n' {
        seq!['\\', 'n']
    } else if c == '\u{0C}' {
        seq!['\\', 'f']
    } else if c == '\r' {
        seq!['\\', 'r']
    } else if (c as u32) < 0x20 {
        seq!['\\', 'u', '0', '0', hex_digit((c as u32) as int / 16), hex_digit((c as u32) as int % 16)]
    } else {
        seq![c]
    }
}

/// The JSON encoding of a string value: the escaped characters between quotes.
pub open spec fn json_of_str(s: Seq<char>) -> Seq<char> {
    seq!['"'] + s.map_values(|c: char| json_escape_char(c)).flatten() + seq!['"']
}

/// The string value that a JSON document decodes to, if it is a JSON string.
pub uninterp spec fn str_of_json(text: Seq<char>) -> Option<Seq<char>>;

/// Relies on serde_json::to_string_pretty: a string value is written as a
/// quote, each character escaped by serde_json's escape table, and a quote,
/// into a `Vec`, which cannot fail.
#[verifier::external_body]
pub(crate) fn encode_str(s: &str) -> (r: Result<String, serde_json::Error>)
    ensures
        r is Ok,
        r matches Ok(t) ==> t@ == json_of_str(s@),
{
    serde_json::to_string_pretty(s)
}

/// Relies on serde_json::from_str at type `String`: it succeeds exactly when
/// the text is a JSON string, and gives that string's value; both depend on
/// the text alone.
#[verifier::external_body]
pub(crate) fn decode_str(text: &str) -> (r: Result<String, serde_json::Error>)
    ensures
        r is Ok <==> str_of_json(text@) is Some,
        r matches Ok(s) ==> s@ == str_of_json(text@)->0,
{
    serde_json::from_str::<String>(text)
}

} // verus!
