//! The library's calls into std and outside crates. Where a few lines state
//! a result (Base64), the contract states it; other results are given a name,
//! and the contracts of the library speak of these names.

use base64::Engine as _;
use chrono::Datelike as _;
use vstd::prelude::*;

verus! {

/// What `str::to_lowercase` returns for the given characters (full Unicode case mapping).
pub uninterp spec fn spec_to_lowercase(s: Seq<char>) -> Seq<char>;

/// Calls `str::to_lowercase`; the result is named by `spec_to_lowercase`.
/// The documentation defines the result character by character, by the
/// Unicode lower-case mapping, with one exception: `Σ` becomes `ς` at the end
/// of a word and `σ` elsewhere. Path separators `\` and `/` are no letters:
/// they map to themselves and do not end or continue a word differently from
/// the end of the text. So lower-casing text that ends in separators gives
/// the lower-cased rest followed by the same separators, as stated here.
#[verifier::external_body]
pub(crate) fn to_lowercase(s: &str) -> (out: String)
    ensures
        out@ == spec_to_lowercase(s@),
        forall|k: int|
            0 <= k <= s@.len() && (forall|j: int|
                k <= j < s@.len() ==> s@[j] == '\\' || s@[j] == '/') ==> out@
                == #[trigger] spec_to_lowercase(s@.take(k)) + s@.skip(k),
{
    s.to_lowercase()
}

/// What `char::is_alphanumeric` returns (Unicode `Alphabetic` or `Numeric`).
pub uninterp spec fn spec_is_alphanumeric(c: char) -> bool;

/// Calls `char::is_alphanumeric`; the result is named by `spec_is_alphanumeric`.
/// It also states what the documentation gives for ASCII: letters and digits
/// are alphanumeric, other ASCII characters are not.
#[verifier::external_body]
pub(crate) fn is_alphanumeric(c: char) -> (b: bool)
    ensures
        b == spec_is_alphanumeric(c),
        (c as u32) < 128 ==> (b <==> ('a' <= c <= 'z' || 'A' <= c <= 'Z' || '0' <= c <= '9')),
{
    c.is_alphanumeric()
}

/// The lower-case hexadecimal BLAKE3 digest of the bytes (`blake3::hash(..).to_hex()`).
pub uninterp spec fn spec_blake3_hex(bytes: Seq<u8>) -> Seq<char>;

/// Calls `blake3::hash` and `Hash::to_hex`. Besides naming the result, the
/// contract states what the crate documents and its source shows: a 32-byte
/// digest written as 64 lower-case hexadecimal digits.
#[verifier::external_body]
pub(crate) fn blake3_hex(bytes: &[u8]) -> (out: String)
    ensures
        out@ == spec_blake3_hex(bytes@),
        out@.len() == 64,
        forall|i: int| 0 <= i < 64 ==> ('0' <= #[trigger] out@[i] <= '9' || 'a' <= out@[i] <= 'f'),
{
    blake3::hash(bytes).to_hex().to_string()
}

/// The character of a 6-bit value in the standard Base64 alphabet.
pub open spec fn base64_char(n: int) -> char {
    "ABCDEFGHIJKLMNOPQRSTUVWXYZabcdefghijklmnopqrstuvwxyz0123456789+/"@[n]
}

/// Standard Base64 (RFC 4648, with padding) of the bytes: each group of three
/// bytes gives four characters of six bits each, most significant first; a
/// last group of one or two bytes is filled with zero bits and padded with `=`.
pub open spec fn spec_base64_standard(bytes: Seq<u8>) -> Seq<char>
    decreases bytes.len(),
{
    if bytes.len() == 0 {
        seq![]
    } else if bytes.len() == 1 {
        let a = bytes[0] as int;
        seq![base64_char(a / 4), base64_char((a % 4) * 16), '=', '=']
    } else if bytes.len() == 2 {
        let (a, b) = (bytes[0] as int, bytes[1] as int);
        seq![base64_char(a / 4), base64_char((a % 4) * 16 + b / 16), base64_char((b % 16) * 4), '=']
    } else {
        let (a, b, c) = (bytes[0] as int, bytes[1] as int, bytes[2] as int);
        seq![
            base64_char(a / 4),
            base64_char((a % 4) * 16 + b / 16),
            base64_char((b % 16) * 4 + c / 64),
            base64_char(c % 64),
        ] + spec_base64_standard(bytes.skip(3))
    }
}

/// Calls `STANDARD.encode` of the `base64` crate (`general_purpose::STANDARD`:
/// the standard alphabet with padding), whose output is the encoding that
/// `spec_base64_standard` states.
#[verifier::external_body]
pub(crate) fn base64_standard(bytes: &[u8]) -> (out: String)
    ensures
        out@ == spec_base64_standard(bytes@),
{
    base64::engine::general_purpose::STANDARD.encode(bytes)
}

/// The MIME type that `infer::get` recognises in a file header, if any.
pub uninterp spec fn spec_infer_mime(header: Seq<u8>) -> Option<Seq<char>>;

/// Calls `infer::get` and, when a type is recognised, `Type::mime_type`.
#[verifier::external_body]
pub(crate) fn infer_mime(header: &[u8]) -> (out: Option<String>)
    ensures
        match out {
            Some(m) => spec_infer_mime(header@) == Some(m@),
            None => spec_infer_mime(header@) is None,
        },
{
    match infer::get(header) {
        Some(kind) => Some(kind.mime_type().to_string()),
        None => None,
    }
}

/// The calendar year and month, in UTC, of an RFC 3339 timestamp, or `None`
/// when `chrono` rejects the text.
pub uninterp spec fn spec_rfc3339_utc_year_month(text: Seq<char>) -> Option<(i32, u32)>;

/// Calls `DateTime::parse_from_rfc3339`, converts to `Utc`, and reads `year()`
/// and `month()`. Beside the name, the contract states that a month is
/// between 1 and 12, as `Datelike::month` documents.
#[verifier::external_body]
pub(crate) fn rfc3339_utc_year_month(text: &str) -> (out: Option<(i32, u32)>)
    ensures
        out == spec_rfc3339_utc_year_month(text@),
        out matches Some((_, m)) ==> 1 <= m <= 12,
{
    match chrono::DateTime::parse_from_rfc3339(text) {
        Ok(value) => {
            let utc = value.with_timezone(&chrono::Utc);
            Some((utc.year(), utc.month()))
        },
        Err(_) => None,
    }
}

/// RFC 3339 text of a UNIX timestamp in UTC, or `None` when it is out of
/// `chrono`'s range.
pub uninterp spec fn spec_timestamp_rfc3339(secs: i64) -> Option<Seq<char>>;

/// Calls `DateTime::<Utc>::from_timestamp(secs, 0)` and `to_rfc3339`.
#[verifier::external_body]
pub(crate) fn timestamp_rfc3339(secs: i64) -> (out: Option<String>)
    ensures
        match out {
            Some(t) => spec_timestamp_rfc3339(secs) == Some(t@),
            None => spec_timestamp_rfc3339(secs) is None,
        },
{
    match chrono::DateTime::<chrono::Utc>::from_timestamp(secs, 0) {
        Some(value) => Some(value.to_rfc3339()),
        None => None,
    }
}

/// The JSON text that `serde_json::to_string` writes for a list of strings.
pub uninterp spec fn spec_json_string_list(items: Seq<Seq<char>>) -> Seq<char>;

/// Calls `serde_json::to_string` on a list of strings. It succeeds: a string
/// always serializes, and the writer is a `Vec`, which cannot fail. The text
/// is named by `spec_json_string_list`, and reading it back with
/// `serde_json::from_str::<Vec<String>>` gives the same list: the writer
/// escapes every character of a string that JSON requires escaped, and the
/// reader undoes exactly those escapes.
#[verifier::external_body]
pub(crate) fn json_string_list(items: &Vec<String>) -> (out: Result<String, ()>)
    ensures
        out is Ok,
        out matches Ok(t) ==> t@ == spec_json_string_list(items@.map_values(|s: String| s@)),
        out matches Ok(t) ==> spec_parse_json_string_list(t@) == Some(
            items@.map_values(|s: String| s@),
        ),
{
    match serde_json::to_string(items) {
        Ok(t) => Ok(t),
        Err(_) => Err(()),
    }
}

/// The list of strings that `serde_json::from_str::<Vec<String>>` reads from
/// the text, or `None` when it reports an error.
pub uninterp spec fn spec_parse_json_string_list(text: Seq<char>) -> Option<Seq<Seq<char>>>;

/// Calls `serde_json::from_str::<Vec<String>>`.
#[verifier::external_body]
pub(crate) fn parse_json_string_list(text: &str) -> (out: Option<Vec<String>>)
    ensures
        match out {
            Some(v) => spec_parse_json_string_list(text@) == Some(v@.map_values(|s: String| s@)),
            None => spec_parse_json_string_list(text@) is None,
        },
{
    match serde_json::from_str::<Vec<String>>(text) {
        Ok(v) => Some(v),
        Err(_) => None,
    }
}

/// The boolean stored under `key` in the JSON object written in `text`:
/// `None` when the text is not JSON, the key is absent, or its value is not a boolean.
pub uninterp spec fn spec_json_bool_field(text: Seq<char>, key: Seq<char>) -> Option<bool>;

/// Calls `serde_json::from_str::<Value>`, then `Value::get` and `Value::as_bool`.
#[verifier::external_body]
pub(crate) fn json_bool_field(text: &str, key: &str) -> (out: Option<bool>)
    ensures
        out == spec_json_bool_field(text@, key@),
{
    match serde_json::from_str::<serde_json::Value>(text) {
        Ok(value) => value.get(key).and_then(serde_json::Value::as_bool),
        Err(_) => None,
    }
}

/// The string stored under `key` in the JSON object written in `text`:
/// `None` when the text is not JSON, the key is absent, or its value is not a string.
pub uninterp spec fn spec_json_str_field(text: Seq<char>, key: Seq<char>) -> Option<Seq<char>>;

/// Calls `serde_json::from_str::<Value>`, then `Value::get` and `Value::as_str`.
#[verifier::external_body]
pub(crate) fn json_str_field(text: &str, key: &str) -> (out: Option<String>)
    ensures
        match out {
            Some(v) => spec_json_str_field(text@, key@) == Some(v@),
            None => spec_json_str_field(text@, key@) is None,
        },
{
    match serde_json::from_str::<serde_json::Value>(text) {
        Ok(value) => value.get(key).and_then(serde_json::Value::as_str).map(str::to_string),
        Err(_) => None,
    }
}

/// What `serde_json::Value::pointer` finds at `pointer` in the JSON text, when
/// it is a string: `None` when the text is not JSON, `Some(None)` when nothing
/// is there or it is not a string.
pub uninterp spec fn spec_json_pointer_str(text: Seq<char>, pointer: Seq<char>) -> Option<Option<Seq<char>>>;

/// Calls `serde_json::from_str::<Value>`, then `Value::pointer` and `Value::as_str`.
#[verifier::external_body]
pub(crate) fn json_pointer_str(text: &str, pointer: &str) -> (out: Option<Option<String>>)
    ensures
        match out {
            Some(Some(v)) => spec_json_pointer_str(text@, pointer@) == Some(Some(v@)),
            Some(None) => spec_json_pointer_str(text@, pointer@) == Some(None::<Seq<char>>),
            None => spec_json_pointer_str(text@, pointer@) is None,
        },
{
    match serde_json::from_str::<serde_json::Value>(text) {
        Ok(value) => Some(value.pointer(pointer).and_then(serde_json::Value::as_str).map(str::to_string)),
        Err(_) => None,
    }
}

} // verus!
