//! Text operations that the decoder takes from std and serde_json.
use vstd::prelude::*;
use vstd::utf8::decode_utf8;
use vstd::utf8::valid_utf8;

verus! {

/// The text that `String::from_utf8_lossy` makes of a byte sequence.
pub uninterp spec fn lossy_utf8_of(b: Seq<u8>) -> Seq<char>;

/// The text that `str::trim` leaves of a text.
pub uninterp spec fn trimmed_of(s: Seq<char>) -> Seq<char>;

/// The string that a JSON document decodes to, when the document is a JSON
/// string literal.
pub uninterp spec fn json_string_of(doc: Seq<char>) -> Option<Seq<char>>;

/// The string held under `key` by a JSON document, when the document is an
/// object whose member of that name is a string.
pub uninterp spec fn json_member_string_of(doc: Seq<char>, key: Seq<char>) -> Option<Seq<char>>;

/// The text that `str::to_lowercase` makes of a text.
pub uninterp spec fn lowercase_of(s: Seq<char>) -> Seq<char>;

/// The view of an optional owned string.
pub open spec fn text_opt(o: Option<String>) -> Option<Seq<char>> {
    match o {
        Some(t) => Some(t@),
        None => None,
    }
}

/// Relies on `String::from_utf8_lossy`: invalid sequences are replaced, and
/// valid UTF-8 is decoded as it stands.
#[verifier::external_body]
pub(crate) fn decode_lossy(b: &[u8]) -> (r: String)
    ensures
        r@ == lossy_utf8_of(b@),
        valid_utf8(b@) ==> r@ == decode_utf8(b@),
{
    String::from_utf8_lossy(b).into_owned()
}

/// Relies on `str::trim`: leading and trailing whitespace removed.
#[verifier::external_body]
pub(crate) fn trim_text(s: &str) -> (r: &str)
    ensures
        r@ == trimmed_of(s@),
{
    s.trim()
}

/// Relies on `serde_json::from_str::<String>`: the decoded string when the
/// document is a JSON string literal, and an error otherwise.
#[verifier::external_body]
pub(crate) fn parse_json_string(doc: &str) -> (r: Option<String>)
    ensures
        text_opt(r) == json_string_of(doc@),
{
    serde_json::from_str::<String>(doc).ok()
}

/// Relies on `serde_json::from_str::<serde_json::Value>`, `Value::get` and
/// `Value::as_str`: the string member `key` of a JSON object document.
#[verifier::external_body]
pub(crate) fn parse_json_member_string(doc: &str, key: &str) -> (r: Option<String>)
    ensures
        text_opt(r) == json_member_string_of(doc@, key@),
{
    let value: serde_json::Value = serde_json::from_str(doc).ok()?;
    value.get(key)?.as_str().map(String::from)
}

/// Relies on `str::to_lowercase`: the result depends on the characters alone,
/// and an empty text stays empty.
#[verifier::external_body]
pub(crate) fn lowercase(s: &str) -> (r: String)
    ensures
        r@ == lowercase_of(s@),
        s@.len() == 0 ==> r@.len() == 0,
{
    s.to_lowercase()
}

} // verus!
