//! What the library takes on trust: the calls into std and into other crates.
//!
//! Each item names the function that it calls and says what is claimed of it. Nothing here
//! decides anything for the bot.

use vstd::prelude::*;
use vstd::utf8::{decode_utf8, is_ascii_chars, valid_utf8};

use crate::downloader::json::{JsonDoc, JsonDocView, JsonScalar};
use crate::error::result_view;
use crate::text::ascii_lower;

verus! {

/// Appends one character (`String::push`): the text grows by `c` at its end.
pub assume_specification[ String::push ](s: &mut String, c: char)
    ensures
        final(s)@ == old(s)@.push(c),
;

/// What `str::to_lowercase` makes of a text that is not all ASCII.
pub uninterp spec fn unicode_lowercase(s: Seq<char>) -> Seq<char>;

/// A text in lower case.
pub open spec fn lowercase(s: Seq<char>) -> Seq<char> {
    if is_ascii_chars(s) {
        s.map_values(|c: char| ascii_lower(c))
    } else {
        unicode_lowercase(s)
    }
}

/// Lower-cases a text by Unicode's tables (`str::to_lowercase`). Of a text in ASCII the result
/// is the text with `A` to `Z` replaced by `a` to `z`. The tables for the rest are not written
/// out here: the result depends on the text alone.
pub assume_specification[ str::to_lowercase ](s: &str) -> (r: String)
    ensures
        r@ == if is_ascii_chars(s@) {
            s@.map_values(|c: char| ascii_lower(c))
        } else {
            unicode_lowercase(s@)
        },
;

/// What `String::from_utf8_lossy` makes of bytes that are not UTF-8.
pub uninterp spec fn patched_utf8(bytes: Seq<u8>) -> Seq<char>;

/// Bytes as text.
pub open spec fn lossy_text(bytes: Seq<u8>) -> Seq<char> {
    if valid_utf8(bytes) {
        decode_utf8(bytes)
    } else {
        patched_utf8(bytes)
    }
}

/// Decodes UTF-8, replacing what is not (`String::from_utf8_lossy`). Bytes that are UTF-8 are
/// decoded as such. Where the replacement characters go in others is not written out here: the
/// result depends on the bytes alone.
#[verifier::external_body]
pub(crate) fn from_utf8_lossy(bytes: &[u8]) -> (r: String)
    ensures
        r@ == if valid_utf8(bytes@) {
            decode_utf8(bytes@)
        } else {
            patched_utf8(bytes@)
        },
{
    String::from_utf8_lossy(bytes).into_owned()
}

/// What `serde_json::from_slice` reads in bytes: the top level of the JSON document, or the
/// words of the error.
pub uninterp spec fn json_document(bytes: Seq<u8>) -> Result<JsonDocView, Seq<char>>;

/// Reads a JSON document (`serde_json::from_slice` into a `serde_json::Value`) and hands its
/// top level over, or the error's own words. The JSON grammar is not written out here: the
/// result depends on the bytes alone. Of a number it keeps what `Number::as_u64` and
/// `Number::as_f64` say, the latter by its bits.
#[verifier::external_body]
pub(crate) fn read_json(bytes: &[u8]) -> (r: Result<JsonDoc, String>)
    ensures
        result_view(r) == json_document(bytes@),
{
    let value: serde_json::Value = serde_json::from_slice(bytes).map_err(|e| e.to_string())?;
    let serde_json::Value::Object(members) = value else { return Ok(JsonDoc::Other) };
    Ok(JsonDoc::Object(members.into_iter().map(|(key, v)| (key, match v {
        serde_json::Value::Null => JsonScalar::Null,
        serde_json::Value::Bool(b) => JsonScalar::Bool(b),
        serde_json::Value::Number(n) =>
            JsonScalar::Number(n.as_u64(), n.as_f64().map(|d| d.to_bits())),
        serde_json::Value::String(s) => JsonScalar::Text(s),
        serde_json::Value::Array(_) => JsonScalar::List,
        serde_json::Value::Object(_) => JsonScalar::Object,
    })).collect()))
}

/// Whether `c` is a hexadecimal digit in lower case.
pub open spec fn is_lower_hex(c: char) -> bool {
    '0' <= c <= '9' || 'a' <= c <= 'f'
}

/// The hyphenated form of a random (version 4) UUID.
pub open spec fn is_v4_text(s: Seq<char>) -> bool {
    &&& s.len() == 36
    &&& forall|i: int|
        0 <= i < 36 ==> if i == 8 || i == 13 || i == 18 || i == 23 {
            #[trigger] s[i] == '-'
        } else {
            is_lower_hex(s[i])
        }
    &&& s[14] == '4'
    &&& s[19] == '8' || s[19] == '9' || s[19] == 'a' || s[19] == 'b'
}

/// A fresh random UUID in its hyphenated form (`uuid::Uuid::new_v4`, written by its
/// `Display`). Which one is left to chance; only its shape is claimed. The call fails only on
/// a system that has no randomness to give.
#[verifier::external_body]
pub(crate) fn new_uuid_v4() -> (r: String)
    ensures
        is_v4_text(r@),
{
    uuid::Uuid::new_v4().to_string()
}

/// What `url::Url::parse` finds in a text that is an absolute URL: the scheme, and whether
/// there is a host.
pub uninterp spec fn parsed_url(text: Seq<char>) -> Option<(Seq<char>, bool)>;

/// The view of what was found in a URL.
pub open spec fn url_view(r: Option<(String, bool)>) -> Option<(Seq<char>, bool)> {
    match r {
        Some(parts) => Some((parts.0@, parts.1)),
        None => None,
    }
}

/// Parses an absolute URL (`url::Url::parse`) and tells its scheme (`Url::scheme`) and
/// whether it has a host (`Url::host`). The URL grammar is not written out here: the result
/// depends on the text alone.
#[verifier::external_body]
pub(crate) fn parse_absolute_url(text: &str) -> (r: Option<(String, bool)>)
    ensures
        url_view(r) == parsed_url(text@),
{
    url::Url::parse(text).ok().map(|u| (u.scheme().to_string(), u.host().is_some()))
}

} // verus!
