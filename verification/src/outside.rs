//! The calls into other crates, each behind a function whose contract says what is relied on.

use crate::domain::Timestamp;
use crate::json::{Json, JsonNumber, JsonView, Member, NumberView, MAX_DEPTH};
use crate::urls::{UrlParts, UrlView};
use serde_json::Value;
use sha2::Digest;
use unicode_normalization::UnicodeNormalization;
use vstd::prelude::*;

verus! {

/// A document as `serde_json` holds it.
#[verifier::external_type_specification]
#[verifier::external_body]
pub struct ExJsonValue(serde_json::Value);

/// The document that `serde_json` reads from a text, or its message where the text is not JSON.
pub uninterp spec fn document_of(text: Seq<char>) -> Result<JsonView, Seq<char>>;

/// Whether a text holds a document.
pub open spec fn holds_document(text: Seq<char>, json: JsonView) -> bool {
    document_of(text) == Ok::<JsonView, Seq<char>>(json)
}

/// Reads a text with `serde_json::from_str` and takes the document over one value for one. The
/// contract names the result: it depends on the text alone.
#[verifier::external_body]
pub(crate) fn read_document(text: &str) -> (r: Result<Json, String>)
    ensures
        match r {
            Ok(json) => document_of(text@) == Ok::<JsonView, Seq<char>>(json@),
            Err(message) => document_of(text@) == Err::<JsonView, Seq<char>>(message@),
        },
{
    match serde_json::from_str::<Value>(text) {
        Ok(value) => Ok(taken_over(value)),
        Err(error) => Err(error.to_string()),
    }
}

/// The document that `serde_json` reads from bytes, or its message where they are not JSON.
pub uninterp spec fn document_of_bytes(bytes: Seq<u8>) -> Result<JsonView, Seq<char>>;

/// Reads bytes with `serde_json::from_slice` and takes the document over one value for one. The
/// contract names the result: it depends on the bytes alone.
#[verifier::external_body]
pub(crate) fn read_bytes(bytes: &[u8]) -> (r: Result<Json, String>)
    ensures
        match r {
            Ok(json) => document_of_bytes(bytes@) == Ok::<JsonView, Seq<char>>(json@),
            Err(message) => document_of_bytes(bytes@) == Err::<JsonView, Seq<char>>(message@),
        },
{
    match serde_json::from_slice::<Value>(bytes) {
        Ok(value) => Ok(taken_over(value)),
        Err(error) => Err(error.to_string()),
    }
}

/// The document that bytes hold, if they are JSON.
pub open spec fn document_in(bytes: Seq<u8>) -> Option<JsonView> {
    match document_of_bytes(bytes) {
        Ok(json) => Some(json),
        Err(_) => None,
    }
}

/// The document that bytes hold, if they are JSON.
pub(crate) fn find_document(bytes: &[u8]) -> (r: Option<Json>)
    ensures
        match r {
            Some(json) => document_in(bytes@) == Some(json@),
            None => document_in(bytes@) is None,
        },
{
    match read_bytes(bytes) {
        Ok(json) => Some(json),
        Err(_) => None,
    }
}

/// Takes a `serde_json::Value` over, variant for variant. Of a number it takes what `Number`'s
/// `to_string`, `as_i64`, `as_u64` and `as_f64` give.
#[verifier::external_body]
fn taken_over(value: Value) -> (json: Json) {
    match value {
        Value::Null => Json::Null,
        Value::Bool(b) => Json::Bool(b),
        Value::Number(n) => Json::Number(JsonNumber {
            text: n.to_string(),
            signed: n.as_i64(),
            unsigned: n.as_u64(),
            bits: n.as_f64().map(|x| x.to_bits()).unwrap_or_default(),
            decimal: n.as_f64().map(|x| x.to_string()).unwrap_or_default(),
        }),
        Value::String(s) => Json::Text(s),
        Value::Array(items) => Json::Array(items.into_iter().map(taken_over).collect()),
        Value::Object(map) => Json::Object(map.into_iter().map(|(key, value)| Member { key, value: taken_over(value) }).collect()),
    }
}

/// Hands a document over to `serde_json`, variant for variant; a number by the text it is
/// written as.
#[verifier::external_body]
fn handed_over(json: &Json) -> (value: Value) {
    match json {
        Json::Null => Value::Null,
        Json::Bool(b) => Value::Bool(*b),
        Json::Number(n) => serde_json::from_str(&n.text).unwrap_or_default(),
        Json::Text(s) => Value::String(s.clone()),
        Json::Array(items) => Value::Array(items.iter().map(handed_over).collect()),
        Json::Object(members) => Value::Object(members.iter().map(|member| (member.key.clone(), handed_over(&member.value))).collect()),
    }
}

/// The compact text that `serde_json` writes for a document.
pub uninterp spec fn rendering_of(json: JsonView) -> Seq<char>;

/// Writes a document with the `Display` of `serde_json::Value`. The contract names the result: it
/// depends on the document alone. Of a document whose numbers are integers, whose keys are in order
/// and which is not nested too deeply it says that `serde_json::from_str` gives it back.
#[verifier::external_body]
pub(crate) fn render(json: &Json) -> (text: String)
    ensures
        text@ == rendering_of(json@),
        crate::json::readable(json@, MAX_DEPTH as nat) ==> holds_document(text@, json@),
{
    handed_over(json).to_string()
}

/// The indented text that `serde_json` writes for a document.
pub uninterp spec fn pretty_rendering_of(json: JsonView) -> Seq<char>;

/// Writes a document with `serde_json::to_string_pretty`. The contract names the result: it
/// depends on the document alone.
#[verifier::external_body]
pub(crate) fn render_pretty(json: &Json) -> (text: String)
    ensures
        text@ == pretty_rendering_of(json@),
{
    serde_json::to_string_pretty(&handed_over(json)).unwrap_or_default()
}

/// The number that `serde_json` makes of an integer.
pub uninterp spec fn number_of(value: i64) -> NumberView;

/// Makes a number with `serde_json::Number::from`. The contract states its integer values and its
/// text; the nearest double-precision value is part of the named result.
#[verifier::external_body]
pub(crate) fn integer(value: i64) -> (number: JsonNumber)
    ensures
        number@ == number_of(value),
        number.signed == Some(value),
        number.unsigned == (if value >= 0 {
            Some(value as u64)
        } else {
            None
        }),
        number.text@ == crate::text::signed_numeral(value as int),
{
    let n = serde_json::Number::from(value);
    JsonNumber {
        text: n.to_string(),
        signed: n.as_i64(),
        unsigned: n.as_u64(),
        bits: n.as_f64().map(|x| x.to_bits()).unwrap_or_default(),
        decimal: n.as_f64().map(|x| x.to_string()).unwrap_or_default(),
    }
}

/// The number that `serde_json` makes of an unsigned integer.
pub uninterp spec fn natural_of(value: u64) -> NumberView;

/// Makes a number with `serde_json::Number::from`. The contract states its integer values and its
/// text; the nearest double-precision value is part of the named result.
#[verifier::external_body]
pub(crate) fn natural(value: u64) -> (number: JsonNumber)
    ensures
        number@ == natural_of(value),
        number.unsigned == Some(value),
        number.signed == (if value <= i64::MAX {
            Some(value as i64)
        } else {
            None
        }),
        number.text@ == crate::text::numeral(value as nat),
{
    let n = serde_json::Number::from(value);
    JsonNumber {
        text: n.to_string(),
        signed: n.as_i64(),
        unsigned: n.as_u64(),
        bits: n.as_f64().map(|x| x.to_bits()).unwrap_or_default(),
        decimal: n.as_f64().map(|x| x.to_string()).unwrap_or_default(),
    }
}

/// The canonical composition of a text.
pub uninterp spec fn nfc_of(text: Seq<char>) -> Seq<char>;

/// Composes a text with `UnicodeNormalization::nfc`. The contract names the result: it depends on
/// the text alone.
#[verifier::external_body]
pub(crate) fn nfc(text: &str) -> (composed: String)
    ensures
        composed@ == nfc_of(text@),
{
    text.nfc().collect()
}

/// The SHA-256 digest of some bytes.
pub uninterp spec fn sha256_of(bytes: Seq<u8>) -> Seq<u8>;

/// Digests bytes with `Sha256::digest`. The contract names the result, which depends on the bytes
/// alone, and states its length.
#[verifier::external_body]
pub(crate) fn sha256(bytes: &[u8]) -> (digest: Vec<u8>)
    ensures
        digest@ == sha256_of(bytes@),
        digest@.len() == 32,
{
    sha2::Sha256::digest(bytes).to_vec()
}

/// The moment that an RFC 3339 text denotes.
pub uninterp spec fn moment_of(text: Seq<char>) -> Option<Timestamp>;

/// Reads a moment with `chrono::DateTime::parse_from_rfc3339`. The contract names the result: it
/// depends on the text alone.
#[verifier::external_body]
pub(crate) fn read_moment(text: &str) -> (r: Option<Timestamp>)
    ensures
        r == moment_of(text@),
{
    let moment = chrono::DateTime::parse_from_rfc3339(text).ok()?;
    Some(Timestamp { seconds: moment.timestamp(), nanos: moment.timestamp_subsec_nanos() })
}

/// Whether a moment lies in the years from 0 to 9999, which RFC 3339 can write.
pub open spec fn has_plain_year(moment: Timestamp) -> bool {
    -62_167_219_200 <= moment.seconds <= 253_402_300_799 && moment.nanos < 1_000_000_000
}

/// A moment in universal time in the form of RFC 3339, if it lies in `chrono`'s range.
pub uninterp spec fn rfc3339_of(moment: Timestamp) -> Option<Seq<char>>;

/// Whether there is a text and it denotes the moment.
pub open spec fn reads_as(text: Option<Seq<char>>, moment: Timestamp) -> bool {
    text is Some && moment_of(text->0) == Some(moment)
}

/// Writes a moment with `chrono::DateTime::<Utc>::to_rfc3339`. The contract names the result: it
/// depends on the moment alone. Of a moment in the years from 0 to 9999 it says that it is written,
/// and that `parse_from_rfc3339` gives it back.
#[verifier::external_body]
pub(crate) fn write_rfc3339(moment: Timestamp) -> (r: Option<String>)
    ensures
        crate::domain::opt_view(r) == rfc3339_of(moment),
        has_plain_year(moment) ==> reads_as(crate::domain::opt_view(r), moment),
{
    let moment = chrono::DateTime::<chrono::Utc>::from_timestamp(moment.seconds, moment.nanos)?;
    Some(moment.to_rfc3339())
}

/// How a day and a minute are written.
pub const MINUTE_PATTERN: &'static str = "%Y-%m-%d %H:%M UTC";

/// How a time of day is written.
pub const CLOCK_PATTERN: &'static str = "%H:%M:%S UTC";

/// A moment in universal time as `chrono` writes it by a pattern, if it lies in `chrono`'s range.
pub uninterp spec fn moment_text_of(moment: Timestamp, pattern: Seq<char>) -> Option<Seq<char>>;

/// Writes a moment with `chrono::DateTime::<Utc>::format`. The contract names the result: it
/// depends on the moment and the pattern alone. The pattern is one of those above, which `chrono`
/// knows.
#[verifier::external_body]
pub(crate) fn write_moment(moment: Timestamp, pattern: &str) -> (r: Option<String>)
    requires
        pattern@ == MINUTE_PATTERN@ || pattern@ == CLOCK_PATTERN@,
    ensures
        crate::domain::opt_view(r) == moment_text_of(moment, pattern@),
{
    let moment = chrono::DateTime::<chrono::Utc>::from_timestamp(moment.seconds, moment.nanos)?;
    Some(moment.format(pattern).to_string())
}

/// The client errors that have a standard reason phrase.
pub open spec fn standard_client_error(code: int) -> bool {
    400 <= code <= 418 || 421 <= code <= 426 || code == 428 || code == 429 || code == 431 || code
        == 451
}

/// Whether `StatusCode::canonical_reason` knows the code. The contract says so of the client
/// errors.
#[verifier::external_body]
pub(crate) fn has_reason(code: u16) -> (b: bool)
    ensures
        400 <= code < 500 ==> b == standard_client_error(code as int),
{
    reqwest::StatusCode::from_u16(code).ok().and_then(|status| status.canonical_reason()).is_some()
}

/// Whether a text can stand in a header: it holds no control characters but tabs.
pub open spec fn header_text(text: Seq<char>) -> bool {
    forall|i: int|
        0 <= i < text.len() ==> (#[trigger] text[i] as u32 >= 32 && text[i] as u32 != 127)
            || text[i] == '\t'
}

/// Whether `HeaderValue::from_str` takes a text. Of its bytes it refuses those below 32 other than
/// the tab, and 127; none of these occurs in the encoding of another character.
#[verifier::external_body]
pub(crate) fn is_header_text(text: &str) -> (b: bool)
    ensures
        b == header_text(text@),
{
    reqwest::header::HeaderValue::from_str(text).is_ok()
}

/// The parts of the URL that `url` reads from a text.
pub uninterp spec fn url_of(text: Seq<char>) -> Option<UrlView>;

/// Reads a URL with `url::Url::parse` and takes over what its accessors give. The contract names
/// the result: it depends on the text alone.
#[verifier::external_body]
pub(crate) fn read_url(text: &str) -> (r: Option<UrlParts>)
    ensures
        match r {
            Some(parts) => url_of(text@) == Some(parts@),
            None => url_of(text@) is None,
        },
{
    let url = url::Url::parse(text).ok()?;
    let ipv4 = match url.host() {
        Some(url::Host::Ipv4(address)) => Some(address.octets()),
        _ => None,
    };
    Some(UrlParts {
        text: url.as_str().to_owned(), scheme: url.scheme().to_owned(), host: url.host_str().map(str::to_owned), username: url.username().to_owned(), has_password: url.password().is_some(),
        has_query: url.query().is_some(), has_fragment: url.fragment().is_some(), path: url.path().to_owned(), segments: url.path_segments().map(|parts| parts.map(str::to_owned).collect()), ipv4,
    })
}

/// The URL to which a reference points from another URL.
pub uninterp spec fn joined_of(base: Seq<char>, reference: Seq<char>) -> Option<Seq<char>>;

/// Resolves a reference with `url::Url::join`. The contract names the result: it depends on the
/// two texts alone, and there is none where the base is no URL or the reference does not resolve.
#[verifier::external_body]
pub(crate) fn join_url(base: &str, reference: &str) -> (r: Option<String>)
    ensures
        match r {
            Some(text) => joined_of(base@, reference@) == Some(text@),
            None => joined_of(base@, reference@) is None,
        },
{
    url::Url::parse(base).ok()?.join(reference).ok().map(String::from)
}

/// A URL with segments behind its path.
pub uninterp spec fn appended_of(base: Seq<char>, segments: Seq<Seq<char>>) -> Option<Seq<char>>;

/// Puts segments behind a URL's path with `PathSegmentsMut`: `pop_if_empty`, then `extend`. The
/// contract names the result: it depends on the texts alone, and there is none where the base is
/// no URL or cannot have segments. The bound keeps the URL's positions within 32 bits; beyond
/// that the crate panics.
#[verifier::external_body]
pub(crate) fn append_path(base: &str, segments: &Vec<String>) -> (r: Option<String>)
    requires
        crate::urls::fits(base@, crate::urls::room(crate::text::texts(segments@))),
    ensures
        match r {
            Some(text) => appended_of(base@, crate::text::texts(segments@)) == Some(text@),
            None => appended_of(base@, crate::text::texts(segments@)) is None,
        },
{
    let mut url = url::Url::parse(base).ok()?;
    url.path_segments_mut().ok()?.pop_if_empty().extend(segments);
    Some(url.into())
}

/// A URL with pairs behind its query.
pub uninterp spec fn queried_of(base: Seq<char>, names: Seq<Seq<char>>, values: Seq<Seq<char>>) -> Option<Seq<char>>;

/// Puts pairs behind a URL's query with `Url::query_pairs_mut` and `extend_pairs`. The contract
/// names the result: it depends on the texts alone, and there is none where the base is no URL.
/// The bound keeps the URL's positions within 32 bits; beyond that the crate panics.
#[verifier::external_body]
pub(crate) fn append_query(base: &str, names: &Vec<String>, values: &Vec<String>) -> (r: Option<String>)
    requires
        crate::urls::fits(base@, crate::urls::room(crate::text::texts(names@)) + crate::urls::room(crate::text::texts(values@))),
        names@.len() == values@.len(),
    ensures
        match r {
            Some(text) => queried_of(base@, crate::text::texts(names@), crate::text::texts(values@)) == Some(text@),
            None => queried_of(base@, crate::text::texts(names@), crate::text::texts(values@)) is None,
        },
{
    let mut url = url::Url::parse(base).ok()?;
    url.query_pairs_mut().extend_pairs(names.iter().zip(values.iter()));
    Some(url.into())
}

/// A URL with another path.
pub uninterp spec fn repathed_of(base: Seq<char>, path: Seq<char>) -> Option<Seq<char>>;

/// Gives a URL another path with `Url::set_path`. The contract names the result: it depends on
/// the texts alone, and there is none where the base is no URL. The bound keeps the URL's positions
/// within 32 bits; beyond that the crate panics.
#[verifier::external_body]
pub(crate) fn replace_path(base: &str, path: &str) -> (r: Option<String>)
    requires
        crate::urls::fits(base@, path@.len() + 1),
    ensures
        match r {
            Some(text) => repathed_of(base@, path@) == Some(text@),
            None => repathed_of(base@, path@) is None,
        },
{
    let mut url = url::Url::parse(base).ok()?;
    url.set_path(path);
    Some(url.into())
}

/// The decimal that `rust_decimal` reads from a text, as it writes it.
pub uninterp spec fn decimal_of(text: Seq<char>) -> Option<Seq<char>>;

/// Reads a decimal with `Decimal::from_str` and writes it with its `Display`. The contract names
/// the result: it depends on the text alone.
#[verifier::external_body]
pub(crate) fn read_decimal(text: &str) -> (r: Option<String>)
    ensures
        match r {
            Some(amount) => decimal_of(text@) == Some(amount@),
            None => decimal_of(text@) is None,
        },
{
    text.parse::<rust_decimal::Decimal>().ok().map(|amount| amount.to_string())
}

/// The decimal that `rust_decimal` reads from a text, as it writes it without trailing zeros. Two
/// texts denote the same amount where these are the same.
pub uninterp spec fn plain_decimal_of(text: Seq<char>) -> Option<Seq<char>>;

/// Reads a decimal with `Decimal::from_str`, takes off its trailing zeros with `normalize` and
/// writes it with its `Display`. The contract names the result: it depends on the text alone.
#[verifier::external_body]
pub(crate) fn plain_decimal(text: &str) -> (r: Option<String>)
    ensures
        match r {
            Some(amount) => plain_decimal_of(text@) == Some(amount@),
            None => plain_decimal_of(text@) is None,
        },
{
    text.parse::<rust_decimal::Decimal>().ok().map(|amount| amount.normalize().to_string())
}

/// The product of a decimal, given as text, and an integer.
pub uninterp spec fn product_of(amount: Seq<char>, factor: u32) -> Option<Seq<char>>;

/// Multiplies with `Decimal::checked_mul` and writes the product with its `Display`. The contract
/// names the result: it depends on the factors alone, and there is none where the text is no
/// decimal or the product is out of range.
#[verifier::external_body]
pub(crate) fn multiply(amount: &str, factor: u32) -> (r: Option<String>)
    ensures
        match r {
            Some(product) => product_of(amount@, factor) == Some(product@),
            None => product_of(amount@, factor) is None,
        },
{
    let amount = amount.parse::<rust_decimal::Decimal>().ok()?;
    amount.checked_mul(rust_decimal::Decimal::from(factor)).map(|product| product.to_string())
}

/// Overwrites characters with std's `fill` on slices: as many stay, and each is the null character.
/// `fill` clones the null character, which neither panics nor opens an invariant.
#[verifier::external_body]
pub(crate) fn overwrite(characters: &mut Vec<char>)
    ensures
        final(characters)@ == Seq::new(old(characters)@.len(), |i: int| '\0'),
    opens_invariants none
    no_unwind
{
    characters.fill('\0');
}

} // verus!
