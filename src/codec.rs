//! Calls into the JSON and date crates that the engine's logic relies on.
use vstd::prelude::*;

verus! {

/// The string that `serde_json` finds under `key` in `bytes`: `Err` when the bytes
/// are not one JSON document, `Ok(None)` when the document is not an object or holds
/// no string under `key`.
pub uninterp spec fn json_string_field_of(bytes: Seq<u8>, key: Seq<char>) -> Result<
    Option<Seq<char>>,
    (),
>;

/// The instant that `chrono` reads from an RFC 3339 timestamp, in whole seconds since
/// the Unix epoch; `None` when the text is not such a timestamp.
pub uninterp spec fn rfc3339_seconds_of(text: Seq<char>) -> Option<i64>;

pub open spec fn field_view(r: Result<Option<String>, ()>) -> Result<Option<Seq<char>>, ()> {
    match r {
        Ok(Some(s)) => Ok(Some(s@)),
        Ok(None) => Ok(None),
        Err(_) => Err(()),
    }
}

/// Relies on `serde_json::from_slice` (into a `serde_json::Value`) and on
/// `Value::get` / `Value::as_str` to read the string field `key` of a JSON document.
#[verifier::external_body]
pub(crate) fn json_string_field(bytes: &[u8], key: &str) -> (r: Result<Option<String>, ()>)
    ensures
        field_view(r) == json_string_field_of(bytes@, key@),
{
    match serde_json::from_slice::<serde_json::Value>(bytes) {
        Ok(v) => Ok(v.get(key).and_then(|f| f.as_str()).map(|s| s.to_string())),
        Err(_) => Err(()),
    }
}

/// Relies on `chrono::DateTime::parse_from_rfc3339` and `DateTime::timestamp`:
/// the instant an RFC 3339 text names, in seconds since the Unix epoch.
#[verifier::external_body]
pub(crate) fn rfc3339_seconds(text: &str) -> (r: Option<i64>)
    ensures
        r == rfc3339_seconds_of(text@),
{
    chrono::DateTime::parse_from_rfc3339(text).ok().map(|dt| dt.timestamp())
}

} // verus!

verus! {

/// The bytes that `hex` decodes from a text; `None` when it is not hex.
pub uninterp spec fn hex_decode_of(text: Seq<char>) -> Option<Seq<u8>>;

/// Relies on `hex::decode`: the bytes a hexadecimal text stands for.
#[verifier::external_body]
pub(crate) fn hex_decode(text: &str) -> (r: Option<Vec<u8>>)
    ensures
        match r {
            Some(b) => hex_decode_of(text@) == Some(b@),
            None => hex_decode_of(text@) is None,
        },
{
    hex::decode(text).ok()
}

} // verus!

verus! {

/// The lower-case hex digit of a value below 16.
pub open spec fn hex_digit_of(n: u8) -> char {
    if n == 0 { '0' } else if n == 1 { '1' } else if n == 2 { '2' } else if n == 3 { '3' }
    else if n == 4 { '4' } else if n == 5 { '5' } else if n == 6 { '6' } else if n == 7 { '7' }
    else if n == 8 { '8' } else if n == 9 { '9' } else if n == 10 { 'a' } else if n == 11 { 'b' }
    else if n == 12 { 'c' } else if n == 13 { 'd' } else if n == 14 { 'e' } else { 'f' }
}

/// Bytes as lower-case hex text: two digits per byte, high nibble first.
pub open spec fn hex_text_of(b: Seq<u8>) -> Seq<char>
    decreases b.len(),
{
    if b.len() == 0 {
        seq![]
    } else {
        hex_text_of(b.drop_last()) + seq![hex_digit_of(b.last() / 16), hex_digit_of(b.last() % 16)]
    }
}

/// Relies on `hex::encode`: each byte as two lower-case hex digits, high nibble
/// first.
#[verifier::external_body]
pub(crate) fn hex_encode(b: &[u8]) -> (r: String)
    ensures
        r@ == hex_text_of(b@),
{
    hex::encode(b)
}

/// The SHA-256 digest that `sha2` computes of some bytes.
pub uninterp spec fn sha256_of(b: Seq<u8>) -> Seq<u8>;

/// Relies on `sha2::Sha256::digest`: the 32-byte SHA-256 digest of the bytes.
#[verifier::external_body]
pub(crate) fn sha256(b: &[u8]) -> (r: Vec<u8>)
    ensures
        r@ == sha256_of(b@),
        r@.len() == 32,
{
    <sha2::Sha256 as sha2::Digest>::digest(b).to_vec()
}

/// The RFC 3339 text that `chrono` writes for an instant given in seconds since
/// the epoch; `None` when the instant is out of its range.
pub uninterp spec fn rfc3339_text_of(secs: i64) -> Option<Seq<char>>;

/// Relies on `chrono::DateTime::from_timestamp` and `DateTime::to_rfc3339`:
/// the instant as RFC 3339 text.
#[verifier::external_body]
pub(crate) fn rfc3339_text(secs: i64) -> (r: Option<String>)
    ensures
        match r {
            Some(t) => rfc3339_text_of(secs) == Some(t@),
            None => rfc3339_text_of(secs) is None,
        },
{
    chrono::DateTime::from_timestamp(secs, 0).map(|d| d.to_rfc3339())
}

} // verus!
