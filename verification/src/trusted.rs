//! The crate's trusted boundary: thin wrappers around outside crates and the
//! few `std` string operations that vstd gives no specification.  Each
//! wrapper's contract states only what the wrapped function's source or
//! documentation shows; everything built on top of them is verified.

use vstd::prelude::*;

use crate::metadata::Timestamp;
use chrono::Datelike;
use chrono::Timelike;

verus! {

/// Relies on `String::push`: appends exactly the one character.
#[verifier::external_body]
pub fn push_char(s: &mut String, c: char)
    ensures
        final(s)@ == old(s)@ + seq![c],
{
    s.push(c);
}

/// The 32 lowercase hexadecimal digits of the MD5 digest of a string's
/// bytes; a function of the characters alone.
pub uninterp spec fn md5_hex_of(s: Seq<char>) -> Seq<char>;

/// Relies on `chksum_hash_md5::hash` and `Digest::to_hex_lowercase`: the
/// 128-bit digest of the string's bytes, printed as two lowercase
/// hexadecimal digits per digest byte, 32 characters in all.
#[verifier::external_body]
pub fn md5_hex(s: &str) -> (r: String)
    ensures
        r@ == md5_hex_of(s@),
        r@.len() == 32,
{
    chksum_hash_md5::hash(s).to_hex_lowercase()
}

/// The UTC calendar fields that chrono reads out of an RFC 3339 timestamp
/// string, as (year, month, day, hour, minute, second); nothing if the
/// string is not a valid RFC 3339 timestamp.  The result depends on the
/// characters alone.
pub uninterp spec fn rfc3339_utc_of(s: Seq<char>) -> Option<(int, int, int, int, int, int)>;

/// Relies on chrono's `DateTime::parse_from_rfc3339`, `DateTime::to_utc`,
/// and the `Datelike` / `Timelike` field accessors: whether a string is a
/// valid RFC 3339 timestamp, and its calendar fields once normalised to
/// UTC, are functions of the characters alone.  The field ranges are the
/// ones chrono documents: month 1..=12, day 1..=31, hour 0..=23,
/// minute 0..=59, second 0..=59.
#[verifier::external_body]
pub fn parse_rfc3339_utc(s: &str) -> (r: Option<Timestamp>)
    ensures
        r is Some <==> rfc3339_utc_of(s@) is Some,
        r matches Some(t) ==> {
            &&& rfc3339_utc_of(s@) == Some(
                (
                    t.year as int,
                    t.month as int,
                    t.day as int,
                    t.hour as int,
                    t.minute as int,
                    t.second as int,
                ),
            )
            &&& t.wf()
        },
{
    let u = match chrono::DateTime::parse_from_rfc3339(s) {
        Ok(dt) => dt.to_utc(),
        Err(_) => return None,
    };
    Some(
        Timestamp {
            year: u.year(),
            month: u.month() as u8,
            day: u.day() as u8,
            hour: u.hour() as u8,
            minute: u.minute() as u8,
            second: u.second() as u8,
        },
    )
}

/// The standard (padded) base64 text of a byte string; a function of the
/// bytes alone.
pub uninterp spec fn base64_of(b: Seq<u8>) -> Seq<char>;

/// Relies on base64's `Engine::encode` with the `STANDARD` engine: the
/// padded base64 text of the bytes, four characters for every started group
/// of three bytes.  The length bound keeps the engine's buffer-size
/// computation from overflowing.
#[verifier::external_body]
pub fn base64_encode(b: &Vec<u8>) -> (r: String)
    requires
        4 * ((b@.len() + 2) / 3) <= usize::MAX,
    ensures
        r@ == base64_of(b@),
        r@.len() == 4 * ((b@.len() + 2) / 3),
{
    base64::Engine::encode(&base64::prelude::BASE64_STANDARD, b)
}

/// The title, description and keyword strings that JSON-parsing a model
/// reply yields, when the reply is a JSON object with a string under
/// `title`, a string under `description` and an array of strings under
/// `keywords`; nothing otherwise.  A function of the characters alone.
pub uninterp spec fn resume_fields_of(s: Seq<char>) -> Option<
    (Seq<char>, Seq<char>, Seq<Seq<char>>),
>;

/// Relies on `serde_json::from_str::<Value>`, `Value::get`, `Value::as_str`
/// and `Value::as_array`: whether a reply is a JSON object of the resume
/// shape, and the three fields it then carries, depend on the characters
/// alone.  All four return options rather than panicking.
#[verifier::external_body]
pub fn parse_resume_fields(s: &str) -> (r: Option<(String, String, Vec<String>)>)
    ensures
        r is Some <==> resume_fields_of(s@) is Some,
        r matches Some(f) ==> Some(
            (f.0@, f.1@, f.2@.map_values(|k: String| k@)),
        ) == resume_fields_of(s@),
{
    let v: serde_json::Value = serde_json::from_str(s).ok()?;
    let title = v.get("title")?.as_str()?.to_string();
    let description = v.get("description")?.as_str()?.to_string();
    let mut keywords: Vec<String> = Vec::new();
    for k in v.get("keywords")?.as_array()? {
        keywords.push(k.as_str()?.to_string());
    }
    Some((title, description, keywords))
}

} // verus!
