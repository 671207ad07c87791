//! Calls into outside crates and into std functions that carry no specification,
//! each with the contract that the library relies on.
use vstd::prelude::*;
use vstd::utf8::{decode_utf8, valid_utf8};

use base64::Engine;

use crate::models::opt_text;

verus! {

/// What percent-decoding gives for a text: `None` where the decoded bytes are not UTF-8.
pub uninterp spec fn percent_decoded(s: Seq<char>) -> Option<Seq<char>>;

/// The bytes that standard base64 (with padding) decodes a text to, if it is valid.
pub uninterp spec fn base64_decoded(s: Seq<char>) -> Option<Seq<u8>>;

/// Whether a text is a JSON document.
pub uninterp spec fn json_valid(s: Seq<char>) -> bool;

/// The string held by a member of a JSON object document.
pub uninterp spec fn json_str_at(doc: Seq<char>, key: Seq<char>) -> Option<Seq<char>>;

/// The unsigned integer held by a member of a JSON object document.
pub uninterp spec fn json_u64_at(doc: Seq<char>, key: Seq<char>) -> Option<u64>;

/// Whether a text is a YAML document.
pub uninterp spec fn yaml_valid(s: Seq<char>) -> bool;

/// Relies on `chrono::Utc::now`: the current time as a Unix timestamp in seconds.
#[verifier::external_body]
pub(crate) fn now_timestamp() -> (r: i64) {
    chrono::Utc::now().timestamp()
}

/// Relies on `uuid::Uuid::new_v4` and its hyphenated text form, which has 36 characters.
#[verifier::external_body]
pub(crate) fn fresh_id() -> (r: String)
    ensures
        r@.len() == 36,
{
    uuid::Uuid::new_v4().to_string()
}

/// Relies on `urlencoding::decode`: `%XX` escapes become bytes, the result must be UTF-8,
/// and a text without `%` comes back as it is.
#[verifier::external_body]
pub(crate) fn percent_decode(s: &str) -> (r: Option<String>)
    ensures
        opt_text(r) == percent_decoded(s@),
        !s@.contains('%') ==> opt_text(r) == Some(s@),
{
    urlencoding::decode(s).ok().map(|c| c.into_owned())
}

/// Relies on `base64::engine::general_purpose::STANDARD.decode`.
#[verifier::external_body]
pub(crate) fn base64_decode(s: &str) -> (r: Option<Vec<u8>>)
    ensures
        match r {
            Some(b) => base64_decoded(s@) == Some(b@),
            None => base64_decoded(s@) is None,
        },
{
    base64::engine::general_purpose::STANDARD.decode(s).ok()
}

/// Relies on `String::from_utf8`: it accepts exactly the valid UTF-8 byte sequences.
#[verifier::external_body]
pub(crate) fn utf8_text(b: Vec<u8>) -> (r: Option<String>)
    ensures
        r is Some <==> valid_utf8(b@),
        r is Some ==> r->0@ == decode_utf8(b@),
{
    String::from_utf8(b).ok()
}

/// Relies on `serde_json::from_str` into a `serde_json::Value`.
#[verifier::external_body]
pub(crate) fn json_accepts(text: &str) -> (r: bool)
    ensures
        r == json_valid(text@),
{
    serde_json::from_str::<serde_json::Value>(text).is_ok()
}

/// Relies on `serde_json::from_str`, `Value::get` and `Value::as_str`.
#[verifier::external_body]
pub(crate) fn json_str_member(text: &str, key: &str) -> (r: Option<String>)
    ensures
        opt_text(r) == json_str_at(text@, key@),
{
    let v: serde_json::Value = serde_json::from_str(text).ok()?;
    v.get(key)?.as_str().map(|s| s.to_owned())
}

/// Relies on `serde_json::from_str`, `Value::get` and `Value::as_u64`.
#[verifier::external_body]
pub(crate) fn json_u64_member(text: &str, key: &str) -> (r: Option<u64>)
    ensures
        r == json_u64_at(text@, key@),
{
    let v: serde_json::Value = serde_json::from_str(text).ok()?;
    v.get(key)?.as_u64()
}

/// Relies on `serde_yaml::from_str` into a `serde_yaml::Value`.
#[verifier::external_body]
pub(crate) fn yaml_accepts(text: &str) -> (r: bool)
    ensures
        r == yaml_valid(text@),
{
    serde_yaml::from_str::<serde_yaml::Value>(text).is_ok()
}

} // verus!
