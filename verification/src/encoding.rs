//! Base64 and JSON text, as `cosmwasm_std` writes and reads them. What these
//! functions return is named here, not spelled out: the contracts of the
//! library speak of the names, and nothing in the library proves anything
//! about the functions themselves.

use vstd::prelude::*;

verus! {

/// The base64 text that `cosmwasm_std::Binary::to_base64` writes for `data`.
pub uninterp spec fn base64_text(data: Seq<u8>) -> Seq<char>;

/// The bytes that `cosmwasm_std::Binary::from_base64` reads from `text`, or
/// `None` where it refuses the text.
pub uninterp spec fn base64_read(text: Seq<char>) -> Option<Seq<u8>>;

/// The JSON string literal, quotes included, that `cosmwasm_std::to_json_vec`
/// writes for `text`.
pub uninterp spec fn json_string(text: Seq<char>) -> Seq<u8>;

/// The text that `cosmwasm_std::from_json` reads from `bytes` when asked for a
/// `String`, or `None` where it refuses the bytes.
pub uninterp spec fn json_string_read(bytes: Seq<u8>) -> Option<Seq<char>>;

/// Calls `cosmwasm_std::Binary::to_base64` on a copy of `data`. Trusted: the
/// text that comes back depends on `data` alone, and is what `base64_text`
/// names. The call does not fail for any byte string that fits in memory.
#[verifier::external_body]
pub(crate) fn base64_encode(data: &[u8]) -> (text: String)
    ensures
        text@ == base64_text(data@),
{
    cosmwasm_std::Binary::from(data).to_base64()
}

/// Calls `cosmwasm_std::Binary::from_base64`. Trusted: whether the text is
/// accepted, and the bytes that come back, depend on `text` alone, and are
/// what `base64_read` names.
#[verifier::external_body]
pub(crate) fn base64_decode(text: &str) -> (data: Option<Vec<u8>>)
    ensures
        match data {
            Some(bytes) => base64_read(text@) == Some(bytes@),
            None => base64_read(text@) is None,
        },
{
    match cosmwasm_std::Binary::from_base64(text) {
        Ok(binary) => Some(binary.0),
        Err(_) => None,
    }
}

/// Calls `cosmwasm_std::to_json_vec` on a string slice. Trusted: the bytes
/// that come back depend on `text` alone, and are what `json_string` names.
/// The serializer has no failing path for a string; were there an error, the
/// bytes would be empty.
#[verifier::external_body]
pub(crate) fn json_string_encode(text: &str) -> (bytes: Vec<u8>)
    ensures
        bytes@ == json_string(text@),
{
    cosmwasm_std::to_json_vec(text).unwrap_or_default()
}

/// Calls `cosmwasm_std::from_json` for a `String`. Trusted: whether the bytes
/// are accepted, and the text that comes back, depend on `bytes` alone, and
/// are what `json_string_read` names.
#[verifier::external_body]
pub(crate) fn json_string_decode(bytes: &[u8]) -> (text: Option<String>)
    ensures
        match text {
            Some(t) => json_string_read(bytes@) == Some(t@),
            None => json_string_read(bytes@) is None,
        },
{
    match cosmwasm_std::from_json::<String>(bytes) {
        Ok(t) => Some(t),
        Err(_) => None,
    }
}

} // verus!
