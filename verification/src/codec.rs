//! Reversible text obfuscation: a display name is turned into an opaque
//! ASCII payload and recovered from it, with malformed payloads reported as
//! `None` rather than as errors.

use vstd::prelude::*;
use vstd::string::StringSliceAdditionalSpecFns;
use vstd::utf8::{decode_utf8, encode_utf8, is_ascii_chars, valid_utf8};

verus! {

/// The opaque payload that the standard-alphabet transform produces for a
/// byte sequence; named here so contracts can speak of it exactly.
pub uninterp spec fn obfuscated_chars(bytes: Seq<u8>) -> Seq<char>;

/// Relies on base64's `STANDARD` engine `encode` (canonical, padded): the
/// result depends on the input bytes alone, is ASCII, and holds four
/// characters for every started group of three input bytes.
#[verifier::external_body]
fn base64_encode(bytes: &[u8]) -> (r: String)
    ensures
        r@ == obfuscated_chars(bytes@),
        r@.len() == 4 * ((bytes@.len() + 2) / 3),
        is_ascii_chars(r@),
{
    base64::Engine::encode(&base64::engine::general_purpose::STANDARD, bytes)
}

/// Relies on base64's `STANDARD` engine `decode`: it requires canonical
/// padding, so it accepts exactly the strings `encode` produces and returns
/// the bytes they were produced from.
#[verifier::external_body]
fn base64_decode(s: &str) -> (r: Option<Vec<u8>>)
    ensures
        r matches Some(v) ==> s@ == obfuscated_chars(v@),
        r matches Some(v) ==> forall|b: Seq<u8>| s@ == obfuscated_chars(b) ==> b == v@,
        r is None ==> forall|b: Seq<u8>| s@ != obfuscated_chars(b),
{
    base64::Engine::decode(&base64::engine::general_purpose::STANDARD, s).ok()
}

/// Relies on `String::from_utf8`: it succeeds exactly on valid UTF-8 and
/// yields the text that those bytes encode.
#[verifier::external_body]
fn bytes_to_string(bytes: Vec<u8>) -> (r: Option<String>)
    ensures
        r matches Some(s) ==> valid_utf8(bytes@) && s@ == decode_utf8(bytes@),
        r is None ==> !valid_utf8(bytes@),
{
    String::from_utf8(bytes).ok()
}

/// Obfuscates a piece of text into its opaque ASCII payload.
pub fn encode_string(input: &str) -> (r: String)
    ensures
        r@ == obfuscated_chars(encode_utf8(input@)),
        r@.len() == 4 * ((encode_utf8(input@).len() + 2) / 3),
        is_ascii_chars(r@),
{
    base64_encode(input.as_bytes())
}

/// Recovers the text a payload was produced from: `Some` exactly when the
/// input is the payload of some text, and then that text is returned.
pub fn decode_string(input: &str) -> (r: Option<String>)
    ensures
        r matches Some(s) ==> input@ == obfuscated_chars(encode_utf8(s@)),
        r matches Some(s) ==> forall|n: Seq<char>| input@ == obfuscated_chars(encode_utf8(n))
            ==> n == s@,
        r is None ==> forall|b: Seq<u8>| valid_utf8(b) ==> input@ != obfuscated_chars(b),
{
    proof {
        broadcast use vstd::utf8::encode_utf8_valid_utf8;
        broadcast use vstd::utf8::encode_utf8_decode_utf8;
        broadcast use vstd::utf8::decode_utf8_encode_utf8;
    }
    match base64_decode(input) {
        None => None,
        Some(bytes) => bytes_to_string(bytes),
    }
}

} // verus!
