//! The signature of a payload: a keyed hash of the signing text, under a
//! secret that is itself a keyed hash of the application's token.

use vstd::prelude::*;
use vstd::string::*;
use vstd::utf8::encode_utf8;
use crate::hex::{hex, hex_text};
use crate::order::{compare_keys, Place};

verus! {

/// The HMAC-SHA256 code of `message` under `key`: thirty-two bytes.
pub uninterp spec fn keyed_hash(key: Seq<u8>, message: Seq<u8>) -> Seq<u8>;

/// `hmac_sha256::HMAC::mac` takes the message first and the key second, and
/// returns the HMAC-SHA256 code of the message under the key.
#[verifier::external_body]
pub(crate) fn mac(message: &[u8], key: &[u8]) -> (code: [u8; 32])
    ensures
        code@ == keyed_hash(key@, message@),
{
    hmac_sha256::HMAC::mac(message, key)
}

/// The secret of an application: the keyed hash of its token under the fixed
/// key `WebAppData`.
pub open spec fn secret_of(token: Seq<char>) -> Seq<u8> {
    keyed_hash(encode_utf8("WebAppData"@), encode_utf8(token))
}

/// The signature that the holder of `token` gives to `text`: the keyed hash
/// of the text under the token's secret, in lower-case hexadecimal.
pub open spec fn signature_of(token: Seq<char>, text: Seq<char>) -> Seq<char> {
    hex_text(keyed_hash(secret_of(token), encode_utf8(text)))
}

/// Computes the signature of `text` for the application with `token`.
pub fn sign(token: &str, text: &str) -> (signature: String)
    ensures
        signature@ == signature_of(token@, text@),
{
    let secret = mac(token.as_bytes(), "WebAppData".as_bytes());
    let code = mac(text.as_bytes(), secret.as_slice());
    hex(code.as_slice())
}

/// Whether `claimed` is the signature of `text` for the application with
/// `token`. The two are compared as text: a claim of another length, in upper
/// case or with other characters does not match.
pub fn verify(token: &str, text: &str, claimed: &str) -> (matches: bool)
    ensures
        matches == (claimed@ == signature_of(token@, text@)),
{
    let expected = sign(token, text);
    same_text(expected.as_str(), claimed)
}

/// Whether two texts are the same.
pub fn same_text(a: &str, b: &str) -> (same: bool)
    ensures
        same == (a@ == b@),
{
    compare_keys(a, b) == Place::Same
}

} // verus!
