//! Splitting a URL-encoded payload into its fields.

use vstd::prelude::*;
use crate::pairs::{pairs_map, text_pairs, Pair, RawPairs};

verus! {

/// The name and value pairs that a payload in the
/// `application/x-www-form-urlencoded` syntax holds, in the order in which it
/// gives them, each name and value percent-decoded.
pub uninterp spec fn form_pairs(raw: Seq<u8>) -> Seq<Pair>;

/// `form_urlencoded::parse` splits the payload at each `&` into pairs and each
/// pair at its first `=`, and decodes both halves; `into_owned` makes the two
/// halves of each pair owned strings. The pairs come out in the payload's
/// order, and the same payload always gives the same pairs.
#[verifier::external_body]
pub(crate) fn decode_form(raw: &[u8]) -> (pairs: Vec<(String, String)>)
    ensures
        text_pairs(pairs@) == form_pairs(raw@),
{
    form_urlencoded::parse(raw).into_owned().collect()
}

/// The fields of a URL-encoded payload, each name once. Where the payload
/// names a field more than once, its last value counts.
pub fn parse_fields(raw: &[u8]) -> (fields: RawPairs)
    ensures
        fields@ == pairs_map(form_pairs(raw@)),
{
    RawPairs::from_pairs(decode_form(raw))
}

} // verus!
