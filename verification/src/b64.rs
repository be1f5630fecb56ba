//! The base64 transport encoding of record payloads, done by the `base64`
//! crate behind trusted contracts.

use vstd::prelude::*;

verus! {

/// What `base64::encode` returns for the given bytes: standard alphabet,
/// padded. The result depends on the bytes alone.
pub uninterp spec fn b64_of(bytes: Seq<u8>) -> Seq<char>;

/// What `base64::decode` returns for the given text: the decoded bytes, or
/// nothing when the text is not base64. The result depends on the text
/// alone.
pub uninterp spec fn b64_parse(s: Seq<char>) -> Option<Seq<u8>>;

/// Relies on `base64::encode` (standard alphabet, padded): the result is a
/// function of the input bytes alone, named [`b64_of`]. The length bound
/// keeps the crate's output-size computation from overflowing.
#[verifier::external_body]
pub(crate) fn b64_encode(bytes: &[u8]) -> (r: String)
    requires
        bytes@.len() <= usize::MAX / 2,
    ensures
        r@ == b64_of(bytes@),
{
    base64::encode(bytes)
}

/// Relies on `base64::decode` (standard alphabet): its outcome is a function
/// of the input text alone, named [`b64_parse`], and it inverts
/// `base64::encode`, so on the encoding of any byte sequence it returns
/// exactly those bytes.
#[verifier::external_body]
pub(crate) fn b64_decode(s: &str) -> (r: Option<Vec<u8>>)
    ensures
        (match r {
            Option::Some(v) => b64_parse(s@) == Some(v@) && (forall|b: Seq<u8>|
                s@ == b64_of(b) ==> v@ == b),
            Option::None => b64_parse(s@) is None && (forall|b: Seq<u8>| s@ != b64_of(b)),
        }),
{
    match base64::decode(s) {
        Ok(v) => Some(v),
        Err(_) => None,
    }
}

} // verus!
