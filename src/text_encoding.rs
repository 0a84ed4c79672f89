//! The textual re-encoding of a payload (standard base64 with padding),
//! provided by the `base64` crate.
use vstd::prelude::*;

verus! {

/// The base64 text (standard alphabet, padded) of the bytes `b`.
pub uninterp spec fn base64_text(b: Seq<u8>) -> Seq<u8>;

/// The bytes that the base64 text `t` decodes to, or `None` where `t` is not
/// valid standard base64.
pub uninterp spec fn base64_bytes(t: Seq<u8>) -> Option<Seq<u8>>;

/// Relies on `base64::encode` (the standard engine): its text depends on the
/// bytes alone, and `base64::decode` reads it back to the same bytes.
#[verifier::external_body]
pub(crate) fn encode_base64(b: &[u8]) -> (r: Vec<u8>)
    ensures
        r@ == base64_text(b@),
        base64_bytes(r@) == Some(b@),
{
    #[allow(deprecated)]
    let text = base64::encode(b);
    text.into_bytes()
}

/// Relies on `base64::decode` (the standard engine): the bytes, or a decode
/// error, depend on the text alone.
#[verifier::external_body]
pub(crate) fn decode_base64(t: &[u8]) -> (r: Option<Vec<u8>>)
    ensures
        r is Some <==> base64_bytes(t@) is Some,
        r is Some ==> base64_bytes(t@) == Some(r->0@),
{
    #[allow(deprecated)]
    let decoded = base64::decode(t);
    decoded.ok()
}

} // verus!
