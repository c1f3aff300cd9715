use vstd::prelude::*;

verus! {

/// The standard-alphabet base64 encoding of a byte sequence. What the text
/// looks like takes pages to state; the library relies only on its being a
/// function of the bytes alone.
pub uninterp spec fn b64_of(bytes: Seq<u8>) -> Seq<char>;

/// Relies on base64::encode with the standard alphabet: the result depends
/// on the input bytes alone.
#[verifier::external_body]
pub(crate) fn b64_encode(bytes: &Vec<u8>) -> (r: String)
    ensures
        r@ == b64_of(bytes@),
{
    base64::encode(bytes)
}

/// The decode outcome `r` recovers exactly the bytes `bs`.
pub open spec fn decodes_to(r: Option<Vec<u8>>, bs: Seq<u8>) -> bool {
    r matches Some(v) && v@ == bs
}

/// Relies on base64::decode with the standard alphabet: it inverts
/// base64::encode, so decoding the encoding of any byte sequence yields
/// those bytes back. Of other inputs nothing is claimed beyond success or
/// failure.
#[verifier::external_body]
pub(crate) fn b64_decode(s: &str) -> (r: Option<Vec<u8>>)
    ensures
        forall|bs: Seq<u8>| s@ == b64_of(bs) ==> decodes_to(r, bs),
{
    base64::decode(s).ok()
}

} // verus!
