//! Base64 text in the standard alphabet, with padding.
use base64::Engine;
use vstd::prelude::*;

verus! {

/// The base64 text of a byte string.
pub uninterp spec fn base64_of(data: Seq<u8>) -> Seq<char>;

/// What base64 text decodes to, or the message of the error it gives.
pub uninterp spec fn base64_decoded(text: Seq<char>) -> std::result::Result<Seq<u8>, Seq<char>>;

/// Calls `encode` of `base64::engine::general_purpose::STANDARD`: the result
/// depends on the bytes alone.
#[verifier::external_body]
pub(crate) fn base64_encode(data: &[u8]) -> (r: String)
    ensures
        r@ == base64_of(data@),
{
    base64::engine::general_purpose::STANDARD.encode(data)
}

/// Calls `decode` of `base64::engine::general_purpose::STANDARD`: the result
/// depends on the text alone, and what the same engine encoded decodes to the
/// bytes that were encoded.
#[verifier::external_body]
pub(crate) fn base64_decode(text: &str) -> (r: std::result::Result<Vec<u8>, String>)
    ensures
        match r {
            Ok(v) => base64_decoded(text@) is Ok && base64_decoded(text@)->Ok_0 == v@,
            Err(e) => base64_decoded(text@) is Err && base64_decoded(text@)->Err_0 == e@,
        },
        forall|data: Seq<u8>|
            text@ == #[trigger] base64_of(data) ==> r is Ok && r->Ok_0@ == data,
{
    match base64::engine::general_purpose::STANDARD.decode(text.as_bytes()) {
        Ok(v) => Ok(v),
        Err(e) => Err(e.to_string()),
    }
}

} // verus!
