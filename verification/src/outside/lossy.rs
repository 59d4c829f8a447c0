//! Bytes shown as text.
use vstd::prelude::*;
use vstd::utf8::*;

verus! {

/// The text that a byte string is shown as.
pub uninterp spec fn lossy_text(data: Seq<u8>) -> Seq<char>;

/// Calls `String::from_utf8_lossy`: the text depends on the bytes alone, and
/// valid UTF-8 is decoded as it stands.
#[verifier::external_body]
pub(crate) fn text_lossy(data: &[u8]) -> (r: String)
    ensures
        r@ == lossy_text(data@),
        valid_utf8(data@) ==> r@ == decode_utf8(data@),
{
    String::from_utf8_lossy(data).to_string()
}

} // verus!
