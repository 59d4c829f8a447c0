//! Zlib compression of stored objects.
use std::io::{Read, Write};
use vstd::prelude::*;

verus! {

/// What a zlib stream inflates to, or the message of the error it gives.
pub uninterp spec fn inflated(stream: Seq<u8>) -> std::result::Result<Seq<u8>, Seq<char>>;

/// Calls `flate2::write::ZlibEncoder` at the default level, over a vector, which
/// takes every write: a stream comes back, and it inflates to `data`. Which stream
/// that is, is left unsaid: it is the compressor's choice.
#[verifier::external_body]
pub(crate) fn deflate(data: &[u8]) -> (r: std::result::Result<Vec<u8>, String>)
    ensures
        r is Ok,
        inflated(r->Ok_0@) is Ok && inflated(r->Ok_0@)->Ok_0 == data@,
{
    let mut encoder = flate2::write::ZlibEncoder::new(Vec::new(), flate2::Compression::default());
    match encoder.write_all(data) {
        Ok(()) => encoder.finish().map_err(|e| e.to_string()),
        Err(e) => Err(e.to_string()),
    }
}

/// Calls `flate2::read::ZlibDecoder` to the end of its stream: the bytes, or the
/// message of the error, depend on the stream alone.
#[verifier::external_body]
pub(crate) fn inflate(stream: &[u8]) -> (r: std::result::Result<Vec<u8>, String>)
    ensures
        match r {
            Ok(v) => inflated(stream@) is Ok && inflated(stream@)->Ok_0 == v@,
            Err(e) => inflated(stream@) is Err && inflated(stream@)->Err_0 == e@,
        },
{
    let mut out = Vec::new();
    match flate2::read::ZlibDecoder::new(stream).read_to_end(&mut out) {
        Ok(_) => Ok(out),
        Err(e) => Err(e.to_string()),
    }
}

} // verus!
