//! Framing of requests and responses: four bytes of length, the highest first,
//! then the payload.
use vstd::prelude::*;
use vstd::slice::slice_subrange;
use vstd::string::*;
use crate::text::{cat4, decimal, decimal_text};
use crate::types::clone_bytes;

verus! {

/// Largest descriptor request.
pub const REQUEST_MAX_SIZE: usize = 128;

/// Largest descriptor response.
pub const RESPONSE_MAX_SIZE: usize = 8192;

/// A request for a peer's descriptor.
#[derive(Debug, PartialEq, Eq)]
pub struct DescriptorRequest {
    /// The node id of the requester.
    pub requester_id: String,
}

/// A peer's descriptor as JSON.
#[derive(Debug, PartialEq, Eq)]
pub struct DescriptorResponse {
    /// The serialized descriptor.
    pub descriptor_json: String,
}

/// The codec of the descriptor exchange.
#[derive(Debug, Clone, Copy, PartialEq, Eq)]
pub struct DescriptorCodec {}

impl DescriptorCodec {
    /// The name of the protocol.
    pub fn protocol() -> (r: &'static str)
        ensures
            r@ == "/edge-orch/descriptor/1.0.0"@,
    {
        "/edge-orch/descriptor/1.0.0"
    }

    /// The payload of a request frame.
    pub fn read_request(&self, bytes: &[u8]) -> (r: std::result::Result<Vec<u8>, FrameError>)
        ensures
            frame_read(bytes@, REQUEST_MAX_SIZE as nat, r),
    {
        read_length_prefixed(bytes, REQUEST_MAX_SIZE)
    }

    /// The payload of a response frame.
    pub fn read_response(&self, bytes: &[u8]) -> (r: std::result::Result<Vec<u8>, FrameError>)
        ensures
            frame_read(bytes@, RESPONSE_MAX_SIZE as nat, r),
    {
        read_length_prefixed(bytes, RESPONSE_MAX_SIZE)
    }
}

/// Why a frame could not be read.
#[derive(Debug, PartialEq, Eq)]
pub enum FrameError {
    /// The bytes end before the frame does.
    UnexpectedEof,
    /// The payload is larger than allowed.
    InvalidData(String),
}

/// The number that four bytes spell, the highest first.
pub open spec fn length_field(b: Seq<u8>) -> nat {
    (b[0] as nat * 16777216 + b[1] as nat * 65536 + b[2] as nat * 256 + b[3] as nat) as nat
}

/// Four bytes that spell a number below 2^32, the highest first.
pub open spec fn length_bytes(n: nat) -> Seq<u8> {
    seq![
        (n / 16777216) as u8,
        (n / 65536 % 256) as u8,
        (n / 256 % 256) as u8,
        (n % 256) as u8,
    ]
}

/// The frame of a payload: the length modulo 2^32, then the payload.
pub open spec fn frame(payload: Seq<u8>) -> Seq<u8> {
    length_bytes(payload.len() % 4294967296) + payload
}

/// The message of a payload that is too large.
pub open spec fn too_large(len: nat, max: nat) -> Seq<char> {
    "payload size "@ + decimal(len) + " exceeds max "@ + decimal(max)
}

/// What reading a frame off the front of `bytes` gives.
pub open spec fn frame_read(
    bytes: Seq<u8>,
    max: nat,
    r: std::result::Result<Vec<u8>, FrameError>,
) -> bool {
    if bytes.len() < 4 {
        r == Err::<Vec<u8>, FrameError>(FrameError::UnexpectedEof)
    } else if length_field(bytes) > max {
        r is Err && r->Err_0 is InvalidData && r->Err_0->InvalidData_0@ == too_large(
            length_field(bytes),
            max,
        )
    } else if bytes.len() < 4 + length_field(bytes) {
        r == Err::<Vec<u8>, FrameError>(FrameError::UnexpectedEof)
    } else {
        r is Ok && r->Ok_0@ == bytes.subrange(4, 4 + length_field(bytes) as int)
    }
}

/// The length of the payload that a frame header announces, unless it exceeds
/// `max`.
pub fn payload_length(header: &[u8], max_size: usize) -> (r: std::result::Result<usize, String>)
    requires
        header@.len() >= 4,
    ensures
        if length_field(header@) > max_size {
            r is Err && r->Err_0@ == too_large(length_field(header@), max_size as nat)
        } else {
            r is Ok && r->Ok_0 == length_field(header@)
        },
{
    let len: u64 = header[0] as u64 * 16777216 + header[1] as u64 * 65536 + header[2] as u64 * 256
        + header[3] as u64;
    if len > max_size as u64 {
        Err(
            cat4(
                "payload size ",
                decimal_text(len).as_str(),
                " exceeds max ",
                decimal_text(max_size as u64).as_str(),
            ),
        )
    } else {
        Ok(len as usize)
    }
}

/// The payload of the frame at the front of `bytes`.
pub fn read_length_prefixed(bytes: &[u8], max_size: usize) -> (r: std::result::Result<
    Vec<u8>,
    FrameError,
>)
    ensures
        frame_read(bytes@, max_size as nat, r),
{
    if bytes.len() < 4 {
        return Err(FrameError::UnexpectedEof);
    }
    match payload_length(bytes, max_size) {
        Err(message) => Err(FrameError::InvalidData(message)),
        Ok(len) => if bytes.len() - 4 < len {
            Err(FrameError::UnexpectedEof)
        } else {
            Ok(clone_bytes(slice_subrange(bytes, 4, 4 + len)))
        },
    }
}

/// The frame of a payload.
pub fn write_length_prefixed(data: &[u8]) -> (r: Vec<u8>)
    ensures
        r@ == frame(data@),
{
    let n: u64 = data.len() as u64 % 4294967296;
    let mut out: Vec<u8> = Vec::new();
    out.push((n / 16777216) as u8);
    out.push((n / 65536 % 256) as u8);
    out.push((n / 256 % 256) as u8);
    out.push((n % 256) as u8);
    assert(out@ =~= length_bytes(n as nat));
    out.extend_from_slice(data);
    assert(out@ =~= frame(data@));
    out
}

/// A frame reads back as its payload, whatever follows it, as long as the
/// payload is allowed.
pub proof fn frame_reads_back(
    payload: Seq<u8>,
    rest: Seq<u8>,
    max: nat,
    r: std::result::Result<Vec<u8>, FrameError>,
)
    requires
        payload.len() <= max,
        payload.len() < 4294967296,
        frame_read(frame(payload) + rest, max, r),
    ensures
        r is Ok,
        r->Ok_0@ == payload,
{
    let bytes = frame(payload) + rest;
    let n = payload.len();
    assert(n % 4294967296 == n);
    assert(length_field(bytes) == n) by {
        assert(bytes[0] == (n / 16777216) as u8);
        assert(bytes[1] == (n / 65536 % 256) as u8);
        assert(bytes[2] == (n / 256 % 256) as u8);
        assert(bytes[3] == (n % 256) as u8);
        assert(n / 16777216 < 256);
        assert(n / 16777216 * 16777216 + n / 65536 % 256 * 65536 + n / 256 % 256 * 256 + n % 256
            == n);
    }
    assert(bytes.subrange(4, 4 + n as int) =~= payload);
}

/// A frame is four bytes of length, the highest first, and then the payload as it
/// is.
pub proof fn frame_announces_its_payload(payload: Seq<u8>)
    requires
        payload.len() < 4294967296,
    ensures
        frame(payload).len() == payload.len() + 4,
        frame(payload)[0] * 16777216 + frame(payload)[1] * 65536 + frame(payload)[2] * 256 + frame(
            payload,
        )[3] == payload.len(),
        frame(payload).skip(4) == payload,
{
    let n = payload.len();
    assert(n % 4294967296 == n);
    assert(n / 16777216 < 256);
    assert(n / 16777216 * 16777216 + n / 65536 % 256 * 65536 + n / 256 % 256 * 256 + n % 256 == n);
    assert(frame(payload).skip(4) =~= payload);
}

/// A frame that announces more than is allowed is refused before its payload is
/// read, and one that is cut off is never taken for whole.
pub proof fn bad_frames_are_refused(
    bytes: Seq<u8>,
    max: nat,
    r: std::result::Result<Vec<u8>, FrameError>,
)
    requires
        frame_read(bytes, max, r),
    ensures
        bytes.len() < 4 ==> r is Err,
        bytes.len() >= 4 && bytes[0] * 16777216 + bytes[1] * 65536 + bytes[2] * 256 + bytes[3]
            > max ==> r is Err && r->Err_0 is InvalidData,
        bytes.len() >= 4 && bytes.len() < 4 + bytes[0] * 16777216 + bytes[1] * 65536 + bytes[2]
            * 256 + bytes[3] ==> r is Err,
        r is Ok ==> r->Ok_0@.len() <= max && bytes.skip(4).take(r->Ok_0@.len() as int)
            == r->Ok_0@,
{
    if r is Ok {
        assert(bytes.skip(4).take(r->Ok_0@.len() as int) =~= r->Ok_0@);
    }
}

} // verus!
