//! The frame header: its nine bytes, frame types and length limits.
use vstd::prelude::*;
use crate::error_code::ErrorCode;

verus! {

/// Size of the fixed frame header.
pub const FRAME_HEADER_LEN: usize = 9;
/// Smallest value of MAX_FRAME_SIZE, also its default.
pub const DEFAULT_MAX_FRAME_SIZE: u32 = 16384;
/// Largest value of MAX_FRAME_SIZE.
pub const MAX_MAX_FRAME_SIZE: u32 = 16777215;
/// Largest stream id (31 bits).
pub const MAX_STREAM_ID: u32 = 0x7fff_ffff;

pub const FLAG_END_STREAM: u8 = 0x1;
pub const FLAG_ACK: u8 = 0x1;
pub const FLAG_END_HEADERS: u8 = 0x4;
pub const FLAG_PADDED: u8 = 0x8;
pub const FLAG_PRIORITY: u8 = 0x20;

/// The 9-byte header that opens every frame.
#[derive(Clone, Copy, Debug, PartialEq, Eq, Structural)]
pub struct FrameHeader {
    pub length: u32,
    pub frame_type: u8,
    pub flags: u8,
    pub stream_id: u32,
}

/// Frame types of RFC 7540 section 6; others are kept opaque.
#[derive(Clone, Copy, Debug, PartialEq, Eq, Structural)]
pub enum FrameKind {
    Data,
    Headers,
    Priority,
    RstStream,
    Settings,
    PushPromise,
    Ping,
    Goaway,
    WindowUpdate,
    Continuation,
    Unknown(u8),
}

pub open spec fn kind_spec(t: u8) -> FrameKind {
    if t == 0 { FrameKind::Data }
    else if t == 1 { FrameKind::Headers }
    else if t == 2 { FrameKind::Priority }
    else if t == 3 { FrameKind::RstStream }
    else if t == 4 { FrameKind::Settings }
    else if t == 5 { FrameKind::PushPromise }
    else if t == 6 { FrameKind::Ping }
    else if t == 7 { FrameKind::Goaway }
    else if t == 8 { FrameKind::WindowUpdate }
    else if t == 9 { FrameKind::Continuation }
    else { FrameKind::Unknown(t) }
}

/// Kind of a frame by its type byte.
pub fn frame_kind(t: u8) -> (r: FrameKind)
    ensures
        r == kind_spec(t),
{
    match t {
        0 => FrameKind::Data,
        1 => FrameKind::Headers,
        2 => FrameKind::Priority,
        3 => FrameKind::RstStream,
        4 => FrameKind::Settings,
        5 => FrameKind::PushPromise,
        6 => FrameKind::Ping,
        7 => FrameKind::Goaway,
        8 => FrameKind::WindowUpdate,
        9 => FrameKind::Continuation,
        _ => FrameKind::Unknown(t),
    }
}

/// A header fits the wire: 24-bit length, 31-bit stream id.
pub open spec fn header_wf(h: FrameHeader) -> bool {
    h.length < 0x100_0000 && h.stream_id <= MAX_STREAM_ID
}

/// Header decoded from the first nine bytes: big-endian 24-bit length,
/// type, flags, and a 31-bit stream id whose reserved top bit is ignored.
pub open spec fn header_of(b: Seq<u8>) -> FrameHeader
    recommends
        b.len() >= 9,
{
    FrameHeader {
        length: (b[0] as int * 65536 + b[1] as int * 256 + b[2] as int) as u32,
        frame_type: b[3],
        flags: b[4],
        stream_id: ((b[5] % 128) as int * 16777216 + b[6] as int * 65536 + b[7] as int * 256
            + b[8] as int) as u32,
    }
}

/// Nine bytes of a header, reserved bit clear.
pub open spec fn header_bytes(h: FrameHeader) -> Seq<u8> {
    seq![
        (h.length / 65536) as u8,
        ((h.length / 256) % 256) as u8,
        (h.length % 256) as u8,
        h.frame_type,
        h.flags,
        (h.stream_id / 16777216) as u8,
        ((h.stream_id / 65536) % 256) as u8,
        ((h.stream_id / 256) % 256) as u8,
        (h.stream_id % 256) as u8,
    ]
}

/// Reads a frame header from the front of `b`; `None` while fewer than nine
/// bytes are there.
pub fn unpack_header(b: &[u8]) -> (r: Option<FrameHeader>)
    ensures
        b@.len() < 9 ==> r.is_none(),
        b@.len() >= 9 ==> r == Some(header_of(b@)),
        r matches Some(h) ==> header_wf(h),
{
    if b.len() < FRAME_HEADER_LEN {
        return None;
    }
    let length: u32 = (b[0] as u32) * 65536 + (b[1] as u32) * 256 + (b[2] as u32);
    let stream_id: u32 = ((b[5] % 128) as u32) * 16777216 + (b[6] as u32) * 65536
        + (b[7] as u32) * 256 + (b[8] as u32);
    Some(FrameHeader { length, frame_type: b[3], flags: b[4], stream_id })
}

/// Writes a frame header as its nine wire bytes.
pub fn pack_header(h: FrameHeader) -> (r: Vec<u8>)
    requires
        header_wf(h),
    ensures
        r@ == header_bytes(h),
{
    let mut v: Vec<u8> = Vec::with_capacity(9);
    v.push((h.length / 65536) as u8);
    v.push(((h.length / 256) % 256) as u8);
    v.push((h.length % 256) as u8);
    v.push(h.frame_type);
    v.push(h.flags);
    v.push((h.stream_id / 16777216) as u8);
    v.push(((h.stream_id / 65536) % 256) as u8);
    v.push(((h.stream_id / 256) % 256) as u8);
    v.push((h.stream_id % 256) as u8);
    v
}

/// Packing a well-formed header and reading it back gives the same header.
pub proof fn lemma_header_round_trip(h: FrameHeader)
    requires
        header_wf(h),
    ensures
        header_of(header_bytes(h)) == h,
{
    let l = h.length as int;
    let s = h.stream_id as int;
    assert(l == (l / 65536) * 65536 + ((l / 256) % 256) * 256 + l % 256) by (nonlinear_arith)
        requires 0 <= l;
    assert(s == (s / 16777216) * 16777216 + ((s / 65536) % 256) * 65536 + ((s / 256) % 256) * 256
        + s % 256) by (nonlinear_arith)
        requires 0 <= s;
    assert((s / 16777216) < 128) by (nonlinear_arith)
        requires 0 <= s < 0x8000_0000;
    assert((l / 65536) < 256) by (nonlinear_arith)
        requires 0 <= l < 0x100_0000;
}

/// A frame longer than the local MAX_FRAME_SIZE is a connection error
/// FRAME_SIZE_ERROR.
pub fn check_frame_length(h: &FrameHeader, max_frame_size: u32) -> (r: Result<(), ErrorCode>)
    ensures
        r is Ok <==> h.length <= max_frame_size,
        r is Err ==> r == Err::<(), ErrorCode>(ErrorCode::FrameSizeError),
{
    if h.length > max_frame_size {
        Err(ErrorCode::FrameSizeError)
    } else {
        Ok(())
    }
}

} // verus!
