//! Payloads of control frames, and the frames the connection writes.
use vstd::prelude::*;
use crate::continuation::append;
use crate::error_code::{code_value, ErrorCode};
use crate::frame::{header_bytes, kind_spec, pack_header, FrameHeader, FrameKind, MAX_STREAM_ID};
use crate::settings::{parse_settings_payload, settings_pairs};

verus! {

/// Big-endian bytes of a 32-bit value.
pub open spec fn be32(x: u32) -> Seq<u8> {
    seq![(x / 16777216) as u8, ((x / 65536) % 256) as u8, ((x / 256) % 256) as u8, (x % 256) as u8]
}

/// The 32-bit value at `i`, big-endian.
pub open spec fn read_be32(s: Seq<u8>, i: int) -> u32 {
    (s[i] as int * 16777216 + s[i + 1] as int * 65536 + s[i + 2] as int * 256 + s[i + 3] as int) as u32
}

/// The 31-bit value at `i`, big-endian, the reserved top bit ignored.
pub open spec fn read_be31(s: Seq<u8>, i: int) -> u32 {
    ((s[i] % 128) as int * 16777216 + s[i + 1] as int * 65536 + s[i + 2] as int * 256 + s[i + 3] as int) as u32
}

fn read_be32_exec(s: &[u8], i: usize) -> (r: u32)
    requires
        i + 4 <= s@.len(),
    ensures
        r == read_be32(s@, i as int),
{
    (s[i] as u32) * 16777216 + (s[i + 1] as u32) * 65536 + (s[i + 2] as u32) * 256 + (s[i + 3] as u32)
}

fn read_be31_exec(s: &[u8], i: usize) -> (r: u32)
    requires
        i + 4 <= s@.len(),
    ensures
        r == read_be31(s@, i as int),
        r <= MAX_STREAM_ID,
{
    ((s[i] % 128) as u32) * 16777216 + (s[i + 1] as u32) * 65536 + (s[i + 2] as u32) * 256 + (s[i + 3] as u32)
}

fn push_be32(v: &mut Vec<u8>, x: u32)
    ensures
        final(v)@ == old(v)@ + be32(x),
{
    let ghost v0 = v@;
    v.push((x / 16777216) as u8);
    v.push(((x / 65536) % 256) as u8);
    v.push(((x / 256) % 256) as u8);
    v.push((x % 256) as u8);
    assert(v@ =~= v0 + be32(x));
}

/// Reading back the bytes of a value gives the value; a value of at most
/// 31 bits reads back the same with the reserved bit ignored.
pub proof fn lemma_be32_round_trip(x: u32)
    ensures
        read_be32(be32(x), 0) == x,
        x <= MAX_STREAM_ID ==> read_be31(be32(x), 0) == x,
{
    let v = x as int;
    assert(v == (v / 16777216) * 16777216 + ((v / 65536) % 256) * 65536 + ((v / 256) % 256) * 256
        + v % 256) by (nonlinear_arith)
        requires 0 <= v;
    assert(v / 16777216 < 256) by (nonlinear_arith)
        requires 0 <= v < 0x1_0000_0000;
    if v <= MAX_STREAM_ID {
        assert(v / 16777216 < 128) by (nonlinear_arith)
            requires 0 <= v < 0x8000_0000;
    }
}

/// WINDOW_UPDATE payload: four bytes, else FRAME_SIZE_ERROR; the increment
/// is the 31-bit value.
pub fn parse_window_update(p: &[u8]) -> (r: Result<u32, ErrorCode>)
    ensures
        p@.len() != 4 ==> r == Err::<u32, ErrorCode>(ErrorCode::FrameSizeError),
        p@.len() == 4 ==> r == Ok::<u32, ErrorCode>(read_be31(p@, 0)),
{
    if p.len() != 4 {
        return Err(ErrorCode::FrameSizeError);
    }
    Ok(read_be31_exec(p, 0))
}

/// RST_STREAM payload: four bytes, else FRAME_SIZE_ERROR; stream 0 is
/// PROTOCOL_ERROR. Gives the error code's value.
pub fn parse_rst_stream(stream_id: u32, p: &[u8]) -> (r: Result<u32, ErrorCode>)
    ensures
        stream_id == 0 ==> r == Err::<u32, ErrorCode>(ErrorCode::ProtocolError),
        stream_id != 0 && p@.len() != 4 ==> r == Err::<u32, ErrorCode>(ErrorCode::FrameSizeError),
        stream_id != 0 && p@.len() == 4 ==> r == Ok::<u32, ErrorCode>(read_be32(p@, 0)),
{
    if stream_id == 0 {
        return Err(ErrorCode::ProtocolError);
    }
    if p.len() != 4 {
        return Err(ErrorCode::FrameSizeError);
    }
    Ok(read_be32_exec(p, 0))
}

/// GOAWAY payload: at least eight bytes, else FRAME_SIZE_ERROR; a stream
/// other than 0 is PROTOCOL_ERROR. Gives the last stream id and the error
/// code's value; debug data after them is left.
pub fn parse_goaway(stream_id: u32, p: &[u8]) -> (r: Result<(u32, u32), ErrorCode>)
    ensures
        stream_id != 0 ==> r == Err::<(u32, u32), ErrorCode>(ErrorCode::ProtocolError),
        stream_id == 0 && p@.len() < 8 ==> r == Err::<(u32, u32), ErrorCode>(ErrorCode::FrameSizeError),
        stream_id == 0 && p@.len() >= 8 ==> r == Ok::<(u32, u32), ErrorCode>((read_be31(p@, 0), read_be32(p@, 4))),
{
    if stream_id != 0 {
        return Err(ErrorCode::ProtocolError);
    }
    if p.len() < 8 {
        return Err(ErrorCode::FrameSizeError);
    }
    Ok((read_be31_exec(p, 0), read_be32_exec(p, 4)))
}

/// PING payload: eight bytes, else FRAME_SIZE_ERROR; a stream other than 0
/// is PROTOCOL_ERROR.
pub fn check_ping(stream_id: u32, p: &[u8]) -> (r: Result<(), ErrorCode>)
    ensures
        stream_id != 0 ==> r == Err::<(), ErrorCode>(ErrorCode::ProtocolError),
        stream_id == 0 && p@.len() != 8 ==> r == Err::<(), ErrorCode>(ErrorCode::FrameSizeError),
        stream_id == 0 && p@.len() == 8 ==> r is Ok,
{
    if stream_id != 0 {
        return Err(ErrorCode::ProtocolError);
    }
    if p.len() != 8 {
        return Err(ErrorCode::FrameSizeError);
    }
    Ok(())
}

/// A whole frame: header, then payload.
pub fn encode_frame(frame_type: u8, flags: u8, stream_id: u32, payload: &[u8]) -> (r: Vec<u8>)
    requires
        payload@.len() < 0x100_0000,
        stream_id <= MAX_STREAM_ID,
    ensures
        r@ == header_bytes(FrameHeader { length: payload@.len() as u32, frame_type, flags, stream_id }) + payload@,
{
    let h = FrameHeader { length: payload.len() as u32, frame_type, flags, stream_id };
    let mut v = pack_header(h);
    append(&mut v, payload);
    v
}

/// GOAWAY naming the last processed peer stream and the error.
pub fn goaway_frame(last_stream_id: u32, code: ErrorCode) -> (r: Vec<u8>)
    requires
        last_stream_id <= MAX_STREAM_ID,
    ensures
        r@ == header_bytes(FrameHeader { length: 8, frame_type: 7, flags: 0, stream_id: 0 }) + be32(last_stream_id)
            + be32(code_value(code)),
{
    let mut p: Vec<u8> = Vec::new();
    push_be32(&mut p, last_stream_id);
    push_be32(&mut p, code.raw());
    let r = encode_frame(7, 0, 0, p.as_slice());
    assert(r@ =~= header_bytes(FrameHeader { length: 8, frame_type: 7, flags: 0, stream_id: 0 }) + be32(last_stream_id)
        + be32(code_value(code)));
    r
}

/// RST_STREAM for a stream with the error.
pub fn rst_stream_frame(stream_id: u32, code: ErrorCode) -> (r: Vec<u8>)
    requires
        stream_id <= MAX_STREAM_ID,
    ensures
        r@ == header_bytes(FrameHeader { length: 4, frame_type: 3, flags: 0, stream_id }) + be32(code_value(code)),
{
    let mut p: Vec<u8> = Vec::new();
    push_be32(&mut p, code.raw());
    assert(p@ =~= be32(code_value(code)));
    encode_frame(3, 0, stream_id, p.as_slice())
}

/// WINDOW_UPDATE for a stream (0 for the connection).
pub fn window_update_frame(stream_id: u32, increment: u32) -> (r: Vec<u8>)
    requires
        stream_id <= MAX_STREAM_ID,
    ensures
        r@ == header_bytes(FrameHeader { length: 4, frame_type: 8, flags: 0, stream_id }) + be32(increment),
{
    let mut p: Vec<u8> = Vec::new();
    push_be32(&mut p, increment);
    assert(p@ =~= be32(increment));
    encode_frame(8, 0, stream_id, p.as_slice())
}

/// SETTINGS with the ACK flag and no payload.
pub fn settings_ack_frame() -> (r: Vec<u8>)
    ensures
        r@ == header_bytes(FrameHeader { length: 0, frame_type: 4, flags: 1, stream_id: 0 }),
{
    let e: Vec<u8> = Vec::new();
    let r = encode_frame(4, 1, 0, e.as_slice());
    assert(r@ =~= header_bytes(FrameHeader { length: 0, frame_type: 4, flags: 1, stream_id: 0 }));
    r
}

/// PING with the ACK flag, echoing the payload received.
pub fn ping_ack_frame(data: &[u8]) -> (r: Vec<u8>)
    requires
        data@.len() == 8,
    ensures
        r@ == header_bytes(FrameHeader { length: 8, frame_type: 6, flags: 1, stream_id: 0 }) + data@,
{
    encode_frame(6, 1, 0, data)
}

/// DATA for a stream; END_STREAM when asked.
pub fn data_frame(stream_id: u32, payload: &[u8], end_stream: bool) -> (r: Vec<u8>)
    requires
        payload@.len() < 0x100_0000,
        stream_id <= MAX_STREAM_ID,
    ensures
        r@ == header_bytes(FrameHeader {
            length: payload@.len() as u32,
            frame_type: 0,
            flags: if end_stream { 1u8 } else { 0u8 },
            stream_id,
        }) + payload@,
{
    encode_frame(0, if end_stream { 1 } else { 0 }, stream_id, payload)
}

/// Bytes of SETTINGS pairs: each a 16-bit id and a 32-bit value.
pub open spec fn settings_bytes(pairs: Seq<(u16, u32)>) -> Seq<u8>
    decreases pairs.len(),
{
    if pairs.len() == 0 {
        Seq::empty()
    } else {
        let (id, value) = pairs.last();
        settings_bytes(pairs.drop_last()) + seq![(id / 256) as u8, (id % 256) as u8] + be32(value)
    }
}

/// SETTINGS carrying the pairs.
pub fn settings_frame(pairs: &Vec<(u16, u32)>) -> (r: Vec<u8>)
    requires
        pairs@.len() < 0x10_0000,
    ensures
        r@ == header_bytes(FrameHeader { length: (6 * pairs@.len()) as u32, frame_type: 4, flags: 0, stream_id: 0 })
            + settings_bytes(pairs@),
{
    let mut p: Vec<u8> = Vec::new();
    let mut i: usize = 0;
    while i < pairs.len()
        invariant
            0 <= i <= pairs@.len(),
            p@ == settings_bytes(pairs@.take(i as int)),
            p@.len() == 6 * i,
        decreases pairs@.len() - i,
    {
        let (id, value) = pairs[i];
        assert(pairs@.take(i as int + 1).drop_last() =~= pairs@.take(i as int));
        p.push((id / 256) as u8);
        p.push((id % 256) as u8);
        push_be32(&mut p, value);
        i = i + 1;
        assert(p@ =~= settings_bytes(pairs@.take(i as int)));
    }
    assert(pairs@.take(pairs@.len() as int) =~= pairs@);
    encode_frame(4, 0, 0, p.as_slice())
}

/// A SETTINGS frame received: an acknowledgement, or pairs to apply.
#[derive(Clone, Debug)]
pub enum SettingsFrame {
    Ack,
    Pairs(Vec<(u16, u32)>),
}

/// Checks a received SETTINGS frame: a stream other than 0 is
/// PROTOCOL_ERROR; an ACK with a payload, or pairs whose length is not a
/// multiple of six, is FRAME_SIZE_ERROR.
pub fn read_settings_frame(h: &FrameHeader, p: &[u8]) -> (r: Result<SettingsFrame, ErrorCode>)
    ensures
        h.stream_id != 0 ==> r matches Err(ErrorCode::ProtocolError),
        h.stream_id == 0 && h.flags % 2 == 1 ==> (if p@.len() == 0 {
            r matches Ok(SettingsFrame::Ack)
        } else {
            r matches Err(ErrorCode::FrameSizeError)
        }),
        h.stream_id == 0 && h.flags % 2 == 0 ==> (if p@.len() % 6 == 0 {
            r matches Ok(SettingsFrame::Pairs(v)) && v@ == settings_pairs(p@)
        } else {
            r matches Err(ErrorCode::FrameSizeError)
        }),
{
    if h.stream_id != 0 {
        return Err(ErrorCode::ProtocolError);
    }
    if h.flags % 2 == 1 {
        if p.len() == 0 {
            return Ok(SettingsFrame::Ack);
        }
        return Err(ErrorCode::FrameSizeError);
    }
    match parse_settings_payload(p) {
        Ok(v) => Ok(SettingsFrame::Pairs(v)),
        Err(e) => Err(e),
    }
}

/// The peer's first frame must be SETTINGS without ACK; anything else is
/// PROTOCOL_ERROR.
pub fn check_first_frame(h: &FrameHeader) -> (r: Result<(), ErrorCode>)
    ensures
        r is Ok <==> kind_spec(h.frame_type) == FrameKind::Settings && h.flags % 2 == 0,
        r is Err ==> r == Err::<(), ErrorCode>(ErrorCode::ProtocolError),
{
    if crate::frame::frame_kind(h.frame_type) == FrameKind::Settings && h.flags % 2 == 0 {
        Ok(())
    } else {
        Err(ErrorCode::ProtocolError)
    }
}

} // verus!
