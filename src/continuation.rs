//! Joining HEADERS with CONTINUATION frames, and cutting header blocks into them.
use vstd::prelude::*;
use crate::error_code::ErrorCode;
use crate::frame::{frame_kind, kind_spec, FrameHeader, FrameKind, FLAG_END_HEADERS, FLAG_PADDED,
    FLAG_PRIORITY};

verus! {

/// A frame as read from the wire: header and payload.
#[derive(Clone, Debug)]
pub struct RawFrame {
    pub header: FrameHeader,
    pub payload: Vec<u8>,
}

/// A HEADERS frame with its whole header block, CONTINUATION frames joined.
#[derive(Clone, Debug)]
pub struct JoinedHeaders {
    pub stream_id: u32,
    /// Flags of the HEADERS frame that opened the block, END_HEADERS set.
    pub flags: u8,
    pub block: Vec<u8>,
    /// Stream dependency of the opening frame, when it had PRIORITY.
    pub stream_dep: Option<StreamDependency>,
    /// Pad length of the opening frame (0 unless PADDED).
    pub padding_len: u8,
    /// For a PUSH_PROMISE block, the promised stream id; `None` for HEADERS.
    pub promised_stream_id: Option<u32>,
}

/// The priority fields of a HEADERS frame.
#[derive(Clone, Copy, Debug, PartialEq, Eq, Structural)]
pub struct StreamDependency {
    pub stream_id: u32,
    pub exclusive: bool,
    pub weight: u8,
}

/// Pad length of a HEADERS payload.
pub open spec fn padding_of(flags: u8, p: Seq<u8>) -> u8 {
    if has_flag(flags, FLAG_PADDED) && p.len() > 0 { p[0] } else { 0 }
}

/// Stream dependency of a HEADERS payload: after the pad length byte, a
/// 31-bit stream id whose top bit marks it exclusive, then the weight.
pub open spec fn dep_of(flags: u8, p: Seq<u8>) -> Option<StreamDependency> {
    let s: int = if has_flag(flags, FLAG_PADDED) { 1 } else { 0 };
    if has_flag(flags, FLAG_PRIORITY) && p.len() >= s + 5 {
        Some(StreamDependency {
            stream_id: ((p[s] % 128) as int * 16777216 + p[s + 1] as int * 65536 + p[s + 2] as int * 256
                + p[s + 3] as int) as u32,
            exclusive: p[s] >= 128,
            weight: p[s + 4],
        })
    } else {
        None
    }
}

/// What the joiner hands on for one frame read.
#[derive(Clone, Debug)]
pub enum JoinOutput {
    /// A frame that is no part of a header block, unchanged.
    Frame(RawFrame),
    /// A complete header block.
    Headers(JoinedHeaders),
    /// A part of a header block; more CONTINUATION frames must follow.
    NeedMore,
}

/// `JoinOutput` as a mathematical value.
pub enum JoinEvent {
    Passed(FrameHeader, Seq<u8>),
    Joined(u32, u8, Seq<u8>),
    More,
    Failed(ErrorCode),
}

/// A header block begun and not yet ended: stream id, flags of the opening
/// frame, the fragment gathered so far.
pub type PendingSpec = Option<(u32, u8, Seq<u8>)>;

pub open spec fn has_flag(flags: u8, bit: u8) -> bool {
    (flags / bit) % 2 == 1
}

/// The header block fragment of a HEADERS payload: after the pad length
/// byte when PADDED and the five priority bytes when PRIORITY, before the
/// padding. `None` when the payload is too short for them.
pub open spec fn fragment_of(flags: u8, p: Seq<u8>) -> Option<Seq<u8>> {
    let padded = has_flag(flags, FLAG_PADDED);
    let start: int = (if padded { 1int } else { 0int }) + (if has_flag(flags, FLAG_PRIORITY) { 5int } else { 0int });
    if padded && p.len() == 0 {
        None
    } else {
        let pad: int = if padded { p[0] as int } else { 0 };
        if p.len() < start + pad {
            None
        } else {
            Some(p.subrange(start, p.len() - pad))
        }
    }
}

/// The header block fragment of a PUSH_PROMISE payload: after the pad
/// length byte when PADDED and the four-byte promised stream id, before the
/// padding. `None` when the payload is too short for them.
pub open spec fn push_fragment_of(flags: u8, p: Seq<u8>) -> Option<Seq<u8>> {
    let padded = has_flag(flags, FLAG_PADDED);
    let start: int = (if padded { 1int } else { 0int }) + 4;
    if padded && p.len() == 0 {
        None
    } else {
        let pad: int = if padded { p[0] as int } else { 0 };
        if p.len() < start + pad { None } else { Some(p.subrange(start, p.len() - pad)) }
    }
}

/// Fragment of an opening frame: PUSH_PROMISE or HEADERS.
pub open spec fn block_fragment(push: bool, flags: u8, p: Seq<u8>) -> Option<Seq<u8>> {
    if push { push_fragment_of(flags, p) } else { fragment_of(flags, p) }
}

/// The promised stream id of a PUSH_PROMISE payload (31 bits, after the
/// pad length byte when PADDED).
pub open spec fn promised_of(flags: u8, p: Seq<u8>) -> Option<u32> {
    let s: int = if has_flag(flags, FLAG_PADDED) { 1 } else { 0 };
    if p.len() >= s + 4 {
        Some(((p[s] % 128) as int * 16777216 + p[s + 1] as int * 65536 + p[s + 2] as int * 256
            + p[s + 3] as int) as u32)
    } else {
        None
    }
}

/// Flags with END_HEADERS set.
pub open spec fn with_end_headers(flags: u8) -> u8 {
    if has_flag(flags, FLAG_END_HEADERS) { flags } else { (flags + 4) as u8 }
}

/// One step of the joiner on frame `(h, p)` in state `st`. The joined
/// frame carries the opening frame's flags with END_HEADERS set. The
/// opening frame is HEADERS or PUSH_PROMISE.
pub open spec fn join_step(st: PendingSpec, h: FrameHeader, p: Seq<u8>) -> (JoinEvent, PendingSpec) {
    match st {
        Some((sid, flags, frag)) => {
            if kind_spec(h.frame_type) != FrameKind::Continuation || h.stream_id != sid {
                (JoinEvent::Failed(ErrorCode::ProtocolError), st)
            } else if has_flag(h.flags, FLAG_END_HEADERS) {
                (JoinEvent::Joined(sid, with_end_headers(flags), frag + p), None)
            } else {
                (JoinEvent::More, Some((sid, flags, frag + p)))
            }
        },
        None => {
            if kind_spec(h.frame_type) == FrameKind::Continuation {
                (JoinEvent::Failed(ErrorCode::ProtocolError), st)
            } else if kind_spec(h.frame_type) == FrameKind::Headers || kind_spec(h.frame_type)
                == FrameKind::PushPromise {
                match block_fragment(kind_spec(h.frame_type) == FrameKind::PushPromise, h.flags, p) {
                    None => (JoinEvent::Failed(ErrorCode::ProtocolError), st),
                    Some(frag) => if has_flag(h.flags, FLAG_END_HEADERS) {
                        (JoinEvent::Joined(h.stream_id, h.flags, frag), None)
                    } else {
                        (JoinEvent::More, Some((h.stream_id, h.flags, frag)))
                    },
                }
            } else {
                (JoinEvent::Passed(h, p), st)
            }
        },
    }
}

pub open spec fn event_of(r: Result<JoinOutput, ErrorCode>) -> JoinEvent {
    match r {
        Err(e) => JoinEvent::Failed(e),
        Ok(JoinOutput::Frame(f)) => JoinEvent::Passed(f.header, f.payload@),
        Ok(JoinOutput::Headers(j)) => JoinEvent::Joined(j.stream_id, j.flags, j.block@),
        Ok(JoinOutput::NeedMore) => JoinEvent::More,
    }
}

struct PendingBlock {
    stream_id: u32,
    flags: u8,
    fragment: Vec<u8>,
    stream_dep: Option<StreamDependency>,
    padding_len: u8,
    promised_stream_id: Option<u32>,
}

fn promised_exec(flags: u8, p: &[u8]) -> (r: Option<u32>)
    ensures
        r == promised_of(flags, p@),
{
    let s: usize = if has_flag_exec(flags, FLAG_PADDED) { 1 } else { 0 };
    if p.len() >= s + 4 {
        Some(((p[s] % 128) as u32) * 16777216 + (p[s + 1] as u32) * 65536 + (p[s + 2] as u32) * 256
            + (p[s + 3] as u32))
    } else {
        None
    }
}

/// Fragment of a PUSH_PROMISE payload, as `push_fragment_of`.
pub fn push_promise_fragment(flags: u8, p: &[u8]) -> (r: Option<Vec<u8>>)
    ensures
        r is Some <==> push_fragment_of(flags, p@) is Some,
        r matches Some(v) ==> push_fragment_of(flags, p@) == Some(v@),
{
    let padded = has_flag_exec(flags, FLAG_PADDED);
    let start: usize = (if padded { 1usize } else { 0usize }) + 4;
    if padded && p.len() == 0 {
        return None;
    }
    let pad: usize = if padded { p[0] as usize } else { 0 };
    if p.len() < start + pad {
        return None;
    }
    Some(copy_range(p, start, p.len() - pad))
}

fn padding_exec(flags: u8, p: &[u8]) -> (r: u8)
    ensures
        r == padding_of(flags, p@),
{
    if has_flag_exec(flags, FLAG_PADDED) && p.len() > 0 { p[0] } else { 0 }
}

fn dep_exec(flags: u8, p: &[u8]) -> (r: Option<StreamDependency>)
    ensures
        r == dep_of(flags, p@),
{
    let s: usize = if has_flag_exec(flags, FLAG_PADDED) { 1 } else { 0 };
    if has_flag_exec(flags, FLAG_PRIORITY) && p.len() >= s + 5 {
        Some(StreamDependency {
            stream_id: ((p[s] % 128) as u32) * 16777216 + (p[s + 1] as u32) * 65536 + (p[s + 2] as u32) * 256
                + (p[s + 3] as u32),
            exclusive: p[s] >= 128,
            weight: p[s + 4],
        })
    } else {
        None
    }
}

/// Joins HEADERS and the CONTINUATION frames that follow into one header
/// block. While a block is open only CONTINUATION frames of its stream may
/// come; anything else is PROTOCOL_ERROR.
pub struct ContinuationJoin {
    pending: Option<PendingBlock>,
}

fn has_flag_exec(flags: u8, bit: u8) -> (r: bool)
    requires
        bit > 0,
    ensures
        r == has_flag(flags, bit),
{
    (flags / bit) % 2 == 1
}

pub(crate) fn append(dst: &mut Vec<u8>, src: &[u8])
    ensures
        final(dst)@ == old(dst)@ + src@,
{
    let mut i: usize = 0;
    let ghost d0 = dst@;
    while i < src.len()
        invariant
            0 <= i <= src@.len(),
            dst@ == d0 + src@.subrange(0, i as int),
        decreases src@.len() - i,
    {
        dst.push(src[i]);
        i = i + 1;
        assert(dst@ =~= d0 + src@.subrange(0, i as int));
    }
    assert(src@.subrange(0, src@.len() as int) =~= src@);
}

pub(crate) fn copy_range(src: &[u8], start: usize, end: usize) -> (r: Vec<u8>)
    requires
        start <= end <= src@.len(),
    ensures
        r@ == src@.subrange(start as int, end as int),
{
    let mut v: Vec<u8> = Vec::new();
    let mut i: usize = start;
    while i < end
        invariant
            start <= i <= end,
            end <= src@.len(),
            v@ == src@.subrange(start as int, i as int),
        decreases end - i,
    {
        v.push(src[i]);
        i = i + 1;
        assert(v@ =~= src@.subrange(start as int, i as int));
    }
    v
}

/// Header block fragment of a HEADERS payload, as `fragment_of`.
pub fn headers_fragment(flags: u8, p: &[u8]) -> (r: Option<Vec<u8>>)
    ensures
        r is Some <==> fragment_of(flags, p@) is Some,
        r matches Some(v) ==> fragment_of(flags, p@) == Some(v@),
{
    let padded = has_flag_exec(flags, FLAG_PADDED);
    let start: usize = (if padded { 1usize } else { 0usize }) + (if has_flag_exec(flags, FLAG_PRIORITY) {
        5usize
    } else {
        0usize
    });
    if padded && p.len() == 0 {
        return None;
    }
    let pad: usize = if padded { p[0] as usize } else { 0 };
    if p.len() < start + pad {
        return None;
    }
    Some(copy_range(p, start, p.len() - pad))
}

impl ContinuationJoin {
    pub closed spec fn view(&self) -> PendingSpec {
        match self.pending {
            Some(b) => Some((b.stream_id, b.flags, b.fragment@)),
            None => None,
        }
    }

    /// Pad length and dependency of the frame that opened the pending block.
    pub closed spec fn pending_meta(&self) -> Option<(u8, Option<StreamDependency>, Option<u32>)> {
        match self.pending {
            Some(b) => Some((b.padding_len, b.stream_dep, b.promised_stream_id)),
            None => None,
        }
    }

    /// A joiner with no open block.
    pub fn new() -> (r: ContinuationJoin)
        ensures
            r.view() is None,
            r.pending_meta() is None,
    {
        ContinuationJoin { pending: None }
    }

    /// Whether a header block is open.
    pub fn in_block(&self) -> (r: bool)
        ensures
            r == self.view() is Some,
    {
        self.pending.is_some()
    }

    /// Takes in one frame; see `join_step`.
    pub fn accept(&mut self, frame: RawFrame) -> (r: Result<JoinOutput, ErrorCode>)
        ensures
            event_of(r) == join_step(old(self).view(), frame.header, frame.payload@).0,
            final(self).view() == join_step(old(self).view(), frame.header, frame.payload@).1,
            ({
                let push = kind_spec(frame.header.frame_type) == FrameKind::PushPromise;
                let opening = (
                    padding_of(frame.header.flags, frame.payload@),
                    if push { None } else { dep_of(frame.header.flags, frame.payload@) },
                    if push { promised_of(frame.header.flags, frame.payload@) } else { None },
                );
                let meta = match old(self).pending_meta() {
                    Some(m) => m,
                    None => opening,
                };
                &&& r matches Ok(JoinOutput::Headers(j)) ==> j.padding_len == meta.0 && j.stream_dep == meta.1
                    && j.promised_stream_id == meta.2
                &&& final(self).pending_meta() == (if final(self).view() is Some { Some(meta) } else { None })
            }),
    {
        let kind = frame_kind(frame.header.frame_type);
        match self.pending.take() {
            Some(mut b) => {
                if kind != FrameKind::Continuation || frame.header.stream_id != b.stream_id {
                    self.pending = Some(b);
                    return Err(ErrorCode::ProtocolError);
                }
                append(&mut b.fragment, frame.payload.as_slice());
                if has_flag_exec(frame.header.flags, FLAG_END_HEADERS) {
                    let flags = if has_flag_exec(b.flags, FLAG_END_HEADERS) { b.flags } else { b.flags + 4 };
                    Ok(JoinOutput::Headers(JoinedHeaders {
                        stream_id: b.stream_id,
                        flags,
                        block: b.fragment,
                        stream_dep: b.stream_dep,
                        padding_len: b.padding_len,
                        promised_stream_id: b.promised_stream_id,
                    }))
                } else {
                    self.pending = Some(b);
                    Ok(JoinOutput::NeedMore)
                }
            },
            None => {
                if kind == FrameKind::Continuation {
                    return Err(ErrorCode::ProtocolError);
                }
                if kind != FrameKind::Headers && kind != FrameKind::PushPromise {
                    return Ok(JoinOutput::Frame(frame));
                }
                let push = kind == FrameKind::PushPromise;
                let frag = if push {
                    push_promise_fragment(frame.header.flags, frame.payload.as_slice())
                } else {
                    headers_fragment(frame.header.flags, frame.payload.as_slice())
                };
                let dep = if push { None } else { dep_exec(frame.header.flags, frame.payload.as_slice()) };
                let promised = if push { promised_exec(frame.header.flags, frame.payload.as_slice()) } else { None };
                match frag {
                    None => Err(ErrorCode::ProtocolError),
                    Some(frag) => {
                        if has_flag_exec(frame.header.flags, FLAG_END_HEADERS) {
                            Ok(JoinOutput::Headers(JoinedHeaders {
                                stream_id: frame.header.stream_id,
                                flags: frame.header.flags,
                                block: frag,
                                stream_dep: dep,
                                padding_len: padding_exec(frame.header.flags, frame.payload.as_slice()),
                                promised_stream_id: promised,
                            }))
                        } else {
                            self.pending = Some(PendingBlock {
                                stream_id: frame.header.stream_id,
                                flags: frame.header.flags,
                                fragment: frag,
                                stream_dep: dep,
                                padding_len: padding_exec(frame.header.flags, frame.payload.as_slice()),
                                promised_stream_id: promised,
                            });
                            Ok(JoinOutput::NeedMore)
                        }
                    },
                }
            },
        }
    }
}


/// Runs the joiner over frames from state `st`: the events in order and
/// the final state.
pub open spec fn run_join(st: PendingSpec, frames: Seq<(FrameHeader, Seq<u8>)>) -> (Seq<JoinEvent>, PendingSpec)
    decreases frames.len(),
{
    if frames.len() == 0 {
        (Seq::empty(), st)
    } else {
        let prev = run_join(st, frames.drop_last());
        let step = join_step(prev.1, frames.last().0, frames.last().1);
        (prev.0.push(step.0), step.1)
    }
}

/// The parts `0..k` of a split block, concatenated.
pub open spec fn concat_parts(parts: Seq<Seq<u8>>, k: int) -> Seq<u8>
    decreases k,
{
    if k <= 0 { Seq::empty() } else { concat_parts(parts, k - 1) + parts[k - 1] }
}

/// Flags of the joined frame of a block split in any number of parts.
pub open spec fn joined_flags(end_stream: bool) -> u8 {
    if end_stream { 5u8 } else { 4u8 }
}

/// Flags of the HEADERS frame that opens a block split in `n` parts.
pub open spec fn opening_flags(end_stream: bool, n: int) -> u8 {
    ((if end_stream { 1int } else { 0int }) + (if n == 1 { 4int } else { 0int })) as u8
}

/// Frame `i` of a header block split in `parts`: HEADERS first, then
/// CONTINUATION, END_HEADERS on the last; no padding, no priority.
pub open spec fn split_frame(sid: u32, end_stream: bool, parts: Seq<Seq<u8>>, i: int) -> (FrameHeader, Seq<u8>) {
    let n = parts.len() as int;
    let h = FrameHeader {
        length: parts[i].len() as u32,
        frame_type: if i == 0 { 1u8 } else { 9u8 },
        flags: if i == 0 { opening_flags(end_stream, n) } else if i == n - 1 { 4u8 } else { 0u8 },
        stream_id: sid,
    };
    (h, parts[i])
}

pub open spec fn split_frames(sid: u32, end_stream: bool, parts: Seq<Seq<u8>>) -> Seq<(FrameHeader, Seq<u8>)> {
    Seq::new(parts.len(), |i: int| split_frame(sid, end_stream, parts, i))
}

pub(crate) proof fn lemma_split_prefix(sid: u32, end_stream: bool, parts: Seq<Seq<u8>>, k: int)
    requires
        1 <= k <= parts.len(),
    ensures
        ({
            let r = run_join(None, split_frames(sid, end_stream, parts).take(k));
            &&& r.0.len() == k
            &&& forall|i: int| 0 <= i < k - 1 ==> #[trigger] r.0[i] == JoinEvent::More
            &&& k < parts.len() ==> r.0[k - 1] == JoinEvent::More && r.1 == Some((sid, opening_flags(end_stream, parts.len() as int), concat_parts(parts, k)))
            &&& k == parts.len() ==> r.1 is None && r.0[k - 1] == JoinEvent::Joined(sid, joined_flags(end_stream), concat_parts(parts, k))
        }),
    decreases k,
{
    let n = parts.len() as int;
    let fs = split_frames(sid, end_stream, parts);
    let f0 = opening_flags(end_stream, n);
    assert(fs.take(k).drop_last() =~= fs.take(k - 1));
    assert(fs.take(k).last() == split_frame(sid, end_stream, parts, k - 1));
    if k == 1 {
        assert(fs.take(0) =~= Seq::<(FrameHeader, Seq<u8>)>::empty());
        assert(kind_spec(1u8) == FrameKind::Headers);
        assert(!has_flag(f0, FLAG_PADDED) && !has_flag(f0, FLAG_PRIORITY));
        assert(parts[0].subrange(0, parts[0].len() as int) =~= parts[0]);
        assert(concat_parts(parts, 1) =~= parts[0]) by {
            assert(concat_parts(parts, 0) == Seq::<u8>::empty());
        }
        assert(has_flag(f0, FLAG_END_HEADERS) == (n == 1));
    } else {
        lemma_split_prefix(sid, end_stream, parts, k - 1);
        assert(kind_spec(9u8) == FrameKind::Continuation);
        let lf: u8 = if k - 1 == n - 1 { 4u8 } else { 0u8 };
        assert(has_flag(lf, FLAG_END_HEADERS) == (k == n));
        let r = run_join(None, fs.take(k));
        let p = run_join(None, fs.take(k - 1));
        assert forall|i: int| 0 <= i < k - 1 implies #[trigger] r.0[i] == JoinEvent::More by {
            assert(r.0[i] == p.0[i]);
        }
    }
}

/// A header block split in any way across a HEADERS frame and the
/// CONTINUATION frames that follow it joins back to exactly the
/// concatenation of the parts, with nothing handed on before. So two splits
/// of the same block give the same block, and the same decoded headers.
pub proof fn lemma_continuation_split_invariant(
    sid: u32,
    end_stream: bool,
    parts1: Seq<Seq<u8>>,
    parts2: Seq<Seq<u8>>,
)
    requires
        parts1.len() >= 1,
        parts2.len() >= 1,
        concat_parts(parts1, parts1.len() as int) == concat_parts(parts2, parts2.len() as int),
    ensures
        ({
            let r1 = run_join(None, split_frames(sid, end_stream, parts1));
            let r2 = run_join(None, split_frames(sid, end_stream, parts2));
            &&& r1.1 is None && r2.1 is None
            &&& forall|i: int| 0 <= i < parts1.len() - 1 ==> #[trigger] r1.0[i] == JoinEvent::More
            &&& r1.0.last() == JoinEvent::Joined(sid, joined_flags(end_stream),
                concat_parts(parts1, parts1.len() as int))
            &&& r1.0.last() matches JoinEvent::Joined(_, f1, b1) && r2.0.last() matches JoinEvent::Joined(_, f2, b2)
                && b1 == b2 && f1 == f2 && has_flag(f1, FLAG_END_HEADERS)
        }),
{
    let n1 = parts1.len() as int;
    let n2 = parts2.len() as int;
    lemma_split_prefix(sid, end_stream, parts1, n1);
    lemma_split_prefix(sid, end_stream, parts2, n2);
    assert(split_frames(sid, end_stream, parts1).take(n1) =~= split_frames(sid, end_stream, parts1));
    assert(split_frames(sid, end_stream, parts2).take(n2) =~= split_frames(sid, end_stream, parts2));
    let f1 = opening_flags(end_stream, n1);
    let f2 = opening_flags(end_stream, n2);
    assert(has_flag(f1, 1) == end_stream);
    assert(has_flag(f2, 1) == end_stream);
}


/// The parts of a block cut every `size` bytes; an empty block is one
/// empty part.
pub open spec fn chunks(block: Seq<u8>, size: int) -> Seq<Seq<u8>>
    recommends
        size > 0,
{
    let n = if block.len() == 0 { 1 } else { (block.len() + size - 1) / size };
    Seq::new(n as nat, |i: int| block.subrange(i * size, if (i + 1) * size < block.len() { (i + 1) * size } else { block.len() as int }))
}

proof fn lemma_chunk_count(len: int, size: int)
    requires
        len > 0,
        size > 0,
    ensures
        (len + size - 1) / size == len / size + (if len % size == 0 { 0int } else { 1int }),
        ((len + size - 1) / size) * size < len + size,
        len % size != 0 ==> len / size < len,
{
    let q = len / size;
    let m = len % size;
    vstd::arithmetic::div_mod::lemma_fundamental_div_mod(len, size);
    assert(len == size * q + m);
    assert(0 <= m < size);
    assert(q >= 0) by (nonlinear_arith)
        requires len == size * q + m, 0 <= m < size, len > 0;
    assert(q * size >= q) by (nonlinear_arith)
        requires q >= 0, size >= 1;
    if m == 0 {
        assert(len + size - 1 == q * size + (size - 1)) by (nonlinear_arith)
            requires len == size * q + m, m == 0;
        vstd::arithmetic::div_mod::lemma_fundamental_div_mod_converse(len + size - 1, size, q, size - 1);
        assert(q * size == len) by (nonlinear_arith)
            requires len == size * q + m, m == 0;
    } else {
        assert(len + size - 1 == (q + 1) * size + (m - 1)) by (nonlinear_arith)
            requires len == size * q + m;
        vstd::arithmetic::div_mod::lemma_fundamental_div_mod_converse(len + size - 1, size, q + 1, m - 1);
        assert((q + 1) * size == len - m + size) by (nonlinear_arith)
            requires len == size * q + m;
    }
}

/// Frames that carry a header block of stream `sid`: HEADERS, then as
/// many CONTINUATION frames as MAX_FRAME_SIZE needs, END_HEADERS on the
/// last, END_STREAM on the first when asked.
pub fn split_header_block(sid: u32, end_stream: bool, block: &[u8], max_frame_size: u32) -> (r: Vec<RawFrame>)
    requires
        max_frame_size > 0,
    ensures
        r@.len() == chunks(block@, max_frame_size as int).len(),
        forall|i: int| 0 <= i < r@.len() ==> (#[trigger] r@[i]).header == split_frame(sid, end_stream, chunks(block@, max_frame_size as int), i).0
            && r@[i].payload@ == split_frame(sid, end_stream, chunks(block@, max_frame_size as int), i).1,
{
    let size: usize = max_frame_size as usize;
    let len: usize = block.len();
    let ghost parts = chunks(block@, size as int);
    proof {
        if len > 0 {
            lemma_chunk_count(len as int, size as int);
        }
    }
    let n: usize = if len == 0 { 1 } else { len / size + if len % size == 0 { 0usize } else { 1usize } };
    let mut out: Vec<RawFrame> = Vec::new();
    let mut i: usize = 0;
    while i < n
        invariant
            0 <= i <= n,
            n == parts.len(),
            parts == chunks(block@, size as int),
            size == max_frame_size,
            size > 0,
            len == block@.len(),
            n == 1 || n * size < len + size,
            out@.len() == i,
            forall|k: int| 0 <= k < i ==> (#[trigger] out@[k]).header == split_frame(sid, end_stream, parts, k).0
                && out@[k].payload@ == split_frame(sid, end_stream, parts, k).1,
        decreases n - i,
    {
        assert(i * size <= len) by (nonlinear_arith)
            requires
                i < n,
                n == 1 || n * size < len + size,
                size > 0,
        {
            if n != 1 {
                assert(i * size <= (n - 1) * size);
            }
        }
        let start: usize = i * size;
        let end: usize = if len - start > size { start + size } else { len };
        let payload = copy_range(block, start, end);
        let flags: u8 = if i == 0 {
            (if end_stream { 1u8 } else { 0u8 }) + (if n == 1 { 4u8 } else { 0u8 })
        } else if i == n - 1 {
            4u8
        } else {
            0u8
        };
        let ghost want = split_frame(sid, end_stream, parts, i as int);
        assert(payload@ == parts[i as int]) by {
            assert((i + 1) * size == start + size) by (nonlinear_arith)
                requires start == i * size;
        }
        let h = crate::frame::FrameHeader {
            length: (end - start) as u32,
            frame_type: if i == 0 { 1u8 } else { 9u8 },
            flags,
            stream_id: sid,
        };
        assert(h == want.0);
        out.push(RawFrame { header: h, payload });
        i = i + 1;
    }
    out
}


proof fn lemma_concat_chunks(block: Seq<u8>, size: int, k: int)
    requires
        size > 0,
        0 <= k <= chunks(block, size).len(),
    ensures
        concat_parts(chunks(block, size), k) == block.subrange(0, if k * size < block.len() { k * size } else { block.len() as int }),
    decreases k,
{
    let parts = chunks(block, size);
    if block.len() > 0 {
        lemma_chunk_count(block.len() as int, size);
    }
    if k == 0 {
        assert(block.subrange(0, 0) =~= Seq::<u8>::empty());
    } else {
        lemma_concat_chunks(block, size, k - 1);
        assert((k - 1) * size < block.len() || block.len() == 0) by (nonlinear_arith)
            requires
                k <= parts.len(),
                parts.len() == (if block.len() == 0 { 1 } else { (block.len() + size - 1) / size }),
                block.len() > 0 ==> ((block.len() + size - 1) / size) * size < block.len() + size,
                size > 0,
                k >= 1;
        assert(k * size == (k - 1) * size + size) by (nonlinear_arith);
        assert((k - 1) * size >= 0) by (nonlinear_arith) requires k >= 1, size > 0;
        let prev_end = if (k - 1) * size < block.len() { (k - 1) * size } else { block.len() as int };
        assert(parts[k - 1] == block.subrange((k - 1) * size, if k * size < block.len() { k * size } else { block.len() as int }));
        assert(block.subrange(0, prev_end) + parts[k - 1] =~= block.subrange(0, if k * size < block.len() { k * size } else { block.len() as int }));
    }
}

/// The frames that carry a header block join back to exactly that block:
/// what the writer splits at any MAX_FRAME_SIZE, the reader rebuilds.
pub proof fn lemma_split_then_join(sid: u32, end_stream: bool, block: Seq<u8>, max_frame_size: u32)
    requires
        max_frame_size > 0,
    ensures
        ({
            let parts = chunks(block, max_frame_size as int);
            let r = run_join(None, split_frames(sid, end_stream, parts));
            &&& r.1 is None
            &&& r.0.last() == JoinEvent::Joined(sid, joined_flags(end_stream), block)
        }),
{
    let size = max_frame_size as int;
    let parts = chunks(block, size);
    let n = parts.len() as int;
    if block.len() > 0 {
        lemma_chunk_count(block.len() as int, size);
        assert(n >= 1) by (nonlinear_arith)
            requires n == (block.len() + size - 1) / size, block.len() > 0, size > 0;
    }
    lemma_split_prefix(sid, end_stream, parts, n);
    assert(split_frames(sid, end_stream, parts).take(n) =~= split_frames(sid, end_stream, parts));
    lemma_concat_chunks(block, size, n);
    assert(n * size >= block.len()) by (nonlinear_arith)
        requires
            block.len() > 0 ==> n == (block.len() + size - 1) / size,
            block.len() == 0 ==> n == 1,
            size > 0;
    assert(block.subrange(0, block.len() as int) =~= block);
}


/// A header block longer than MAX_FRAME_SIZE goes out as a HEADERS frame
/// without END_HEADERS followed by at least one CONTINUATION frame, all on
/// the same stream, none longer than MAX_FRAME_SIZE, END_HEADERS on the
/// last only.
pub proof fn lemma_long_block_uses_continuation(sid: u32, end_stream: bool, block: Seq<u8>, max_frame_size: u32)
    requires
        max_frame_size > 0,
        block.len() > max_frame_size,
    ensures
        ({
            let parts = chunks(block, max_frame_size as int);
            let n = parts.len() as int;
            &&& n >= 2
            &&& split_frame(sid, end_stream, parts, 0).0.frame_type == 1
            &&& !has_flag(split_frame(sid, end_stream, parts, 0).0.flags, FLAG_END_HEADERS)
            &&& forall|i: int| 1 <= i < n ==> (#[trigger] split_frame(sid, end_stream, parts, i)).0.frame_type == 9
                && (has_flag(split_frame(sid, end_stream, parts, i).0.flags, FLAG_END_HEADERS) <==> i == n - 1)
            &&& forall|i: int| 0 <= i < n ==> (#[trigger] split_frame(sid, end_stream, parts, i)).0.stream_id == sid
                && split_frame(sid, end_stream, parts, i).1.len() <= max_frame_size
        }),
{
    let size = max_frame_size as int;
    let len = block.len() as int;
    let parts = chunks(block, size);
    let n = parts.len() as int;
    lemma_chunk_count(len, size);
    assert(n >= 2) by (nonlinear_arith)
        requires n == (len + size - 1) / size, len > size, size > 0;
    assert(n * size < len + size);
    assert forall|i: int| 0 <= i < n implies (#[trigger] split_frame(sid, end_stream, parts, i)).1.len() <= max_frame_size by {
        assert(i * size <= len) by (nonlinear_arith)
            requires 0 <= i < n, n * size < len + size, size > 0;
        assert((i + 1) * size == i * size + size) by (nonlinear_arith);
        assert(i * size >= 0) by (nonlinear_arith) requires i >= 0, size > 0;
    }
    let f0 = opening_flags(end_stream, n);
    assert(!has_flag(f0, FLAG_END_HEADERS));
    assert(has_flag(4u8, FLAG_END_HEADERS));
    assert(!has_flag(0u8, FLAG_END_HEADERS));
}

} // verus!
