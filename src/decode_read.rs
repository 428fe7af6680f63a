//! The framed reader: bytes in, logical frames out.
use vstd::prelude::*;
use crate::continuation::{
    append, copy_range, join_step, ContinuationJoin, JoinEvent, JoinOutput,
    JoinedHeaders, PendingSpec, RawFrame, StreamDependency,
};
use crate::error_code::ErrorCode;
use crate::frame::{
    header_bytes, header_of, header_wf, kind_spec, lemma_header_round_trip, unpack_header, FrameHeader,
    FrameKind, FRAME_HEADER_LEN,
};
use crate::continuation::{concat_parts, joined_flags, lemma_split_prefix, run_join, split_frames};
use crate::headers::{Header, Headers};
use crate::stream_queue::Async;

verus! {

/// What one read step yields.
#[derive(Clone, Debug)]
pub enum ReadStep {
    /// A frame other than HEADERS/CONTINUATION.
    Frame(RawFrame),
    /// A complete header block, still HPACK-encoded.
    Headers(JoinedHeaders),
    /// A part of a header block was taken; read on.
    Partial,
    /// The peer broke the protocol: send GOAWAY with this code and close.
    SendGoaway(ErrorCode),
}

/// `ReadStep` as a mathematical value.
pub enum ReadEvent {
    NotReady,
    Frame(FrameHeader, Seq<u8>),
    Headers(u32, u8, Seq<u8>),
    Partial,
    SendGoaway(ErrorCode),
}

pub open spec fn read_event_of(r: Async<ReadStep>) -> ReadEvent {
    match r {
        Async::NotReady => ReadEvent::NotReady,
        Async::Ready(ReadStep::Frame(f)) => ReadEvent::Frame(f.header, f.payload@),
        Async::Ready(ReadStep::Headers(j)) => ReadEvent::Headers(j.stream_id, j.flags, j.block@),
        Async::Ready(ReadStep::Partial) => ReadEvent::Partial,
        Async::Ready(ReadStep::SendGoaway(e)) => ReadEvent::SendGoaway(e),
    }
}

/// One read step on buffered bytes `buf` with joiner state `st`: wait for a
/// whole frame, refuse one longer than `max_frame_size` (FRAME_SIZE_ERROR),
/// else take it off the buffer and pass it through the joiner. Yields the
/// event, the bytes left and the joiner state.
pub open spec fn read_step_spec(buf: Seq<u8>, st: PendingSpec, max_frame_size: u32) -> (ReadEvent, Seq<u8>, PendingSpec) {
    if buf.len() < 9 {
        (ReadEvent::NotReady, buf, st)
    } else {
        let h = header_of(buf);
        if h.length > max_frame_size {
            (ReadEvent::SendGoaway(ErrorCode::FrameSizeError), buf, st)
        } else if buf.len() < 9 + h.length {
            (ReadEvent::NotReady, buf, st)
        } else {
            let payload = buf.subrange(9, 9 + h.length);
            let rest = buf.subrange(9 + h.length, buf.len() as int);
            let j = join_step(st, h, payload);
            let ev = match j.0 {
                JoinEvent::Passed(h2, p2) => ReadEvent::Frame(h2, p2),
                JoinEvent::Joined(sid, flags, block) => ReadEvent::Headers(sid, flags, block),
                JoinEvent::More => ReadEvent::Partial,
                JoinEvent::Failed(e) => ReadEvent::SendGoaway(e),
            };
            (ev, rest, j.1)
        }
    }
}

/// Wire bytes of a frame.
pub open spec fn wire_of(f: (FrameHeader, Seq<u8>)) -> Seq<u8> {
    header_bytes(f.0) + f.1
}

/// Wire bytes of frames `k..` in order.
pub open spec fn wire_from(fs: Seq<(FrameHeader, Seq<u8>)>, k: int) -> Seq<u8>
    decreases fs.len() - k,
{
    if k < 0 || k >= fs.len() { Seq::empty() } else { wire_of(fs[k]) + wire_from(fs, k + 1) }
}

/// `k` read steps from buffered bytes `buf` and joiner state `st`.
pub open spec fn read_steps(buf: Seq<u8>, st: PendingSpec, max_frame_size: u32, k: nat) -> (Seq<ReadEvent>, Seq<u8>, PendingSpec)
    decreases k,
{
    if k == 0 {
        (Seq::empty(), buf, st)
    } else {
        let p = read_steps(buf, st, max_frame_size, (k - 1) as nat);
        let s = read_step_spec(p.1, p.2, max_frame_size);
        (p.0.push(s.0), s.1, s.2)
    }
}

pub open spec fn read_event_of_join(e: JoinEvent) -> ReadEvent {
    match e {
        JoinEvent::Passed(h, p) => ReadEvent::Frame(h, p),
        JoinEvent::Joined(sid, flags, block) => ReadEvent::Headers(sid, flags, block),
        JoinEvent::More => ReadEvent::Partial,
        JoinEvent::Failed(e) => ReadEvent::SendGoaway(e),
    }
}

proof fn lemma_read_one(h: FrameHeader, p: Seq<u8>, rest: Seq<u8>, st: PendingSpec, max_frame_size: u32)
    requires
        header_wf(h),
        h.length == p.len(),
        h.length <= max_frame_size,
    ensures
        ({
            let r = read_step_spec(header_bytes(h) + p + rest, st, max_frame_size);
            let j = join_step(st, h, p);
            &&& r.0 == read_event_of_join(j.0)
            &&& r.1 == rest
            &&& r.2 == j.1
        }),
{
    let buf = header_bytes(h) + p + rest;
    lemma_header_round_trip(h);
    assert(buf.subrange(0, 9) =~= header_bytes(h));
    assert(header_of(buf) == header_of(header_bytes(h)));
    assert(buf.subrange(9, 9 + h.length) =~= p);
    assert(buf.subrange(9 + h.length, buf.len() as int) =~= rest);
}

/// Reading the wire bytes of a header block split over HEADERS and
/// CONTINUATION frames, one `poll_http_frame` step per frame: every step
/// but the last yields `Partial`, the last the whole block as one HEADERS
/// frame with END_HEADERS, and nothing is left over. So any split gives the
/// same block, and the same decoded headers.
pub proof fn lemma_read_split_block(sid: u32, end_stream: bool, parts: Seq<Seq<u8>>, max_frame_size: u32)
    requires
        parts.len() >= 1,
        sid <= crate::frame::MAX_STREAM_ID,
        forall|i: int| 0 <= i < parts.len() ==> (#[trigger] parts[i]).len() <= max_frame_size,
        max_frame_size < 0x100_0000,
    ensures
        ({
            let n = parts.len() as int;
            let r = read_steps(wire_from(split_frames(sid, end_stream, parts), 0), None, max_frame_size, n as nat);
            &&& r.1.len() == 0
            &&& r.2 is None
            &&& forall|i: int| 0 <= i < n - 1 ==> #[trigger] r.0[i] == ReadEvent::Partial
            &&& r.0[n - 1] == ReadEvent::Headers(sid, joined_flags(end_stream), concat_parts(parts, n))
        }),
{
    let n = parts.len() as int;
    let fs = split_frames(sid, end_stream, parts);
    lemma_read_prefix(sid, end_stream, parts, max_frame_size, n);
    lemma_split_prefix(sid, end_stream, parts, n);
    let r = read_steps(wire_from(fs, 0), None, max_frame_size, n as nat);
    let jr = run_join(None, fs.take(n));
    assert forall|i: int| 0 <= i < n - 1 implies #[trigger] r.0[i] == ReadEvent::Partial by {
        assert(r.0[i] == read_event_of_join(jr.0[i]));
    }
    assert(r.0[n - 1] == read_event_of_join(jr.0[n - 1]));
}

#[verifier::rlimit(60)]
proof fn lemma_read_prefix(sid: u32, end_stream: bool, parts: Seq<Seq<u8>>, max_frame_size: u32, k: int)
    requires
        parts.len() >= 1,
        0 <= k <= parts.len(),
        sid <= crate::frame::MAX_STREAM_ID,
        forall|i: int| 0 <= i < parts.len() ==> (#[trigger] parts[i]).len() <= max_frame_size,
        max_frame_size < 0x100_0000,
    ensures
        ({
            let fs = split_frames(sid, end_stream, parts);
            let r = read_steps(wire_from(fs, 0), None, max_frame_size, k as nat);
            let jr = run_join(None, fs.take(k));
            &&& r.0.len() == k
            &&& jr.0.len() == k
            &&& forall|i: int| 0 <= i < k ==> #[trigger] r.0[i] == read_event_of_join(jr.0[i])
            &&& r.1 == wire_from(fs, k)
            &&& r.2 == jr.1
        }),
    decreases k,
{
    let fs = split_frames(sid, end_stream, parts);
    if k == 0 {
        assert(fs.take(0) =~= Seq::<(FrameHeader, Seq<u8>)>::empty());
    } else {
        lemma_read_prefix(sid, end_stream, parts, max_frame_size, k - 1);
        let p = read_steps(wire_from(fs, 0), None, max_frame_size, (k - 1) as nat);
        let jp = run_join(None, fs.take(k - 1));
        let f = fs[k - 1];
        assert(f == crate::continuation::split_frame(sid, end_stream, parts, k - 1));
        assert(f.1 == parts[k - 1]);
        assert(f.1.len() <= max_frame_size);
        assert(f.0.length == f.1.len());
        assert(header_wf(f.0));
        assert(f.0.length <= max_frame_size);
        assert(wire_from(fs, k - 1) == header_bytes(f.0) + f.1 + wire_from(fs, k));
        lemma_read_one(f.0, f.1, wire_from(fs, k), jp.1, max_frame_size);
        assert(p.1 == wire_from(fs, k - 1));
        assert(p.2 == jp.1);
        assert(fs.take(k).drop_last() =~= fs.take(k - 1));
        assert(fs.take(k).last() == f);
        let r = read_steps(wire_from(fs, 0), None, max_frame_size, k as nat);
        let jr = run_join(None, fs.take(k));
        let step = join_step(jp.1, f.0, f.1);
        assert(jr == (jp.0.push(step.0), step.1));
        assert forall|i: int| 0 <= i < k implies #[trigger] r.0[i] == read_event_of_join(jr.0[i]) by {
            if i < k - 1 {
                assert(r.0[i] == p.0[i]);
                assert(jr.0[i] == jp.0[i]);
            }
        }
    }
}

/// Reads logical frames from bytes that arrive in pieces.
pub struct HttpDecodeRead {
    buf: Vec<u8>,
    join: ContinuationJoin,
}

impl HttpDecodeRead {
    pub closed spec fn buffered(&self) -> Seq<u8> {
        self.buf@
    }

    pub closed spec fn pending(&self) -> PendingSpec {
        self.join.view()
    }

    /// A reader with nothing buffered and no header block open.
    pub fn new() -> (r: HttpDecodeRead)
        ensures
            r.buffered() == Seq::<u8>::empty(),
            r.pending() is None,
    {
        HttpDecodeRead { buf: Vec::new(), join: ContinuationJoin::new() }
    }

    /// Appends bytes read from the transport.
    pub fn feed(&mut self, bytes: &[u8])
        ensures
            final(self).buffered() == old(self).buffered() + bytes@,
            final(self).pending() == old(self).pending(),
    {
        append(&mut self.buf, bytes);
    }

    /// One read step; see `read_step_spec`.
    pub fn poll_http_frame(&mut self, max_frame_size: u32) -> (r: Async<ReadStep>)
        ensures
            ({
                let s = read_step_spec(old(self).buffered(), old(self).pending(), max_frame_size);
                &&& read_event_of(r) == s.0
                &&& final(self).buffered() == s.1
                &&& final(self).pending() == s.2
            }),
    {
        let h = match unpack_header(self.buf.as_slice()) {
            None => return Async::NotReady,
            Some(h) => h,
        };
        if h.length > max_frame_size {
            return Async::Ready(ReadStep::SendGoaway(ErrorCode::FrameSizeError));
        }
        let total: usize = FRAME_HEADER_LEN + h.length as usize;
        if self.buf.len() < total {
            return Async::NotReady;
        }
        let payload = copy_range(self.buf.as_slice(), FRAME_HEADER_LEN, total);
        let rest = copy_range(self.buf.as_slice(), total, self.buf.len());
        self.buf = rest;
        match self.join.accept(RawFrame { header: h, payload }) {
            Err(e) => Async::Ready(ReadStep::SendGoaway(e)),
            Ok(JoinOutput::Frame(f)) => Async::Ready(ReadStep::Frame(f)),
            Ok(JoinOutput::Headers(j)) => Async::Ready(ReadStep::Headers(j)),
            Ok(JoinOutput::NeedMore) => Async::Ready(ReadStep::Partial),
        }
    }
}

/// A HEADERS frame with its header list decoded.
#[derive(Clone, Debug)]
pub struct HeadersDecodedFrame {
    pub stream_id: u32,
    pub flags: u8,
    pub headers: Headers,
    pub stream_dep: Option<StreamDependency>,
    pub padding_len: u8,
}

/// A PUSH_PROMISE frame with its header list decoded.
#[derive(Clone, Debug)]
pub struct PushPromiseDecodedFrame {
    pub stream_id: u32,
    pub promised_stream_id: u32,
    pub flags: u8,
    pub headers: Headers,
}

/// A logical frame, header blocks decoded.
#[derive(Clone, Debug)]
pub enum HttpFrameDecoded {
    Data(RawFrame),
    Headers(HeadersDecodedFrame),
    Priority(RawFrame),
    RstStream(RawFrame),
    Settings(RawFrame),
    PushPromise(PushPromiseDecodedFrame),
    Ping(RawFrame),
    Goaway(RawFrame),
    WindowUpdate(RawFrame),
    Unknown(RawFrame),
}

/// A decoded frame, or the connection error that ends the connection.
#[derive(Clone, Debug)]
pub enum HttpFrameDecodedOrGoaway {
    Frame(HttpFrameDecoded),
    SendGoaway(ErrorCode),
}

/// Sorts a frame that is no part of a header block by its type.
/// HEADERS, PUSH_PROMISE and CONTINUATION never get here (the joiner
/// takes them); they are kept as unknown.
pub fn classify_frame(f: RawFrame) -> (r: HttpFrameDecoded)
    ensures
        match r {
            HttpFrameDecoded::Data(g) => kind_spec(f.header.frame_type) == FrameKind::Data && g == f,
            HttpFrameDecoded::Priority(g) => kind_spec(f.header.frame_type) == FrameKind::Priority && g == f,
            HttpFrameDecoded::RstStream(g) => kind_spec(f.header.frame_type) == FrameKind::RstStream && g == f,
            HttpFrameDecoded::Settings(g) => kind_spec(f.header.frame_type) == FrameKind::Settings && g == f,
            HttpFrameDecoded::Ping(g) => kind_spec(f.header.frame_type) == FrameKind::Ping && g == f,
            HttpFrameDecoded::Goaway(g) => kind_spec(f.header.frame_type) == FrameKind::Goaway && g == f,
            HttpFrameDecoded::WindowUpdate(g) => kind_spec(f.header.frame_type) == FrameKind::WindowUpdate && g == f,
            HttpFrameDecoded::Unknown(g) => (kind_spec(f.header.frame_type) is Unknown
                || kind_spec(f.header.frame_type) == FrameKind::Headers
                || kind_spec(f.header.frame_type) == FrameKind::PushPromise
                || kind_spec(f.header.frame_type) == FrameKind::Continuation) && g == f,
            HttpFrameDecoded::Headers(_) => false,
            HttpFrameDecoded::PushPromise(_) => false,
        },
{
    match crate::frame::frame_kind(f.header.frame_type) {
        FrameKind::Data => HttpFrameDecoded::Data(f),
        FrameKind::Priority => HttpFrameDecoded::Priority(f),
        FrameKind::RstStream => HttpFrameDecoded::RstStream(f),
        FrameKind::Settings => HttpFrameDecoded::Settings(f),
        FrameKind::Ping => HttpFrameDecoded::Ping(f),
        FrameKind::Goaway => HttpFrameDecoded::Goaway(f),
        FrameKind::WindowUpdate => HttpFrameDecoded::WindowUpdate(f),
        _ => HttpFrameDecoded::Unknown(f),
    }
}

/// Turns a header block and the result of HPACK-decoding it into a frame:
/// a failed decode asks for GOAWAY(COMPRESSION_ERROR) and hands on nothing
/// of the block; a list becomes the frame's headers, field for field, in a
/// PUSH_PROMISE when the block opened with one, else in a HEADERS frame.
pub fn headers_decoded(j: JoinedHeaders, decoded: Result<Vec<(Vec<u8>, Vec<u8>)>, ()>) -> (r: HttpFrameDecodedOrGoaway)
    ensures
        decoded is Err ==> r matches HttpFrameDecodedOrGoaway::SendGoaway(ErrorCode::CompressionError),
        j.promised_stream_id matches Some(pid) ==> (decoded matches Ok(list) ==> r matches HttpFrameDecodedOrGoaway::Frame(HttpFrameDecoded::PushPromise(h))
            && h.stream_id == j.stream_id && h.promised_stream_id == pid && h.flags == j.flags
            && h.headers.0@.len() == list@.len()
            && forall|i: int| 0 <= i < list@.len() ==> (#[trigger] h.headers.0@[i]).name@ == list@[i].0@
                && h.headers.0@[i].value@ == list@[i].1@),
        j.promised_stream_id is None ==> (decoded matches Ok(list) ==> r matches HttpFrameDecodedOrGoaway::Frame(HttpFrameDecoded::Headers(h))
            && h.stream_id == j.stream_id && h.flags == j.flags
            && h.stream_dep == j.stream_dep && h.padding_len == j.padding_len
            && h.headers.0@.len() == list@.len()
            && forall|i: int| 0 <= i < list@.len() ==> (#[trigger] h.headers.0@[i]).name@ == list@[i].0@
                && h.headers.0@[i].value@ == list@[i].1@),
{
    match decoded {
        Err(()) => HttpFrameDecodedOrGoaway::SendGoaway(ErrorCode::CompressionError),
        Ok(list) => {
            let mut hs: Vec<Header> = Vec::new();
            let mut i: usize = 0;
            while i < list.len()
                invariant
                    0 <= i <= list@.len(),
                    hs@.len() == i,
                    forall|k: int| 0 <= k < i ==> (#[trigger] hs@[k]).name@ == list@[k].0@
                        && hs@[k].value@ == list@[k].1@,
                decreases list@.len() - i,
            {
                let name = copy_range(list[i].0.as_slice(), 0, list[i].0.len());
                let value = copy_range(list[i].1.as_slice(), 0, list[i].1.len());
                assert(list@[i as int].0@.subrange(0, list@[i as int].0@.len() as int) =~= list@[i as int].0@);
                assert(list@[i as int].1@.subrange(0, list@[i as int].1@.len() as int) =~= list@[i as int].1@);
                hs.push(Header { name, value });
                i = i + 1;
            }
            if let Some(pid) = j.promised_stream_id {
                return HttpFrameDecodedOrGoaway::Frame(HttpFrameDecoded::PushPromise(PushPromiseDecodedFrame {
                    stream_id: j.stream_id,
                    promised_stream_id: pid,
                    flags: j.flags,
                    headers: Headers(hs),
                }));
            }
            HttpFrameDecodedOrGoaway::Frame(HttpFrameDecoded::Headers(HeadersDecodedFrame {
                stream_id: j.stream_id,
                flags: j.flags,
                headers: Headers(hs),
                stream_dep: j.stream_dep,
                padding_len: j.padding_len,
            }))
        },
    }
}

} // verus!
