//! Inbound header policing per stream, and the commands a client connection carries out.
use vstd::prelude::*;
use crate::conn::{
    data_frames_ok, data_frames_sized, end_local_spec, flushed_spec, handler_fault_spec, start_local_spec,
    Conn, ConnView, FaultAction, StreamEntry,
};
use crate::flow::may_poll_spec;
use crate::continuation::{chunks, split_frame, RawFrame};
use crate::encode_write::{hpack_block, HttpEncodeWrite};
use crate::error_code::ErrorCode;
use crate::headers::{
    content_length_spec, status_spec, validate_spec, view_headers, Headers, HeadersPlace,
    RequestOrResponse,
};

verus! {

/// Where a stream stands in the sequence of inbound header blocks.
#[derive(Clone, Copy, Debug, PartialEq, Eq, Structural)]
pub enum InMessageStage {
    Initial,
    AfterInitialHeaders,
    AfterTrailingHeaders,
}

/// What the connection keeps of one stream's inbound message.
#[derive(Clone, Copy, Debug, PartialEq, Eq, Structural)]
pub struct InStreamState {
    pub in_message_stage: InMessageStage,
    pub in_rem_content_length: Option<u64>,
}

/// What to do with a received header block on an existing stream.
#[derive(Clone, Copy, Debug, PartialEq, Eq, Structural)]
pub enum HeadersAction {
    /// The block is malformed for its place: reset the stream with this code.
    ResetStream(ErrorCode),
    /// An informational (1xx) response: more headers follow; nothing is delivered.
    Informational,
    /// Hand the block to the consumer; `last` when it ends the stream.
    Deliver { last: bool },
}

pub open spec fn is_1xx(s: Option<u32>) -> bool {
    s matches Some(v) && 100 <= v <= 199
}

/// Decision on a response header block received in stage `st`.
pub open spec fn headers_action_spec(
    st: InStreamState,
    end_stream: bool,
    hs: Seq<(Seq<u8>, Seq<u8>)>,
) -> Result<HeadersAction, ErrorCode> {
    if st.in_message_stage == InMessageStage::AfterTrailingHeaders {
        Err(ErrorCode::InternalError)
    } else {
        let initial = st.in_message_stage == InMessageStage::Initial;
        let place = if initial { HeadersPlace::Initial } else { HeadersPlace::Trailing };
        let informational = initial && is_1xx(status_spec(hs));
        if validate_spec(hs, RequestOrResponse::Response, place) is Err {
            Ok(HeadersAction::ResetStream(ErrorCode::ProtocolError))
        } else if informational && end_stream {
            Ok(HeadersAction::ResetStream(ErrorCode::ProtocolError))
        } else if !initial && !end_stream {
            Ok(HeadersAction::ResetStream(ErrorCode::ProtocolError))
        } else if informational {
            Ok(HeadersAction::Informational)
        } else {
            Ok(HeadersAction::Deliver { last: end_stream })
        }
    }
}

/// Stream state after the block: unchanged unless the block was accepted.
pub open spec fn headers_state_spec(
    st: InStreamState,
    end_stream: bool,
    hs: Seq<(Seq<u8>, Seq<u8>)>,
) -> InStreamState {
    match headers_action_spec(st, end_stream, hs) {
        Ok(HeadersAction::Informational) => InStreamState {
            in_message_stage: InMessageStage::Initial,
            in_rem_content_length: if content_length_spec(hs) is Some {
                content_length_spec(hs)
            } else {
                st.in_rem_content_length
            },
        },
        Ok(HeadersAction::Deliver { .. }) => InStreamState {
            in_message_stage: if st.in_message_stage == InMessageStage::Initial {
                InMessageStage::AfterInitialHeaders
            } else {
                InMessageStage::AfterTrailingHeaders
            },
            in_rem_content_length: if content_length_spec(hs) is Some {
                content_length_spec(hs)
            } else {
                st.in_rem_content_length
            },
        },
        _ => st,
    }
}

/// Polices a response header block on an existing client stream: initial
/// headers must be a valid response, a 1xx response may not end the
/// stream, trailers must end it; headers after trailers are an internal
/// error (the stream should have been closed). Accepted blocks advance the
/// stream's stage and record a declared content length.
pub fn process_headers(stream: &mut InStreamState, end_stream: bool, headers: &Headers) -> (r:
    Result<HeadersAction, ErrorCode>)
    ensures
        r == headers_action_spec(*old(stream), end_stream, view_headers(*headers)),
        *final(stream) == headers_state_spec(*old(stream), end_stream, view_headers(*headers)),
{
    let place = match stream.in_message_stage {
        InMessageStage::Initial => HeadersPlace::Initial,
        InMessageStage::AfterInitialHeaders => HeadersPlace::Trailing,
        InMessageStage::AfterTrailingHeaders => {
            return Err(ErrorCode::InternalError);
        },
    };
    if headers.validate(RequestOrResponse::Response, place).is_err() {
        return Ok(HeadersAction::ResetStream(ErrorCode::ProtocolError));
    }
    let status_1xx = match place {
        HeadersPlace::Initial => {
            let s1xx = match headers.status() {
                Some(s) => 100 <= s && s <= 199,
                None => false,
            };
            if s1xx && end_stream {
                return Ok(HeadersAction::ResetStream(ErrorCode::ProtocolError));
            }
            s1xx
        },
        HeadersPlace::Trailing => {
            if !end_stream {
                return Ok(HeadersAction::ResetStream(ErrorCode::ProtocolError));
            }
            false
        },
    };
    if let Some(n) = headers.content_length() {
        stream.in_rem_content_length = Some(n);
    }
    stream.in_message_stage = match (place, status_1xx) {
        (HeadersPlace::Initial, false) => InMessageStage::AfterInitialHeaders,
        (HeadersPlace::Initial, true) => InMessageStage::Initial,
        (HeadersPlace::Trailing, _) => InMessageStage::AfterTrailingHeaders,
    };
    if status_1xx {
        Ok(HeadersAction::Informational)
    } else {
        Ok(HeadersAction::Deliver { last: end_stream })
    }
}

/// Decision on a request header block received in stage `st` (server
/// side): initial headers must be a valid request, trailers must end the
/// stream; headers after trailers are an internal error.
pub open spec fn request_headers_action_spec(
    st: InStreamState,
    end_stream: bool,
    hs: Seq<(Seq<u8>, Seq<u8>)>,
) -> Result<HeadersAction, ErrorCode> {
    if st.in_message_stage == InMessageStage::AfterTrailingHeaders {
        Err(ErrorCode::InternalError)
    } else {
        let initial = st.in_message_stage == InMessageStage::Initial;
        let place = if initial { HeadersPlace::Initial } else { HeadersPlace::Trailing };
        if validate_spec(hs, RequestOrResponse::Request, place) is Err {
            Ok(HeadersAction::ResetStream(ErrorCode::ProtocolError))
        } else if !initial && !end_stream {
            Ok(HeadersAction::ResetStream(ErrorCode::ProtocolError))
        } else {
            Ok(HeadersAction::Deliver { last: end_stream })
        }
    }
}

/// Stream state after a request block: unchanged unless it was delivered.
pub open spec fn request_headers_state_spec(
    st: InStreamState,
    end_stream: bool,
    hs: Seq<(Seq<u8>, Seq<u8>)>,
) -> InStreamState {
    match request_headers_action_spec(st, end_stream, hs) {
        Ok(HeadersAction::Deliver { .. }) => InStreamState {
            in_message_stage: if st.in_message_stage == InMessageStage::Initial {
                InMessageStage::AfterInitialHeaders
            } else {
                InMessageStage::AfterTrailingHeaders
            },
            in_rem_content_length: if content_length_spec(hs) is Some {
                content_length_spec(hs)
            } else {
                st.in_rem_content_length
            },
        },
        _ => st,
    }
}

/// Polices a request header block on a server stream; accepted blocks
/// advance the stage and record a declared content length.
pub fn process_request_headers(stream: &mut InStreamState, end_stream: bool, headers: &Headers) -> (r:
    Result<HeadersAction, ErrorCode>)
    ensures
        r == request_headers_action_spec(*old(stream), end_stream, view_headers(*headers)),
        *final(stream) == request_headers_state_spec(*old(stream), end_stream, view_headers(*headers)),
{
    let place = match stream.in_message_stage {
        InMessageStage::Initial => HeadersPlace::Initial,
        InMessageStage::AfterInitialHeaders => HeadersPlace::Trailing,
        InMessageStage::AfterTrailingHeaders => {
            return Err(ErrorCode::InternalError);
        },
    };
    if headers.validate(RequestOrResponse::Request, place).is_err() {
        return Ok(HeadersAction::ResetStream(ErrorCode::ProtocolError));
    }
    if place == HeadersPlace::Trailing && !end_stream {
        return Ok(HeadersAction::ResetStream(ErrorCode::ProtocolError));
    }
    if let Some(n) = headers.content_length() {
        stream.in_rem_content_length = Some(n);
    }
    stream.in_message_stage = if place == HeadersPlace::Initial {
        InMessageStage::AfterInitialHeaders
    } else {
        InMessageStage::AfterTrailingHeaders
    };
    Ok(HeadersAction::Deliver { last: end_stream })
}

/// A request to start: its header list, the body bytes ready now, and
/// whether they end the request.
#[derive(Clone, Debug)]
pub struct StartRequestMessage {
    pub headers: Headers,
    pub body: Vec<u8>,
    pub end_stream: bool,
}

/// Commands that reach a client connection from its users.
#[derive(Clone, Debug)]
pub enum ClientToWriteMessage {
    Start(StartRequestMessage),
    WaitForHandshake,
    DumpState,
}

/// What the connection state looks like, for tests and diagnostics.
#[derive(Clone, Debug)]
pub struct ConnStateSnapshot {
    /// Live streams, each once, with their records.
    pub streams: Vec<(u32, StreamEntry)>,
    pub conn_in_window: i32,
    pub conn_out_window: i32,
}

/// A request put on the wire: its stream, the frames of its header block,
/// the DATA frames of its body so far, and how many body bytes they carry.
#[derive(Clone, Debug)]
pub struct StartedRequest {
    pub stream_id: u32,
    pub header_frames: Vec<RawFrame>,
    pub data_frames: Vec<RawFrame>,
    pub sent: usize,
}

/// What the connection does for a command.
#[derive(Clone, Debug)]
pub enum MessageOutcome {
    /// A stream was opened and its request begun.
    Started(StartedRequest),
    /// The handshake is done: answer the waiting caller.
    HandshakeDone,
    /// A snapshot for the caller.
    State(ConnStateSnapshot),
}

/// The header frames of a request: the block the encoder writes for the
/// list, cut at `max_frame_size`; END_STREAM on HEADERS when nothing follows.
pub open spec fn request_header_frames_ok(sid: u32, start: StartRequestMessage, block: Seq<u8>, max_frame_size: u32, frames: Seq<RawFrame>) -> bool {
    let es = start.end_stream && start.body@.len() == 0;
    &&& frames.len() == chunks(block, max_frame_size as int).len()
    &&& forall|i: int| 0 <= i < frames.len() ==> (#[trigger] frames[i]).header == split_frame(sid, es,
        chunks(block, max_frame_size as int), i).0 && frames[i].payload@ == split_frame(sid, es,
        chunks(block, max_frame_size as int), i).1
}

/// What a started request `q` is, from connection state `v` and encoder
/// `enc`: the next stream id; its header block, as the encoder writes it
/// for the list, framed at the peer's MAX_FRAME_SIZE (END_STREAM on
/// HEADERS when there is no body and the request ends); then the body
/// queued on the stream and as much of it sent as DATA as the windows allow
/// (`data_frames_ok`, `data_frames_sized`), the rest left queued for
/// `Conn::flush_stream`. A local END_STREAM ends this side of the stream.
pub open spec fn process_start_post(v: ConnView, enc: hpack::Encoder<'static>, start: StartRequestMessage, q: StartedRequest, w: ConnView) -> bool {
    let v1 = start_local_spec(v).1;
    let sid = q.stream_id;
    let e = v1.streams[sid];
    let mfs = v.peer.max_frame_size;
    &&& start_local_spec(v).0 == Ok::<u32, ErrorCode>(sid)
    &&& request_header_frames_ok(sid, start, hpack_block(enc, view_headers(start.headers)), mfs, q.header_frames@)
    &&& if start.body@.len() == 0 {
        &&& q.data_frames@.len() == 0
        &&& q.sent == 0
        &&& w == (if start.end_stream { end_local_spec(v1, sid) } else { v1 })
    } else {
        let v2 = ConnView { pending: v1.pending.insert(sid, (start.body@, start.end_stream)), ..v1 };
        &&& data_frames_ok(sid, start.body@, start.end_stream, mfs, q.data_frames@, q.sent as int)
        &&& data_frames_sized(start.body@.len() as int, e.out_window as int, v1.conn_out_window as int, mfs, q.data_frames@)
        &&& q.sent == 0 || (q.sent <= e.out_window && q.sent <= v1.conn_out_window)
        &&& q.sent < start.body@.len() ==> !may_poll_spec(e.out_window - q.sent, v1.conn_out_window - q.sent)
        &&& w == flushed_spec(v2, sid, q.sent as int)
    }
}

/// Starts a request on a client connection; see `process_start_post`.
/// When the ids are spent the error is REFUSED_STREAM and nothing changes.
pub fn process_start(conn: &mut Conn, writer: &mut HttpEncodeWrite, start: StartRequestMessage) -> (r: Result<StartedRequest, ErrorCode>)
    requires
        old(conn).wf(),
    ensures
        final(conn).wf(),
        r is Err <==> start_local_spec(old(conn).view()).0 is Err,
        r is Err ==> r == Err::<StartedRequest, ErrorCode>(ErrorCode::RefusedStream) && final(conn).view() == old(conn).view(),
        r matches Ok(q) ==> process_start_post(old(conn).view(), old(writer).encoder(), start, q, final(conn).view()),
{
    let mfs = conn.peer_settings().max_frame_size;
    let sid = match conn.start_local_stream() {
        Err(e) => return Err(e),
        Ok(sid) => sid,
    };
    let es = start.end_stream && start.body.len() == 0;
    let header_frames = writer.headers_frames(sid, es, &start.headers, mfs);
    if start.body.len() == 0 {
        if start.end_stream {
            conn.end_local_stream(sid);
        }
        return Ok(StartedRequest { stream_id: sid, header_frames, data_frames: Vec::new(), sent: 0 });
    }
    conn.set_queued(sid, start.body, start.end_stream);
    let (data_frames, sent) = conn.flush_stream(sid);
    Ok(StartedRequest { stream_id: sid, header_frames, data_frames, sent })
}

/// Snapshot of the connection's streams and windows.
pub fn dump_state(conn: &Conn) -> (r: ConnStateSnapshot)
    ensures
        r.conn_in_window == conn.view().conn_in_window,
        r.conn_out_window == conn.view().conn_out_window,
        r.streams@.len() == conn.view().streams.dom().len(),
        forall|i: int| 0 <= i < r.streams@.len() ==> conn.view().streams.contains_key((#[trigger] r.streams@[i]).0)
            && conn.view().streams[r.streams@[i].0] == r.streams@[i].1,
        forall|k: u32| conn.view().streams.contains_key(k) ==> exists|i: int| 0 <= i < r.streams@.len() && (#[trigger] r.streams@[i]).0 == k,
{
    let ids = conn.live_ids();
    proof {
        ids@.unique_seq_to_set();
    }
    let mut out: Vec<(u32, StreamEntry)> = Vec::new();
    let mut i: usize = 0;
    while i < ids.len()
        invariant
            0 <= i <= ids@.len(),
            ids@.to_set() == conn.view().streams.dom(),
            out@.len() == i,
            forall|j: int| 0 <= j < i ==> (#[trigger] out@[j]).0 == ids@[j] && conn.view().streams[ids@[j]] == out@[j].1,
        decreases ids@.len() - i,
    {
        let id = ids[i];
        assert(ids@.to_set().contains(ids@[i as int]));
        let e = conn.stream(id).unwrap();
        out.push((id, e));
        i = i + 1;
    }
    proof {
        assert forall|j: int| 0 <= j < out@.len() implies conn.view().streams.contains_key((#[trigger] out@[j]).0) by {
            assert(ids@.to_set().contains(ids@[j]));
        }
        assert forall|k: u32| conn.view().streams.contains_key(k) implies exists|j: int| 0 <= j < out@.len() && (#[trigger] out@[j]).0 == k by {
            assert(ids@.to_set().contains(k));
            let j = ids@.index_of(k);
            assert(out@[j].0 == k);
        }
    }
    ConnStateSnapshot {
        streams: out,
        conn_in_window: conn.conn_in_window(),
        conn_out_window: conn.conn_out_window(),
    }
}

/// Carries out one command: a start opens a stream (see
/// `process_start`), a handshake wait is answered at once (the connection
/// runs only after the handshake), a dump gives a snapshot.
pub fn process_message(conn: &mut Conn, writer: &mut HttpEncodeWrite, message: ClientToWriteMessage) -> (r: Result<MessageOutcome, ErrorCode>)
    requires
        old(conn).wf(),
    ensures
        final(conn).wf(),
        match message {
            ClientToWriteMessage::Start(start) => (r is Err <==> start_local_spec(old(conn).view()).0 is Err)
                && (r is Err ==> r == Err::<MessageOutcome, ErrorCode>(ErrorCode::RefusedStream) && final(conn).view() == old(conn).view())
                && (r matches Ok(o) ==> (o matches MessageOutcome::Started(q)
                    && process_start_post(old(conn).view(), old(writer).encoder(), start, q, final(conn).view()))),
            ClientToWriteMessage::WaitForHandshake => final(conn).view() == old(conn).view() && r matches Ok(MessageOutcome::HandshakeDone),
            ClientToWriteMessage::DumpState => final(conn).view() == old(conn).view() && (r matches Ok(MessageOutcome::State(snap))
                && snap.streams@.len() == old(conn).view().streams.dom().len()
                && snap.conn_in_window == old(conn).view().conn_in_window
                && snap.conn_out_window == old(conn).view().conn_out_window),
        },
{
    match message {
        ClientToWriteMessage::Start(start) => match process_start(conn, writer, start) {
            Ok(q) => Ok(MessageOutcome::Started(q)),
            Err(e) => Err(e),
        },
        ClientToWriteMessage::WaitForHandshake => Ok(MessageOutcome::HandshakeDone),
        ClientToWriteMessage::DumpState => Ok(MessageOutcome::State(dump_state(conn))),
    }
}

/// A request whose body fails after its headers went out is reset with
/// INTERNAL_ERROR through `Conn::handler_fault`, never answered with a
/// 500: its stream, while live, records that its headers were sent.
pub proof fn lemma_request_body_fault(v: ConnView, enc: hpack::Encoder<'static>, start: StartRequestMessage, q: StartedRequest, w: ConnView)
    requires
        process_start_post(v, enc, start, q, w),
        w.streams.contains_key(q.stream_id),
    ensures
        handler_fault_spec(w, q.stream_id).0 == Some(FaultAction::ResetStream(ErrorCode::InternalError)),
{
}

} // verus!
