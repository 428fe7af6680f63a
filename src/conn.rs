//! One connection's stream table, windows and stream-id bookkeeping.
use vstd::prelude::*;
use std::collections::HashMap;
use vstd::std_specs::iter::IteratorSpec;
use crate::client_conn::{
    headers_action_spec, headers_state_spec, process_headers, process_request_headers,
    request_headers_action_spec, request_headers_state_spec, HeadersAction, InMessageStage,
    InStreamState,
};
use crate::headers::{view_headers, Headers};
use crate::continuation::{append, concat_parts, copy_range, RawFrame};
use crate::frame::FrameHeader;
use crate::flow::data_frame_flags;
use crate::error_code::ErrorCode;
use crate::flow::{
    in_window_increment, refill_spec, apply_initial_window_change, MAX_WINDOW_SIZE, initial_window_change_spec, apply_window_update, frame_len_spec, may_poll_spec, should_poll_producer, take_data_frame,
    window_update_spec, DEFAULT_INITIAL_WINDOW_SIZE,
};
use crate::frame::MAX_STREAM_ID;
use crate::settings::{apply_all_spec, apply_settings, settings_wf, Settings};

verus! {

broadcast use vstd::std_specs::hash::group_hash_axioms;

/// States of a live stream; a closed stream leaves the table.
#[derive(Clone, Copy, Debug, PartialEq, Eq, Structural)]
pub enum StreamState {
    Open,
    HalfClosedLocal,
    HalfClosedRemote,
}

/// The connection's record of one live stream.
#[derive(Clone, Copy, Debug, PartialEq, Eq, Structural)]
pub struct StreamEntry {
    pub state: StreamState,
    pub in_window: i32,
    pub out_window: i32,
    pub inbound: InStreamState,
    /// Whether this side has sent its initial header block.
    pub out_headers_sent: bool,
}

/// The connection as a mathematical value.
pub struct ConnView {
    pub is_client: bool,
    pub streams: Map<u32, StreamEntry>,
    pub next_local_stream_id: u32,
    pub last_peer_stream_id: u32,
    pub goaway_sent: bool,
    pub conn_in_window: i32,
    pub conn_out_window: i32,
    pub local: Settings,
    pub peer: Settings,
    /// Body bytes queued per stream and not yet sent, and whether they end
    /// the stream.
    pub pending: Map<u32, (Seq<u8>, bool)>,
}

/// Outcome of a HEADERS frame from the peer.
#[derive(Clone, Copy, Debug, PartialEq, Eq, Structural)]
pub enum RemoteHeaders {
    /// It belongs to a live stream.
    Existing,
    /// It opened a new stream.
    Opened,
    /// It is for a stream that is closed or that may no longer open: drop it.
    Ignored,
}

/// Outcome of an accepted DATA frame.
#[derive(Clone, Copy, Debug, PartialEq, Eq, Structural)]
pub enum DataAction {
    /// Deliver the bytes to the stream's consumer.
    Deliver,
    /// The body broke its declared length: reset the stream with this code.
    ResetStream(ErrorCode),
}

/// How the connection answers a failing request handler.
#[derive(Clone, Copy, Debug, PartialEq, Eq, Structural)]
pub enum FaultAction {
    /// No headers went out yet: send a 500 response with an empty body.
    Respond500,
    /// Headers went out: reset the stream with this code.
    ResetStream(ErrorCode),
}

/// Whether the stream id is one this side opens (odd for a client, even
/// for a server).
pub open spec fn is_local_id(is_client: bool, sid: u32) -> bool {
    if is_client { sid % 2 == 1 } else { sid % 2 == 0 }
}

pub open spec fn new_entry(v: ConnView, out_headers_sent: bool) -> StreamEntry {
    StreamEntry {
        state: StreamState::Open,
        in_window: v.local.initial_window_size as i32,
        out_window: v.peer.initial_window_size as i32,
        inbound: InStreamState { in_message_stage: InMessageStage::Initial, in_rem_content_length: None },
        out_headers_sent,
    }
}

/// A local request or response stream: the next local id, or
/// REFUSED_STREAM once the ids are spent.
pub open spec fn start_local_spec(v: ConnView) -> (Result<u32, ErrorCode>, ConnView) {
    if v.next_local_stream_id > MAX_STREAM_ID {
        (Err(ErrorCode::RefusedStream), v)
    } else {
        let sid = v.next_local_stream_id;
        (Ok(sid), ConnView {
            streams: v.streams.insert(sid, new_entry(v, true)),
            next_local_stream_id: (sid + 2) as u32,
            ..v
        })
    }
}

/// A HEADERS frame from the peer on `sid`. A live stream takes it. A new
/// id of the peer's parity above every id it used opens a stream, unless
/// GOAWAY was sent, after which none opens; an id not above is
/// PROTOCOL_ERROR, as is id 0, a stream the peer would push (on a client)
/// and one of our ids not yet used. Our own closed ids are ignored.
pub open spec fn remote_headers_spec(v: ConnView, sid: u32) -> (Result<RemoteHeaders, ErrorCode>, ConnView) {
    if v.streams.contains_key(sid) {
        (Ok(RemoteHeaders::Existing), v)
    } else if sid == 0 {
        (Err(ErrorCode::ProtocolError), v)
    } else if is_local_id(v.is_client, sid) {
        if sid < v.next_local_stream_id {
            (Ok(RemoteHeaders::Ignored), v)
        } else {
            (Err(ErrorCode::ProtocolError), v)
        }
    } else if v.is_client || sid <= v.last_peer_stream_id {
        (Err(ErrorCode::ProtocolError), v)
    } else if v.goaway_sent {
        (Ok(RemoteHeaders::Ignored), v)
    } else {
        (Ok(RemoteHeaders::Opened), ConnView {
            streams: v.streams.insert(sid, new_entry(v, false)),
            last_peer_stream_id: sid,
            ..v
        })
    }
}

/// A DATA frame of `len` bytes (padding included) on `sid`. No live
/// stream is STREAM_CLOSED; more than either in-window is
/// FLOW_CONTROL_ERROR. Otherwise both in-windows fall by `len`. DATA after
/// the peer ended the stream resets it (STREAM_CLOSED), as does DATA
/// before the initial headers (PROTOCOL_ERROR); a declared
/// content length that the body passes, or that END_STREAM leaves short,
/// resets the stream (PROTOCOL_ERROR); END_STREAM half-closes the stream,
/// or closes it when this side had finished.
pub open spec fn data_spec(v: ConnView, sid: u32, len: u32, end_stream: bool) -> (Result<DataAction, ErrorCode>, ConnView) {
    if !v.streams.contains_key(sid) {
        (Err(ErrorCode::StreamClosed), v)
    } else {
        let e = v.streams[sid];
        if len > v.conn_in_window || len > e.in_window {
            (Err(ErrorCode::FlowControlError), v)
        } else {
            let v1 = ConnView { conn_in_window: (v.conn_in_window - len) as i32, ..v };
            let e1 = StreamEntry { in_window: (e.in_window - len) as i32, ..e };
            let rem = e.inbound.in_rem_content_length;
            if e.state == StreamState::HalfClosedRemote {
                (Ok(DataAction::ResetStream(ErrorCode::StreamClosed)), ConnView {
                    streams: v.streams.remove(sid),
                    ..v1
                })
            } else if e.inbound.in_message_stage != InMessageStage::AfterInitialHeaders {
                (Ok(DataAction::ResetStream(ErrorCode::ProtocolError)), ConnView {
                    streams: v.streams.remove(sid),
                    ..v1
                })
            } else if rem matches Some(r) && (len > r || (end_stream && r != len)) {
                (Ok(DataAction::ResetStream(ErrorCode::ProtocolError)), ConnView {
                    streams: v.streams.remove(sid),
                    ..v1
                })
            } else {
                let e2 = StreamEntry {
                    inbound: InStreamState {
                        in_rem_content_length: match rem {
                            Some(r) => Some((r - len) as u64),
                            None => None,
                        },
                        ..e.inbound
                    },
                    ..e1
                };
                if end_stream && e.state != StreamState::Open {
                    (Ok(DataAction::Deliver), ConnView { streams: v.streams.remove(sid), ..v1 })
                } else if end_stream {
                    (Ok(DataAction::Deliver), ConnView {
                        streams: v.streams.insert(sid, StreamEntry { state: StreamState::HalfClosedRemote, ..e2 }),
                        ..v1
                    })
                } else {
                    (Ok(DataAction::Deliver), ConnView { streams: v.streams.insert(sid, e2), ..v1 })
                }
            }
        }
    }
}

/// A WINDOW_UPDATE on `sid`: an increment of 0 or wider than 31 bits is
/// PROTOCOL_ERROR whatever the stream; otherwise stream 0 is the
/// connection's out-window, a live stream its own, and an update for a
/// closed stream is ignored.
pub open spec fn window_update_conn_spec(v: ConnView, sid: u32, increment: u32) -> (Result<(), ErrorCode>, ConnView) {
    if increment == 0 || increment > MAX_WINDOW_SIZE {
        (Err(ErrorCode::ProtocolError), v)
    } else if sid == 0 {
        match window_update_spec(v.conn_out_window, increment) {
            Ok(w) => (Ok(()), ConnView { conn_out_window: w, ..v }),
            Err(e) => (Err(e), v),
        }
    } else if !v.streams.contains_key(sid) {
        (Ok(()), v)
    } else {
        let e = v.streams[sid];
        match window_update_spec(e.out_window, increment) {
            Ok(w) => (Ok(()), ConnView {
                streams: v.streams.insert(sid, StreamEntry { out_window: w, ..e }),
                ..v
            }),
            Err(er) => (Err(er), v),
        }
    }
}

/// A handler failed on `sid`. Before its headers went out the stream gets
/// a 500 response, which also ends this side of the stream; after, it is
/// reset with INTERNAL_ERROR and leaves the table. No other stream, and
/// nothing else of the connection, changes.
pub open spec fn handler_fault_spec(v: ConnView, sid: u32) -> (Option<FaultAction>, ConnView) {
    if !v.streams.contains_key(sid) {
        (None, v)
    } else {
        let e = v.streams[sid];
        if e.out_headers_sent {
            (Some(FaultAction::ResetStream(ErrorCode::InternalError)), ConnView {
                streams: v.streams.remove(sid),
                ..v
            })
        } else if e.state == StreamState::HalfClosedRemote {
            (Some(FaultAction::Respond500), ConnView { streams: v.streams.remove(sid), ..v })
        } else {
            (Some(FaultAction::Respond500), ConnView {
                streams: v.streams.insert(sid, StreamEntry {
                    state: StreamState::HalfClosedLocal,
                    out_headers_sent: true,
                    ..e
                }),
                ..v
            })
        }
    }
}


/// A stream's record after INITIAL_WINDOW_SIZE moves from `old_i` to `new_i`.
pub open spec fn shifted_entry(e: StreamEntry, old_i: u32, new_i: u32) -> StreamEntry {
    StreamEntry { out_window: (e.out_window + new_i - old_i) as i32, ..e }
}

/// Every live stream's out-window can take the change.
pub open spec fn initial_window_ok(v: ConnView, new_i: u32) -> bool {
    forall|k: u32| #[trigger] v.streams.contains_key(k) ==> initial_window_change_spec(
        v.streams[k].out_window,
        v.peer.initial_window_size,
        new_i,
    ) is Ok
}

/// The table with every out-window shifted.
pub open spec fn shifted_streams(v: ConnView, new_i: u32) -> Map<u32, StreamEntry> {
    Map::new(|k: u32| v.streams.contains_key(k), |k: u32| shifted_entry(v.streams[k], v.peer.initial_window_size, new_i))
}

/// Peer SETTINGS applied in order: the first refused pair is its error; a
/// new INITIAL_WINDOW_SIZE that some live stream's out-window cannot take
/// is FLOW_CONTROL_ERROR. Otherwise the peer's settings are replaced and
/// every live stream's out-window moves by the change of
/// INITIAL_WINDOW_SIZE. On error nothing changes.
pub open spec fn peer_settings_spec(v: ConnView, pairs: Seq<(u16, u32)>) -> (Result<(), ErrorCode>, ConnView) {
    match apply_all_spec(v.peer, pairs, pairs.len() as int) {
        Err(e) => (Err(e), v),
        Ok(np) => if !initial_window_ok(v, np.initial_window_size) {
            (Err(ErrorCode::FlowControlError), v)
        } else {
            (Ok(()), ConnView { streams: shifted_streams(v, np.initial_window_size), peer: np, ..v })
        },
    }
}

/// Decision on a header block of a live stream, by role: a client polices
/// responses, a server requests.
pub open spec fn role_action(v: ConnView, e: StreamEntry, end_stream: bool, hs: Seq<(Seq<u8>, Seq<u8>)>) -> Result<HeadersAction, ErrorCode> {
    if v.is_client {
        headers_action_spec(e.inbound, end_stream, hs)
    } else {
        request_headers_action_spec(e.inbound, end_stream, hs)
    }
}

pub open spec fn role_state(v: ConnView, e: StreamEntry, end_stream: bool, hs: Seq<(Seq<u8>, Seq<u8>)>) -> InStreamState {
    if v.is_client {
        headers_state_spec(e.inbound, end_stream, hs)
    } else {
        request_headers_state_spec(e.inbound, end_stream, hs)
    }
}

/// A header block on `sid`. No live stream: nothing to do. After the
/// peer ended the stream: reset it (STREAM_CLOSED). An internal
/// error leaves everything as it was. A malformed block resets the stream,
/// which leaves the table. An accepted block records the stream's new
/// inbound stage and length; when it ends the stream, an open stream
/// half-closes and one this side had finished closes.
pub open spec fn headers_conn_spec(v: ConnView, sid: u32, end_stream: bool, hs: Seq<(Seq<u8>, Seq<u8>)>) -> (Result<Option<HeadersAction>, ErrorCode>, ConnView) {
    if !v.streams.contains_key(sid) {
        (Ok(None), v)
    } else {
        let e = v.streams[sid];
        let e1 = StreamEntry { inbound: role_state(v, e, end_stream, hs), ..e };
        if e.state == StreamState::HalfClosedRemote {
            (Ok(Some(HeadersAction::ResetStream(ErrorCode::StreamClosed))), ConnView { streams: v.streams.remove(sid), ..v })
        } else {
        match role_action(v, e, end_stream, hs) {
            Err(er) => (Err(er), v),
            Ok(HeadersAction::ResetStream(c)) => (Ok(Some(HeadersAction::ResetStream(c))), ConnView { streams: v.streams.remove(sid), ..v }),
            Ok(HeadersAction::Deliver { last: true }) => if e.state == StreamState::Open {
                (Ok(Some(HeadersAction::Deliver { last: true })), ConnView {
                    streams: v.streams.insert(sid, StreamEntry { state: StreamState::HalfClosedRemote, ..e1 }),
                    ..v
                })
            } else {
                (Ok(Some(HeadersAction::Deliver { last: true })), ConnView { streams: v.streams.remove(sid), ..v })
            },
            Ok(a) => (Ok(Some(a)), ConnView { streams: v.streams.insert(sid, e1), ..v }),
        }
        }
    }
}

/// Payloads of a run of frames.
pub open spec fn payloads(frames: Seq<RawFrame>) -> Seq<Seq<u8>> {
    frames.map_values(|f: RawFrame| f.payload@)
}

/// `frames` carry the first `sent` bytes of `body` on stream `sid` as DATA,
/// in order, none empty or longer than `max_frame_size`, END_STREAM only
/// on the last frame and only when it carries the body's last byte and the
/// body ends the stream.
pub open spec fn data_frames_ok(sid: u32, body: Seq<u8>, end_stream: bool, max_frame_size: u32, frames: Seq<RawFrame>, sent: int) -> bool {
    &&& 0 <= sent <= body.len()
    &&& concat_parts(payloads(frames), frames.len() as int) == body.take(sent)
    &&& forall|i: int| 0 <= i < frames.len() ==> {
        &&& (#[trigger] frames[i]).header.frame_type == 0
        &&& frames[i].header.stream_id == sid
        &&& frames[i].header.length == frames[i].payload@.len()
        &&& 0 < frames[i].payload@.len() <= max_frame_size
        &&& frames[i].header.flags == (if end_stream && i == frames.len() - 1 && sent == body.len() { 1u8 } else { 0u8 })
    }
}

/// Each frame is as long as the flow-control rule allows at its emission:
/// `frame_len_spec` over the bytes still pending and the windows left
/// after the frames before it; so together they never pass either window.
pub open spec fn data_frames_sized(body_len: int, stream_window: int, conn_window: int, max_frame_size: u32, frames: Seq<RawFrame>) -> bool {
    forall|i: int| 0 <= i < frames.len() ==> {
        let before = concat_parts(payloads(frames), i).len() as int;
        (#[trigger] frames[i]).payload@.len() == frame_len_spec(body_len - before, stream_window - before,
            conn_window - before, max_frame_size as int)
    }
}

proof fn lemma_concat_parts_push(ps: Seq<Seq<u8>>, x: Seq<u8>, k: int)
    requires
        0 <= k <= ps.len(),
    ensures
        concat_parts(ps.push(x), k) == concat_parts(ps, k),
    decreases k,
{
    if k > 0 {
        lemma_concat_parts_push(ps, x, k - 1);
    }
}

/// This side ended stream `sid`: an open stream half-closes, one the peer
/// had finished closes and leaves the table.
pub open spec fn end_local_spec(v: ConnView, sid: u32) -> ConnView {
    if !v.streams.contains_key(sid) {
        v
    } else if v.streams[sid].state == StreamState::Open {
        ConnView { streams: v.streams.insert(sid, StreamEntry { state: StreamState::HalfClosedLocal, ..v.streams[sid] }), ..v }
    } else {
        ConnView { streams: v.streams.remove(sid), ..v }
    }
}

/// Bytes queued on `sid`, empty when none.
pub open spec fn queued_on(v: ConnView, sid: u32) -> Seq<u8> {
    if v.pending.contains_key(sid) { v.pending[sid].0 } else { Seq::empty() }
}

/// The connection after `sent` queued bytes of live stream `sid` went out:
/// both out-windows charged, the rest left queued, and, when the queue
/// emptied and it ends the stream, this side's end recorded.
pub open spec fn flushed_spec(v: ConnView, sid: u32, sent: int) -> ConnView {
    let (q, es) = v.pending[sid];
    let e = v.streams[sid];
    let charged = ConnView {
        conn_out_window: (v.conn_out_window - sent) as i32,
        streams: v.streams.insert(sid, StreamEntry { out_window: (e.out_window - sent) as i32, ..e }),
        pending: if sent == q.len() { v.pending.remove(sid) } else { v.pending.insert(sid, (q.skip(sent), es)) },
        ..v
    };
    if es && sent == q.len() { end_local_spec(charged, sid) } else { charged }
}

/// Once GOAWAY is sent no HEADERS frame opens a stream, whatever its id,
/// and the stream table gains nothing; streams already open go on as if no
/// GOAWAY had been sent: their HEADERS are taken, and DATA and
/// WINDOW_UPDATE frames on them have the same outcome and effect on the
/// streams and windows, and their header blocks are handled alike.
pub proof fn lemma_goaway_no_new_streams(v: ConnView, sid: u32, len: u32, end_stream: bool, increment: u32, hs: Seq<(Seq<u8>, Seq<u8>)>)
    requires
        v.goaway_sent,
    ensures
        remote_headers_spec(v, sid).0 != Ok::<RemoteHeaders, ErrorCode>(RemoteHeaders::Opened),
        remote_headers_spec(v, sid).1.streams == v.streams,
        v.streams.contains_key(sid) ==> remote_headers_spec(v, sid).0 == Ok::<RemoteHeaders, ErrorCode>(
            RemoteHeaders::Existing,
        ),
        ({
            let w = ConnView { goaway_sent: false, ..v };
            &&& data_spec(v, sid, len, end_stream).0 == data_spec(w, sid, len, end_stream).0
            &&& data_spec(v, sid, len, end_stream).1.streams == data_spec(w, sid, len, end_stream).1.streams
            &&& data_spec(v, sid, len, end_stream).1.conn_in_window == data_spec(w, sid, len, end_stream).1.conn_in_window
            &&& window_update_conn_spec(v, sid, increment).0 == window_update_conn_spec(w, sid, increment).0
            &&& window_update_conn_spec(v, sid, increment).1.streams == window_update_conn_spec(w, sid, increment).1.streams
            &&& window_update_conn_spec(v, sid, increment).1.conn_out_window == window_update_conn_spec(w, sid, increment).1.conn_out_window
            &&& headers_conn_spec(v, sid, end_stream, hs).0 == headers_conn_spec(w, sid, end_stream, hs).0
            &&& headers_conn_spec(v, sid, end_stream, hs).1.streams == headers_conn_spec(w, sid, end_stream, hs).1.streams
        }),
{
}

/// Streams this side opens get ids of its own parity (odd on a client,
/// even on a server), each above the one before.
pub proof fn lemma_local_ids(v: ConnView)
    requires
        is_local_id(v.is_client, v.next_local_stream_id),
    ensures
        start_local_spec(v).0 matches Ok(sid) ==> is_local_id(v.is_client, sid)
            && sid < start_local_spec(v).1.next_local_stream_id
            && is_local_id(v.is_client, start_local_spec(v).1.next_local_stream_id),
{
}

/// A failing handler affects its own stream only: it is answered with a
/// 500 when no headers went out and reset with INTERNAL_ERROR when they
/// did; every other stream keeps its record, the windows, ids and GOAWAY
/// state stay, and a request started afterwards gets the same id as it
/// would have without the fault.
pub proof fn lemma_handler_fault_isolated(v: ConnView, sid: u32)
    requires
        v.streams.contains_key(sid),
    ensures
        ({
            let (a, w) = handler_fault_spec(v, sid);
            &&& a == Some(if v.streams[sid].out_headers_sent {
                FaultAction::ResetStream(ErrorCode::InternalError)
            } else {
                FaultAction::Respond500
            })
            &&& forall|k: u32| k != sid ==> (#[trigger] w.streams.contains_key(k) == v.streams.contains_key(k)
                && (v.streams.contains_key(k) ==> w.streams[k] == v.streams[k]))
            &&& w.next_local_stream_id == v.next_local_stream_id
            &&& w.last_peer_stream_id == v.last_peer_stream_id
            &&& w.goaway_sent == v.goaway_sent
            &&& w.conn_in_window == v.conn_in_window
            &&& w.conn_out_window == v.conn_out_window
            &&& start_local_spec(w).0 == start_local_spec(v).0
        }),
{
}

/// The state of one connection's streams and windows.
pub struct Conn {
    is_client: bool,
    streams: HashMap<u32, StreamEntry>,
    next_local_stream_id: u32,
    last_peer_stream_id: u32,
    goaway_sent: bool,
    conn_in_window: i32,
    conn_out_window: i32,
    local: Settings,
    peer: Settings,
    pending: HashMap<u32, (Vec<u8>, bool)>,
}

impl Conn {
    pub closed spec fn view(&self) -> ConnView {
        ConnView {
            is_client: self.is_client,
            streams: self.streams@,
            next_local_stream_id: self.next_local_stream_id,
            last_peer_stream_id: self.last_peer_stream_id,
            goaway_sent: self.goaway_sent,
            conn_in_window: self.conn_in_window,
            conn_out_window: self.conn_out_window,
            local: self.local,
            peer: self.peer,
            pending: Map::new(|k: u32| self.pending@.contains_key(k), |k: u32| (self.pending@[k].0@, self.pending@[k].1)),
        }
    }

    /// Settings in range, so that new windows fit; the next local id odd
    /// on a client and even on a server; no in-window below zero: DATA past
    /// it is refused.
    pub open spec fn wf(&self) -> bool {
        &&& settings_wf(self.view().local)
        &&& settings_wf(self.view().peer)
        &&& is_local_id(self.view().is_client, self.view().next_local_stream_id)
        &&& self.view().conn_in_window >= 0
        &&& forall|k: u32| #[trigger] self.view().streams.contains_key(k) ==> self.view().streams[k].in_window >= 0
    }

    /// A connection before any stream: ids start at 1 for a client and 2
    /// for a server, windows at 65535, the peer's settings at their
    /// defaults.
    pub fn new(is_client: bool, local: Settings) -> (r: Conn)
        requires
            settings_wf(local),
        ensures
            r.wf(),
            r.view().is_client == is_client,
            r.view().streams == Map::<u32, StreamEntry>::empty(),
            r.view().next_local_stream_id == (if is_client { 1u32 } else { 2u32 }),
            r.view().last_peer_stream_id == 0,
            !r.view().goaway_sent,
            r.view().conn_in_window == DEFAULT_INITIAL_WINDOW_SIZE,
            r.view().conn_out_window == DEFAULT_INITIAL_WINDOW_SIZE,
            r.view().local == local,
            r.view().peer == Settings::defaults_spec(),
            r.view().pending == Map::<u32, (Seq<u8>, bool)>::empty(),
    {
        Conn {
            is_client,
            streams: HashMap::new(),
            pending: HashMap::new(),
            next_local_stream_id: if is_client { 1 } else { 2 },
            last_peer_stream_id: 0,
            goaway_sent: false,
            conn_in_window: DEFAULT_INITIAL_WINDOW_SIZE as i32,
            conn_out_window: DEFAULT_INITIAL_WINDOW_SIZE as i32,
            local,
            peer: Settings::defaults(true),
        }
    }

    /// The stream's record, if it is live.
    pub fn stream(&self, sid: u32) -> (r: Option<StreamEntry>)
        ensures
            r == (if self.view().streams.contains_key(sid) { Some(self.view().streams[sid]) } else { None::<StreamEntry> }),
    {
        match self.streams.get(&sid) {
            Some(e) => Some(*e),
            None => None,
        }
    }

    /// Number of live streams.
    pub fn stream_count(&self) -> (r: usize)
        ensures
            r == self.view().streams.len(),
    {
        self.streams.len()
    }

    /// The connection's out-window.
    pub fn conn_out_window(&self) -> (r: i32)
        ensures
            r == self.view().conn_out_window,
    {
        self.conn_out_window
    }

    /// The peer's settings as last applied.
    pub fn peer_settings(&self) -> (r: Settings)
        ensures
            r == self.view().peer,
    {
        self.peer
    }

    /// The connection's in-window.
    pub fn conn_in_window(&self) -> (r: i32)
        ensures
            r == self.view().conn_in_window,
    {
        self.conn_in_window
    }

    /// Whether GOAWAY was sent.
    pub fn goaway_sent(&self) -> (r: bool)
        ensures
            r == self.view().goaway_sent,
    {
        self.goaway_sent
    }

    /// Opens a local stream; see `start_local_spec`.
    pub fn start_local_stream(&mut self) -> (r: Result<u32, ErrorCode>)
        requires
            old(self).wf(),
        ensures
            final(self).wf(),
            (r, final(self).view()) == start_local_spec(old(self).view()),
    {
        if self.next_local_stream_id > MAX_STREAM_ID {
            return Err(ErrorCode::RefusedStream);
        }
        let sid = self.next_local_stream_id;
        let e = StreamEntry {
            state: StreamState::Open,
            in_window: self.local.initial_window_size as i32,
            out_window: self.peer.initial_window_size as i32,
            inbound: InStreamState { in_message_stage: InMessageStage::Initial, in_rem_content_length: None },
            out_headers_sent: true,
        };
        self.streams.insert(sid, e);
        self.next_local_stream_id = sid + 2;
        Ok(sid)
    }

    /// Takes a HEADERS frame's stream id; see `remote_headers_spec`.
    pub fn on_remote_headers(&mut self, sid: u32) -> (r: Result<RemoteHeaders, ErrorCode>)
        requires
            old(self).wf(),
        ensures
            final(self).wf(),
            (r, final(self).view()) == remote_headers_spec(old(self).view(), sid),
    {
        if self.streams.contains_key(&sid) {
            return Ok(RemoteHeaders::Existing);
        }
        if sid == 0 {
            return Err(ErrorCode::ProtocolError);
        }
        let local_id = if self.is_client { sid % 2 == 1 } else { sid % 2 == 0 };
        if local_id {
            if sid < self.next_local_stream_id {
                return Ok(RemoteHeaders::Ignored);
            }
            return Err(ErrorCode::ProtocolError);
        }
        if self.is_client || sid <= self.last_peer_stream_id {
            return Err(ErrorCode::ProtocolError);
        }
        if self.goaway_sent {
            return Ok(RemoteHeaders::Ignored);
        }
        let e = StreamEntry {
            state: StreamState::Open,
            in_window: self.local.initial_window_size as i32,
            out_window: self.peer.initial_window_size as i32,
            inbound: InStreamState { in_message_stage: InMessageStage::Initial, in_rem_content_length: None },
            out_headers_sent: false,
        };
        self.streams.insert(sid, e);
        self.last_peer_stream_id = sid;
        Ok(RemoteHeaders::Opened)
    }

    /// Takes a DATA frame's stream id, length and END_STREAM flag; see
    /// `data_spec`.
    pub fn on_data(&mut self, sid: u32, len: u32, end_stream: bool) -> (r: Result<DataAction, ErrorCode>)
        requires
            old(self).wf(),
        ensures
            final(self).wf(),
            (r, final(self).view()) == data_spec(old(self).view(), sid, len, end_stream),
    {
        let e = match self.streams.get(&sid) {
            None => return Err(ErrorCode::StreamClosed),
            Some(e) => *e,
        };
        if len as i64 > self.conn_in_window as i64 || len as i64 > e.in_window as i64 {
            return Err(ErrorCode::FlowControlError);
        }
        self.conn_in_window = self.conn_in_window - len as i32;
        let e1 = StreamEntry { in_window: e.in_window - len as i32, ..e };
        let rem = e.inbound.in_rem_content_length;
        if e.state == StreamState::HalfClosedRemote {
            self.streams.remove(&sid);
            return Ok(DataAction::ResetStream(ErrorCode::StreamClosed));
        }
        if e.inbound.in_message_stage != InMessageStage::AfterInitialHeaders {
            self.streams.remove(&sid);
            return Ok(DataAction::ResetStream(ErrorCode::ProtocolError));
        }
        if let Some(r) = rem {
            if len as u64 > r || (end_stream && r != len as u64) {
                self.streams.remove(&sid);
                return Ok(DataAction::ResetStream(ErrorCode::ProtocolError));
            }
        }
        let new_rem = match rem {
            Some(r) => Some(r - len as u64),
            None => None,
        };
        let e2 = StreamEntry {
            inbound: InStreamState { in_rem_content_length: new_rem, ..e.inbound },
            ..e1
        };
        if end_stream && e.state != StreamState::Open {
            self.streams.remove(&sid);
        } else if end_stream {
            self.streams.insert(sid, StreamEntry { state: StreamState::HalfClosedRemote, ..e2 });
        } else {
            self.streams.insert(sid, e2);
        }
        Ok(DataAction::Deliver)
    }

    /// Takes a WINDOW_UPDATE; see `window_update_conn_spec`.
    pub fn on_window_update(&mut self, sid: u32, increment: u32) -> (r: Result<(), ErrorCode>)
        requires
            old(self).wf(),
        ensures
            final(self).wf(),
            (r, final(self).view()) == window_update_conn_spec(old(self).view(), sid, increment),
    {
        if increment == 0 || increment > MAX_WINDOW_SIZE {
            return Err(ErrorCode::ProtocolError);
        }
        if sid == 0 {
            let w = apply_window_update(self.conn_out_window, increment)?;
            self.conn_out_window = w;
            return Ok(());
        }
        let e = match self.streams.get(&sid) {
            None => return Ok(()),
            Some(e) => *e,
        };
        match apply_window_update(e.out_window, increment) {
            Ok(w) => {
                self.streams.insert(sid, StreamEntry { out_window: w, ..e });
                Ok(())
            },
            Err(er) => Err(er),
        }
    }

    /// RST_STREAM sent or received: the stream leaves the table.
    pub fn reset_stream(&mut self, sid: u32)
        requires
            old(self).wf(),
        ensures
            final(self).wf(),
            final(self).view() == (ConnView { streams: old(self).view().streams.remove(sid), ..old(self).view() }),
    {
        self.streams.remove(&sid);
    }

    /// Marks GOAWAY as sent and gives the last peer stream id it names.
    pub fn send_goaway(&mut self) -> (r: u32)
        requires
            old(self).wf(),
        ensures
            final(self).wf(),
            r == old(self).view().last_peer_stream_id,
            final(self).view() == (ConnView { goaway_sent: true, ..old(self).view() }),
    {
        self.goaway_sent = true;
        self.last_peer_stream_id
    }

    /// Whether the producer of stream `sid` may be polled: the stream is
    /// live and both its out-window and the connection's have credit.
    pub fn may_poll(&self, sid: u32) -> (r: bool)
        ensures
            r == (self.view().streams.contains_key(sid) && may_poll_spec(
                self.view().streams[sid].out_window as int,
                self.view().conn_out_window as int,
            )),
    {
        match self.streams.get(&sid) {
            None => false,
            Some(e) => should_poll_producer(e.out_window, self.conn_out_window),
        }
    }

    /// Takes credit for the next DATA frame of a live stream with `pending`
    /// bytes queued: its length is `frame_len_spec` over the stream's and
    /// the connection's out-windows and the peer's MAX_FRAME_SIZE, and both
    /// windows fall by it. A stream that is not live gets nothing.
    pub fn take_data(&mut self, sid: u32, pending: usize) -> (r: usize)
        requires
            old(self).wf(),
        ensures
            final(self).wf(),
            !old(self).view().streams.contains_key(sid) ==> r == 0 && final(self).view() == old(self).view(),
            old(self).view().streams.contains_key(sid) ==> ({
                let v = old(self).view();
                let e = v.streams[sid];
                &&& r == frame_len_spec(pending as int, e.out_window as int, v.conn_out_window as int,
                    v.peer.max_frame_size as int)
                &&& final(self).view() == (ConnView {
                    conn_out_window: (v.conn_out_window - r) as i32,
                    streams: v.streams.insert(sid, StreamEntry { out_window: (e.out_window - r) as i32, ..e }),
                    ..v
                })
            }),
    {
        let mut e = match self.streams.get(&sid) {
            None => return 0,
            Some(e) => *e,
        };
        let mut cw = self.conn_out_window;
        let n = take_data_frame(&mut cw, &mut e.out_window, pending, self.peer.max_frame_size);
        self.conn_out_window = cw;
        self.streams.insert(sid, e);
        n
    }

    /// Ids of the live streams, each once.
    pub fn live_ids(&self) -> (r: Vec<u32>)
        ensures
            r@.to_set() == self.view().streams.dom(),
            r@.no_duplicates(),
    {
        let mut ids: Vec<u32> = Vec::new();
        let ghost all = vstd::std_specs::hash::spec_keys_iter(&self.streams).remaining();
        proof {
            broadcast use vstd::std_specs::hash::axiom_spec_keys_iter;
        }
        for k in it: self.streams.keys()
            invariant
                it.seq() == all,
                ids@.len() == it.index(),
                forall|j: int| 0 <= j < ids@.len() ==> ids@[j] == *all[j],
        {
            ids.push(*k);
        }
        assert(ids@ =~= all.unref());
        proof {
            broadcast use vstd::std_specs::hash::axiom_spec_keys_iter;
        }
        ids
    }

    /// Applies SETTINGS received from the peer; see `peer_settings_spec`.
    pub fn apply_peer_settings(&mut self, pairs: &Vec<(u16, u32)>) -> (r: Result<(), ErrorCode>)
        requires
            old(self).wf(),
        ensures
            final(self).wf(),
            (r, final(self).view()) == peer_settings_spec(old(self).view(), pairs@),
    {
        let np = match apply_settings(&self.peer, pairs) {
            Err(e) => return Err(e),
            Ok(np) => np,
        };
        let ids = self.live_ids();
        let old_i = self.peer.initial_window_size;
        let new_i = np.initial_window_size;
        let ghost v0 = self.view();
        let mut i: usize = 0;
        while i < ids.len()
            invariant
                0 <= i <= ids@.len(),
                ids@.to_set() == v0.streams.dom(),
                self.view() == v0,
                self.wf(),
                apply_all_spec(v0.peer, pairs@, pairs@.len() as int) == Ok::<Settings, ErrorCode>(np),
                settings_wf(np),
                new_i == np.initial_window_size,
                old_i == v0.peer.initial_window_size,
                forall|j: int| 0 <= j < i ==> initial_window_change_spec(
                    v0.streams[#[trigger] ids@[j]].out_window, old_i, new_i) is Ok,
            decreases ids@.len() - i,
        {
            let id = ids[i];
            assert(ids@.to_set().contains(ids@[i as int]));
            let e = *self.streams.get(&id).unwrap();
            if apply_initial_window_change(e.out_window, old_i, new_i).is_err() {
                assert(v0.streams.contains_key(id));
                assert(!initial_window_ok(v0, new_i));
                return Err(ErrorCode::FlowControlError);
            }
            i = i + 1;
        }
        assert(initial_window_ok(v0, new_i)) by {
            assert forall|k: u32| #[trigger] v0.streams.contains_key(k) implies initial_window_change_spec(
                v0.streams[k].out_window, old_i, new_i) is Ok by {
                assert(ids@.to_set().contains(k));
                let j = ids@.index_of(k);
                assert(ids@[j] == k);
            }
        }
        let mut i: usize = 0;
        while i < ids.len()
            invariant
                0 <= i <= ids@.len(),
                ids@.to_set() == v0.streams.dom(),
                ids@.no_duplicates(),
                initial_window_ok(v0, new_i),
                settings_wf(v0.local) && settings_wf(v0.peer),
                apply_all_spec(v0.peer, pairs@, pairs@.len() as int) == Ok::<Settings, ErrorCode>(np),
                settings_wf(np),
                new_i == np.initial_window_size,
                old_i == v0.peer.initial_window_size,
                self.view() == (ConnView { streams: self.view().streams, ..v0 }),
                self.view().streams.dom() == v0.streams.dom(),
                forall|j: int| 0 <= j < i ==> self.view().streams[#[trigger] ids@[j]] == shifted_entry(v0.streams[ids@[j]], old_i, new_i),
                forall|k: u32| v0.streams.contains_key(k) && !ids@.take(i as int).contains(k) ==> self.view().streams[k] == v0.streams[k],
            decreases ids@.len() - i,
        {
            let id = ids[i];
            assert(ids@.to_set().contains(ids@[i as int]));
            let e = *self.streams.get(&id).unwrap();
            assert(!ids@.take(i as int).contains(id)) by {
                if ids@.take(i as int).contains(id) {
                    let j = ids@.take(i as int).index_of(id);
                    assert(ids@[j] == ids@[i as int]);
                }
            }
            let w = match apply_initial_window_change(e.out_window, old_i, new_i) {
                Ok(w) => w,
                Err(_) => return Err(ErrorCode::FlowControlError),
            };
            self.streams.insert(id, StreamEntry { out_window: w, ..e });
            proof {
                assert forall|j: int| 0 <= j < i + 1 implies self.view().streams[#[trigger] ids@[j]] == shifted_entry(v0.streams[ids@[j]], old_i, new_i) by {
                    if j < i {
                        assert(ids@[j] != id);
                    }
                }
                assert forall|k: u32| v0.streams.contains_key(k) && !ids@.take(i + 1).contains(k) implies self.view().streams[k] == v0.streams[k] by {
                    assert(ids@.take(i + 1)[i as int] == id);
                    if ids@.take(i as int).contains(k) {
                        let j = ids@.take(i as int).index_of(k);
                        assert(ids@.take(i + 1)[j] == k);
                    }
                }
            }
            i = i + 1;
        }
        self.peer = np;
        proof {
            assert forall|k: u32| v0.streams.contains_key(k) implies self.view().streams[k] == shifted_entry(v0.streams[k], old_i, new_i) by {
                assert(ids@.to_set().contains(k));
                let j = ids@.index_of(k);
                assert(ids@[j] == k);
            }
            assert(self.view().streams =~= shifted_streams(v0, new_i));
        }
        Ok(())
    }

    /// Returns inbound credit on stream `sid` and on the connection as the
    /// consumer takes data: each window below half of the local initial
    /// size is topped up to it. Gives the increments to send in
    /// WINDOW_UPDATE frames, stream first; zero means none.
    pub fn refill_in_windows(&mut self, sid: u32) -> (r: (u32, u32))
        requires
            old(self).wf(),
        ensures
            final(self).wf(),
            ({
                let v = old(self).view();
                let init = v.local.initial_window_size as int;
                let ci = refill_spec(v.conn_in_window as int, init);
                &&& r.1 == ci
                &&& !v.streams.contains_key(sid) ==> r.0 == 0 && final(self).view() == (ConnView {
                    conn_in_window: (v.conn_in_window + ci) as i32,
                    ..v
                })
                &&& v.streams.contains_key(sid) ==> ({
                    let e = v.streams[sid];
                    let si = refill_spec(e.in_window as int, init);
                    &&& r.0 == si
                    &&& final(self).view() == (ConnView {
                        conn_in_window: (v.conn_in_window + ci) as i32,
                        streams: v.streams.insert(sid, StreamEntry { in_window: (e.in_window + si) as i32, ..e }),
                        ..v
                    })
                })
            }),
    {
        let init = self.local.initial_window_size;
        let ci = in_window_increment(self.conn_in_window, init);
        self.conn_in_window = self.conn_in_window + ci as i32;
        let si = match self.streams.get(&sid) {
            None => 0,
            Some(e) => {
                let e = *e;
                let si = in_window_increment(e.in_window, init);
                self.streams.insert(sid, StreamEntry { in_window: e.in_window + si as i32, ..e });
                si
            },
        };
        (si, ci)
    }

    /// This side sent END_STREAM on `sid`: an open stream half-closes, a
    /// stream the peer had finished closes and leaves the table.
    pub fn end_local_stream(&mut self, sid: u32)
        requires
            old(self).wf(),
        ensures
            final(self).wf(),
            final(self).view() == end_local_spec(old(self).view(), sid),
    {
        let e = match self.streams.get(&sid) {
            None => return,
            Some(e) => *e,
        };
        if e.state == StreamState::Open {
            self.streams.insert(sid, StreamEntry { state: StreamState::HalfClosedLocal, ..e });
        } else {
            self.streams.remove(&sid);
        }
    }

    /// Polices a header block on a stream and records its effect; see
    /// `headers_conn_spec`.
    pub fn on_headers(&mut self, sid: u32, end_stream: bool, headers: &Headers) -> (r: Result<Option<HeadersAction>, ErrorCode>)
        requires
            old(self).wf(),
        ensures
            final(self).wf(),
            (r, final(self).view()) == headers_conn_spec(old(self).view(), sid, end_stream, view_headers(*headers)),
    {
        let e = match self.streams.get(&sid) {
            None => return Ok(None),
            Some(e) => *e,
        };
        if e.state == StreamState::HalfClosedRemote {
            self.streams.remove(&sid);
            return Ok(Some(HeadersAction::ResetStream(ErrorCode::StreamClosed)));
        }
        let mut st = e.inbound;
        let a = if self.is_client {
            process_headers(&mut st, end_stream, headers)
        } else {
            process_request_headers(&mut st, end_stream, headers)
        };
        let e1 = StreamEntry { inbound: st, ..e };
        match a {
            Err(er) => Err(er),
            Ok(HeadersAction::ResetStream(c)) => {
                self.streams.remove(&sid);
                Ok(Some(HeadersAction::ResetStream(c)))
            },
            Ok(HeadersAction::Deliver { last: true }) => {
                if e.state == StreamState::Open {
                    self.streams.insert(sid, StreamEntry { state: StreamState::HalfClosedRemote, ..e1 });
                } else {
                    self.streams.remove(&sid);
                }
                Ok(Some(HeadersAction::Deliver { last: true }))
            },
            Ok(a) => {
                self.streams.insert(sid, e1);
                Ok(Some(a))
            },
        }
    }

    /// This side sent its initial headers on `sid` (a response, on a
    /// server): a later handler fault resets the stream instead of
    /// answering 500.
    pub fn mark_headers_sent(&mut self, sid: u32)
        requires
            old(self).wf(),
        ensures
            final(self).wf(),
            !old(self).view().streams.contains_key(sid) ==> final(self).view() == old(self).view(),
            old(self).view().streams.contains_key(sid) ==> final(self).view() == (ConnView {
                streams: old(self).view().streams.insert(sid, StreamEntry { out_headers_sent: true, ..old(self).view().streams[sid] }),
                ..old(self).view()
            }),
    {
        let e = match self.streams.get(&sid) {
            None => return,
            Some(e) => *e,
        };
        self.streams.insert(sid, StreamEntry { out_headers_sent: true, ..e });
    }

    /// Puts as much of `body` as the windows allow on live stream `sid` as
    /// DATA frames (see `data_frames_ok`), charging both out-windows by the
    /// bytes sent. It stops short of the body only when a window has no
    /// credit left. A stream that is not live gets nothing.
    pub fn data_frames(&mut self, sid: u32, body: &[u8], end_stream: bool) -> (r: (Vec<RawFrame>, usize))
        requires
            old(self).wf(),
        ensures
            final(self).wf(),
            !old(self).view().streams.contains_key(sid) ==> r.0@.len() == 0 && r.1 == 0 && final(self).view() == old(self).view(),
            old(self).view().streams.contains_key(sid) ==> ({
                let v = old(self).view();
                let e = v.streams[sid];
                &&& data_frames_ok(sid, body@, end_stream, v.peer.max_frame_size, r.0@, r.1 as int)
                &&& data_frames_sized(body@.len() as int, e.out_window as int, v.conn_out_window as int, v.peer.max_frame_size, r.0@)
                &&& r.1 == 0 || (r.1 <= e.out_window && r.1 <= v.conn_out_window)
                &&& final(self).view() == (ConnView {
                    conn_out_window: (v.conn_out_window - r.1) as i32,
                    streams: v.streams.insert(sid, StreamEntry { out_window: (e.out_window - r.1) as i32, ..e }),
                    ..v
                })
                &&& r.1 < body@.len() ==> !may_poll_spec(e.out_window - r.1, v.conn_out_window - r.1)
            }),
    {
        let e0 = match self.streams.get(&sid) {
            None => return (Vec::new(), 0),
            Some(e) => *e,
        };
        let ghost v0 = self.view();
        let len: usize = body.len();
        let mut off: usize = 0;
        let mut out: Vec<RawFrame> = Vec::new();
        let mut stalled = false;
        assert(body@.take(0) =~= Seq::<u8>::empty());
        assert(v0.streams.insert(sid, StreamEntry { out_window: (e0.out_window - 0) as i32, ..e0 }) =~= v0.streams);
        while off < len && !stalled
            invariant
                self.wf(),
                len == body@.len(),
                v0.streams.contains_key(sid),
                e0 == v0.streams[sid],
                0 <= off <= len,
                self.view() == (ConnView {
                    conn_out_window: (v0.conn_out_window - off) as i32,
                    streams: v0.streams.insert(sid, StreamEntry { out_window: (e0.out_window - off) as i32, ..e0 }),
                    ..v0
                }),
                v0.conn_out_window - off >= i32::MIN,
                e0.out_window - off >= i32::MIN,
                data_frames_ok(sid, body@, end_stream, v0.peer.max_frame_size, out@, off as int),
                data_frames_sized(len as int, e0.out_window as int, v0.conn_out_window as int, v0.peer.max_frame_size, out@),
                off == 0 || (off <= e0.out_window && off <= v0.conn_out_window),
                stalled ==> off < len && !may_poll_spec(e0.out_window - off, v0.conn_out_window - off),
            decreases (len - off) * 2 + (if stalled { 0int } else { 1int }),
        {
            let ghost vb = self.view();
            let n = self.take_data(sid, len - off);
            proof {
                let eb = vb.streams[sid];
                assert(eb == StreamEntry { out_window: (e0.out_window - off) as i32, ..e0 });
                assert(n <= eb.out_window || n == 0);
                assert(vb.streams.insert(sid, StreamEntry { out_window: (eb.out_window - n) as i32, ..eb }) =~= v0.streams.insert(
                    sid, StreamEntry { out_window: (e0.out_window - (off + n)) as i32, ..e0 }));
            }
            if n == 0 {
                stalled = true;
            } else {
                let payload = copy_range(body, off, off + n);
                let flags = data_frame_flags(n, len - off, end_stream);
                let f = RawFrame { header: FrameHeader { length: n as u32, frame_type: 0, flags, stream_id: sid }, payload };
                let ghost before = out@;
                out.push(f);
                proof {
                    let k = before.len() as int;
                    assert(payloads(out@) =~= payloads(before).push(f.payload@));
                    lemma_concat_parts_push(payloads(before), f.payload@, k);
                    assert(body@.take(off + n) =~= body@.take(off as int) + body@.subrange(off as int, off + n));
                    assert(concat_parts(payloads(before), k).len() == off);
                    assert forall|i: int| 0 <= i < out@.len() implies {
                        let bf = concat_parts(payloads(out@), i).len() as int;
                        (#[trigger] out@[i]).payload@.len() == frame_len_spec(len - bf, e0.out_window - bf,
                            v0.conn_out_window - bf, v0.peer.max_frame_size as int)
                    } by {
                        lemma_concat_parts_push(payloads(before), f.payload@, i);
                        if i < k {
                            assert(out@[i] == before[i]);
                        }
                    }
                    assert forall|i: int| 0 <= i < out@.len() implies {
                        &&& (#[trigger] out@[i]).header.frame_type == 0
                        &&& out@[i].header.stream_id == sid
                        &&& out@[i].header.length == out@[i].payload@.len()
                        &&& 0 < out@[i].payload@.len() <= v0.peer.max_frame_size
                        &&& out@[i].header.flags == (if end_stream && i == out@.len() - 1 && off + n == body@.len() { 1u8 } else { 0u8 })
                    } by {
                        if i < k {
                            assert(out@[i] == before[i]);
                        }
                    }
                }
                off = off + n;
            }
        }
        (out, off)
    }

    /// Queues body bytes on `sid` behind those already queued; `end_stream`
    /// says whether they end the stream.
    pub fn queue_body(&mut self, sid: u32, body: Vec<u8>, end_stream: bool)
        requires
            old(self).wf(),
        ensures
            final(self).wf(),
            final(self).view() == (ConnView {
                pending: old(self).view().pending.insert(sid, (queued_on(old(self).view(), sid) + body@, end_stream)),
                ..old(self).view()
            }),
    {
        let ghost v0 = self.view();
        let mut q = match self.pending.remove(&sid) {
            None => Vec::new(),
            Some((q, _)) => q,
        };
        proof {
            assert(q@ == queued_on(v0, sid));
        }
        append(&mut q, body.as_slice());
        self.pending.insert(sid, (q, end_stream));
        proof {
            assert(self.view().pending =~= v0.pending.insert(sid, (queued_on(v0, sid) + body@, end_stream)));
        }
    }

    /// Sends what the windows allow of the bytes queued on `sid`, as
    /// `data_frames` does, and keeps the rest queued for the next call
    /// (after a WINDOW_UPDATE). When the queue empties and it ends the
    /// stream, this side's end is recorded. Queued bytes of a stream that
    /// is no longer live are dropped.
    pub fn flush_stream(&mut self, sid: u32) -> (r: (Vec<RawFrame>, usize))
        requires
            old(self).wf(),
        ensures
            final(self).wf(),
            ({
                let v = old(self).view();
                &&& !v.pending.contains_key(sid) ==> r.0@.len() == 0 && r.1 == 0 && final(self).view() == v
                &&& v.pending.contains_key(sid) && !v.streams.contains_key(sid) ==> r.0@.len() == 0 && r.1 == 0
                    && final(self).view() == (ConnView { pending: v.pending.remove(sid), ..v })
                &&& v.pending.contains_key(sid) && v.streams.contains_key(sid) ==> ({
                    let (q, es) = v.pending[sid];
                    let e = v.streams[sid];
                    &&& data_frames_ok(sid, q, es, v.peer.max_frame_size, r.0@, r.1 as int)
                    &&& data_frames_sized(q.len() as int, e.out_window as int, v.conn_out_window as int, v.peer.max_frame_size, r.0@)
                    &&& r.1 == 0 || (r.1 <= e.out_window && r.1 <= v.conn_out_window)
                    &&& r.1 < q.len() ==> !may_poll_spec(e.out_window - r.1, v.conn_out_window - r.1)
                    &&& final(self).view() == flushed_spec(v, sid, r.1 as int)
                })
            }),
    {
        let ghost v0 = self.view();
        let removed = self.pending.remove(&sid);
        proof {
            assert(self.view() == (ConnView { pending: v0.pending.remove(sid), ..v0 })) by {
                assert(self.view().pending =~= v0.pending.remove(sid));
            }
        }
        let (q, es) = match removed {
            None => {
                proof {
                    assert(v0.pending.remove(sid) =~= v0.pending);
                }
                return (Vec::new(), 0);
            },
            Some(x) => x,
        };
        if !self.streams.contains_key(&sid) {
            return (Vec::new(), 0);
        }
        let (frames, sent) = self.data_frames(sid, q.as_slice(), es);
        let ghost v1 = self.view();
        if sent < q.len() {
            let rest = copy_range(q.as_slice(), sent, q.len());
            assert(v1.pending == v0.pending.remove(sid));
            let ghost hb = self.pending@;
            self.pending.insert(sid, (rest, es));
            proof {
                assert(rest@ == q@.subrange(sent as int, q@.len() as int));
                assert(q@.subrange(sent as int, q@.len() as int) =~= q@.skip(sent as int));
                let target = v0.pending.insert(sid, (q@.skip(sent as int), es));
                assert(self.pending@ == hb.insert(sid, (rest, es)));
                assert forall|k: u32| #[trigger] self.view().pending.contains_key(k) == target.contains_key(k)
                    && (target.contains_key(k) ==> self.view().pending[k] == target[k]) by {
                    if k != sid {
                        assert(hb.contains_key(k) == v1.pending.contains_key(k));
                        if hb.contains_key(k) {
                            assert(v1.pending[k] == (hb[k].0@, hb[k].1));
                        }
                    }
                }
                assert(self.view().pending =~= v0.pending.insert(sid, (q@.skip(sent as int), es)));
            }
        } else {
            if es {
                self.end_local_stream(sid);
            }
        }
        (frames, sent)
    }

    /// Replaces the bytes queued on `sid`.
    pub fn set_queued(&mut self, sid: u32, body: Vec<u8>, end_stream: bool)
        requires
            old(self).wf(),
        ensures
            final(self).wf(),
            final(self).view() == (ConnView { pending: old(self).view().pending.insert(sid, (body@, end_stream)), ..old(self).view() }),
    {
        let ghost v0 = self.view();
        self.pending.insert(sid, (body, end_stream));
        proof {
            assert(self.view().pending =~= v0.pending.insert(sid, (body@, end_stream)));
        }
    }

    /// A request handler failed on `sid`; see `handler_fault_spec`.
    pub fn handler_fault(&mut self, sid: u32) -> (r: Option<FaultAction>)
        requires
            old(self).wf(),
        ensures
            final(self).wf(),
            (r, final(self).view()) == handler_fault_spec(old(self).view(), sid),
    {
        let e = match self.streams.get(&sid) {
            None => return None,
            Some(e) => *e,
        };
        if e.out_headers_sent {
            self.streams.remove(&sid);
            Some(FaultAction::ResetStream(ErrorCode::InternalError))
        } else if e.state == StreamState::HalfClosedRemote {
            self.streams.remove(&sid);
            Some(FaultAction::Respond500)
        } else {
            self.streams.insert(sid, StreamEntry { state: StreamState::HalfClosedLocal, out_headers_sent: true, ..e });
            Some(FaultAction::Respond500)
        }
    }
}

} // verus!
