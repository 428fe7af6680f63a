use httpbis::client_conn::{
    dump_state, process_message, process_request_headers, process_start, ClientToWriteMessage,
    HeadersAction, InMessageStage, InStreamState, MessageOutcome, StartRequestMessage,
};
use httpbis::conn::{Conn, DataAction, RemoteHeaders, StreamState};
use httpbis::encode_write::HttpEncodeWrite;
use httpbis::error_code::ErrorCode;
use httpbis::headers::{Header, Headers};
use httpbis::settings::Settings;

fn hs(pairs: &[(&str, &str)]) -> Headers {
    Headers(pairs.iter().map(|(n, v)| Header { name: n.as_bytes().to_vec(), value: v.as_bytes().to_vec() }).collect())
}

fn get_aabb() -> Headers {
    hs(&[(":method", "GET"), (":path", "/aabb"), (":scheme", "http")])
}

#[test]
fn start_request_frames_headers() {
    let mut conn = Conn::new(true, Settings::defaults(false));
    let mut w = HttpEncodeWrite::new();
    let q = process_start(&mut conn, &mut w, StartRequestMessage { headers: get_aabb(), body: vec![], end_stream: false }).unwrap();
    let (sid, frames) = (q.stream_id, q.header_frames);
    assert_eq!(sid, 1);
    assert_eq!(frames.len(), 1);
    assert_eq!(frames[0].header.frame_type, 1);
    assert_eq!(frames[0].header.flags, 4);
    assert_eq!(frames[0].header.stream_id, 1);
    assert!(!frames[0].payload.is_empty());
    let mut d = hpack::Decoder::new();
    let back = d.decode(&frames[0].payload).unwrap();
    assert_eq!(back[1], (b":path".to_vec(), b"/aabb".to_vec()));
    let body: Vec<u8> = (0..40000u32).map(|i| (i % 251) as u8).collect();
    let q2 = process_start(&mut conn, &mut w, StartRequestMessage { headers: get_aabb(), body: body.clone(), end_stream: true }).unwrap();
    assert_eq!(q2.stream_id, 3);
    assert_eq!(q2.header_frames[0].header.flags, 4);
    assert_eq!(q2.sent, 40000);
    assert_eq!(q2.data_frames.len(), 3);
    let mut joined = Vec::new();
    for (i, f) in q2.data_frames.iter().enumerate() {
        assert_eq!(f.header.frame_type, 0);
        assert!(f.payload.len() <= 16384);
        assert_eq!(f.header.flags, if i == 2 { 1 } else { 0 });
        joined.extend_from_slice(&f.payload);
    }
    assert_eq!(joined, body);
    assert_eq!(conn.conn_out_window(), 65535 - 40000);
    let q3 = process_start(&mut conn, &mut w, StartRequestMessage { headers: get_aabb(), body: body.clone(), end_stream: true }).unwrap();
    assert_eq!(q3.sent, 65535 - 40000);
    assert_eq!(q3.data_frames.last().unwrap().header.flags, 0);
}

#[test]
fn messages_dispatch() {
    let mut conn = Conn::new(true, Settings::defaults(false));
    let mut w = HttpEncodeWrite::new();
    assert!(matches!(process_message(&mut conn, &mut w, ClientToWriteMessage::WaitForHandshake), Ok(MessageOutcome::HandshakeDone)));
    let start = ClientToWriteMessage::Start(StartRequestMessage { headers: get_aabb(), body: vec![], end_stream: true });
    match process_message(&mut conn, &mut w, start) {
        Ok(MessageOutcome::Started(q)) => {
            assert_eq!(q.stream_id, 1);
            assert_eq!(q.header_frames[0].header.flags, 5);
            assert!(q.data_frames.is_empty());
        }
        _ => panic!("expected a start"),
    }
    match process_message(&mut conn, &mut w, ClientToWriteMessage::DumpState) {
        Ok(MessageOutcome::State(s)) => {
            assert_eq!(s.streams.len(), 1);
            assert_eq!(s.streams[0].0, 1);
            assert_eq!(s.conn_out_window, 65535);
            assert_eq!(s.conn_in_window, 65535);
        }
        _ => panic!("expected a snapshot"),
    }
    // The request ended with its headers: this side of the stream is closed.
    assert_eq!(conn.stream(1).unwrap().state, StreamState::HalfClosedLocal);
    let resp = hs(&[(":status", "200")]);
    assert_eq!(conn.on_headers(1, true, &resp), Ok(Some(HeadersAction::Deliver { last: true })));
    assert!(conn.stream(1).is_none());
    assert_eq!(dump_state(&conn).streams.len(), 0);
}

#[test]
fn server_request_headers_policing() {
    let mut st = InStreamState { in_message_stage: InMessageStage::Initial, in_rem_content_length: None };
    let req = hs(&[(":method", "POST"), (":path", "/echo"), (":scheme", "http"), ("content-length", "4")]);
    assert_eq!(process_request_headers(&mut st, false, &req), Ok(HeadersAction::Deliver { last: false }));
    assert_eq!(st.in_rem_content_length, Some(4));
    assert_eq!(st.in_message_stage, InMessageStage::AfterInitialHeaders);
    let mut bad = InStreamState { in_message_stage: InMessageStage::Initial, in_rem_content_length: None };
    let resp_like = hs(&[(":status", "200")]);
    assert_eq!(process_request_headers(&mut bad, true, &resp_like), Ok(HeadersAction::ResetStream(ErrorCode::ProtocolError)));
    assert_eq!(bad.in_message_stage, InMessageStage::Initial);
}

#[test]
fn content_length_checked_on_data() {
    let mut conn = Conn::new(false, Settings::defaults(false));
    assert_eq!(conn.on_remote_headers(1), Ok(RemoteHeaders::Opened));
    let req = hs(&[(":method", "POST"), (":path", "/echo"), (":scheme", "http"), ("content-length", "4")]);
    assert_eq!(conn.on_headers(1, false, &req), Ok(Some(HeadersAction::Deliver { last: false })));
    assert_eq!(conn.stream(1).unwrap().inbound.in_rem_content_length, Some(4));
    assert_eq!(conn.on_data(1, 3, false), Ok(DataAction::Deliver));
    assert_eq!(conn.on_data(1, 2, true), Ok(DataAction::ResetStream(ErrorCode::ProtocolError)));
    assert!(conn.stream(1).is_none());

    assert_eq!(conn.on_remote_headers(3), Ok(RemoteHeaders::Opened));
    assert_eq!(conn.on_headers(3, false, &req), Ok(Some(HeadersAction::Deliver { last: false })));
    assert_eq!(conn.on_data(3, 4, true), Ok(DataAction::Deliver));
    assert_eq!(conn.stream(3).unwrap().state, StreamState::HalfClosedRemote);
}

#[test]
fn headers_on_conn_by_role() {
    let mut client = Conn::new(true, Settings::defaults(false));
    assert_eq!(client.start_local_stream(), Ok(1));
    let info = hs(&[(":status", "103")]);
    assert_eq!(client.on_headers(1, false, &info), Ok(Some(HeadersAction::Informational)));
    let ok = hs(&[(":status", "200")]);
    assert_eq!(client.on_headers(1, true, &ok), Ok(Some(HeadersAction::Deliver { last: true })));
    assert_eq!(client.stream(1).unwrap().state, StreamState::HalfClosedRemote);
    assert_eq!(client.on_headers(9, true, &ok), Ok(None));
    assert_eq!(client.start_local_stream(), Ok(3));
    assert_eq!(client.on_headers(3, false, &get_aabb()), Ok(Some(HeadersAction::ResetStream(ErrorCode::ProtocolError))));
    assert!(client.stream(3).is_none());
}

#[test]
fn body_waits_for_window_then_resumes() {
    let w: u32 = 65535;
    let mut conn = Conn::new(true, Settings::defaults(false));
    let mut wr = HttpEncodeWrite::new();
    assert_eq!(conn.apply_peer_settings(&vec![(4, 2 * w)]), Ok(()));
    let body = vec![7u8; 2 * w as usize];
    let q = process_start(&mut conn, &mut wr, StartRequestMessage { headers: get_aabb(), body: body.clone(), end_stream: true }).unwrap();
    assert_eq!(q.sent, w as usize);
    assert_eq!(conn.conn_out_window(), 0);
    assert_eq!(conn.stream(1).unwrap().out_window, w as i32);
    assert!(q.data_frames.iter().all(|f| f.header.flags == 0));
    let (none, n0) = conn.flush_stream(1);
    assert!(none.is_empty() && n0 == 0);
    assert_eq!(conn.on_window_update(0, w), Ok(()));
    let (more, n) = conn.flush_stream(1);
    assert_eq!(n, w as usize);
    assert_eq!(more.last().unwrap().header.flags, 1);
    let total: usize = q.data_frames.iter().chain(more.iter()).map(|f| f.payload.len()).sum();
    assert_eq!(total, body.len());
    assert_eq!(conn.stream(1).unwrap().state, StreamState::HalfClosedLocal);
    assert_eq!(conn.stream(1).unwrap().out_window, 0);
}

#[test]
fn larger_frame_size_gives_exact_first_frame() {
    let mut conn = Conn::new(true, Settings::defaults(false));
    let mut wr = HttpEncodeWrite::new();
    assert_eq!(conn.apply_peer_settings(&vec![(5, 20000)]), Ok(()));
    let q = process_start(&mut conn, &mut wr, StartRequestMessage { headers: get_aabb(), body: vec![1u8; 30000], end_stream: true }).unwrap();
    assert_eq!(q.data_frames.len(), 2);
    assert_eq!(q.data_frames[0].payload.len(), 20000);
    assert_eq!(q.data_frames[0].header.flags, 0);
    assert_eq!(q.data_frames[1].payload.len(), 10000);
    assert_eq!(q.data_frames[1].header.flags, 1);
}

#[test]
fn failing_body_resets_only_its_stream() {
    let mut conn = Conn::new(true, Settings::defaults(false));
    let mut wr = HttpEncodeWrite::new();
    let a = process_start(&mut conn, &mut wr, StartRequestMessage { headers: get_aabb(), body: vec![], end_stream: false }).unwrap();
    let b = process_start(&mut conn, &mut wr, StartRequestMessage { headers: get_aabb(), body: vec![], end_stream: false }).unwrap();
    let before = conn.stream(a.stream_id).unwrap();
    assert_eq!(conn.handler_fault(b.stream_id), Some(httpbis::conn::FaultAction::ResetStream(ErrorCode::InternalError)));
    assert!(conn.stream(b.stream_id).is_none());
    assert_eq!(conn.stream(a.stream_id).unwrap(), before);
    let c = process_start(&mut conn, &mut wr, StartRequestMessage { headers: get_aabb(), body: vec![], end_stream: true }).unwrap();
    assert_eq!(c.stream_id, 5);
}
