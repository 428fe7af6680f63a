use httpbis::client_conn::{process_headers, HeadersAction, InMessageStage, InStreamState};
use httpbis::conn::{Conn, DataAction, FaultAction, RemoteHeaders, StreamState};
use httpbis::error::{ConnDiedErrorHolder, Error};
use httpbis::error_code::ErrorCode;
use httpbis::headers::{Header, Headers};
use httpbis::settings::{apply_settings, parse_settings_payload, Settings};

fn hs(pairs: &[(&str, &str)]) -> Headers {
    Headers(pairs.iter().map(|(n, v)| Header { name: n.as_bytes().to_vec(), value: v.as_bytes().to_vec() }).collect())
}

fn open_request(c: &mut Conn, sid: u32) {
    assert_eq!(c.on_remote_headers(sid), Ok(RemoteHeaders::Opened));
    let req = hs(&[(":method", "POST"), (":path", "/echo"), (":scheme", "http")]);
    assert_eq!(c.on_headers(sid, false, &req), Ok(Some(HeadersAction::Deliver { last: false })));
}

fn fresh() -> InStreamState {
    InStreamState { in_message_stage: InMessageStage::Initial, in_rem_content_length: None }
}

#[test]
fn client_stream_ids_are_odd_and_increasing() {
    let mut c = Conn::new(true, Settings::defaults(false));
    assert_eq!(c.start_local_stream(), Ok(1));
    assert_eq!(c.start_local_stream(), Ok(3));
    assert_eq!(c.start_local_stream(), Ok(5));
    assert_eq!(c.stream_count(), 3);
    let s = c.stream(3).unwrap();
    assert_eq!(s.state, StreamState::Open);
    assert_eq!(s.out_window, 65535);
}

#[test]
fn server_accepts_increasing_peer_ids() {
    let mut c = Conn::new(false, Settings::defaults(false));
    assert_eq!(c.on_remote_headers(1), Ok(RemoteHeaders::Opened));
    assert_eq!(c.on_remote_headers(1), Ok(RemoteHeaders::Existing));
    assert_eq!(c.on_remote_headers(5), Ok(RemoteHeaders::Opened));
    c.reset_stream(1);
    assert_eq!(c.on_remote_headers(3), Err(ErrorCode::ProtocolError));
    assert_eq!(c.on_remote_headers(0), Err(ErrorCode::ProtocolError));
    assert_eq!(c.on_remote_headers(4), Err(ErrorCode::ProtocolError));
}

#[test]
fn client_refuses_pushed_stream() {
    let mut c = Conn::new(true, Settings::defaults(false));
    assert_eq!(c.start_local_stream(), Ok(1));
    assert_eq!(c.on_remote_headers(2), Err(ErrorCode::ProtocolError));
    c.reset_stream(1);
    assert_eq!(c.on_remote_headers(1), Ok(RemoteHeaders::Ignored));
}

#[test]
fn goaway_stops_new_streams() {
    let mut c = Conn::new(false, Settings::defaults(false));
    open_request(&mut c, 1);
    assert_eq!(c.send_goaway(), 1);
    assert!(c.goaway_sent());
    assert_eq!(c.on_remote_headers(3), Ok(RemoteHeaders::Ignored));
    assert_eq!(c.stream_count(), 1);
    assert_eq!(c.on_remote_headers(1), Ok(RemoteHeaders::Existing));
    assert_eq!(c.on_data(1, 4, true), Ok(DataAction::Deliver));
    assert_eq!(c.stream(1).unwrap().state, StreamState::HalfClosedRemote);
}

#[test]
fn data_without_stream_is_stream_closed() {
    let mut c = Conn::new(false, Settings::defaults(false));
    assert_eq!(c.on_data(11, 3, false), Err(ErrorCode::StreamClosed));
}

#[test]
fn data_past_window_is_flow_control_error() {
    let mut c = Conn::new(false, Settings::defaults(false));
    open_request(&mut c, 1);
    assert_eq!(c.on_data(1, 65535, false), Ok(DataAction::Deliver));
    assert_eq!(c.stream(1).unwrap().in_window, 0);
    assert_eq!(c.on_data(1, 1, false), Err(ErrorCode::FlowControlError));
}

#[test]
fn echo_small_request_stream_table() {
    let mut c = Conn::new(false, Settings::defaults(false));
    open_request(&mut c, 1);
    assert_eq!(c.on_data(1, 4, true), Ok(DataAction::Deliver));
    assert_eq!(c.stream(1).unwrap().state, StreamState::HalfClosedRemote);
    assert_eq!(c.on_headers(1, false, &hs(&[(":status", "200")])), Ok(Some(HeadersAction::ResetStream(ErrorCode::StreamClosed))));
    assert!(c.stream(1).is_none());
    open_request(&mut c, 3);
    assert_eq!(c.on_data(3, 4, true), Ok(DataAction::Deliver));
    c.mark_headers_sent(3);
    let (frames, sent) = c.data_frames(3, b"abcd", true);
    assert_eq!(sent, 4);
    assert_eq!(frames.len(), 1);
    assert_eq!(frames[0].header.flags, 1);
    assert_eq!(frames[0].payload, b"abcd".to_vec());
    assert_eq!(c.stream(3).unwrap().out_window, 65535 - 4);
    c.end_local_stream(3);
    assert_eq!(c.stream_count(), 0);
}

#[test]
fn data_before_headers_or_after_end_resets() {
    let mut c = Conn::new(false, Settings::defaults(false));
    assert_eq!(c.on_remote_headers(1), Ok(RemoteHeaders::Opened));
    assert_eq!(c.on_data(1, 4, false), Ok(DataAction::ResetStream(ErrorCode::ProtocolError)));
    assert!(c.stream(1).is_none());
    open_request(&mut c, 3);
    assert_eq!(c.on_data(3, 1, true), Ok(DataAction::Deliver));
    assert_eq!(c.on_data(3, 1, false), Ok(DataAction::ResetStream(ErrorCode::StreamClosed)));
    assert!(c.stream(3).is_none());
}

#[test]
fn echo_small_request_frames() {
    let mut c = Conn::new(false, Settings::defaults(false));
    open_request(&mut c, 1);
    assert_eq!(c.take_data(1, 4), 4);
    assert_eq!(c.stream(1).unwrap().out_window, 65535 - 4);
    c.reset_stream(1);
    assert_eq!(c.stream_count(), 0);
}

#[test]
fn handler_panic_affects_one_stream() {
    let mut c = Conn::new(false, Settings::defaults(false));
    assert_eq!(c.on_remote_headers(1), Ok(RemoteHeaders::Opened));
    assert_eq!(c.on_remote_headers(3), Ok(RemoteHeaders::Opened));
    assert_eq!(c.on_remote_headers(5), Ok(RemoteHeaders::Opened));
    let before1 = c.stream(1).unwrap();
    let before5 = c.stream(5).unwrap();
    assert_eq!(c.handler_fault(3), Some(FaultAction::Respond500));
    assert_eq!(c.stream(3).unwrap().state, StreamState::HalfClosedLocal);
    assert_eq!(c.handler_fault(3), Some(FaultAction::ResetStream(ErrorCode::InternalError)));
    assert!(c.stream(3).is_none());
    assert_eq!(c.stream(1).unwrap(), before1);
    assert_eq!(c.stream(5).unwrap(), before5);
    assert_eq!(c.on_remote_headers(7), Ok(RemoteHeaders::Opened));
    assert_eq!(c.handler_fault(9), None);
}

#[test]
fn panic_after_response_headers_resets_stream() {
    let mut c = Conn::new(false, Settings::defaults(false));
    for sid in [1u32, 3, 5] {
        assert_eq!(c.on_remote_headers(sid), Ok(RemoteHeaders::Opened));
        c.mark_headers_sent(sid);
    }
    assert_eq!(c.handler_fault(3), Some(FaultAction::ResetStream(ErrorCode::InternalError)));
    assert!(c.stream(3).is_none());
    assert!(c.stream(1).unwrap().out_headers_sent);
    assert!(c.stream(5).is_some());
}

#[test]
fn window_update_zero_on_any_stream_is_protocol_error() {
    let mut c = Conn::new(false, Settings::defaults(false));
    assert_eq!(c.on_window_update(7, 0), Err(ErrorCode::ProtocolError));
    assert_eq!(c.on_window_update(7, 0x8000_0000), Err(ErrorCode::ProtocolError));
    assert_eq!(c.on_window_update(0, 0), Err(ErrorCode::ProtocolError));
    assert_eq!(c.on_window_update(7, 10), Ok(()));
}

#[test]
fn content_length_mismatch_resets() {
    let mut c = Conn::new(true, Settings::defaults(false));
    assert_eq!(c.start_local_stream(), Ok(1));
    let mut st = c.stream(1).unwrap().inbound;
    let h = hs(&[(":status", "200"), ("content-length", "5")]);
    assert_eq!(process_headers(&mut st, false, &h), Ok(HeadersAction::Deliver { last: false }));
    assert_eq!(st.in_rem_content_length, Some(5));
    assert_eq!(st.in_message_stage, InMessageStage::AfterInitialHeaders);
}

#[test]
fn response_headers_policing() {
    let mut st = fresh();
    let ok = hs(&[(":status", "200"), ("a", "b")]);
    assert_eq!(process_headers(&mut st, true, &ok), Ok(HeadersAction::Deliver { last: true }));

    let mut st = fresh();
    let info = hs(&[(":status", "100")]);
    assert_eq!(process_headers(&mut st, false, &info), Ok(HeadersAction::Informational));
    assert_eq!(st.in_message_stage, InMessageStage::Initial);
    assert_eq!(process_headers(&mut st, true, &info), Ok(HeadersAction::ResetStream(ErrorCode::ProtocolError)));

    let mut st = fresh();
    let bad = hs(&[("a", "b"), (":status", "200")]);
    assert_eq!(process_headers(&mut st, false, &bad), Ok(HeadersAction::ResetStream(ErrorCode::ProtocolError)));
    assert_eq!(st, fresh());

    let mut st = InStreamState { in_message_stage: InMessageStage::AfterInitialHeaders, in_rem_content_length: None };
    let trailers = hs(&[("grpc-status", "0")]);
    assert_eq!(process_headers(&mut st, false, &trailers), Ok(HeadersAction::ResetStream(ErrorCode::ProtocolError)));
    assert_eq!(process_headers(&mut st, true, &trailers), Ok(HeadersAction::Deliver { last: true }));
    assert_eq!(st.in_message_stage, InMessageStage::AfterTrailingHeaders);
    assert_eq!(process_headers(&mut st, true, &trailers), Err(ErrorCode::InternalError));
}

#[test]
fn settings_ranges() {
    let s = Settings::defaults(false);
    assert_eq!(s.apply_setting(5, 16383), Err(ErrorCode::ProtocolError));
    assert_eq!(s.apply_setting(5, 16777216), Err(ErrorCode::ProtocolError));
    assert_eq!(s.apply_setting(5, 20000).unwrap().max_frame_size, 20000);
    assert_eq!(s.apply_setting(4, 0x8000_0000), Err(ErrorCode::FlowControlError));
    assert_eq!(s.apply_setting(2, 2), Err(ErrorCode::ProtocolError));
    assert_eq!(s.apply_setting(0x99, 7), Ok(s));
}

#[test]
fn settings_payload() {
    assert_eq!(parse_settings_payload(&[0, 4, 0]), Err(ErrorCode::FrameSizeError));
    let p = [0u8, 4, 0, 0, 0xff, 0xff, 0, 5, 0, 0, 0x4e, 0x20];
    let pairs = parse_settings_payload(&p).unwrap();
    assert_eq!(pairs, vec![(4u16, 65535u32), (5, 20000)]);
    let s = apply_settings(&Settings::defaults(false), &pairs).unwrap();
    assert_eq!(s.initial_window_size, 65535);
    assert_eq!(s.max_frame_size, 20000);
    let bad = vec![(5u16, 20000u32), (5, 1), (4, 1)];
    assert_eq!(apply_settings(&Settings::defaults(false), &bad), Err(ErrorCode::ProtocolError));
}

#[test]
fn died_holder_gives_cause() {
    let mut h = ConnDiedErrorHolder::new();
    assert_eq!(h.error(), Error::ConnectionDied);
    h.set_once(Error::Connection(ErrorCode::ProtocolError));
    h.set_once(Error::Connection(ErrorCode::Cancel));
    assert_eq!(h.error(), Error::Connection(ErrorCode::ProtocolError));
    assert_eq!(ErrorCode::FrameSizeError.raw(), 6);
    assert_eq!(ErrorCode::from_raw(13), ErrorCode::Http11Required);
    assert_eq!(ErrorCode::from_raw(99), ErrorCode::InternalError);
}
