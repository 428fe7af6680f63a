use httpbis::conn::{Conn, DataAction, RemoteHeaders};
use httpbis::control::{
    check_ping, data_frame, goaway_frame, parse_goaway, parse_rst_stream, parse_window_update,
    ping_ack_frame, rst_stream_frame, settings_ack_frame, settings_frame, window_update_frame,
};
use httpbis::control::{check_first_frame, read_settings_frame, SettingsFrame};
use httpbis::error_code::ErrorCode;
use httpbis::frame::FrameHeader;
use httpbis::flow::in_window_increment;
use httpbis::settings::Settings;

#[test]
fn goaway_bytes_and_parse() {
    let f = goaway_frame(7, ErrorCode::StreamClosed);
    assert_eq!(f, vec![0, 0, 8, 7, 0, 0, 0, 0, 0, 0, 0, 0, 7, 0, 0, 0, 5]);
    assert_eq!(parse_goaway(0, &f[9..]), Ok((7, 5)));
    assert_eq!(parse_goaway(1, &f[9..]), Err(ErrorCode::ProtocolError));
    assert_eq!(parse_goaway(0, &f[9..15]), Err(ErrorCode::FrameSizeError));
}

#[test]
fn data_without_stream_goaway_stream_closed() {
    let mut c = Conn::new(false, Settings::defaults(false));
    assert_eq!(c.on_remote_headers(1), Ok(RemoteHeaders::Opened));
    let e = c.on_data(11, 10, false).unwrap_err();
    assert_eq!(e, ErrorCode::StreamClosed);
    let last = c.send_goaway();
    let f = goaway_frame(last, e);
    assert_eq!(&f[9..], &[0, 0, 0, 1, 0, 0, 0, 5]);
}

#[test]
fn rst_and_window_update_frames() {
    let r = rst_stream_frame(3, ErrorCode::InternalError);
    assert_eq!(r, vec![0, 0, 4, 3, 0, 0, 0, 0, 3, 0, 0, 0, 2]);
    assert_eq!(parse_rst_stream(3, &r[9..]), Ok(2));
    assert_eq!(parse_rst_stream(0, &r[9..]), Err(ErrorCode::ProtocolError));
    assert_eq!(parse_rst_stream(3, &r[9..12]), Err(ErrorCode::FrameSizeError));
    let w = window_update_frame(0, 65535);
    assert_eq!(w, vec![0, 0, 4, 8, 0, 0, 0, 0, 0, 0, 0, 0xff, 0xff]);
    assert_eq!(parse_window_update(&w[9..]), Ok(65535));
    assert_eq!(parse_window_update(&[0x80, 0, 0, 1]), Ok(1));
    assert_eq!(parse_window_update(&[0, 0, 1]), Err(ErrorCode::FrameSizeError));
}

#[test]
fn settings_ping_and_data_frames() {
    assert_eq!(settings_ack_frame(), vec![0, 0, 0, 4, 1, 0, 0, 0, 0]);
    let s = settings_frame(&vec![(2, 0), (4, 131070)]);
    assert_eq!(s, vec![0, 0, 12, 4, 0, 0, 0, 0, 0, 0, 2, 0, 0, 0, 0, 0, 4, 0, 1, 0xff, 0xfe]);
    let p = ping_ack_frame(&[1, 2, 3, 4, 5, 6, 7, 8]);
    assert_eq!(p, vec![0, 0, 8, 6, 1, 0, 0, 0, 0, 1, 2, 3, 4, 5, 6, 7, 8]);
    assert_eq!(check_ping(0, &p[9..]), Ok(()));
    assert_eq!(check_ping(0, &p[9..12]), Err(ErrorCode::FrameSizeError));
    assert_eq!(check_ping(1, &p[9..]), Err(ErrorCode::ProtocolError));
    assert_eq!(data_frame(1, b"abcd", true), vec![0, 0, 4, 0, 1, 0, 0, 0, 1, b'a', b'b', b'c', b'd']);
}

#[test]
fn peer_initial_window_moves_every_stream() {
    let mut c = Conn::new(false, Settings::defaults(false));
    assert_eq!(c.on_remote_headers(1), Ok(RemoteHeaders::Opened));
    assert_eq!(c.on_remote_headers(3), Ok(RemoteHeaders::Opened));
    assert_eq!(c.take_data(1, 1000), 1000);
    assert_eq!(c.apply_peer_settings(&vec![(4, 65535 + 10), (5, 20000)]), Ok(()));
    assert_eq!(c.stream(1).unwrap().out_window, 65535 - 1000 + 10);
    assert_eq!(c.stream(3).unwrap().out_window, 65535 + 10);
    assert_eq!(c.apply_peer_settings(&vec![(4, 0)]), Ok(()));
    assert_eq!(c.stream(1).unwrap().out_window, -1000);
    assert!(!c.may_poll(1));
    assert_eq!(c.apply_peer_settings(&vec![(5, 100)]), Err(ErrorCode::ProtocolError));
    assert_eq!(c.stream(3).unwrap().out_window, 0);
    assert_eq!(c.on_window_update(3, 0x7fff_ffff), Ok(()));
    assert_eq!(c.apply_peer_settings(&vec![(4, 1)]), Err(ErrorCode::FlowControlError));
    assert_eq!(c.stream(3).unwrap().out_window, 0x7fff_ffff);
    assert_eq!(c.stream(1).unwrap().out_window, -1000);
}

#[test]
fn inbound_credit_refill() {
    assert_eq!(in_window_increment(65535, 65535), 0);
    assert_eq!(in_window_increment(32768, 65535), 0);
    assert_eq!(in_window_increment(32766, 65535), 65535 - 32766);
    assert_eq!(in_window_increment(0, 65535), 65535);
    let mut c = Conn::new(false, Settings::defaults(false));
    assert_eq!(c.on_remote_headers(1), Ok(RemoteHeaders::Opened));
    let req = httpbis::headers::Headers(vec![
        httpbis::headers::Header { name: b":method".to_vec(), value: b"POST".to_vec() },
        httpbis::headers::Header { name: b":path".to_vec(), value: b"/".to_vec() },
        httpbis::headers::Header { name: b":scheme".to_vec(), value: b"http".to_vec() },
    ]);
    assert!(c.on_headers(1, false, &req).is_ok());
    assert_eq!(c.on_data(1, 40000, false), Ok(DataAction::Deliver));
    assert_eq!(c.refill_in_windows(1), (40000, 40000));
    assert_eq!(c.stream(1).unwrap().in_window, 65535);
    assert_eq!(c.refill_in_windows(1), (0, 0));
    assert_eq!(c.refill_in_windows(9), (0, 0));
}

#[test]
fn settings_frame_receipt_rules() {
    let h = |flags: u8, sid: u32, len: u32| FrameHeader { length: len, frame_type: 4, flags, stream_id: sid };
    assert!(matches!(read_settings_frame(&h(1, 0, 0), &[]), Ok(SettingsFrame::Ack)));
    assert!(matches!(read_settings_frame(&h(1, 0, 6), &[0, 4, 0, 0, 0, 1]), Err(ErrorCode::FrameSizeError)));
    assert!(matches!(read_settings_frame(&h(0, 1, 0), &[]), Err(ErrorCode::ProtocolError)));
    assert!(matches!(read_settings_frame(&h(0, 0, 5), &[0, 4, 0, 0, 0]), Err(ErrorCode::FrameSizeError)));
    match read_settings_frame(&h(0, 0, 6), &[0, 5, 0, 0, 0x4e, 0x20]) {
        Ok(SettingsFrame::Pairs(v)) => assert_eq!(v, vec![(5u16, 20000u32)]),
        _ => panic!("expected pairs"),
    }
    assert_eq!(check_first_frame(&h(0, 0, 0)), Ok(()));
    assert_eq!(check_first_frame(&h(1, 0, 0)), Err(ErrorCode::ProtocolError));
    assert_eq!(check_first_frame(&FrameHeader { length: 8, frame_type: 6, flags: 0, stream_id: 0 }), Err(ErrorCode::ProtocolError));
}
