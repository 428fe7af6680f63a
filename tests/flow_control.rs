use httpbis::conn::Conn;
use httpbis::error_code::ErrorCode;
use httpbis::flow::{
    apply_initial_window_change, apply_window_update, data_frame_flags, data_frame_len,
    should_poll_producer, take_data_frame,
};
use httpbis::settings::Settings;

#[test]
fn window_update_rules() {
    assert_eq!(apply_window_update(100, 0), Err(ErrorCode::ProtocolError));
    assert_eq!(apply_window_update(100, 0x8000_0000), Err(ErrorCode::ProtocolError));
    assert_eq!(apply_window_update(100, 50), Ok(150));
    assert_eq!(apply_window_update(-10, 50), Ok(40));
    assert_eq!(apply_window_update(0x7fff_ffff, 1), Err(ErrorCode::FlowControlError));
    assert_eq!(apply_window_update(1, 0x7fff_fffe), Ok(0x7fff_ffff));
}

#[test]
fn initial_window_change_shifts_window() {
    assert_eq!(apply_initial_window_change(1000, 65535, 131070), Ok(66535));
    assert_eq!(apply_initial_window_change(1000, 65535, 0), Ok(1000 - 65535));
    assert_eq!(apply_initial_window_change(0, 0, 0x8000_0000), Err(ErrorCode::FlowControlError));
    assert_eq!(apply_initial_window_change(0x7fff_0000, 0, 0x10000), Err(ErrorCode::FlowControlError));
}

#[test]
fn no_poll_without_credit() {
    assert!(!should_poll_producer(0, 0));
    assert!(!should_poll_producer(10, 0));
    assert!(!should_poll_producer(0, 10));
    assert!(!should_poll_producer(-5, 10));
    assert!(should_poll_producer(1, 1));
}

#[test]
fn data_frame_is_smallest_limit() {
    assert_eq!(data_frame_len(100000, 65535, 65535, 16384), 16384);
    assert_eq!(data_frame_len(100, 65535, 65535, 16384), 100);
    assert_eq!(data_frame_len(100000, 10, 65535, 16384), 10);
    assert_eq!(data_frame_len(100000, 65535, 7, 16384), 7);
    assert_eq!(data_frame_len(100000, 0, 7, 16384), 0);
    assert_eq!(data_frame_len(100000, 5, -1, 16384), 0);
}

#[test]
fn take_data_frame_charges_both_windows() {
    let mut c = 20000;
    let mut s = 30000;
    assert_eq!(take_data_frame(&mut c, &mut s, 100000, 16384), 16384);
    assert_eq!((c, s), (20000 - 16384, 30000 - 16384));
    assert_eq!(take_data_frame(&mut c, &mut s, 100000, 16384), 3616);
    assert_eq!((c, s), (0, 30000 - 20000));
    assert_eq!(take_data_frame(&mut c, &mut s, 100000, 16384), 0);
}

#[test]
fn end_stream_only_on_last_frame() {
    assert_eq!(data_frame_flags(16384, 100000, true), 0);
    assert_eq!(data_frame_flags(100, 100, true), 1);
    assert_eq!(data_frame_flags(100, 100, false), 0);
}

/// A run of emissions never sends more than the windows allowed at the start.
#[test]
fn run_stays_within_windows() {
    let mut c = 50000;
    let mut windows = [30000i32, 40000, 0];
    let mut sent = [0usize; 3];
    for round in 0..20 {
        let i = round % 3;
        let n = take_data_frame(&mut c, &mut windows[i], 25000, 16384);
        assert!(n <= 16384);
        sent[i] += n;
    }
    assert!(sent.iter().sum::<usize>() <= 50000);
    assert!(sent[0] <= 30000);
    assert!(sent[1] <= 40000);
    assert_eq!(sent[2], 0);
}

/// A 100000-byte response goes out in frames of at most 16384 bytes, stops
/// when the connection window is spent and resumes after WINDOW_UPDATE.
#[test]
fn large_response_reopens_after_window_update() {
    let mut conn = Conn::new(false, Settings::defaults(false));
    assert!(conn.on_remote_headers(1).is_ok());
    let mut left: usize = 100000;
    let mut frames = 0;
    while conn.may_poll(1) && left > 0 {
        let n = conn.take_data(1, left);
        assert!(n > 0 && n <= 16384);
        left -= n;
        frames += 1;
    }
    assert_eq!(left, 100000 - 65535);
    assert!(frames >= 4);
    assert_eq!(conn.conn_out_window(), 0);
    assert_eq!(conn.on_window_update(0, 65535), Ok(()));
    assert!(!conn.may_poll(1));
    assert_eq!(conn.on_window_update(1, 65535), Ok(()));
    while conn.may_poll(1) && left > 0 {
        left -= conn.take_data(1, left);
    }
    assert_eq!(left, 0);
}

/// With the stream window at 2W and the connection window at W, exactly W
/// bytes go out; a connection WINDOW_UPDATE of W lets the other W go.
#[test]
fn stream_window_gt_conn_window_scenario() {
    let w: u32 = 65535;
    let mut conn = Conn::new(false, Settings::defaults(false));
    assert!(conn.on_remote_headers(1).is_ok());
    assert_eq!(conn.on_window_update(1, w), Ok(()));
    let mut left: usize = 2 * w as usize;
    while conn.may_poll(1) && left > 0 {
        left -= conn.take_data(1, left);
    }
    assert_eq!(left, w as usize);
    assert_eq!(conn.conn_out_window(), 0);
    assert_eq!(conn.stream(1).unwrap().out_window, w as i32);
    assert_eq!(conn.on_window_update(0, w), Ok(()));
    while conn.may_poll(1) && left > 0 {
        left -= conn.take_data(1, left);
    }
    assert_eq!(left, 0);
    assert_eq!(conn.stream(1).unwrap().out_window, 0);
}
