use httpbis::continuation::{
    split_header_block, ContinuationJoin, JoinOutput, RawFrame, StreamDependency,
};
use httpbis::decode_read::{
    classify_frame, headers_decoded, HttpDecodeRead, HttpFrameDecoded, HttpFrameDecodedOrGoaway,
    ReadStep,
};
use httpbis::error_code::ErrorCode;
use httpbis::frame::{check_frame_length, frame_kind, pack_header, unpack_header, FrameHeader, FrameKind};
use httpbis::stream_queue::Async;

fn header(length: u32, frame_type: u8, flags: u8, stream_id: u32) -> FrameHeader {
    FrameHeader { length, frame_type, flags, stream_id }
}

fn wire(h: FrameHeader, payload: &[u8]) -> Vec<u8> {
    let mut v = pack_header(h);
    v.extend_from_slice(payload);
    v
}

#[test]
fn header_round_trip() {
    let h = header(0x012345, 1, 5, 0x7fff_fffe);
    let b = pack_header(h);
    assert_eq!(b, vec![0x01, 0x23, 0x45, 1, 5, 0x7f, 0xff, 0xff, 0xfe]);
    assert_eq!(unpack_header(&b), Some(h));
}

#[test]
fn header_reserved_bit_ignored() {
    let b = [0u8, 0, 4, 0, 1, 0x80, 0, 0, 3];
    assert_eq!(unpack_header(&b), Some(header(4, 0, 1, 3)));
    assert_eq!(unpack_header(&b[..8]), None);
}

#[test]
fn frame_kinds() {
    assert_eq!(frame_kind(0), FrameKind::Data);
    assert_eq!(frame_kind(9), FrameKind::Continuation);
    assert_eq!(frame_kind(0x42), FrameKind::Unknown(0x42));
}

#[test]
fn frame_length_limit() {
    assert_eq!(check_frame_length(&header(16384, 0, 0, 1), 16384), Ok(()));
    assert_eq!(check_frame_length(&header(17000, 0, 0, 1), 16384), Err(ErrorCode::FrameSizeError));
}

#[test]
fn exceed_max_frame_size_asks_goaway() {
    let mut r = HttpDecodeRead::new();
    let payload = vec![0u8; 17000];
    r.feed(&wire(header(17000, 0, 1, 1), &payload));
    match r.poll_http_frame(16384) {
        Async::Ready(ReadStep::SendGoaway(e)) => assert_eq!(e, ErrorCode::FrameSizeError),
        _ => panic!("expected GOAWAY"),
    }
    let mut r2 = HttpDecodeRead::new();
    r2.feed(&wire(header(17000, 0, 1, 1), &payload));
    match r2.poll_http_frame(20000) {
        Async::Ready(ReadStep::Frame(f)) => assert_eq!(f.payload.len(), 17000),
        _ => panic!("expected a DATA frame"),
    }
}

#[test]
fn reader_waits_for_whole_frame() {
    let mut r = HttpDecodeRead::new();
    let bytes = wire(header(4, 0, 1, 1), b"abcd");
    r.feed(&bytes[..5]);
    assert!(matches!(r.poll_http_frame(16384), Async::NotReady));
    r.feed(&bytes[5..11]);
    assert!(matches!(r.poll_http_frame(16384), Async::NotReady));
    r.feed(&bytes[11..]);
    match r.poll_http_frame(16384) {
        Async::Ready(ReadStep::Frame(f)) => {
            assert_eq!(f.header, header(4, 0, 1, 1));
            assert_eq!(f.payload, b"abcd".to_vec());
        }
        _ => panic!("expected a frame"),
    }
    assert!(matches!(r.poll_http_frame(16384), Async::NotReady));
}

#[test]
fn reader_joins_continuation() {
    let mut r = HttpDecodeRead::new();
    r.feed(&wire(header(3, 1, 1, 5), b"abc"));
    r.feed(&wire(header(2, 9, 0, 5), b"de"));
    r.feed(&wire(header(1, 9, 4, 5), b"f"));
    assert!(matches!(r.poll_http_frame(16384), Async::Ready(ReadStep::Partial)));
    assert!(matches!(r.poll_http_frame(16384), Async::Ready(ReadStep::Partial)));
    match r.poll_http_frame(16384) {
        Async::Ready(ReadStep::Headers(j)) => {
            assert_eq!(j.stream_id, 5);
            assert_eq!(j.flags, 5);
            assert_eq!(j.block, b"abcdef".to_vec());
        }
        _ => panic!("expected a joined block"),
    }
}

#[test]
fn interleaved_frame_in_block_is_protocol_error() {
    let mut j = ContinuationJoin::new();
    let h = RawFrame { header: header(2, 1, 0, 3), payload: b"ab".to_vec() };
    assert!(matches!(j.accept(h), Ok(JoinOutput::NeedMore)));
    assert!(j.in_block());
    let d = RawFrame { header: header(1, 0, 0, 3), payload: b"x".to_vec() };
    assert!(matches!(j.accept(d), Err(ErrorCode::ProtocolError)));
    let c = RawFrame { header: header(1, 9, 4, 7), payload: b"x".to_vec() };
    assert!(matches!(j.accept(c), Err(ErrorCode::ProtocolError)));
}

#[test]
fn stray_continuation_is_protocol_error() {
    let mut j = ContinuationJoin::new();
    let c = RawFrame { header: header(1, 9, 4, 1), payload: b"x".to_vec() };
    assert!(matches!(j.accept(c), Err(ErrorCode::ProtocolError)));
}

#[test]
fn padded_priority_headers_fragment() {
    let mut j = ContinuationJoin::new();
    // PADDED | PRIORITY | END_HEADERS; pad length 2, five priority bytes.
    let mut p = vec![2u8, 0, 0, 0, 1, 16];
    p.extend_from_slice(b"blk");
    p.extend_from_slice(&[0, 0]);
    let f = RawFrame { header: header(p.len() as u32, 1, 0x8 | 0x20 | 0x4, 1), payload: p };
    match j.accept(f) {
        Ok(JoinOutput::Headers(h)) => {
            assert_eq!(h.block, b"blk".to_vec());
            assert_eq!(h.padding_len, 2);
            assert_eq!(h.stream_dep, Some(StreamDependency { stream_id: 1, exclusive: false, weight: 16 }));
        }
        _ => panic!("expected a block"),
    }
    let mut p2 = vec![0x80u8, 0, 0, 3, 200];
    p2.extend_from_slice(b"ab");
    let opening = RawFrame { header: header(p2.len() as u32, 1, 0x20, 7), payload: p2 };
    assert!(matches!(j.accept(opening), Ok(JoinOutput::NeedMore)));
    let cont = RawFrame { header: header(1, 9, 4, 7), payload: b"c".to_vec() };
    match j.accept(cont) {
        Ok(JoinOutput::Headers(h)) => {
            assert_eq!(h.block, b"abc".to_vec());
            assert_eq!(h.flags, 0x24);
            assert_eq!(h.padding_len, 0);
            assert_eq!(h.stream_dep, Some(StreamDependency { stream_id: 3, exclusive: true, weight: 200 }));
        }
        _ => panic!("expected a block"),
    }
    let bad = RawFrame { header: header(1, 1, 0x8 | 0x4, 1), payload: vec![5] };
    assert!(matches!(j.accept(bad), Err(ErrorCode::ProtocolError)));
}

#[test]
fn continuation_splits_join_the_same() {
    let block: Vec<u8> = (0u8..50).collect();
    let mut results = Vec::new();
    for size in [1u32, 7, 16, 50, 1000] {
        let frames = split_header_block(9, true, &block, size);
        let mut j = ContinuationJoin::new();
        let mut joined = None;
        for f in frames {
            if let Ok(JoinOutput::Headers(h)) = j.accept(f) {
                joined = Some(h);
            }
        }
        let h = joined.expect("block joined");
        assert_eq!(h.stream_id, 9);
        assert_eq!(h.flags, 5);
        results.push(h.block);
    }
    for r in &results {
        assert_eq!(r, &block);
    }
}

#[test]
fn split_header_block_shape() {
    let block = vec![7u8; 40000];
    let frames = split_header_block(3, false, &block, 16384);
    assert_eq!(frames.len(), 3);
    assert_eq!(frames[0].header, header(16384, 1, 0, 3));
    assert_eq!(frames[1].header, header(16384, 9, 0, 3));
    assert_eq!(frames[2].header, header(40000 - 2 * 16384, 9, 4, 3));
    let single = split_header_block(3, true, &[], 16384);
    assert_eq!(single.len(), 1);
    assert_eq!(single[0].header, header(0, 1, 5, 3));
}

#[test]
fn decode_failure_sends_compression_error() {
    let j = httpbis::continuation::JoinedHeaders { stream_id: 1, flags: 5, block: vec![0xff], stream_dep: None, padding_len: 0, promised_stream_id: None };
    match headers_decoded(j, Err(())) {
        HttpFrameDecodedOrGoaway::SendGoaway(e) => assert_eq!(e, ErrorCode::CompressionError),
        _ => panic!("expected GOAWAY"),
    }
}

#[test]
fn decoded_headers_kept_in_order() {
    let j = httpbis::continuation::JoinedHeaders {
        stream_id: 3,
        flags: 4,
        block: vec![],
        stream_dep: Some(StreamDependency { stream_id: 1, exclusive: true, weight: 16 }),
        padding_len: 2,
        promised_stream_id: None,
    };
    let list = vec![(b":status".to_vec(), b"200".to_vec()), (b"x".to_vec(), b"y".to_vec())];
    match headers_decoded(j, Ok(list)) {
        HttpFrameDecodedOrGoaway::Frame(HttpFrameDecoded::Headers(h)) => {
            assert_eq!(h.stream_id, 3);
            assert_eq!(h.stream_dep, Some(StreamDependency { stream_id: 1, exclusive: true, weight: 16 }));
            assert_eq!(h.padding_len, 2);
            assert_eq!(h.headers.0.len(), 2);
            assert_eq!(h.headers.0[0].name, b":status".to_vec());
            assert_eq!(h.headers.0[1].value, b"y".to_vec());
        }
        _ => panic!("expected headers"),
    }
}

#[test]
fn classify_frames() {
    let f = RawFrame { header: header(8, 6, 0, 0), payload: vec![0; 8] };
    assert!(matches!(classify_frame(f), HttpFrameDecoded::Ping(_)));
    let f = RawFrame { header: header(0, 0x20, 0, 0), payload: vec![] };
    assert!(matches!(classify_frame(f), HttpFrameDecoded::Unknown(_)));
}

#[test]
fn push_promise_is_joined_and_decoded() {
    let mut j = ContinuationJoin::new();
    let f = RawFrame { header: header(6, 5, 0, 1), payload: vec![0, 0, 0, 2, 0x82, 0x84] };
    assert!(matches!(j.accept(f), Ok(JoinOutput::NeedMore)));
    let c = RawFrame { header: header(1, 9, 4, 1), payload: vec![0x86] };
    let joined = match j.accept(c) {
        Ok(JoinOutput::Headers(h)) => h,
        _ => panic!("expected a joined block"),
    };
    assert_eq!(joined.promised_stream_id, Some(2));
    assert_eq!(joined.block, vec![0x82, 0x84, 0x86]);
    assert_eq!(joined.flags, 4);
    let mut d = hpack::Decoder::new();
    let list = d.decode(&joined.block).map_err(|_| ());
    match headers_decoded(joined, list) {
        HttpFrameDecodedOrGoaway::Frame(HttpFrameDecoded::PushPromise(p)) => {
            assert_eq!(p.stream_id, 1);
            assert_eq!(p.promised_stream_id, 2);
            assert_eq!(p.headers.0.len(), 3);
            assert_eq!(p.headers.0[0].name, b":method".to_vec());
        }
        _ => panic!("expected a push promise"),
    }
}
