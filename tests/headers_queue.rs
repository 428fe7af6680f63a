use httpbis::encode_write::HttpEncodeWrite;
use httpbis::continuation::{ContinuationJoin, JoinOutput};
use httpbis::decode_read::{headers_decoded, HttpFrameDecoded, HttpFrameDecodedOrGoaway};
use httpbis::error::{ConnDiedErrorHolder, Error};
use httpbis::error_code::ErrorCode;
use httpbis::headers::{parse_decimal, pseudo_kind, Header, HeaderError, Headers, HeadersPlace, PseudoKind, RequestOrResponse};
use httpbis::preface::{check_preface, http1_500_response, preface, PrefaceCheck};
use httpbis::stream_queue::{stream_queue_sync, Async, DataOrHeaders, DataOrHeadersWithFlag};

fn hs(pairs: &[(&str, &str)]) -> Headers {
    Headers(pairs.iter().map(|(n, v)| Header { name: n.as_bytes().to_vec(), value: v.as_bytes().to_vec() }).collect())
}

fn data(b: &[u8], last: bool) -> DataOrHeadersWithFlag {
    DataOrHeadersWithFlag { content: DataOrHeaders::Data(b.to_vec()), last }
}

#[test]
fn validate_request_and_response() {
    let req = hs(&[(":method", "GET"), (":path", "/aabb"), (":scheme", "http")]);
    assert_eq!(req.validate(RequestOrResponse::Request, HeadersPlace::Initial), Ok(()));
    assert_eq!(req.validate(RequestOrResponse::Response, HeadersPlace::Initial), Err(HeaderError::UnexpectedPseudo));
    let no_path = hs(&[(":method", "GET"), (":scheme", "http")]);
    assert_eq!(no_path.validate(RequestOrResponse::Request, HeadersPlace::Initial), Err(HeaderError::PseudoCount));
    let two = hs(&[(":status", "200"), (":status", "204")]);
    assert_eq!(two.validate(RequestOrResponse::Response, HeadersPlace::Initial), Err(HeaderError::PseudoCount));
    let late = hs(&[("x", "1"), (":status", "200")]);
    assert_eq!(late.validate(RequestOrResponse::Response, HeadersPlace::Initial), Err(HeaderError::PseudoAfterRegular));
    let trailer = hs(&[(":status", "200")]);
    assert_eq!(trailer.validate(RequestOrResponse::Response, HeadersPlace::Trailing), Err(HeaderError::UnexpectedPseudo));
    assert_eq!(hs(&[("x", "1")]).validate(RequestOrResponse::Response, HeadersPlace::Trailing), Ok(()));
}

#[test]
fn status_and_content_length() {
    assert_eq!(hs(&[(":status", "204")]).status(), Some(204));
    assert_eq!(hs(&[(":status", "2x4")]).status(), None);
    assert_eq!(hs(&[(":status", "2000")]).status(), None);
    assert_eq!(hs(&[("a", "b")]).status(), None);
    assert_eq!(hs(&[("content-length", "100000")]).content_length(), Some(100000));
    assert_eq!(hs(&[("content-length", "")]).content_length(), None);
    assert_eq!(parse_decimal(b"18446744073709551615"), Some(u64::MAX));
    assert_eq!(parse_decimal(b"18446744073709551616"), None);
    assert_eq!(pseudo_kind(b":authority"), PseudoKind::Authority);
    assert_eq!(pseudo_kind(b":foo"), PseudoKind::Other);
}

#[test]
fn queue_counts_data_bytes() {
    let mut q = stream_queue_sync(ConnDiedErrorHolder::new());
    assert_eq!(q.data_size(), 0);
    assert_eq!(q.send_part(DataOrHeadersWithFlag { content: DataOrHeaders::Headers(hs(&[(":status", "200")])), last: false }), Ok(()));
    assert_eq!(q.send_part(data(b"abcd", false)), Ok(()));
    assert_eq!(q.send_part(data(b"ef", true)), Ok(()));
    assert_eq!(q.data_size(), 6);
    assert!(matches!(q.poll(), Ok(Async::Ready(Some(DataOrHeadersWithFlag { content: DataOrHeaders::Headers(_), .. })))));
    assert_eq!(q.data_size(), 6);
    match q.poll() {
        Ok(Async::Ready(Some(DataOrHeadersWithFlag { content: DataOrHeaders::Data(b), last }))) => {
            assert_eq!(b, b"abcd".to_vec());
            assert!(!last);
        }
        _ => panic!("expected data"),
    }
    assert_eq!(q.data_size(), 2);
    assert!(matches!(q.poll(), Ok(Async::Ready(Some(_)))));
    assert_eq!(q.data_size(), 0);
    assert!(matches!(q.poll(), Ok(Async::NotReady)));
    assert_eq!(q.send_eof(), Ok(()));
    assert!(matches!(q.poll(), Ok(Async::Ready(None))));
}

#[test]
fn queue_errors_and_death() {
    let mut holder = ConnDiedErrorHolder::new();
    holder.set_once(Error::Connection(ErrorCode::FrameSizeError));
    let mut q = stream_queue_sync(holder);
    assert_eq!(q.send_error(Error::Stream(ErrorCode::Cancel)), Ok(()));
    assert!(matches!(q.poll(), Err(Error::Stream(ErrorCode::Cancel))));
    q.drop_sender();
    assert!(matches!(q.poll(), Err(Error::Connection(ErrorCode::FrameSizeError))));
    let mut live = stream_queue_sync(ConnDiedErrorHolder::new());
    live.set_died_cause(Error::Connection(ErrorCode::FlowControlError));
    live.drop_sender();
    assert!(matches!(live.poll(), Err(Error::Connection(ErrorCode::FlowControlError))));
    q.drop_receiver();
    assert_eq!(q.send_part(data(b"x", false)), Err(()));
    assert_eq!(q.data_size(), 0);
}

#[test]
fn http1_greeting_detected() {
    assert_eq!(check_preface(b"GET / HTTP/1.1\n"), PrefaceCheck::Http1);
    assert_eq!(check_preface(b"POST /x HTTP/1.1\r\n"), PrefaceCheck::Http1);
    assert_eq!(check_preface(b"PRI * HTTP/2.0\r\n\r\nSM\r\n\r\n"), PrefaceCheck::Http2);
    assert_eq!(check_preface(b"PRI * HT"), PrefaceCheck::NeedMore);
    assert_eq!(check_preface(b"P"), PrefaceCheck::NeedMore);
    assert_eq!(check_preface(b"GE"), PrefaceCheck::NeedMore);
    assert_eq!(check_preface(b"HELLO"), PrefaceCheck::Invalid);
    assert_eq!(preface().len(), 24);
    let r = http1_500_response();
    assert!(r.starts_with(b"HTTP/1.1 500 Internal Server Error\r\n"));
}

fn round_trip(list: &Headers, max_frame_size: u32, w: &mut HttpEncodeWrite, d: &mut hpack::Decoder) -> (usize, Headers) {
    let frames = w.headers_frames(1, true, list, max_frame_size);
    let n = frames.len();
    let mut j = ContinuationJoin::new();
    let mut joined = None;
    for f in frames {
        if let Ok(JoinOutput::Headers(h)) = j.accept(f) {
            joined = Some(h);
        }
    }
    let joined = joined.expect("joined");
    let decoded = d.decode(&joined.block).map_err(|_| ());
    match headers_decoded(joined, decoded) {
        HttpFrameDecodedOrGoaway::Frame(HttpFrameDecoded::Headers(h)) => (n, h.headers),
        _ => panic!("decode failed"),
    }
}

#[test]
fn hpack_round_trip() {
    let mut w = HttpEncodeWrite::new();
    let mut d = hpack::Decoder::new();
    let list = hs(&[(":status", "200"), ("content-type", "text/plain"), ("x-custom", "abc")]);
    let (_, back) = round_trip(&list, 16384, &mut w, &mut d);
    assert_eq!(back.0.len(), 3);
    for (a, b) in list.0.iter().zip(back.0.iter()) {
        assert_eq!(a.name, b.name);
        assert_eq!(a.value, b.value);
    }
    let (_, again) = round_trip(&list, 16384, &mut w, &mut d);
    assert_eq!(again.0[2].value, b"abc".to_vec());
    let empty = w.headers_frames(3, false, &Headers(vec![]), 16384);
    assert_eq!(empty.len(), 1);
    assert!(empty[0].payload.is_empty());
}

#[test]
fn long_header_list_uses_continuation() {
    let mut w = HttpEncodeWrite::new();
    let mut d = hpack::Decoder::new();
    let mut fields = vec![Header { name: b":status".to_vec(), value: b"200".to_vec() }];
    for i in 0..1000 {
        fields.push(Header {
            name: format!("abcdefghijklmnop{}", i).into_bytes(),
            value: format!("ABCDEFGHIJKLMNOP{}", i).into_bytes(),
        });
    }
    let list = Headers(fields);
    let frames = w.headers_frames(1, true, &list, 16384);
    assert!(frames.len() >= 2);
    assert_eq!(frames[0].header.frame_type, 1);
    assert_eq!(frames[0].header.flags & 4, 0);
    assert_eq!(frames[1].header.frame_type, 9);
    assert_eq!(frames.last().unwrap().header.flags & 4, 4);
    let (_, back) = round_trip(&list, 16384, &mut w, &mut d);
    assert_eq!(back.0.len(), 1001);
    assert_eq!(back.0[1000].name, b"abcdefghijklmnop999".to_vec());
}
