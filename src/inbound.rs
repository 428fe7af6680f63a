//! What the connection does with each frame it receives.
use vstd::prelude::*;
use crate::client_conn::HeadersAction;
use crate::conn::{
    data_spec, headers_conn_spec, peer_settings_spec, remote_headers_spec, window_update_conn_spec,
    Conn, ConnView, DataAction, RemoteHeaders,
};
use crate::control::{
    check_ping, parse_goaway, parse_rst_stream, parse_window_update, ping_ack_frame, read_be31,
    read_be32, read_settings_frame, settings_ack_frame, SettingsFrame,
};
use crate::decode_read::HttpFrameDecoded;
use crate::error_code::ErrorCode;
use crate::frame::{header_bytes, FrameHeader};
use crate::headers::view_headers;
use crate::settings::settings_pairs;

verus! {

/// What the connection loop does after a received frame.
#[derive(Clone, Debug)]
pub enum InboundAction {
    /// Nothing to send or deliver.
    Nothing,
    /// A header block was policed on a stream: deliver it, or reset the
    /// stream, as the action says.
    Headers(u32, HeadersAction),
    /// DATA was taken on a stream: deliver it, or reset the stream.
    Data(u32, DataAction),
    /// Write these bytes (a SETTINGS or PING acknowledgement).
    Reply(Vec<u8>),
    /// The peer reset a stream with this error code value.
    PeerReset(u32, u32),
    /// The peer is going away: its last processed stream and error code value.
    PeerGoaway(u32, u32),
    /// A connection error: send GOAWAY with this code and close.
    Goaway(ErrorCode),
}

/// Takes one received frame: each kind goes to the operation of `Conn`
/// that rules it, and a connection error from any of them becomes GOAWAY.
/// PRIORITY and unknown frames are ignored; PUSH_PROMISE is refused, since
/// push is never enabled.
pub fn on_frame(conn: &mut Conn, f: HttpFrameDecoded) -> (r: InboundAction)
    requires
        old(conn).wf(),
    ensures
        final(conn).wf(),
        ({
            let v = old(conn).view();
            let w = final(conn).view();
            match f {
                HttpFrameDecoded::Data(g) => {
                    let sid = g.header.stream_id;
                    let s = data_spec(v, sid, g.payload@.len() as u32, g.header.flags % 2 == 1);
                    &&& g.payload@.len() <= u32::MAX ==> w == s.1
                    &&& g.payload@.len() <= u32::MAX ==> match s.0 {
                        Ok(a) => r matches InboundAction::Data(sid2, a2) && sid2 == sid && a2 == a,
                        Err(e) => r matches InboundAction::Goaway(e2) && e2 == e,
                    }
                    &&& g.payload@.len() > u32::MAX ==> w == v && r matches InboundAction::Goaway(ErrorCode::FrameSizeError)
                },
                HttpFrameDecoded::Headers(h) => {
                    let sid = h.stream_id;
                    let s1 = remote_headers_spec(v, sid);
                    let s2 = headers_conn_spec(s1.1, sid, h.flags % 2 == 1, view_headers(h.headers));
                    match s1.0 {
                        Err(e) => w == v && (r matches InboundAction::Goaway(e2) && e2 == e),
                        Ok(RemoteHeaders::Ignored) => w == v && (r matches InboundAction::Nothing),
                        Ok(_) => w == s2.1 && match s2.0 {
                            Err(e) => r matches InboundAction::Goaway(e2) && e2 == e,
                            Ok(None) => r matches InboundAction::Nothing,
                            Ok(Some(a)) => r matches InboundAction::Headers(sid2, a2) && sid2 == sid && a2 == a,
                        },
                    }
                },
                HttpFrameDecoded::WindowUpdate(g) => if g.payload@.len() != 4 {
                    w == v && (r matches InboundAction::Goaway(ErrorCode::FrameSizeError))
                } else {
                    let s = window_update_conn_spec(v, g.header.stream_id, read_be31(g.payload@, 0));
                    w == s.1 && match s.0 {
                        Ok(()) => r matches InboundAction::Nothing,
                        Err(e) => r matches InboundAction::Goaway(e2) && e2 == e,
                    }
                },
                HttpFrameDecoded::Settings(g) => if g.header.stream_id != 0 {
                    w == v && (r matches InboundAction::Goaway(ErrorCode::ProtocolError))
                } else if g.header.flags % 2 == 1 {
                    w == v && if g.payload@.len() == 0 {
                        r matches InboundAction::Nothing
                    } else {
                        r matches InboundAction::Goaway(ErrorCode::FrameSizeError)
                    }
                } else if g.payload@.len() % 6 != 0 {
                    w == v && (r matches InboundAction::Goaway(ErrorCode::FrameSizeError))
                } else {
                    let s = peer_settings_spec(v, settings_pairs(g.payload@));
                    w == s.1 && match s.0 {
                        Ok(()) => r matches InboundAction::Reply(b)
                            && b@ == header_bytes(FrameHeader { length: 0, frame_type: 4, flags: 1, stream_id: 0 }),
                        Err(e) => r matches InboundAction::Goaway(e2) && e2 == e,
                    }
                },
                HttpFrameDecoded::Ping(g) => w == v && if g.header.stream_id != 0 {
                    r matches InboundAction::Goaway(ErrorCode::ProtocolError)
                } else if g.payload@.len() != 8 {
                    r matches InboundAction::Goaway(ErrorCode::FrameSizeError)
                } else if g.header.flags % 2 == 1 {
                    r matches InboundAction::Nothing
                } else {
                    r matches InboundAction::Reply(b)
                        && b@ == header_bytes(FrameHeader { length: 8, frame_type: 6, flags: 1, stream_id: 0 }) + g.payload@
                },
                HttpFrameDecoded::RstStream(g) => if g.header.stream_id == 0 {
                    w == v && (r matches InboundAction::Goaway(ErrorCode::ProtocolError))
                } else if g.payload@.len() != 4 {
                    w == v && (r matches InboundAction::Goaway(ErrorCode::FrameSizeError))
                } else {
                    w == (ConnView { streams: v.streams.remove(g.header.stream_id), ..v })
                        && (r matches InboundAction::PeerReset(sid, code) && sid == g.header.stream_id
                        && code == read_be32(g.payload@, 0))
                },
                HttpFrameDecoded::Goaway(g) => w == v && if g.header.stream_id != 0 {
                    r matches InboundAction::Goaway(ErrorCode::ProtocolError)
                } else if g.payload@.len() < 8 {
                    r matches InboundAction::Goaway(ErrorCode::FrameSizeError)
                } else {
                    r matches InboundAction::PeerGoaway(last, code) && last == read_be31(g.payload@, 0)
                        && code == read_be32(g.payload@, 4)
                },
                HttpFrameDecoded::PushPromise(_) => w == v && (r matches InboundAction::Goaway(ErrorCode::ProtocolError)),
                HttpFrameDecoded::Priority(_) => w == v && (r matches InboundAction::Nothing),
                HttpFrameDecoded::Unknown(_) => w == v && (r matches InboundAction::Nothing),
            }
        }),
{
    match f {
        HttpFrameDecoded::Data(g) => {
            if g.payload.len() > u32::MAX as usize {
                return InboundAction::Goaway(ErrorCode::FrameSizeError);
            }
            let sid = g.header.stream_id;
            match conn.on_data(sid, g.payload.len() as u32, g.header.flags % 2 == 1) {
                Ok(a) => InboundAction::Data(sid, a),
                Err(e) => InboundAction::Goaway(e),
            }
        },
        HttpFrameDecoded::Headers(h) => {
            let sid = h.stream_id;
            match conn.on_remote_headers(sid) {
                Err(e) => InboundAction::Goaway(e),
                Ok(RemoteHeaders::Ignored) => InboundAction::Nothing,
                Ok(_) => match conn.on_headers(sid, h.flags % 2 == 1, &h.headers) {
                    Err(e) => InboundAction::Goaway(e),
                    Ok(None) => InboundAction::Nothing,
                    Ok(Some(a)) => InboundAction::Headers(sid, a),
                },
            }
        },
        HttpFrameDecoded::WindowUpdate(g) => match parse_window_update(g.payload.as_slice()) {
            Err(e) => InboundAction::Goaway(e),
            Ok(inc) => match conn.on_window_update(g.header.stream_id, inc) {
                Ok(()) => InboundAction::Nothing,
                Err(e) => InboundAction::Goaway(e),
            },
        },
        HttpFrameDecoded::Settings(g) => match read_settings_frame(&g.header, g.payload.as_slice()) {
            Err(e) => InboundAction::Goaway(e),
            Ok(SettingsFrame::Ack) => InboundAction::Nothing,
            Ok(SettingsFrame::Pairs(pairs)) => match conn.apply_peer_settings(&pairs) {
                Ok(()) => InboundAction::Reply(settings_ack_frame()),
                Err(e) => InboundAction::Goaway(e),
            },
        },
        HttpFrameDecoded::Ping(g) => match check_ping(g.header.stream_id, g.payload.as_slice()) {
            Err(e) => InboundAction::Goaway(e),
            Ok(()) => if g.header.flags % 2 == 1 {
                InboundAction::Nothing
            } else {
                InboundAction::Reply(ping_ack_frame(g.payload.as_slice()))
            },
        },
        HttpFrameDecoded::RstStream(g) => match parse_rst_stream(g.header.stream_id, g.payload.as_slice()) {
            Err(e) => InboundAction::Goaway(e),
            Ok(code) => {
                conn.reset_stream(g.header.stream_id);
                InboundAction::PeerReset(g.header.stream_id, code)
            },
        },
        HttpFrameDecoded::Goaway(g) => match parse_goaway(g.header.stream_id, g.payload.as_slice()) {
            Err(e) => InboundAction::Goaway(e),
            Ok((last, code)) => InboundAction::PeerGoaway(last, code),
        },
        HttpFrameDecoded::PushPromise(_) => InboundAction::Goaway(ErrorCode::ProtocolError),
        HttpFrameDecoded::Priority(_) => InboundAction::Nothing,
        HttpFrameDecoded::Unknown(_) => InboundAction::Nothing,
    }
}

} // verus!
