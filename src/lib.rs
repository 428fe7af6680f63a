//! Core of an HTTP/2 connection: frame header codec, HEADERS/CONTINUATION
//! joining, flow-control arithmetic, inbound header policing and the
//! delivery queue between the connection loop and its consumer.
use vstd::prelude::*;

pub mod error_code;
pub mod frame;
pub mod headers;
pub mod client_conn;
pub mod flow;
pub mod continuation;
pub mod error;
pub mod stream_queue;
pub mod decode_read;
pub mod settings;
pub mod conn;
pub mod preface;
pub mod encode_write;
pub mod control;
pub mod inbound;

verus! {

} // verus!
