//! Header compression on the write side.
use vstd::prelude::*;
use crate::continuation::{chunks, split_frame, split_header_block, RawFrame};
use crate::headers::{view_headers, Headers};

verus! {

#[verifier::external_type_specification]
#[verifier::external_body]
pub struct ExEncoder<'a>(hpack::Encoder<'a>);

/// Relies on hpack::Encoder::new: an encoder with the static table and an
/// empty dynamic table.
#[verifier::external_body]
fn new_encoder() -> (r: hpack::Encoder<'static>) {
    hpack::Encoder::new()
}

/// The block that an encoder in a given state (its dynamic table) writes
/// for a header list.
pub uninterp spec fn hpack_block(encoder: hpack::Encoder<'static>, headers: Seq<(Seq<u8>, Seq<u8>)>) -> Seq<u8>;

/// Relies on hpack::Encoder::encode: the block depends only on the
/// encoder's state and the list; one header block for the list, at
/// least one byte per field (an index or a literal), nothing for an empty
/// list; the encoder's dynamic table is updated as it goes.
#[verifier::external_body]
fn hpack_encode(encoder: &mut hpack::Encoder<'static>, headers: &Headers) -> (r: Vec<u8>)
    ensures
        r@ == hpack_block(*old(encoder), view_headers(*headers)),
        r@.len() >= headers.0@.len(),
        headers.0@.len() == 0 ==> r@.len() == 0,
{
    encoder.encode(headers.0.iter().map(|h| (h.name.as_slice(), h.value.as_slice())))
}

/// The write side of header compression: encodes header lists and frames
/// the blocks.
pub struct HttpEncodeWrite {
    encoder: hpack::Encoder<'static>,
}

impl HttpEncodeWrite {
    /// The encoder's state.
    pub closed spec fn encoder(&self) -> hpack::Encoder<'static> {
        self.encoder
    }

    /// A writer whose encoder starts with an empty dynamic table.
    pub fn new() -> (r: HttpEncodeWrite) {
        HttpEncodeWrite { encoder: new_encoder() }
    }

    /// HEADERS and CONTINUATION frames for a header list on stream `sid`:
    /// the HPACK block cut at MAX_FRAME_SIZE, END_HEADERS on the last frame,
    /// END_STREAM on the first when asked.
    pub fn headers_frames(&mut self, sid: u32, end_stream: bool, headers: &Headers, max_frame_size: u32) -> (r: Vec<RawFrame>)
        requires
            max_frame_size > 0,
        ensures
            ({
                let block = hpack_block(old(self).encoder(), view_headers(*headers));
                &&& block.len() >= headers.0@.len()
                &&& (headers.0@.len() == 0 ==> block.len() == 0)
                &&& r@.len() == chunks(block, max_frame_size as int).len()
                &&& forall|i: int| 0 <= i < r@.len() ==> (#[trigger] r@[i]).header == split_frame(sid, end_stream, chunks(block, max_frame_size as int), i).0
                    && r@[i].payload@ == split_frame(sid, end_stream, chunks(block, max_frame_size as int), i).1
            }),
    {
        let block = hpack_encode(&mut self.encoder, headers);
        let r = split_header_block(sid, end_stream, block.as_slice(), max_frame_size);
        assert(block@.len() >= headers.0@.len());
        r
    }
}

} // verus!
