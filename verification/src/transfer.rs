//! Chunk transfer: a serialized chunk travels zlib-compressed, and only when
//! the compressed packet fits the channel's largest message.

use vstd::prelude::*;
use std::io::Write;

verus! {

/// What flate2's zlib encoder at `Compression::best()` makes of `data`.
pub uninterp spec fn zlib_best(data: Seq<u8>) -> Seq<u8>;

/// flate2's `ZlibEncoder` over a `Vec` at `Compression::best()`: writes all of
/// `data` and finishes the stream. The result is named, not described: it is
/// the zlib stream that flate2 produces for these bytes. Writing into a `Vec`
/// does not fail.
#[verifier::external_body]
fn zlib_compress_best(data: &[u8]) -> (r: Vec<u8>)
    ensures
        r@ == zlib_best(data@),
{
    let mut encoder = flate2::write::ZlibEncoder::new(Vec::new(), flate2::Compression::best());
    encoder.write_all(data).unwrap();
    encoder.finish().unwrap()
}

/// The packet for a serialized chunk `data` when its compression fits in
/// `max_len` bytes, and `None` when it does not.
pub fn chunk_packet(data: &Vec<u8>, max_len: usize) -> (r: Option<Vec<u8>>)
    ensures
        match r {
            Some(p) => zlib_best(data@).len() <= max_len && p@ == zlib_best(data@),
            None => zlib_best(data@).len() > max_len,
        },
{
    let packed = zlib_compress_best(data.as_slice());
    if packed.len() <= max_len {
        Some(packed)
    } else {
        None
    }
}

} // verus!
