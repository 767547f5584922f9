//! The compression boundary.  Chunks are stored either verbatim or as a
//! Gzip stream; everything the rest of the crate knows about Gzip is what
//! the two trusted wrappers below state.

use vstd::prelude::*;
use std::io::Read;
use std::io::Write;

verus! {

/// What decompressing a byte sequence as one Gzip stream yields: the
/// decompressed bytes, or nothing when the sequence is not a valid stream.
/// Decompression is a pure function of the input bytes, so the name is
/// well defined; its value is known only through the wrappers below.
pub uninterp spec fn gunzip_of(data: Seq<u8>) -> Option<Seq<u8>>;

/// The plaintext a stored chunk stands for: itself when stored verbatim,
/// what it decompresses to when stored compressed.
pub open spec fn decode_stored(stored: Seq<u8>, compressed: bool) -> Option<Seq<u8>> {
    if compressed {
        gunzip_of(stored)
    } else {
        Some(stored)
    }
}

/// Relies on flate2's write::GzEncoder: the Gzip stream it produces
/// decompresses back to exactly the bytes written into it.  Writing into
/// an in-memory buffer cannot fail.
#[verifier::external_body]
fn gzip_compress(data: &[u8]) -> (r: Vec<u8>)
    ensures
        gunzip_of(r@) == Some(data@),
{
    let mut encoder = flate2::write::GzEncoder::new(Vec::new(), flate2::Compression::default());
    encoder.write_all(data).unwrap();
    encoder.finish().unwrap()
}

/// Relies on flate2's read::GzDecoder: reading it to the end yields the
/// decompressed bytes of a valid Gzip stream and an error otherwise,
/// deterministically in the input bytes.
#[verifier::external_body]
fn gzip_decompress(data: &[u8]) -> (r: Option<Vec<u8>>)
    ensures
        r matches Some(v) ==> gunzip_of(data@) == Some(v@),
        r is None ==> gunzip_of(data@) is None,
{
    let mut decoder = flate2::read::GzDecoder::new(data);
    let mut out = Vec::new();
    match decoder.read_to_end(&mut out) {
        Ok(_) => Some(out),
        Err(_) => None,
    }
}

/// Turn a plaintext chunk into its stored form: compressed or verbatim.
pub fn encode_chunk(plain: &[u8], compress: bool) -> (r: Vec<u8>)
    ensures
        decode_stored(r@, compress) == Some(plain@),
        !compress ==> r@ == plain@,
{
    if compress {
        gzip_compress(plain)
    } else {
        vstd::slice::slice_to_vec(plain)
    }
}

/// Turn a stored chunk back into its plaintext, or report that its bytes
/// do not decode.
pub fn decode_chunk(stored: &[u8], compressed: bool) -> (r: Option<Vec<u8>>)
    ensures
        r matches Some(v) ==> decode_stored(stored@, compressed) == Some(v@),
        r is None ==> decode_stored(stored@, compressed) is None,
{
    if compressed {
        gzip_decompress(stored)
    } else {
        Some(vstd::slice::slice_to_vec(stored))
    }
}

} // verus!
