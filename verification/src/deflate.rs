//! Compression of stored objects, through flate2's gzip encoder and decoder.

use flate2::Compression;
use flate2::read::GzDecoder;
use flate2::write::GzEncoder;
use std::io::{Read, Write};
use vstd::prelude::*;

verus! {

/// What flate2's gzip decoder yields on a byte sequence: `Some` of the
/// decoded bytes when the input is a well-formed stream, `None` when decoding
/// fails. Left uninterpreted: decoding is a fixed function of the input
/// bytes, and that is all the contracts here rely on.
pub uninterp spec fn gunzip_of(data: Seq<u8>) -> Option<Seq<u8>>;

/// Relies on flate2::read::GzDecoder: decoding is deterministic in the input
/// bytes, succeeding exactly on well-formed streams.
#[verifier::external_body]
pub(crate) fn gzip_decompress(data: &Vec<u8>) -> (r: Result<Vec<u8>, String>)
    ensures
        r matches Ok(d) ==> gunzip_of(data@) == Some(d@),
        r is Err ==> gunzip_of(data@) is None,
{
    let mut decoder = GzDecoder::new(data.as_slice());
    let mut raw = Vec::new();
    match decoder.read_to_end(&mut raw) {
        Ok(_) => Ok(raw),
        Err(e) => Err(format!("Failed to decompress: {}", e)),
    }
}

/// Relies on flate2::write::GzEncoder: the stream it produces decodes, with
/// the matching decoder above, back to the bytes that were written. With an
/// in-memory `Vec` sink there is no failing write and the compressor itself
/// reports no error, so the call always succeeds.
#[verifier::external_body]
pub(crate) fn gzip_compress(data: &Vec<u8>) -> (r: Result<Vec<u8>, String>)
    ensures
        r is Ok,
        r matches Ok(z) ==> gunzip_of(z@) == Some(data@),
{
    let mut encoder = GzEncoder::new(Vec::new(), Compression::default());
    if let Err(e) = encoder.write_all(data.as_slice()) {
        return Err(format!("Failed to compress: {}", e));
    }
    match encoder.finish() {
        Ok(z) => Ok(z),
        Err(e) => Err(format!("Failed to finish compression: {}", e)),
    }
}

} // verus!
