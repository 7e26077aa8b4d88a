//! Decompression of compressed record payloads.

use vstd::prelude::*;

verus! {

/// What inflating a zlib stream yields: the decompressed bytes when the
/// stream is well formed, and nothing otherwise. A function of the input
/// alone.
pub uninterp spec fn inflate_of(s: Seq<u8>) -> Option<Seq<u8>>;

/// Relies on miniz_oxide::inflate::decompress_to_vec_zlib_with_limit: it
/// returns the decompressed bytes of a well-formed zlib stream, and fails
/// exactly when the stream is malformed or the output would exceed `limit`
/// bytes.
#[verifier::external_body]
pub(crate) fn decompress_zlib(data: &[u8], limit: usize) -> (r: Option<Vec<u8>>)
    ensures
        match r {
            Some(v) => inflate_of(data@) == Some(v@) && v@.len() <= limit,
            None => !(inflate_of(data@) matches Some(o) && o.len() <= limit),
        },
{
    miniz_oxide::inflate::decompress_to_vec_zlib_with_limit(data, limit).ok()
}

} // verus!
