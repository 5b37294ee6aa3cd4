//! Trusted access to the brotli codec.

use vstd::prelude::*;

use crate::binary::DumpError;

verus! {

/// What the bytes decode to as a brotli stream, or `None` when they are not
/// a valid one. Decoding is a function of the bytes alone.
pub uninterp spec fn brotli_decoded(data: Seq<u8>) -> Option<Seq<u8>>;

/// Relies on `brotli::Decompressor` driven by `std::io::Read::read_to_end`:
/// a full decode of the stream, a function of the bytes alone.
#[verifier::external_body]
pub(crate) fn brotli_decompress(data: &[u8]) -> (r: Result<Vec<u8>, DumpError>)
    ensures
        r matches Ok(v) ==> brotli_decoded(data@) == Some(v@),
        r matches Err(e) ==> brotli_decoded(data@) is None && e == DumpError::Decode,
{
    let mut decompressor = brotli::Decompressor::new(data, 4096);
    let mut buf: Vec<u8> = Vec::new();
    match std::io::Read::read_to_end(&mut decompressor, &mut buf) {
        Ok(_) => Ok(buf),
        Err(_) => Err(DumpError::Decode),
    }
}

} // verus!
