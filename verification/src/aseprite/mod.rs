//! The sprite-sheet formats: the packed atlas ("Fer") format, its layout
//! and the compressed pixel data of Aseprite files.
use vstd::prelude::*;

pub mod ase;
pub mod atlas;
pub mod le;
pub mod sprite;
pub mod text;
pub mod tilemap;

verus! {

/// What zlib decompression (RFC 1950 framing around a DEFLATE stream, as
/// `flate2::read::ZlibDecoder` reads it to its end) makes of `data`: the
/// inflated bytes, or `None` where the stream is corrupt or incomplete.
pub uninterp spec fn zlib_inflate(data: Seq<u8>) -> Option<Seq<u8>>;

/// Runs `flate2::read::ZlibDecoder` over `compressed` and reads it to the end
/// with `std::io::Read::read_to_end`.  The decoder is a pure function of its
/// input: the contract names its result `zlib_inflate`, with `None` where
/// `read_to_end` reports an error.
#[verifier::external_body]
pub(crate) fn zlib_decode(compressed: &[u8]) -> (r: Option<Vec<u8>>)
    ensures
        match r {
            Some(v) => zlib_inflate(compressed@) == Some(v@),
            None => zlib_inflate(compressed@) is None,
        },
{
    let mut decoder = flate2::read::ZlibDecoder::new(compressed);
    let mut out: Vec<u8> = Vec::new();
    match std::io::Read::read_to_end(&mut decoder, &mut out) {
        Ok(_) => Some(out),
        Err(_) => None,
    }
}

/// Inflates a zlib stream (the compressed cels of an Aseprite file).
/// The stream must be well formed.
pub fn uncompress(compressed: &[u8]) -> (r: Vec<u8>)
    requires
        zlib_inflate(compressed@) is Some,
    ensures
        zlib_inflate(compressed@) == Some(r@),
{
    match zlib_decode(compressed) {
        Some(v) => v,
        None => Vec::new(),
    }
}

/// Inflates a zlib stream, or `None` where it is corrupt or incomplete.
pub fn try_uncompress(compressed: &[u8]) -> (r: Option<Vec<u8>>)
    ensures
        match r {
            Some(v) => zlib_inflate(compressed@) == Some(v@),
            None => zlib_inflate(compressed@) is None,
        },
{
    match zlib_decode(compressed) {
        Some(_) => Some(uncompress(compressed)),
        None => None,
    }
}

} // verus!
