use vstd::prelude::*;

/// Provides a [Decompressor] for the DEFLATE algorithm using `inflate::InflateStream`
pub mod deflate;

verus! {

/// Failure reported by a decompressor on malformed compressed data.
#[derive(Debug)]
pub enum DecompressionError {
    Generic(String),
}

/// An incremental decompressor for one entry's compressed stream.
pub trait Decompressor {
    /// Tries to decompress data.
    ///
    /// The return values are the amount of input bytes decompressed,
    /// and the bytes that this call produced.
    fn update(&mut self, data: &[u8]) -> (r: Result<(usize, Vec<u8>), DecompressionError>)
        ensures
            r matches Ok((n, _)) ==> n <= data@.len(),
    ;
}

} // verus!
