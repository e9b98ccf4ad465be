use vstd::prelude::*;

use inflate::InflateStream;

use super::{DecompressionError, Decompressor};

verus! {

#[verifier::external_type_specification]
#[verifier::external_body]
pub struct ExInflateStream(InflateStream);

/// Relies on inflate::InflateStream::new: a fresh stream that expects a raw
/// DEFLATE stream from its first byte on.
#[verifier::external_body]
fn new_inflate_stream() -> (r: InflateStream) {
    InflateStream::new()
}

/// Relies on inflate::InflateStream::update: it reads at most the bytes it was
/// given, and hands out the bytes decoded by this call or the decoder's message.
/// The stream comes back only on success: after a failure inflate's stream has
/// lost its state and must not be used again.
#[verifier::external_body]
fn inflate_update(stream: InflateStream, data: &[u8]) -> (r: Result<(InflateStream, usize, Vec<u8>), String>)
    ensures
        r matches Ok((_, n, _)) ==> n <= data@.len(),
{
    let mut stream = stream;
    let decoded = match stream.update(data) {
        Ok((n, out)) => Ok((n, out.to_vec())),
        Err(e) => Err(e),
    };
    match decoded {
        Ok((n, out)) => Ok((stream, n, out)),
        Err(e) => Err(e),
    }
}

/// Simple wrapper around an `InflateStream`. Once the stream has reported
/// malformed data it is dropped, and every later call fails.
pub struct DeflateDecompressor {
    stream: Option<InflateStream>,
}

impl Decompressor for DeflateDecompressor {
    fn update(&mut self, data: &[u8]) -> (r: Result<(usize, Vec<u8>), DecompressionError>) {
        let Some(stream) = self.stream.take() else {
            return Err(DecompressionError::Generic("the stream failed earlier".to_string()));
        };
        match inflate_update(stream, data) {
            Ok((stream, n, out)) => {
                self.stream = Some(stream);
                Ok((n, out))
            },
            Err(e) => Err(DecompressionError::Generic(e)),
        }
    }
}

impl DeflateDecompressor {
    /// Creates a new DeflateDecompressor, with a new `InflateStream`
    pub fn new() -> Self {
        DeflateDecompressor { stream: Some(new_inflate_stream()) }
    }
}

} // verus!
