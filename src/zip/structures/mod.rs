use vstd::prelude::*;

use crate::decompress::deflate::DeflateDecompressor;

/// Provides utilities for locating a ZIP central directory
pub mod cd_location;

/// Provides general ZIP file header utilities
pub mod file_header;

/// Provides utilities for processing ZIP central directory file headers
pub mod central_directory;

/// Provides utilities for processing ZIP local file headers
pub mod local_file_header;

verus! {

/// The little-endian 16-bit value stored at `s[i..i + 2]`.
pub open spec fn le16(s: Seq<u8>, i: int) -> int {
    s[i] as int + 256 * (s[i + 1] as int)
}

/// The little-endian 32-bit value stored at `s[i..i + 4]`.
pub open spec fn le32(s: Seq<u8>, i: int) -> int {
    le16(s, i) + 65536 * le16(s, i + 2)
}

/// The little-endian 64-bit value stored at `s[i..i + 8]`.
pub open spec fn le64(s: Seq<u8>, i: int) -> int {
    le32(s, i) + 4294967296 * le32(s, i + 4)
}

/// Reads a little-endian `u16` at offset `i`.
pub fn read_u16(data: &[u8], i: usize) -> (r: u16)
    requires
        i + 2 <= data@.len() <= usize::MAX,
    ensures
        r as int == le16(data@, i as int),
{
    let lo = data[i] as u16;
    let hi = data[i + 1] as u16;
    assert(lo + 256 * hi <= 65535) by (nonlinear_arith)
        requires lo <= 255, hi <= 255;
    lo + 256 * hi
}

/// Reads a little-endian `u32` at offset `i`.
pub fn read_u32(data: &[u8], i: usize) -> (r: u32)
    requires
        i + 4 <= data@.len() <= usize::MAX,
    ensures
        r as int == le32(data@, i as int),
{
    let lo = read_u16(data, i) as u32;
    let hi = read_u16(data, i + 2) as u32;
    assert(lo + 65536 * hi <= 0xffff_ffff) by (nonlinear_arith)
        requires lo <= 65535, hi <= 65535;
    lo + 65536 * hi
}

/// Reads a little-endian `u64` at offset `i`.
pub fn read_u64(data: &[u8], i: usize) -> (r: u64)
    requires
        i + 8 <= data@.len() <= usize::MAX,
    ensures
        r as int == le64(data@, i as int),
{
    let lo = read_u32(data, i) as u64;
    let hi = read_u32(data, i + 4) as u64;
    assert(lo + 4294967296 * hi <= 0xffff_ffff_ffff_ffff) by (nonlinear_arith)
        requires lo <= 0xffff_ffff, hi <= 0xffff_ffff;
    lo + 4294967296 * hi
}

/// The text that `String::from_utf8_lossy` makes of the bytes `b`.
pub uninterp spec fn lossy_text(b: Seq<u8>) -> Seq<char>;

/// Relies on `String::from_utf8_lossy`: the text depends on the bytes alone
/// (invalid sequences become U+FFFD), and no bytes give no text.
#[verifier::external_body]
pub(crate) fn text_from_bytes(b: &[u8]) -> (r: String)
    ensures
        r@ == lossy_text(b@),
        b@.len() == 0 ==> r@.len() == 0,
{
    String::from_utf8_lossy(b).into_owned()
}

/// Whether a name ends with `/`, which marks a directory entry.
pub open spec fn names_directory(name: Seq<char>) -> bool {
    name.len() > 0 && name.last() == '/'
}

/// Tells whether `name` ends with `/`.
pub(crate) fn ends_with_slash(name: &String) -> (r: bool)
    ensures
        r == names_directory(name@),
{
    let s = name.as_str();
    let n = s.unicode_len();
    n > 0 && s.get_char(n - 1) == '/'
}

/// The error returned when no decompressor exists for a compression method.
#[derive(Debug, PartialEq, Eq, Structural, Clone, Copy)]
pub enum DecompressorCreationError {
    UnknownMethod(u16),
}

/// Represents a ZIP compression method.
/// See [CompressionMethod::create_decompressor]
#[derive(Debug, PartialEq, Eq, Structural, Clone, Copy)]
pub enum CompressionMethod {
    Deflate,
    Unknown(u16),
}

/// The method that a compression id stands for; `None` for id 0 (stored).
pub open spec fn method_of_id(id: u16) -> Option<CompressionMethod> {
    if id == 0 {
        None
    } else if id == 8 {
        Some(CompressionMethod::Deflate)
    } else {
        Some(CompressionMethod::Unknown(id))
    }
}

impl CompressionMethod {
    /// Turns a ZIP compression id into a [CompressionMethod] variant.
    ///
    /// Returns None if the id is 0 (stored), [CompressionMethod::Unknown] if a
    /// decompressor for it is not available
    pub fn from_id(id: u16) -> (r: Option<Self>)
        ensures
            r == method_of_id(id),
    {
        match id {
            0 => None,
            8 => Some(CompressionMethod::Deflate),
            _ => Some(CompressionMethod::Unknown(id)),
        }
    }

    /// Tries to create a decompressor for this [CompressionMethod]
    ///
    /// Returns error if it is [CompressionMethod::Unknown]
    pub fn create_decompressor(&self) -> (r: Result<DeflateDecompressor, DecompressorCreationError>)
        ensures
            match *self {
                CompressionMethod::Deflate => r.is_ok(),
                CompressionMethod::Unknown(id) => r == Err::<DeflateDecompressor, _>(
                    DecompressorCreationError::UnknownMethod(id),
                ),
            },
    {
        match self {
            CompressionMethod::Deflate => Ok(DeflateDecompressor::new()),
            CompressionMethod::Unknown(id) => Err(DecompressorCreationError::UnknownMethod(*id)),
        }
    }

    /// Returns whether decompression is supported for this method
    pub fn is_supported(&self) -> (r: bool)
        ensures
            r == (*self is Deflate),
    {
        match self {
            CompressionMethod::Deflate => true,
            CompressionMethod::Unknown(_) => false,
        }
    }
}

} // verus!
