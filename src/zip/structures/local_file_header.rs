use vstd::prelude::*;
use vstd::slice::slice_subrange;

use super::{
    le16, le32, lossy_text, method_of_id, names_directory, read_u16, read_u32, text_from_bytes,
    ends_with_slash, CompressionMethod,
};
use super::file_header::{
    fields_view, parse_extra_fields, FileHeaderExtraField, Zip64OriginalData, Zip64ProcessedData,
};

verus! {

pub const LFH_SIGNATURE: u32 = 0x04034b50;
pub const LFH_CONSTANT_SIZE: usize = 26;

/// Represents the result of reading a ZIP local file header (LFH)
///
/// The layout of this object does not follow the on-disk LFH record
#[derive(Debug, Clone)]
pub struct LocalFileHeader {
    pub version: u16,
    pub flag: u16,
    pub compression_method: Option<CompressionMethod>,
    pub mod_time: u16,
    pub mod_date: u16,
    pub crc32: u32,
    pub compressed_size: u64,
    pub uncompressed_size: u64,
    pub filename: String,
    pub extra_fields: Vec<FileHeaderExtraField>,
    /// Size of the header after its signature
    pub header_size: usize,
}

/// Length of the file name of the LFH in `s` (bytes after the signature).
pub open spec fn lfh_name_len(s: Seq<u8>) -> int {
    le16(s, 22)
}

/// Length of the extra-field region of the LFH in `s`.
pub open spec fn lfh_extra_len(s: Seq<u8>) -> int {
    le16(s, 24)
}

/// The extra-field region of the LFH in `s`.
pub open spec fn lfh_extra_region(s: Seq<u8>) -> Seq<u8> {
    s.subrange(26 + lfh_name_len(s), 26 + lfh_name_len(s) + lfh_extra_len(s))
}

/// The 32-bit sizes of the LFH in `s`, before ZIP64 resolution.
pub open spec fn lfh_raw_fields(s: Seq<u8>) -> Zip64OriginalData {
    Zip64OriginalData {
        uncompressed_size: le32(s, 18) as u32,
        compressed_size: le32(s, 14) as u32,
        local_header_offset: 0,
        disk_number: 0,
    }
}

/// Size of the LFH in `s` after its signature.
pub open spec fn lfh_header_len(s: Seq<u8>) -> int {
    26 + lfh_name_len(s) + lfh_extra_len(s)
}

/// The resolved sizes of the LFH that `s` begins with.
pub open spec fn lfh_sizes(s: Seq<u8>) -> Zip64ProcessedData {
    lfh_raw_fields(s).resolve(parse_extra_fields(lfh_extra_region(s)).unwrap()).unwrap()
}

/// Whether `s` begins with a complete, well-formed LFH.
pub open spec fn lfh_decodable(s: Seq<u8>) -> bool {
    &&& s.len() >= 26
    &&& s.len() >= 26 + lfh_name_len(s) + lfh_extra_len(s)
    &&& parse_extra_fields(lfh_extra_region(s)) matches Some(fs)
    &&& lfh_raw_fields(s).resolve(fs) is Some
}

/// Whether `h` is the LFH that `s` begins with.
pub open spec fn lfh_decoded(s: Seq<u8>, h: LocalFileHeader) -> bool {
    let fs = parse_extra_fields(lfh_extra_region(s)).unwrap();
    let z = lfh_sizes(s);
    &&& h.version == le16(s, 0)
    &&& h.flag == le16(s, 2)
    &&& h.compression_method == method_of_id(le16(s, 4) as u16)
    &&& h.mod_time == le16(s, 6)
    &&& h.mod_date == le16(s, 8)
    &&& h.crc32 == le32(s, 10)
    &&& h.compressed_size == z.compressed_size
    &&& h.uncompressed_size == z.uncompressed_size
    &&& h.filename@ == lossy_text(s.subrange(26, 26 + lfh_name_len(s)))
    &&& fields_view(h.extra_fields@) == fs
    &&& h.header_size == lfh_header_len(s)
}

impl LocalFileHeader {
    /// Attempts to read a local file header from the provided
    /// byte buffer. Returns None if there isn't enough data
    pub fn from_bytes(data: &[u8]) -> (r: Option<Self>)
        ensures
            r is Some <==> lfh_decodable(data@),
            r matches Some(h) ==> lfh_decoded(data@, h),
    {
        if data.len() < LFH_CONSTANT_SIZE {
            return None;
        }
        let version = read_u16(data, 0);
        let flag = read_u16(data, 2);
        let compression_method = read_u16(data, 4);
        let mod_time = read_u16(data, 6);
        let mod_date = read_u16(data, 8);
        let crc32 = read_u32(data, 10);
        let compressed_size = read_u32(data, 14);
        let uncompressed_size = read_u32(data, 18);
        let filename_length = read_u16(data, 22) as usize;
        let extra_fields_length = read_u16(data, 24) as usize;
        if data.len() < LFH_CONSTANT_SIZE + filename_length + extra_fields_length {
            return None;
        }
        let compression_method = CompressionMethod::from_id(compression_method);
        let filename_end = LFH_CONSTANT_SIZE + filename_length;
        let filename = text_from_bytes(slice_subrange(data, LFH_CONSTANT_SIZE, filename_end));
        let extra_fields_end = filename_end + extra_fields_length;
        let Some(extra_fields) = FileHeaderExtraField::read_extra_fields(
            slice_subrange(data, filename_end, extra_fields_end),
        ) else {
            return None;
        };
        let raw = Zip64OriginalData {
            uncompressed_size,
            compressed_size,
            local_header_offset: 0,
            disk_number: 0,
        };
        assert(raw == lfh_raw_fields(data@));
        let Some(resolved) = raw.process(extra_fields.as_slice()) else {
            return None;
        };
        Some(LocalFileHeader {
            version,
            flag,
            compression_method,
            mod_time,
            mod_date,
            crc32,
            compressed_size: resolved.compressed_size,
            uncompressed_size: resolved.uncompressed_size,
            filename,
            extra_fields,
            header_size: extra_fields_end,
        })
    }

    /// Whether the file name ends with `/`
    pub fn is_directory(&self) -> (r: bool)
        ensures
            r == names_directory(self.filename@),
    {
        ends_with_slash(&self.filename)
    }
}

} // verus!
