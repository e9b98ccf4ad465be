use vstd::prelude::*;
use vstd::seq_lib::{to_multiset_build, to_multiset_insert, to_multiset_len};
use vstd::slice::slice_subrange;

use crate::zip::{pos_le, pos_lt, ZipPosition};

use super::{
    ends_with_slash, le16, le32, lossy_text, method_of_id, names_directory, read_u16, read_u32,
    text_from_bytes, CompressionMethod,
};
use super::file_header::{fields_view, parse_extra_fields, FileHeaderExtraField, Zip64OriginalData};

verus! {

/// Failure to decode a central directory
#[derive(Debug, Clone, Copy, PartialEq, Eq, Structural)]
pub enum CentralDirectoryError {
    InputTooShort,
    InvalidSignature(usize),
    MalformedHeader(usize),
    LeftoverBytes(usize),
}

pub const CDFH_SIGNATURE: u32 = 0x02014B50;
pub const CDFH_CONSTANT_SIZE: usize = 42;

/// Represents the result of reading a central directory file header (CDFH)
///
/// The layout of this object does not follow the on-disk CDFH record
#[derive(Debug, Clone)]
pub struct CentralDirectoryFileHeader {
    pub version_made_by: u16,
    pub version_needed: u16,
    pub flag: u16,
    pub compression_method: Option<CompressionMethod>,
    pub mod_time: u16,
    pub mod_date: u16,
    pub crc32: u32,
    pub compressed_size: u64,
    pub uncompressed_size: u64,
    pub filename: String,
    pub extra_fields: Vec<FileHeaderExtraField>,
    pub disk_number: u32,
    pub internal_attributes: u16,
    pub external_attributes: u32,
    pub local_header_offset: u64,
    /// Size of the header after its signature, comment included
    pub header_size: usize,
}

pub open spec fn cdfh_name_len(s: Seq<u8>) -> int {
    le16(s, 24)
}

pub open spec fn cdfh_extra_len(s: Seq<u8>) -> int {
    le16(s, 26)
}

pub open spec fn cdfh_comment_len(s: Seq<u8>) -> int {
    le16(s, 28)
}

/// Size of the CDFH in `s` (bytes after the signature), comment included.
pub open spec fn cdfh_size(s: Seq<u8>) -> int {
    42 + cdfh_name_len(s) + cdfh_extra_len(s) + cdfh_comment_len(s)
}

pub open spec fn cdfh_extra_region(s: Seq<u8>) -> Seq<u8> {
    s.subrange(42 + cdfh_name_len(s), 42 + cdfh_name_len(s) + cdfh_extra_len(s))
}

/// The 32- and 16-bit values of the CDFH in `s`, before ZIP64 resolution.
pub open spec fn cdfh_raw_fields(s: Seq<u8>) -> Zip64OriginalData {
    Zip64OriginalData {
        uncompressed_size: le32(s, 20) as u32,
        compressed_size: le32(s, 16) as u32,
        local_header_offset: le32(s, 38) as u32,
        disk_number: le16(s, 30) as u16,
    }
}

/// Whether `s` begins with a complete, well-formed CDFH.
pub open spec fn cdfh_decodable(s: Seq<u8>) -> bool {
    &&& s.len() >= 42
    &&& s.len() >= cdfh_size(s)
    &&& parse_extra_fields(cdfh_extra_region(s)) matches Some(fs)
    &&& cdfh_raw_fields(s).resolve(fs) is Some
}

/// Whether `h` is the CDFH that `s` begins with.
pub open spec fn cdfh_decoded(s: Seq<u8>, h: CentralDirectoryFileHeader) -> bool {
    let fs = parse_extra_fields(cdfh_extra_region(s)).unwrap();
    let z = cdfh_raw_fields(s).resolve(fs).unwrap();
    &&& h.version_made_by == le16(s, 0)
    &&& h.version_needed == le16(s, 2)
    &&& h.flag == le16(s, 4)
    &&& h.compression_method == method_of_id(le16(s, 6) as u16)
    &&& h.mod_time == le16(s, 8)
    &&& h.mod_date == le16(s, 10)
    &&& h.crc32 == le32(s, 12)
    &&& h.compressed_size == z.compressed_size
    &&& h.uncompressed_size == z.uncompressed_size
    &&& h.filename@ == lossy_text(s.subrange(42, 42 + cdfh_name_len(s)))
    &&& fields_view(h.extra_fields@) == fs
    &&& h.disk_number == z.disk_number
    &&& h.internal_attributes == le16(s, 32)
    &&& h.external_attributes == le32(s, 34)
    &&& h.local_header_offset == z.local_header_offset
    &&& h.header_size == cdfh_size(s)
}

impl CentralDirectoryFileHeader {
    /// Where the local file header of this entry starts.
    pub open spec fn spec_header_position(self) -> ZipPosition {
        ZipPosition { disk: self.disk_number as usize, offset: self.local_header_offset as usize }
    }

    /// Attempts to read a central directory file header from the provided
    /// byte buffer. Returns None if there isn't enough data
    pub fn from_bytes(data: &[u8]) -> (r: Option<Self>)
        ensures
            r is Some <==> cdfh_decodable(data@),
            r matches Some(h) ==> cdfh_decoded(data@, h),
    {
        if data.len() < CDFH_CONSTANT_SIZE {
            return None;
        }
        let version_made_by = read_u16(data, 0);
        let version_needed = read_u16(data, 2);
        let flag = read_u16(data, 4);
        let compression_method = read_u16(data, 6);
        let mod_time = read_u16(data, 8);
        let mod_date = read_u16(data, 10);
        let crc32 = read_u32(data, 12);
        let compressed_size = read_u32(data, 16);
        let uncompressed_size = read_u32(data, 20);
        let filename_length = read_u16(data, 24) as usize;
        let extra_fields_length = read_u16(data, 26) as usize;
        let comment_length = read_u16(data, 28) as usize;
        let disk_number = read_u16(data, 30);
        let internal_attributes = read_u16(data, 32);
        let external_attributes = read_u32(data, 34);
        let local_header_offset = read_u32(data, 38);
        if data.len() < CDFH_CONSTANT_SIZE + filename_length + extra_fields_length + comment_length {
            return None;
        }
        let compression_method = CompressionMethod::from_id(compression_method);
        let filename_end = CDFH_CONSTANT_SIZE + filename_length;
        let filename = text_from_bytes(slice_subrange(data, CDFH_CONSTANT_SIZE, filename_end));
        let extra_fields_end = filename_end + extra_fields_length;
        let Some(extra_fields) = FileHeaderExtraField::read_extra_fields(
            slice_subrange(data, filename_end, extra_fields_end),
        ) else {
            return None;
        };
        let raw = Zip64OriginalData {
            uncompressed_size,
            compressed_size,
            local_header_offset,
            disk_number,
        };
        assert(raw == cdfh_raw_fields(data@));
        let Some(resolved) = raw.process(extra_fields.as_slice()) else {
            return None;
        };
        Some(CentralDirectoryFileHeader {
            version_made_by,
            version_needed,
            flag,
            compression_method,
            mod_time,
            mod_date,
            crc32,
            compressed_size: resolved.compressed_size,
            uncompressed_size: resolved.uncompressed_size,
            filename,
            extra_fields,
            disk_number: resolved.disk_number,
            internal_attributes,
            external_attributes,
            local_header_offset: resolved.local_header_offset,
            header_size: extra_fields_end + comment_length,
        })
    }

    /// Whether the file name ends with `/`
    pub fn is_directory(&self) -> (r: bool)
        ensures
            r == names_directory(self.filename@),
    {
        ends_with_slash(&self.filename)
    }

    /// Returns the [ZipPosition] of the LFH corresponding to this CDFH
    pub fn header_position(&self) -> (r: ZipPosition)
        ensures
            r == self.spec_header_position(),
    {
        ZipPosition::new(self.disk_number as usize, self.local_header_offset as usize)
    }
}

/// The scan of a central directory from `off`: the offsets of the records
/// (signatures included) that follow each other to the end of `s`, or the
/// first failure.
pub open spec fn cd_scan(s: Seq<u8>, off: int) -> Result<Seq<int>, CentralDirectoryError>
    decreases s.len() - off,
{
    if off < 0 || off + 4 > s.len() {
        if off == s.len() {
            Ok(Seq::empty())
        } else {
            Err(CentralDirectoryError::LeftoverBytes((s.len() - off) as usize))
        }
    } else if le32(s, off) != CDFH_SIGNATURE {
        Err(CentralDirectoryError::InvalidSignature(off as usize))
    } else if !cdfh_decodable(s.subrange(off + 4, s.len() as int)) {
        Err(CentralDirectoryError::MalformedHeader(off as usize))
    } else {
        match cd_scan(s, off + 4 + cdfh_size(s.subrange(off + 4, s.len() as int))) {
            Ok(rest) => Ok(seq![off] + rest),
            Err(e) => Err(e),
        }
    }
}

/// Whether `hs` are the records that start at the offsets `offs` of `s`.
pub open spec fn cd_headers_at(
    s: Seq<u8>,
    offs: Seq<int>,
    hs: Seq<CentralDirectoryFileHeader>,
) -> bool {
    &&& hs.len() == offs.len()
    &&& forall|i: int|
        0 <= i < hs.len() ==> cdfh_decoded(#[trigger] s.subrange(offs[i] + 4, s.len() as int), hs[i])
}

/// The outcome of decoding `s` as a central directory.
pub open spec fn cd_decode_outcome(s: Seq<u8>) -> Result<Seq<int>, CentralDirectoryError> {
    if s.len() < 46 {
        Err(CentralDirectoryError::InputTooShort)
    } else {
        cd_scan(s, 0)
    }
}

/// Headers ordered by non-decreasing position of their local headers.
pub open spec fn sorted_by_position(hs: Seq<CentralDirectoryFileHeader>) -> bool {
    forall|i: int, j: int|
        0 <= i < j < hs.len() ==> pos_le(
            #[trigger] hs[i].spec_header_position(),
            #[trigger] hs[j].spec_header_position(),
        )
}

/// Represents a ZIP central directory.
///
/// The unpacker requires the central directory to be sorted
/// in the order of ascending position. [CentralDirectory::sort]
/// can be used to obtain a [SortedCentralDirectory]
#[derive(Debug)]
pub struct CentralDirectory {
    headers: Vec<CentralDirectoryFileHeader>,
}

impl CentralDirectory {
    pub closed spec fn spec_headers(&self) -> Seq<CentralDirectoryFileHeader> {
        self.headers@
    }

    /// Tries to read all CDFH from the central directory
    pub fn from_bytes(data: &[u8]) -> (r: Result<Self, CentralDirectoryError>)
        ensures
            match cd_decode_outcome(data@) {
                Ok(offs) => r matches Ok(cd) && cd_headers_at(data@, offs, cd.spec_headers()),
                Err(e) => r matches Err(x) && x == e,
            },
    {
        if data.len() < 4 + CDFH_CONSTANT_SIZE {
            return Err(CentralDirectoryError::InputTooShort);
        }
        let mut headers: Vec<CentralDirectoryFileHeader> = Vec::new();
        let ghost mut offs: Seq<int> = Seq::empty();
        let mut offset: usize = 0;
        while data.len() - offset >= 4
            invariant
                offset <= data@.len(),
                data@.len() >= 46,
                cd_headers_at(data@, offs, headers@),
                cd_scan(data@, 0) == match cd_scan(data@, offset as int) {
                    Ok(rest) => Ok(offs + rest),
                    Err(e) => Err(e),
                },
            decreases data@.len() - offset,
        {
            let signature = read_u32(data, offset);
            if signature != CDFH_SIGNATURE {
                return Err(CentralDirectoryError::InvalidSignature(offset));
            }
            let ghost tail = data@.subrange(offset + 4, data@.len() as int);
            let sub = slice_subrange(data, offset + 4, data.len());
            let Some(cdfh) = CentralDirectoryFileHeader::from_bytes(sub) else {
                return Err(CentralDirectoryError::MalformedHeader(offset));
            };
            let ghost old_offs = offs;
            proof {
                offs = offs.push(offset as int);
                match cd_scan(data@, offset + 4 + cdfh_size(tail)) {
                    Ok(rest) => {
                        assert(old_offs + (seq![offset as int] + rest) =~= offs + rest);
                    },
                    Err(_) => {},
                }
            }
            offset += cdfh.header_size + 4;
            headers.push(cdfh);
            assert forall|i: int| 0 <= i < headers@.len() implies cdfh_decoded(
                #[trigger] data@.subrange(offs[i] + 4, data@.len() as int),
                headers@[i],
            ) by {
                if i < headers@.len() - 1 {
                    assert(offs[i] == old_offs[i]);
                }
            }
        }
        if offset != data.len() {
            return Err(CentralDirectoryError::LeftoverBytes(data.len() - offset));
        }
        assert(offs + Seq::<int>::empty() =~= offs);
        Ok(CentralDirectory { headers })
    }

    /// Returns a reference to the CDFHs
    pub fn headers_ref(&self) -> (r: &[CentralDirectoryFileHeader])
        ensures
            r@ == self.spec_headers(),
    {
        self.headers.as_slice()
    }

    /// Orders the headers by the position of their local headers. The order is
    /// stable: headers at equal positions keep their relative order, so a
    /// directory that is already sorted comes back unchanged.
    pub fn sort(self) -> (r: SortedCentralDirectory)
        ensures
            sorted_by_position(r.spec_headers()),
            r.spec_headers().to_multiset() == self.spec_headers().to_multiset(),
            r.spec_headers().len() == self.spec_headers().len(),
            sorted_by_position(self.spec_headers()) ==> r.spec_headers() == self.spec_headers(),
    {
        let ghost orig = self.headers@;
        let mut rest = self.headers;
        let mut out: Vec<CentralDirectoryFileHeader> = Vec::new();
        let ghost mut done: Seq<CentralDirectoryFileHeader> = Seq::empty();
        assert(orig =~= done + rest@);
        while rest.len() > 0
            invariant
                orig == done + rest@,
                out@.to_multiset() == done.to_multiset(),
                sorted_by_position(out@),
                sorted_by_position(orig) ==> out@ == done,
            decreases rest@.len(),
        {
            let ghost old_rest = rest@;
            let x = rest.remove(0);
            let xp = x.header_position();
            let mut j: usize = out.len();
            while j > 0 && xp.is_before(&out[j - 1].header_position())
                invariant
                    j <= out@.len(),
                    xp == x.spec_header_position(),
                    forall|k: int| j <= k < out@.len() ==> pos_lt(xp, #[trigger] out@[k].spec_header_position()),
                decreases j,
            {
                j -= 1;
            }
            proof {
                if sorted_by_position(orig) {
                    assert(orig[done.len() as int] == x);
                    if j < out@.len() {
                        let k = out@.len() - 1;
                        assert(out@[k] == orig[k]);
                        assert(pos_le(orig[k].spec_header_position(), orig[done.len() as int].spec_header_position()));
                    }
                }
                to_multiset_insert(out@, j as int, x);
                to_multiset_build(done, x);
                done = done.push(x);
            }
            let ghost old_out = out@;
            out.insert(j, x);
            assert(orig =~= done + rest@) by {
                assert(old_rest =~= seq![x] + rest@);
            }
            assert(sorted_by_position(out@)) by {
                assert forall|a: int, b: int| 0 <= a < b < out@.len() implies pos_le(
                    #[trigger] out@[a].spec_header_position(),
                    #[trigger] out@[b].spec_header_position(),
                ) by {
                    if a < j && b > j {
                        assert(out@[b] == old_out[b - 1]);
                        assert(pos_le(old_out[a].spec_header_position(), old_out[j - 1].spec_header_position())) by {
                            if a < j - 1 {}
                        }
                    } else if b < j {
                    } else if a > j {
                        assert(out@[a] == old_out[a - 1]);
                        assert(out@[b] == old_out[b - 1]);
                    } else if a == j {
                        assert(out@[b] == old_out[b - 1]);
                    } else {
                        assert(pos_le(old_out[a].spec_header_position(), old_out[j - 1].spec_header_position())) by {
                            if a < j - 1 {}
                        }
                    }
                }
            }
            assert(sorted_by_position(orig) ==> out@ =~= done);
        }
        assert(done =~= orig);
        proof {
            to_multiset_len(out@);
            to_multiset_len(orig);
        }
        SortedCentralDirectory { headers: out }
    }
}

/// Represents a sorted ZIP central directory
#[derive(Debug)]
pub struct SortedCentralDirectory {
    headers: Vec<CentralDirectoryFileHeader>,
}

impl SortedCentralDirectory {
    pub closed spec fn spec_headers(&self) -> Seq<CentralDirectoryFileHeader> {
        self.headers@
    }

    /// The headers are ordered by position.
    #[verifier::type_invariant]
    spec fn sorted(&self) -> bool {
        sorted_by_position(self.headers@)
    }

    /// Returns a reference to the CDFHs, which are ordered by position
    pub fn headers_ref(&self) -> (r: &[CentralDirectoryFileHeader])
        ensures
            r@ == self.spec_headers(),
            sorted_by_position(r@),
    {
        proof {
            use_type_invariant(self);
        }
        self.headers.as_slice()
    }
}

} // verus!
