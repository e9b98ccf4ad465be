use vstd::prelude::*;

use super::{le16, le32, le64, read_u16, read_u32, read_u64};

verus! {

pub const EOCD32_SIGNATURE: u32 = 0x06054b50;
pub const EOCD32_CONSTANT_SIZE: usize = 18;
pub const EOCD32_MAX_SIZE: usize = 18 + 4 + 65535;

pub const EOCD64_LOCATOR_SIGNATURE: u32 = 0x07064b50;
pub const EOCD64_LOCATOR_CONSTANT_SIZE: usize = 16;

pub const EOCD64_SIGNATURE: u32 = 0x06064b50;
pub const EOCD64_CONSTANT_SIZE: usize = 52;

/// Size of the tail window that holds an EOCD32 and the ZIP64 locator before it.
pub const CDLD_MAX_SIZE: usize = 18 + 4 + 65535 + 4 + 16;

/// Where the central directory lies and how large it is
#[derive(Debug, Clone, Copy, PartialEq, Eq, Structural)]
pub struct CentralDirectoryLocationData {
    pub cd_disk_number: u32,
    pub cd_size: u64,
    pub cd_offset: u64,
}

impl CentralDirectoryLocationData {
    /// The location that an EOCD32 states, widened.
    pub open spec fn spec_from_eocd32(eocd32: EndOfCentralDirectory32) -> Self {
        CentralDirectoryLocationData {
            cd_disk_number: eocd32.cd_disk_number as u32,
            cd_size: eocd32.cd_size as u64,
            cd_offset: eocd32.cd_offset as u64,
        }
    }

    /// The EOCD32 location with each sentineled field taken from the EOCD64.
    pub open spec fn spec_from_eocd64(
        eocd32: EndOfCentralDirectory32,
        eocd64: EndOfCentralDirectory64,
    ) -> Self {
        CentralDirectoryLocationData {
            cd_disk_number: if eocd32.cd_disk_number == u16::MAX {
                eocd64.cd_disk_number
            } else {
                eocd32.cd_disk_number as u32
            },
            cd_size: if eocd32.cd_size == u32::MAX { eocd64.cd_size } else { eocd32.cd_size as u64 },
            cd_offset: if eocd32.cd_offset == u32::MAX {
                eocd64.cd_offset
            } else {
                eocd32.cd_offset as u64
            },
        }
    }

    pub fn from_eocd32(eocd32: EndOfCentralDirectory32) -> (r: Self)
        ensures
            r == Self::spec_from_eocd32(eocd32),
    {
        CentralDirectoryLocationData {
            cd_disk_number: eocd32.cd_disk_number as u32,
            cd_size: eocd32.cd_size as u64,
            cd_offset: eocd32.cd_offset as u64,
        }
    }

    pub fn from_eocd64(eocd32: EndOfCentralDirectory32, eocd64: EndOfCentralDirectory64) -> (r: Self)
        ensures
            r == Self::spec_from_eocd64(eocd32, eocd64),
    {
        let mut data = Self::from_eocd32(eocd32);
        if data.cd_disk_number == u16::MAX as u32 {
            data.cd_disk_number = eocd64.cd_disk_number;
        }
        if data.cd_size == u32::MAX as u64 {
            data.cd_size = eocd64.cd_size;
        }
        if data.cd_offset == u32::MAX as u64 {
            data.cd_offset = eocd64.cd_offset;
        }
        data
    }
}

/// End of central directory record (32-bit)
#[derive(Debug, Clone, Copy, PartialEq, Eq, Structural)]
pub struct EndOfCentralDirectory32 {
    pub disk_number: u16,
    pub cd_disk_number: u16,
    pub cd_entry_count: u16,
    pub cd_entry_count_total: u16,
    pub cd_size: u32,
    pub cd_offset: u32,
    /// Size of the record after its signature, comment included
    pub eocd32_size: usize,
}

/// The EOCD32 that `s` (the bytes after the signature) holds, if it is long enough.
pub open spec fn parse_eocd32(s: Seq<u8>) -> Option<EndOfCentralDirectory32> {
    if s.len() < 18 || s.len() < 18 + le16(s, 16) {
        None
    } else {
        Some(EndOfCentralDirectory32 {
            disk_number: le16(s, 0) as u16,
            cd_disk_number: le16(s, 2) as u16,
            cd_entry_count: le16(s, 4) as u16,
            cd_entry_count_total: le16(s, 6) as u16,
            cd_size: le32(s, 8) as u32,
            cd_offset: le32(s, 12) as u32,
            eocd32_size: (18 + le16(s, 16)) as usize,
        })
    }
}

/// Whether an EOCD32 signature starts at `i` in `s`.
pub open spec fn eocd32_sig_at(s: Seq<u8>, i: int) -> bool {
    le32(s, i) == EOCD32_SIGNATURE
}

/// Start of the window that the EOCD32 search covers in `len` bytes.
pub open spec fn eocd32_search_start(len: int) -> int {
    if len < EOCD32_MAX_SIZE { 0 } else { len - EOCD32_MAX_SIZE }
}

/// The largest offset in `[lo, hi)` that holds an EOCD32 signature.
pub open spec fn scan_down(s: Seq<u8>, lo: int, hi: int) -> Option<usize>
    decreases hi - lo,
{
    if hi <= lo {
        None
    } else if eocd32_sig_at(s, hi - 1) {
        Some((hi - 1) as usize)
    } else {
        scan_down(s, lo, hi - 1)
    }
}

/// Where the EOCD32 signature lies in a tail window `s`: the last offset that
/// holds it, searched no further back than the record's largest size.
pub open spec fn eocd32_offset(s: Seq<u8>) -> Option<usize> {
    if s.len() < 18 {
        None
    } else {
        scan_down(s, eocd32_search_start(s.len() as int), s.len() - 18)
    }
}

impl EndOfCentralDirectory32 {
    pub fn from_bytes(data: &[u8]) -> (r: Option<Self>)
        ensures
            r == parse_eocd32(data@),
    {
        if data.len() < EOCD32_CONSTANT_SIZE {
            return None;
        }
        let disk_number = read_u16(data, 0);
        let cd_disk_number = read_u16(data, 2);
        let cd_entry_count = read_u16(data, 4);
        let cd_entry_count_total = read_u16(data, 6);
        let cd_size = read_u32(data, 8);
        let cd_offset = read_u32(data, 12);
        let comment_length = read_u16(data, 16);
        if data.len() < EOCD32_CONSTANT_SIZE + comment_length as usize {
            return None;
        }
        Some(EndOfCentralDirectory32 {
            disk_number,
            cd_disk_number,
            cd_entry_count,
            cd_entry_count_total,
            cd_size,
            cd_offset,
            eocd32_size: EOCD32_CONSTANT_SIZE + comment_length as usize,
        })
    }

    /// Tries to find an end of central directory structure at the end of given data.
    /// This searches at most 2^16 bytes, backwards from the end
    ///
    /// Returns the offset of this structure within the data if it is found
    pub fn find_offset(data: &[u8]) -> (r: Option<usize>)
        ensures
            r == eocd32_offset(data@),
            r matches Some(i) ==> i + 18 <= data@.len(),
    {
        if data.len() < EOCD32_CONSTANT_SIZE {
            return None;
        }
        let first_offset = data.len() - if data.len() < EOCD32_MAX_SIZE { data.len() } else { EOCD32_MAX_SIZE };
        let mut offset = data.len() - EOCD32_CONSTANT_SIZE;
        while offset > first_offset
            invariant
                first_offset <= offset <= data@.len() - 18,
                18 <= data@.len() <= usize::MAX,
                first_offset == eocd32_search_start(data@.len() as int),
                eocd32_offset(data@) == scan_down(data@, first_offset as int, offset as int),
            decreases offset,
        {
            offset -= 1;
            let signature = read_u32(data, offset);
            if signature == EOCD32_SIGNATURE {
                return Some(offset);
            }
        }
        None
    }

    /// Whether any field holds its type's maximum.
    pub open spec fn spec_requires_zip64(self) -> bool {
        self.disk_number == u16::MAX || self.cd_disk_number == u16::MAX || self.cd_entry_count
            == u16::MAX || self.cd_entry_count_total == u16::MAX || self.cd_size == u32::MAX
            || self.cd_offset == u32::MAX
    }

    pub fn requires_zip64(&self) -> (r: bool)
        ensures
            r == self.spec_requires_zip64(),
    {
        self.disk_number == u16::MAX || self.cd_disk_number == u16::MAX || self.cd_entry_count
            == u16::MAX || self.cd_entry_count_total == u16::MAX || self.cd_size == u32::MAX
            || self.cd_offset == u32::MAX
    }
}

/// ZIP64 end of central directory locator
#[derive(Debug, Clone, Copy, PartialEq, Eq, Structural)]
pub struct EndOfCentralDirectory64Locator {
    pub eocd64_disk_number: u32,
    pub eocd64_offset: u64,
    pub disk_count: u32,
}

pub open spec fn parse_eocd64_locator(s: Seq<u8>) -> Option<EndOfCentralDirectory64Locator> {
    if s.len() < 16 {
        None
    } else {
        Some(EndOfCentralDirectory64Locator {
            eocd64_disk_number: le32(s, 0) as u32,
            eocd64_offset: le64(s, 4) as u64,
            disk_count: le32(s, 12) as u32,
        })
    }
}

impl EndOfCentralDirectory64Locator {
    pub fn from_bytes(data: &[u8]) -> (r: Option<Self>)
        ensures
            r == parse_eocd64_locator(data@),
    {
        if data.len() < EOCD64_LOCATOR_CONSTANT_SIZE {
            return None;
        }
        Some(EndOfCentralDirectory64Locator {
            eocd64_disk_number: read_u32(data, 0),
            eocd64_offset: read_u64(data, 4),
            disk_count: read_u32(data, 12),
        })
    }
}

/// ZIP64 end of central directory record
#[derive(Debug, Clone, Copy, PartialEq, Eq, Structural)]
pub struct EndOfCentralDirectory64 {
    pub eocd64_size: u64,
    pub version_made_by: u16,
    pub version_needed: u16,
    pub disk_number: u32,
    pub cd_disk_number: u32,
    pub cd_entry_count: u64,
    pub cd_entry_count_total: u64,
    pub cd_size: u64,
    pub cd_offset: u64,
}

pub open spec fn parse_eocd64(s: Seq<u8>) -> Option<EndOfCentralDirectory64> {
    if s.len() < 52 {
        None
    } else {
        Some(EndOfCentralDirectory64 {
            eocd64_size: le64(s, 0) as u64,
            version_made_by: le16(s, 8) as u16,
            version_needed: le16(s, 10) as u16,
            disk_number: le32(s, 12) as u32,
            cd_disk_number: le32(s, 16) as u32,
            cd_entry_count: le64(s, 20) as u64,
            cd_entry_count_total: le64(s, 28) as u64,
            cd_size: le64(s, 36) as u64,
            cd_offset: le64(s, 44) as u64,
        })
    }
}

impl EndOfCentralDirectory64 {
    pub fn from_bytes(data: &[u8]) -> (r: Option<Self>)
        ensures
            r == parse_eocd64(data@),
    {
        if data.len() < EOCD64_CONSTANT_SIZE {
            return None;
        }
        Some(EndOfCentralDirectory64 {
            eocd64_size: read_u64(data, 0),
            version_made_by: read_u16(data, 8),
            version_needed: read_u16(data, 10),
            disk_number: read_u32(data, 12),
            cd_disk_number: read_u32(data, 16),
            cd_entry_count: read_u64(data, 20),
            cd_entry_count_total: read_u64(data, 28),
            cd_size: read_u64(data, 36),
            cd_offset: read_u64(data, 44),
        })
    }
}

} // verus!
