use vstd::prelude::*;
use vstd::slice::{slice_subrange, slice_to_vec};

use super::{le16, le32, le64, read_u16, read_u32, read_u64};

verus! {

/// Contains raw ZIP file header extra field data
#[derive(Debug, Clone)]
pub struct FileHeaderExtraField {
    pub id: u16,
    pub data: Vec<u8>,
}

impl View for FileHeaderExtraField {
    type V = (u16, Seq<u8>);

    open spec fn view(&self) -> (u16, Seq<u8>) {
        (self.id, self.data@)
    }
}

/// The views of a list of extra fields.
pub open spec fn fields_view(fs: Seq<FileHeaderExtraField>) -> Seq<(u16, Seq<u8>)> {
    fs.map_values(|f: FileHeaderExtraField| f@)
}

/// The first extra field at the start of `s`: its id, its payload and its size
/// with the 4-byte header, or `None` when `s` is too short to hold it.
pub open spec fn parse_extra_field(s: Seq<u8>) -> Option<((u16, Seq<u8>), int)> {
    if s.len() < 4 || s.len() < 4 + le16(s, 2) {
        None
    } else {
        let n = 4 + le16(s, 2);
        Some(((le16(s, 0) as u16, s.subrange(4, n)), n))
    }
}

/// A region made of extra fields packed with no padding, read to its end.
pub open spec fn parse_extra_fields(s: Seq<u8>) -> Option<Seq<(u16, Seq<u8>)>>
    decreases s.len(),
{
    if s.len() == 0 {
        Some(Seq::empty())
    } else {
        match parse_extra_field(s) {
            None => None,
            Some((f, n)) => match parse_extra_fields(s.subrange(n, s.len() as int)) {
                None => None,
                Some(rest) => Some(seq![f] + rest),
            },
        }
    }
}

impl FileHeaderExtraField {
    /// Attempts to read a ZIP file header extra field.
    /// Returns None if there is not enough data
    pub fn from_bytes(data: &[u8]) -> (r: Option<Self>)
        ensures
            match parse_extra_field(data@) {
                None => r is None,
                Some((f, n)) => r matches Some(x) && x@ == f && 4 + x.data@.len() == n,
            },
    {
        if data.len() < 4 {
            return None;
        }
        let id = read_u16(data, 0);
        let size = read_u16(data, 2) as usize;
        if data.len() < 4 + size {
            return None;
        }
        let payload = slice_to_vec(slice_subrange(data, 4, 4 + size));
        Some(FileHeaderExtraField { id, data: payload })
    }

    /// Attempts to read all ZIP file headers from the provided data.
    /// Returns None if there is an error
    pub fn read_extra_fields(data: &[u8]) -> (r: Option<Vec<FileHeaderExtraField>>)
        ensures
            match parse_extra_fields(data@) {
                None => r is None,
                Some(fs) => r matches Some(v) && fields_view(v@) == fs,
            },
    {
        let mut fields: Vec<FileHeaderExtraField> = Vec::new();
        let mut offset: usize = 0;
        assert(data@.subrange(0, data@.len() as int) =~= data@);
        assert(fields_view(fields@) =~= Seq::<(u16, Seq<u8>)>::empty());
        proof {
            match parse_extra_fields(data@) {
                None => {},
                Some(rest) => {
                    assert(fields_view(fields@) + rest =~= rest);
                },
            }
        }
        while offset < data.len()
            invariant
                offset <= data@.len(),
                parse_extra_fields(data@) == match parse_extra_fields(
                    data@.subrange(offset as int, data@.len() as int),
                ) {
                    None => None,
                    Some(rest) => Some(fields_view(fields@) + rest),
                },
            decreases data@.len() - offset,
        {
            let ghost tail = data@.subrange(offset as int, data@.len() as int);
            let Some(field) = FileHeaderExtraField::from_bytes(slice_subrange(data, offset, data.len())) else {
                return None;
            };
            let ghost n: int = 4 + field.data@.len() as int;
            assert(data@.subrange(offset + n, data@.len() as int) =~= tail.subrange(n, tail.len() as int));
            let ghost before = fields_view(fields@);
            offset += field.size();
            fields.push(field);
            assert(fields_view(fields@) =~= before + seq![field@]);
            proof {
                match parse_extra_fields(data@.subrange(offset as int, data@.len() as int)) {
                    None => {},
                    Some(rest) => {
                        assert(before + (seq![field@] + rest) =~= fields_view(fields@) + rest);
                    },
                }
            }
        }
        assert(data@.subrange(offset as int, data@.len() as int) =~= Seq::<u8>::empty());
        assert(fields_view(fields@) + Seq::<(u16, Seq<u8>)>::empty() =~= fields_view(fields@));
        Some(fields)
    }

    /// The size of this field (together with the header)
    pub fn size(&self) -> (r: usize)
        requires
            self.data@.len() <= usize::MAX - 4,
        ensures
            r == 4 + self.data@.len(),
    {
        4 + self.data.len()
    }
}

pub const ZIP64_EXTRA_FIELD_ID: u16 = 0x0001;

/// The 32- and 16-bit values of a header before ZIP64 resolution.
#[derive(Debug, Default, Clone, Copy)]
pub struct Zip64OriginalData {
    pub uncompressed_size: u32,
    pub compressed_size: u32,
    pub local_header_offset: u32,
    pub disk_number: u16,
}

/// The values of a header after ZIP64 resolution.
#[derive(Debug, Clone, Copy, PartialEq, Eq, Structural)]
pub struct Zip64ProcessedData {
    pub uncompressed_size: u64,
    pub compressed_size: u64,
    pub local_header_offset: u64,
    pub disk_number: u32,
}

/// The payload of the first ZIP64 extra field in the list, if any.
pub open spec fn find_zip64(fs: Seq<(u16, Seq<u8>)>) -> Option<Seq<u8>>
    decreases fs.len(),
{
    if fs.len() == 0 {
        None
    } else if fs[0].0 == ZIP64_EXTRA_FIELD_ID {
        Some(fs[0].1)
    } else {
        find_zip64(fs.drop_first())
    }
}

/// Width in the ZIP64 payload of the replacement for one field.
pub open spec fn width_if(sentinel: bool, w: int) -> int {
    if sentinel { w } else { 0 }
}

impl Zip64OriginalData {
    pub open spec fn u_sent(self) -> bool { self.uncompressed_size == u32::MAX }
    pub open spec fn c_sent(self) -> bool { self.compressed_size == u32::MAX }
    pub open spec fn o_sent(self) -> bool { self.local_header_offset == u32::MAX }
    pub open spec fn d_sent(self) -> bool { self.disk_number == u16::MAX }

    /// Bytes of ZIP64 payload that the sentineled fields take.
    pub open spec fn required_size(self) -> int {
        width_if(self.u_sent(), 8) + width_if(self.c_sent(), 8) + width_if(self.o_sent(), 8)
            + width_if(self.d_sent(), 4)
    }

    /// The fields widened, with no replacement.
    pub open spec fn widened(self) -> Zip64ProcessedData {
        Zip64ProcessedData {
            uncompressed_size: self.uncompressed_size as u64,
            compressed_size: self.compressed_size as u64,
            local_header_offset: self.local_header_offset as u64,
            disk_number: self.disk_number as u32,
        }
    }

    /// Each sentineled field replaced by the next value of the payload `p`,
    /// in the fixed order uncompressed size, compressed size, offset, disk.
    pub open spec fn replaced(self, p: Seq<u8>) -> Zip64ProcessedData {
        let k1 = width_if(self.u_sent(), 8);
        let k2 = k1 + width_if(self.c_sent(), 8);
        let k3 = k2 + width_if(self.o_sent(), 8);
        Zip64ProcessedData {
            uncompressed_size: if self.u_sent() { le64(p, 0) as u64 } else { self.uncompressed_size as u64 },
            compressed_size: if self.c_sent() { le64(p, k1) as u64 } else { self.compressed_size as u64 },
            local_header_offset: if self.o_sent() { le64(p, k2) as u64 } else { self.local_header_offset as u64 },
            disk_number: if self.d_sent() { le32(p, k3) as u32 } else { self.disk_number as u32 },
        }
    }

    /// ZIP64 resolution against the extra fields `fs`: `None` when a
    /// replacement is needed and the ZIP64 field is missing or too short.
    pub open spec fn resolve(self, fs: Seq<(u16, Seq<u8>)>) -> Option<Zip64ProcessedData> {
        if self.required_size() == 0 {
            Some(self.widened())
        } else {
            match find_zip64(fs) {
                None => None,
                Some(p) => if p.len() < self.required_size() {
                    None
                } else {
                    Some(self.replaced(p))
                },
            }
        }
    }

    /// Processes a ZIP64 extra field if it exists in the input fields.
    /// Returns None if processing fails
    pub fn process(&self, fields: &[FileHeaderExtraField]) -> (r: Option<Zip64ProcessedData>)
        ensures
            r == self.resolve(fields_view(fields@)),
    {
        let required_size = self.required_zip64_size();
        if required_size == 0 {
            return Some(self.as_processed());
        }
        let mut i: usize = 0;
        assert(fields_view(fields@).subrange(0, fields@.len() as int) =~= fields_view(fields@));
        while i < fields.len()
            invariant
                i <= fields@.len(),
                required_size == self.required_size(),
                required_size != 0,
                find_zip64(fields_view(fields@)) == find_zip64(fields_view(fields@).subrange(i as int, fields@.len() as int)),
            decreases fields@.len() - i,
        {
            let ghost rest = fields_view(fields@).subrange(i as int, fields@.len() as int);
            assert(rest.drop_first() =~= fields_view(fields@).subrange(i + 1, fields@.len() as int));
            assert(rest[0] == fields@[i as int]@);
            if fields[i].id == ZIP64_EXTRA_FIELD_ID {
                assert(find_zip64(rest) == Some(fields@[i as int].data@));
                let payload = &fields[i].data;
                assert(find_zip64(fields_view(fields@)) == Some(payload@));
                if payload.len() < required_size {
                    return None;
                }
                return Some(self.read_all_if_needed(payload.as_slice()));
            }
            i += 1;
        }
        assert(fields_view(fields@).subrange(i as int, fields@.len() as int).len() == 0);
        None
    }

    fn required_zip64_size(&self) -> (r: usize)
        ensures
            r == self.required_size(),
    {
        (if self.uncompressed_size == u32::MAX { 8 } else { 0 }) + (if self.compressed_size
            == u32::MAX {
            8
        } else {
            0
        }) + (if self.local_header_offset == u32::MAX { 8 } else { 0 }) + (if self.disk_number
            == u16::MAX {
            4
        } else {
            0
        })
    }

    fn as_processed(&self) -> (r: Zip64ProcessedData)
        ensures
            r == self.widened(),
    {
        Zip64ProcessedData {
            uncompressed_size: self.uncompressed_size as u64,
            compressed_size: self.compressed_size as u64,
            local_header_offset: self.local_header_offset as u64,
            disk_number: self.disk_number as u32,
        }
    }

    fn read_all_if_needed(&self, data: &[u8]) -> (r: Zip64ProcessedData)
        requires
            self.required_size() <= data@.len() <= usize::MAX,
        ensures
            r == self.replaced(data@),
    {
        let mut cursor: usize = 0;
        let uncompressed_size = Self::read_u64_if_needed(data, &mut cursor, self.uncompressed_size);
        let compressed_size = Self::read_u64_if_needed(data, &mut cursor, self.compressed_size);
        let local_header_offset = Self::read_u64_if_needed(data, &mut cursor, self.local_header_offset);
        let disk_number = Self::read_u32_if_needed(data, &mut cursor, self.disk_number);
        Zip64ProcessedData { uncompressed_size, compressed_size, local_header_offset, disk_number }
    }

    fn read_u64_if_needed(data: &[u8], cursor: &mut usize, value: u32) -> (r: u64)
        requires
            value == u32::MAX ==> *old(cursor) + 8 <= data@.len(),
            *old(cursor) <= data@.len() <= usize::MAX,
        ensures
            *final(cursor) == *old(cursor) + width_if(value == u32::MAX, 8),
            r == if value == u32::MAX { le64(data@, *old(cursor) as int) as u64 } else { value as u64 },
    {
        if value != u32::MAX {
            value as u64
        } else {
                let v = read_u64(data, *cursor);
            *cursor = *cursor + 8;
            v
        }
    }

    fn read_u32_if_needed(data: &[u8], cursor: &mut usize, value: u16) -> (r: u32)
        requires
            value == u16::MAX ==> *old(cursor) + 4 <= data@.len(),
            *old(cursor) <= data@.len() <= usize::MAX,
        ensures
            *final(cursor) == *old(cursor) + width_if(value == u16::MAX, 4),
            r == if value == u16::MAX { le32(data@, *old(cursor) as int) as u32 } else { value as u32 },
    {
        if value != u16::MAX {
            value as u32
        } else {
                let v = read_u32(data, *cursor);
            *cursor = *cursor + 4;
            v
        }
    }
}

/// A size field that holds the 32-bit sentinel takes its value from a ZIP64
/// extra field that is long enough; when that field is missing or too short,
/// resolution fails rather than keep the sentinel.
pub proof fn lemma_zip64_size_resolution(o: Zip64OriginalData, fs: Seq<(u16, Seq<u8>)>)
    requires
        o.u_sent() || o.c_sent(),
    ensures
        find_zip64(fs) is Some && find_zip64(fs).unwrap().len() >= o.required_size() ==> {
            let p = find_zip64(fs).unwrap();
            &&& o.resolve(fs) is Some
            &&& o.u_sent() ==> o.resolve(fs).unwrap().uncompressed_size == le64(p, 0)
            &&& o.c_sent() ==> o.resolve(fs).unwrap().compressed_size == le64(p, width_if(o.u_sent(), 8))
        },
        (find_zip64(fs) is None || find_zip64(fs).unwrap().len() < o.required_size())
            ==> o.resolve(fs) is None,
{
    if let Some(p) = find_zip64(fs) {
        if p.len() >= o.required_size() {
            assert(0 <= le64(p, 0) <= u64::MAX) by {
                assert(0 <= le32(p, 0) <= u32::MAX);
                assert(0 <= le32(p, 4) <= u32::MAX);
            }
            let k = width_if(o.u_sent(), 8);
            assert(0 <= le64(p, k) <= u64::MAX) by {
                assert(0 <= le32(p, k) <= u32::MAX);
                assert(0 <= le32(p, k + 4) <= u32::MAX);
            }
        }
    }
}

} // verus!
