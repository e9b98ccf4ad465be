use vstd::prelude::*;
use vstd::slice::slice_subrange;

use super::ZipPosition;
use super::structures::{le32, read_u32};
use super::structures::central_directory::{
    cd_decode_outcome, cd_headers_at, CentralDirectory, CentralDirectoryError,
};
use super::structures::cd_location::{
    eocd32_offset, parse_eocd32, parse_eocd64, parse_eocd64_locator, CentralDirectoryLocationData,
    EndOfCentralDirectory32, EndOfCentralDirectory64, EndOfCentralDirectory64Locator,
    CDLD_MAX_SIZE, EOCD32_CONSTANT_SIZE, EOCD64_CONSTANT_SIZE, EOCD64_LOCATOR_CONSTANT_SIZE, EOCD64_LOCATOR_SIGNATURE,
    EOCD64_SIGNATURE,
};

verus! {

/// Failure to locate or read a central directory
#[derive(Debug, Clone, PartialEq, Eq)]
pub enum CentralDirectoryReadError {
    MapSpans,
    FromProvider(String),
    ProviderByteCount(usize, usize),
    NoEOCD32,
    InvalidDiskSizes,
    BadEOCD32,
    BadEOCD64Locator,
    BadEOCD64,
    DecodeCentralDirectory(CentralDirectoryError),
}

/// Sum of the disk sizes from disk `d` on.
pub open spec fn sum_from(sizes: Seq<usize>, d: int) -> int
    decreases sizes.len() - d,
{
    if d < 0 || d >= sizes.len() {
        0
    } else {
        sizes[d] + sum_from(sizes, d + 1)
    }
}

/// Sum of the lengths of the calls.
pub open spec fn calls_total(c: Seq<(ZipPosition, usize)>) -> int
    decreases c.len(),
{
    if c.len() == 0 {
        0
    } else {
        c[0].1 + calls_total(c.drop_first())
    }
}

/// The calls that read `left` bytes from offset `o` of disk `d` on, each
/// kept to one disk; `None` when the range leaves the last disk or the
/// offset lies past the end of its disk.
pub open spec fn local_calls(sizes: Seq<usize>, d: int, o: int, left: int) -> Option<Seq<(ZipPosition, usize)>>
    decreases sizes.len() - d,
{
    if d < 0 || d >= sizes.len() || o > sizes[d] {
        None
    } else {
        let take = if sizes[d] - o < left { sizes[d] - o } else { left };
        let call = (ZipPosition { disk: d as usize, offset: o as usize }, take as usize);
        if take == left {
            Some(seq![call])
        } else {
            match local_calls(sizes, d + 1, 0, left - take) {
                Some(rest) => Some(seq![call] + rest),
                None => None,
            }
        }
    }
}

/// The calls that read `length` bytes from offset `left` of the disks from
/// `d` on, taken as one concatenated byte stream.
pub open spec fn global_calls(sizes: Seq<usize>, d: int, left: int, length: int) -> Option<Seq<(ZipPosition, usize)>>
    decreases sizes.len() - d,
{
    if d < 0 || d >= sizes.len() {
        None
    } else if left < sizes[d] {
        local_calls(sizes, d, left, length)
    } else {
        global_calls(sizes, d + 1, left - sizes[d], length)
    }
}

/// Each call stays within one disk, and the disks rise strictly from `d` on.
pub open spec fn calls_fit(sizes: Seq<usize>, c: Seq<(ZipPosition, usize)>, d: int) -> bool {
    &&& forall|i: int| 0 <= i < c.len() ==> {
        &&& d <= (#[trigger] c[i]).0.disk < sizes.len()
        &&& c[i].0.offset + c[i].1 <= sizes[c[i].0.disk as int]
    }
    &&& forall|i: int, j: int| 0 <= i < j < c.len() ==> (#[trigger] c[i]).0.disk < (#[trigger] c[j]).0.disk
}

proof fn lemma_sum_from_nonneg(sizes: Seq<usize>, d: int)
    ensures
        sum_from(sizes, d) >= 0,
    decreases sizes.len() - d,
{
    if d >= 0 && d < sizes.len() {
        lemma_sum_from_nonneg(sizes, d + 1);
    }
}

/// A range that starts on an existing disk, at or before its end, and ends
/// within the archive maps to calls whose lengths add up to the range's
/// length, each within one disk, on strictly rising disks.
pub proof fn lemma_local_calls_cover(sizes: Seq<usize>, d: int, o: int, length: int)
    requires
        sizes.len() <= usize::MAX,
        0 <= d < sizes.len(),
        0 <= o <= sizes[d],
        0 <= length <= usize::MAX,
        o + length <= sum_from(sizes, d),
    ensures
        local_calls(sizes, d, o, length) matches Some(c) && calls_total(c) == length
            && calls_fit(sizes, c, d) && c.len() > 0 && c[0].0.disk == d,
    decreases sizes.len() - d,
{
    let take = if sizes[d] - o < length { sizes[d] - o } else { length };
    let call = (ZipPosition { disk: d as usize, offset: o as usize }, take as usize);
    if take == length {
        let c = seq![call];
        assert(c.drop_first() =~= Seq::<(ZipPosition, usize)>::empty());
        assert(calls_total(c) == c[0].1 + calls_total(c.drop_first()));
        assert(calls_total(Seq::<(ZipPosition, usize)>::empty()) == 0);
    } else {
        assert(sum_from(sizes, d) == sizes[d] + sum_from(sizes, d + 1));
        assert(d + 1 < sizes.len());
        lemma_local_calls_cover(sizes, d + 1, 0, length - take);
        let rest = local_calls(sizes, d + 1, 0, length - take).unwrap();
        let c = seq![call] + rest;
        assert(c.drop_first() =~= rest);
        assert(calls_total(c) == c[0].1 + calls_total(c.drop_first()));
        assert forall|i: int, j: int| 0 <= i < j < c.len() implies (#[trigger] c[i]).0.disk < (#[trigger] c[j]).0.disk by {
            if i > 0 {
                assert(c[i] == rest[i - 1]);
                assert(c[j] == rest[j - 1]);
            } else {
                assert(c[j] == rest[j - 1]);
            }
        }
        assert forall|i: int| 0 <= i < c.len() implies {
            &&& d <= (#[trigger] c[i]).0.disk < sizes.len()
            &&& c[i].0.offset + c[i].1 <= sizes[c[i].0.disk as int]
        } by {
            if i > 0 {
                assert(c[i] == rest[i - 1]);
            }
        }
    }
}

/// The same law for a range given as an offset into the concatenated disks:
/// an offset inside the archive and a range that ends within it map to calls
/// whose lengths add up to the range's length, each within one disk, on
/// strictly rising disks.
pub proof fn lemma_global_calls_cover(sizes: Seq<usize>, d: int, left: int, length: int)
    requires
        sizes.len() <= usize::MAX,
        0 <= d <= sizes.len(),
        0 <= left < sum_from(sizes, d),
        0 <= length <= usize::MAX,
        left + length <= sum_from(sizes, d),
    ensures
        global_calls(sizes, d, left, length) matches Some(c) && calls_total(c) == length
            && calls_fit(sizes, c, d),
    decreases sizes.len() - d,
{
    if d == sizes.len() {
    } else if left < sizes[d] {
        lemma_local_calls_cover(sizes, d, left, length);
    } else {
        lemma_global_calls_cover(sizes, d + 1, left - sizes[d], length);
    }
}

#[inline]
fn map_local_to_calls(disk_sizes: &[usize], pos: ZipPosition, length: usize) -> (r: Result<Vec<(ZipPosition, usize)>, CentralDirectoryReadError>)
    ensures
        match local_calls(disk_sizes@, pos.disk as int, pos.offset as int, length as int) {
            Some(c) => r matches Ok(v) && v@ == c,
            None => r == Err::<Vec<(ZipPosition, usize)>, _>(CentralDirectoryReadError::MapSpans),
        },
{
    if pos.disk >= disk_sizes.len() {
        return Err(CentralDirectoryReadError::MapSpans);
    }
    let mut out: Vec<(ZipPosition, usize)> = Vec::new();
    let mut i: usize = pos.disk;
    let mut cur_offset: usize = pos.offset;
    let mut left: usize = length;
    loop
        invariant
            pos.disk <= i < disk_sizes@.len(),
            local_calls(disk_sizes@, pos.disk as int, pos.offset as int, length as int) == match local_calls(
                disk_sizes@,
                i as int,
                cur_offset as int,
                left as int,
            ) {
                Some(rest) => Some(out@ + rest),
                None => None,
            },
        decreases disk_sizes@.len() - i,
    {
        let size = disk_sizes[i];
        if cur_offset > size {
            return Err(CentralDirectoryReadError::MapSpans);
        }
        let from_this = if size - cur_offset < left { size - cur_offset } else { left };
        let ghost call = (ZipPosition { disk: i as usize, offset: cur_offset as usize }, from_this as usize);
        let ghost old_out = out@;
        out.push((ZipPosition::new(i, cur_offset), from_this));
        if from_this == left {
            assert(old_out + seq![call] =~= out@);
            return Ok(out);
        }
        proof {
            match local_calls(disk_sizes@, i + 1, 0, left - from_this) {
                Some(rest) => {
                    assert(old_out + (seq![call] + rest) =~= out@ + rest);
                },
                None => {},
            }
        }
        left -= from_this;
        cur_offset = 0;
        i += 1;
        if i >= disk_sizes.len() {
            return Err(CentralDirectoryReadError::MapSpans);
        }
    }
}

#[inline]
fn map_global_to_calls(disk_sizes: &[usize], offset: usize, length: usize) -> (r: Result<Vec<(ZipPosition, usize)>, CentralDirectoryReadError>)
    ensures
        match global_calls(disk_sizes@, 0, offset as int, length as int) {
            Some(c) => r matches Ok(v) && v@ == c,
            None => r == Err::<Vec<(ZipPosition, usize)>, _>(CentralDirectoryReadError::MapSpans),
        },
{
    let mut left = offset;
    let mut i: usize = 0;
    while i < disk_sizes.len()
        invariant
            i <= disk_sizes@.len(),
            global_calls(disk_sizes@, 0, offset as int, length as int) == global_calls(disk_sizes@, i as int, left as int, length as int),
        decreases disk_sizes@.len() - i,
    {
        if left < disk_sizes[i] {
            return map_local_to_calls(disk_sizes, ZipPosition::new(i, left), length);
        }
        left -= disk_sizes[i];
        i += 1;
    }
    Err(CentralDirectoryReadError::MapSpans)
}

/// The calls for `length` bytes at `pos`: disk-relative, or, when `global`,
/// at `pos.offset` into the concatenated disks.
pub open spec fn spec_map_to_calls(sizes: Seq<usize>, pos: ZipPosition, length: usize, global: bool) -> Option<Seq<(ZipPosition, usize)>> {
    if !global {
        local_calls(sizes, pos.disk as int, pos.offset as int, length as int)
    } else {
        global_calls(sizes, 0, pos.offset as int, length as int)
    }
}

/// Splits `length` bytes at `pos` into per-disk provider calls.
pub fn map_to_calls(disk_sizes: &[usize], pos: ZipPosition, length: usize, global: bool) -> (r: Result<Vec<(ZipPosition, usize)>, CentralDirectoryReadError>)
    ensures
        match spec_map_to_calls(disk_sizes@, pos, length, global) {
            Some(c) => r matches Ok(v) && v@ == c,
            None => r == Err::<Vec<(ZipPosition, usize)>, _>(CentralDirectoryReadError::MapSpans),
        },
{
    if !global {
        map_local_to_calls(disk_sizes, pos, length)
    } else {
        map_global_to_calls(disk_sizes, pos.offset, length)
    }
}

/// The byte sequences of `parts`, joined in order.
pub open spec fn joined(parts: Seq<Vec<u8>>) -> Seq<u8> {
    parts.map_values(|v: Vec<u8>| v@).flatten()
}

/// Whether `parts` are answers that the provider may give to `calls`, each
/// exactly as long as asked.
pub open spec fn answered<F: Fn(ZipPosition, usize) -> Result<Vec<u8>, String>>(
    provider: F,
    calls: Seq<(ZipPosition, usize)>,
    parts: Seq<Vec<u8>>,
) -> bool {
    &&& parts.len() == calls.len()
    &&& forall|i: int| 0 <= i < calls.len() ==> {
        &&& provider.ensures((calls[i].0, calls[i].1), Ok::<Vec<u8>, String>(#[trigger] parts[i]))
        &&& parts[i]@.len() == calls[i].1
    }
}

/// Whether `b` is what the provider's answers to `calls` give, joined in order.
pub open spec fn provided<F: Fn(ZipPosition, usize) -> Result<Vec<u8>, String>>(
    provider: F,
    calls: Seq<(ZipPosition, usize)>,
    b: Seq<u8>,
) -> bool {
    exists|parts: Seq<Vec<u8>>| #[trigger] answered(provider, calls, parts) && b == joined(parts)
}

proof fn lemma_joined_push(parts: Seq<Vec<u8>>, v: Vec<u8>)
    ensures
        joined(parts.push(v)) == joined(parts) + v@,
{
    assert(parts.push(v).map_values(|v: Vec<u8>| v@) =~= parts.map_values(|v: Vec<u8>| v@).push(v@));
    parts.map_values(|v: Vec<u8>| v@).lemma_flatten_push(v@);
}

/// Asks the provider for each call in turn and joins what it returns. The
/// first answer of the wrong length, or the first failure, ends it.
#[inline]
fn make_calls<F>(calls: Vec<(ZipPosition, usize)>, provider: &F) -> (r: Result<Vec<u8>, CentralDirectoryReadError>)
    where
        F: Fn(ZipPosition, usize) -> Result<Vec<u8>, String>,
    requires
        forall|p: ZipPosition, l: usize| provider.requires((p, l)),
    ensures
        r matches Ok(b) ==> provided(*provider, calls@, b@),
        r matches Err(CentralDirectoryReadError::ProviderByteCount(want, got)) ==> exists|i: int, v: Vec<u8>|
            0 <= i < calls@.len() && want == calls@[i].1 && got == v@.len() && want != got
                && #[trigger] provider.ensures((calls@[i].0, calls@[i].1), Ok::<Vec<u8>, String>(v)),
        r matches Err(CentralDirectoryReadError::FromProvider(m)) ==> exists|i: int|
            0 <= i < calls@.len() && #[trigger] provider.ensures((calls@[i].0, calls@[i].1), Err::<Vec<u8>, String>(m)),
        r matches Err(e) ==> e is ProviderByteCount || e is FromProvider,
{
    let mut bytes: Vec<u8> = Vec::new();
    let mut i: usize = 0;
    let ghost mut parts: Seq<Vec<u8>> = Seq::empty();
    assert(joined(parts) =~= Seq::<u8>::empty());
    while i < calls.len()
        invariant
            i <= calls@.len(),
            forall|p: ZipPosition, l: usize| provider.requires((p, l)),
            answered(*provider, calls@.subrange(0, i as int), parts),
            bytes@ == joined(parts),
        decreases calls@.len() - i,
    {
        let (pos, length) = calls[i];
        let r = provider(pos, length);
        let mut data = match r {
            Ok(d) => d,
            Err(e) => {
                let ghost w = i as int;
                assert(provider.ensures((calls@[w].0, calls@[w].1), Err::<Vec<u8>, String>(e)));
                let out = CentralDirectoryReadError::FromProvider(e);
                assert(out matches CentralDirectoryReadError::FromProvider(m) && provider.ensures((calls@[w].0, calls@[w].1), Err::<Vec<u8>, String>(m)));
                return Err(out);
            },
        };
        if data.len() != length {
            assert(provider.ensures((calls@[i as int].0, calls@[i as int].1), Ok::<Vec<u8>, String>(data)));
            return Err(CentralDirectoryReadError::ProviderByteCount(length, data.len()));
        }
        let ghost d0 = data;
        proof {
            lemma_joined_push(parts, d0);
            let np = parts.push(d0);
            let sub = calls@.subrange(0, i + 1);
            assert forall|k: int| 0 <= k < sub.len() implies {
                &&& provider.ensures((sub[k].0, sub[k].1), Ok::<Vec<u8>, String>(#[trigger] np[k]))
                &&& np[k]@.len() == sub[k].1
            } by {
                if k < i {
                    assert(sub[k] == calls@.subrange(0, i as int)[k]);
                    assert(np[k] == parts[k]);
                }
            }
            parts = np;
        }
        bytes.append(&mut data);
        i += 1;
    }
    assert(calls@.subrange(0, i as int) =~= calls@);
    Ok(bytes)
}

/// What the tail of an archive says of its central directory.
#[derive(Debug, Clone, Copy, PartialEq, Eq, Structural)]
pub enum TailLocation {
    /// The EOCD32 locates the central directory by itself.
    Direct(CentralDirectoryLocationData),
    /// The EOCD32 needs ZIP64 values: the EOCD64 lies where the locator says.
    Zip64(EndOfCentralDirectory32, EndOfCentralDirectory64Locator),
}

/// The outcome of reading a tail window `s` that ends where the archive ends.
pub open spec fn tail_outcome(s: Seq<u8>) -> Result<TailLocation, CentralDirectoryReadError> {
    match eocd32_offset(s) {
        None => Err(CentralDirectoryReadError::NoEOCD32),
        Some(off) => match parse_eocd32(s.subrange(off + 4, s.len() as int)) {
            None => Err(CentralDirectoryReadError::BadEOCD32),
            Some(e) => if off + 4 + e.eocd32_size != s.len() {
                Err(CentralDirectoryReadError::InvalidDiskSizes)
            } else if !e.spec_requires_zip64() || off < 20 {
                Ok(TailLocation::Direct(CentralDirectoryLocationData::spec_from_eocd32(e)))
            } else if le32(s, off - 20) != EOCD64_LOCATOR_SIGNATURE {
                Err(CentralDirectoryReadError::BadEOCD64Locator)
            } else {
                match parse_eocd64_locator(s.subrange(off - 16, s.len() as int)) {
                    None => Err(CentralDirectoryReadError::BadEOCD64Locator),
                    Some(l) => Ok(TailLocation::Zip64(e, l)),
                }
            },
        },
    }
}

/// Finds and reads the EOCD32 in the tail window of an archive and decides
/// where the central directory's location comes from. An EOCD32 that needs
/// no ZIP64 values is used directly, and no ZIP64 record is looked for.
pub fn locate_from_tail(data: &[u8]) -> (r: Result<TailLocation, CentralDirectoryReadError>)
    ensures
        r == tail_outcome(data@),
{
    if data.len() < EOCD32_CONSTANT_SIZE {
        return Err(CentralDirectoryReadError::NoEOCD32);
    }
    let Some(eocd32_offset) = EndOfCentralDirectory32::find_offset(data) else {
        return Err(CentralDirectoryReadError::NoEOCD32);
    };
    let Some(eocd32) = EndOfCentralDirectory32::from_bytes(slice_subrange(data, eocd32_offset + 4, data.len())) else {
        return Err(CentralDirectoryReadError::BadEOCD32);
    };
    if eocd32.eocd32_size != data.len() - (eocd32_offset + 4) {
        return Err(CentralDirectoryReadError::InvalidDiskSizes);
    }
    if !eocd32.requires_zip64() || eocd32_offset < 4 + EOCD64_LOCATOR_CONSTANT_SIZE {
        return Ok(TailLocation::Direct(CentralDirectoryLocationData::from_eocd32(eocd32)));
    }
    let locator_offset = eocd32_offset - 4 - EOCD64_LOCATOR_CONSTANT_SIZE;
    if read_u32(data, locator_offset) != EOCD64_LOCATOR_SIGNATURE {
        return Err(CentralDirectoryReadError::BadEOCD64Locator);
    }
    let Some(locator) = EndOfCentralDirectory64Locator::from_bytes(slice_subrange(data, locator_offset + 4, data.len())) else {
        return Err(CentralDirectoryReadError::BadEOCD64Locator);
    };
    Ok(TailLocation::Zip64(eocd32, locator))
}

/// The EOCD64 that `s` holds, signature first.
pub open spec fn eocd64_record(s: Seq<u8>) -> Option<EndOfCentralDirectory64> {
    if s.len() < 56 || le32(s, 0) != EOCD64_SIGNATURE {
        None
    } else {
        parse_eocd64(s.subrange(4, s.len() as int))
    }
}

/// Reads an EOCD64 record, signature first.
pub fn read_eocd64_record(data: &[u8]) -> (r: Result<EndOfCentralDirectory64, CentralDirectoryReadError>)
    ensures
        match eocd64_record(data@) {
            Some(e) => r == Ok::<_, CentralDirectoryReadError>(e),
            None => r == Err::<EndOfCentralDirectory64, _>(CentralDirectoryReadError::BadEOCD64),
        },
{
    if data.len() < 4 + EOCD64_CONSTANT_SIZE {
        return Err(CentralDirectoryReadError::BadEOCD64);
    }
    if read_u32(data, 0) != EOCD64_SIGNATURE {
        return Err(CentralDirectoryReadError::BadEOCD64);
    }
    match EndOfCentralDirectory64::from_bytes(slice_subrange(data, 4, data.len())) {
        Some(e) => Ok(e),
        None => Err(CentralDirectoryReadError::BadEOCD64),
    }
}

/// Size of the tail window read from an archive of `total` bytes.
pub open spec fn tail_len(total: int) -> int {
    if total < CDLD_MAX_SIZE { total } else { CDLD_MAX_SIZE as int }
}

/// The provider calls that read the tail window of the concatenated disks.
pub open spec fn tail_calls_of(sizes: Seq<usize>) -> Option<Seq<(ZipPosition, usize)>> {
    let total = sum_from(sizes, 0);
    global_calls(sizes, 0, total - tail_len(total), tail_len(total))
}

/// The provider calls that read the EOCD64 record, signature included, where
/// the locator `l` says it is.
pub open spec fn eocd64_calls_for(sizes: Seq<usize>, is_cut: bool, l: EndOfCentralDirectory64Locator) -> Option<Seq<(ZipPosition, usize)>> {
    spec_map_to_calls(sizes, ZipPosition { disk: l.eocd64_disk_number as usize, offset: l.eocd64_offset as usize }, 56, is_cut)
}

/// The provider calls that read the central directory at `loc`.
pub open spec fn cd_calls_for(sizes: Seq<usize>, is_cut: bool, loc: CentralDirectoryLocationData) -> Option<Seq<(ZipPosition, usize)>> {
    spec_map_to_calls(sizes, ZipPosition { disk: loc.cd_disk_number as usize, offset: loc.cd_offset as usize }, loc.cd_size as usize, is_cut)
}

/// Whether `loc` is where the central directory lies, given what the tail
/// window said (`out`) and, for ZIP64, the EOCD64 that the provider returned.
pub open spec fn location_from<F: Fn(ZipPosition, usize) -> Result<Vec<u8>, String>>(
    provider: F,
    sizes: Seq<usize>,
    is_cut: bool,
    out: Result<TailLocation, CentralDirectoryReadError>,
    loc: CentralDirectoryLocationData,
) -> bool {
    match out {
        Ok(TailLocation::Direct(l)) => l == loc,
        Ok(TailLocation::Zip64(e32, l)) => exists|b: Seq<u8>|
            #[trigger] eocd64_record(b) matches Some(e64) && eocd64_calls_for(sizes, is_cut, l) matches Some(ec)
                && provided(provider, ec, b) && loc == CentralDirectoryLocationData::spec_from_eocd64(e32, e64),
        Err(_) => false,
    }
}

/// Whether the provider's answers give the tail window `t`, from which the
/// central directory is located at `loc`, whose bytes the provider answers
/// with `c`.
pub open spec fn located_by<F: Fn(ZipPosition, usize) -> Result<Vec<u8>, String>>(
    provider: F,
    sizes: Seq<usize>,
    is_cut: bool,
    t: Seq<u8>,
    c: Seq<u8>,
    loc: CentralDirectoryLocationData,
) -> bool {
    &&& tail_calls_of(sizes) matches Some(tc) && provided(provider, tc, t)
    &&& location_from(provider, sizes, is_cut, tail_outcome(t), loc)
    &&& cd_calls_for(sizes, is_cut, loc) matches Some(cc) && provided(provider, cc, c)
}

/// Whether, after the tail window `t`, mapping the EOCD64 or the central
/// directory to disk calls fails.
pub open spec fn maps_fail_after<F: Fn(ZipPosition, usize) -> Result<Vec<u8>, String>>(
    provider: F,
    sizes: Seq<usize>,
    is_cut: bool,
    t: Seq<u8>,
) -> bool {
    ||| tail_outcome(t) matches Ok(TailLocation::Zip64(_, l)) && eocd64_calls_for(sizes, is_cut, l) is None
    ||| exists|loc: CentralDirectoryLocationData|
        #[trigger] location_from(provider, sizes, is_cut, tail_outcome(t), loc) && cd_calls_for(sizes, is_cut, loc) is None
}

/// Whether the tail window `t` calls for an EOCD64 at whose place the provider
/// may answer bytes that hold none.
pub open spec fn eocd64_missing<F: Fn(ZipPosition, usize) -> Result<Vec<u8>, String>>(
    provider: F,
    sizes: Seq<usize>,
    is_cut: bool,
    t: Seq<u8>,
) -> bool {
    exists|b: Seq<u8>|
        #[trigger] eocd64_record(b) is None && (tail_outcome(t) matches Ok(TailLocation::Zip64(_, l))
            && eocd64_calls_for(sizes, is_cut, l) matches Some(ec) && provided(provider, ec, b))
}

/// Tries to locate and read a central directory by using the provider callback.
/// Disk sizes must be provided starting from the first disk (usually .001 or .z01).
/// The last disk file is sometimes not labeled with a number
///
/// The "is_cut" option enables processing "multipart archives" which are not actually
/// multipart archives, and instead just a regular archive file split into pieces,
/// without changing any of the structures
///
/// The arguments to the provider callback are a [ZipPosition] and length. It is guaranteed
/// that the length will not exceed the remaining size of the disk
pub fn from_provider<F>(disk_sizes: &[usize], is_cut: bool, provider: F) -> (r: Result<CentralDirectory, CentralDirectoryReadError>)
    where
        F: Fn(ZipPosition, usize) -> Result<Vec<u8>, String>,
    requires
        forall|p: ZipPosition, l: usize| provider.requires((p, l)),
        sum_from(disk_sizes@, 0) <= usize::MAX,
    ensures
        disk_sizes@.len() == 0 ==> r == Err::<CentralDirectory, _>(CentralDirectoryReadError::MapSpans),
        tail_calls_of(disk_sizes@) is None ==> r == Err::<CentralDirectory, _>(CentralDirectoryReadError::MapSpans),
        r matches Ok(cd) ==> exists|t: Seq<u8>, c: Seq<u8>, loc: CentralDirectoryLocationData|
            #[trigger] located_by(provider, disk_sizes@, is_cut, t, c, loc) && (cd_decode_outcome(c) matches Ok(offs)
                && cd_headers_at(c, offs, cd.spec_headers())),
        r matches Err(CentralDirectoryReadError::DecodeCentralDirectory(ce)) ==> exists|t: Seq<u8>, c: Seq<u8>, loc: CentralDirectoryLocationData|
            #[trigger] located_by(provider, disk_sizes@, is_cut, t, c, loc) && cd_decode_outcome(c) == Err::<Seq<int>, _>(ce),
        r matches Err(e) ==> ((e is NoEOCD32 || e is InvalidDiskSizes || e is BadEOCD32 || e is BadEOCD64Locator)
            ==> exists|t: Seq<u8>| #[trigger] tail_outcome(t) == Err::<TailLocation, _>(e)
                && (tail_calls_of(disk_sizes@) matches Some(tc) && provided(provider, tc, t))),
        r matches Err(CentralDirectoryReadError::ProviderByteCount(want, got)) ==> exists|p: ZipPosition, v: Vec<u8>|
            want != got && got == v@.len() && #[trigger] provider.ensures((p, want), Ok::<Vec<u8>, String>(v)),
        r matches Err(CentralDirectoryReadError::FromProvider(m)) ==> exists|p: ZipPosition, l: usize|
            #[trigger] provider.ensures((p, l), Err::<Vec<u8>, String>(m)),
        r matches Err(CentralDirectoryReadError::MapSpans) ==> tail_calls_of(disk_sizes@) is None || exists|t: Seq<u8>|
            #[trigger] maps_fail_after(provider, disk_sizes@, is_cut, t) && (tail_calls_of(disk_sizes@) matches Some(tc)
                && provided(provider, tc, t)),
        r matches Err(CentralDirectoryReadError::BadEOCD64) ==> exists|t: Seq<u8>|
            #[trigger] eocd64_missing(provider, disk_sizes@, is_cut, t) && (tail_calls_of(disk_sizes@) matches Some(tc)
                && provided(provider, tc, t)),
{
    let mut total_size: usize = 0;
    let mut i: usize = 0;
    while i < disk_sizes.len()
        invariant
            i <= disk_sizes@.len(),
            sum_from(disk_sizes@, 0) <= usize::MAX,
            total_size + sum_from(disk_sizes@, i as int) == sum_from(disk_sizes@, 0),
        decreases disk_sizes@.len() - i,
    {
        proof {
            lemma_sum_from_nonneg(disk_sizes@, i + 1);
        }
        total_size += disk_sizes[i];
        i += 1;
    }
    let tail_size = if total_size < CDLD_MAX_SIZE { total_size } else { CDLD_MAX_SIZE };
    assert(total_size == sum_from(disk_sizes@, 0));
    let tail_calls = match map_to_calls(disk_sizes, ZipPosition::from_offset(total_size - tail_size), tail_size, true) {
        Ok(c) => c,
        Err(e) => return Err(e),
    };
    let cdld_bytes = match make_calls(tail_calls, &provider) {
        Ok(b) => b,
        Err(e) => return Err(e),
    };
    assert(tail_calls_of(disk_sizes@) == Some(tail_calls@));
    let cdld = match locate_from_tail(cdld_bytes.as_slice()) {
        Err(e) => {
            assert(tail_outcome(cdld_bytes@) == Err::<TailLocation, _>(e));
            return Err(e);
        },
        Ok(TailLocation::Direct(cdld)) => cdld,
        Ok(TailLocation::Zip64(eocd32, locator)) => {
            let eocd64_pos = ZipPosition::new(locator.eocd64_disk_number as usize, locator.eocd64_offset as usize);
            let eocd64_calls = match map_to_calls(disk_sizes, eocd64_pos, 4 + EOCD64_CONSTANT_SIZE, is_cut) {
                Ok(c) => c,
                Err(e) => {
                    assert(maps_fail_after(provider, disk_sizes@, is_cut, cdld_bytes@));
                    return Err(e);
                },
            };
            let eocd64_bytes = match make_calls(eocd64_calls, &provider) {
                Ok(b) => b,
                Err(e) => return Err(e),
            };
            match read_eocd64_record(eocd64_bytes.as_slice()) {
                Ok(eocd64) => {
                    let loc = CentralDirectoryLocationData::from_eocd64(eocd32, eocd64);
                    assert(eocd64_calls_for(disk_sizes@, is_cut, locator) == Some(eocd64_calls@));
                    assert(eocd64_record(eocd64_bytes@) == Some(eocd64));
                    assert(location_from(provider, disk_sizes@, is_cut, tail_outcome(cdld_bytes@), loc));
                    loc
                },
                Err(e) => {
                    assert(eocd64_calls_for(disk_sizes@, is_cut, locator) == Some(eocd64_calls@));
                    assert(eocd64_record(eocd64_bytes@) is None);
                    assert(eocd64_missing(provider, disk_sizes@, is_cut, cdld_bytes@));
                    return Err(e);
                },
            }
        },
    };
    let cd_pos = ZipPosition::new(cdld.cd_disk_number as usize, cdld.cd_offset as usize);
    assert(location_from(provider, disk_sizes@, is_cut, tail_outcome(cdld_bytes@), cdld));
    let cd_calls = match map_to_calls(disk_sizes, cd_pos, cdld.cd_size as usize, is_cut) {
        Ok(c) => c,
        Err(e) => {
            assert(cd_calls_for(disk_sizes@, is_cut, cdld) is None);
            assert(maps_fail_after(provider, disk_sizes@, is_cut, cdld_bytes@));
            return Err(e);
        },
    };
    let cd_bytes = match make_calls(cd_calls, &provider) {
        Ok(b) => b,
        Err(e) => return Err(e),
    };
    assert(cd_calls_for(disk_sizes@, is_cut, cdld) == Some(cd_calls@));
    assert(located_by(provider, disk_sizes@, is_cut, cdld_bytes@, cd_bytes@, cdld));
    match CentralDirectory::from_bytes(cd_bytes.as_slice()) {
        Ok(cd) => {
            assert(cd_decode_outcome(cd_bytes@) matches Ok(offs) && cd_headers_at(cd_bytes@, offs, cd.spec_headers()));
            Ok(cd)
        },
        Err(e) => Err(CentralDirectoryReadError::DecodeCentralDirectory(e)),
    }
}

/// An EOCD32 with no field at its sentinel leads straight to the central
/// directory: the location is the EOCD32's own, and no ZIP64 locator or EOCD64
/// is read, whatever the provider would answer.
pub proof fn lemma_no_zip64_without_sentinels<F: Fn(ZipPosition, usize) -> Result<Vec<u8>, String>>(
    provider: F,
    sizes: Seq<usize>,
    is_cut: bool,
    s: Seq<u8>,
    loc: CentralDirectoryLocationData,
)
    requires
        eocd32_offset(s) matches Some(off) && parse_eocd32(s.subrange(off + 4, s.len() as int))
            matches Some(e) && !e.spec_requires_zip64() && off + 4 + e.eocd32_size == s.len(),
    ensures
        !(tail_outcome(s) matches Ok(TailLocation::Zip64(_, _))),
        ({
            let off = eocd32_offset(s).unwrap();
            let e = parse_eocd32(s.subrange(off + 4, s.len() as int)).unwrap();
            location_from(provider, sizes, is_cut, tail_outcome(s), loc) <==> loc
                == CentralDirectoryLocationData::spec_from_eocd32(e)
        }),
{
}

} // verus!
