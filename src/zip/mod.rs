use vstd::prelude::*;
use vstd::slice::slice_subrange;

use crate::decompress::{DecompressionError, Decompressor};
use crate::decompress::deflate::DeflateDecompressor;

use self::structures::{le16, le32, method_of_id, read_u32, CompressionMethod, DecompressorCreationError};
use self::structures::central_directory::{
    sorted_by_position, CentralDirectoryFileHeader, SortedCentralDirectory,
};
use self::structures::local_file_header::{
    lfh_decodable, lfh_header_len, LocalFileHeader, LFH_CONSTANT_SIZE, LFH_SIGNATURE,
};

/// Provides utilities for working with ZIP structures
pub mod structures;

/// Provides utilities for automatically locating and reading a central directory
pub mod read_cd;

verus! {

/// Represents a position in a (possibly multipart) ZIP archive
#[derive(Debug, PartialEq, Eq, Structural, PartialOrd, Ord, Clone, Copy)]
pub struct ZipPosition {
    pub disk: usize,
    pub offset: usize,
}

/// `a` comes strictly before `b`: disks compare first, then offsets.
pub open spec fn pos_lt(a: ZipPosition, b: ZipPosition) -> bool {
    a.disk < b.disk || (a.disk == b.disk && a.offset < b.offset)
}

/// `a` comes at or before `b`.
pub open spec fn pos_le(a: ZipPosition, b: ZipPosition) -> bool {
    !pos_lt(b, a)
}

impl ZipPosition {
    /// Creates a new ZipPosition from the specified disk number and offset
    pub fn new(disk: usize, offset: usize) -> (r: Self)
        ensures
            r.disk == disk,
            r.offset == offset,
    {
        ZipPosition { disk, offset }
    }

    /// Creates a new ZipPosition from the offset with disk number 0
    pub fn from_offset(offset: usize) -> (r: Self)
        ensures
            r.disk == 0,
            r.offset == offset,
    {
        Self::new(0, offset)
    }

    /// Whether this position comes strictly before `other`
    pub fn is_before(&self, other: &ZipPosition) -> (r: bool)
        ensures
            r == pos_lt(*self, *other),
    {
        self.disk < other.disk || (self.disk == other.disk && self.offset < other.offset)
    }
}

/// Failure while unpacking
#[derive(Debug)]
pub enum DecoderError {
    Decompression(DecompressionError),
    DecompressorInit(DecompressorCreationError),
    /// Data exceeded the archive's size
    ExtraData,
    /// The next header (first) lies before the current position (second):
    /// one of the disk sizes is probably invalid
    Overshoot(ZipPosition, ZipPosition),
    /// No entry of the central directory starts at this position
    InvalidOffset(ZipPosition),
    /// A local file header has an invalid signature
    InvalidSignature,
    /// The decode callback failed
    FromDecodeCallback(String),
}

/// A chunk of decoded ZIP data
#[derive(Debug)]
pub enum ZipDecodedData<'a> {
    /// The ZIP file headers for a file
    FileHeader(&'a CentralDirectoryFileHeader, &'a LocalFileHeader),
    /// Decoded (uncompressed or decompressed) file bytes
    FileData(&'a [u8]),
}

enum ZipDecoderState {
    FileHeader,
    /// Compressed bytes consumed, the entry's compressed size, and the
    /// decompressor (none for stored entries)
    FileData(u64, u64, Option<DeflateDecompressor>),
}

/// An event that the unpacker decoded, as values: a header carries the index of
/// its central-directory entry and the bytes of its local header after the
/// signature.
pub enum EventView {
    Header(int, Seq<u8>),
    Data(Seq<u8>),
}

/// What the unpacker expects next: a local header, or the compressed bytes
/// of an entry (consumed so far, total, and whether they are stored).
pub enum Phase {
    Header,
    Data(nat, nat, bool),
}

/// Whether the callback `cb` was called with the event `ev` (of the entries
/// `hs`) and accepted it.
pub open spec fn accepted<C: Fn(ZipDecodedData) -> Result<(), String>>(cb: C, hs: Seq<CentralDirectoryFileHeader>, ev: EventView) -> bool {
    match ev {
        EventView::Header(i, _) => exists|l: &LocalFileHeader|
            #[trigger] cb.ensures((ZipDecodedData::FileHeader(&hs[i], l),), Ok::<(), String>(())),
        EventView::Data(b) => exists|x: &[u8]|
            x@ == b && #[trigger] cb.ensures((ZipDecodedData::FileData(x),), Ok::<(), String>(())),
    }
}

/// Whether `cb` accepted every event of `evs` from index `from` on.
pub open spec fn all_accepted<C: Fn(ZipDecodedData) -> Result<(), String>>(cb: C, hs: Seq<CentralDirectoryFileHeader>, evs: Seq<EventView>, from: int) -> bool {
    forall|j: int| from <= j < evs.len() ==> accepted(cb, hs, #[trigger] evs[j])
}

/// Whether the event sequence `a` begins with `b`.
pub open spec fn extends(a: Seq<EventView>, b: Seq<EventView>) -> bool {
    a.len() >= b.len() && forall|i: int| 0 <= i < b.len() ==> a[i] == b[i]
}

/// The outcome of one step: its result, the entry index and phase after it,
/// and the events it decoded.
pub struct StepOut {
    pub res: Result<(usize, bool), DecoderError>,
    pub idx: int,
    pub ph: Phase,
    pub evs: Seq<EventView>,
}

/// The outcome of feeding a buffer: its result, the index, position and
/// phase after it, and the events it decoded.
pub struct RunOut {
    /// Whether the whole call is determined; otherwise the feed reaches, after
    /// `evs`, a step where a decompressor decides, in state `idx`, `pos`, `ph`.
    pub decided: bool,
    pub res: Result<(usize, bool), DecoderError>,
    pub idx: int,
    pub pos: ZipPosition,
    pub ph: Phase,
    pub evs: Seq<EventView>,
}

/// One step while awaiting the local header of entry `idx`, `e`, at `pos`,
/// with the bytes `d` available.
pub open spec fn header_step(e: CentralDirectoryFileHeader, idx: int, sizes: Seq<usize>, pos: ZipPosition, d: Seq<u8>) -> StepOut {
    let hp = e.spec_header_position();
    let none = Seq::<EventView>::empty();
    if pos_lt(hp, pos) {
        StepOut { res: Err(DecoderError::Overshoot(hp, pos)), idx, ph: Phase::Header, evs: none }
    } else if pos.disk < hp.disk {
        StepOut {
            res: Ok((vstd::math::min(sizes[pos.disk as int] - pos.offset, d.len() as int) as usize, false)),
            idx,
            ph: Phase::Header,
            evs: none,
        }
    } else if pos.offset < hp.offset {
        StepOut {
            res: Ok((vstd::math::min(hp.offset - pos.offset, d.len() as int) as usize, false)),
            idx,
            ph: Phase::Header,
            evs: none,
        }
    } else if d.len() < 30 {
        StepOut { res: Ok((0usize, false)), idx, ph: Phase::Header, evs: none }
    } else if le32(d, 0) != LFH_SIGNATURE {
        StepOut { res: Err(DecoderError::InvalidSignature), idx, ph: Phase::Header, evs: none }
    } else if !lfh_decodable(d.subrange(4, d.len() as int)) {
        StepOut { res: Ok((0usize, false)), idx, ph: Phase::Header, evs: none }
    } else {
        let t = d.subrange(4, d.len() as int);
        let n = (4 + lfh_header_len(t)) as usize;
        let evs = seq![EventView::Header(idx, t.subrange(0, lfh_header_len(t)))];
        if e.uncompressed_size == 0 {
            StepOut { res: Ok((n, false)), idx: idx + 1, ph: Phase::Header, evs }
        } else {
            match method_of_id(le16(t, 4) as u16) {
                None => StepOut { res: Ok((n, false)), idx, ph: Phase::Data(0, e.compressed_size as nat, true), evs },
                Some(CompressionMethod::Deflate) => StepOut { res: Ok((n, false)), idx, ph: Phase::Data(0, e.compressed_size as nat, false), evs },
                Some(CompressionMethod::Unknown(m)) => StepOut {
                    res: Err(DecoderError::DecompressorInit(DecompressorCreationError::UnknownMethod(m))),
                    idx,
                    ph: Phase::Header,
                    evs,
                },
            }
        }
    }
}

/// One step of the unpacker on the bytes `d` that follow `pos`. `None` where
/// a decompressor decides what the step consumes and produces.
pub open spec fn step(hs: Seq<CentralDirectoryFileHeader>, sizes: Seq<usize>, idx: int, pos: ZipPosition, ph: Phase, d: Seq<u8>) -> Option<StepOut> {
    if idx < 0 || idx >= hs.len() {
        Some(StepOut { res: Ok((0usize, true)), idx, ph, evs: Seq::empty() })
    } else if !on_disk(sizes, pos) {
        Some(StepOut { res: Err(DecoderError::ExtraData), idx, ph, evs: Seq::empty() })
    } else {
        match ph {
            Phase::Header => Some(header_step(hs[idx], idx, sizes, pos, d)),
            Phase::Data(c, t, stored) => if !stored {
                None
            } else {
                let rem = t - c;
                let n = vstd::math::min(rem, d.len() as int);
                Some(StepOut {
                    res: Ok((n as usize, false)),
                    idx: if n == rem { idx + 1 } else { idx },
                    ph: if n == rem { Phase::Header } else { Phase::Data((c + n) as nat, t, true) },
                    evs: seq![EventView::Data(d.subrange(0, n))],
                })
            },
        }
    }
}

/// Feeding the bytes `d` from `off` on: steps are applied and the position
/// moved on by what each consumed, until a step consumes nothing or fails,
/// or a decompressor decides the next step (then the result is not `decided`).
pub open spec fn run(hs: Seq<CentralDirectoryFileHeader>, sizes: Seq<usize>, idx: int, pos: ZipPosition, ph: Phase, d: Seq<u8>, off: int) -> Option<RunOut>
    decreases d.len() - off,
{
    if off < 0 || off > d.len() {
        None
    } else {
        match step(hs, sizes, idx, pos, ph, d.subrange(off, d.len() as int)) {
            None => Some(RunOut { decided: false, res: Ok((off as usize, false)), idx, pos, ph, evs: Seq::empty() }),
            Some(o) => match o.res {
                Err(e) => Some(RunOut { decided: true, res: Err(e), idx: o.idx, pos, ph: o.ph, evs: o.evs }),
                Ok((n, _)) => if n == 0 {
                    Some(RunOut { decided: true, res: Ok((off as usize, o.idx >= hs.len())), idx: o.idx, pos, ph: o.ph, evs: o.evs })
                } else {
                    match spec_advance(sizes, pos, n as int) {
                        None => Some(RunOut { decided: true, res: Err(DecoderError::ExtraData), idx: o.idx, pos, ph: o.ph, evs: o.evs }),
                        Some(p2) => if off + n > d.len() {
                            None
                        } else {
                            match run(hs, sizes, o.idx, p2, o.ph, d, off + n) {
                                None => None,
                                Some(r) => Some(RunOut { decided: r.decided, res: r.res, idx: r.idx, pos: r.pos, ph: r.ph, evs: o.evs + r.evs }),
                            }
                        },
                    }
                },
            },
        }
    }
}

/// Where `p` lies after moving `n` bytes on: past the end of its disk it
/// moves to the next disks, and `None` when there are none left.
pub open spec fn spec_advance(sizes: Seq<usize>, p: ZipPosition, n: int) -> Option<ZipPosition> {
    if p.offset + n <= sizes[p.disk as int] {
        Some(ZipPosition { disk: p.disk, offset: (p.offset + n) as usize })
    } else {
        spill(sizes, p.disk as int, p.offset + n)
    }
}

/// The position that an offset `off` past the end of disk `d` falls on.
pub open spec fn spill(sizes: Seq<usize>, d: int, off: int) -> Option<ZipPosition>
    decreases sizes.len() - d,
{
    if d < 0 || d + 1 >= sizes.len() {
        None
    } else if off - sizes[d] < sizes[d + 1] {
        Some(ZipPosition { disk: (d + 1) as usize, offset: (off - sizes[d]) as usize })
    } else {
        spill(sizes, d + 1, off - sizes[d])
    }
}

/// Total size of the disks before disk `d`.
pub open spec fn sum_before(sizes: Seq<usize>, d: int) -> int
    decreases d,
{
    if d <= 0 {
        0
    } else {
        sum_before(sizes, d - 1) + sizes[d - 1]
    }
}

/// Offset of `p` in the disks taken as one concatenated byte stream.
pub open spec fn absolute_offset(sizes: Seq<usize>, p: ZipPosition) -> int {
    sum_before(sizes, p.disk as int) + p.offset
}

/// A position on an existing disk, at or before its end.
pub open spec fn on_disk(sizes: Seq<usize>, p: ZipPosition) -> bool {
    p.disk < sizes.len() && p.offset <= sizes[p.disk as int]
}

proof fn lemma_spill(sizes: Seq<usize>, d: int, off: int)
    requires
        sizes.len() <= usize::MAX,
        0 <= d < sizes.len(),
        off >= sizes[d],
    ensures
        spill(sizes, d, off) matches Some(q) ==> on_disk(sizes, q) && q.disk > d
            && absolute_offset(sizes, q) == sum_before(sizes, d) + off,
    decreases sizes.len() - d,
{
    if d + 1 < sizes.len() && off - sizes[d] >= sizes[d + 1] {
        lemma_spill(sizes, d + 1, off - sizes[d]);
    }
}

/// Moves `position` on by `amount` bytes over the disks of `disk_sizes`.
/// The result never comes before `position`, and lies on a disk.
pub fn advance_position(disk_sizes: &[usize], position: ZipPosition, amount: usize) -> (r: Option<ZipPosition>)
    requires
        on_disk(disk_sizes@, position),
    ensures
        r == spec_advance(disk_sizes@, position, amount as int),
        r matches Some(q) ==> on_disk(disk_sizes@, q) && pos_le(position, q) && absolute_offset(
            disk_sizes@,
            q,
        ) == absolute_offset(disk_sizes@, position) + amount,
{
    let size = disk_sizes[position.disk];
    if amount <= size - position.offset {
        return Some(ZipPosition::new(position.disk, position.offset + amount));
    }
    let mut new_offset: usize = amount - (size - position.offset);
    let mut d: usize = position.disk;
    let len = disk_sizes.len();
    while d + 1 < len
        invariant
            len == disk_sizes@.len(),
            position.offset + amount > disk_sizes@[position.disk as int],
            position.disk <= d < disk_sizes@.len(),
            spill(disk_sizes@, position.disk as int, position.offset + amount) == spill(
                disk_sizes@,
                d as int,
                new_offset + disk_sizes@[d as int],
            ),
        decreases disk_sizes@.len() - d,
    {
        if new_offset < disk_sizes[d + 1] {
            assert(spill(disk_sizes@, d as int, new_offset + disk_sizes@[d as int]) == Some(
                ZipPosition { disk: (d + 1) as usize, offset: new_offset },
            ));
            proof {
                lemma_spill(disk_sizes@, position.disk as int, position.offset + amount);
            }
            return Some(ZipPosition::new(d + 1, new_offset));
        }
        new_offset -= disk_sizes[d + 1];
        d += 1;
    }
    None
}

/// A stream unpacker for ZIP archives. Its callback `C` receives what it
/// decodes, in archive order; an error from the callback stops the
/// [ZipUnpacker::update] call that made it, and is passed on.
pub struct ZipUnpacker<C> {
    decoder_state: ZipDecoderState,
    current_index: usize,
    current_position: ZipPosition,
    disk_sizes: Vec<usize>,
    central_directory: SortedCentralDirectory,
    on_decode: Option<C>,
    decoded: Ghost<Seq<EventView>>,
}

/// The index of an entry whose local header starts at `p`.
pub open spec fn entry_at(hs: Seq<CentralDirectoryFileHeader>, i: int, p: ZipPosition) -> bool {
    0 <= i < hs.len() && hs[i].spec_header_position() == p
}

/// Hands `data` to the callback, if there is one.
fn emit<C: Fn(ZipDecodedData) -> Result<(), String>>(on_decode: &Option<C>, data: ZipDecodedData) -> (r: Result<(), DecoderError>)
    requires
        on_decode matches Some(cb) ==> forall|d: ZipDecodedData| cb.requires((d,)),
    ensures
        on_decode is None ==> r is Ok,
        r matches Err(e) ==> e is FromDecodeCallback && on_decode is Some,
        r matches Err(DecoderError::FromDecodeCallback(m)) ==> on_decode.unwrap().ensures((data,), Err::<(), String>(m)),
        r is Ok && on_decode is Some ==> on_decode.unwrap().ensures((data,), Ok::<(), String>(())),
{
    match on_decode {
        Some(cb) => {
            let res = cb(data);
            match res {
                Ok(u) => {
                    assert(res == Ok::<(), String>(()));
                    Ok(())
                },
                Err(e) => Err(DecoderError::FromDecodeCallback(e)),
            }
        },
        None => Ok(()),
    }
}

impl<C: Fn(ZipDecodedData) -> Result<(), String>> ZipUnpacker<C> {
    pub closed spec fn spec_headers(&self) -> Seq<CentralDirectoryFileHeader> {
        self.central_directory.spec_headers()
    }

    pub closed spec fn spec_disk_sizes(&self) -> Seq<usize> {
        self.disk_sizes@
    }

    /// Index of the entry that is being decoded or awaited
    pub closed spec fn spec_index(&self) -> int {
        self.current_index as int
    }

    /// Position in the archive of the next byte to be fed
    pub closed spec fn spec_position(&self) -> ZipPosition {
        self.current_position
    }

    /// What the unpacker expects next
    pub closed spec fn phase(&self) -> Phase {
        match self.decoder_state {
            ZipDecoderState::FileHeader => Phase::Header,
            ZipDecoderState::FileData(c, t, d) => Phase::Data(c as nat, t as nat, d is None),
        }
    }

    /// The events decoded so far, in order, that went through: with a callback
    /// set, those it accepted (an event it refuses is not recorded)
    pub closed spec fn decoded(&self) -> Seq<EventView> {
        self.decoded@
    }

    /// Whether a callback has been set
    pub closed spec fn has_callback(&self) -> bool {
        self.on_decode is Some
    }

    /// The callback, if one has been set
    pub closed spec fn callback(&self) -> Option<C> {
        self.on_decode
    }

    /// Whether the callback refused some event with the message `m`.
    pub open spec fn refused_with(&self, m: String) -> bool {
        self.callback() matches Some(cb) && exists|d: ZipDecodedData| cb.ensures((d,), Err::<(), String>(m))
    }

    pub closed spec fn wf(&self) -> bool {
        &&& self.current_index <= self.central_directory.spec_headers().len()
        &&& self.on_decode matches Some(cb) ==> forall|d: ZipDecodedData| cb.requires((d,))
        &&& match self.decoder_state {
            ZipDecoderState::FileHeader => true,
            ZipDecoderState::FileData(consumed, total, _) => {
                &&& consumed <= total
                &&& self.current_index < self.central_directory.spec_headers().len()
            },
        }
    }

    /// What feeding `data` does, where no decompressor decides it
    pub open spec fn spec_run(&self, data: Seq<u8>) -> Option<RunOut> {
        run(self.spec_headers(), self.spec_disk_sizes(), self.spec_index(), self.spec_position(), self.phase(), data, 0)
    }

    /// Creates a new ZipUnpacker
    ///
    /// The easiest way to obtain a central directory object is to use [read_cd::from_provider].
    /// "disk_sizes" must only contain one element if the archive is a cut one, and not a
    /// real split one.
    pub fn new(central_directory: SortedCentralDirectory, disk_sizes: Vec<usize>) -> (r: Self)
        ensures
            r.wf(),
            r.spec_headers() == central_directory.spec_headers(),
            r.spec_disk_sizes() == disk_sizes@,
            r.spec_index() == 0,
            r.spec_position() == (ZipPosition { disk: 0, offset: 0 }),
            r.phase() == Phase::Header,
            r.decoded() == Seq::<EventView>::empty(),
            !r.has_callback(),
    {
        ZipUnpacker {
            decoder_state: ZipDecoderState::FileHeader,
            current_index: 0,
            current_position: ZipPosition::new(0, 0),
            disk_sizes,
            central_directory,
            on_decode: None,
            decoded: Ghost(Seq::empty()),
        }
    }

    /// Creates a new ZipUnpacker, starting from the specified position, which must be
    /// where the local header of an entry of the central directory starts. If the archive
    /// is not actually split, you must set disk number to 0 and use the absolute offset,
    /// even if there are multiple files
    ///
    /// "disk_sizes" must only contain one element if the archive is a cut one, and not a
    /// real split one.
    pub fn resume(central_directory: SortedCentralDirectory, disk_sizes: Vec<usize>, position: ZipPosition) -> (r: Result<Self, DecoderError>)
        ensures
            match r {
                Ok(u) => {
                    &&& u.wf()
                    &&& entry_at(central_directory.spec_headers(), u.spec_index(), position)
                    &&& u.spec_position() == position
                    &&& u.spec_headers() == central_directory.spec_headers()
                    &&& u.spec_disk_sizes() == disk_sizes@
                    &&& u.phase() == Phase::Header
                    &&& u.decoded() == Seq::<EventView>::empty()
                    &&& !u.has_callback()
                },
                Err(e) => {
                    &&& e == DecoderError::InvalidOffset(position)
                    &&& forall|i: int| !entry_at(central_directory.spec_headers(), i, position)
                },
            },
    {
        let headers = central_directory.headers_ref();
        let mut lo: usize = 0;
        let mut hi: usize = headers.len();
        while lo < hi
            invariant
                hi <= headers@.len(),
                headers@ == central_directory.spec_headers(),
                sorted_by_position(headers@),
                forall|i: int| 0 <= i < lo ==> pos_lt(#[trigger] headers@[i].spec_header_position(), position),
                forall|i: int| hi <= i < headers@.len() ==> pos_lt(position, #[trigger] headers@[i].spec_header_position()),
            decreases hi - lo,
        {
            let mid = lo + (hi - lo) / 2;
            let p = headers[mid].header_position();
            if p == position {
                return Ok(ZipUnpacker {
                    decoder_state: ZipDecoderState::FileHeader,
                    current_index: mid,
                    current_position: position,
                    disk_sizes,
                    central_directory,
                    on_decode: None,
                    decoded: Ghost(Seq::empty()),
                });
            }
            if p.is_before(&position) {
                lo = mid + 1;
            } else {
                hi = mid;
            }
        }
        Err(DecoderError::InvalidOffset(position))
    }

    /// Sets the decode callback. It will be invoked with each event decoded
    /// from bytes passed to [ZipUnpacker::update] from then on
    pub fn set_callback(&mut self, on_decode: C)
        requires
            forall|d: ZipDecodedData| on_decode.requires((d,)),
        ensures
            final(self).callback() == Some(on_decode),
            final(self).has_callback(),
            final(self).spec_headers() == old(self).spec_headers(),
            final(self).spec_disk_sizes() == old(self).spec_disk_sizes(),
            final(self).spec_index() == old(self).spec_index(),
            final(self).spec_position() == old(self).spec_position(),
            final(self).phase() == old(self).phase(),
            final(self).decoded() == old(self).decoded(),
            old(self).wf() ==> final(self).wf(),
    {
        self.on_decode = Some(on_decode);
    }

    /// One step of the state machine on the bytes `data` that follow the
    /// current position. Returns how many of them it used, and whether all
    /// entries were done before it.
    fn update_internal(&mut self, data: &[u8]) -> (r: Result<(usize, bool), DecoderError>)
        requires
            old(self).wf(),
        ensures
            final(self).wf(),
            final(self).spec_headers() == old(self).spec_headers(),
            final(self).spec_disk_sizes() == old(self).spec_disk_sizes(),
            final(self).spec_position() == old(self).spec_position(),
            final(self).has_callback() == old(self).has_callback(),
            final(self).callback() == old(self).callback(),
            old(self).spec_index() <= final(self).spec_index() <= old(self).spec_index() + 1,
            r matches Err(DecoderError::FromDecodeCallback(m)) ==> old(self).refused_with(m),
            extends(final(self).decoded(), old(self).decoded()),
            old(self).callback() matches Some(cb) ==> all_accepted(cb, old(self).spec_headers(), final(self).decoded(), old(self).decoded().len() as int),
            r matches Ok((n, fin)) ==> n <= data@.len() && (fin ==> n == 0)
                && (n > 0 ==> on_disk(old(self).spec_disk_sizes(), old(self).spec_position())),
            step(old(self).spec_headers(), old(self).spec_disk_sizes(), old(self).spec_index(), old(self).spec_position(), old(self).phase(), data@)
                matches Some(o) ==> (r matches Err(DecoderError::FromDecodeCallback(m)) && old(self).refused_with(m)
                    && final(self).decoded() == old(self).decoded() && o.evs.len() == 1)
                || (r == o.res && final(self).spec_index() == o.idx && final(self).phase() == o.ph
                    && final(self).decoded() == old(self).decoded() + o.evs),
            match old(self).phase() {
                Phase::Data(c, t, false) => old(self).spec_index() < old(self).spec_headers().len()
                    && on_disk(old(self).spec_disk_sizes(), old(self).spec_position()) ==> {
                    &&& r matches Ok((n, fin)) ==> {
                        &&& !fin
                        &&& n <= t - c
                        &&& n == t - c ==> final(self).phase() == Phase::Header && final(self).spec_index() == old(self).spec_index() + 1
                        &&& n < t - c ==> final(self).phase() == Phase::Data((c + n) as nat, t, false)
                            && final(self).spec_index() == old(self).spec_index()
                    }
                    &&& r matches Err(e) ==> e is FromDecodeCallback || e is Decompression
                },
                _ => true,
            },
    {
        let n_headers = self.central_directory.headers_ref().len();
        if self.current_index >= n_headers {
            return Ok((0, true));
        }
        let cur = self.current_position;
        if cur.disk >= self.disk_sizes.len() || cur.offset > self.disk_sizes[cur.disk] {
            return Err(DecoderError::ExtraData);
        }
        let mut state = ZipDecoderState::FileHeader;
        std::mem::swap(&mut state, &mut self.decoder_state);
        match state {
            ZipDecoderState::FileHeader => {
                let headers = self.central_directory.headers_ref();
                let cdfh = &headers[self.current_index];
                let hp = cdfh.header_position();
                if hp.is_before(&cur) {
                    return Err(DecoderError::Overshoot(hp, cur));
                }
                if cur.disk < hp.disk {
                    let avail = self.disk_sizes[cur.disk] - cur.offset;
                    return Ok((if avail < data.len() { avail } else { data.len() }, false));
                }
                if cur.offset < hp.offset {
                    let gap = hp.offset - cur.offset;
                    return Ok((if gap < data.len() { gap } else { data.len() }, false));
                }
                if data.len() < 4 + LFH_CONSTANT_SIZE {
                    return Ok((0, false));
                }
                if read_u32(data, 0) != LFH_SIGNATURE {
                    return Err(DecoderError::InvalidSignature);
                }
                let rest = slice_subrange(data, 4, data.len());
                let Some(lfh) = LocalFileHeader::from_bytes(rest) else {
                    return Ok((0, false));
                };
                let header_size = lfh.header_size;
                match emit(&self.on_decode, ZipDecodedData::FileHeader(cdfh, &lfh)) {
                    Err(e) => return Err(e),
                    Ok(()) => {},
                }
                let ghost idx = self.current_index as int;
                self.decoded = Ghost(self.decoded@.push(EventView::Header(idx, rest@.subrange(0, header_size as int))));
                if cdfh.uncompressed_size == 0 {
                    self.current_index += 1;
                } else {
                    let total = cdfh.compressed_size;
                    let decompressor = match &lfh.compression_method {
                        None => None,
                        Some(m) => match m.create_decompressor() {
                            Ok(d) => Some(d),
                            Err(e) => return Err(DecoderError::DecompressorInit(e)),
                        },
                    };
                    self.decoder_state = ZipDecoderState::FileData(0, total, decompressor);
                }
                Ok((4 + header_size, false))
            },
            ZipDecoderState::FileData(pos, total, mut decompressor) => {
                let bytes_left = total - pos;
                let bytes_to_read = if bytes_left < data.len() as u64 {
                    bytes_left as usize
                } else {
                    data.len()
                };
                let file_bytes = slice_subrange(data, 0, bytes_to_read);
                let (count, produced) = match &mut decompressor {
                    Some(d) => match d.update(file_bytes) {
                        Ok((c, out)) => (c, Some(out)),
                        Err(e) => return Err(DecoderError::Decompression(e)),
                    },
                    None => (bytes_to_read, None),
                };
                if count as u64 == bytes_left {
                    self.current_index += 1;
                } else {
                    self.decoder_state = ZipDecoderState::FileData(pos + count as u64, total, decompressor);
                }
                let ghost produced_view = if produced is Some { produced.unwrap()@ } else { file_bytes@ };
                let emitted = match &produced {
                    Some(out) => emit(&self.on_decode, ZipDecodedData::FileData(out.as_slice())),
                    None => emit(&self.on_decode, ZipDecodedData::FileData(file_bytes)),
                };
                match emitted {
                    Err(e) => Err(e),
                    Ok(()) => {
                        self.decoded = Ghost(self.decoded@.push(EventView::Data(produced_view)));
                        Ok((count, false))
                    },
                }
            },
        }
    }

    /// Update this ZipUnpacker with new bytes. The callback may or
    /// may not be fired, depending on the content. The callback may
    /// be fired multiple times.
    ///
    /// The first return value is how much the caller should advance the input buffer
    /// (0 means that there wasn't enough data in the buffer and the caller should
    /// provide more), and the second value determines whether all files were processed
    /// (which means that the caller should stop providing data)
    ///
    /// An entry whose uncompressed size in the central directory is zero (a directory
    /// or an empty file) gets its header event only: compressed bytes that it may declare
    /// are passed over like the gap before the next local header.
    #[verifier::rlimit(50)]
    pub fn update(&mut self, data: &[u8]) -> (r: Result<(usize, bool), DecoderError>)
        requires
            old(self).wf(),
        ensures
            final(self).wf(),
            final(self).spec_headers() == old(self).spec_headers(),
            final(self).spec_disk_sizes() == old(self).spec_disk_sizes(),
            final(self).has_callback() == old(self).has_callback(),
            final(self).callback() == old(self).callback(),
            old(self).spec_index() <= final(self).spec_index(),
            r matches Ok((n, fin)) ==> n <= data@.len() && fin == (final(self).spec_index()
                >= final(self).spec_headers().len()),
            r matches Err(DecoderError::FromDecodeCallback(m)) ==> old(self).refused_with(m),
            extends(final(self).decoded(), old(self).decoded()),
            old(self).callback() matches Some(cb) ==> all_accepted(cb, old(self).spec_headers(), final(self).decoded(), old(self).decoded().len() as int),
            old(self).spec_run(data@) matches Some(o) ==> (r matches Err(DecoderError::FromDecodeCallback(m))
                && exists|k: int| 0 <= k < o.evs.len() && final(self).decoded() == old(self).decoded() + o.evs.subrange(0, k))
                || (o.decided && r == o.res && final(self).spec_index() == o.idx && final(self).spec_position() == o.pos
                && final(self).phase() == o.ph && final(self).decoded() == old(self).decoded() + o.evs)
                || (!o.decided && extends(final(self).decoded(), old(self).decoded() + o.evs)),
    {
        let mut buf_offset: usize = 0;
        let ghost mut prefix: Seq<EventView> = Seq::empty();
        assert(old(self).decoded() + prefix =~= old(self).decoded());
        loop
            invariant
                self.wf(),
                buf_offset <= data@.len(),
                self.spec_headers() == old(self).spec_headers(),
                self.spec_disk_sizes() == old(self).spec_disk_sizes(),
                self.has_callback() == old(self).has_callback(),
                self.callback() == old(self).callback(),
                old(self).spec_index() <= self.spec_index(),
                extends(self.decoded(), old(self).decoded()),
                old(self).callback() matches Some(cb) ==> all_accepted(cb, old(self).spec_headers(), self.decoded(), old(self).decoded().len() as int),
                old(self).spec_run(data@) matches Some(o) ==> (self.decoded() == old(self).decoded() + prefix
                    && (run(
                    self.spec_headers(),
                    self.spec_disk_sizes(),
                    self.spec_index(),
                    self.spec_position(),
                    self.phase(),
                    data@,
                    buf_offset as int,
                ) matches Some(o2) && o == (RunOut { decided: o2.decided, res: o2.res, idx: o2.idx, pos: o2.pos, ph: o2.ph, evs: prefix + o2.evs })))
                    || (!o.decided && extends(self.decoded(), old(self).decoded() + o.evs)),
            decreases data@.len() - buf_offset,
        {
            let ghost s0 = *self;
            let ghost off = buf_offset as int;
            let rest = slice_subrange(data, buf_offset, data.len());
            let ghost st = step(s0.spec_headers(), s0.spec_disk_sizes(), s0.spec_index(), s0.spec_position(), s0.phase(), rest@);
            let ghost on_track = old(self).spec_run(data@) is Some && s0.decoded() == old(self).decoded() + prefix && run(
                s0.spec_headers(), s0.spec_disk_sizes(), s0.spec_index(), s0.spec_position(), s0.phase(), data@, off,
            ) is Some && old(self).spec_run(data@).unwrap() == (RunOut {
                decided: run(s0.spec_headers(), s0.spec_disk_sizes(), s0.spec_index(), s0.spec_position(), s0.phase(), data@, off).unwrap().decided,
                res: run(s0.spec_headers(), s0.spec_disk_sizes(), s0.spec_index(), s0.spec_position(), s0.phase(), data@, off).unwrap().res,
                idx: run(s0.spec_headers(), s0.spec_disk_sizes(), s0.spec_index(), s0.spec_position(), s0.phase(), data@, off).unwrap().idx,
                pos: run(s0.spec_headers(), s0.spec_disk_sizes(), s0.spec_index(), s0.spec_position(), s0.phase(), data@, off).unwrap().pos,
                ph: run(s0.spec_headers(), s0.spec_disk_sizes(), s0.spec_index(), s0.spec_position(), s0.phase(), data@, off).unwrap().ph,
                evs: prefix + run(s0.spec_headers(), s0.spec_disk_sizes(), s0.spec_index(), s0.spec_position(), s0.phase(), data@, off).unwrap().evs,
            });
            let res = self.update_internal(rest);
            proof {
                lemma_extends_trans(self.decoded(), s0.decoded(), old(self).decoded());
                if old(self).spec_run(data@) is Some {
                    let o = old(self).spec_run(data@).unwrap();
                    if on_track {
                        if st is Some {
                            let so = st.unwrap();
                            assert(old(self).decoded() + prefix + so.evs =~= old(self).decoded() + (prefix + so.evs));
                        } else {
                            assert(!o.decided);
                            assert(prefix + Seq::<EventView>::empty() =~= prefix);
                            assert(o.evs == prefix);
                            lemma_extends_trans(self.decoded(), s0.decoded(), old(self).decoded() + o.evs);
                        }
                    } else {
                        lemma_extends_trans(self.decoded(), s0.decoded(), old(self).decoded() + o.evs);
                    }
                }
            }
            let (advanced, _) = match res {
                Ok(x) => x,
                Err(e) => {
                    proof {
                        if on_track && st is Some && e is FromDecodeCallback {
                            let o = old(self).spec_run(data@).unwrap();
                            let k = prefix.len() as int;
                            assert(o.evs.subrange(0, k) =~= prefix);
                            assert(0 <= k < o.evs.len());
                        }
                    }
                    return Err(e);
                },
            };
            if advanced == 0 {
                let finished = self.current_index >= self.central_directory.headers_ref().len();
                return Ok((buf_offset, finished));
            }
            match advance_position(self.disk_sizes.as_slice(), self.current_position, advanced) {
                None => return Err(DecoderError::ExtraData),
                Some(p) => self.current_position = p,
            }
            buf_offset += advanced;
            proof {
                if on_track && st is Some {
                    let so = st.unwrap();
                    let o3 = run(self.spec_headers(), self.spec_disk_sizes(), self.spec_index(), self.spec_position(), self.phase(), data@, buf_offset as int);
                    assert(o3 is Some);
                    assert(prefix + (so.evs + o3.unwrap().evs) =~= (prefix + so.evs) + o3.unwrap().evs);
                    prefix = prefix + so.evs;
                }
            }
        }
    }
}

/// `o` with its consumed count moved on by `k`.
pub open spec fn shifted(o: Option<RunOut>, k: int) -> Option<RunOut> {
    match o {
        None => None,
        Some(r) => Some(RunOut {
            decided: r.decided,
            res: match r.res {
                Ok((n, f)) => Ok(((n + k) as usize, f)),
                Err(e) => Err(e),
            },
            idx: r.idx,
            pos: r.pos,
            ph: r.ph,
            evs: r.evs,
        }),
    }
}

/// A scan that has reached entry `i` at position `p` at offset `k` of its
/// bytes `d` goes on exactly as an unpacker resumed there (at entry `i`, `p`,
/// in the same phase) that is fed the bytes from `k` on: the same events,
/// state and result, with consumed counts larger by `k`.
pub proof fn lemma_resume_continues_scan(
    hs: Seq<CentralDirectoryFileHeader>,
    sizes: Seq<usize>,
    i: int,
    p: ZipPosition,
    ph: Phase,
    d: Seq<u8>,
    k: int,
)
    requires
        0 <= k <= d.len(),
        d.len() <= usize::MAX,
    ensures
        run(hs, sizes, i, p, ph, d, k) == shifted(run(hs, sizes, i, p, ph, d.subrange(k, d.len() as int), 0), k),
{
    lemma_run_shift(hs, sizes, i, p, ph, d, k, 0);
}

proof fn lemma_run_shift(
    hs: Seq<CentralDirectoryFileHeader>,
    sizes: Seq<usize>,
    i: int,
    p: ZipPosition,
    ph: Phase,
    d: Seq<u8>,
    k: int,
    j: int,
)
    requires
        0 <= k <= d.len(),
        0 <= j <= d.len() - k,
        d.len() <= usize::MAX,
    ensures
        run(hs, sizes, i, p, ph, d, k + j) == shifted(run(hs, sizes, i, p, ph, d.subrange(k, d.len() as int), j), k),
    decreases d.len() - k - j,
{
    let e = d.subrange(k, d.len() as int);
    assert(d.subrange(k + j, d.len() as int) =~= e.subrange(j, e.len() as int));
    match step(hs, sizes, i, p, ph, e.subrange(j, e.len() as int)) {
        None => {},
        Some(o) => match o.res {
            Err(_) => {},
            Ok((n, _)) => if n != 0 {
                match spec_advance(sizes, p, n as int) {
                    None => {},
                    Some(p2) => if j + n <= e.len() {
                        lemma_run_shift(hs, sizes, o.idx, p2, o.ph, d, k, j + n);
                        assert(k + (j + n) == (k + j) + n);
                    },
                }
            },
        },
    }
}


proof fn lemma_extends_trans(a: Seq<EventView>, b: Seq<EventView>, c: Seq<EventView>)
    ensures
        extends(a, b) && extends(b, c) ==> extends(a, c),
{
    if extends(a, b) && extends(b, c) {
        assert forall|i: int| 0 <= i < c.len() implies a[i] == c[i] by {
            assert(a[i] == b[i]);
        }
    }
}

} // verus!
