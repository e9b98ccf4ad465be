use std::cell::RefCell;
use std::rc::Rc;

use stream_unpack::zip::read_cd::{from_provider, map_to_calls, CentralDirectoryReadError};
use stream_unpack::zip::structures::central_directory::{CentralDirectory, CentralDirectoryError};
use stream_unpack::zip::{
    advance_position, DecoderError, ZipDecodedData, ZipPosition, ZipUnpacker,
};

#[derive(Debug, Clone, PartialEq)]
enum Event {
    Header(String, String),
    Data(Vec<u8>),
}

#[derive(Clone, Default)]
struct Recorder {
    events: Rc<RefCell<Vec<Event>>>,
    fail: bool,
}

type NoCallback = fn(ZipDecodedData) -> Result<(), String>;

impl Recorder {
    fn callback(&self) -> impl Fn(ZipDecodedData) -> Result<(), String> {
        let events = self.events.clone();
        let fail = self.fail;
        move |data: ZipDecodedData| {
            if fail {
                return Err("refused".to_string());
            }
            match data {
                ZipDecodedData::FileHeader(cdfh, lfh) => events
                    .borrow_mut()
                    .push(Event::Header(cdfh.filename.clone(), lfh.filename.clone())),
                ZipDecodedData::FileData(bytes) => {
                    let mut events = events.borrow_mut();
                    if let Some(Event::Data(prev)) = events.last_mut() {
                        prev.extend_from_slice(bytes);
                    } else {
                        events.push(Event::Data(bytes.to_vec()));
                    }
                }
            }
            Ok(())
        }
    }
}

fn u16le(v: &mut Vec<u8>, x: u16) {
    v.extend_from_slice(&x.to_le_bytes());
}

fn u32le(v: &mut Vec<u8>, x: u32) {
    v.extend_from_slice(&x.to_le_bytes());
}

struct Entry {
    name: &'static [u8],
    method: u16,
    data: Vec<u8>,
    uncompressed: u32,
}

fn lfh(e: &Entry) -> Vec<u8> {
    let mut v = Vec::new();
    u32le(&mut v, 0x04034b50);
    u16le(&mut v, 20);
    u16le(&mut v, 0);
    u16le(&mut v, e.method);
    u16le(&mut v, 0);
    u16le(&mut v, 0);
    u32le(&mut v, 0);
    u32le(&mut v, e.data.len() as u32);
    u32le(&mut v, e.uncompressed);
    u16le(&mut v, e.name.len() as u16);
    u16le(&mut v, 0);
    v.extend_from_slice(e.name);
    v
}

fn cdfh(e: &Entry, disk: u16, offset: u32) -> Vec<u8> {
    let mut v = Vec::new();
    u32le(&mut v, 0x02014b50);
    u16le(&mut v, 20);
    u16le(&mut v, 20);
    u16le(&mut v, 0);
    u16le(&mut v, e.method);
    u16le(&mut v, 0);
    u16le(&mut v, 0);
    u32le(&mut v, 0);
    u32le(&mut v, e.data.len() as u32);
    u32le(&mut v, e.uncompressed);
    u16le(&mut v, e.name.len() as u16);
    u16le(&mut v, 0);
    u16le(&mut v, 0);
    u16le(&mut v, disk);
    u16le(&mut v, 0);
    u32le(&mut v, 0);
    u32le(&mut v, offset);
    v.extend_from_slice(e.name);
    v
}

fn eocd32(entries: u16, cd_size: u32, cd_offset: u32) -> Vec<u8> {
    let mut v = Vec::new();
    u32le(&mut v, 0x06054b50);
    u16le(&mut v, 0);
    u16le(&mut v, 0);
    u16le(&mut v, entries);
    u16le(&mut v, entries);
    u32le(&mut v, cd_size);
    u32le(&mut v, cd_offset);
    u16le(&mut v, 0);
    v
}

/// A single-disk archive; returns it with the offset where its central directory starts.
fn build(entries: &[Entry]) -> (Vec<u8>, usize) {
    let mut out = Vec::new();
    let mut offsets = Vec::new();
    for e in entries {
        offsets.push(out.len() as u32);
        out.extend(lfh(e));
        out.extend_from_slice(&e.data);
    }
    let cd_offset = out.len();
    let mut cd = Vec::new();
    for (e, off) in entries.iter().zip(offsets) {
        cd.extend(cdfh(e, 0, off));
    }
    out.extend_from_slice(&cd);
    out.extend(eocd32(entries.len() as u16, cd.len() as u32, cd_offset as u32));
    (out, cd_offset)
}

fn two_entries() -> Vec<Entry> {
    vec![
        Entry { name: b"dir/", method: 0, data: vec![], uncompressed: 0 },
        Entry { name: b"dir/a.txt", method: 0, data: b"hi".to_vec(), uncompressed: 2 },
    ]
}

fn read_directory(archive: &[u8]) -> CentralDirectory {
    let len = archive.len();
    from_provider(&[len], false, |pos: ZipPosition, length: usize| {
        Ok(archive[pos.offset..pos.offset + length].to_vec())
    })
    .unwrap()
}

fn expected_two_entry_events() -> Vec<Event> {
    vec![
        Event::Header("dir/".to_string(), "dir/".to_string()),
        Event::Header("dir/a.txt".to_string(), "dir/a.txt".to_string()),
        Event::Data(b"hi".to_vec()),
    ]
}

#[test]
fn two_entry_archive_end_to_end() {
    let (archive, cd_offset) = build(&two_entries());
    let cd = read_directory(&archive);
    assert_eq!(cd.headers_ref().len(), 2);
    let sorted = cd.sort();
    assert_eq!(sorted.headers_ref().len(), 2);
    assert!(sorted.headers_ref()[0].is_directory());
    assert!(!sorted.headers_ref()[1].is_directory());

    let rec = Recorder::default();
    let mut unpacker = ZipUnpacker::new(sorted, vec![archive.len()]);
    unpacker.set_callback(rec.callback());
    let (consumed, finished) = unpacker.update(&archive).unwrap();
    assert!(finished);
    assert_eq!(consumed, cd_offset);
    assert_eq!(*rec.events.borrow(), expected_two_entry_events());
}

#[test]
fn not_finished_before_last_data_byte() {
    let (archive, cd_offset) = build(&two_entries());
    let sorted = read_directory(&archive).sort();
    let mut unpacker = ZipUnpacker::<NoCallback>::new(sorted, vec![archive.len()]);
    let (consumed, finished) = unpacker.update(&archive[..cd_offset - 1]).unwrap();
    assert!(!finished);
    assert_eq!(consumed, cd_offset - 1);
    let (consumed, finished) = unpacker.update(&archive[cd_offset - 1..]).unwrap();
    assert!(finished);
    assert_eq!(consumed, 1);
}

#[test]
fn byte_by_byte_matches_single_call() {
    let (archive, _) = build(&two_entries());

    let whole = Recorder::default();
    let mut u1 = ZipUnpacker::new(read_directory(&archive).sort(), vec![archive.len()]);
    u1.set_callback(whole.callback());
    let (_, finished_whole) = u1.update(&archive).unwrap();

    let single = Recorder::default();
    let mut u2 = ZipUnpacker::new(read_directory(&archive).sort(), vec![archive.len()]);
    u2.set_callback(single.callback());
    let mut buf: Vec<u8> = Vec::new();
    let mut finished = false;
    for b in archive.iter() {
        buf.push(*b);
        let (consumed, fin) = u2.update(&buf).unwrap();
        buf.drain(..consumed);
        if fin {
            finished = true;
            break;
        }
    }
    assert!(finished_whole);
    assert!(finished);
    assert_eq!(*whole.events.borrow(), *single.events.borrow());
}

#[test]
fn short_provider_read_is_an_error() {
    let (archive, _) = build(&two_entries());
    let len = archive.len();
    let r = from_provider(&[len], false, |pos: ZipPosition, length: usize| {
        Ok(archive[pos.offset..pos.offset + length - 1].to_vec())
    });
    match r {
        Err(CentralDirectoryReadError::ProviderByteCount(want, got)) => assert_eq!(want, got + 1),
        other => panic!("unexpected {:?}", other.map(|c| c.headers_ref().len())),
    }
}

#[test]
fn provider_failure_is_passed_on() {
    let r = from_provider(&[100], false, |_: ZipPosition, _: usize| Err("gone".to_string()));
    assert!(matches!(r, Err(CentralDirectoryReadError::FromProvider(ref m)) if m == "gone"));
}

#[test]
fn empty_disk_table_fails_to_map() {
    let r = from_provider(&[], false, |_: ZipPosition, _: usize| Ok(vec![]));
    assert!(matches!(r, Err(CentralDirectoryReadError::MapSpans)));
}

#[test]
fn no_eocd_is_reported() {
    let data = vec![0u8; 64];
    let r = from_provider(&[64], false, |pos: ZipPosition, length: usize| {
        Ok(data[pos.offset..pos.offset + length].to_vec())
    });
    assert!(matches!(r, Err(CentralDirectoryReadError::NoEOCD32)));
}

#[test]
fn resume_at_unknown_position_fails() {
    let (archive, _) = build(&two_entries());
    let sorted = read_directory(&archive).sort();
    let r = ZipUnpacker::<NoCallback>::resume(sorted, vec![archive.len()], ZipPosition::new(0, 5));
    assert!(matches!(r, Err(DecoderError::InvalidOffset(p)) if p == ZipPosition::new(0, 5)));
}

#[test]
fn resume_at_entry_continues_from_it() {
    let (archive, cd_offset) = build(&two_entries());
    let sorted = read_directory(&archive).sort();
    let start = sorted.headers_ref()[1].header_position();
    assert_eq!(start, ZipPosition::from_offset(30 + 4));
    let rec = Recorder::default();
    let mut unpacker = ZipUnpacker::resume(sorted, vec![archive.len()], start).unwrap();
    unpacker.set_callback(rec.callback());
    let (consumed, finished) = unpacker.update(&archive[start.offset..]).unwrap();
    assert!(finished);
    assert_eq!(consumed, cd_offset - start.offset);
    assert_eq!(*rec.events.borrow(), expected_two_entry_events()[1..].to_vec());
}

#[test]
fn deflate_entry_is_inflated() {
    // a final stored DEFLATE block holding "hey"
    let deflated = vec![0x01, 0x03, 0x00, 0xfc, 0xff, b'h', b'e', b'y'];
    let entries = vec![Entry { name: b"d.txt", method: 8, data: deflated, uncompressed: 3 }];
    let (archive, _) = build(&entries);
    let rec = Recorder::default();
    let mut unpacker = ZipUnpacker::new(read_directory(&archive).sort(), vec![archive.len()]);
    unpacker.set_callback(rec.callback());
    let (_, finished) = unpacker.update(&archive).unwrap();
    assert!(finished);
    assert_eq!(
        *rec.events.borrow(),
        vec![Event::Header("d.txt".to_string(), "d.txt".to_string()), Event::Data(b"hey".to_vec())]
    );
}

#[test]
fn unknown_method_fails() {
    let entries = vec![Entry { name: b"x", method: 99, data: vec![1, 2], uncompressed: 2 }];
    let (archive, _) = build(&entries);
    let mut unpacker = ZipUnpacker::<NoCallback>::new(read_directory(&archive).sort(), vec![archive.len()]);
    let r = unpacker.update(&archive);
    assert!(matches!(r, Err(DecoderError::DecompressorInit(_))));
}

#[test]
fn bad_local_signature_fails() {
    let (mut archive, _) = build(&two_entries());
    archive[0] = 0;
    let sorted = read_directory(&archive).sort();
    let mut unpacker = ZipUnpacker::<NoCallback>::new(sorted, vec![archive.len()]);
    assert!(matches!(unpacker.update(&archive), Err(DecoderError::InvalidSignature)));
}

#[test]
fn callback_failure_is_passed_on() {
    let (archive, _) = build(&two_entries());
    let rec = Recorder { fail: true, ..Recorder::default() };
    let mut unpacker = ZipUnpacker::new(read_directory(&archive).sort(), vec![archive.len()]);
    unpacker.set_callback(rec.callback());
    assert!(matches!(unpacker.update(&archive), Err(DecoderError::FromDecodeCallback(ref m)) if m == "refused"));
}

#[test]
fn overshoot_is_reported() {
    let (mut archive, cd_offset) = build(&two_entries());
    // the second CDFH (after the 46 + 4 bytes of the first) claims its LFH starts at 33, not 34
    let field = cd_offset + 50 + 42;
    archive[field..field + 4].copy_from_slice(&33u32.to_le_bytes());
    let sorted = read_directory(&archive).sort();
    let mut unpacker = ZipUnpacker::<NoCallback>::new(sorted, vec![archive.len()]);
    let r = unpacker.update(&archive);
    assert!(matches!(r, Err(DecoderError::Overshoot(h, c)) if h == ZipPosition::new(0, 33) && c == ZipPosition::new(0, 34)));
}

#[test]
fn data_past_the_last_disk_is_extra() {
    let entries = vec![Entry { name: b"f", method: 0, data: b"abcd".to_vec(), uncompressed: 4 }];
    let (archive, _) = build(&entries);
    let sorted = read_directory(&archive).sort();
    // a table that says the archive is shorter than its first entry
    let mut unpacker = ZipUnpacker::<NoCallback>::new(sorted, vec![20]);
    assert!(matches!(unpacker.update(&archive), Err(DecoderError::ExtraData)));
}

#[test]
fn split_archive_unpacks_across_disks() {
    let entries = vec![
        Entry { name: b"a", method: 0, data: b"0123456789".to_vec(), uncompressed: 10 },
        Entry { name: b"b", method: 0, data: b"xyz".to_vec(), uncompressed: 3 },
    ];
    // disk 0 holds the first header and part of its data; disk 1 the rest
    let first = lfh(&entries[0]);
    let mut disk0 = first.clone();
    disk0.extend_from_slice(b"01234");
    let mut disk1 = b"56789".to_vec();
    let second_offset = disk1.len() as u32;
    disk1.extend(lfh(&entries[1]));
    disk1.extend_from_slice(b"xyz");
    let cd_offset = disk1.len();
    let mut cd = cdfh(&entries[0], 0, 0);
    cd.extend(cdfh(&entries[1], 1, second_offset));
    disk1.extend_from_slice(&cd);
    let mut end = Vec::new();
    u32le(&mut end, 0x06054b50);
    u16le(&mut end, 1);
    u16le(&mut end, 1);
    u16le(&mut end, 2);
    u16le(&mut end, 2);
    u32le(&mut end, cd.len() as u32);
    u32le(&mut end, cd_offset as u32);
    u16le(&mut end, 0);
    disk1.extend(end);
    let disks = vec![disk0.clone(), disk1.clone()];
    let sizes = vec![disk0.len(), disk1.len()];
    let cd = from_provider(&sizes, false, |pos: ZipPosition, length: usize| {
        Ok(disks[pos.disk][pos.offset..pos.offset + length].to_vec())
    })
    .unwrap();
    let sorted = cd.sort();
    assert_eq!(sorted.headers_ref()[1].header_position(), ZipPosition::new(1, 5));
    let rec = Recorder::default();
    let mut unpacker = ZipUnpacker::new(sorted, sizes);
    unpacker.set_callback(rec.callback());
    let (c0, f0) = unpacker.update(&disk0).unwrap();
    assert_eq!((c0, f0), (disk0.len(), false));
    let (_, f1) = unpacker.update(&disk1).unwrap();
    assert!(f1);
    assert_eq!(
        *rec.events.borrow(),
        vec![
            Event::Header("a".to_string(), "a".to_string()),
            Event::Data(b"0123456789".to_vec()),
            Event::Header("b".to_string(), "b".to_string()),
            Event::Data(b"xyz".to_vec()),
        ]
    );
}

#[test]
fn advance_position_moves_to_next_disks() {
    let sizes = [10usize, 0, 5];
    assert_eq!(advance_position(&sizes, ZipPosition::new(0, 4), 6), Some(ZipPosition::new(0, 10)));
    assert_eq!(advance_position(&sizes, ZipPosition::new(0, 4), 7), Some(ZipPosition::new(2, 1)));
    assert_eq!(advance_position(&sizes, ZipPosition::new(0, 4), 12), None);
}

#[test]
fn map_to_calls_splits_on_disk_boundaries() {
    let sizes = [10usize, 5, 20];
    let calls = map_to_calls(&sizes, ZipPosition::new(0, 8), 10, false).unwrap();
    assert_eq!(
        calls,
        vec![(ZipPosition::new(0, 8), 2), (ZipPosition::new(1, 0), 5), (ZipPosition::new(2, 0), 3)]
    );
    let total: usize = calls.iter().map(|c| c.1).sum();
    assert_eq!(total, 10);
    let global = map_to_calls(&sizes, ZipPosition::from_offset(12), 5, true).unwrap();
    assert_eq!(global, vec![(ZipPosition::new(1, 2), 3), (ZipPosition::new(2, 0), 2)]);
    assert!(matches!(map_to_calls(&sizes, ZipPosition::new(2, 15), 6, false), Err(CentralDirectoryReadError::MapSpans)));
    assert!(matches!(map_to_calls(&[], ZipPosition::new(0, 0), 0, false), Err(CentralDirectoryReadError::MapSpans)));
    assert!(matches!(map_to_calls(&sizes, ZipPosition::from_offset(35), 1, true), Err(CentralDirectoryReadError::MapSpans)));
}

#[test]
fn central_directory_errors() {
    let (archive, cd_offset) = build(&two_entries());
    let cd_bytes = &archive[cd_offset..archive.len() - 22];
    assert!(matches!(CentralDirectory::from_bytes(&cd_bytes[..10]), Err(CentralDirectoryError::InputTooShort)));
    let mut extra = cd_bytes.to_vec();
    extra.extend_from_slice(&[0, 0]);
    assert!(matches!(CentralDirectory::from_bytes(&extra), Err(CentralDirectoryError::LeftoverBytes(2))));
    let mut bad = cd_bytes.to_vec();
    bad[0] = 0;
    assert!(matches!(CentralDirectory::from_bytes(&bad), Err(CentralDirectoryError::InvalidSignature(0))));
    let truncated = &cd_bytes[..cd_bytes.len() - 3];
    assert!(matches!(CentralDirectory::from_bytes(truncated), Err(CentralDirectoryError::MalformedHeader(50))));
    assert_eq!(CentralDirectory::from_bytes(cd_bytes).unwrap().headers_ref().len(), 2);
}

#[test]
fn sort_orders_by_position_and_is_stable() {
    let entries = vec![
        Entry { name: b"first", method: 0, data: vec![], uncompressed: 0 },
        Entry { name: b"second", method: 0, data: vec![], uncompressed: 0 },
    ];
    // central directory lists the later entry first
    let mut cd = cdfh(&entries[1], 0, 100);
    cd.extend(cdfh(&entries[0], 0, 7));
    let unsorted = CentralDirectory::from_bytes(&cd).unwrap();
    assert_eq!(unsorted.headers_ref()[0].filename, "second");
    let sorted = unsorted.sort();
    let names: Vec<&str> = sorted.headers_ref().iter().map(|h| h.filename.as_str()).collect();
    assert_eq!(names, vec!["first", "second"]);
    // sorting again keeps the order
    let mut again = cdfh(&entries[0], 0, 7);
    again.extend(cdfh(&entries[1], 0, 100));
    let resorted = CentralDirectory::from_bytes(&again).unwrap().sort();
    let names2: Vec<&str> = resorted.headers_ref().iter().map(|h| h.filename.as_str()).collect();
    assert_eq!(names, names2);
}

#[test]
fn malformed_deflate_data_is_a_decompression_error() {
    let entries = vec![Entry { name: b"bad", method: 8, data: vec![0x01, 0x03, 0x00, 0x00, 0x00, 1, 2, 3], uncompressed: 3 }];
    let (archive, _) = build(&entries);
    let mut unpacker = ZipUnpacker::<NoCallback>::new(read_directory(&archive).sort(), vec![archive.len()]);
    assert!(matches!(unpacker.update(&archive), Err(DecoderError::Decompression(_))));
}

#[test]
fn empty_input_asks_for_more() {
    let (archive, _) = build(&two_entries());
    let mut unpacker = ZipUnpacker::<NoCallback>::new(read_directory(&archive).sort(), vec![archive.len()]);
    assert_eq!(unpacker.update(&[]).unwrap(), (0, false));
    assert_eq!(unpacker.update(&archive[..20]).unwrap(), (0, false));
}

#[test]
fn entry_sizes_come_from_the_central_directory() {
    // the local header leaves its sizes at zero, as with a data descriptor
    let e = Entry { name: b"dd.txt", method: 0, data: b"xyz".to_vec(), uncompressed: 3 };
    let local = Entry { name: b"dd.txt", method: 0, data: vec![], uncompressed: 0 };
    let mut archive = lfh(&local);
    archive.extend_from_slice(b"xyz");
    let cd_offset = archive.len();
    let cd = cdfh(&e, 0, 0);
    archive.extend_from_slice(&cd);
    archive.extend(eocd32(1, cd.len() as u32, cd_offset as u32));
    let rec = Recorder::default();
    let mut unpacker = ZipUnpacker::new(read_directory(&archive).sort(), vec![archive.len()]);
    unpacker.set_callback(rec.callback());
    assert_eq!(unpacker.update(&archive).unwrap(), (cd_offset, true));
    assert_eq!(
        *rec.events.borrow(),
        vec![Event::Header("dd.txt".to_string(), "dd.txt".to_string()), Event::Data(b"xyz".to_vec())]
    );
}

#[test]
fn resume_past_the_disk_table_then_reports_extra_data() {
    let (archive, _) = build(&two_entries());
    let sorted = read_directory(&archive).sort();
    // the disk table claims a single disk that ends before the second entry
    let mut unpacker = ZipUnpacker::<NoCallback>::resume(sorted, vec![20], ZipPosition::new(0, 34)).unwrap();
    assert!(matches!(unpacker.update(&archive[34..]), Err(DecoderError::ExtraData)));
}

#[test]
fn finished_unpacker_consumes_nothing_more() {
    let (archive, cd_offset) = build(&two_entries());
    let rec = Recorder::default();
    let mut unpacker = ZipUnpacker::new(read_directory(&archive).sort(), vec![archive.len()]);
    unpacker.set_callback(rec.callback());
    assert_eq!(unpacker.update(&archive).unwrap(), (cd_offset, true));
    let before = rec.events.borrow().len();
    assert_eq!(unpacker.update(&archive[cd_offset..]).unwrap(), (0, true));
    assert_eq!(rec.events.borrow().len(), before);
}
