use stream_unpack::zip::read_cd::{from_provider, locate_from_tail, TailLocation};
use stream_unpack::zip::structures::cd_location::{
    CentralDirectoryLocationData, EndOfCentralDirectory32, EndOfCentralDirectory64,
    EndOfCentralDirectory64Locator,
};
use stream_unpack::zip::structures::central_directory::CentralDirectoryFileHeader;
use stream_unpack::zip::structures::file_header::{FileHeaderExtraField, Zip64OriginalData, Zip64ProcessedData};
use stream_unpack::zip::structures::local_file_header::LocalFileHeader;
use stream_unpack::zip::structures::{CompressionMethod, DecompressorCreationError};
use stream_unpack::zip::ZipPosition;

fn u16le(v: &mut Vec<u8>, x: u16) {
    v.extend_from_slice(&x.to_le_bytes());
}

fn u32le(v: &mut Vec<u8>, x: u32) {
    v.extend_from_slice(&x.to_le_bytes());
}

fn u64le(v: &mut Vec<u8>, x: u64) {
    v.extend_from_slice(&x.to_le_bytes());
}

fn eocd_body(disk: u16, cd_disk: u16, n: u16, total: u16, size: u32, offset: u32, comment: &[u8]) -> Vec<u8> {
    let mut v = Vec::new();
    u16le(&mut v, disk);
    u16le(&mut v, cd_disk);
    u16le(&mut v, n);
    u16le(&mut v, total);
    u32le(&mut v, size);
    u32le(&mut v, offset);
    u16le(&mut v, comment.len() as u16);
    v.extend_from_slice(comment);
    v
}

/// A local header body (after the signature) with the given sizes and extra region.
fn lfh_body(compressed: u32, uncompressed: u32, name: &[u8], extra: &[u8]) -> Vec<u8> {
    let mut v = Vec::new();
    u16le(&mut v, 45);
    u16le(&mut v, 0);
    u16le(&mut v, 0);
    u16le(&mut v, 1);
    u16le(&mut v, 2);
    u32le(&mut v, 0xdeadbeef);
    u32le(&mut v, compressed);
    u32le(&mut v, uncompressed);
    u16le(&mut v, name.len() as u16);
    u16le(&mut v, extra.len() as u16);
    v.extend_from_slice(name);
    v.extend_from_slice(extra);
    v
}

fn zip64_extra(values: &[u64]) -> Vec<u8> {
    let mut v = Vec::new();
    u16le(&mut v, 1);
    u16le(&mut v, (values.len() * 8) as u16);
    for x in values {
        u64le(&mut v, *x);
    }
    v
}

#[test]
fn zip64_sizes_replace_sentinels() {
    let extra = zip64_extra(&[5_000_000_000, 4_000_000_000]);
    let body = lfh_body(u32::MAX, u32::MAX, b"big", &extra);
    let h = LocalFileHeader::from_bytes(&body).unwrap();
    assert_eq!(h.uncompressed_size, 5_000_000_000);
    assert_eq!(h.compressed_size, 4_000_000_000);
    assert_eq!(h.header_size, 26 + 3 + 20);
    assert_eq!(h.crc32, 0xdeadbeef);
    assert_eq!(h.mod_time, 1);
    assert_eq!(h.mod_date, 2);
    assert_eq!(h.compression_method, None);
}

#[test]
fn zip64_only_sentineled_fields_are_read() {
    // only the compressed size is a sentinel: its value is the first in the payload
    let extra = zip64_extra(&[7_000_000_000, 1]);
    let body = lfh_body(u32::MAX, 10, b"f", &extra);
    let h = LocalFileHeader::from_bytes(&body).unwrap();
    assert_eq!(h.compressed_size, 7_000_000_000);
    assert_eq!(h.uncompressed_size, 10);
}

#[test]
fn zip64_missing_or_short_field_fails() {
    let body = lfh_body(u32::MAX, 10, b"f", &[]);
    assert!(LocalFileHeader::from_bytes(&body).is_none());
    let mut short = Vec::new();
    u16le(&mut short, 1);
    u16le(&mut short, 4);
    u32le(&mut short, 9);
    let body = lfh_body(u32::MAX, u32::MAX, b"f", &short);
    assert!(LocalFileHeader::from_bytes(&body).is_none());
}

#[test]
fn zip64_process_reads_in_fixed_order() {
    let o = Zip64OriginalData {
        uncompressed_size: 3,
        compressed_size: u32::MAX,
        local_header_offset: u32::MAX,
        disk_number: u16::MAX,
    };
    let mut payload = Vec::new();
    u64le(&mut payload, 11);
    u64le(&mut payload, 22);
    u32le(&mut payload, 33);
    u32le(&mut payload, 99);
    let fields = vec![
        FileHeaderExtraField { id: 7, data: vec![1, 2] },
        FileHeaderExtraField { id: 1, data: payload },
    ];
    let r = o.process(&fields).unwrap();
    assert_eq!(
        r,
        Zip64ProcessedData { uncompressed_size: 3, compressed_size: 11, local_header_offset: 22, disk_number: 33 }
    );
    let plain = Zip64OriginalData { uncompressed_size: 1, compressed_size: 2, local_header_offset: 3, disk_number: 4 };
    assert_eq!(
        plain.process(&[]).unwrap(),
        Zip64ProcessedData { uncompressed_size: 1, compressed_size: 2, local_header_offset: 3, disk_number: 4 }
    );
}

#[test]
fn extra_fields_are_read_to_the_end() {
    let mut region = Vec::new();
    u16le(&mut region, 0x5455);
    u16le(&mut region, 1);
    region.push(9);
    u16le(&mut region, 0x7875);
    u16le(&mut region, 0);
    let fields = FileHeaderExtraField::read_extra_fields(&region).unwrap();
    assert_eq!(fields.len(), 2);
    assert_eq!(fields[0].id, 0x5455);
    assert_eq!(fields[0].data, vec![9]);
    assert_eq!(fields[0].size(), 5);
    assert_eq!(fields[1].id, 0x7875);
    assert!(fields[1].data.is_empty());
    region.push(0);
    assert!(FileHeaderExtraField::read_extra_fields(&region).is_none());
    assert!(FileHeaderExtraField::read_extra_fields(&[]).unwrap().is_empty());
    assert!(FileHeaderExtraField::from_bytes(&[1, 0, 5, 0, 1]).is_none());
}

#[test]
fn requires_zip64_checks_each_field() {
    let base = EndOfCentralDirectory32::from_bytes(&eocd_body(0, 0, 1, 1, 10, 20, b"")).unwrap();
    assert!(!base.requires_zip64());
    let cases = [
        eocd_body(u16::MAX, 0, 1, 1, 10, 20, b""),
        eocd_body(0, u16::MAX, 1, 1, 10, 20, b""),
        eocd_body(0, 0, u16::MAX, 1, 10, 20, b""),
        eocd_body(0, 0, 1, u16::MAX, 10, 20, b""),
        eocd_body(0, 0, 1, 1, u32::MAX, 20, b""),
        eocd_body(0, 0, 1, 1, 10, u32::MAX, b""),
    ];
    for c in cases.iter() {
        assert!(EndOfCentralDirectory32::from_bytes(c).unwrap().requires_zip64());
    }
}

#[test]
fn eocd32_reads_fields_and_comment_length() {
    let e = EndOfCentralDirectory32::from_bytes(&eocd_body(1, 2, 3, 4, 5, 6, b"hey")).unwrap();
    assert_eq!((e.disk_number, e.cd_disk_number, e.cd_entry_count, e.cd_entry_count_total), (1, 2, 3, 4));
    assert_eq!((e.cd_size, e.cd_offset, e.eocd32_size), (5, 6, 21));
    let body = eocd_body(1, 2, 3, 4, 5, 6, b"hey");
    assert!(EndOfCentralDirectory32::from_bytes(&body[..20]).is_none());
    let loc = CentralDirectoryLocationData::from_eocd32(e);
    assert_eq!(loc, CentralDirectoryLocationData { cd_disk_number: 2, cd_size: 5, cd_offset: 6 });
}

#[test]
fn find_offset_takes_the_last_signature() {
    let mut data = vec![0u8; 5];
    data.extend_from_slice(&0x06054b50u32.to_le_bytes());
    data.extend(eocd_body(0, 0, 0, 0, 0, 0, b""));
    data.extend_from_slice(&0x06054b50u32.to_le_bytes());
    data.extend(eocd_body(0, 0, 0, 0, 0, 0, b""));
    assert_eq!(EndOfCentralDirectory32::find_offset(&data), Some(5 + 22));
    assert_eq!(EndOfCentralDirectory32::find_offset(&[0u8; 40]), None);
    assert_eq!(EndOfCentralDirectory32::find_offset(&[0u8; 3]), None);
}

#[test]
fn tail_without_sentinels_is_direct() {
    let mut tail = vec![0u8; 30];
    tail.extend_from_slice(&0x06054b50u32.to_le_bytes());
    tail.extend(eocd_body(0, 0, 1, 1, 46, 7, b""));
    assert_eq!(
        locate_from_tail(&tail).unwrap(),
        TailLocation::Direct(CentralDirectoryLocationData { cd_disk_number: 0, cd_size: 46, cd_offset: 7 })
    );
    tail.push(0);
    assert!(locate_from_tail(&tail).is_err());
}

fn eocd64_record(cd_size: u64, cd_offset: u64) -> Vec<u8> {
    let mut v = Vec::new();
    u32le(&mut v, 0x06064b50);
    u64le(&mut v, 44);
    u16le(&mut v, 45);
    u16le(&mut v, 45);
    u32le(&mut v, 0);
    u32le(&mut v, 0);
    u64le(&mut v, 1);
    u64le(&mut v, 1);
    u64le(&mut v, cd_size);
    u64le(&mut v, cd_offset);
    v
}

#[test]
fn zip64_end_records_locate_the_directory() {
    let name = b"z";
    let mut archive = Vec::new();
    // local header + 1 byte of stored data
    u32le(&mut archive, 0x04034b50);
    archive.extend(lfh_body(1, 1, name, &[]));
    archive.push(b'!');
    let cd_offset = archive.len() as u64;
    let mut cd = Vec::new();
    u32le(&mut cd, 0x02014b50);
    u16le(&mut cd, 45);
    u16le(&mut cd, 45);
    u16le(&mut cd, 0);
    u16le(&mut cd, 0);
    u16le(&mut cd, 0);
    u16le(&mut cd, 0);
    u32le(&mut cd, 0);
    u32le(&mut cd, 1);
    u32le(&mut cd, 1);
    u16le(&mut cd, 1);
    u16le(&mut cd, 0);
    u16le(&mut cd, 0);
    u16le(&mut cd, 0);
    u16le(&mut cd, 0);
    u32le(&mut cd, 0);
    u32le(&mut cd, 0);
    cd.extend_from_slice(name);
    archive.extend_from_slice(&cd);
    let eocd64_offset = archive.len() as u64;
    archive.extend(eocd64_record(cd.len() as u64, cd_offset));
    u32le(&mut archive, 0x07064b50);
    u32le(&mut archive, 0);
    u64le(&mut archive, eocd64_offset);
    u32le(&mut archive, 1);
    u32le(&mut archive, 0x06054b50);
    archive.extend(eocd_body(0, 0, 1, 1, cd.len() as u32, u32::MAX, b""));
    let len = archive.len();
    let dir = from_provider(&[len], false, |pos: ZipPosition, length: usize| {
        Ok(archive[pos.offset..pos.offset + length].to_vec())
    })
    .unwrap();
    assert_eq!(dir.headers_ref().len(), 1);
    assert_eq!(dir.headers_ref()[0].filename, "z");
    let e64 = EndOfCentralDirectory64::from_bytes(&eocd64_record(5, 6)[4..]).unwrap();
    assert_eq!((e64.cd_size, e64.cd_offset, e64.eocd64_size), (5, 6, 44));
    let mut loc = Vec::new();
    u32le(&mut loc, 3);
    u64le(&mut loc, 77);
    u32le(&mut loc, 4);
    let l = EndOfCentralDirectory64Locator::from_bytes(&loc).unwrap();
    assert_eq!((l.eocd64_disk_number, l.eocd64_offset, l.disk_count), (3, 77, 4));
    let e32 = EndOfCentralDirectory32::from_bytes(&eocd_body(0, u16::MAX, 1, 1, 9, u32::MAX, b"")).unwrap();
    let merged = CentralDirectoryLocationData::from_eocd64(e32, e64);
    assert_eq!(merged, CentralDirectoryLocationData { cd_disk_number: 0, cd_size: 9, cd_offset: 6 });
}

#[test]
fn cdfh_resolves_offset_and_disk_from_zip64() {
    let mut v = Vec::new();
    u16le(&mut v, 45);
    u16le(&mut v, 45);
    u16le(&mut v, 0);
    u16le(&mut v, 8);
    u16le(&mut v, 0);
    u16le(&mut v, 0);
    u32le(&mut v, 0);
    u32le(&mut v, 10);
    u32le(&mut v, 20);
    u16le(&mut v, 2);
    u16le(&mut v, 16);
    u16le(&mut v, 1);
    u16le(&mut v, u16::MAX);
    u16le(&mut v, 5);
    u32le(&mut v, 6);
    u32le(&mut v, u32::MAX);
    v.extend_from_slice(b"d/");
    u16le(&mut v, 1);
    u16le(&mut v, 12);
    u64le(&mut v, 1 << 33);
    u32le(&mut v, 3);
    v.push(b'c');
    let h = CentralDirectoryFileHeader::from_bytes(&v).unwrap();
    assert_eq!(h.local_header_offset, 1 << 33);
    assert_eq!(h.disk_number, 3);
    assert_eq!(h.compressed_size, 10);
    assert_eq!(h.uncompressed_size, 20);
    assert_eq!(h.header_size, 42 + 2 + 16 + 1);
    assert_eq!(h.compression_method, Some(CompressionMethod::Deflate));
    assert!(h.is_directory());
    assert_eq!(h.header_position(), ZipPosition::new(3, 1 << 33));
    assert!(CentralDirectoryFileHeader::from_bytes(&v[..v.len() - 1]).is_none());
}

#[test]
fn invalid_name_bytes_become_replacement_characters() {
    let body = lfh_body(0, 0, &[b'a', 0xff, b'/'], &[]);
    let h = LocalFileHeader::from_bytes(&body).unwrap();
    assert_eq!(h.filename, "a\u{fffd}/");
    assert!(h.is_directory());
}

#[test]
fn compression_methods() {
    assert_eq!(CompressionMethod::from_id(0), None);
    assert_eq!(CompressionMethod::from_id(8), Some(CompressionMethod::Deflate));
    assert_eq!(CompressionMethod::from_id(12), Some(CompressionMethod::Unknown(12)));
    assert!(CompressionMethod::Deflate.is_supported());
    assert!(!CompressionMethod::Unknown(12).is_supported());
    assert!(CompressionMethod::Deflate.create_decompressor().is_ok());
    assert!(matches!(
        CompressionMethod::Unknown(12).create_decompressor(),
        Err(DecompressorCreationError::UnknownMethod(12))
    ));
}

