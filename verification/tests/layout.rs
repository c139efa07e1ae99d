use singletonzip::container::{
    encode_central_directory, encode_end_of_directory, encode_preamble, encode_trailer, patch_back, PatchOffsets,
};
use singletonzip::Finished;

const SENTINEL: u64 = 0xffff_ffff;

fn u16_at(bytes: &[u8], at: usize) -> u16 {
    u16::from_le_bytes([bytes[at], bytes[at + 1]])
}

fn u32_at(bytes: &[u8], at: usize) -> u32 {
    u32::from_le_bytes([bytes[at], bytes[at + 1], bytes[at + 2], bytes[at + 3]])
}

fn u64_at(bytes: &[u8], at: usize) -> u64 {
    let mut field = [0u8; 8];
    field.copy_from_slice(&bytes[at..at + 8]);
    u64::from_le_bytes(field)
}

#[test]
fn preamble_reserves_the_checksum_and_both_sizes() {
    let bytes = encode_preamble(b"name");
    assert_eq!(
        bytes,
        vec![
            b'P', b'K', 3, 4, 45, 0, 0, 0, 8, 0, 0, 0, 0, 0, // signature to date
            0, 0, 0, 0, // checksum, to be written
            0xff, 0xff, 0xff, 0xff, 0xff, 0xff, 0xff, 0xff, // both sizes: see the extra field
            4, 0, 20, 0, // lengths of the name and of the extra field
            b'n', b'a', b'm', b'e', // the name
            1, 0, 16, 0, // extra field: id and declared size
            0, 0, 0, 0, 0, 0, 0, 0, // uncompressed size, to be written
            0, 0, 0, 0, 0, 0, 0, 0, // compressed size, to be written
        ]
    );
}

#[test]
fn preamble_of_an_empty_name_has_fifty_bytes() {
    assert_eq!(encode_preamble(b"").len(), 50);
    assert_eq!(encode_preamble(&[b'x'; 65_535]).len(), 50 + 65_535);
}

#[test]
fn patch_offsets_follow_the_length_of_the_name() {
    assert_eq!(PatchOffsets::record(0), PatchOffsets { crc_32: 14, uncompressed_size: 34, compressed_size: 42 });
    assert_eq!(PatchOffsets::record(4), PatchOffsets { crc_32: 14, uncompressed_size: 38, compressed_size: 46 });
    assert_eq!(
        PatchOffsets::record(65_535),
        PatchOffsets { crc_32: 14, uncompressed_size: 65_569, compressed_size: 65_577 }
    );
}

#[test]
fn patch_back_fills_the_three_placeholders() {
    let mut bytes = encode_preamble(b"name");
    bytes.extend_from_slice(&[0xee; 5]);
    let done = patch_back(&mut bytes, PatchOffsets::record(4), 0x0403_0201, 0x1817_1615_1413_1211, 0x2827_2625_2423_2221);
    assert!(done);
    assert_eq!(
        bytes,
        vec![
            b'P', b'K', 3, 4, 45, 0, 0, 0, 8, 0, 0, 0, 0, 0, 1, 2, 3, 4, 0xff, 0xff, 0xff, 0xff, 0xff, 0xff, 0xff,
            0xff, 4, 0, 20, 0, b'n', b'a', b'm', b'e', 1, 0, 16, 0, 0x11, 0x12, 0x13, 0x14, 0x15, 0x16, 0x17, 0x18,
            0x21, 0x22, 0x23, 0x24, 0x25, 0x26, 0x27, 0x28, 0xee, 0xee, 0xee, 0xee, 0xee,
        ]
    );
}

#[test]
fn patch_back_writes_nothing_where_a_field_does_not_fit() {
    let offsets = PatchOffsets::record(4);
    let mut short = encode_preamble(b"name");
    short.truncate(53);
    let before = short.clone();
    assert!(!patch_back(&mut short, offsets, 1, 2, 3));
    assert_eq!(short, before);

    let mut exact = encode_preamble(b"name");
    assert!(patch_back(&mut exact, offsets, 1, 2, 3));

    let mut bytes = vec![0u8; 100];
    let beyond = PatchOffsets { crc_32: 97, uncompressed_size: 0, compressed_size: 8 };
    assert!(!patch_back(&mut bytes, beyond, 1, 2, 3));
    let far = PatchOffsets { crc_32: 0, uncompressed_size: u64::MAX, compressed_size: 8 };
    assert!(!patch_back(&mut bytes, far, 1, 2, 3));
    let last = PatchOffsets { crc_32: 96, uncompressed_size: 84, compressed_size: 92 };
    assert!(patch_back(&mut bytes, last, 0xffff_ffff, 1, u64::MAX));
    assert_eq!(&bytes[84..], &[1, 0, 0, 0, 0, 0, 0, 0, 0xff, 0xff, 0xff, 0xff, 0xff, 0xff, 0xff, 0xff]);
}

#[test]
fn central_directory_of_a_small_entry_has_no_extra_field() {
    let bytes = encode_central_directory(b"name", 0x0403_0201, 0x0000_1234, 0x0005_6789, 0x0000_2000);
    assert_eq!(
        bytes,
        vec![
            b'P', b'K', 1, 2, 45, 0, 45, 0, 0, 0, 8, 0, 0, 0, 0, 0, // signature to date
            1, 2, 3, 4, // checksum
            0x34, 0x12, 0, 0, // compressed size
            0x89, 0x67, 0x05, 0, // uncompressed size
            4, 0, 0, 0, 0, 0, // lengths of name, extra field and comment
            0, 0, 0, 0, 0, 0, // disk and attributes
            0, 0x20, 0, 0, // offset of the local header
            b'n', b'a', b'm', b'e',
        ]
    );
}

#[test]
fn central_directory_of_a_large_entry_carries_the_extra_field() {
    let bytes = encode_central_directory(b"name", 0x0403_0201, 0x1_0000_0010, 0x1_2345_6789, 0x1_0000_0046);
    assert_eq!(
        bytes,
        vec![
            b'P', b'K', 1, 2, 45, 0, 45, 0, 0, 0, 8, 0, 0, 0, 0, 0, // signature to date
            1, 2, 3, 4, // checksum
            0xff, 0xff, 0xff, 0xff, // compressed size: see the extra field
            0xff, 0xff, 0xff, 0xff, // uncompressed size: see the extra field
            4, 0, 28, 0, 0, 0, // lengths of name, extra field and comment
            0, 0, 0, 0, 0, 0, // disk and attributes
            0xff, 0xff, 0xff, 0xff, // offset of the local header: see the extra field
            b'n', b'a', b'm', b'e', // the name
            1, 0, 24, 0, // extra field: id and declared size
            0x89, 0x67, 0x45, 0x23, 1, 0, 0, 0, // uncompressed size
            0x10, 0, 0, 0, 1, 0, 0, 0, // compressed size
            0x46, 0, 0, 0, 1, 0, 0, 0, // offset of the local header
        ]
    );
}

#[test]
fn each_of_the_three_values_alone_calls_for_the_extra_field() {
    let below = SENTINEL - 1;
    let cases = [
        (below, below, below, false),
        (SENTINEL, 0, 0, true),
        (0, SENTINEL, 0, true),
        (0, 0, SENTINEL, true),
        (SENTINEL + 1, 0, 0, true),
        (0, u64::MAX, 0, true),
        (below, below, 1 << 32, true),
        (0, 0, 0, false),
    ];
    for (compressed_size, uncompressed_size, offset, zip64) in cases {
        let bytes = encode_central_directory(b"abc", 7, compressed_size, uncompressed_size, offset);
        if zip64 {
            assert_eq!(bytes.len(), 44 + 3 + 28);
            assert_eq!(u32_at(&bytes, 20) as u64, SENTINEL);
            assert_eq!(u32_at(&bytes, 24) as u64, SENTINEL);
            assert_eq!(u16_at(&bytes, 30), 28);
            assert_eq!(u16_at(&bytes, 47), 1);
            assert_eq!(u16_at(&bytes, 49), 24);
            assert_eq!(u64_at(&bytes, 51), uncompressed_size);
            assert_eq!(u64_at(&bytes, 59), compressed_size);
            assert_eq!(u64_at(&bytes, 67), offset);
        } else {
            assert_eq!(bytes.len(), 44 + 3);
            assert_eq!(u32_at(&bytes, 20) as u64, compressed_size);
            assert_eq!(u32_at(&bytes, 24) as u64, uncompressed_size);
            assert_eq!(u16_at(&bytes, 30), 0);
        }
        assert_eq!(u16_at(&bytes, 28), 3);
        assert_eq!(u32_at(&bytes, 16), 7);
        assert_eq!(u32_at(&bytes, 40) as u64, if zip64 { SENTINEL } else { offset });
        assert_eq!(&bytes[44..47], b"abc");
    }
}

#[test]
fn end_of_a_small_directory_is_the_end_record_alone() {
    let bytes = encode_end_of_directory(0x0001_e240, 0x30);
    assert_eq!(
        bytes,
        vec![
            b'P', b'K', 5, 6, 0, 0, 0, 0, // signature and disks
            1, 0, 1, 0, // entries
            0x30, 0, 0, 0, // size of the directory
            0x40, 0xe2, 0x01, 0, // offset of the directory
            0, 0, // no comment
        ]
    );
}

#[test]
fn end_of_a_far_directory_has_the_zip64_record_and_its_locator() {
    let bytes = encode_end_of_directory(0x1_0000_0046, 0x4c);
    assert_eq!(
        bytes,
        vec![
            b'P', b'K', 6, 6, // ZIP64 end-of-directory record
            44, 0, 0, 0, 0, 0, 0, 0, // size of the rest of the record
            45, 0, 45, 0, // versions
            0, 0, 0, 0, 0, 0, 0, 0, // disks
            1, 0, 0, 0, 0, 0, 0, 0, // entries on this disk
            1, 0, 0, 0, 0, 0, 0, 0, // entries
            0x4c, 0, 0, 0, 0, 0, 0, 0, // size of the directory
            0x46, 0, 0, 0, 1, 0, 0, 0, // offset of the directory
            b'P', b'K', 6, 7, // locator
            0, 0, 0, 0, // disk of the record
            0x92, 0, 0, 0, 1, 0, 0, 0, // offset of the record
            1, 0, 0, 0, // disks
            b'P', b'K', 5, 6, // end-of-directory record
            0xff, 0xff, 0xff, 0xff, 0xff, 0xff, 0xff, 0xff, // disks and entries
            0xff, 0xff, 0xff, 0xff, // size of the directory
            0xff, 0xff, 0xff, 0xff, // offset of the directory
            0, 0, // no comment
        ]
    );
}

#[test]
fn zip64_ending_starts_where_the_offset_reaches_the_sentinel() {
    assert_eq!(encode_end_of_directory(SENTINEL - 1, 50).len(), 22);
    assert_eq!(u32_at(&encode_end_of_directory(SENTINEL - 1, 50), 16) as u64, SENTINEL - 1);
    assert_eq!(encode_end_of_directory(SENTINEL, 50).len(), 98);
    assert_eq!(encode_end_of_directory(u64::MAX - 50, 50).len(), 98);
    assert_eq!(u64_at(&encode_end_of_directory(u64::MAX - 50, 50), 64), u64::MAX);
    assert_eq!(encode_end_of_directory(0, 0).len(), 22);
}

#[test]
fn trailer_is_the_directory_and_its_end() {
    // the local header stands at the start of the container, wherever the
    // directory starts
    let small = encode_trailer(b"name", 9, 100, 200, 154);
    let mut expected = encode_central_directory(b"name", 9, 100, 200, 0);
    assert_eq!(expected.len(), 48);
    expected.extend_from_slice(&encode_end_of_directory(154, 48));
    assert_eq!(small, expected);
    assert_eq!(u32_at(&small, 40), 0);

    // compressed size of 2^32 - 1: extra field in the directory, whose
    // offset is beyond the sentinel as well
    let offset = 54 + SENTINEL;
    let large = encode_trailer(b"name", 9, SENTINEL, 200, offset);
    let mut expected = encode_central_directory(b"name", 9, SENTINEL, 200, 0);
    assert_eq!(expected.len(), 76);
    expected.extend_from_slice(&encode_end_of_directory(offset, 76));
    assert_eq!(large, expected);
    assert_eq!(large.len(), 76 + 98);
    assert_eq!(u32_at(&large, 40) as u64, SENTINEL);
    assert_eq!(u64_at(&large, 68), 0);

    // a directory that starts beyond the sentinel, for sizes below it: no
    // extra field in the central directory, and the ZIP64 record at the end
    let far = encode_trailer(b"name", 9, 100, 200, SENTINEL + 5);
    assert_eq!(far.len(), 48 + 98);
    assert_eq!(&far[..48], &small[..48]);
    assert_eq!(&far[48..52], b"PK\x06\x06");
    assert_eq!(u64_at(&far, 48 + 40), 48);
    assert_eq!(u64_at(&far, 48 + 48), SENTINEL + 5);
    assert_eq!(u64_at(&far, 48 + 56 + 8), SENTINEL + 5 + 48);

    // a large payload that compresses well: extra field in the directory,
    // and a plain end
    let dense = encode_trailer(b"name", 9, 1000, SENTINEL + 5, 1054);
    assert_eq!(dense.len(), 76 + 22);
    assert_eq!(u64_at(&dense, 52), SENTINEL + 5);
    assert_eq!(u32_at(&dense, 76 + 16), 1054);
    assert_eq!(u32_at(&dense, 76 + 12), 76);
}

#[test]
fn payload_just_above_four_gibibytes_uses_zip64_in_the_directory() {
    // what the transform counts for 4 GiB + 32 MiB of incompressible
    // payload, and where its stream ends behind a preamble of 58 bytes
    let uncompressed_size: u64 = (4 << 30) + (32 << 20);
    let flushed_size: u64 = uncompressed_size + 663_000;
    let directory_offset: u64 = 58 + flushed_size + 2;
    let end = Finished::new(b"test.big", PatchOffsets::record(8), 0xdead_beef, uncompressed_size, flushed_size, directory_offset, vec![3, 0])
        .unwrap();
    assert_eq!(end.crc_32, 0xdead_beef);
    assert_eq!(end.uncompressed_size, uncompressed_size);
    assert_eq!(end.compressed_size, flushed_size + 2);
    assert_eq!(end.offsets, PatchOffsets { crc_32: 14, uncompressed_size: 42, compressed_size: 50 });
    assert_eq!(end.directory_offset, directory_offset);
    assert_eq!(end.tail, vec![3, 0]);
    assert!(end.into_container().is_none());

    let end = Finished::new(b"test.big", PatchOffsets::record(8), 0xdead_beef, uncompressed_size, flushed_size, directory_offset, vec![3, 0])
        .unwrap();
    let trailer = end.trailer;
    assert_eq!(trailer.len(), 44 + 8 + 28 + 56 + 20 + 22);
    assert_eq!(&trailer[0..4], b"PK\x01\x02");
    assert_eq!(u32_at(&trailer, 16), 0xdead_beef);
    assert_eq!(u32_at(&trailer, 20), 0xffff_ffff);
    assert_eq!(u32_at(&trailer, 24), 0xffff_ffff);
    assert_eq!(u16_at(&trailer, 28), 8);
    assert_eq!(u16_at(&trailer, 30), 28);
    assert_eq!(&trailer[44..52], b"test.big");
    assert_eq!(u16_at(&trailer, 52), 1);
    assert_eq!(u16_at(&trailer, 54), 24);
    assert_eq!(u64_at(&trailer, 56), uncompressed_size);
    assert_eq!(u64_at(&trailer, 64), flushed_size + 2);
    assert_eq!(u64_at(&trailer, 72), 0);
    let record = 80;
    assert_eq!(&trailer[record..record + 4], b"PK\x06\x06");
    assert_eq!(u64_at(&trailer, record + 40), 80);
    assert_eq!(u64_at(&trailer, record + 48), directory_offset);
    let locator = record + 56;
    assert_eq!(&trailer[locator..locator + 4], b"PK\x06\x07");
    assert_eq!(u64_at(&trailer, locator + 8), directory_offset + 80);
    let last = locator + 20;
    assert_eq!(&trailer[last..last + 4], b"PK\x05\x06");
    assert_eq!(&trailer[last + 4..last + 20], &[0xff; 16]);
    assert_eq!(u16_at(&trailer, last + 20), 0);
}

#[test]
fn finished_container_in_memory_is_patched_tail_and_trailer() {
    let mut tail = encode_preamble(b"ab");
    tail.extend_from_slice(&[0xd0, 0xd1, 0xd2]);
    let end = Finished::new(b"ab", PatchOffsets::record(2), 0x0403_0201, 5, 1, 55, tail).unwrap();
    assert_eq!(end.compressed_size, 3);
    let container = end.into_container().unwrap();
    let mut expected = encode_preamble(b"ab");
    assert!(patch_back(&mut expected, PatchOffsets::record(2), 0x0403_0201, 5, 3));
    expected.extend_from_slice(&[0xd0, 0xd1, 0xd2]);
    expected.extend_from_slice(&encode_trailer(b"ab", 0x0403_0201, 3, 5, 55));
    assert_eq!(container, expected);
    assert_eq!(container.len(), 55 + 46 + 22);
}

#[test]
fn tail_that_is_not_the_whole_front_is_not_completed() {
    let tail = encode_preamble(b"ab");
    // the directory is said to start at 55, and the tail has 52 bytes
    assert!(Finished::new(b"ab", PatchOffsets::record(2), 0, 0, 0, 55, tail).unwrap().into_container().is_none());
    // the tail is too short to hold the fields
    assert!(Finished::new(b"ab", PatchOffsets::record(2), 0, 0, 0, 10, vec![0; 10]).unwrap().into_container().is_none());
    assert!(Finished::new(b"ab", PatchOffsets::record(2), 0, 0, 0, 51, vec![0; 51]).unwrap().into_container().is_none());
    assert!(Finished::new(b"ab", PatchOffsets::record(2), 0, 0, 0, 52, vec![0; 52]).unwrap().into_container().is_some());
}
