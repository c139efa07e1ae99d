use singletonzip::common::{
    CentralDirectoryHeader, EndOfCentralDirectoryRecord, LocalFileHeader, Zip64EndOfCentralDirectoryLocator,
    Zip64EndOfCentralDirectoryRecord, Zip64ExtraField, Zip64ExtraFieldSelect, COMPRESSION_METHOD_DEFLATE,
    GENERAL_PURPOSE_BIT_FLAG_DEFLATE_NORMAL, TARGET_ZIP_VERSION,
};

fn extra_field() -> Zip64ExtraField {
    Zip64ExtraField {
        header_id: Zip64ExtraField::HEADER_ID,
        data_size: 0xabcd,
        uncompressed_size: 0x0807_0605_0403_0201,
        compressed_size: 0x1817_1615_1413_1211,
        relative_offset_of_local_header: 0x2827_2625_2423_2221,
        disk_number_start: 0x3433_3231,
    }
}

#[test]
fn constants_are_those_of_the_format() {
    assert_eq!(TARGET_ZIP_VERSION, 45);
    assert_eq!(GENERAL_PURPOSE_BIT_FLAG_DEFLATE_NORMAL, 0);
    assert_eq!(COMPRESSION_METHOD_DEFLATE, 8);
    assert_eq!(&LocalFileHeader::SIGNATURE, b"PK\x03\x04");
    assert_eq!(&CentralDirectoryHeader::SIGNATURE, b"PK\x01\x02");
    assert_eq!(&Zip64EndOfCentralDirectoryRecord::SIGNATURE, b"PK\x06\x06");
    assert_eq!(&Zip64EndOfCentralDirectoryLocator::SIGNATURE, b"PK\x06\x07");
    assert_eq!(&EndOfCentralDirectoryRecord::SIGNATURE, b"PK\x05\x06");
    assert_eq!(Zip64ExtraField::HEADER_ID, 1);
}

#[test]
fn local_file_header_is_thirty_bytes_in_field_order() {
    let header = LocalFileHeader {
        signature: LocalFileHeader::SIGNATURE,
        version_needed_to_extract: 45,
        general_purpose_bit_flag: 0x0201,
        compression_method: 8,
        last_modified_file_time: 0x0403,
        last_modified_file_date: 0x0605,
        crc_32: 0x414f_a339,
        compressed_size: u32::MAX,
        uncompressed_size: 0x0a09_0807,
        file_name_length: 0x0c0b,
        extra_field_length: 20,
    };
    let bytes: [u8; 30] = header.to_bytes();
    assert_eq!(
        bytes,
        [
            b'P', b'K', 3, 4, 45, 0, 1, 2, 8, 0, 3, 4, 5, 6, 0x39, 0xa3, 0x4f, 0x41, 0xff, 0xff, 0xff, 0xff, 7, 8, 9,
            10, 11, 12, 20, 0,
        ]
    );
}

#[test]
fn central_directory_header_is_forty_four_bytes_in_field_order() {
    let header = CentralDirectoryHeader {
        signature: CentralDirectoryHeader::SIGNATURE,
        version_made_by: 0x0201,
        version_needed_to_extract: 0x0403,
        general_purpose_bit_flag: 0x0605,
        compression_method: 0x0807,
        last_modified_file_time: 0x0a09,
        last_modified_file_date: 0x0c0b,
        crc_32: 0x100f_0e0d,
        compressed_size: 0x1413_1211,
        uncompressed_size: 0x1817_1615,
        file_name_length: 0x1a19,
        extra_field_length: 0x1c1b,
        file_comment_length: 0x1e1d,
        disk_number_start: 0x201f,
        internal_file_attributes: 0x2221,
        external_file_attributes: 0x2423,
        relative_offset_of_local_header: 0x2827_2625,
    };
    let bytes: [u8; 44] = header.to_bytes();
    let mut expected = vec![b'P', b'K', 1, 2];
    expected.extend(1..=40u8);
    assert_eq!(bytes.to_vec(), expected);
}

#[test]
fn zip64_end_of_directory_record_is_fifty_six_bytes_in_field_order() {
    let record = Zip64EndOfCentralDirectoryRecord {
        signature: Zip64EndOfCentralDirectoryRecord::SIGNATURE,
        size_of_zip64_end_of_central_directory_record: 0x0807_0605_0403_0201,
        version_made_by: 0x0a09,
        version_needed_to_extract: 0x0c0b,
        number_of_this_disk: 0x100f_0e0d,
        number_of_the_disk_with_the_start_of_the_central_directory: 0x1413_1211,
        total_number_of_entries_in_the_central_directory_on_this_disk: 0x1c1b_1a19_1817_1615,
        total_number_of_entries_in_the_central_directory: 0x2423_2221_201f_1e1d,
        size_of_the_central_directory: 0x2c2b_2a29_2827_2625,
        offset_of_start_of_central_directory_with_respect_to_the_starting_disk_number: 0x3433_3231_302f_2e2d,
    };
    let bytes: [u8; 56] = record.to_bytes();
    let mut expected = vec![b'P', b'K', 6, 6];
    expected.extend(1..=52u8);
    assert_eq!(bytes.to_vec(), expected);
}

#[test]
fn zip64_locator_is_twenty_bytes_in_field_order() {
    let locator = Zip64EndOfCentralDirectoryLocator {
        signature: Zip64EndOfCentralDirectoryLocator::SIGNATURE,
        number_of_the_disk_with_the_start_of_the_zip64_end_of_central_irectory: 0x0403_0201,
        relative_offset_of_the_zip64_end_of_central_directory_record: 0x0c0b_0a09_0807_0605,
        total_number_of_disks: 0x100f_0e0d,
    };
    let bytes: [u8; 20] = locator.to_bytes();
    let mut expected = vec![b'P', b'K', 6, 7];
    expected.extend(1..=16u8);
    assert_eq!(bytes.to_vec(), expected);
}

#[test]
fn end_of_directory_record_is_twenty_two_bytes_in_field_order() {
    let record = EndOfCentralDirectoryRecord {
        signature: EndOfCentralDirectoryRecord::SIGNATURE,
        number_of_this_disk: 0x0201,
        number_of_the_disk_with_the_start_of_the_central_directory: 0x0403,
        total_number_of_entries_in_the_central_directory_on_this_disk: 0x0605,
        total_number_of_entries_in_the_central_directory: 0x0807,
        size_of_the_central_directory: 0x0c0b_0a09,
        offset_of_start_of_central_directory_with_respect_to_the_starting_disk_number: 0x100f_0e0d,
        zip_file_comment_length: 0x1211,
    };
    let bytes: [u8; 22] = record.to_bytes();
    let mut expected = vec![b'P', b'K', 5, 6];
    expected.extend(1..=18u8);
    assert_eq!(bytes.to_vec(), expected);
}

#[test]
fn record_stores_the_signature_it_is_given() {
    let record = EndOfCentralDirectoryRecord {
        signature: [9, 8, 7, 6],
        number_of_this_disk: 0,
        number_of_the_disk_with_the_start_of_the_central_directory: 0,
        total_number_of_entries_in_the_central_directory_on_this_disk: 0,
        total_number_of_entries_in_the_central_directory: 0,
        size_of_the_central_directory: 0,
        offset_of_start_of_central_directory_with_respect_to_the_starting_disk_number: 0,
        zip_file_comment_length: 0,
    };
    assert_eq!(&record.to_bytes()[0..4], &[9, 8, 7, 6]);
}

#[test]
fn extra_field_with_nothing_selected_is_its_four_bytes_of_header() {
    assert_eq!(extra_field().select_to_bytes(&[]), vec![1, 0, 0, 0]);
}

#[test]
fn extra_field_declares_the_widths_of_what_is_selected() {
    let field = extra_field();
    assert_eq!(
        field.select_to_bytes(&[Zip64ExtraFieldSelect::UncompressedSize]),
        vec![1, 0, 8, 0, 1, 2, 3, 4, 5, 6, 7, 8]
    );
    assert_eq!(
        field.select_to_bytes(&[Zip64ExtraFieldSelect::CompressedSize]),
        vec![1, 0, 8, 0, 0x11, 0x12, 0x13, 0x14, 0x15, 0x16, 0x17, 0x18]
    );
    assert_eq!(
        field.select_to_bytes(&[Zip64ExtraFieldSelect::RelativeOffsetOfLocalHeader]),
        vec![1, 0, 8, 0, 0x21, 0x22, 0x23, 0x24, 0x25, 0x26, 0x27, 0x28]
    );
    assert_eq!(
        field.select_to_bytes(&[Zip64ExtraFieldSelect::DiskNumberStart]),
        vec![1, 0, 4, 0, 0x31, 0x32, 0x33, 0x34]
    );
}

#[test]
fn extra_field_with_everything_selected_has_twenty_eight_bytes_of_data() {
    let bytes = extra_field().select_to_bytes(&[
        Zip64ExtraFieldSelect::UncompressedSize,
        Zip64ExtraFieldSelect::CompressedSize,
        Zip64ExtraFieldSelect::RelativeOffsetOfLocalHeader,
        Zip64ExtraFieldSelect::DiskNumberStart,
    ]);
    assert_eq!(
        bytes,
        vec![
            1, 0, 28, 0, 1, 2, 3, 4, 5, 6, 7, 8, 0x11, 0x12, 0x13, 0x14, 0x15, 0x16, 0x17, 0x18, 0x21, 0x22, 0x23,
            0x24, 0x25, 0x26, 0x27, 0x28, 0x31, 0x32, 0x33, 0x34,
        ]
    );
}

#[test]
fn extra_field_keeps_the_canonical_order_whatever_the_order_of_selection() {
    let field = extra_field();
    let canonical = field.select_to_bytes(&[
        Zip64ExtraFieldSelect::UncompressedSize,
        Zip64ExtraFieldSelect::CompressedSize,
        Zip64ExtraFieldSelect::DiskNumberStart,
    ]);
    assert_eq!(
        canonical,
        vec![
            1, 0, 20, 0, 1, 2, 3, 4, 5, 6, 7, 8, 0x11, 0x12, 0x13, 0x14, 0x15, 0x16, 0x17, 0x18, 0x31, 0x32, 0x33,
            0x34,
        ]
    );
    let shuffled = field.select_to_bytes(&[
        Zip64ExtraFieldSelect::DiskNumberStart,
        Zip64ExtraFieldSelect::CompressedSize,
        Zip64ExtraFieldSelect::UncompressedSize,
        Zip64ExtraFieldSelect::CompressedSize,
    ]);
    assert_eq!(shuffled, canonical);
}

#[test]
fn declared_size_is_the_number_of_bytes_that_follow_it() {
    let all = [
        Zip64ExtraFieldSelect::UncompressedSize,
        Zip64ExtraFieldSelect::CompressedSize,
        Zip64ExtraFieldSelect::RelativeOffsetOfLocalHeader,
        Zip64ExtraFieldSelect::DiskNumberStart,
    ];
    for mask in 0..16u32 {
        let selected: Vec<Zip64ExtraFieldSelect> =
            (0..4).filter(|bit| mask & (1 << bit) != 0).map(|bit| all[bit]).collect();
        let bytes = extra_field().select_to_bytes(&selected);
        let declared = u16::from_le_bytes([bytes[2], bytes[3]]) as usize;
        assert_eq!(declared, bytes.len() - 4);
        assert_eq!(&bytes[0..2], &[1, 0]);
    }
}
