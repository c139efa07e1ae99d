//! The layout of a container: one entry, its compressed stream, and the
//! directory behind it.
//!
//! ```text
//! local header (30) | name (N) | ZIP64 extra field (20) | compressed stream
//! | central directory header (44) | name (N) | ZIP64 extra field (0 or 28)
//! | ZIP64 end-of-directory record (56) and locator (20), or nothing
//! | end-of-directory record (22)
//! ```
//!
//! The local header is written before the sizes are known. It always refers
//! to its ZIP64 extra field for them, so its length never changes: what is
//! written first is `preamble`, and once the stream has ended the checksum
//! and the two sizes are written over their placeholders, which gives `head`.

use vstd::prelude::*;
use crate::common::{CentralDirectoryHeader, EndOfCentralDirectoryRecord, LocalFileHeader,
    Zip64EndOfCentralDirectoryLocator, Zip64EndOfCentralDirectoryRecord, Zip64ExtraField,
    Zip64ExtraFieldSelect, COMPRESSION_METHOD_DEFLATE, GENERAL_PURPOSE_BIT_FLAG_DEFLATE_NORMAL,
    TARGET_ZIP_VERSION};
use crate::le::{le_bytes, lemma_le_bytes_len, overwrite, put, u32_to_le, u64_to_le};

verus! {

broadcast use lemma_le_bytes_len;

/// The longest name that the 16-bit length field can describe.
pub const MAX_NAME_LENGTH: usize = 0xFFFF;

/// Length of the local header.
pub const LOCAL_HEADER_LENGTH: u64 = 30;

/// Length of the ZIP64 extra field behind the name of the local header.
pub const LOCAL_EXTRA_FIELD_LENGTH: u16 = 20;

/// Length of the ZIP64 extra field of the central directory, where present.
pub const CENTRAL_EXTRA_FIELD_LENGTH: u16 = 28;

/// Where the local header of the entry stands: at the start of the
/// container.
pub const LOCAL_HEADER_OFFSET: u64 = 0;

/// The sub-fields of the local header's extra field.
pub open spec fn local_selection() -> Seq<Zip64ExtraFieldSelect> {
    seq![Zip64ExtraFieldSelect::UncompressedSize, Zip64ExtraFieldSelect::CompressedSize]
}

/// The sub-fields of the central directory's extra field.
pub open spec fn central_selection() -> Seq<Zip64ExtraFieldSelect> {
    seq![
        Zip64ExtraFieldSelect::UncompressedSize,
        Zip64ExtraFieldSelect::CompressedSize,
        Zip64ExtraFieldSelect::RelativeOffsetOfLocalHeader,
    ]
}

/// The local header of an entry whose name has `name_length` bytes. Both
/// 32-bit size fields hold the sentinel, whatever the sizes are.
pub open spec fn local_header(name_length: u16, crc_32: u32) -> LocalFileHeader {
    LocalFileHeader {
        signature: LocalFileHeader::SIGNATURE,
        version_needed_to_extract: TARGET_ZIP_VERSION,
        general_purpose_bit_flag: GENERAL_PURPOSE_BIT_FLAG_DEFLATE_NORMAL,
        compression_method: COMPRESSION_METHOD_DEFLATE,
        last_modified_file_time: 0,
        last_modified_file_date: 0,
        crc_32,
        compressed_size: u32::MAX,
        uncompressed_size: u32::MAX,
        file_name_length: name_length,
        extra_field_length: LOCAL_EXTRA_FIELD_LENGTH,
    }
}

/// The values of the local header's extra field.
pub open spec fn local_extra_field(uncompressed_size: u64, compressed_size: u64) -> Zip64ExtraField {
    Zip64ExtraField {
        header_id: Zip64ExtraField::HEADER_ID,
        data_size: 0,
        uncompressed_size,
        compressed_size,
        relative_offset_of_local_header: 0,
        disk_number_start: 0,
    }
}

/// Everything in front of the compressed stream, with the checksum and the
/// sizes in place.
pub open spec fn head(name: Seq<u8>, crc_32: u32, uncompressed_size: u64, compressed_size: u64) -> Seq<u8> {
    local_header(name.len() as u16, crc_32).encoding() + name + local_extra_field(
        uncompressed_size,
        compressed_size,
    ).encoding(local_selection())
}

/// What is written in front of the stream before anything of it is known:
/// the head with a zero in the place of the checksum and of both sizes.
pub open spec fn preamble(name: Seq<u8>) -> Seq<u8> {
    head(name, 0, 0, 0)
}

/// Where the compressed stream starts.
pub open spec fn stream_start(name_length: nat) -> nat {
    30 + name_length + 20
}

/// The local selection holds the two sizes and nothing else.
pub proof fn lemma_local_selection()
    ensures
        local_selection().contains(Zip64ExtraFieldSelect::UncompressedSize),
        local_selection().contains(Zip64ExtraFieldSelect::CompressedSize),
        !local_selection().contains(Zip64ExtraFieldSelect::RelativeOffsetOfLocalHeader),
        !local_selection().contains(Zip64ExtraFieldSelect::DiskNumberStart),
        Zip64ExtraField::declared_size(local_selection()) == 16,
{
    let s = local_selection();
    assert(s[0] == Zip64ExtraFieldSelect::UncompressedSize);
    assert(s[1] == Zip64ExtraFieldSelect::CompressedSize);
}

/// The central selection holds the two sizes and the offset.
pub proof fn lemma_central_selection()
    ensures
        central_selection().contains(Zip64ExtraFieldSelect::UncompressedSize),
        central_selection().contains(Zip64ExtraFieldSelect::CompressedSize),
        central_selection().contains(Zip64ExtraFieldSelect::RelativeOffsetOfLocalHeader),
        !central_selection().contains(Zip64ExtraFieldSelect::DiskNumberStart),
        Zip64ExtraField::declared_size(central_selection()) == 24,
{
    let s = central_selection();
    assert(s[0] == Zip64ExtraFieldSelect::UncompressedSize);
    assert(s[1] == Zip64ExtraFieldSelect::CompressedSize);
    assert(s[2] == Zip64ExtraFieldSelect::RelativeOffsetOfLocalHeader);
}

/// The head is as long as the stream's start says, whatever it holds.
pub proof fn lemma_head_len(name: Seq<u8>, crc_32: u32, uncompressed_size: u64, compressed_size: u64)
    ensures
        head(name, crc_32, uncompressed_size, compressed_size).len() == stream_start(name.len()),
        local_header(name.len() as u16, crc_32).encoding().len() == 30,
        local_extra_field(uncompressed_size, compressed_size).encoding(local_selection()).len() == 20,
{
    lemma_local_selection();
}

/// Builds what stands in front of the compressed stream while nothing of the
/// stream is known yet.
pub fn encode_preamble(name: &[u8]) -> (bytes: Vec<u8>)
    requires
        name@.len() <= MAX_NAME_LENGTH,
    ensures
        bytes@ == preamble(name@),
        bytes@.len() == stream_start(name@.len()),
{
    let zip64_extra_field = Zip64ExtraField {
        header_id: Zip64ExtraField::HEADER_ID,
        data_size: 0,
        uncompressed_size: 0,
        compressed_size: 0,
        relative_offset_of_local_header: 0,
        disk_number_start: 0,
    }.select_to_bytes(
        &[Zip64ExtraFieldSelect::UncompressedSize, Zip64ExtraFieldSelect::CompressedSize],
    );
    proof {
        lemma_head_len(name@, 0, 0, 0);
    }
    let local_file_header = LocalFileHeader {
        signature: LocalFileHeader::SIGNATURE,
        version_needed_to_extract: TARGET_ZIP_VERSION,
        general_purpose_bit_flag: GENERAL_PURPOSE_BIT_FLAG_DEFLATE_NORMAL,
        compression_method: COMPRESSION_METHOD_DEFLATE,
        last_modified_file_time: 0,
        last_modified_file_date: 0,
        crc_32: 0,
        compressed_size: u32::MAX,
        uncompressed_size: u32::MAX,
        file_name_length: name.len() as u16,
        extra_field_length: zip64_extra_field.len() as u16,
    }.to_bytes();
    let mut bytes: Vec<u8> = Vec::new();
    bytes.extend_from_slice(&local_file_header);
    bytes.extend_from_slice(name);
    bytes.extend_from_slice(zip64_extra_field.as_slice());
    bytes
}

/// The places of the container that are written a second time, once the
/// stream has ended. They are fixed when the preamble is written, and depend
/// on nothing but the length of the name.
#[derive(Clone, Copy, Debug, PartialEq, Eq, Structural)]
pub struct PatchOffsets {
    /// Where the checksum stands in the local header.
    pub crc_32: u64,
    /// Where the uncompressed size stands in the local header's extra field.
    pub uncompressed_size: u64,
    /// Where the compressed size stands in the local header's extra field.
    pub compressed_size: u64,
}

impl PatchOffsets {
    /// The offsets for a name of `name_length` bytes: the checksum fourteen
    /// bytes into the local header, the two sizes behind the four bytes of id
    /// and declared size that follow the name.
    pub open spec fn of(name_length: nat) -> PatchOffsets {
        PatchOffsets {
            crc_32: 14,
            uncompressed_size: (30 + name_length + 4) as u64,
            compressed_size: (30 + name_length + 12) as u64,
        }
    }

    /// Whether the three fields lie within the first `length` bytes.
    pub open spec fn within(&self, length: nat) -> bool {
        self.crc_32 + 4 <= length && self.uncompressed_size + 8 <= length && self.compressed_size + 8
            <= length
    }

    /// Records the offsets for a name of `name_length` bytes.
    pub fn record(name_length: u16) -> (offsets: PatchOffsets)
        ensures
            offsets == Self::of(name_length as nat),
    {
        PatchOffsets {
            crc_32: 14,
            uncompressed_size: LOCAL_HEADER_LENGTH + name_length as u64 + 4,
            compressed_size: LOCAL_HEADER_LENGTH + name_length as u64 + 12,
        }
    }
}

/// `bytes` with the checksum and the two sizes written at `offsets`.
pub open spec fn patched(
    bytes: Seq<u8>,
    offsets: PatchOffsets,
    crc_32: u32,
    uncompressed_size: u64,
    compressed_size: u64,
) -> Seq<u8> {
    overwrite(
        overwrite(
            overwrite(bytes, offsets.crc_32 as int, le_bytes(crc_32 as nat, 4)),
            offsets.uncompressed_size as int,
            le_bytes(uncompressed_size as nat, 8),
        ),
        offsets.compressed_size as int,
        le_bytes(compressed_size as nat, 8),
    )
}

/// Writes the checksum and the two sizes over their placeholders, in a
/// container that is held in memory. Nothing is written unless all three
/// fields lie within `bytes`.
pub fn patch_back(
    bytes: &mut Vec<u8>,
    offsets: PatchOffsets,
    crc_32: u32,
    uncompressed_size: u64,
    compressed_size: u64,
) -> (done: bool)
    ensures
        done == offsets.within(old(bytes)@.len()),
        done ==> final(bytes)@ == patched(old(bytes)@, offsets, crc_32, uncompressed_size, compressed_size),
        !done ==> final(bytes)@ == old(bytes)@,
{
    let length: u64 = bytes.len() as u64;
    if offsets.crc_32 > length || length - offsets.crc_32 < 4 {
        return false;
    }
    if offsets.uncompressed_size > length || length - offsets.uncompressed_size < 8 {
        return false;
    }
    if offsets.compressed_size > length || length - offsets.compressed_size < 8 {
        return false;
    }
    put(bytes.as_mut_slice(), offsets.crc_32 as usize, &u32_to_le(crc_32));
    put(bytes.as_mut_slice(), offsets.uncompressed_size as usize, &u64_to_le(uncompressed_size));
    put(bytes.as_mut_slice(), offsets.compressed_size as usize, &u64_to_le(compressed_size));
    true
}

/// Writing the three values over the preamble gives the head, and changes
/// nothing of what follows it.
pub proof fn lemma_patched_preamble(
    name: Seq<u8>,
    rest: Seq<u8>,
    crc_32: u32,
    uncompressed_size: u64,
    compressed_size: u64,
)
    requires
        name.len() <= MAX_NAME_LENGTH,
    ensures
        PatchOffsets::of(name.len()).within((preamble(name) + rest).len()),
        patched(
            preamble(name) + rest,
            PatchOffsets::of(name.len()),
            crc_32,
            uncompressed_size,
            compressed_size,
        ) == head(name, crc_32, uncompressed_size, compressed_size) + rest,
{
    let before = preamble(name) + rest;
    let after = head(name, crc_32, uncompressed_size, compressed_size) + rest;
    let offsets = PatchOffsets::of(name.len());
    lemma_local_selection();
    let one = overwrite(before, offsets.crc_32 as int, le_bytes(crc_32 as nat, 4));
    let two = overwrite(one, offsets.uncompressed_size as int, le_bytes(uncompressed_size as nat, 8));
    let three = overwrite(two, offsets.compressed_size as int, le_bytes(compressed_size as nat, 8));
    assert(three =~= after);
}

/// Whether the central directory needs its ZIP64 extra field: one of the
/// three values is too large for a 32-bit field, whose largest value is the
/// sentinel.
pub open spec fn needs_zip64(compressed_size: u64, uncompressed_size: u64, local_header_offset: u64) -> bool {
    compressed_size >= u32::MAX || uncompressed_size >= u32::MAX || local_header_offset >= u32::MAX
}

/// The central directory header of the entry. Its two size fields and its
/// offset field hold the sizes and the offset of the local header where no
/// extra field follows, and the sentinel where one does.
pub open spec fn central_header(
    name_length: u16,
    crc_32: u32,
    compressed_size: u64,
    uncompressed_size: u64,
    local_header_offset: u64,
) -> CentralDirectoryHeader {
    let zip64 = needs_zip64(compressed_size, uncompressed_size, local_header_offset);
    CentralDirectoryHeader {
        signature: CentralDirectoryHeader::SIGNATURE,
        version_made_by: TARGET_ZIP_VERSION,
        version_needed_to_extract: TARGET_ZIP_VERSION,
        general_purpose_bit_flag: GENERAL_PURPOSE_BIT_FLAG_DEFLATE_NORMAL,
        compression_method: COMPRESSION_METHOD_DEFLATE,
        last_modified_file_time: 0,
        last_modified_file_date: 0,
        crc_32,
        compressed_size: if zip64 { u32::MAX } else { compressed_size as u32 },
        uncompressed_size: if zip64 { u32::MAX } else { uncompressed_size as u32 },
        file_name_length: name_length,
        extra_field_length: if zip64 { CENTRAL_EXTRA_FIELD_LENGTH } else { 0 },
        file_comment_length: 0,
        disk_number_start: 0,
        internal_file_attributes: 0,
        external_file_attributes: 0,
        relative_offset_of_local_header: if zip64 { u32::MAX } else { local_header_offset as u32 },
    }
}

/// The values of the central directory's extra field.
pub open spec fn central_extra_field(
    compressed_size: u64,
    uncompressed_size: u64,
    local_header_offset: u64,
) -> Zip64ExtraField {
    Zip64ExtraField {
        header_id: Zip64ExtraField::HEADER_ID,
        data_size: 0,
        uncompressed_size,
        compressed_size,
        relative_offset_of_local_header: local_header_offset,
        disk_number_start: 0,
    }
}

/// The central directory: the header, the name, and the ZIP64 extra field
/// where one is needed.
pub open spec fn central_directory(
    name: Seq<u8>,
    crc_32: u32,
    compressed_size: u64,
    uncompressed_size: u64,
    local_header_offset: u64,
) -> Seq<u8> {
    central_header(
        name.len() as u16,
        crc_32,
        compressed_size,
        uncompressed_size,
        local_header_offset,
    ).encoding() + name + (if needs_zip64(compressed_size, uncompressed_size, local_header_offset) {
        central_extra_field(compressed_size, uncompressed_size, local_header_offset).encoding(
            central_selection(),
        )
    } else {
        Seq::empty()
    })
}

/// The length of the central directory.
pub open spec fn central_directory_length(
    name_length: nat,
    compressed_size: u64,
    uncompressed_size: u64,
    local_header_offset: u64,
) -> nat {
    44 + name_length + (if needs_zip64(compressed_size, uncompressed_size, local_header_offset) {
        28nat
    } else {
        0
    })
}

/// The central directory is as long as `central_directory_length` says.
pub proof fn lemma_central_directory_len(
    name: Seq<u8>,
    crc_32: u32,
    compressed_size: u64,
    uncompressed_size: u64,
    local_header_offset: u64,
)
    ensures
        central_directory(name, crc_32, compressed_size, uncompressed_size, local_header_offset).len()
            == central_directory_length(name.len(), compressed_size, uncompressed_size, local_header_offset),
{
    lemma_central_selection();
}

/// Builds the central directory of the entry.
pub fn encode_central_directory(
    name: &[u8],
    crc_32: u32,
    compressed_size: u64,
    uncompressed_size: u64,
    local_header_offset: u64,
) -> (bytes: Vec<u8>)
    requires
        name@.len() <= MAX_NAME_LENGTH,
    ensures
        bytes@ == central_directory(name@, crc_32, compressed_size, uncompressed_size, local_header_offset),
        bytes@.len() == central_directory_length(
            name@.len(),
            compressed_size,
            uncompressed_size,
            local_header_offset,
        ),
{
    let use_zip64_cd_header = compressed_size >= u32::MAX as u64 || uncompressed_size >= u32::MAX as u64
        || local_header_offset >= u32::MAX as u64;
    let zip64_extra_field: Option<Vec<u8>> = if use_zip64_cd_header {
        Some(
            Zip64ExtraField {
                header_id: Zip64ExtraField::HEADER_ID,
                data_size: 0,
                uncompressed_size,
                compressed_size,
                relative_offset_of_local_header: local_header_offset,
                disk_number_start: 0,
            }.select_to_bytes(
                &[
                    Zip64ExtraFieldSelect::UncompressedSize,
                    Zip64ExtraFieldSelect::CompressedSize,
                    Zip64ExtraFieldSelect::RelativeOffsetOfLocalHeader,
                ],
            ),
        )
    } else {
        None
    };
    proof {
        lemma_central_directory_len(name@, crc_32, compressed_size, uncompressed_size, local_header_offset);
        lemma_central_selection();
    }
    let central_directory_header = CentralDirectoryHeader {
        signature: CentralDirectoryHeader::SIGNATURE,
        version_made_by: TARGET_ZIP_VERSION,
        version_needed_to_extract: TARGET_ZIP_VERSION,
        general_purpose_bit_flag: GENERAL_PURPOSE_BIT_FLAG_DEFLATE_NORMAL,
        compression_method: COMPRESSION_METHOD_DEFLATE,
        last_modified_file_time: 0,
        last_modified_file_date: 0,
        crc_32,
        compressed_size: if zip64_extra_field.is_none() { compressed_size as u32 } else { u32::MAX },
        uncompressed_size: if zip64_extra_field.is_none() { uncompressed_size as u32 } else { u32::MAX },
        file_name_length: name.len() as u16,
        extra_field_length: match &zip64_extra_field {
            Some(z64) => z64.len() as u16,
            None => 0,
        },
        file_comment_length: 0,
        disk_number_start: 0,
        internal_file_attributes: 0,
        external_file_attributes: 0,
        relative_offset_of_local_header: if zip64_extra_field.is_none() {
            local_header_offset as u32
        } else {
            u32::MAX
        },
    }.to_bytes();
    let mut bytes: Vec<u8> = Vec::new();
    bytes.extend_from_slice(&central_directory_header);
    bytes.extend_from_slice(name);
    if let Some(z64) = &zip64_extra_field {
        bytes.extend_from_slice(z64.as_slice());
    }
    bytes
}

/// Whether the directory ends with the ZIP64 record and its locator: the
/// offset at which the central directory starts is too large for a 32-bit
/// field.
pub open spec fn needs_zip64_ending(directory_offset: u64) -> bool {
    directory_offset >= u32::MAX
}

/// The ZIP64 end-of-directory record of a directory of one entry.
pub open spec fn zip64_end_record(directory_offset: u64, directory_size: u32) -> Zip64EndOfCentralDirectoryRecord {
    Zip64EndOfCentralDirectoryRecord {
        signature: Zip64EndOfCentralDirectoryRecord::SIGNATURE,
        size_of_zip64_end_of_central_directory_record: 44,
        version_made_by: TARGET_ZIP_VERSION,
        version_needed_to_extract: TARGET_ZIP_VERSION,
        number_of_this_disk: 0,
        number_of_the_disk_with_the_start_of_the_central_directory: 0,
        total_number_of_entries_in_the_central_directory_on_this_disk: 1,
        total_number_of_entries_in_the_central_directory: 1,
        size_of_the_central_directory: directory_size as u64,
        offset_of_start_of_central_directory_with_respect_to_the_starting_disk_number: directory_offset,
    }
}

/// The locator of a ZIP64 end-of-directory record that starts at
/// `record_offset`.
pub open spec fn zip64_end_locator(record_offset: u64) -> Zip64EndOfCentralDirectoryLocator {
    Zip64EndOfCentralDirectoryLocator {
        signature: Zip64EndOfCentralDirectoryLocator::SIGNATURE,
        number_of_the_disk_with_the_start_of_the_zip64_end_of_central_irectory: 0,
        relative_offset_of_the_zip64_end_of_central_directory_record: record_offset,
        total_number_of_disks: 1,
    }
}

/// The end-of-directory record. Where the ZIP64 record stands in front of
/// it, each of its counts, the size and the offset hold the sentinel of
/// their width.
pub open spec fn end_record(directory_offset: u64, directory_size: u32) -> EndOfCentralDirectoryRecord {
    let zip64 = needs_zip64_ending(directory_offset);
    EndOfCentralDirectoryRecord {
        signature: EndOfCentralDirectoryRecord::SIGNATURE,
        number_of_this_disk: if zip64 { u16::MAX } else { 0 },
        number_of_the_disk_with_the_start_of_the_central_directory: if zip64 { u16::MAX } else { 0 },
        total_number_of_entries_in_the_central_directory_on_this_disk: if zip64 { u16::MAX } else { 1 },
        total_number_of_entries_in_the_central_directory: if zip64 { u16::MAX } else { 1 },
        size_of_the_central_directory: if zip64 { u32::MAX } else { directory_size },
        offset_of_start_of_central_directory_with_respect_to_the_starting_disk_number: if zip64 {
            u32::MAX
        } else {
            directory_offset as u32
        },
        zip_file_comment_length: 0,
    }
}

/// What follows the central directory: the ZIP64 record and its locator
/// where they are needed, then the end-of-directory record. The ZIP64 record
/// starts where the central directory ends, and the locator says so.
pub open spec fn end_of_directory(directory_offset: u64, directory_size: u32) -> Seq<u8> {
    (if needs_zip64_ending(directory_offset) {
        zip64_end_record(directory_offset, directory_size).encoding() + zip64_end_locator(
            (directory_offset + directory_size) as u64,
        ).encoding()
    } else {
        Seq::empty()
    }) + end_record(directory_offset, directory_size).encoding()
}

/// The length of what follows the central directory.
pub open spec fn end_of_directory_length(directory_offset: u64) -> nat {
    (if needs_zip64_ending(directory_offset) { 76nat } else { 0 }) + 22
}

/// Builds what follows the central directory.
pub fn encode_end_of_directory(directory_offset: u64, directory_size: u32) -> (bytes: Vec<u8>)
    requires
        directory_offset + directory_size <= u64::MAX,
    ensures
        bytes@ == end_of_directory(directory_offset, directory_size),
        bytes@.len() == end_of_directory_length(directory_offset),
{
    let mut bytes: Vec<u8> = Vec::new();
    let use_zip64_ending = directory_offset >= u32::MAX as u64;
    if use_zip64_ending {
        let rec_pos: u64 = directory_offset + directory_size as u64;
        let zip64_end_of_central_directory_record = Zip64EndOfCentralDirectoryRecord {
            signature: Zip64EndOfCentralDirectoryRecord::SIGNATURE,
            size_of_zip64_end_of_central_directory_record: 44,
            version_made_by: TARGET_ZIP_VERSION,
            version_needed_to_extract: TARGET_ZIP_VERSION,
            number_of_this_disk: 0,
            number_of_the_disk_with_the_start_of_the_central_directory: 0,
            total_number_of_entries_in_the_central_directory_on_this_disk: 1,
            total_number_of_entries_in_the_central_directory: 1,
            size_of_the_central_directory: directory_size as u64,
            offset_of_start_of_central_directory_with_respect_to_the_starting_disk_number: directory_offset,
        }.to_bytes();
        bytes.extend_from_slice(&zip64_end_of_central_directory_record);
        let zip64_end_of_central_directory_locator = Zip64EndOfCentralDirectoryLocator {
            signature: Zip64EndOfCentralDirectoryLocator::SIGNATURE,
            number_of_the_disk_with_the_start_of_the_zip64_end_of_central_irectory: 0,
            relative_offset_of_the_zip64_end_of_central_directory_record: rec_pos,
            total_number_of_disks: 1,
        }.to_bytes();
        bytes.extend_from_slice(&zip64_end_of_central_directory_locator);
    }
    let end_of_central_directory_record = EndOfCentralDirectoryRecord {
        signature: EndOfCentralDirectoryRecord::SIGNATURE,
        number_of_this_disk: if use_zip64_ending { u16::MAX } else { 0 },
        number_of_the_disk_with_the_start_of_the_central_directory: if use_zip64_ending { u16::MAX } else { 0 },
        total_number_of_entries_in_the_central_directory_on_this_disk: if use_zip64_ending {
            u16::MAX
        } else {
            1
        },
        total_number_of_entries_in_the_central_directory: if use_zip64_ending { u16::MAX } else { 1 },
        size_of_the_central_directory: if use_zip64_ending { u32::MAX } else { directory_size },
        offset_of_start_of_central_directory_with_respect_to_the_starting_disk_number: if use_zip64_ending {
            u32::MAX
        } else {
            directory_offset as u32
        },
        zip_file_comment_length: 0,
    }.to_bytes();
    bytes.extend_from_slice(&end_of_central_directory_record);
    bytes
}

/// Everything behind the compressed stream, for a stream that ends at
/// `directory_offset`: the central directory of the entry, whose local
/// header stands at the start of the container, and what ends the
/// directory. Where the directory starts has no part in the central
/// directory; it decides how the directory ends.
pub open spec fn trailer(
    name: Seq<u8>,
    crc_32: u32,
    compressed_size: u64,
    uncompressed_size: u64,
    directory_offset: u64,
) -> Seq<u8> {
    central_directory(name, crc_32, compressed_size, uncompressed_size, LOCAL_HEADER_OFFSET)
        + end_of_directory(
        directory_offset,
        central_directory_length(name.len(), compressed_size, uncompressed_size, LOCAL_HEADER_OFFSET) as u32,
    )
}

/// The length of the trailer.
pub open spec fn trailer_length(
    name_length: nat,
    compressed_size: u64,
    uncompressed_size: u64,
    directory_offset: u64,
) -> nat {
    central_directory_length(name_length, compressed_size, uncompressed_size, LOCAL_HEADER_OFFSET)
        + end_of_directory_length(directory_offset)
}

/// Builds everything behind the compressed stream.
pub fn encode_trailer(
    name: &[u8],
    crc_32: u32,
    compressed_size: u64,
    uncompressed_size: u64,
    directory_offset: u64,
) -> (bytes: Vec<u8>)
    requires
        name@.len() <= MAX_NAME_LENGTH,
        directory_offset + central_directory_length(
            name@.len(),
            compressed_size,
            uncompressed_size,
            LOCAL_HEADER_OFFSET,
        ) <= u64::MAX,
    ensures
        bytes@ == trailer(name@, crc_32, compressed_size, uncompressed_size, directory_offset),
        bytes@.len() == trailer_length(name@.len(), compressed_size, uncompressed_size, directory_offset),
{
    let mut bytes = encode_central_directory(
        name,
        crc_32,
        compressed_size,
        uncompressed_size,
        LOCAL_HEADER_OFFSET,
    );
    let cd_size: u32 = bytes.len() as u32;
    let mut ending = encode_end_of_directory(directory_offset, cd_size);
    bytes.append(&mut ending);
    bytes
}

/// The finished container of an entry called `name` whose compressed stream
/// is `stream`.
pub open spec fn container(
    name: Seq<u8>,
    crc_32: u32,
    uncompressed_size: u64,
    compressed_size: u64,
    stream: Seq<u8>,
) -> Seq<u8> {
    head(name, crc_32, uncompressed_size, compressed_size) + stream + trailer(
        name,
        crc_32,
        compressed_size,
        uncompressed_size,
        (stream_start(name.len()) + stream.len()) as u64,
    )
}

} // verus!
