//! The records of the container and the constants they share.
//!
//! Each record is a plain struct of its fields. `encoding` says which bytes
//! the record is stored as: the fields in the order of their declaration, each
//! integer least significant byte first. `to_bytes` computes exactly those
//! bytes.

use vstd::prelude::*;
use crate::le::{field, le_bytes, lemma_le_bytes_len, lemma_le_value_u16, lemma_le_value_u32,
    lemma_le_value_u64, put, u16_to_le, u32_to_le, u64_to_le};

verus! {

broadcast use {vstd::layout::layout_of_primitives, lemma_le_bytes_len};

/// The ZIP version that every version field carries: 4.5, the first with ZIP64.
pub const TARGET_ZIP_VERSION: u16 = 45;

/// General-purpose flag of an entry deflated with the normal option.
pub const GENERAL_PURPOSE_BIT_FLAG_DEFLATE_NORMAL: u16 = 0;

/// Compression-method identifier of DEFLATE.
pub const COMPRESSION_METHOD_DEFLATE: u16 = 8;

/// The header in front of the entry's name and compressed data.
pub struct LocalFileHeader {
    pub signature: [u8; 4],
    pub version_needed_to_extract: u16,
    pub general_purpose_bit_flag: u16,
    pub compression_method: u16,
    pub last_modified_file_time: u16,
    pub last_modified_file_date: u16,
    pub crc_32: u32,
    pub compressed_size: u32,
    pub uncompressed_size: u32,
    pub file_name_length: u16,
    pub extra_field_length: u16,
}

impl LocalFileHeader {
    /// "PK", 3, 4.
    pub const SIGNATURE: [u8; 4] = [0x50, 0x4b, 3, 4];

    /// The 30 bytes of the record.
    pub open spec fn encoding(&self) -> Seq<u8> {
        self.signature@
            + le_bytes(self.version_needed_to_extract as nat, 2)
            + le_bytes(self.general_purpose_bit_flag as nat, 2)
            + le_bytes(self.compression_method as nat, 2)
            + le_bytes(self.last_modified_file_time as nat, 2)
            + le_bytes(self.last_modified_file_date as nat, 2)
            + le_bytes(self.crc_32 as nat, 4)
            + le_bytes(self.compressed_size as nat, 4)
            + le_bytes(self.uncompressed_size as nat, 4)
            + le_bytes(self.file_name_length as nat, 2)
            + le_bytes(self.extra_field_length as nat, 2)
    }

    /// Encodes the record.
    pub fn to_bytes(&self) -> (bytes: [u8; 30])
        ensures
            bytes@ == self.encoding(),
    {
        let mut bytes = [0u8; 30];
        put(&mut bytes, 0, &self.signature);
        put(&mut bytes, 4, &u16_to_le(self.version_needed_to_extract));
        put(&mut bytes, 6, &u16_to_le(self.general_purpose_bit_flag));
        put(&mut bytes, 8, &u16_to_le(self.compression_method));
        put(&mut bytes, 10, &u16_to_le(self.last_modified_file_time));
        put(&mut bytes, 12, &u16_to_le(self.last_modified_file_date));
        put(&mut bytes, 14, &u32_to_le(self.crc_32));
        put(&mut bytes, 18, &u32_to_le(self.compressed_size));
        put(&mut bytes, 22, &u32_to_le(self.uncompressed_size));
        put(&mut bytes, 26, &u16_to_le(self.file_name_length));
        put(&mut bytes, 28, &u16_to_le(self.extra_field_length));
        bytes
    }

    /// The record has 30 bytes, and each field is read back from its
    /// place in them.
    pub proof fn lemma_fields(&self)
        ensures
            self.encoding().len() == 30,
            self.encoding().subrange(0, 4) == self.signature@,
            field(self.encoding(), 4, 2) == self.version_needed_to_extract,
            field(self.encoding(), 6, 2) == self.general_purpose_bit_flag,
            field(self.encoding(), 8, 2) == self.compression_method,
            field(self.encoding(), 10, 2) == self.last_modified_file_time,
            field(self.encoding(), 12, 2) == self.last_modified_file_date,
            field(self.encoding(), 14, 4) == self.crc_32,
            field(self.encoding(), 18, 4) == self.compressed_size,
            field(self.encoding(), 22, 4) == self.uncompressed_size,
            field(self.encoding(), 26, 2) == self.file_name_length,
            field(self.encoding(), 28, 2) == self.extra_field_length,
    {
        let bytes = self.encoding();
        assert(bytes.subrange(4, 6) =~= le_bytes(self.version_needed_to_extract as nat, 2));
        lemma_le_value_u16(self.version_needed_to_extract);
        assert(bytes.subrange(6, 8) =~= le_bytes(self.general_purpose_bit_flag as nat, 2));
        lemma_le_value_u16(self.general_purpose_bit_flag);
        assert(bytes.subrange(8, 10) =~= le_bytes(self.compression_method as nat, 2));
        lemma_le_value_u16(self.compression_method);
        assert(bytes.subrange(10, 12) =~= le_bytes(self.last_modified_file_time as nat, 2));
        lemma_le_value_u16(self.last_modified_file_time);
        assert(bytes.subrange(12, 14) =~= le_bytes(self.last_modified_file_date as nat, 2));
        lemma_le_value_u16(self.last_modified_file_date);
        assert(bytes.subrange(14, 18) =~= le_bytes(self.crc_32 as nat, 4));
        lemma_le_value_u32(self.crc_32);
        assert(bytes.subrange(18, 22) =~= le_bytes(self.compressed_size as nat, 4));
        lemma_le_value_u32(self.compressed_size);
        assert(bytes.subrange(22, 26) =~= le_bytes(self.uncompressed_size as nat, 4));
        lemma_le_value_u32(self.uncompressed_size);
        assert(bytes.subrange(26, 28) =~= le_bytes(self.file_name_length as nat, 2));
        lemma_le_value_u16(self.file_name_length);
        assert(bytes.subrange(28, 30) =~= le_bytes(self.extra_field_length as nat, 2));
        lemma_le_value_u16(self.extra_field_length);
    }
}

/// The record of the central directory that describes the entry. The name and
/// the optional ZIP64 extra field follow it.
pub struct CentralDirectoryHeader {
    pub signature: [u8; 4],
    pub version_made_by: u16,
    pub version_needed_to_extract: u16,
    pub general_purpose_bit_flag: u16,
    pub compression_method: u16,
    pub last_modified_file_time: u16,
    pub last_modified_file_date: u16,
    pub crc_32: u32,
    pub compressed_size: u32,
    pub uncompressed_size: u32,
    pub file_name_length: u16,
    pub extra_field_length: u16,
    pub file_comment_length: u16,
    pub disk_number_start: u16,
    pub internal_file_attributes: u16,
    pub external_file_attributes: u16,
    pub relative_offset_of_local_header: u32,
}

impl CentralDirectoryHeader {
    /// "PK", 1, 2.
    pub const SIGNATURE: [u8; 4] = [0x50, 0x4b, 1, 2];

    /// The 44 bytes of the record.
    pub open spec fn encoding(&self) -> Seq<u8> {
        self.signature@
            + le_bytes(self.version_made_by as nat, 2)
            + le_bytes(self.version_needed_to_extract as nat, 2)
            + le_bytes(self.general_purpose_bit_flag as nat, 2)
            + le_bytes(self.compression_method as nat, 2)
            + le_bytes(self.last_modified_file_time as nat, 2)
            + le_bytes(self.last_modified_file_date as nat, 2)
            + le_bytes(self.crc_32 as nat, 4)
            + le_bytes(self.compressed_size as nat, 4)
            + le_bytes(self.uncompressed_size as nat, 4)
            + le_bytes(self.file_name_length as nat, 2)
            + le_bytes(self.extra_field_length as nat, 2)
            + le_bytes(self.file_comment_length as nat, 2)
            + le_bytes(self.disk_number_start as nat, 2)
            + le_bytes(self.internal_file_attributes as nat, 2)
            + le_bytes(self.external_file_attributes as nat, 2)
            + le_bytes(self.relative_offset_of_local_header as nat, 4)
    }

    /// Encodes the record.
    pub fn to_bytes(&self) -> (bytes: [u8; 44])
        ensures
            bytes@ == self.encoding(),
    {
        let mut bytes = [0u8; 44];
        put(&mut bytes, 0, &self.signature);
        put(&mut bytes, 4, &u16_to_le(self.version_made_by));
        put(&mut bytes, 6, &u16_to_le(self.version_needed_to_extract));
        put(&mut bytes, 8, &u16_to_le(self.general_purpose_bit_flag));
        put(&mut bytes, 10, &u16_to_le(self.compression_method));
        put(&mut bytes, 12, &u16_to_le(self.last_modified_file_time));
        put(&mut bytes, 14, &u16_to_le(self.last_modified_file_date));
        put(&mut bytes, 16, &u32_to_le(self.crc_32));
        put(&mut bytes, 20, &u32_to_le(self.compressed_size));
        put(&mut bytes, 24, &u32_to_le(self.uncompressed_size));
        put(&mut bytes, 28, &u16_to_le(self.file_name_length));
        put(&mut bytes, 30, &u16_to_le(self.extra_field_length));
        put(&mut bytes, 32, &u16_to_le(self.file_comment_length));
        put(&mut bytes, 34, &u16_to_le(self.disk_number_start));
        put(&mut bytes, 36, &u16_to_le(self.internal_file_attributes));
        put(&mut bytes, 38, &u16_to_le(self.external_file_attributes));
        put(&mut bytes, 40, &u32_to_le(self.relative_offset_of_local_header));
        bytes
    }

    /// The record has 44 bytes, and each field is read back from its
    /// place in them.
    pub proof fn lemma_fields(&self)
        ensures
            self.encoding().len() == 44,
            self.encoding().subrange(0, 4) == self.signature@,
            field(self.encoding(), 4, 2) == self.version_made_by,
            field(self.encoding(), 6, 2) == self.version_needed_to_extract,
            field(self.encoding(), 8, 2) == self.general_purpose_bit_flag,
            field(self.encoding(), 10, 2) == self.compression_method,
            field(self.encoding(), 12, 2) == self.last_modified_file_time,
            field(self.encoding(), 14, 2) == self.last_modified_file_date,
            field(self.encoding(), 16, 4) == self.crc_32,
            field(self.encoding(), 20, 4) == self.compressed_size,
            field(self.encoding(), 24, 4) == self.uncompressed_size,
            field(self.encoding(), 28, 2) == self.file_name_length,
            field(self.encoding(), 30, 2) == self.extra_field_length,
            field(self.encoding(), 32, 2) == self.file_comment_length,
            field(self.encoding(), 34, 2) == self.disk_number_start,
            field(self.encoding(), 36, 2) == self.internal_file_attributes,
            field(self.encoding(), 38, 2) == self.external_file_attributes,
            field(self.encoding(), 40, 4) == self.relative_offset_of_local_header,
    {
        let bytes = self.encoding();
        assert(bytes.subrange(4, 6) =~= le_bytes(self.version_made_by as nat, 2));
        lemma_le_value_u16(self.version_made_by);
        assert(bytes.subrange(6, 8) =~= le_bytes(self.version_needed_to_extract as nat, 2));
        lemma_le_value_u16(self.version_needed_to_extract);
        assert(bytes.subrange(8, 10) =~= le_bytes(self.general_purpose_bit_flag as nat, 2));
        lemma_le_value_u16(self.general_purpose_bit_flag);
        assert(bytes.subrange(10, 12) =~= le_bytes(self.compression_method as nat, 2));
        lemma_le_value_u16(self.compression_method);
        assert(bytes.subrange(12, 14) =~= le_bytes(self.last_modified_file_time as nat, 2));
        lemma_le_value_u16(self.last_modified_file_time);
        assert(bytes.subrange(14, 16) =~= le_bytes(self.last_modified_file_date as nat, 2));
        lemma_le_value_u16(self.last_modified_file_date);
        assert(bytes.subrange(16, 20) =~= le_bytes(self.crc_32 as nat, 4));
        lemma_le_value_u32(self.crc_32);
        assert(bytes.subrange(20, 24) =~= le_bytes(self.compressed_size as nat, 4));
        lemma_le_value_u32(self.compressed_size);
        assert(bytes.subrange(24, 28) =~= le_bytes(self.uncompressed_size as nat, 4));
        lemma_le_value_u32(self.uncompressed_size);
        assert(bytes.subrange(28, 30) =~= le_bytes(self.file_name_length as nat, 2));
        lemma_le_value_u16(self.file_name_length);
        assert(bytes.subrange(30, 32) =~= le_bytes(self.extra_field_length as nat, 2));
        lemma_le_value_u16(self.extra_field_length);
        assert(bytes.subrange(32, 34) =~= le_bytes(self.file_comment_length as nat, 2));
        lemma_le_value_u16(self.file_comment_length);
        assert(bytes.subrange(34, 36) =~= le_bytes(self.disk_number_start as nat, 2));
        lemma_le_value_u16(self.disk_number_start);
        assert(bytes.subrange(36, 38) =~= le_bytes(self.internal_file_attributes as nat, 2));
        lemma_le_value_u16(self.internal_file_attributes);
        assert(bytes.subrange(38, 40) =~= le_bytes(self.external_file_attributes as nat, 2));
        lemma_le_value_u16(self.external_file_attributes);
        assert(bytes.subrange(40, 44) =~= le_bytes(self.relative_offset_of_local_header as nat, 4));
        lemma_le_value_u32(self.relative_offset_of_local_header);
    }
}

/// The sub-fields that a ZIP64 extra field can carry.
#[derive(Clone, Copy, PartialEq, Eq, Structural)]
pub enum Zip64ExtraFieldSelect {
    UncompressedSize,
    CompressedSize,
    RelativeOffsetOfLocalHeader,
    DiskNumberStart,
}

/// The values that a ZIP64 extra field can carry in place of the 32-bit
/// fields of a header. Which of them are stored is chosen at each encoding.
pub struct Zip64ExtraField {
    pub header_id: u16,
    pub data_size: u16,
    pub uncompressed_size: u64,
    pub compressed_size: u64,
    pub relative_offset_of_local_header: u64,
    pub disk_number_start: u32,
}

/// Whether `which` is among the selected sub-fields.
fn is_selected(selected: &[Zip64ExtraFieldSelect], which: Zip64ExtraFieldSelect) -> (found: bool)
    ensures
        found == selected@.contains(which),
{
    let mut i: usize = 0;
    while i < selected.len()
        invariant
            i <= selected@.len(),
            forall|k: int| 0 <= k < i ==> selected@[k] != which,
        decreases selected@.len() - i,
    {
        if selected[i] == which {
            return true;
        }
        i += 1;
    }
    false
}

impl Zip64ExtraField {
    /// The id of the ZIP64 extra field among the extra fields of ZIP.
    pub const HEADER_ID: u16 = 1;

    /// The size that the field declares for a selection: the widths of the
    /// selected sub-fields, added up.
    pub open spec fn declared_size(selected: Seq<Zip64ExtraFieldSelect>) -> nat {
        (if selected.contains(Zip64ExtraFieldSelect::UncompressedSize) { 8nat } else { 0 })
            + (if selected.contains(Zip64ExtraFieldSelect::CompressedSize) { 8nat } else { 0 })
            + (if selected.contains(Zip64ExtraFieldSelect::RelativeOffsetOfLocalHeader) { 8nat } else { 0 })
            + (if selected.contains(Zip64ExtraFieldSelect::DiskNumberStart) { 4nat } else { 0 })
    }

    /// The bytes of the field for a selection: the header id, the declared
    /// size, then the selected sub-fields in the one canonical order. Neither
    /// the order of `selected` nor a repetition in it changes anything, and
    /// `data_size` is not consulted.
    pub open spec fn encoding(&self, selected: Seq<Zip64ExtraFieldSelect>) -> Seq<u8> {
        le_bytes(self.header_id as nat, 2)
            + le_bytes(Self::declared_size(selected), 2)
            + (if selected.contains(Zip64ExtraFieldSelect::UncompressedSize) {
                le_bytes(self.uncompressed_size as nat, 8)
            } else {
                Seq::empty()
            })
            + (if selected.contains(Zip64ExtraFieldSelect::CompressedSize) {
                le_bytes(self.compressed_size as nat, 8)
            } else {
                Seq::empty()
            })
            + (if selected.contains(Zip64ExtraFieldSelect::RelativeOffsetOfLocalHeader) {
                le_bytes(self.relative_offset_of_local_header as nat, 8)
            } else {
                Seq::empty()
            })
            + (if selected.contains(Zip64ExtraFieldSelect::DiskNumberStart) {
                le_bytes(self.disk_number_start as nat, 4)
            } else {
                Seq::empty()
            })
    }

    /// Encodes the field with the selected sub-fields. The size that the
    /// field declares is computed from the selection.
    pub fn select_to_bytes(&self, selected: &[Zip64ExtraFieldSelect]) -> (bytes: Vec<u8>)
        ensures
            bytes@ == self.encoding(selected@),
    {
        let mut bytes: Vec<u8> = Vec::with_capacity(32);
        let mut size: u16 = 0;
        bytes.extend_from_slice(&u16_to_le(self.header_id));
        bytes.extend_from_slice(&u16_to_le(size));
        if is_selected(selected, Zip64ExtraFieldSelect::UncompressedSize) {
            size += core::mem::size_of::<u64>() as u16;
            bytes.extend_from_slice(&u64_to_le(self.uncompressed_size));
        }
        if is_selected(selected, Zip64ExtraFieldSelect::CompressedSize) {
            size += core::mem::size_of::<u64>() as u16;
            bytes.extend_from_slice(&u64_to_le(self.compressed_size));
        }
        if is_selected(selected, Zip64ExtraFieldSelect::RelativeOffsetOfLocalHeader) {
            size += core::mem::size_of::<u64>() as u16;
            bytes.extend_from_slice(&u64_to_le(self.relative_offset_of_local_header));
        }
        if is_selected(selected, Zip64ExtraFieldSelect::DiskNumberStart) {
            size += core::mem::size_of::<u32>() as u16;
            bytes.extend_from_slice(&u32_to_le(self.disk_number_start));
        }
        put(bytes.as_mut_slice(), 2, &u16_to_le(size));
        bytes
    }

    /// The selection toggles presence and nothing else: two selections that
    /// name the same sub-fields, in whatever order and however often, give
    /// the same bytes.
    pub proof fn lemma_selection_order_is_immaterial(
        &self,
        one: Seq<Zip64ExtraFieldSelect>,
        other: Seq<Zip64ExtraFieldSelect>,
    )
        requires
            forall|which: Zip64ExtraFieldSelect| one.contains(which) == other.contains(which),
        ensures
            self.encoding(one) == self.encoding(other),
    {
    }

    /// The field starts with its id and its declared size, and the declared
    /// size always agrees with the bytes that follow it: it is their number.
    pub proof fn lemma_declared_size_is_consistent(&self, selected: Seq<Zip64ExtraFieldSelect>)
        ensures
            field(self.encoding(selected), 0, 2) == self.header_id,
            field(self.encoding(selected), 2, 2) == Self::declared_size(selected),
            self.encoding(selected).len() == 4 + Self::declared_size(selected),
    {
        let bytes = self.encoding(selected);
        assert(bytes.subrange(0, 2) =~= le_bytes(self.header_id as nat, 2));
        assert(bytes.subrange(2, 4) =~= le_bytes(Self::declared_size(selected), 2));
        lemma_le_value_u16(self.header_id);
        lemma_le_value_u16(Self::declared_size(selected) as u16);
    }
}

/// The ZIP64 form of the end-of-directory record, with 64-bit counts, size
/// and offset.
pub struct Zip64EndOfCentralDirectoryRecord {
    pub signature: [u8; 4],
    pub size_of_zip64_end_of_central_directory_record: u64,
    pub version_made_by: u16,
    pub version_needed_to_extract: u16,
    pub number_of_this_disk: u32,
    pub number_of_the_disk_with_the_start_of_the_central_directory: u32,
    pub total_number_of_entries_in_the_central_directory_on_this_disk: u64,
    pub total_number_of_entries_in_the_central_directory: u64,
    pub size_of_the_central_directory: u64,
    pub offset_of_start_of_central_directory_with_respect_to_the_starting_disk_number: u64,
}

impl Zip64EndOfCentralDirectoryRecord {
    /// "PK", 6, 6.
    pub const SIGNATURE: [u8; 4] = [0x50, 0x4b, 6, 6];

    /// The 56 bytes of the record.
    pub open spec fn encoding(&self) -> Seq<u8> {
        self.signature@
            + le_bytes(self.size_of_zip64_end_of_central_directory_record as nat, 8)
            + le_bytes(self.version_made_by as nat, 2)
            + le_bytes(self.version_needed_to_extract as nat, 2)
            + le_bytes(self.number_of_this_disk as nat, 4)
            + le_bytes(self.number_of_the_disk_with_the_start_of_the_central_directory as nat, 4)
            + le_bytes(self.total_number_of_entries_in_the_central_directory_on_this_disk as nat, 8)
            + le_bytes(self.total_number_of_entries_in_the_central_directory as nat, 8)
            + le_bytes(self.size_of_the_central_directory as nat, 8)
            + le_bytes(
                self.offset_of_start_of_central_directory_with_respect_to_the_starting_disk_number as nat,
                8,
            )
    }

    /// Encodes the record.
    pub fn to_bytes(&self) -> (bytes: [u8; 56])
        ensures
            bytes@ == self.encoding(),
    {
        let mut bytes = [0u8; 56];
        put(&mut bytes, 0, &self.signature);
        put(&mut bytes, 4, &u64_to_le(self.size_of_zip64_end_of_central_directory_record));
        put(&mut bytes, 12, &u16_to_le(self.version_made_by));
        put(&mut bytes, 14, &u16_to_le(self.version_needed_to_extract));
        put(&mut bytes, 16, &u32_to_le(self.number_of_this_disk));
        put(&mut bytes, 20, &u32_to_le(self.number_of_the_disk_with_the_start_of_the_central_directory));
        put(&mut bytes, 24, &u64_to_le(self.total_number_of_entries_in_the_central_directory_on_this_disk));
        put(&mut bytes, 32, &u64_to_le(self.total_number_of_entries_in_the_central_directory));
        put(&mut bytes, 40, &u64_to_le(self.size_of_the_central_directory));
        put(
            &mut bytes,
            48,
            &u64_to_le(self.offset_of_start_of_central_directory_with_respect_to_the_starting_disk_number),
        );
        bytes
    }

    /// The record has 56 bytes, and each field is read back from its
    /// place in them.
    pub proof fn lemma_fields(&self)
        ensures
            self.encoding().len() == 56,
            self.encoding().subrange(0, 4) == self.signature@,
            field(self.encoding(), 4, 8) == self.size_of_zip64_end_of_central_directory_record,
            field(self.encoding(), 12, 2) == self.version_made_by,
            field(self.encoding(), 14, 2) == self.version_needed_to_extract,
            field(self.encoding(), 16, 4) == self.number_of_this_disk,
            field(self.encoding(), 20, 4) == self.number_of_the_disk_with_the_start_of_the_central_directory,
            field(self.encoding(), 24, 8) == self.total_number_of_entries_in_the_central_directory_on_this_disk,
            field(self.encoding(), 32, 8) == self.total_number_of_entries_in_the_central_directory,
            field(self.encoding(), 40, 8) == self.size_of_the_central_directory,
            field(self.encoding(), 48, 8) == self.offset_of_start_of_central_directory_with_respect_to_the_starting_disk_number,
    {
        let bytes = self.encoding();
        assert(bytes.subrange(4, 12) =~= le_bytes(self.size_of_zip64_end_of_central_directory_record as nat, 8));
        lemma_le_value_u64(self.size_of_zip64_end_of_central_directory_record);
        assert(bytes.subrange(12, 14) =~= le_bytes(self.version_made_by as nat, 2));
        lemma_le_value_u16(self.version_made_by);
        assert(bytes.subrange(14, 16) =~= le_bytes(self.version_needed_to_extract as nat, 2));
        lemma_le_value_u16(self.version_needed_to_extract);
        assert(bytes.subrange(16, 20) =~= le_bytes(self.number_of_this_disk as nat, 4));
        lemma_le_value_u32(self.number_of_this_disk);
        assert(bytes.subrange(20, 24) =~= le_bytes(self.number_of_the_disk_with_the_start_of_the_central_directory as nat, 4));
        lemma_le_value_u32(self.number_of_the_disk_with_the_start_of_the_central_directory);
        assert(bytes.subrange(24, 32) =~= le_bytes(self.total_number_of_entries_in_the_central_directory_on_this_disk as nat, 8));
        lemma_le_value_u64(self.total_number_of_entries_in_the_central_directory_on_this_disk);
        assert(bytes.subrange(32, 40) =~= le_bytes(self.total_number_of_entries_in_the_central_directory as nat, 8));
        lemma_le_value_u64(self.total_number_of_entries_in_the_central_directory);
        assert(bytes.subrange(40, 48) =~= le_bytes(self.size_of_the_central_directory as nat, 8));
        lemma_le_value_u64(self.size_of_the_central_directory);
        assert(bytes.subrange(48, 56) =~= le_bytes(self.offset_of_start_of_central_directory_with_respect_to_the_starting_disk_number as nat, 8));
        lemma_le_value_u64(self.offset_of_start_of_central_directory_with_respect_to_the_starting_disk_number);
    }
}

/// The record that says where the ZIP64 end-of-directory record starts.
pub struct Zip64EndOfCentralDirectoryLocator {
    pub signature: [u8; 4],
    pub number_of_the_disk_with_the_start_of_the_zip64_end_of_central_irectory: u32,
    pub relative_offset_of_the_zip64_end_of_central_directory_record: u64,
    pub total_number_of_disks: u32,
}

impl Zip64EndOfCentralDirectoryLocator {
    /// "PK", 6, 7.
    pub const SIGNATURE: [u8; 4] = [0x50, 0x4b, 6, 7];

    /// The 20 bytes of the record.
    pub open spec fn encoding(&self) -> Seq<u8> {
        self.signature@
            + le_bytes(self.number_of_the_disk_with_the_start_of_the_zip64_end_of_central_irectory as nat, 4)
            + le_bytes(self.relative_offset_of_the_zip64_end_of_central_directory_record as nat, 8)
            + le_bytes(self.total_number_of_disks as nat, 4)
    }

    /// Encodes the record.
    pub fn to_bytes(&self) -> (bytes: [u8; 20])
        ensures
            bytes@ == self.encoding(),
    {
        let mut bytes = [0u8; 20];
        put(&mut bytes, 0, &self.signature);
        put(
            &mut bytes,
            4,
            &u32_to_le(self.number_of_the_disk_with_the_start_of_the_zip64_end_of_central_irectory),
        );
        put(&mut bytes, 8, &u64_to_le(self.relative_offset_of_the_zip64_end_of_central_directory_record));
        put(&mut bytes, 16, &u32_to_le(self.total_number_of_disks));
        bytes
    }

    /// The record has 20 bytes, and each field is read back from its
    /// place in them.
    pub proof fn lemma_fields(&self)
        ensures
            self.encoding().len() == 20,
            self.encoding().subrange(0, 4) == self.signature@,
            field(self.encoding(), 4, 4) == self.number_of_the_disk_with_the_start_of_the_zip64_end_of_central_irectory,
            field(self.encoding(), 8, 8) == self.relative_offset_of_the_zip64_end_of_central_directory_record,
            field(self.encoding(), 16, 4) == self.total_number_of_disks,
    {
        let bytes = self.encoding();
        assert(bytes.subrange(4, 8) =~= le_bytes(self.number_of_the_disk_with_the_start_of_the_zip64_end_of_central_irectory as nat, 4));
        lemma_le_value_u32(self.number_of_the_disk_with_the_start_of_the_zip64_end_of_central_irectory);
        assert(bytes.subrange(8, 16) =~= le_bytes(self.relative_offset_of_the_zip64_end_of_central_directory_record as nat, 8));
        lemma_le_value_u64(self.relative_offset_of_the_zip64_end_of_central_directory_record);
        assert(bytes.subrange(16, 20) =~= le_bytes(self.total_number_of_disks as nat, 4));
        lemma_le_value_u32(self.total_number_of_disks);
    }
}

/// The record that ends the container.
pub struct EndOfCentralDirectoryRecord {
    pub signature: [u8; 4],
    pub number_of_this_disk: u16,
    pub number_of_the_disk_with_the_start_of_the_central_directory: u16,
    pub total_number_of_entries_in_the_central_directory_on_this_disk: u16,
    pub total_number_of_entries_in_the_central_directory: u16,
    pub size_of_the_central_directory: u32,
    pub offset_of_start_of_central_directory_with_respect_to_the_starting_disk_number: u32,
    pub zip_file_comment_length: u16,
}

impl EndOfCentralDirectoryRecord {
    /// "PK", 5, 6.
    pub const SIGNATURE: [u8; 4] = [0x50, 0x4b, 5, 6];

    /// The 22 bytes of the record.
    pub open spec fn encoding(&self) -> Seq<u8> {
        self.signature@
            + le_bytes(self.number_of_this_disk as nat, 2)
            + le_bytes(self.number_of_the_disk_with_the_start_of_the_central_directory as nat, 2)
            + le_bytes(self.total_number_of_entries_in_the_central_directory_on_this_disk as nat, 2)
            + le_bytes(self.total_number_of_entries_in_the_central_directory as nat, 2)
            + le_bytes(self.size_of_the_central_directory as nat, 4)
            + le_bytes(
                self.offset_of_start_of_central_directory_with_respect_to_the_starting_disk_number as nat,
                4,
            )
            + le_bytes(self.zip_file_comment_length as nat, 2)
    }

    /// Encodes the record.
    pub fn to_bytes(&self) -> (bytes: [u8; 22])
        ensures
            bytes@ == self.encoding(),
    {
        let mut bytes = [0u8; 22];
        put(&mut bytes, 0, &self.signature);
        put(&mut bytes, 4, &u16_to_le(self.number_of_this_disk));
        put(&mut bytes, 6, &u16_to_le(self.number_of_the_disk_with_the_start_of_the_central_directory));
        put(&mut bytes, 8, &u16_to_le(self.total_number_of_entries_in_the_central_directory_on_this_disk));
        put(&mut bytes, 10, &u16_to_le(self.total_number_of_entries_in_the_central_directory));
        put(&mut bytes, 12, &u32_to_le(self.size_of_the_central_directory));
        put(
            &mut bytes,
            16,
            &u32_to_le(self.offset_of_start_of_central_directory_with_respect_to_the_starting_disk_number),
        );
        put(&mut bytes, 20, &u16_to_le(self.zip_file_comment_length));
        bytes
    }

    /// The record has 22 bytes, and each field is read back from its
    /// place in them.
    pub proof fn lemma_fields(&self)
        ensures
            self.encoding().len() == 22,
            self.encoding().subrange(0, 4) == self.signature@,
            field(self.encoding(), 4, 2) == self.number_of_this_disk,
            field(self.encoding(), 6, 2) == self.number_of_the_disk_with_the_start_of_the_central_directory,
            field(self.encoding(), 8, 2) == self.total_number_of_entries_in_the_central_directory_on_this_disk,
            field(self.encoding(), 10, 2) == self.total_number_of_entries_in_the_central_directory,
            field(self.encoding(), 12, 4) == self.size_of_the_central_directory,
            field(self.encoding(), 16, 4) == self.offset_of_start_of_central_directory_with_respect_to_the_starting_disk_number,
            field(self.encoding(), 20, 2) == self.zip_file_comment_length,
    {
        let bytes = self.encoding();
        assert(bytes.subrange(4, 6) =~= le_bytes(self.number_of_this_disk as nat, 2));
        lemma_le_value_u16(self.number_of_this_disk);
        assert(bytes.subrange(6, 8) =~= le_bytes(self.number_of_the_disk_with_the_start_of_the_central_directory as nat, 2));
        lemma_le_value_u16(self.number_of_the_disk_with_the_start_of_the_central_directory);
        assert(bytes.subrange(8, 10) =~= le_bytes(self.total_number_of_entries_in_the_central_directory_on_this_disk as nat, 2));
        lemma_le_value_u16(self.total_number_of_entries_in_the_central_directory_on_this_disk);
        assert(bytes.subrange(10, 12) =~= le_bytes(self.total_number_of_entries_in_the_central_directory as nat, 2));
        lemma_le_value_u16(self.total_number_of_entries_in_the_central_directory);
        assert(bytes.subrange(12, 16) =~= le_bytes(self.size_of_the_central_directory as nat, 4));
        lemma_le_value_u32(self.size_of_the_central_directory);
        assert(bytes.subrange(16, 20) =~= le_bytes(self.offset_of_start_of_central_directory_with_respect_to_the_starting_disk_number as nat, 4));
        lemma_le_value_u32(self.offset_of_start_of_central_directory_with_respect_to_the_starting_disk_number);
        assert(bytes.subrange(20, 22) =~= le_bytes(self.zip_file_comment_length as nat, 2));
        lemma_le_value_u16(self.zip_file_comment_length);
    }
}

} // verus!
