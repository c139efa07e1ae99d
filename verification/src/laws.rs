//! What holds of every container.
//!
//! The statements are about `container`, the bytes that the encoder is
//! proved to produce, and about its parts. They read fields back by their
//! offsets, as a reader of the format would.

use vstd::prelude::*;
use crate::common::{CentralDirectoryHeader, EndOfCentralDirectoryRecord, LocalFileHeader,
    Zip64EndOfCentralDirectoryLocator, Zip64EndOfCentralDirectoryRecord};
use crate::container::{central_directory, central_directory_length, central_extra_field, central_header,
    central_selection, container, end_of_directory, end_of_directory_length, end_record, head,
    lemma_central_directory_len, lemma_central_selection, lemma_head_len, lemma_local_selection,
    local_extra_field, local_header, local_selection, needs_zip64, stream_start, trailer,
    zip64_end_locator, zip64_end_record, LOCAL_HEADER_OFFSET, MAX_NAME_LENGTH};
use crate::crc32;
use crate::error::Failure;
use crate::le::{field, le_bytes, lemma_le_bytes_len, lemma_le_value_u64};
use crate::writer::{encode_outcome, stream_outcome};

verus! {

broadcast use lemma_le_bytes_len;

/// A ZIP64 extra field with the two sizes holds them behind its id and its
/// declared size of 16.
pub proof fn lemma_local_extra_field(uncompressed_size: u64, compressed_size: u64)
    ensures
        ({
            let bytes = local_extra_field(uncompressed_size, compressed_size).encoding(local_selection());
            &&& bytes.len() == 20
            &&& field(bytes, 0, 2) == 1
            &&& field(bytes, 2, 2) == 16
            &&& field(bytes, 4, 8) == uncompressed_size
            &&& field(bytes, 12, 8) == compressed_size
        }),
{
    let extra = local_extra_field(uncompressed_size, compressed_size);
    let bytes = extra.encoding(local_selection());
    lemma_local_selection();
    extra.lemma_declared_size_is_consistent(local_selection());
    assert(bytes.subrange(4, 12) =~= le_bytes(uncompressed_size as nat, 8));
    assert(bytes.subrange(12, 20) =~= le_bytes(compressed_size as nat, 8));
    lemma_le_value_u64(uncompressed_size);
    lemma_le_value_u64(compressed_size);
}

/// A ZIP64 extra field with the two sizes and the offset holds them behind
/// its id and its declared size of 24.
pub proof fn lemma_central_extra_field(compressed_size: u64, uncompressed_size: u64, local_header_offset: u64)
    ensures
        ({
            let bytes = central_extra_field(
                compressed_size,
                uncompressed_size,
                local_header_offset,
            ).encoding(central_selection());
            &&& bytes.len() == 28
            &&& field(bytes, 0, 2) == 1
            &&& field(bytes, 2, 2) == 24
            &&& field(bytes, 4, 8) == uncompressed_size
            &&& field(bytes, 12, 8) == compressed_size
            &&& field(bytes, 20, 8) == local_header_offset
        }),
{
    let extra = central_extra_field(compressed_size, uncompressed_size, local_header_offset);
    let bytes = extra.encoding(central_selection());
    lemma_central_selection();
    extra.lemma_declared_size_is_consistent(central_selection());
    assert(bytes.subrange(4, 12) =~= le_bytes(uncompressed_size as nat, 8));
    assert(bytes.subrange(12, 20) =~= le_bytes(compressed_size as nat, 8));
    assert(bytes.subrange(20, 28) =~= le_bytes(local_header_offset as nat, 8));
    lemma_le_value_u64(uncompressed_size);
    lemma_le_value_u64(compressed_size);
    lemma_le_value_u64(local_header_offset);
}

/// A field of a part is a field of the whole, further back by what stands
/// in front of the part.
pub proof fn lemma_field_of_part(before: Seq<u8>, part: Seq<u8>, after: Seq<u8>, at: int, width: int)
    requires
        0 <= at,
        0 <= width,
        at + width <= part.len(),
    ensures
        field(before + part + after, before.len() + at, width) == field(part, at, width),
        (before + part + after).subrange(before.len() + at, before.len() + at + width) == part.subrange(
            at,
            at + width,
        ),
{
    assert((before + part + after).subrange(before.len() + at, before.len() + at + width) =~= part.subrange(
        at,
        at + width,
    ));
}

/// The front of a finished container. The local header starts with its
/// signature, holds the checksum at offset 14 and the sentinel in both
/// 32-bit size fields, and states the lengths of the name and of the extra
/// field. The name follows, then the extra field with the uncompressed and
/// the compressed size in 64 bits, then the stream.
pub proof fn lemma_container_front(
    name: Seq<u8>,
    crc_32: u32,
    uncompressed_size: u64,
    compressed_size: u64,
    stream: Seq<u8>,
)
    requires
        name.len() <= MAX_NAME_LENGTH,
    ensures
        ({
            let bytes = container(name, crc_32, uncompressed_size, compressed_size, stream);
            let n = name.len() as int;
            &&& bytes.subrange(0, 4) == LocalFileHeader::SIGNATURE@
            &&& field(bytes, 14, 4) == crc_32
            &&& field(bytes, 18, 4) == 0xFFFF_FFFF
            &&& field(bytes, 22, 4) == 0xFFFF_FFFF
            &&& field(bytes, 26, 2) == n
            &&& field(bytes, 28, 2) == 20
            &&& bytes.subrange(30, 30 + n) == name
            &&& field(bytes, 30 + n, 2) == 1
            &&& field(bytes, 32 + n, 2) == 16
            &&& field(bytes, 34 + n, 8) == uncompressed_size
            &&& field(bytes, 42 + n, 8) == compressed_size
            &&& bytes.subrange(50 + n, 50 + n + stream.len()) == stream
        }),
{
    let bytes = container(name, crc_32, uncompressed_size, compressed_size, stream);
    let n = name.len() as int;
    let header = local_header(name.len() as u16, crc_32).encoding();
    let extra = local_extra_field(uncompressed_size, compressed_size).encoding(local_selection());
    let directory = trailer(
        name,
        crc_32,
        compressed_size,
        uncompressed_size,
        (stream_start(name.len()) + stream.len()) as u64,
    );
    local_header(name.len() as u16, crc_32).lemma_fields();
    lemma_local_extra_field(uncompressed_size, compressed_size);
    let empty = Seq::<u8>::empty();
    let behind_header = name + extra + stream + directory;
    assert(bytes =~= empty + header + behind_header);
    lemma_field_of_part(empty, header, behind_header, 0, 4);
    lemma_field_of_part(empty, header, behind_header, 14, 4);
    lemma_field_of_part(empty, header, behind_header, 18, 4);
    lemma_field_of_part(empty, header, behind_header, 22, 4);
    lemma_field_of_part(empty, header, behind_header, 26, 2);
    lemma_field_of_part(empty, header, behind_header, 28, 2);
    let behind_extra = stream + directory;
    assert(bytes =~= (header + name) + extra + behind_extra);
    lemma_field_of_part(header + name, extra, behind_extra, 0, 2);
    lemma_field_of_part(header + name, extra, behind_extra, 2, 2);
    lemma_field_of_part(header + name, extra, behind_extra, 4, 8);
    lemma_field_of_part(header + name, extra, behind_extra, 12, 8);
    assert(bytes.subrange(30, 30 + n) =~= name);
    assert(bytes.subrange(50 + n, 50 + n + stream.len()) =~= stream);
}

/// The central directory, whatever the sizes: the header starts with its
/// signature, holds the checksum and the length of the name, and the name
/// follows it.
pub proof fn lemma_central_directory_entry(
    name: Seq<u8>,
    crc_32: u32,
    compressed_size: u64,
    uncompressed_size: u64,
    local_header_offset: u64,
)
    requires
        name.len() <= MAX_NAME_LENGTH,
    ensures
        ({
            let bytes = central_directory(
                name,
                crc_32,
                compressed_size,
                uncompressed_size,
                local_header_offset,
            );
            let n = name.len() as int;
            &&& bytes.subrange(0, 4) == CentralDirectoryHeader::SIGNATURE@
            &&& field(bytes, 16, 4) == crc_32
            &&& field(bytes, 28, 2) == n
            &&& field(bytes, 32, 2) == 0
            &&& bytes.subrange(44, 44 + n) == name
        }),
{
    let bytes = central_directory(name, crc_32, compressed_size, uncompressed_size, local_header_offset);
    let header = central_header(
        name.len() as u16,
        crc_32,
        compressed_size,
        uncompressed_size,
        local_header_offset,
    );
    let n = name.len() as int;
    header.lemma_fields();
    let empty = Seq::<u8>::empty();
    let behind = bytes.skip(44);
    assert(bytes =~= empty + header.encoding() + behind);
    lemma_field_of_part(empty, header.encoding(), behind, 0, 4);
    lemma_field_of_part(empty, header.encoding(), behind, 16, 4);
    lemma_field_of_part(empty, header.encoding(), behind, 28, 2);
    lemma_field_of_part(empty, header.encoding(), behind, 32, 2);
    assert(bytes.subrange(44, 44 + n) =~= name);
}

/// Where the compressed size, the uncompressed size or the offset of the
/// local header is 2^32 - 1 or more, the central directory carries the
/// ZIP64 extra field: the two 32-bit size fields and the 32-bit offset field
/// of the header hold the sentinel, the header states 28 bytes of extra
/// field, and these hold the three values in 64 bits behind the id 1 and
/// the declared size 24.
pub proof fn lemma_central_directory_with_zip64(
    name: Seq<u8>,
    crc_32: u32,
    compressed_size: u64,
    uncompressed_size: u64,
    local_header_offset: u64,
)
    requires
        name.len() <= MAX_NAME_LENGTH,
        compressed_size >= 0xFFFF_FFFF || uncompressed_size >= 0xFFFF_FFFF || local_header_offset
            >= 0xFFFF_FFFF,
    ensures
        ({
            let bytes = central_directory(
                name,
                crc_32,
                compressed_size,
                uncompressed_size,
                local_header_offset,
            );
            let n = name.len() as int;
            &&& bytes.len() == 44 + n + 28
            &&& field(bytes, 20, 4) == 0xFFFF_FFFF
            &&& field(bytes, 24, 4) == 0xFFFF_FFFF
            &&& field(bytes, 30, 2) == 28
            &&& field(bytes, 40, 4) == 0xFFFF_FFFF
            &&& field(bytes, 44 + n, 2) == 1
            &&& field(bytes, 46 + n, 2) == 24
            &&& field(bytes, 48 + n, 8) == uncompressed_size
            &&& field(bytes, 56 + n, 8) == compressed_size
            &&& field(bytes, 64 + n, 8) == local_header_offset
        }),
{
    let bytes = central_directory(name, crc_32, compressed_size, uncompressed_size, local_header_offset);
    let header = central_header(
        name.len() as u16,
        crc_32,
        compressed_size,
        uncompressed_size,
        local_header_offset,
    );
    let extra = central_extra_field(compressed_size, uncompressed_size, local_header_offset).encoding(
        central_selection(),
    );
    header.lemma_fields();
    lemma_central_extra_field(compressed_size, uncompressed_size, local_header_offset);
    let empty = Seq::<u8>::empty();
    assert(bytes =~= empty + header.encoding() + (name + extra));
    lemma_field_of_part(empty, header.encoding(), name + extra, 20, 4);
    lemma_field_of_part(empty, header.encoding(), name + extra, 24, 4);
    lemma_field_of_part(empty, header.encoding(), name + extra, 30, 2);
    lemma_field_of_part(empty, header.encoding(), name + extra, 40, 4);
    assert(bytes =~= (header.encoding() + name) + extra + empty);
    lemma_field_of_part(header.encoding() + name, extra, empty, 0, 2);
    lemma_field_of_part(header.encoding() + name, extra, empty, 2, 2);
    lemma_field_of_part(header.encoding() + name, extra, empty, 4, 8);
    lemma_field_of_part(header.encoding() + name, extra, empty, 12, 8);
    lemma_field_of_part(header.encoding() + name, extra, empty, 20, 8);
}

/// Where the compressed size, the uncompressed size and the offset of the
/// local header are all below 2^32 - 1, the central directory carries no
/// extra field: it ends with the name, the header states no extra field, and
/// its 32-bit fields hold the two sizes and the offset themselves.
pub proof fn lemma_central_directory_without_zip64(
    name: Seq<u8>,
    crc_32: u32,
    compressed_size: u64,
    uncompressed_size: u64,
    local_header_offset: u64,
)
    requires
        name.len() <= MAX_NAME_LENGTH,
        compressed_size < 0xFFFF_FFFF,
        uncompressed_size < 0xFFFF_FFFF,
        local_header_offset < 0xFFFF_FFFF,
    ensures
        ({
            let bytes = central_directory(
                name,
                crc_32,
                compressed_size,
                uncompressed_size,
                local_header_offset,
            );
            &&& bytes.len() == 44 + name.len()
            &&& field(bytes, 20, 4) == compressed_size
            &&& field(bytes, 24, 4) == uncompressed_size
            &&& field(bytes, 30, 2) == 0
            &&& field(bytes, 40, 4) == local_header_offset
        }),
{
    let bytes = central_directory(name, crc_32, compressed_size, uncompressed_size, local_header_offset);
    let header = central_header(
        name.len() as u16,
        crc_32,
        compressed_size,
        uncompressed_size,
        local_header_offset,
    );
    header.lemma_fields();
    let empty = Seq::<u8>::empty();
    assert(bytes =~= empty + header.encoding() + name);
    lemma_field_of_part(empty, header.encoding(), name, 20, 4);
    lemma_field_of_part(empty, header.encoding(), name, 24, 4);
    lemma_field_of_part(empty, header.encoding(), name, 30, 2);
    lemma_field_of_part(empty, header.encoding(), name, 40, 4);
}

/// Where the central directory starts at 2^32 - 1 or beyond, the ZIP64
/// end-of-directory record and its locator stand in front of the
/// end-of-directory record. The ZIP64 record holds the true size and offset
/// of the directory and counts its one entry; the locator holds the offset
/// at which the directory ends, which is where the ZIP64 record starts; and
/// every count, the size and the offset of the end-of-directory record hold
/// the sentinel of their width.
pub proof fn lemma_end_of_directory_with_zip64(directory_offset: u64, directory_size: u32)
    requires
        directory_offset >= 0xFFFF_FFFF,
        directory_offset + directory_size <= u64::MAX,
    ensures
        ({
            let bytes = end_of_directory(directory_offset, directory_size);
            &&& bytes.len() == 56 + 20 + 22
            &&& bytes.subrange(0, 4) == Zip64EndOfCentralDirectoryRecord::SIGNATURE@
            &&& field(bytes, 4, 8) == 44
            &&& field(bytes, 24, 8) == 1
            &&& field(bytes, 32, 8) == 1
            &&& field(bytes, 40, 8) == directory_size
            &&& field(bytes, 48, 8) == directory_offset
            &&& bytes.subrange(56, 60) == Zip64EndOfCentralDirectoryLocator::SIGNATURE@
            &&& field(bytes, 64, 8) == directory_offset + directory_size
            &&& field(bytes, 72, 4) == 1
            &&& bytes.subrange(76, 80) == EndOfCentralDirectoryRecord::SIGNATURE@
            &&& field(bytes, 80, 2) == 0xFFFF
            &&& field(bytes, 82, 2) == 0xFFFF
            &&& field(bytes, 84, 2) == 0xFFFF
            &&& field(bytes, 86, 2) == 0xFFFF
            &&& field(bytes, 88, 4) == 0xFFFF_FFFF
            &&& field(bytes, 92, 4) == 0xFFFF_FFFF
            &&& field(bytes, 96, 2) == 0
        }),
{
    let bytes = end_of_directory(directory_offset, directory_size);
    let record = zip64_end_record(directory_offset, directory_size);
    let locator = zip64_end_locator((directory_offset + directory_size) as u64);
    let end = end_record(directory_offset, directory_size);
    record.lemma_fields();
    locator.lemma_fields();
    end.lemma_fields();
    let empty = Seq::<u8>::empty();
    let behind_record = locator.encoding() + end.encoding();
    assert(bytes =~= empty + record.encoding() + behind_record);
    lemma_field_of_part(empty, record.encoding(), behind_record, 0, 4);
    lemma_field_of_part(empty, record.encoding(), behind_record, 4, 8);
    lemma_field_of_part(empty, record.encoding(), behind_record, 24, 8);
    lemma_field_of_part(empty, record.encoding(), behind_record, 32, 8);
    lemma_field_of_part(empty, record.encoding(), behind_record, 40, 8);
    lemma_field_of_part(empty, record.encoding(), behind_record, 48, 8);
    assert(bytes =~= record.encoding() + locator.encoding() + end.encoding());
    lemma_field_of_part(record.encoding(), locator.encoding(), end.encoding(), 0, 4);
    lemma_field_of_part(record.encoding(), locator.encoding(), end.encoding(), 8, 8);
    lemma_field_of_part(record.encoding(), locator.encoding(), end.encoding(), 16, 4);
    let before_end = record.encoding() + locator.encoding();
    assert(bytes =~= before_end + end.encoding() + empty);
    lemma_field_of_part(before_end, end.encoding(), empty, 0, 4);
    lemma_field_of_part(before_end, end.encoding(), empty, 4, 2);
    lemma_field_of_part(before_end, end.encoding(), empty, 6, 2);
    lemma_field_of_part(before_end, end.encoding(), empty, 8, 2);
    lemma_field_of_part(before_end, end.encoding(), empty, 10, 2);
    lemma_field_of_part(before_end, end.encoding(), empty, 12, 4);
    lemma_field_of_part(before_end, end.encoding(), empty, 16, 4);
    lemma_field_of_part(before_end, end.encoding(), empty, 20, 2);
}

/// Where the central directory starts below 2^32 - 1, nothing stands
/// between it and the end-of-directory record, which counts the one entry on
/// the one disk and holds the size and the offset of the directory.
pub proof fn lemma_end_of_directory_without_zip64(directory_offset: u64, directory_size: u32)
    requires
        directory_offset < 0xFFFF_FFFF,
    ensures
        ({
            let bytes = end_of_directory(directory_offset, directory_size);
            &&& bytes.len() == 22
            &&& bytes.subrange(0, 4) == EndOfCentralDirectoryRecord::SIGNATURE@
            &&& field(bytes, 4, 2) == 0
            &&& field(bytes, 6, 2) == 0
            &&& field(bytes, 8, 2) == 1
            &&& field(bytes, 10, 2) == 1
            &&& field(bytes, 12, 4) == directory_size
            &&& field(bytes, 16, 4) == directory_offset
            &&& field(bytes, 20, 2) == 0
        }),
{
    let bytes = end_of_directory(directory_offset, directory_size);
    let end = end_record(directory_offset, directory_size);
    end.lemma_fields();
    assert(bytes =~= end.encoding());
}

/// Where the directory of a container starts: behind the stream.
pub open spec fn directory_offset(name: Seq<u8>, stream: Seq<u8>) -> nat {
    stream_start(name.len()) + stream.len()
}

/// The parts of a finished container stand one behind the other: the stream
/// ends where the central directory starts, and what ends the directory
/// follows the central directory at once.
pub proof fn lemma_container_parts(
    name: Seq<u8>,
    crc_32: u32,
    uncompressed_size: u64,
    compressed_size: u64,
    stream: Seq<u8>,
)
    requires
        name.len() <= MAX_NAME_LENGTH,
        directory_offset(name, stream) <= u64::MAX,
    ensures
        ({
            let bytes = container(name, crc_32, uncompressed_size, compressed_size, stream);
            let start = directory_offset(name, stream) as u64;
            let length = central_directory_length(
                name.len(),
                compressed_size,
                uncompressed_size,
                LOCAL_HEADER_OFFSET,
            );
            &&& bytes.len() == start + length + end_of_directory_length(start)
            &&& bytes.subrange(0, start as int) == head(name, crc_32, uncompressed_size, compressed_size)
                + stream
            &&& bytes.subrange(start as int, start + length) == central_directory(
                name,
                crc_32,
                compressed_size,
                uncompressed_size,
                LOCAL_HEADER_OFFSET,
            )
            &&& bytes.skip(start + length) == end_of_directory(start, length as u32)
        }),
{
    let bytes = container(name, crc_32, uncompressed_size, compressed_size, stream);
    let start = directory_offset(name, stream) as u64;
    let length = central_directory_length(
        name.len(),
        compressed_size,
        uncompressed_size,
        LOCAL_HEADER_OFFSET,
    );
    let front = head(name, crc_32, uncompressed_size, compressed_size) + stream;
    let central = central_directory(
        name,
        crc_32,
        compressed_size,
        uncompressed_size,
        LOCAL_HEADER_OFFSET,
    );
    let ending = end_of_directory(start, length as u32);
    lemma_head_len(name, crc_32, uncompressed_size, compressed_size);
    lemma_central_directory_len(name, crc_32, compressed_size, uncompressed_size, LOCAL_HEADER_OFFSET);
    zip64_end_record(start, length as u32).lemma_fields();
    zip64_end_locator((start + length as u32) as u64).lemma_fields();
    end_record(start, length as u32).lemma_fields();
    assert(bytes =~= front + central + ending);
    assert(bytes.subrange(0, start as int) =~= front);
    assert(bytes.subrange(start as int, start + length) =~= central);
    assert(bytes.skip(start + length) =~= ending);
}

/// The central directory of a container records where the local header
/// stands, which is the start of the container. Where both sizes are below
/// 2^32 - 1, no extra field follows the name, and the 32-bit fields of the
/// header hold the sizes and the offset 0. Where a size is 2^32 - 1 or more,
/// these fields hold the sentinel, and the extra field holds the sizes and
/// the offset 0 in 64 bits. Where the directory starts decides neither.
pub proof fn lemma_container_directory(
    name: Seq<u8>,
    crc_32: u32,
    uncompressed_size: u64,
    compressed_size: u64,
    stream: Seq<u8>,
)
    requires
        name.len() <= MAX_NAME_LENGTH,
        directory_offset(name, stream) <= u64::MAX,
    ensures
        ({
            let bytes = container(name, crc_32, uncompressed_size, compressed_size, stream);
            let start = directory_offset(name, stream) as int;
            let n = name.len() as int;
            let large = compressed_size >= 0xFFFF_FFFF || uncompressed_size >= 0xFFFF_FFFF;
            &&& bytes.subrange(start, start + 4) == CentralDirectoryHeader::SIGNATURE@
            &&& field(bytes, start + 16, 4) == crc_32
            &&& field(bytes, start + 28, 2) == n
            &&& bytes.subrange(start + 44, start + 44 + n) == name
            &&& !large ==> {
                &&& field(bytes, start + 20, 4) == compressed_size
                &&& field(bytes, start + 24, 4) == uncompressed_size
                &&& field(bytes, start + 30, 2) == 0
                &&& field(bytes, start + 40, 4) == 0
                &&& bytes.len() == start + 44 + n + end_of_directory_length(start as u64)
            }
            &&& large ==> {
                &&& field(bytes, start + 20, 4) == 0xFFFF_FFFF
                &&& field(bytes, start + 24, 4) == 0xFFFF_FFFF
                &&& field(bytes, start + 30, 2) == 28
                &&& field(bytes, start + 40, 4) == 0xFFFF_FFFF
                &&& field(bytes, start + 44 + n, 2) == 1
                &&& field(bytes, start + 46 + n, 2) == 24
                &&& field(bytes, start + 48 + n, 8) == uncompressed_size
                &&& field(bytes, start + 56 + n, 8) == compressed_size
                &&& field(bytes, start + 64 + n, 8) == 0
                &&& bytes.len() == start + 44 + n + 28 + end_of_directory_length(start as u64)
            }
        }),
{
    let bytes = container(name, crc_32, uncompressed_size, compressed_size, stream);
    let start = directory_offset(name, stream) as u64;
    let n = name.len() as int;
    let length = central_directory_length(
        name.len(),
        compressed_size,
        uncompressed_size,
        LOCAL_HEADER_OFFSET,
    );
    let front = head(name, crc_32, uncompressed_size, compressed_size) + stream;
    let central = central_directory(
        name,
        crc_32,
        compressed_size,
        uncompressed_size,
        LOCAL_HEADER_OFFSET,
    );
    let ending = end_of_directory(start, length as u32);
    lemma_container_parts(name, crc_32, uncompressed_size, compressed_size, stream);
    lemma_central_directory_entry(name, crc_32, compressed_size, uncompressed_size, LOCAL_HEADER_OFFSET);
    assert(bytes =~= front + central + ending);
    lemma_field_of_part(front, central, ending, 0, 4);
    lemma_field_of_part(front, central, ending, 16, 4);
    lemma_field_of_part(front, central, ending, 28, 2);
    lemma_field_of_part(front, central, ending, 44, n);
    lemma_field_of_part(front, central, ending, 20, 4);
    lemma_field_of_part(front, central, ending, 24, 4);
    lemma_field_of_part(front, central, ending, 30, 2);
    lemma_field_of_part(front, central, ending, 40, 4);
    if compressed_size >= 0xFFFF_FFFF || uncompressed_size >= 0xFFFF_FFFF {
        lemma_central_directory_with_zip64(
            name,
            crc_32,
            compressed_size,
            uncompressed_size,
            LOCAL_HEADER_OFFSET,
        );
        lemma_field_of_part(front, central, ending, 44 + n, 2);
        lemma_field_of_part(front, central, ending, 46 + n, 2);
        lemma_field_of_part(front, central, ending, 48 + n, 8);
        lemma_field_of_part(front, central, ending, 56 + n, 8);
        lemma_field_of_part(front, central, ending, 64 + n, 8);
    } else {
        lemma_central_directory_without_zip64(
            name,
            crc_32,
            compressed_size,
            uncompressed_size,
            LOCAL_HEADER_OFFSET,
        );
    }
}

/// In a container whose directory starts at 2^32 - 1 or beyond, the locator
/// is right: the offset that it holds is the offset at which the ZIP64
/// end-of-directory record stands in the container, and that record holds
/// the offset and the length of the central directory as they are.
pub proof fn lemma_locator_finds_record(
    name: Seq<u8>,
    crc_32: u32,
    uncompressed_size: u64,
    compressed_size: u64,
    stream: Seq<u8>,
)
    requires
        name.len() <= MAX_NAME_LENGTH,
        directory_offset(name, stream) >= 0xFFFF_FFFF,
        directory_offset(name, stream) + central_directory_length(
            name.len(),
            compressed_size,
            uncompressed_size,
            LOCAL_HEADER_OFFSET,
        ) <= u64::MAX,
    ensures
        ({
            let bytes = container(name, crc_32, uncompressed_size, compressed_size, stream);
            let start = directory_offset(name, stream) as int;
            let record = start + central_directory_length(
                name.len(),
                compressed_size,
                uncompressed_size,
                LOCAL_HEADER_OFFSET,
            );
            let locator = record + 56;
            &&& bytes.len() == locator + 20 + 22
            &&& bytes.subrange(start, start + 4) == CentralDirectoryHeader::SIGNATURE@
            &&& bytes.subrange(record, record + 4) == Zip64EndOfCentralDirectoryRecord::SIGNATURE@
            &&& field(bytes, record + 40, 8) == record - start
            &&& field(bytes, record + 48, 8) == start
            &&& bytes.subrange(locator, locator + 4) == Zip64EndOfCentralDirectoryLocator::SIGNATURE@
            &&& field(bytes, locator + 8, 8) == record
        }),
{
    let bytes = container(name, crc_32, uncompressed_size, compressed_size, stream);
    let start = directory_offset(name, stream) as u64;
    let length = central_directory_length(
        name.len(),
        compressed_size,
        uncompressed_size,
        LOCAL_HEADER_OFFSET,
    );
    let front = head(name, crc_32, uncompressed_size, compressed_size) + stream;
    let central = central_directory(
        name,
        crc_32,
        compressed_size,
        uncompressed_size,
        LOCAL_HEADER_OFFSET,
    );
    let ending = end_of_directory(start, length as u32);
    let empty = Seq::<u8>::empty();
    lemma_container_parts(name, crc_32, uncompressed_size, compressed_size, stream);
    lemma_central_directory_entry(name, crc_32, compressed_size, uncompressed_size, LOCAL_HEADER_OFFSET);
    lemma_end_of_directory_with_zip64(start, length as u32);
    assert(bytes =~= front + central + ending);
    lemma_field_of_part(front, central, ending, 0, 4);
    assert(bytes =~= (front + central) + ending + empty);
    lemma_field_of_part(front + central, ending, empty, 0, 4);
    lemma_field_of_part(front + central, ending, empty, 40, 8);
    lemma_field_of_part(front + central, ending, empty, 48, 8);
    lemma_field_of_part(front + central, ending, empty, 56, 4);
    lemma_field_of_part(front + central, ending, empty, 64, 8);
}

/// Two containers that differ in nothing but the name of the entry differ
/// in nothing but the bytes of the name, which stand behind the local header
/// and behind the central directory header. This holds of names of one
/// length; the length of the name is itself a field of both headers, and
/// moves everything behind the name.
pub proof fn lemma_name_is_the_only_difference(
    first: Seq<u8>,
    second: Seq<u8>,
    crc_32: u32,
    uncompressed_size: u64,
    compressed_size: u64,
    stream: Seq<u8>,
)
    requires
        first.len() == second.len() <= MAX_NAME_LENGTH,
        directory_offset(first, stream) <= u64::MAX,
    ensures
        ({
            let one = container(first, crc_32, uncompressed_size, compressed_size, stream);
            let other = container(second, crc_32, uncompressed_size, compressed_size, stream);
            let n = first.len() as int;
            let directory = directory_offset(first, stream) as int;
            &&& one.len() == other.len()
            &&& forall|i: int|
                0 <= i < one.len() && !(30 <= i < 30 + n) && !(directory + 44 <= i < directory + 44 + n)
                    ==> one[i] == other[i]
            &&& one.subrange(30, 30 + n) == first
            &&& other.subrange(30, 30 + n) == second
            &&& one.subrange(directory + 44, directory + 44 + n) == first
            &&& other.subrange(directory + 44, directory + 44 + n) == second
        }),
{
    let one = container(first, crc_32, uncompressed_size, compressed_size, stream);
    let other = container(second, crc_32, uncompressed_size, compressed_size, stream);
    let n = first.len() as int;
    let start = directory_offset(first, stream) as u64;
    let length = central_directory_length(
        first.len(),
        compressed_size,
        uncompressed_size,
        LOCAL_HEADER_OFFSET,
    );
    let header = local_header(first.len() as u16, crc_32).encoding();
    let extra = local_extra_field(uncompressed_size, compressed_size).encoding(local_selection());
    let central = central_header(
        first.len() as u16,
        crc_32,
        compressed_size,
        uncompressed_size,
        LOCAL_HEADER_OFFSET,
    ).encoding();
    let central_extra = if needs_zip64(compressed_size, uncompressed_size, LOCAL_HEADER_OFFSET) {
        central_extra_field(compressed_size, uncompressed_size, LOCAL_HEADER_OFFSET).encoding(
            central_selection(),
        )
    } else {
        Seq::<u8>::empty()
    };
    let ending = end_of_directory(start, length as u32);
    local_header(first.len() as u16, crc_32).lemma_fields();
    lemma_local_extra_field(uncompressed_size, compressed_size);
    central_header(
        first.len() as u16,
        crc_32,
        compressed_size,
        uncompressed_size,
        LOCAL_HEADER_OFFSET,
    ).lemma_fields();
    assert(one =~= header + first + extra + stream + central + first + central_extra + ending);
    assert(other =~= header + second + extra + stream + central + second + central_extra + ending);
    assert(one.subrange(30, 30 + n) =~= first);
    assert(other.subrange(30, 30 + n) =~= second);
    assert(one.subrange(start + 44, start + 44 + n) =~= first);
    assert(other.subrange(start + 44, start + 44 + n) =~= second);
}

/// Encoding one payload under two names of one length comes to the same but
/// for the name. Both encodings fail, in the same way, or both succeed; and
/// then the two containers are of one length and differ in nothing but the
/// bytes of the name, behind the local header and behind the central
/// directory header. The container depends on the payload and on the name,
/// and on nothing else.
pub proof fn lemma_encoding_differs_in_the_name_only(first: Seq<u8>, second: Seq<u8>, payload: Seq<u8>)
    requires
        first.len() == second.len() <= MAX_NAME_LENGTH,
    ensures
        match stream_outcome(first.len(), payload) {
            Err(failure) => {
                &&& encode_outcome(first, payload) == Err::<Seq<u8>, Failure>(failure)
                &&& encode_outcome(second, payload) == Err::<Seq<u8>, Failure>(failure)
            },
            Ok((stream, _)) => {
                let n = first.len() as int;
                let directory = directory_offset(first, stream) as int;
                &&& encode_outcome(first, payload) matches Ok(one) && encode_outcome(
                    second,
                    payload,
                ) matches Ok(other) && {
                    &&& one.len() == other.len()
                    &&& forall|i: int|
                        0 <= i < one.len() && !(30 <= i < 30 + n) && !(directory + 44 <= i < directory
                            + 44 + n) ==> one[i] == other[i]
                    &&& one.subrange(30, 30 + n) == first
                    &&& other.subrange(30, 30 + n) == second
                    &&& one.subrange(directory + 44, directory + 44 + n) == first
                    &&& other.subrange(directory + 44, directory + 44 + n) == second
                }
            },
        },
{
    match stream_outcome(first.len(), payload) {
        Err(_) => {},
        Ok((stream, compressed_size)) => {
            lemma_name_is_the_only_difference(
                first,
                second,
                crc32::checksum(payload),
                payload.len() as u64,
                compressed_size,
                stream,
            );
        },
    }
}

} // verus!
