//! The narrow decoder.
//!
//! It reads containers that this library's encoder wrote, and no others. It
//! takes the length of the name from the local header, skips what the encoder
//! always writes in front of the stream, and hands the rest to the
//! decompressor. It checks no signature and never looks at the directory: of
//! any other file it makes whatever the decompressor makes of the bytes it
//! lands on.

use vstd::prelude::*;
use crate::container::{container, lemma_head_len, stream_start, trailer, MAX_NAME_LENGTH};
use crate::deflate::{inflated, inflater_new, inflater_read, inflater_read_to_end, rest_of};
use crate::error::ZipError;
use crate::le::{le_bytes, le_value, lemma_le_bytes_len, lemma_le_value_u16, u16_from_le};

verus! {

broadcast use lemma_le_bytes_len;

/// Where the length of the name stands in the local header.
pub const NAME_LENGTH_OFFSET: usize = 26;

/// What stands between the length of the name and the stream, the name
/// aside: the two bytes of the extra field's length, and the extra field.
pub const AFTER_NAME_LENGTH: usize = 22;

/// Reads the 16-bit field that starts at the index `at`.
pub fn read_u16(bytes: &[u8], at: usize) -> (read: Result<u16, ZipError>)
    ensures
        match read {
            Ok(value) => at + 2 <= bytes@.len() && value as nat == le_value(
                bytes@.subrange(at as int, at + 2),
            ),
            Err(error) => error is UnexpectedEof && at + 2 > bytes@.len(),
        },
{
    if bytes.len() < 2 || at > bytes.len() - 2 {
        return Err(ZipError::UnexpectedEof);
    }
    let value = u16_from_le(bytes[at], bytes[at + 1]);
    assert(bytes@.subrange(at as int, at + 2) =~= seq![bytes@[at as int], bytes@[at + 1]]);
    Ok(value)
}

/// Finds where the stream starts in a container of which `front` is the
/// front: behind the local header, a name of the length that the header
/// states, and the header's extra field. Fails where `front` ends before
/// the length of the name.
pub fn stream_offset(front: &[u8]) -> (offset: Result<u64, ZipError>)
    ensures
        match offset {
            Ok(start) => {
                &&& front@.len() >= 28
                &&& start == stream_start(le_value(front@.subrange(26, 28)))
                &&& start <= stream_start(MAX_NAME_LENGTH as nat)
            },
            Err(error) => error is UnexpectedEof && front@.len() < 28,
        },
{
    let file_name_length = match read_u16(front, NAME_LENGTH_OFFSET) {
        Ok(length) => length,
        Err(error) => {
            return Err(error);
        },
    };
    Ok((NAME_LENGTH_OFFSET + 2 + AFTER_NAME_LENGTH) as u64 + file_name_length as u64)
}

/// The bytes that the decoder hands to the decompressor: those behind the
/// local header, a name of the length that the header states, and the
/// header's extra field; none, where the container ends before.
pub open spec fn payload_of(container: Seq<u8>) -> Seq<u8>
    recommends
        container.len() >= 28,
{
    let start = stream_start(le_value(container.subrange(26, 28)));
    if start <= container.len() {
        container.skip(start as int)
    } else {
        Seq::empty()
    }
}

/// In a container of this library the decoder lands on the first byte of the
/// compressed stream: the length that it reads is the name's, and what it
/// hands to the decompressor is the stream, followed by the directory.
pub proof fn lemma_decoder_finds_stream(
    name: Seq<u8>,
    crc_32: u32,
    uncompressed_size: u64,
    compressed_size: u64,
    stream: Seq<u8>,
)
    requires
        name.len() <= MAX_NAME_LENGTH,
    ensures
        ({
            let bytes = container(name, crc_32, uncompressed_size, compressed_size, stream);
            &&& bytes.len() >= 28
            &&& le_value(bytes.subrange(26, 28)) == name.len()
            &&& payload_of(bytes) == stream + trailer(
                name,
                crc_32,
                compressed_size,
                uncompressed_size,
                (stream_start(name.len()) + stream.len()) as u64,
            )
        }),
{
    let bytes = container(name, crc_32, uncompressed_size, compressed_size, stream);
    let directory = trailer(
        name,
        crc_32,
        compressed_size,
        uncompressed_size,
        (stream_start(name.len()) + stream.len()) as u64,
    );
    lemma_head_len(name, crc_32, uncompressed_size, compressed_size);
    assert(bytes.subrange(26, 28) =~= le_bytes(name.len(), 2));
    lemma_le_value_u16(name.len() as u16);
    assert(bytes.skip(stream_start(name.len()) as int) =~= stream + directory);
}

/// The decoder of one container that is held in memory.
pub struct Reader<'a> {
    deflate_reader: flate2::read::DeflateDecoder<&'a [u8]>,
    source: Ghost<Seq<u8>>,
}

impl<'a> Reader<'a> {
    /// The bytes that the decompressor was given.
    pub closed spec fn source(&self) -> Seq<u8> {
        self.source@
    }

    /// The payload that is still to be read; nothing, where reading to the
    /// end fails.
    pub closed spec fn rest(&self) -> Option<Seq<u8>> {
        rest_of(self.deflate_reader)
    }

    /// Opens a container: finds where its stream starts, and gives the
    /// decompressor what stands from there on. The whole payload is still
    /// to be read. Fails where the container ends before the length of the
    /// name.
    pub fn open(container: &'a [u8]) -> (opened: Result<Reader<'a>, ZipError>)
        ensures
            match opened {
                Ok(reader) => {
                    &&& container@.len() >= 28
                    &&& reader.source() == payload_of(container@)
                    &&& reader.rest() == inflated(payload_of(container@))
                },
                Err(error) => error is UnexpectedEof && container@.len() < 28,
            },
    {
        let start: usize = match stream_offset(container) {
            Ok(start) => start as usize,
            Err(error) => {
                return Err(error);
            },
        };
        let payload = if start <= container.len() {
            vstd::slice::slice_subrange(container, start, container.len())
        } else {
            vstd::slice::slice_subrange(container, 0, 0)
        };
        assert(payload@ =~= payload_of(container@));
        Ok(Reader { deflate_reader: inflater_new(payload), source: Ghost(payload@) })
    }

    /// Fills the front of `buf` with the next bytes of the payload and says
    /// how many; none, where the payload has ended or `buf` is empty. What
    /// follows them is still to be read. Fails only where reading to the
    /// end fails.
    pub fn read(&mut self, buf: &mut [u8]) -> (filled: Result<usize, ZipError>)
        ensures
            final(self).source() == old(self).source(),
            final(buf)@.len() == old(buf)@.len(),
            match filled {
                Ok(len) => len <= old(buf)@.len() && (old(self).rest() matches Some(rest) ==> {
                    &&& len <= rest.len()
                    &&& len == 0 ==> old(buf)@.len() == 0 || rest.len() == 0
                    &&& final(buf)@.subrange(0, len as int) == rest.subrange(0, len as int)
                    &&& final(self).rest() == Some(rest.skip(len as int))
                }),
                Err(error) => error is Io && old(self).rest() is None,
            },
    {
        ZipError::from_transform(inflater_read(&mut self.deflate_reader, buf))
    }

    /// Appends the rest of the payload to `out` and says how many bytes that
    /// were; nothing is left to read then. Fails where there is no such
    /// rest: the stream is no DEFLATE stream, or is cut short.
    pub fn read_to_end(&mut self, out: &mut Vec<u8>) -> (appended: Result<usize, ZipError>)
        ensures
            final(self).source() == old(self).source(),
            old(out)@.is_prefix_of(final(out)@),
            match appended {
                Ok(len) => {
                    &&& final(out)@.len() == old(out)@.len() + len
                    &&& old(self).rest() == Some(final(out)@.skip(old(out)@.len() as int))
                    &&& final(out)@ == old(out)@ + old(self).rest()->0
                    &&& final(self).rest() == Some(Seq::<u8>::empty())
                },
                Err(error) => error is Io && old(self).rest() is None,
            },
    {
        ZipError::from_transform(inflater_read_to_end(&mut self.deflate_reader, out))
    }
}

/// Decodes a container that is held in memory, in one call: opens it and
/// reads the payload to its end. The payload is the uncompressed data of the
/// stream that the decoder finds. Fails where the container ends before the
/// length of the name, and where there is no such data.
pub fn decode(container: &[u8]) -> (decoded: Result<Vec<u8>, ZipError>)
    ensures
        match decoded {
            Ok(payload) => container@.len() >= 28 && inflated(payload_of(container@)) == Some(payload@),
            Err(error) => if container@.len() < 28 {
                error is UnexpectedEof
            } else {
                error is Io && inflated(payload_of(container@)) is None
            },
        },
{
    let mut reader = match Reader::open(container) {
        Ok(reader) => reader,
        Err(error) => {
            return Err(error);
        },
    };
    let mut payload: Vec<u8> = Vec::new();
    match reader.read_to_end(&mut payload) {
        Ok(_) => Ok(payload),
        Err(error) => Err(error),
    }
}

} // verus!
