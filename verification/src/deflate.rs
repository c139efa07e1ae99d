//! The DEFLATE transform, which the `flate2` crate provides.
//!
//! Nothing in this file is proved: each function below makes one call into
//! flate2 or the standard library, and Verus takes its contract on trust.
//!
//! The compressor is a machine without chance: what a call returns, and
//! what the compressor is afterwards, depends on the compressor before the
//! call and on what it is given, and on nothing else. So each call has
//! names for both: `would_take` and `wrote` for a write, `flush_ok` and
//! `flushed` for a flush, `ended` for the end of the stream. What a
//! compressor counts has the names `taken_by` and `produced_by`, and what
//! stands in its sink the name `held`. What the compressed bytes are is
//! flate2's business: the library knows them by these names only.
//!
//! The decompressor provides the uncompressed data of the DEFLATE stream that
//! its source starts with. That data depends on the bytes of the source and
//! on nothing else, so it has a name, `inflated`; and what a decoder has yet
//! to provide has one, `rest_of`. The contracts say that a decoder provides
//! this data in order, in pieces of whatever size it is asked for, and fails
//! where there is no such data. That decompressing gives back what was
//! compressed is flate2's business.

use vstd::prelude::*;

verus! {

/// `std::io::Error`, the error of the transform. The library carries it and
/// never looks inside.
#[verifier::external_type_specification]
#[verifier::external_body]
pub struct ExIoError(std::io::Error);

/// `flate2::read::DeflateDecoder`, the streaming decompressor: it reads
/// compressed bytes from its source and yields the payload.
#[verifier::external_type_specification]
#[verifier::external_body]
#[verifier::reject_recursive_types(R)]
pub struct ExDeflateDecoder<R>(flate2::read::DeflateDecoder<R>);

/// The streaming compressor: a `flate2::write::DeflateEncoder` that writes
/// into a byte vector, its sink. The encoder's type is bounded by
/// `std::io::Write`, which Verus does not know, so it cannot be declared as
/// the decoder's is; this struct holds the one instance of it that the
/// library uses, and nothing else.
#[verifier::external_body]
pub struct Deflater {
    inner: flate2::write::DeflateEncoder<Vec<u8>>,
}

/// The compressor that `DeflateEncoder::new` makes for a sink that holds
/// `sink`, at the level `level`.
pub uninterp spec fn made(sink: Seq<u8>, level: u32) -> Deflater;

/// The number of bytes that a compressor has taken since it was made: the
/// count that flate2 keeps of its input.
pub uninterp spec fn taken_by(deflater: Deflater) -> nat;

/// The number of bytes that a compressor has produced since it was made:
/// the count that flate2 keeps of its output.
pub uninterp spec fn produced_by(deflater: Deflater) -> nat;

/// How many bytes from the front of `buf` a write takes; nothing, where the
/// write fails.
pub uninterp spec fn would_take(deflater: Deflater, buf: Seq<u8>) -> Option<nat>;

/// The compressor after a write of `buf`.
pub uninterp spec fn wrote(deflater: Deflater, buf: Seq<u8>) -> Deflater;

/// Whether a flush succeeds.
pub uninterp spec fn flush_ok(deflater: Deflater) -> bool;

/// The compressor after a flush.
pub uninterp spec fn flushed(deflater: Deflater) -> Deflater;

/// What the sink of a compressor holds: the compressed bytes that were
/// written out and not taken away since.
pub uninterp spec fn held(deflater: Deflater) -> Seq<u8>;

/// The compressor with `bytes` in its sink, in place of what the sink held.
pub uninterp spec fn with_sink(deflater: Deflater, bytes: Seq<u8>) -> Deflater;

/// What the sink holds once the stream is ended; nothing, where ending the
/// stream fails.
pub uninterp spec fn ended(deflater: Deflater) -> Option<Seq<u8>>;

/// `DeflateEncoder::new`, with a level made by `Compression::new`. The
/// levels run from 0 to 9; flate2 asserts that it is given none above 10.
/// The new compressor has taken nothing, and its sink holds what it held.
#[verifier::external_body]
pub(crate) fn deflater_new(sink: Vec<u8>, level: u32) -> (deflater: Deflater)
    requires
        level <= 9,
    ensures
        deflater == made(sink@, level),
        taken_by(deflater) == 0,
        held(deflater) == sink@,
{
    Deflater { inner: flate2::write::DeflateEncoder::new(sink, flate2::Compression::new(level)) }
}

/// `Write::write` of `DeflateEncoder`: hands the compressor bytes from the
/// front of `buf` and says how many it took, which is never more than there
/// are, as every `Write::write` promises. What it says is by how much the
/// compressor's count of its input has grown. It takes none only of an
/// empty buffer: flate2 repeats a write that took nothing for as long as the
/// stream has not ended. The count is kept in 64 bits, and the call is not
/// made where it could leave them.
#[verifier::external_body]
pub(crate) fn deflater_write(deflater: &mut Deflater, buf: &[u8]) -> (taken: Result<usize, std::io::Error>)
    requires
        taken_by(*old(deflater)) + buf@.len() <= u64::MAX,
    ensures
        *final(deflater) == wrote(*old(deflater), buf@),
        taken matches Ok(len) ==> would_take(*old(deflater), buf@) == Some(len as nat),
        taken is Err ==> would_take(*old(deflater), buf@) is None,
        taken matches Ok(len) ==> len <= buf@.len(),
        taken matches Ok(len) ==> (len == 0 ==> buf@.len() == 0),
        taken matches Ok(len) ==> taken_by(*final(deflater)) == taken_by(*old(deflater)) + len,
{
    std::io::Write::write(&mut deflater.inner, buf)
}

/// `Write::flush` of `DeflateEncoder`: makes the compressor write out what it
/// holds back. It is given no input, so the compressor takes none.
#[verifier::external_body]
pub(crate) fn deflater_flush(deflater: &mut Deflater) -> (done: Result<(), std::io::Error>)
    ensures
        *final(deflater) == flushed(*old(deflater)),
        done is Ok <==> flush_ok(*old(deflater)),
        taken_by(*final(deflater)) == taken_by(*old(deflater)),
{
    std::io::Write::flush(&mut deflater.inner)
}

/// `DeflateEncoder::total_in`: the compressor's own count of the bytes it
/// has taken.
#[verifier::external_body]
pub(crate) fn deflater_total_in(deflater: &Deflater) -> (count: u64)
    ensures
        count == taken_by(*deflater),
{
    deflater.inner.total_in()
}

/// `DeflateEncoder::total_out`: the compressor's own count of the bytes it
/// has produced.
#[verifier::external_body]
pub(crate) fn deflater_total_out(deflater: &Deflater) -> (count: u64)
    ensures
        count == produced_by(*deflater),
{
    deflater.inner.total_out()
}

/// `DeflateEncoder::get_mut`: the sink, which holds the compressed bytes
/// that were written out and not taken away since. flate2 allows its user to
/// take them out of the sink between two writes. The compressor is then as
/// it was, but for what its sink holds; it takes no input through its sink.
#[verifier::external_body]
pub(crate) fn deflater_sink(deflater: &mut Deflater) -> (sink: &mut Vec<u8>)
    ensures
        sink@ == held(*old(deflater)),
        *final(deflater) == with_sink(*old(deflater), final(sink)@),
        held(*final(deflater)) == final(sink)@,
        taken_by(*final(deflater)) == taken_by(*old(deflater)),
{
    deflater.inner.get_mut()
}

/// `DeflateEncoder::finish`: ends the compressed stream and gives the sink
/// back, with the last bytes of the stream in it.
#[verifier::external_body]
pub(crate) fn deflater_finish(deflater: Deflater) -> (sink: Result<Vec<u8>, std::io::Error>)
    ensures
        sink matches Ok(bytes) ==> ended(deflater) == Some(bytes@),
        sink is Err ==> ended(deflater) is None,
{
    deflater.inner.finish()
}

/// The uncompressed data of the DEFLATE stream that `source` starts with, as
/// flate2's decoder provides it when it is read to the end; nothing, where
/// reading to the end fails: `source` starts with no DEFLATE stream, or with
/// one that is cut short. Bytes behind the end of the stream have no part in
/// it.
pub uninterp spec fn inflated(source: Seq<u8>) -> Option<Seq<u8>>;

/// What a decoder has yet to provide: the data that reading it to the end
/// would append; nothing, where reading it to the end would fail.
pub uninterp spec fn rest_of(inflater: flate2::read::DeflateDecoder<&[u8]>) -> Option<Seq<u8>>;

/// `DeflateDecoder::new` of `flate2::read`, over bytes held in memory. The new
/// decoder has provided nothing yet: what it has to provide is the
/// uncompressed data of its source.
#[verifier::external_body]
pub(crate) fn inflater_new<'a>(source: &'a [u8]) -> (inflater: flate2::read::DeflateDecoder<&'a [u8]>)
    ensures
        rest_of(inflater) == inflated(source@),
{
    flate2::read::DeflateDecoder::new(source)
}

/// `Read::read` of `DeflateDecoder`: fills the front of `buf` with the next
/// bytes of the uncompressed data and says how many, which is never more
/// than `buf` holds, as every `Read::read` promises. The length of `buf`
/// stays. Of a decoder that has data to provide, the bytes are the front of
/// that data and the rest of it is still to come; none are filled in only
/// where `buf` is empty or the data has ended. A read fails only where
/// reading to the end would fail.
#[verifier::external_body]
pub(crate) fn inflater_read(inflater: &mut flate2::read::DeflateDecoder<&[u8]>, buf: &mut [u8]) -> (filled:
    Result<usize, std::io::Error>)
    ensures
        final(buf)@.len() == old(buf)@.len(),
        filled matches Ok(len) ==> len <= old(buf)@.len(),
        filled matches Ok(len) ==> (rest_of(*old(inflater)) matches Some(rest) ==> {
            &&& len <= rest.len()
            &&& len == 0 ==> old(buf)@.len() == 0 || rest.len() == 0
            &&& final(buf)@.subrange(0, len as int) == rest.subrange(0, len as int)
            &&& rest_of(*final(inflater)) == Some(rest.skip(len as int))
        }),
        filled is Err ==> rest_of(*old(inflater)) is None,
{
    std::io::Read::read(inflater, buf)
}

/// `Read::read_to_end` on a `DeflateDecoder`: appends what the decoder has
/// yet to provide to `out` and says how many bytes that were; nothing is
/// left to provide then. It fails where there is no such data. What `out`
/// held stays in front, also where the call fails.
#[verifier::external_body]
pub(crate) fn inflater_read_to_end(
    inflater: &mut flate2::read::DeflateDecoder<&[u8]>,
    out: &mut Vec<u8>,
) -> (appended: Result<usize, std::io::Error>)
    ensures
        old(out)@.len() <= final(out)@.len(),
        final(out)@.subrange(0, old(out)@.len() as int) == old(out)@,
        appended matches Ok(len) ==> final(out)@.len() == old(out)@.len() + len,
        appended is Ok ==> rest_of(*old(inflater)) == Some(final(out)@.skip(old(out)@.len() as int)),
        appended is Ok ==> rest_of(*final(inflater)) == Some(Seq::<u8>::empty()),
        appended is Err ==> rest_of(*old(inflater)) is None,
{
    std::io::Read::read_to_end(inflater, out)
}

/// `Path::file_stem`: the last component of the path without its extension,
/// or nothing where the path has no such component. Which characters part
/// the components depends on the platform, so nothing is claimed of the
/// result.
#[verifier::external_body]
pub(crate) fn file_stem(path: &str) -> (stem: Option<Vec<u8>>)
{
    match std::path::Path::new(path).file_stem() {
        Some(stem) => Some(stem.as_encoded_bytes().to_vec()),
        None => None,
    }
}

} // verus!
