//! The streaming encoder.
//!
//! What the encoder does is stated twice: as functions of the transform and
//! of what it is given (`write_outcome`, `flush_outcome`,
//! `write_all_outcome`, `finish_outcome`, `stream_outcome`,
//! `encode_outcome`), and as the contracts of the executable functions,
//! which come to exactly what those say.
//!
//! A `Writer` is made for a name, takes the payload in pieces, and is
//! finished once. It produces the container as a sequence of bytes: first the
//! preamble, then the compressed stream as the transform writes it out. The
//! caller takes these bytes away as they come (`take_output`) and stores them
//! in order. What `finish` returns completes the container: the last bytes of
//! the stream, the three values to write over their placeholders in the
//! preamble, and the directory to append.

use vstd::prelude::*;
use crate::container::{central_directory_length, container, encode_preamble, encode_trailer,
    lemma_head_len, lemma_patched_preamble, patch_back, patched, preamble, stream_start, trailer,
    PatchOffsets, CENTRAL_EXTRA_FIELD_LENGTH, LOCAL_HEADER_OFFSET, MAX_NAME_LENGTH};
use crate::crc32;
use crate::deflate::{deflater_finish, deflater_flush, deflater_new, deflater_sink, deflater_total_in,
    deflater_total_out, deflater_write, ended, file_stem, flush_ok, flushed, held, made, produced_by,
    taken_by, with_sink, would_take, wrote, Deflater};
use crate::error::{Failure, ZipError};

verus! {

/// The compression level of the stream: the highest.
pub const COMPRESSION_LEVEL: u32 = 9;

/// What ending the stream adds to the number of bytes that the transform
/// counts as produced once it has been flushed: the two bytes of an empty
/// final block. This is how the compressor in use behaves; another one may
/// call for another number.
pub const STREAM_END_LENGTH: u64 = 2;

/// What a writer stands for.
pub struct WriterState {
    /// The name of the entry.
    pub name: Seq<u8>,
    /// The payload that the transform has taken so far.
    pub accepted: Seq<u8>,
    /// The compressed stream as far as the transform has written it out.
    pub stream: Seq<u8>,
    /// How many bytes of the container the caller has taken away.
    pub taken: nat,
}

impl WriterState {
    /// The state of a writer that has taken nothing and given nothing.
    pub open spec fn fresh(name: Seq<u8>) -> WriterState {
        WriterState { name, accepted: Seq::empty(), stream: Seq::empty(), taken: 0 }
    }

    /// The bytes of the container that exist so far.
    pub open spec fn produced(self) -> Seq<u8> {
        preamble(self.name) + self.stream
    }

    /// The bytes that exist and were not taken away yet.
    pub open spec fn pending(self) -> Seq<u8> {
        self.produced().skip(self.taken as int)
    }

    /// The name fits its length field, and no more was taken away than
    /// there was.
    pub open spec fn valid(self) -> bool {
        self.name.len() <= MAX_NAME_LENGTH && self.taken <= self.produced().len()
    }
}

/// The encoder of one container.
pub struct Writer {
    crc_32: u32,
    crc_table: crc32::Table,
    local_file_name: Vec<u8>,
    deflate_writer: Deflater,
    offsets: PatchOffsets,
    pending: Vec<u8>,
    position: u64,
    accepted: Ghost<Seq<u8>>,
    stream: Ghost<Seq<u8>>,
}

impl View for Writer {
    type V = WriterState;

    closed spec fn view(&self) -> WriterState {
        WriterState {
            name: self.local_file_name@,
            accepted: self.accepted@,
            stream: self.stream@,
            taken: (self.position - self.pending@.len()) as nat,
        }
    }
}

/// What a write of `buf` comes to, for a transform behind a writer that has
/// produced `position` bytes. The write is refused where the transform's
/// count of its input could leave 64 bits; it fails where the transform
/// does; and it is too large where what the transform wrote out would take
/// the container beyond 64 bits. Else it is the number of bytes that the
/// transform takes.
pub open spec fn write_outcome(transform: Deflater, position: nat, buf: Seq<u8>) -> Result<nat, Failure> {
    if taken_by(transform) + buf.len() > u64::MAX {
        Err(Failure::TooLarge)
    } else {
        match would_take(transform, buf) {
            None => Err(Failure::Io),
            Some(len) => if position + write_output(transform, buf).len() > u64::MAX {
                Err(Failure::TooLarge)
            } else {
                Ok(len)
            },
        }
    }
}

/// What the transform has written out once it was given `buf`.
pub open spec fn write_output(transform: Deflater, buf: Seq<u8>) -> Seq<u8> {
    held(wrote(transform, buf))
}

/// The transform after a write of `buf`: untouched where the write was
/// refused, and with its sink emptied where it took bytes.
pub open spec fn transform_after_write(transform: Deflater, buf: Seq<u8>) -> Deflater {
    if taken_by(transform) + buf.len() > u64::MAX {
        transform
    } else if would_take(transform, buf) is None {
        wrote(transform, buf)
    } else {
        with_sink(wrote(transform, buf), Seq::empty())
    }
}

/// What a flush comes to. It fails where the transform's flush does, and is
/// too large where what was written out would take the container beyond 64
/// bits.
pub open spec fn flush_outcome(transform: Deflater, position: nat) -> Result<(), Failure> {
    if !flush_ok(transform) {
        Err(Failure::Io)
    } else if position + held(flushed(transform)).len() > u64::MAX {
        Err(Failure::TooLarge)
    } else {
        Ok(())
    }
}

/// The transform after a flush, with its sink emptied where the flush went
/// well.
pub open spec fn transform_after_flush(transform: Deflater) -> Deflater {
    if flush_ok(transform) {
        with_sink(flushed(transform), Seq::empty())
    } else {
        flushed(transform)
    }
}

/// What writing all of `buf` comes to, write by write: the transform at the
/// end and all that it wrote out, or the failure of the first write that
/// fails. A transform that took nothing of a buffer that is not empty, or
/// more than there is, would count as failed; flate2's does neither.
pub open spec fn write_all_outcome(transform: Deflater, position: nat, buf: Seq<u8>) -> Result<
    (Deflater, Seq<u8>),
    Failure,
>
    decreases buf.len(),
{
    if buf.len() == 0 {
        Ok((transform, Seq::empty()))
    } else {
        match write_outcome(transform, position, buf) {
            Err(failure) => Err(failure),
            Ok(len) => if 0 < len <= buf.len() {
                let output = write_output(transform, buf);
                later_writes(
                    output,
                    write_all_outcome(
                        transform_after_write(transform, buf),
                        position + output.len(),
                        buf.skip(len as int),
                    ),
                )
            } else {
                Err(Failure::Io)
            },
        }
    }
}

/// What came of later writes, with the output of the writes before them in
/// front of theirs.
pub open spec fn later_writes(output: Seq<u8>, later: Result<(Deflater, Seq<u8>), Failure>) -> Result<
    (Deflater, Seq<u8>),
    Failure,
> {
    match later {
        Ok((transform, more)) => Ok((transform, output + more)),
        Err(failure) => Err(failure),
    }
}

/// What finishing comes to, for a transform behind a writer that has
/// produced `position` bytes for a name of `name_length` bytes: the last
/// bytes of the stream. It fails where the transform cannot be flushed or
/// ended, and is too large where the stream, its recorded length or the
/// central directory would leave 64 bits.
pub open spec fn finish_outcome(transform: Deflater, position: nat, name_length: nat) -> Result<
    Seq<u8>,
    Failure,
> {
    if !flush_ok(transform) {
        Err(Failure::Io)
    } else {
        match ended(flushed(transform)) {
            None => Err(Failure::Io),
            Some(rest) => if position + rest.len() <= u64::MAX && Finished::fits(
                name_length,
                taken_by(flushed(transform)) as u64,
                produced_by(flushed(transform)) as u64,
                (position + rest.len()) as u64,
            ) {
                Ok(rest)
            } else {
                Err(Failure::TooLarge)
            },
        }
    }
}

/// What compressing a payload comes to, for an entry whose name has
/// `name_length` bytes: the compressed stream and its recorded length, or
/// the failure. The payload is written to a new transform, which is then
/// flushed and ended. The name has no part in it but for its length, which
/// says where in the container the stream stands.
pub open spec fn stream_outcome(name_length: nat, payload: Seq<u8>) -> Result<(Seq<u8>, u64), Failure> {
    let start = stream_start(name_length);
    match write_all_outcome(made(Seq::empty(), COMPRESSION_LEVEL), start, payload) {
        Err(failure) => Err(failure),
        Ok((transform, output)) => match finish_outcome(transform, start + output.len(), name_length) {
            Err(failure) => Err(failure),
            Ok(rest) => Ok(
                (output + rest, (produced_by(flushed(transform)) + STREAM_END_LENGTH) as u64),
            ),
        },
    }
}

/// What encoding a payload under a name comes to: the container, or the
/// failure. The name is refused where its length field cannot say how long
/// it is. Else the container is that of the name, of the payload's checksum
/// and length, and of the stream that compressing the payload gives.
pub open spec fn encode_outcome(name: Seq<u8>, payload: Seq<u8>) -> Result<Seq<u8>, Failure> {
    if name.len() > MAX_NAME_LENGTH {
        Err(Failure::InvalidName)
    } else {
        match stream_outcome(name.len(), payload) {
            Err(failure) => Err(failure),
            Ok((stream, compressed_size)) => Ok(
                container(name, crc32::checksum(payload), payload.len() as u64, compressed_size, stream),
            ),
        }
    }
}

/// Later writes behind no output are the later writes.
pub proof fn lemma_later_writes_nothing(later: Result<(Deflater, Seq<u8>), Failure>)
    ensures
        later_writes(Seq::empty(), later) == later,
{
    match later {
        Ok((transform, more)) => {
            assert(Seq::<u8>::empty() + more =~= more);
        },
        Err(_) => {},
    }
}

/// Output in front of output in front of later writes is both outputs in
/// front of them.
pub proof fn lemma_later_writes_compose(
    first: Seq<u8>,
    second: Seq<u8>,
    later: Result<(Deflater, Seq<u8>), Failure>,
)
    ensures
        later_writes(first, later_writes(second, later)) == later_writes(first + second, later),
{
    match later {
        Ok((transform, more)) => {
            assert(first + (second + more) =~= (first + second) + more);
        },
        Err(_) => {},
    }
}

/// Moves what the transform has written out behind the pending bytes, and
/// counts it. Nothing moves where the count would leave 64 bits.
fn move_behind(pending: &mut Vec<u8>, position: &mut u64, written: &mut Vec<u8>) -> (fits: bool)
    ensures
        fits == (*old(position) + old(written)@.len() <= u64::MAX),
        fits ==> *final(position) == *old(position) + old(written)@.len(),
        fits ==> final(pending)@ == old(pending)@ + old(written)@,
        fits ==> final(written)@.len() == 0,
        !fits ==> *final(position) == *old(position),
        !fits ==> final(pending)@ == old(pending)@,
        !fits ==> final(written)@ == old(written)@,
{
    let length: u64 = written.len() as u64;
    if length > u64::MAX - *position {
        return false;
    }
    *position = *position + length;
    pending.append(written);
    true
}

impl Writer {
    /// What the fields of a writer have to do with what it stands for: the
    /// offsets are those of the name, the position counts what was
    /// produced, and the pending bytes are its end.
    pub closed spec fn holds(&self) -> bool {
        &&& self.offsets == PatchOffsets::of(self.local_file_name@.len())
        &&& self.position == self@.produced().len()
        &&& self.pending@.len() <= self.position
        &&& self.pending@ == self@.pending()
    }

    /// The invariant of a writer: its state is valid, and its running
    /// checksum is that of the payload taken so far.
    pub open spec fn wf(&self) -> bool {
        self@.valid() && self.holds() && self.crc_32() == crc32::checksum(self@.accepted)
    }

    /// Makes a writer for the entry that a path names: the name is the last
    /// component of the path without its extension.
    pub fn create(path: &str) -> (created: Result<Writer, ZipError>)
        ensures
            match created {
                Ok(writer) => {
                    &&& writer.wf()
                    &&& writer@ == WriterState::fresh(writer@.name)
                    &&& writer.transform() == made(Seq::empty(), COMPRESSION_LEVEL)
                    &&& writer.counted() == 0
                },
                Err(error) => error is InvalidName,
            },
    {
        Writer::from_stem(file_stem(path))
    }

    /// Makes a writer for the entry called `stem`. The preamble is its first
    /// pending output. There is no writer without a name, nor for a name
    /// that is longer than its length field can say.
    pub fn from_stem(stem: Option<Vec<u8>>) -> (created: Result<Writer, ZipError>)
        ensures
            match created {
                Ok(writer) => {
                    &&& stem matches Some(name) && name@.len() <= MAX_NAME_LENGTH && writer@
                        == WriterState::fresh(name@)
                    &&& writer.wf()
                    &&& writer.transform() == made(Seq::empty(), COMPRESSION_LEVEL)
                    &&& writer.counted() == 0
                },
                Err(error) => error is InvalidName && (stem matches Some(name) ==> name@.len()
                    > MAX_NAME_LENGTH),
            },
    {
        let local_file_name = match stem {
            None => {
                return Err(ZipError::InvalidName);
            },
            Some(s) => if s.len() > MAX_NAME_LENGTH {
                return Err(ZipError::InvalidName);
            } else {
                s
            },
        };
        let pending = encode_preamble(local_file_name.as_slice());
        let offsets = PatchOffsets::record(local_file_name.len() as u16);
        let position: u64 = pending.len() as u64;
        proof {
            crc32::lemma_checksum_of_empty();
            assert(preamble(local_file_name@).skip(0) =~= preamble(local_file_name@));
        }
        Ok(
            Writer {
                crc_32: 0,
                crc_table: crc32::Table::new(),
                local_file_name,
                deflate_writer: deflater_new(Vec::new(), COMPRESSION_LEVEL),
                offsets,
                pending,
                position,
                accepted: Ghost(Seq::empty()),
                stream: Ghost(Seq::empty()),
            },
        )
    }

    /// Takes away the bytes of the container that are pending. The caller
    /// stores them behind those taken before.
    pub fn take_output(&mut self) -> (bytes: Vec<u8>)
        requires
            old(self).wf(),
        ensures
            final(self).wf(),
            bytes@ == old(self)@.pending(),
            final(self)@ == (WriterState { taken: old(self)@.produced().len(), ..old(self)@ }),
            final(self).crc_32() == old(self).crc_32(),
            final(self).transform() == old(self).transform(),
    {
        let mut bytes: Vec<u8> = Vec::new();
        bytes.append(&mut self.pending);
        proof {
            let produced = self@.produced();
            assert(produced.skip(produced.len() as int) =~= Seq::<u8>::empty());
        }
        bytes
    }

    /// Collects what the transform has written out since the last call: the
    /// sink is emptied, and what it held joins the stream, unless the
    /// container would grow beyond what 64 bits can count.
    fn collect(&mut self) -> (collected: Result<(), ZipError>)
        requires
            old(self).wf(),
        ensures
            final(self).wf(),
            final(self).crc_32() == old(self).crc_32(),
            final(self).transform() == with_sink(old(self).transform(), Seq::empty()),
            final(self).counted() == old(self).counted(),
            match collected {
                Ok(()) => {
                    &&& old(self)@.produced().len() + held(old(self).transform()).len() <= u64::MAX
                    &&& final(self)@ == (WriterState {
                        stream: old(self)@.stream + held(old(self).transform()),
                        ..old(self)@
                    })
                },
                Err(error) => {
                    &&& error is TooLarge
                    &&& old(self)@.produced().len() + held(old(self).transform()).len() > u64::MAX
                    &&& final(self)@ == old(self)@
                },
            },
    {
        let mut written: Vec<u8> = Vec::new();
        std::mem::swap(&mut written, deflater_sink(&mut self.deflate_writer));
        self.absorb(written)
    }

    /// Hands the transform bytes from the front of `buf` and says how many
    /// it took: as many as `write_outcome` says, and none only of an empty
    /// buffer. The bytes taken join the payload, the checksum and the
    /// transform's count follow them, and what the transform wrote out joins
    /// the stream. The write fails as `write_outcome` says, and in no other
    /// case. Where it was refused or the transform failed, nothing has
    /// changed; where its output was too large, the bytes were taken and
    /// the stream is as it was.
    pub fn write(&mut self, buf: &[u8]) -> (written: Result<usize, ZipError>)
        requires
            old(self).wf(),
        ensures
            final(self).wf(),
            final(self).transform() == transform_after_write(old(self).transform(), buf@),
            final(self)@.name == old(self)@.name,
            final(self)@.taken == old(self)@.taken,
            match write_outcome(old(self).transform(), old(self)@.produced().len(), buf@) {
                Ok(len) => {
                    &&& written matches Ok(count) && count == len
                    &&& len <= buf@.len()
                    &&& len == 0 ==> buf@.len() == 0
                    &&& final(self)@ == (WriterState {
                        accepted: old(self)@.accepted + buf@.subrange(0, len as int),
                        stream: old(self)@.stream + write_output(old(self).transform(), buf@),
                        ..old(self)@
                    })
                    &&& final(self).counted() == old(self).counted() + len
                },
                Err(failure) => {
                    &&& written matches Err(error) && error.kind() == failure
                    &&& final(self)@.stream == old(self)@.stream
                    &&& failure is Io ==> final(self)@ == old(self)@
                    &&& failure is Io ==> final(self).crc_32() == old(self).crc_32()
                    &&& old(self).counted() + buf@.len() > u64::MAX ==> final(self)@ == old(self)@
                    &&& old(self).counted() + buf@.len() > u64::MAX ==> final(self).crc_32()
                        == old(self).crc_32()
                    &&& failure is TooLarge && old(self).counted() + buf@.len() <= u64::MAX ==> {
                        let len = would_take(old(self).transform(), buf@)->0;
                        &&& len <= buf@.len()
                        &&& final(self)@.accepted == old(self)@.accepted + buf@.subrange(0, len as int)
                        &&& final(self).counted() == old(self).counted() + len
                    }
                },
            },
    {
        let count = deflater_total_in(&self.deflate_writer);
        if buf.len() as u64 > u64::MAX - count {
            return Err(ZipError::TooLarge);
        }
        let len = match ZipError::from_transform(deflater_write(&mut self.deflate_writer, buf)) {
            Ok(len) => len,
            Err(error) => {
                return Err(error);
            },
        };
        self.accept(buf, len);
        match self.collect() {
            Ok(()) => Ok(len),
            Err(error) => Err(error),
        }
    }

    /// Makes the transform write out what it holds back: what it writes out
    /// joins the stream. The flush fails as `flush_outcome` says, and in no
    /// other case; then the writer stands for what it stood for before.
    pub fn flush(&mut self) -> (done: Result<(), ZipError>)
        requires
            old(self).wf(),
        ensures
            final(self).wf(),
            final(self).transform() == transform_after_flush(old(self).transform()),
            final(self).crc_32() == old(self).crc_32(),
            final(self).counted() == old(self).counted(),
            match flush_outcome(old(self).transform(), old(self)@.produced().len()) {
                Ok(()) => done is Ok && final(self)@ == (WriterState {
                    stream: old(self)@.stream + held(flushed(old(self).transform())),
                    ..old(self)@
                }),
                Err(failure) => {
                    &&& done matches Err(error) && error.kind() == failure
                    &&& final(self)@ == old(self)@
                },
            },
    {
        match ZipError::from_transform(deflater_flush(&mut self.deflate_writer)) {
            Ok(()) => self.collect(),
            Err(error) => Err(error),
        }
    }

    /// Hands the transform all of `buf`, in as many writes as it takes. All
    /// of `buf` joins the payload, and what the transform wrote out joins
    /// the stream. Fails where one of the writes does, as `write_all_outcome`
    /// says, and in no other case.
    pub fn write_all(&mut self, buf: &[u8]) -> (written: Result<(), ZipError>)
        requires
            old(self).wf(),
        ensures
            final(self).wf(),
            final(self)@.name == old(self)@.name,
            final(self)@.taken == old(self)@.taken,
            old(self)@.stream.is_prefix_of(final(self)@.stream),
            old(self)@.accepted.is_prefix_of(final(self)@.accepted),
            match write_all_outcome(old(self).transform(), old(self)@.produced().len(), buf@) {
                Ok((transform, output)) => {
                    &&& written is Ok
                    &&& final(self).transform() == transform
                    &&& final(self)@ == (WriterState {
                        accepted: old(self)@.accepted + buf@,
                        stream: old(self)@.stream + output,
                        ..old(self)@
                    })
                    &&& final(self).counted() == old(self).counted() + buf@.len()
                },
                Err(failure) => written matches Err(error) && error.kind() == failure,
            },
    {
        let mut done: usize = 0;
        let ghost mut output = Seq::<u8>::empty();
        proof {
            lemma_later_writes_nothing(
                write_all_outcome(self.transform(), self@.produced().len(), buf@.skip(0)),
            );
            assert(buf@.skip(0) =~= buf@);
            assert(self@.stream + output =~= self@.stream);
        }
        while done < buf.len()
            invariant
                done <= buf@.len(),
                self.wf(),
                self@.name == old(self)@.name,
                self@.taken == old(self)@.taken,
                self@.stream == old(self)@.stream + output,
                self@.accepted == old(self)@.accepted + buf@.subrange(0, done as int),
                self.counted() == old(self).counted() + done,
                write_all_outcome(old(self).transform(), old(self)@.produced().len(), buf@)
                    == later_writes(
                    output,
                    write_all_outcome(self.transform(), self@.produced().len(), buf@.skip(done as int)),
                ),
            decreases buf@.len() - done,
        {
            let ghost before = self@;
            let ghost transform = self.transform();
            let rest = vstd::slice::slice_subrange(buf, done, buf.len());
            assert(rest@ =~= buf@.skip(done as int));
            match self.write(rest) {
                Ok(len) => {
                    proof {
                        let more = write_output(transform, rest@);
                        let later = write_all_outcome(
                            self.transform(),
                            self@.produced().len(),
                            rest@.skip(len as int),
                        );
                        assert(rest@.skip(len as int) =~= buf@.skip(done + len));
                        assert(self@.produced().len() == before.produced().len() + more.len());
                        lemma_later_writes_compose(output, more, later);
                        assert(before.accepted + rest@.subrange(0, len as int) =~= old(self)@.accepted
                            + buf@.subrange(0, done + len));
                        assert(before.stream + more =~= old(self)@.stream + (output + more));
                        output = output + more;
                    }
                    done += len;
                },
                Err(error) => {
                    return Err(error);
                },
            }
        }
        proof {
            assert(buf@.subrange(0, done as int) =~= buf@);
            assert(output + Seq::<u8>::empty() =~= output);
        }
        Ok(())
    }

    /// Ends the stream and concludes the container. The transform is
    /// flushed and ended, and the last bytes of its stream stand at the end
    /// of the tail. The sizes are those that the transform counted: the
    /// bytes it took, and the bytes it had produced when it was flushed plus
    /// those that ending the stream adds. The first is the length of the
    /// payload, for a writer that is in step with its transform. That the
    /// second is the length of the stream is the transform's word, and no
    /// statement of this library. The directory stands where the stream
    /// ends, as the library counts it. Fails as `finish_outcome` says, and
    /// in no other case.
    pub fn finish(self) -> (finished: Result<Finished, ZipError>)
        requires
            self.wf(),
        ensures
            match finish_outcome(self.transform(), self@.produced().len(), self@.name.len()) {
                Ok(rest) => {
                    &&& finished matches Ok(end) && {
                        &&& end.concludes(self@)
                        &&& end.tail@ == self@.pending() + rest
                        &&& end.uncompressed_size == self.counted()
                        &&& end.compressed_size == produced_by(flushed(self.transform()))
                            + STREAM_END_LENGTH
                        &&& self.in_step() ==> end.uncompressed_size == self@.accepted.len()
                    }
                },
                Err(failure) => finished matches Err(error) && error.kind() == failure,
            },
    {
        let Writer { crc_32, local_file_name, mut deflate_writer, offsets, mut pending, mut position, .. } =
            self;
        match ZipError::from_transform(deflater_flush(&mut deflate_writer)) {
            Ok(()) => {},
            Err(error) => {
                return Err(error);
            },
        }
        let uncompressed_size = deflater_total_in(&deflate_writer);
        let flushed_size = deflater_total_out(&deflate_writer);
        let mut rest = match ZipError::from_transform(deflater_finish(deflate_writer)) {
            Ok(sink) => sink,
            Err(error) => {
                return Err(error);
            },
        };
        if !move_behind(&mut pending, &mut position, &mut rest) {
            return Err(ZipError::TooLarge);
        }
        Finished::new(
            local_file_name.as_slice(),
            offsets,
            crc_32,
            uncompressed_size,
            flushed_size,
            position,
            pending,
        )
    }

    /// The running checksum.
    pub closed spec fn crc_32(&self) -> u32 {
        self.crc_32
    }

    /// The transform of the writer.
    pub closed spec fn transform(&self) -> Deflater {
        self.deflate_writer
    }

    /// The number of bytes that the transform counts as taken.
    pub open spec fn counted(&self) -> nat {
        taken_by(self.transform())
    }

    /// Whether the writer is in step with its transform: the transform
    /// counts as taken what the writer has recorded as taken. A writer
    /// stays in step as long as `accept` is left to `write`, and the
    /// transform does not fail.
    pub open spec fn in_step(&self) -> bool {
        self.counted() == self@.accepted.len()
    }

    /// Records that the transform took the first `len` bytes of `buf`: they
    /// join the payload taken so far, and the running checksum is continued
    /// over them. Nothing else changes.
    pub fn accept(&mut self, buf: &[u8], len: usize)
        requires
            old(self).wf(),
            len <= buf@.len(),
        ensures
            final(self).wf(),
            final(self)@ == (WriterState {
                accepted: old(self)@.accepted + buf@.subrange(0, len as int),
                ..old(self)@
            }),
            final(self).crc_32() == crc32::resume(old(self).crc_32(), buf@.subrange(0, len as int)),
            final(self).transform() == old(self).transform(),
    {
        self.crc_32 = self.crc_table.run(self.crc_32, vstd::slice::slice_subrange(buf, 0, len));
        proof {
            crc32::lemma_resume_extends(self.accepted@, buf@.subrange(0, len as int));
        }
        self.accepted = Ghost(self.accepted@ + buf@.subrange(0, len as int));
    }

    /// Takes in bytes that the transform has written out: they join the
    /// compressed stream and the pending output. Nothing is taken in where
    /// the container would grow beyond what 64 bits can count.
    pub fn absorb(&mut self, written: Vec<u8>) -> (absorbed: Result<(), ZipError>)
        requires
            old(self).wf(),
        ensures
            final(self).wf(),
            final(self).crc_32() == old(self).crc_32(),
            final(self).transform() == old(self).transform(),
            match absorbed {
                Ok(()) => {
                    &&& old(self)@.produced().len() + written@.len() <= u64::MAX
                    &&& final(self)@ == (WriterState {
                        stream: old(self)@.stream + written@,
                        ..old(self)@
                    })
                },
                Err(error) => {
                    &&& error is TooLarge
                    &&& old(self)@.produced().len() + written@.len() > u64::MAX
                    &&& final(self)@ == old(self)@
                },
            },
    {
        let mut bytes = written;
        if move_behind(&mut self.pending, &mut self.position, &mut bytes) {
            self.stream = Ghost(self.stream@ + written@);
            proof {
                let before = old(self)@;
                let after = self@;
                assert(after.produced() =~= before.produced() + written@);
                assert(after.pending() =~= before.pending() + written@);
            }
            Ok(())
        } else {
            Err(ZipError::TooLarge)
        }
    }
}

/// What completes a container once its stream has ended.
pub struct Finished {
    /// The checksum of the payload.
    pub crc_32: u32,
    /// The length of the payload.
    pub uncompressed_size: u64,
    /// The length of the compressed stream.
    pub compressed_size: u64,
    /// Where the three values above are written over their placeholders.
    pub offsets: PatchOffsets,
    /// Where the stream ends and the directory starts.
    pub directory_offset: u64,
    /// The bytes in front of the directory that the caller has not taken
    /// yet.
    pub tail: Vec<u8>,
    /// The directory, to be stored at `directory_offset`.
    pub trailer: Vec<u8>,
}

impl Finished {
    /// Whether a container can be concluded: the compressed size and the
    /// offset at which the central directory ends both fit in 64 bits.
    pub open spec fn fits(
        name_length: nat,
        uncompressed_size: u64,
        flushed_size: u64,
        directory_offset: u64,
    ) -> bool {
        &&& flushed_size + STREAM_END_LENGTH <= u64::MAX
        &&& directory_offset + central_directory_length(
            name_length,
            (flushed_size + STREAM_END_LENGTH) as u64,
            uncompressed_size,
            LOCAL_HEADER_OFFSET,
        ) <= u64::MAX
    }

    /// Whether this is the end of the container that `state` stands for:
    /// the checksum is that of the payload, the offsets are those of the
    /// name, the tail continues what was pending, the directory starts where
    /// the tail ends and its central part ends within 64 bits, and the
    /// trailer is the directory of this entry at that offset, for the sizes
    /// that are recorded here.
    pub open spec fn concludes(&self, state: WriterState) -> bool {
        &&& self.crc_32 == crc32::checksum(state.accepted)
        &&& self.offsets == PatchOffsets::of(state.name.len())
        &&& state.pending().is_prefix_of(self.tail@)
        &&& self.directory_offset == state.taken + self.tail@.len()
        &&& self.directory_offset + central_directory_length(
            state.name.len(),
            self.compressed_size,
            self.uncompressed_size,
            LOCAL_HEADER_OFFSET,
        ) <= u64::MAX
        &&& self.trailer@ == trailer(
            state.name,
            self.crc_32,
            self.compressed_size,
            self.uncompressed_size,
            self.directory_offset,
        )
    }

    /// Whether the tail is the whole of what stands in front of the
    /// directory, so that the container can be completed in memory.
    pub open spec fn is_whole(&self) -> bool {
        self.tail@.len() == self.directory_offset && self.offsets.within(self.tail@.len())
    }

    /// Concludes a container from what is known when its stream has ended:
    /// the name, the offsets recorded for it, the checksum, the two counts
    /// of the transform, the offset at which the stream ends, and the bytes
    /// not taken yet. The compressed size is the count of the flushed stream
    /// plus the two bytes that ending it adds. Fails where that size, or the
    /// offset at which the central directory ends, does not fit in 64 bits.
    pub fn new(
        name: &[u8],
        offsets: PatchOffsets,
        crc_32: u32,
        uncompressed_size: u64,
        flushed_size: u64,
        directory_offset: u64,
        tail: Vec<u8>,
    ) -> (concluded: Result<Finished, ZipError>)
        requires
            name@.len() <= MAX_NAME_LENGTH,
        ensures
            match concluded {
                Ok(end) => {
                    &&& Self::fits(name@.len(), uncompressed_size, flushed_size, directory_offset)
                    &&& end.crc_32 == crc_32
                    &&& end.uncompressed_size == uncompressed_size
                    &&& end.compressed_size == flushed_size + STREAM_END_LENGTH
                    &&& end.offsets == offsets
                    &&& end.directory_offset == directory_offset
                    &&& end.tail@ == tail@
                    &&& end.trailer@ == trailer(
                        name@,
                        crc_32,
                        end.compressed_size,
                        uncompressed_size,
                        directory_offset,
                    )
                },
                Err(error) => error is TooLarge && !Self::fits(
                    name@.len(),
                    uncompressed_size,
                    flushed_size,
                    directory_offset,
                ),
            },
    {
        if flushed_size > u64::MAX - STREAM_END_LENGTH {
            return Err(ZipError::TooLarge);
        }
        let compressed_size: u64 = flushed_size + STREAM_END_LENGTH;
        let use_zip64 = compressed_size >= u32::MAX as u64 || uncompressed_size >= u32::MAX as u64
            || LOCAL_HEADER_OFFSET >= u32::MAX as u64;
        let directory_length: u64 = 44 + name.len() as u64 + if use_zip64 {
            CENTRAL_EXTRA_FIELD_LENGTH as u64
        } else {
            0
        };
        if directory_length > u64::MAX - directory_offset {
            return Err(ZipError::TooLarge);
        }
        let trailer = encode_trailer(name, crc_32, compressed_size, uncompressed_size, directory_offset);
        Ok(Finished { crc_32, uncompressed_size, compressed_size, offsets, directory_offset, tail, trailer })
    }

    /// Completes the container in memory, where nothing of it was taken
    /// away before: writes the three values over their placeholders in the
    /// tail and appends the directory.
    pub fn into_container(self) -> (completed: Option<Vec<u8>>)
        ensures
            match completed {
                Some(bytes) => self.is_whole() && bytes@ == patched(
                    self.tail@,
                    self.offsets,
                    self.crc_32,
                    self.uncompressed_size,
                    self.compressed_size,
                ) + self.trailer@,
                None => !self.is_whole(),
            },
    {
        let Finished {
            crc_32,
            uncompressed_size,
            compressed_size,
            offsets,
            directory_offset,
            tail: mut bytes,
            mut trailer,
        } = self;
        if bytes.len() as u64 != directory_offset {
            return None;
        }
        if !patch_back(&mut bytes, offsets, crc_32, uncompressed_size, compressed_size) {
            return None;
        }
        bytes.append(&mut trailer);
        Some(bytes)
    }
}

/// The caller's bytes make the container. Let the caller have stored what it
/// took from the writer, in order, and then the tail. What it holds is the
/// preamble and the whole compressed stream, the directory starts where that
/// ends and its central part ends within 64 bits, and the three offsets lie
/// in it. Once the three values are written at their offsets and the trailer
/// is appended, it holds the container of the name, the checksum of the
/// payload, the recorded sizes and the stream.
pub proof fn lemma_completed_container(state: WriterState, end: Finished)
    requires
        state.valid(),
        end.concludes(state),
    ensures
        ({
            let stored = state.produced().take(state.taken as int) + end.tail@;
            let stream = stored.skip(stream_start(state.name.len()) as int);
            &&& stored == preamble(state.name) + stream
            &&& state.stream.is_prefix_of(stream)
            &&& end.directory_offset == stored.len()
            &&& stored.len() + central_directory_length(
                state.name.len(),
                end.compressed_size,
                end.uncompressed_size,
                LOCAL_HEADER_OFFSET,
            ) <= u64::MAX
            &&& end.offsets.within(stored.len())
            &&& patched(
                stored,
                end.offsets,
                end.crc_32,
                end.uncompressed_size,
                end.compressed_size,
            ) + end.trailer@ == container(
                state.name,
                crc32::checksum(state.accepted),
                end.uncompressed_size,
                end.compressed_size,
                stream,
            )
        }),
{
    let name = state.name;
    let produced = state.produced();
    let stored = produced.take(state.taken as int) + end.tail@;
    let stream = stored.skip(stream_start(name.len()) as int);
    lemma_head_len(name, 0, 0, 0);
    assert(produced.take(state.taken as int) + state.pending() =~= produced);
    assert(produced.is_prefix_of(stored));
    assert forall|i: int| 0 <= i < produced.len() implies stored[i] == produced[i] by {
        assert(stored.subrange(0, produced.len() as int)[i] == stored[i]);
    }
    assert(stored =~= preamble(name) + stream);
    assert(state.stream =~= stream.subrange(0, state.stream.len() as int));
    lemma_patched_preamble(name, stream, end.crc_32, end.uncompressed_size, end.compressed_size);
}

/// Encodes a payload that is held in memory, in one call: makes a writer
/// for `name`, hands it the payload, finishes it and completes the container
/// in memory. The result is the container of the name, of the payload's
/// checksum and of the payload's length, for the stream that the transform
/// wrote and the length that it counted for it. Fails as `encode_outcome`
/// says, and in no other case.
pub fn encode(name: &[u8], payload: &[u8]) -> (encoded: Result<Vec<u8>, ZipError>)
    ensures
        match encode_outcome(name@, payload@) {
            Ok(container) => encoded matches Ok(bytes) && bytes@ == container,
            Err(failure) => encoded matches Err(error) && error.kind() == failure,
        },
{
    let mut writer = match Writer::from_stem(Some(vstd::slice::slice_to_vec(name))) {
        Ok(writer) => writer,
        Err(error) => {
            return Err(error);
        },
    };
    let ghost start = stream_start(name@.len());
    let ghost first = writer.transform();
    proof {
        lemma_head_len(name@, 0, 0, 0);
        assert(writer@.produced() =~= preamble(name@));
    }
    match writer.write_all(payload) {
        Ok(()) => {},
        Err(error) => {
            return Err(error);
        },
    }
    let ghost state = writer@;
    let ghost last = writer.transform();
    let ghost output = write_all_outcome(first, start, payload@)->Ok_0.1;
    proof {
        assert(state.accepted =~= payload@);
        assert(state.stream =~= output);
        assert(writer.in_step());
    }
    let end = match writer.finish() {
        Ok(end) => end,
        Err(error) => {
            return Err(error);
        },
    };
    let ghost rest = finish_outcome(last, start + output.len(), name@.len())->Ok_0;
    proof {
        assert(state.produced().take(0) + end.tail@ =~= end.tail@);
        assert(state.pending() =~= state.produced());
        lemma_completed_container(state, end);
        assert(end.tail@.skip(start as int) =~= output + rest);
        assert(end.uncompressed_size == payload@.len() as u64);
    }
    // nothing was taken from the writer, so the tail is whole
    match end.into_container() {
        Some(bytes) => Ok(bytes),
        None => vstd::pervasive::unreached(),
    }
}

} // verus!
