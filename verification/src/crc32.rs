//! The CRC-32 checksum of ZIP: reflected polynomial 0xEDB88320, register
//! preset to all ones, result complemented.
//!
//! `checksum` defines the checksum of a byte string bit by bit. `run` is the
//! incremental accumulator: it takes the checksum of what came before and the
//! next bytes, and returns the checksum of both together. It works bit by
//! bit, as the definition does. A `Table` does the same a byte at a time.

use vstd::prelude::*;

verus! {

/// The generator polynomial, least significant bit first.
pub const POLYNOMIAL: u32 = 0xEDB8_8320;

/// One division step: the register moves right by one bit, and the polynomial
/// is subtracted where a one fell out.
pub open spec fn shift(register: u32) -> u32 {
    if register & 1 == 1 {
        (register >> 1) ^ POLYNOMIAL
    } else {
        register >> 1
    }
}

/// The register after one more byte.
pub open spec fn feed(register: u32, byte: u8) -> u32 {
    shift(shift(shift(shift(shift(shift(shift(shift(register ^ (byte as u32)))))))))
}

/// The register after `bytes`, started from `register`.
pub open spec fn fold(register: u32, bytes: Seq<u8>) -> u32
    decreases bytes.len(),
{
    if bytes.len() == 0 {
        register
    } else {
        feed(fold(register, bytes.drop_last()), bytes.last())
    }
}

/// The CRC-32 of `bytes`.
pub open spec fn checksum(bytes: Seq<u8>) -> u32 {
    fold(0xFFFF_FFFF, bytes) ^ 0xFFFF_FFFF
}

/// The checksum that `run` returns: that of a stream whose checksum so far is
/// `crc`, after `bytes` more.
pub open spec fn resume(crc: u32, bytes: Seq<u8>) -> u32 {
    fold(crc ^ 0xFFFF_FFFF, bytes) ^ 0xFFFF_FFFF
}

/// Folding over a concatenation is folding over its parts in turn.
pub proof fn lemma_fold_concat(register: u32, first: Seq<u8>, second: Seq<u8>)
    ensures
        fold(register, first + second) == fold(fold(register, first), second),
    decreases second.len(),
{
    if second.len() == 0 {
        assert(first + second =~= first);
    } else {
        lemma_fold_concat(register, first, second.drop_last());
        assert((first + second).drop_last() =~= first + second.drop_last());
    }
}

/// The checksum of nothing is zero.
pub proof fn lemma_checksum_of_empty()
    ensures
        checksum(Seq::<u8>::empty()) == 0,
        resume(0, Seq::<u8>::empty()) == 0,
{
    assert(0xFFFF_FFFFu32 ^ 0xFFFF_FFFF == 0) by (bit_vector);
    assert(0u32 ^ 0xFFFF_FFFF == 0xFFFF_FFFF) by (bit_vector);
}

/// The accumulator started at zero computes the checksum.
pub proof fn lemma_resume_from_zero(bytes: Seq<u8>)
    ensures
        resume(0, bytes) == checksum(bytes),
{
    assert(0u32 ^ 0xFFFF_FFFF == 0xFFFF_FFFF) by (bit_vector);
}

/// Continuing twice is continuing once with both pieces.
pub proof fn lemma_resume_concat(crc: u32, first: Seq<u8>, second: Seq<u8>)
    ensures
        resume(resume(crc, first), second) == resume(crc, first + second),
{
    let register = fold(crc ^ 0xFFFF_FFFF, first);
    assert((register ^ 0xFFFF_FFFF) ^ 0xFFFF_FFFF == register) by (bit_vector);
    lemma_fold_concat(crc ^ 0xFFFF_FFFF, first, second);
}

/// Accumulating in pieces gives the checksum of the whole: continuing from
/// the checksum of `seen` with `next` gives the checksum of `seen + next`.
pub proof fn lemma_resume_extends(seen: Seq<u8>, next: Seq<u8>)
    ensures
        resume(checksum(seen), next) == checksum(seen + next),
{
    let register = fold(0xFFFF_FFFF, seen);
    assert((register ^ 0xFFFF_FFFF) ^ 0xFFFF_FFFF == register) by (bit_vector);
    lemma_fold_concat(0xFFFF_FFFF, seen, next);
}

/// One division step on the register.
fn shift_once(register: u32) -> (next: u32)
    ensures
        next == shift(register),
{
    if register & 1 == 1 {
        (register >> 1) ^ POLYNOMIAL
    } else {
        register >> 1
    }
}

/// The register after one more byte.
fn feed_byte(register: u32, byte: u8) -> (next: u32)
    ensures
        next == feed(register, byte),
{
    let r0: u32 = register ^ (byte as u32);
    let r1: u32 = shift_once(r0);
    let r2: u32 = shift_once(r1);
    let r3: u32 = shift_once(r2);
    let r4: u32 = shift_once(r3);
    let r5: u32 = shift_once(r4);
    let r6: u32 = shift_once(r5);
    let r7: u32 = shift_once(r6);
    shift_once(r7)
}

/// Continues a checksum: `crc` is the CRC-32 of the bytes seen so far (zero
/// where there are none), the result that of those bytes followed by `bytes`.
pub fn run(crc: u32, bytes: &[u8]) -> (next: u32)
    ensures
        next == resume(crc, bytes@),
{
    let mut register: u32 = crc ^ 0xFFFF_FFFF;
    let mut i: usize = 0;
    while i < bytes.len()
        invariant
            i <= bytes@.len(),
            register == fold(crc ^ 0xFFFF_FFFF, bytes@.subrange(0, i as int)),
        decreases bytes@.len() - i,
    {
        register = feed_byte(register, bytes[i]);
        proof {
            let upto = bytes@.subrange(0, i as int + 1);
            assert(upto.drop_last() =~= bytes@.subrange(0, i as int));
        }
        i += 1;
    }
    assert(bytes@.subrange(0, i as int) =~= bytes@);
    register ^ 0xFFFF_FFFF
}

/// A byte can be fed by a look-up. The register after a byte is the register
/// moved right by eight bits, with the polynomial subtracted as the eight bits
/// that fell out call for; and what they call for is what a register of
/// these eight bits alone becomes.
pub proof fn lemma_feed_by_index(register: u32, byte: u8)
    ensures
        feed(register, byte) == (register >> 8) ^ feed(0, ((register ^ (byte as u32)) & 0xff) as u8),
{
    let x: u32 = register ^ (byte as u32);
    let low: u8 = (x & 0xff) as u8;
    assert(shift(shift(shift(shift(shift(shift(shift(shift(x)))))))) == (x >> 8) ^ shift(
        shift(shift(shift(shift(shift(shift(shift(x & 0xff))))))),
    )) by (bit_vector);
    assert(0u32 ^ (low as u32) == x & 0xff) by (bit_vector)
        requires
            low == (x & 0xff) as u8,
    ;
    assert(x >> 8 == register >> 8) by (bit_vector)
        requires
            x == register ^ (byte as u32),
    ;
}

/// The registers that the 256 bytes make of an empty register, for feeding
/// a byte by one look-up.
pub struct Table {
    entries: [u32; 256],
}

impl Table {
    /// The entry for a byte.
    pub closed spec fn entry(&self, byte: u8) -> u32 {
        self.entries@[byte as int]
    }

    #[verifier::type_invariant]
    closed spec fn holds(&self) -> bool {
        forall|byte: u8| self.entry(byte) == feed(0, byte)
    }

    /// Computes the table: the entry for a byte is the register that the
    /// byte makes of an empty one.
    pub fn new() -> (table: Table)
        ensures
            forall|byte: u8| table.entry(byte) == feed(0, byte),
    {
        let mut entries = [0u32; 256];
        let mut i: usize = 0;
        while i < 256
            invariant
                i <= 256,
                forall|byte: u8| byte < i ==> entries@[byte as int] == feed(0, byte),
            decreases 256 - i,
        {
            entries[i] = feed_byte(0, i as u8);
            i += 1;
        }
        Table { entries }
    }

    /// Continues a checksum, as `run` does.
    pub fn run(&self, crc: u32, bytes: &[u8]) -> (next: u32)
        ensures
            next == resume(crc, bytes@),
    {
        proof {
            use_type_invariant(self);
        }
        let mut register: u32 = crc ^ 0xFFFF_FFFF;
        let mut i: usize = 0;
        while i < bytes.len()
            invariant
                i <= bytes@.len(),
                register == fold(crc ^ 0xFFFF_FFFF, bytes@.subrange(0, i as int)),
                forall|byte: u8| self.entry(byte) == feed(0, byte),
            decreases bytes@.len() - i,
        {
            let byte: u8 = bytes[i];
            let index: u32 = (register ^ (byte as u32)) & 0xff;
            assert(index < 256) by (bit_vector)
                requires
                    index == (register ^ (byte as u32)) & 0xff,
            ;
            proof {
                lemma_feed_by_index(register, byte);
                let upto = bytes@.subrange(0, i as int + 1);
                assert(upto.drop_last() =~= bytes@.subrange(0, i as int));
            }
            register = (register >> 8) ^ self.entries[index as usize];
            i += 1;
        }
        assert(bytes@.subrange(0, i as int) =~= bytes@);
        register ^ 0xFFFF_FFFF
    }
}

} // verus!
