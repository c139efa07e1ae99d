//! Little-endian integer fields.
//!
//! Every multi-byte integer of the container is stored least significant byte
//! first. `le_bytes` says which bytes a number is stored as, `le_value` which
//! number a field denotes; the executable functions below convert the three
//! field widths that the records use.

use vstd::prelude::*;

verus! {

broadcast use vstd::slice::group_slice_axioms;

/// The `width` low-order bytes of `value`, least significant first.
pub open spec fn le_bytes(value: nat, width: nat) -> Seq<u8>
    decreases width,
{
    if width == 0 {
        Seq::empty()
    } else {
        seq![(value % 256) as u8] + le_bytes(value / 256, (width - 1) as nat)
    }
}

/// The number that a little-endian field denotes.
pub open spec fn le_value(bytes: Seq<u8>) -> nat
    decreases bytes.len(),
{
    if bytes.len() == 0 {
        0
    } else {
        bytes[0] as nat + 256 * le_value(bytes.drop_first())
    }
}

/// The number of values that a field of `width` bytes can hold: 256 to the
/// power `width`.
pub open spec fn le_limit(width: nat) -> nat
    decreases width,
{
    if width == 0 {
        1
    } else {
        256 * le_limit((width - 1) as nat)
    }
}

/// A field is exactly as long as its declared width.
pub broadcast proof fn lemma_le_bytes_len(value: nat, width: nat)
    ensures
        #[trigger] le_bytes(value, width).len() == width,
    decreases width,
{
    if width > 0 {
        lemma_le_bytes_len(value / 256, (width - 1) as nat);
    }
}

/// A number that fits in `width` bytes is read back from its field unchanged.
pub proof fn lemma_le_value_of_bytes(value: nat, width: nat)
    requires
        value < le_limit(width),
    ensures
        le_value(le_bytes(value, width)) == value,
    decreases width,
{
    if width > 0 {
        let rest = le_bytes(value / 256, (width - 1) as nat);
        let field = le_bytes(value, width);
        lemma_le_bytes_len(value / 256, (width - 1) as nat);
        lemma_le_value_of_bytes(value / 256, (width - 1) as nat);
        assert(field.drop_first() =~= rest);
    }
}

/// The widths in use, spelled out.
pub proof fn lemma_le_limits()
    ensures
        le_limit(2) == 0x1_0000,
        le_limit(4) == 0x1_0000_0000,
        le_limit(8) == 0x1_0000_0000_0000_0000,
{
    reveal_with_fuel(le_limit, 9);
}

/// The number that the bytes from `at` on denote, read as a field of `width`
/// bytes.
pub open spec fn field(bytes: Seq<u8>, at: int, width: int) -> nat {
    le_value(bytes.subrange(at, at + width))
}

/// A 16-bit field denotes the number that was stored.
pub proof fn lemma_le_value_u16(value: u16)
    ensures
        le_value(le_bytes(value as nat, 2)) == value,
{
    lemma_le_limits();
    lemma_le_value_of_bytes(value as nat, 2);
}

/// A 32-bit field denotes the number that was stored.
pub proof fn lemma_le_value_u32(value: u32)
    ensures
        le_value(le_bytes(value as nat, 4)) == value,
{
    lemma_le_limits();
    lemma_le_value_of_bytes(value as nat, 4);
}

/// A 64-bit field denotes the number that was stored.
pub proof fn lemma_le_value_u64(value: u64)
    ensures
        le_value(le_bytes(value as nat, 8)) == value,
{
    lemma_le_limits();
    lemma_le_value_of_bytes(value as nat, 8);
}

/// `bytes` with `field` written over it from the index `at` on.
pub open spec fn overwrite(bytes: Seq<u8>, at: int, field: Seq<u8>) -> Seq<u8> {
    bytes.subrange(0, at) + field + bytes.subrange(at + field.len(), bytes.len() as int)
}

/// Writes `field` over `record` from the index `at` on.
pub fn put(record: &mut [u8], at: usize, field: &[u8])
    requires
        at + field@.len() <= old(record)@.len(),
    ensures
        final(record)@ == overwrite(old(record)@, at as int, field@),
{
    let mut i: usize = 0;
    while i < field.len()
        invariant
            i <= field@.len(),
            at + field@.len() <= record@.len(),
            record@.len() == old(record)@.len() == record.len(),
            record@ =~= overwrite(old(record)@, at as int, field@.subrange(0, i as int)),
        decreases field@.len() - i,
    {
        record[at + i] = field[i];
        i += 1;
    }
}

/// The two bytes of a 16-bit field.
pub fn u16_to_le(value: u16) -> (bytes: [u8; 2])
    ensures
        bytes@ == le_bytes(value as nat, 2),
{
    let b0: u8 = (value % 256) as u8;
    let b1: u8 = (value / 256) as u8;
    let bytes: [u8; 2] = [b0, b1];
    proof {
        reveal_with_fuel(le_bytes, 3);
    }
    bytes
}

/// The four bytes of a 32-bit field.
pub fn u32_to_le(value: u32) -> (bytes: [u8; 4])
    ensures
        bytes@ == le_bytes(value as nat, 4),
{
    let v1: u32 = value / 256;
    let v2: u32 = v1 / 256;
    let v3: u32 = v2 / 256;
    let bytes: [u8; 4] = [(value % 256) as u8, (v1 % 256) as u8, (v2 % 256) as u8, v3 as u8];
    proof {
        reveal_with_fuel(le_bytes, 5);
    }
    bytes
}

/// The eight bytes of a 64-bit field.
pub fn u64_to_le(value: u64) -> (bytes: [u8; 8])
    ensures
        bytes@ == le_bytes(value as nat, 8),
{
    let v1: u64 = value / 256;
    let v2: u64 = v1 / 256;
    let v3: u64 = v2 / 256;
    let v4: u64 = v3 / 256;
    let v5: u64 = v4 / 256;
    let v6: u64 = v5 / 256;
    let v7: u64 = v6 / 256;
    let bytes: [u8; 8] = [
        (value % 256) as u8,
        (v1 % 256) as u8,
        (v2 % 256) as u8,
        (v3 % 256) as u8,
        (v4 % 256) as u8,
        (v5 % 256) as u8,
        (v6 % 256) as u8,
        v7 as u8,
    ];
    proof {
        reveal_with_fuel(le_bytes, 9);
    }
    bytes
}

/// The number that a 16-bit field denotes.
pub fn u16_from_le(b0: u8, b1: u8) -> (value: u16)
    ensures
        value as nat == le_value(seq![b0, b1]),
{
    let value: u16 = b0 as u16 + 256 * (b1 as u16);
    proof {
        let field = seq![b0, b1];
        reveal_with_fuel(le_value, 3);
        assert(field.drop_first() =~= seq![b1]);
        assert(field.drop_first().drop_first() =~= Seq::<u8>::empty());
    }
    value
}

} // verus!
