//! Little-endian encodings.
use vstd::prelude::*;

verus! {

/// The little-endian bytes of a 32-bit value.
pub open spec fn le4(value: u32) -> Seq<u8> {
    seq![
        (value & 0xff) as u8,
        ((value >> 8) & 0xff) as u8,
        ((value >> 16) & 0xff) as u8,
        ((value >> 24) & 0xff) as u8,
    ]
}

/// The little-endian bytes of a 64-bit value.
pub open spec fn le8(value: u64) -> Seq<u8> {
    le4((value & 0xffff_ffff) as u32) + le4((value >> 32) as u32)
}

/// The 16-bit value stored at `at`.
pub open spec fn u16_at(bytes: Seq<u8>, at: int) -> u16 {
    (bytes[at] as u16) | ((bytes[at + 1] as u16) << 8)
}

/// The 32-bit value stored at `at`.
pub open spec fn u32_at(bytes: Seq<u8>, at: int) -> u32 {
    (bytes[at] as u32) | ((bytes[at + 1] as u32) << 8) | ((bytes[at + 2] as u32) << 16) | ((
    bytes[at + 3] as u32) << 24)
}

/// The 64-bit value stored at `at`.
pub open spec fn u64_at(bytes: Seq<u8>, at: int) -> u64 {
    (u32_at(bytes, at) as u64) | ((u32_at(bytes, at + 4) as u64) << 32)
}

/// A 32-bit two's complement number.
pub open spec fn signed32(value: u32) -> int {
    if value < 0x8000_0000 {
        value as int
    } else {
        value - 0x1_0000_0000
    }
}

/// An 8-bit two's complement number.
pub open spec fn signed8(value: u8) -> int {
    if value < 0x80 {
        value as int
    } else {
        value - 0x100
    }
}

/// Returns a 32-bit two's complement number.
pub fn sign_extend32(value: u32) -> (number: i128)
    ensures
        number == signed32(value),
{
    if value < 0x8000_0000 {
        value as i128
    } else {
        value as i128 - 0x1_0000_0000
    }
}

/// Returns an 8-bit two's complement number.
pub fn sign_extend8(value: u8) -> (number: i128)
    ensures
        number == signed8(value),
{
    if value < 0x80 {
        value as i128
    } else {
        value as i128 - 0x100
    }
}

/// Reads a 16-bit value.
pub fn read_u16(bytes: &[u8], at: usize) -> (value: u16)
    requires
        at + 2 <= bytes@.len(),
    ensures
        value == u16_at(bytes@, at as int),
{
    (bytes[at] as u16) | ((bytes[at + 1] as u16) << 8)
}

/// Reads a 32-bit value.
pub fn read_u32(bytes: &[u8], at: usize) -> (value: u32)
    requires
        at + 4 <= bytes@.len(),
    ensures
        value == u32_at(bytes@, at as int),
{
    (bytes[at] as u32) | ((bytes[at + 1] as u32) << 8) | ((bytes[at + 2] as u32) << 16) | ((
    bytes[at + 3] as u32) << 24)
}

/// Reads a 64-bit value.
pub fn read_u64(bytes: &[u8], at: usize) -> (value: u64)
    requires
        at + 8 <= bytes@.len(),
    ensures
        value == u64_at(bytes@, at as int),
{
    let count: usize = bytes.len();
    assert(at + 8 <= count);
    (read_u32(bytes, at) as u64) | ((read_u32(bytes, at + 4) as u64) << 32)
}

/// Appends the little-endian bytes of a 32-bit value.
pub fn push_u32(out: &mut Vec<u8>, value: u32)
    ensures
        final(out)@ == old(out)@ + le4(value),
{
    out.push((value & 0xff) as u8);
    out.push(((value >> 8) & 0xff) as u8);
    out.push(((value >> 16) & 0xff) as u8);
    out.push(((value >> 24) & 0xff) as u8);
    assert(out@ =~= old(out)@ + le4(value));
}

/// Appends the little-endian bytes of a 64-bit value.
pub fn push_u64(out: &mut Vec<u8>, value: u64)
    ensures
        final(out)@ == old(out)@ + le8(value),
{
    push_u32(out, (value & 0xffff_ffff) as u32);
    push_u32(out, (value >> 32) as u32);
    assert(out@ =~= old(out)@ + le8(value));
}

/// Appends every byte of `tail`.
pub fn push_all(out: &mut Vec<u8>, tail: &[u8])
    ensures
        final(out)@ == old(out)@ + tail@,
{
    let mut i: usize = 0;
    while i < tail.len()
        invariant
            i <= tail@.len(),
            out@ == old(out)@ + tail@.subrange(0, i as int),
        decreases tail@.len() - i,
    {
        out.push(tail[i]);
        i = i + 1;
        assert(tail@.subrange(0, i as int) =~= tail@.subrange(0, i - 1).push(tail@[i - 1]));
        assert(out@ =~= old(out)@ + tail@.subrange(0, i as int));
    }
    assert(tail@.subrange(0, tail@.len() as int) =~= tail@);
}

/// Copies `bytes[from..to]`.
pub fn copy_range(bytes: &[u8], from: usize, to: usize) -> (out: Vec<u8>)
    requires
        from <= to <= bytes@.len(),
    ensures
        out@ == bytes@.subrange(from as int, to as int),
{
    let mut out: Vec<u8> = Vec::new();
    let mut i: usize = from;
    while i < to
        invariant
            from <= i <= to <= bytes@.len(),
            out@ == bytes@.subrange(from as int, i as int),
        decreases to - i,
    {
        out.push(bytes[i]);
        i = i + 1;
        assert(out@ =~= bytes@.subrange(from as int, i as int));
    }
    out
}

/// Returns whether two byte strings are equal.
pub fn same_bytes(a: &[u8], b: &[u8]) -> (same: bool)
    ensures
        same == (a@ == b@),
{
    if a.len() != b.len() {
        return false;
    }
    let mut i: usize = 0;
    while i < a.len()
        invariant
            i <= a@.len(),
            a@.len() == b@.len(),
            forall|j: int| 0 <= j < i ==> a@[j] == b@[j],
        decreases a@.len() - i,
    {
        if a[i] != b[i] {
            return false;
        }
        i = i + 1;
    }
    assert(a@ =~= b@);
    true
}

/// A 32-bit value is read back from its little-endian bytes, wherever they stand.
pub proof fn lemma_u32_round_trip(bytes: Seq<u8>, at: int, value: u32)
    requires
        0 <= at,
        at + 4 <= bytes.len(),
        bytes.subrange(at, at + 4) == le4(value),
    ensures
        u32_at(bytes, at) == value,
{
    let part = bytes.subrange(at, at + 4);
    assert(part[0] == bytes[at] && part[1] == bytes[at + 1] && part[2] == bytes[at + 2] && part[3]
        == bytes[at + 3]);
    assert((((value & 0xff) as u8) as u32) | ((((value >> 8) & 0xff) as u8) as u32) << 8 | ((((
    value >> 16) & 0xff) as u8) as u32) << 16 | ((((value >> 24) & 0xff) as u8) as u32) << 24
        == value) by (bit_vector);
}

/// A 64-bit value is read back from its little-endian bytes, wherever they stand.
pub proof fn lemma_u64_round_trip(bytes: Seq<u8>, at: int, value: u64)
    requires
        0 <= at,
        at + 8 <= bytes.len(),
        bytes.subrange(at, at + 8) == le8(value),
    ensures
        u64_at(bytes, at) == value,
{
    let part = bytes.subrange(at, at + 8);
    let low = (value & 0xffff_ffff) as u32;
    let high = (value >> 32) as u32;
    assert(part.subrange(0, 4) =~= le4(low));
    assert(part.subrange(4, 8) =~= le4(high));
    assert(bytes.subrange(at, at + 4) =~= part.subrange(0, 4));
    assert(bytes.subrange(at + 4, at + 8) =~= part.subrange(4, 8));
    lemma_u32_round_trip(bytes, at, low);
    lemma_u32_round_trip(bytes, at + 4, high);
    assert((((value & 0xffff_ffff) as u32) as u64) | (((value >> 32) as u32) as u64) << 32 == value)
        by (bit_vector);
}

} // verus!
