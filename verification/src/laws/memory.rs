//! Laws of reading: which bytes of a process a value, a read and a saved piece of
//! code consist of.
use vstd::prelude::*;

use crate::arch::Arch;
use crate::bytes::{le4, le8, u16_at, u32_at, u64_at};
use crate::disasm::window;
use crate::memory::{bytes_at, find_region, lemma_find_region, mem_u8, region_at, MemoryRegion};

verus! {

/// A 16-bit value counts its second byte 256 times.
pub proof fn lemma_u16_value(bytes: Seq<u8>, at: int)
    ensures
        u16_at(bytes, at) == bytes[at] + 0x100 * bytes[at + 1],
{
    let (a, b) = (bytes[at], bytes[at + 1]);
    assert((a as u16) | ((b as u16) << 8) == a + 0x100 * b) by (bit_vector);
}

/// A 32-bit value counts each byte 256 times as much as the one before.
pub proof fn lemma_u32_value(bytes: Seq<u8>, at: int)
    ensures
        u32_at(bytes, at) == bytes[at] + 0x100 * bytes[at + 1] + 0x1_0000 * bytes[at + 2]
            + 0x100_0000 * bytes[at + 3],
{
    let (a, b, c, d) = (bytes[at], bytes[at + 1], bytes[at + 2], bytes[at + 3]);
    assert((a as u32) | ((b as u32) << 8) | ((c as u32) << 16) | ((d as u32) << 24) == a + 0x100 * b
        + 0x1_0000 * c + 0x100_0000 * d) by (bit_vector);
}

/// A 64-bit value is that of its first four bytes, and 2^32 times that of the others.
pub proof fn lemma_u64_value(bytes: Seq<u8>, at: int)
    ensures
        u64_at(bytes, at) == bytes[at] + 0x100 * bytes[at + 1] + 0x1_0000 * bytes[at + 2]
            + 0x100_0000 * bytes[at + 3] + 0x1_0000_0000 * (bytes[at + 4] + 0x100 * bytes[at + 5]
            + 0x1_0000 * bytes[at + 6] + 0x100_0000 * bytes[at + 7]),
{
    lemma_u32_value(bytes, at);
    lemma_u32_value(bytes, at + 4);
    let (low, high) = (u32_at(bytes, at), u32_at(bytes, at + 4));
    assert((low as u64) | ((high as u64) << 32) == low + 0x1_0000_0000 * high) by (bit_vector);
}

/// The bytes of a 32-bit value are its digits to the base 256, the lowest first.
pub proof fn lemma_le4_digits(value: u32)
    ensures
        le4(value).len() == 4,
        le4(value)[0] == value % 0x100,
        le4(value)[1] == value / 0x100 % 0x100,
        le4(value)[2] == value / 0x1_0000 % 0x100,
        le4(value)[3] == value / 0x100_0000,
{
    assert((value & 0xff) as u8 == value % 0x100 && ((value >> 8) & 0xff) as u8 == value / 0x100
        % 0x100 && ((value >> 16) & 0xff) as u8 == value / 0x1_0000 % 0x100 && ((value >> 24)
        & 0xff) as u8 == value / 0x100_0000) by (bit_vector);
}

/// The bytes of a 64-bit value are its digits to the base 256, the lowest first.
pub proof fn lemma_le8_digits(value: u64)
    ensures
        le8(value).len() == 8,
        value == le8(value)[0] + 0x100 * le8(value)[1] + 0x1_0000 * le8(value)[2] + 0x100_0000
            * le8(value)[3] + 0x1_0000_0000 * (le8(value)[4] + 0x100 * le8(value)[5] + 0x1_0000
            * le8(value)[6] + 0x100_0000 * le8(value)[7]),
{
    let low = (value & 0xffff_ffff) as u32;
    let high = (value >> 32) as u32;
    lemma_le4_digits(low);
    lemma_le4_digits(high);
    assert(value == ((value & 0xffff_ffff) as u32) + 0x1_0000_0000 * ((value >> 32) as u32))
        by (bit_vector);
    assert(low == low % 0x100 + 0x100 * (low / 0x100 % 0x100) + 0x1_0000 * (low / 0x1_0000 % 0x100)
        + 0x100_0000 * (low / 0x100_0000)) by (nonlinear_arith);
    assert(high == high % 0x100 + 0x100 * (high / 0x100 % 0x100) + 0x1_0000 * (high / 0x1_0000
        % 0x100) + 0x100_0000 * (high / 0x100_0000)) by (nonlinear_arith);
}

/// Whether the region with this index is the one that a query of `address` reports:
/// the first one in whose range the address lies.
pub open spec fn reports(regions: Seq<MemoryRegion>, index: int, address: int) -> bool {
    &&& 0 <= index < regions.len()
    &&& regions[index].base <= address < regions[index].base + regions[index].size
    &&& forall|i: int|
        0 <= i < index ==> !((#[trigger] regions[i]).base <= address < regions[i].base
            + regions[i].size)
}

/// A query reports the first region in whose range the address lies, and nothing
/// exactly where the address lies in none.
pub proof fn lemma_query_reports(regions: Seq<MemoryRegion>, address: int)
    ensures
        match region_at(regions, address) {
            Some(region) => exists|index: int| #[trigger]
                reports(regions, index, address) && regions[index] == region,
            None => forall|i: int|
                0 <= i < regions.len() ==> !((#[trigger] regions[i]).base <= address
                    < regions[i].base + regions[i].size),
        },
        forall|index: int| #[trigger]
            reports(regions, index, address) ==> region_at(regions, address) == Some(
                regions[index],
            ),
{
    lemma_find_region(regions, address, regions.len() as int);
    match find_region(regions, address, regions.len() as int) {
        Some(found) => {
            assert(reports(regions, found, address));
            assert forall|index: int| #[trigger] reports(regions, index, address) implies index
                == found by {
                if index < found {
                    assert(!regions[index].covers(address));
                }
            }
        },
        None => {
            assert forall|i: int| 0 <= i < regions.len() implies !((#[trigger] regions[i]).base
                <= address < regions[i].base + regions[i].size) by {
                assert(!regions[i].covers(address));
            }
        },
    }
}

/// A read gives the bytes that were captured at its address, all of them or none:
/// byte `i` of the result is the captured byte at `address + i`. It succeeds where
/// the bytes lie in one committed region that is neither guarded nor inaccessible, and
/// were captured.
pub proof fn lemma_read_gives_captured_bytes(
    arch: Arch,
    regions: Seq<MemoryRegion>,
    index: int,
    address: int,
    len: int,
)
    requires
        reports(regions, index, address),
        address != 0,
        len > 0,
    ensures
        bytes_at(arch, regions, address, len) is Some <==> {
            let region = regions[index];
            &&& region.state == 0x1000
            &&& region.protect & 0x101 == 0
            &&& address + len <= region.base + region.size
            &&& address + len <= region.base + region.bytes@.len()
            &&& region.base + region.size < (if arch == Arch::X86 {
                0x1_0000_0000int
            } else {
                0x1_0000_0000_0000_0000
            })
        },
        bytes_at(arch, regions, address, len) matches Some(bytes) ==> bytes.len() == len
            && forall|i: int|
            0 <= i < len ==> #[trigger] bytes[i] == regions[index].bytes@[address + i
                - regions[index].base],
{
    lemma_query_reports(regions, address);
}

/// What is read of an address for decoding consists of the bytes captured there, one
/// after the other: byte `i` is the captured byte at `address + i`. It ends at the
/// limit, at the end of the region or where the capture ends, whichever comes first.
pub proof fn lemma_window_gives_captured_bytes(
    arch: Arch,
    regions: Seq<MemoryRegion>,
    index: int,
    address: int,
    limit: int,
)
    requires
        reports(regions, index, address),
        limit >= 0,
        regions[index].base + regions[index].size < (if arch == Arch::X86 {
            0x1_0000_0000int
        } else {
            0x1_0000_0000_0000_0000
        }),
    ensures
        ({
            let region = regions[index];
            let bytes = window(arch, regions, address, limit);
            &&& forall|i: int|
                0 <= i < bytes.len() ==> #[trigger] bytes[i] == region.bytes@[address + i
                    - region.base]
            &&& bytes.len() <= limit
            &&& address + bytes.len() <= region.base + region.size
            &&& region.state == 0x1000 && region.protect & 0xee != 0 ==> bytes.len() == limit
                || address + bytes.len() == region.base + region.size || address + bytes.len()
                >= region.base + region.bytes@.len()
            &&& region.state != 0x1000 || region.protect & 0xee == 0 ==> bytes.len() == 0
        }),
{
    lemma_query_reports(regions, address);
}

/// Byte `i` of what is read for decoding is the byte that a read of `address + i`
/// gives.
pub proof fn lemma_window_agrees_with_reads(
    arch: Arch,
    regions: Seq<MemoryRegion>,
    index: int,
    address: int,
    limit: int,
    i: int,
)
    requires
        reports(regions, index, address),
        reports(regions, index, address + i),
        0 <= i < window(arch, regions, address, limit).len(),
        0 < address,
        address + i <= u64::MAX,
        limit >= 0,
        mem_u8(arch, regions, (address + i) as u64) is Some,
    ensures
        mem_u8(arch, regions, (address + i) as u64) == Some(
            window(arch, regions, address, limit)[i],
        ),
{
    lemma_read_gives_captured_bytes(arch, regions, index, address + i, 1);
    lemma_window_gives_captured_bytes(arch, regions, index, address, limit);
}

/// Code that can be read and was captured in full is what is read of it for decoding.
pub proof fn lemma_window_is_the_read(
    arch: Arch,
    regions: Seq<MemoryRegion>,
    address: int,
    len: int,
)
    requires
        bytes_at(arch, regions, address, len) is Some,
        region_at(regions, address)->0.protect & 0xee != 0,
    ensures
        bytes_at(arch, regions, address, len) == Some(window(arch, regions, address, len)),
{
    lemma_query_reports(regions, address);
    let index = choose|index: int| #[trigger]
        reports(regions, index, address) && regions[index] == region_at(regions, address)->0;
    lemma_read_gives_captured_bytes(arch, regions, index, address, len);
    lemma_window_gives_captured_bytes(arch, regions, index, address, len);
    assert(bytes_at(arch, regions, address, len)->0 =~= window(arch, regions, address, len));
}

} // verus!
