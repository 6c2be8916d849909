//! Laws of following jump stubs: which code counts as a jump, where it leads, and where a
//! chain of jumps ends.
use vstd::prelude::*;

use crate::arch::Arch;
use crate::code::{follow, jump_target};
use crate::laws::inline::limit;
use crate::laws::memory::{lemma_u16_value, lemma_u32_value, lemma_u64_value};
use crate::memory::{bytes_at, mem_u16, mem_u32, mem_u64, mem_u8, MemoryRegion};

verus! {

/// Whether memory holds this code at an address, so that every part of it can be read.
#[verifier::opaque]
pub open spec fn code_stands(
    arch: Arch,
    regions: Seq<MemoryRegion>,
    at: int,
    code: Seq<u8>,
) -> bool {
    &&& 0 < at
    &&& at + code.len() <= limit(arch)
    &&& forall|k: int, n: int|
        0 <= k && 0 < n && k + n <= code.len() ==> #[trigger] bytes_at(arch, regions, at + k, n)
            == Some(code.subrange(k, k + n))
}

/// The number that four bytes of code stand for.
pub open spec fn four(code: Seq<u8>, at: int) -> int {
    code[at] + 0x100 * code[at + 1] + 0x1_0000 * code[at + 2] + 0x100_0000 * code[at + 3]
}

/// The number that eight bytes of code stand for.
pub open spec fn eight(code: Seq<u8>, at: int) -> int {
    four(code, at) + 0x1_0000_0000 * four(code, at + 4)
}

/// A number below `range`, read as one that may be negative.
pub open spec fn as_signed(number: int, range: int) -> int {
    if number < range / 2 {
        number
    } else {
        number - range
    }
}

/// A byte of code, as a read gives it.
proof fn lemma_byte(arch: Arch, regions: Seq<MemoryRegion>, at: u64, code: Seq<u8>, k: int)
    requires
        code_stands(arch, regions, at as int, code),
        0 <= k < code.len(),
    ensures
        arch.displaced(at, k) == at + k,
        mem_u8(arch, regions, arch.displaced(at, k)) == Some(code[k]),
{
    reveal(code_stands);
    assert(bytes_at(arch, regions, at + k, 1) == Some(code.subrange(k, k + 1)));
}

/// Two bytes of code, as a read gives them.
proof fn lemma_two(arch: Arch, regions: Seq<MemoryRegion>, at: u64, code: Seq<u8>, k: int)
    requires
        code_stands(arch, regions, at as int, code),
        0 <= k,
        k + 2 <= code.len(),
    ensures
        arch.displaced(at, k) == at + k,
        mem_u16(arch, regions, arch.displaced(at, k)) matches Some(value) && value
            == code[k] + 0x100 * code[k + 1],
{
    reveal(code_stands);
    let part = code.subrange(k, k + 2);
    assert(bytes_at(arch, regions, at + k, 2) == Some(part));
    lemma_u16_value(part, 0);
}

/// Four bytes of code, as a read gives them.
proof fn lemma_four(arch: Arch, regions: Seq<MemoryRegion>, at: u64, code: Seq<u8>, k: int)
    requires
        code_stands(arch, regions, at as int, code),
        0 <= k,
        k + 4 <= code.len(),
    ensures
        arch.displaced(at, k) == at + k,
        mem_u32(arch, regions, arch.displaced(at, k)) matches Some(value) && value
            == four(code, k),
{
    reveal(code_stands);
    let part = code.subrange(k, k + 4);
    assert(bytes_at(arch, regions, at + k, 4) == Some(part));
    lemma_u32_value(part, 0);
}

/// Eight bytes of code, as a read gives them.
proof fn lemma_eight(arch: Arch, regions: Seq<MemoryRegion>, at: u64, code: Seq<u8>, k: int)
    requires
        code_stands(arch, regions, at as int, code),
        0 <= k,
        k + 8 <= code.len(),
    ensures
        arch.displaced(at, k) == at + k,
        mem_u64(arch, regions, arch.displaced(at, k)) matches Some(value) && value
            == eight(code, k),
{
    reveal(code_stands);
    let part = code.subrange(k, k + 8);
    assert(bytes_at(arch, regions, at + k, 8) == Some(part));
    lemma_u64_value(part, 0);
}

/// A jump with a 32-bit displacement leads as far from its end as the displacement says.
pub proof fn lemma_near_jump_is_followed(
    arch: Arch,
    regions: Seq<MemoryRegion>,
    src: u64,
    code: Seq<u8>,
)
    requires
        code.len() == 5,
        code_stands(arch, regions, src as int, code),
        code[0] == 0xE9,
    ensures
        jump_target(arch, regions, src) matches Some(target) && target == (src + 5 + as_signed(
            four(code, 1),
            0x1_0000_0000,
        )) % limit(arch),
{
    lemma_byte(arch, regions, src, code, 0);
    lemma_four(arch, regions, src, code, 1);
}

/// A jump with an 8-bit displacement leads as far from its end as the displacement says.
pub proof fn lemma_short_jump_is_followed(
    arch: Arch,
    regions: Seq<MemoryRegion>,
    src: u64,
    code: Seq<u8>,
)
    requires
        code.len() == 2,
        code_stands(arch, regions, src as int, code),
        code[0] == 0xEB,
    ensures
        jump_target(arch, regions, src) matches Some(target) && target == (src + 2 + as_signed(
            code[1] as int,
            0x100,
        )) % limit(arch),
{
    lemma_byte(arch, regions, src, code, 0);
    lemma_byte(arch, regions, src, code, 1);
}

/// On x64 a jump through a pointer leads where the pointer points, which stands as far
/// from the end of the jump as its displacement says; a prefix before the jump counts with
/// it.
pub proof fn lemma_jump_through_pointer_is_followed(
    regions: Seq<MemoryRegion>,
    src: u64,
    code: Seq<u8>,
    slot: u64,
    pointer: Seq<u8>,
)
    requires
        code_stands(Arch::X64, regions, src as int, code),
        ({
            ||| code.len() == 6 && code[0] == 0xFF && code[1] == 0x25
            ||| code.len() == 7 && code[0] == 0x48 && code[1] == 0xFF && code[2] == 0x25
        }),
        slot == (src + code.len() + as_signed(four(code, code.len() - 4), 0x1_0000_0000))
            % 0x1_0000_0000_0000_0000,
        pointer.len() == 8,
        code_stands(Arch::X64, regions, slot as int, pointer),
    ensures
        jump_target(Arch::X64, regions, src) matches Some(target) && target == eight(pointer, 0),
{
    let arch = Arch::X64;
    lemma_byte(arch, regions, src, code, 0);
    lemma_byte(arch, regions, src, code, 1);
    lemma_byte(arch, regions, src, code, 2);
    lemma_four(arch, regions, src, code, code.len() - 4);
    lemma_eight(arch, regions, slot, pointer, 0);
}

/// On x86 a jump through a pointer names the address of the pointer.
pub proof fn lemma_jump_through_address_is_followed(
    regions: Seq<MemoryRegion>,
    src: u64,
    code: Seq<u8>,
    pointer: Seq<u8>,
)
    requires
        code.len() == 6,
        code_stands(Arch::X86, regions, src as int, code),
        code[0] == 0xFF,
        code[1] == 0x25,
        pointer.len() == 4,
        code_stands(Arch::X86, regions, four(code, 2), pointer),
    ensures
        jump_target(Arch::X86, regions, src) matches Some(target) && target == four(pointer, 0),
{
    let arch = Arch::X86;
    lemma_byte(arch, regions, src, code, 0);
    lemma_byte(arch, regions, src, code, 1);
    lemma_byte(arch, regions, src, code, 2);
    lemma_four(arch, regions, src, code, 2);
    lemma_four(arch, regions, four(code, 2) as u64, pointer, 0);
}

/// On x64 the load of a constant with a jump through its register leads to the constant.
pub proof fn lemma_loaded_jump_is_followed(regions: Seq<MemoryRegion>, src: u64, code: Seq<u8>)
    requires
        code.len() == 12,
        code_stands(Arch::X64, regions, src as int, code),
        ({
            ||| code[0] == 0x48 && code[1] == 0xB8 && code[10] == 0xFF && code[11] == 0xE0
            ||| code[0] == 0x49 && code[1] == 0xBA && code[10] == 0xFF && code[11] == 0xE2
        }),
    ensures
        jump_target(Arch::X64, regions, src) matches Some(target) && target == eight(code, 2),
{
    let arch = Arch::X64;
    lemma_byte(arch, regions, src, code, 0);
    lemma_byte(arch, regions, src, code, 1);
    lemma_byte(arch, regions, src, code, 2);
    lemma_two(arch, regions, src, code, 10);
    lemma_eight(arch, regions, src, code, 2);
}

/// On x86 so does the load with a jump through the register, and a push of a constant with
/// a return.
pub proof fn lemma_pushed_jump_is_followed(regions: Seq<MemoryRegion>, src: u64, code: Seq<u8>)
    requires
        code_stands(Arch::X86, regions, src as int, code),
        ({
            ||| code.len() == 7 && code[0] == 0xB8 && code[5] == 0xFF && code[6] == 0xE0
            ||| code.len() == 6 && code[0] == 0x68 && code[5] == 0xC3
        }),
    ensures
        jump_target(Arch::X86, regions, src) matches Some(target) && target == four(code, 1),
{
    let arch = Arch::X86;
    lemma_byte(arch, regions, src, code, 0);
    lemma_byte(arch, regions, src, code, 1);
    lemma_byte(arch, regions, src, code, 5);
    if code.len() == 7 {
        lemma_two(arch, regions, src, code, 5);
    }
    lemma_four(arch, regions, src, code, 1);
}

/// Code that begins with none of the jumps above is not followed.
pub proof fn lemma_only_jumps_are_followed(
    arch: Arch,
    regions: Seq<MemoryRegion>,
    src: u64,
    code: Seq<u8>,
)
    requires
        code.len() == 12,
        code_stands(arch, regions, src as int, code),
        jump_target(arch, regions, src) is Some,
    ensures
        ({
            ||| code[0] == 0xE9
            ||| code[0] == 0xEB
            ||| code[0] == 0xFF && code[1] == 0x25
            ||| arch == Arch::X64 && code[0] == 0x48 && code[1] == 0xFF && code[2] == 0x25
            ||| arch == Arch::X64 && code[0] == 0x48 && code[1] == 0xB8 && code[10] == 0xFF
                && code[11] == 0xE0
            ||| arch == Arch::X64 && code[0] == 0x49 && code[1] == 0xBA && code[10] == 0xFF
                && code[11] == 0xE2
            ||| arch == Arch::X86 && code[0] == 0xB8 && code[5] == 0xFF && code[6] == 0xE0
            ||| arch == Arch::X86 && code[0] == 0x68 && code[5] == 0xC3
        }),
{
    lemma_byte(arch, regions, src, code, 0);
    lemma_byte(arch, regions, src, code, 1);
    lemma_byte(arch, regions, src, code, 2);
    lemma_byte(arch, regions, src, code, 5);
    lemma_two(arch, regions, src, code, 5);
    lemma_two(arch, regions, src, code, 10);
}

/// Whether each address of a path is a jump to the next one.
pub open spec fn leads_on(arch: Arch, regions: Seq<MemoryRegion>, path: Seq<u64>) -> bool {
    forall|i: int|
        0 <= i < path.len() - 1 ==> jump_target(arch, regions, #[trigger] path[i]) == Some(
            path[i + 1],
        )
}

/// A chain of jumps is followed to its end: along different addresses, none of them null,
/// up to one that is no jump or jumps to null, up to the first that was passed before, and
/// never over more than 32 jumps.
pub proof fn lemma_chain_is_followed(arch: Arch, regions: Seq<MemoryRegion>, path: Seq<u64>)
    requires
        0 < path.len() <= 33,
        leads_on(arch, regions, path),
        forall|i: int| 0 < i < path.len() ==> #[trigger] path[i] != 0,
        path.drop_last().no_duplicates(),
        ({
            ||| path.len() == 33
            ||| path.drop_last().contains(path.last())
            ||| jump_target(arch, regions, path.last()) is None
            ||| jump_target(arch, regions, path.last()) == Some(0u64)
        }),
    ensures
        follow(arch, regions, path[0], Seq::empty()) == path.last(),
{
    assert(path.subrange(0, 0) =~= Seq::<u64>::empty());
    lemma_follow_from(arch, regions, path, 0);
}

/// The same from the middle of the chain.
proof fn lemma_follow_from(arch: Arch, regions: Seq<MemoryRegion>, path: Seq<u64>, at: int)
    requires
        0 <= at < path.len() <= 33,
        leads_on(arch, regions, path),
        forall|i: int| 0 < i < path.len() ==> #[trigger] path[i] != 0,
        path.drop_last().no_duplicates(),
        ({
            ||| path.len() == 33
            ||| path.drop_last().contains(path.last())
            ||| jump_target(arch, regions, path.last()) is None
            ||| jump_target(arch, regions, path.last()) == Some(0u64)
        }),
    ensures
        follow(arch, regions, path[at], path.subrange(0, at)) == path.last(),
    decreases path.len() - at,
{
    let seen = path.subrange(0, at);
    if at == path.len() - 1 {
        assert(seen =~= path.drop_last());
    } else {
        assert(!seen.contains(path[at])) by {
            if seen.contains(path[at]) {
                let i = choose|i: int| 0 <= i < seen.len() && seen[i] == path[at];
                assert(path.drop_last()[i] == path.drop_last()[at]);
            }
        }
        assert(jump_target(arch, regions, path[at]) == Some(path[at + 1]));
        assert(seen.push(path[at]) =~= path.subrange(0, at + 1));
        lemma_follow_from(arch, regions, path, at + 1);
    }
}

} // verus!
