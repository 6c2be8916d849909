//! Following jump stubs and import thunks to the code behind them.
use vstd::prelude::*;

use crate::arch::Arch;
use crate::bytes::{sign_extend32, sign_extend8, signed32, signed8};
use crate::memory::{mem_pointer, mem_u16, mem_u32, mem_u64, mem_u8, MemoryMap, MemoryRegion};

verus! {

/// How many jumps are followed at most.
pub const MAX_JUMP_FOLLOWS: usize = 32;

/// The slot of an instruction-pointer-relative `jmp [rip+disp32]` at `src` whose
/// displacement stands at `disp_offset`.
pub open spec fn rip_slot(
    arch: Arch,
    regions: Seq<MemoryRegion>,
    src: u64,
    disp_offset: int,
) -> Option<u64> {
    match mem_u32(arch, regions, arch.displaced(src, disp_offset)) {
        Some(disp) => Some(arch.displaced(src, disp_offset + 4 + signed32(disp))),
        None => None,
    }
}

/// The slot that the indirect jump at `src` loads its target from: that of
/// `jmp [..]`, which is relative on x64 and absolute on x86, or on x64 that of
/// the same instruction behind a REX.W prefix.
pub open spec fn indirect_slot(arch: Arch, regions: Seq<MemoryRegion>, src: u64) -> Option<u64> {
    let op0 = mem_u8(arch, regions, src);
    let op1 = mem_u8(arch, regions, arch.displaced(src, 1));
    let op2 = mem_u8(arch, regions, arch.displaced(src, 2));
    if op0 == Some(0xFFu8) && op1 == Some(0x25u8) {
        match arch {
            Arch::X64 => rip_slot(arch, regions, src, 2),
            Arch::X86 => match mem_u32(arch, regions, arch.displaced(src, 2)) {
                Some(slot) => Some(slot as u64),
                None => None,
            },
        }
    } else if arch == Arch::X64 && op0 == Some(0x48u8) && op1 == Some(0xFFu8) && op2 == Some(
        0x25u8,
    ) {
        rip_slot(arch, regions, src, 3)
    } else {
        None
    }
}

/// The target of a load of an immediate into a register with a jump through it,
/// or of a push of an immediate with a return.
pub open spec fn immediate_jump(arch: Arch, regions: Seq<MemoryRegion>, src: u64) -> Option<u64> {
    let op0 = mem_u8(arch, regions, src);
    let op1 = mem_u8(arch, regions, arch.displaced(src, 1));
    let op2 = mem_u8(arch, regions, arch.displaced(src, 2));
    match arch {
        Arch::X64 => {
            let tail = mem_u16(arch, regions, arch.displaced(src, 10));
            if (op0 == Some(0x48u8) && op1 == Some(0xB8u8) && op2 is Some && tail == Some(
                0xE0FFu16,
            )) || (op0 == Some(0x49u8) && op1 == Some(0xBAu8) && tail == Some(0xE2FFu16)) {
                mem_u64(arch, regions, arch.displaced(src, 2))
            } else {
                None
            }
        },
        Arch::X86 => {
            if (op0 == Some(0xB8u8) && mem_u16(arch, regions, arch.displaced(src, 5)) == Some(
                0xE0FFu16,
            )) || (op0 == Some(0x68u8) && mem_u8(arch, regions, arch.displaced(src, 5)) == Some(
                0xC3u8,
            )) {
                match mem_u32(arch, regions, arch.displaced(src, 1)) {
                    Some(target) => Some(target as u64),
                    None => None,
                }
            } else {
                None
            }
        },
    }
}

/// Where the jump stub at `src` leads, if there is one.
pub open spec fn jump_target(arch: Arch, regions: Seq<MemoryRegion>, src: u64) -> Option<u64> {
    let op0 = mem_u8(arch, regions, src);
    if op0 == Some(0xE9u8) {
        match mem_u32(arch, regions, arch.displaced(src, 1)) {
            Some(rel) => Some(arch.displaced(src, 5 + signed32(rel))),
            None => None,
        }
    } else if op0 == Some(0xEBu8) {
        match mem_u8(arch, regions, arch.displaced(src, 1)) {
            Some(rel) => Some(arch.displaced(src, 2 + signed8(rel))),
            None => None,
        }
    } else {
        match indirect_slot(arch, regions, src) {
            Some(slot) => mem_pointer(arch, regions, slot),
            None => immediate_jump(arch, regions, src),
        }
    }
}

/// Where following jump stubs from `current` ends, when the stubs at `seen` have
/// been followed already.
pub open spec fn follow(
    arch: Arch,
    regions: Seq<MemoryRegion>,
    current: u64,
    seen: Seq<u64>,
) -> u64
    decreases MAX_JUMP_FOLLOWS - seen.len(),
{
    if seen.len() >= MAX_JUMP_FOLLOWS || seen.contains(current) {
        current
    } else {
        match jump_target(arch, regions, current) {
            Some(next) => if next == 0 {
                current
            } else {
                follow(arch, regions, next, seen.push(current))
            },
            None => current,
        }
    }
}

/// Returns the slot of a `jmp [rip+disp32]` whose displacement stands at
/// `disp_offset`.
fn resolve_rip_indirect_jump(arch: Arch, map: &MemoryMap, src: u64, disp_offset: u64) -> (slot:
    Option<u64>)
    requires
        disp_offset <= 3,
    ensures
        slot == rip_slot(arch, map@, src, disp_offset as int),
{
    match map.read_u32(arch, arch.displace(src, disp_offset as i128)) {
        Some(disp) => Some(arch.displace(src, disp_offset as i128 + 4 + sign_extend32(disp))),
        None => None,
    }
}

/// Returns the slot that the indirect jump at `src` loads its target from.
pub fn resolve_ff_jump(arch: Arch, map: &MemoryMap, src: u64) -> (slot: Option<u64>)
    ensures
        slot == indirect_slot(arch, map@, src),
{
    let op0 = match map.read_u8(arch, src) {
        Some(op) => op,
        None => {
            return None;
        },
    };
    let op1 = match map.read_u8(arch, arch.displace(src, 1)) {
        Some(op) => op,
        None => {
            return None;
        },
    };
    if op0 == 0xFF && op1 == 0x25 {
        return match arch {
            Arch::X64 => resolve_rip_indirect_jump(arch, map, src, 2),
            Arch::X86 => match map.read_u32(arch, arch.displace(src, 2)) {
                Some(slot) => Some(slot as u64),
                None => None,
            },
        };
    }
    match arch {
        Arch::X86 => None,
        Arch::X64 => {
            if op0 == 0x48 && op1 == 0xFF {
                match map.read_u8(arch, arch.displace(src, 2)) {
                    Some(op2) => if op2 == 0x25 {
                        resolve_rip_indirect_jump(arch, map, src, 3)
                    } else {
                        None
                    },
                    None => None,
                }
            } else {
                None
            }
        },
    }
}

/// Returns the target of a jump through an immediate at `src`.
fn resolve_immediate_jump(arch: Arch, map: &MemoryMap, src: u64) -> (target: Option<u64>)
    ensures
        target == immediate_jump(arch, map@, src),
{
    let op0 = match map.read_u8(arch, src) {
        Some(op) => op,
        None => {
            return None;
        },
    };
    match arch {
        Arch::X64 => {
            let op1 = match map.read_u8(arch, arch.displace(src, 1)) {
                Some(op) => op,
                None => {
                    return None;
                },
            };
            let tail = match map.read_u16(arch, arch.displace(src, 10)) {
                Some(tail) => tail,
                None => {
                    return None;
                },
            };
            let through_rax: bool = op0 == 0x48 && op1 == 0xB8 && map.read_u8(
                arch,
                arch.displace(src, 2),
            ).is_some() && tail == 0xE0FF;
            let through_r10: bool = op0 == 0x49 && op1 == 0xBA && tail == 0xE2FF;
            if through_rax || through_r10 {
                map.read_u64(arch, arch.displace(src, 2))
            } else {
                None
            }
        },
        Arch::X86 => {
            let through_eax: bool = op0 == 0xB8 && match map.read_u16(arch, arch.displace(src, 5)) {
                Some(tail) => tail == 0xE0FF,
                None => false,
            };
            let through_stack: bool = op0 == 0x68 && match map.read_u8(arch, arch.displace(src, 5)) {
                Some(tail) => tail == 0xC3,
                None => false,
            };
            if through_eax || through_stack {
                match map.read_u32(arch, arch.displace(src, 1)) {
                    Some(target) => Some(target as u64),
                    None => None,
                }
            } else {
                None
            }
        },
    }
}

/// Returns where the jump stub at `src` leads, if there is one.
pub fn detour_code_from_pointer_once(arch: Arch, map: &MemoryMap, src: u64) -> (target: Option<u64>)
    ensures
        target == jump_target(arch, map@, src),
{
    match map.read_u8(arch, src) {
        Some(op0) => {
            if op0 == 0xE9 {
                return match map.read_u32(arch, arch.displace(src, 1)) {
                    Some(rel) => Some(arch.displace(src, 5 + sign_extend32(rel))),
                    None => None,
                };
            }
            if op0 == 0xEB {
                return match map.read_u8(arch, arch.displace(src, 1)) {
                    Some(rel) => Some(arch.displace(src, 2 + sign_extend8(rel))),
                    None => None,
                };
            }
        },
        None => {},
    }
    match resolve_ff_jump(arch, map, src) {
        Some(slot) => map.read_pointer(arch, slot),
        None => resolve_immediate_jump(arch, map, src),
    }
}

/// A walk along jump stubs, one stub at a time, for a process whose memory is
/// captured as the walk goes.
pub struct JumpWalk {
    pub current: u64,
    pub seen: Vec<u64>,
}

impl JumpWalk {
    /// Begins a walk at `pointer`.
    pub fn begin(pointer: u64) -> (walk: JumpWalk)
        ensures
            walk.current == pointer,
            walk.seen@ == Seq::<u64>::empty(),
    {
        JumpWalk { current: pointer, seen: Vec::new() }
    }

    /// Takes where the stub at the current address leads, and returns whether the
    /// walk goes on from there.
    pub fn step(&mut self, target: Option<u64>) -> (goes_on: bool)
        ensures
            goes_on == (old(self).seen@.len() < MAX_JUMP_FOLLOWS && !old(self).seen@.contains(
                old(self).current,
            ) && target is Some && target != Some(0u64)),
            goes_on ==> final(self).current == target->0 && final(self).seen@ == old(
                self,
            ).seen@.push(old(self).current),
            !goes_on ==> *final(self) == *old(self),
    {
        if self.seen.len() >= MAX_JUMP_FOLLOWS || contains_address(&self.seen, self.current) {
            return false;
        }
        match target {
            Some(next) => {
                if next == 0 {
                    return false;
                }
                self.seen.push(self.current);
                self.current = next;
                true
            },
            None => false,
        }
    }
}

/// Returns whether `address` is among `list`.
pub fn contains_address(list: &[u64], address: u64) -> (found: bool)
    ensures
        found == list@.contains(address),
{
    let mut i: usize = 0;
    while i < list.len()
        invariant
            i <= list@.len(),
            forall|j: int| 0 <= j < i ==> list@[j] != address,
        decreases list@.len() - i,
    {
        if list[i] == address {
            assert(list@[i as int] == address);
            return true;
        }
        i = i + 1;
    }
    false
}

/// Resolves a function pointer to the first real code address by following the
/// jump stubs and import thunks at the start of the function.
///
/// Returns null for a null pointer, and the pointer itself where no jump stub is
/// recognised.
pub fn detour_code_from_pointer(arch: Arch, map: &MemoryMap, pointer: u64) -> (code: u64)
    ensures
        pointer == 0 ==> code == 0,
        pointer != 0 ==> code == follow(arch, map@, pointer, Seq::empty()),
        pointer != 0 && jump_target(arch, map@, pointer) is None ==> code == pointer,
{
    if pointer == 0 {
        return 0;
    }
    let mut walk = JumpWalk::begin(pointer);
    let mut goes_on: bool = true;
    while goes_on
        invariant
            walk.seen@.len() <= MAX_JUMP_FOLLOWS,
            follow(arch, map@, walk.current, walk.seen@) == follow(
                arch,
                map@,
                pointer,
                Seq::empty(),
            ),
            !goes_on ==> walk.current == follow(arch, map@, pointer, Seq::empty()),
        decreases MAX_JUMP_FOLLOWS - walk.seen@.len(), goes_on as int,
    {
        let target = detour_code_from_pointer_once(arch, map, walk.current);
        goes_on = walk.step(target);
    }
    walk.current
}

/// The code that a pointer resolves to is never null for a pointer that is not.
pub proof fn lemma_follow_not_null(
    arch: Arch,
    regions: Seq<MemoryRegion>,
    current: u64,
    seen: Seq<u64>,
)
    requires
        current != 0,
    ensures
        follow(arch, regions, current, seen) != 0,
    decreases MAX_JUMP_FOLLOWS - seen.len(),
{
    if seen.len() < MAX_JUMP_FOLLOWS && !seen.contains(current) {
        match jump_target(arch, regions, current) {
            Some(next) => {
                if next != 0 {
                    lemma_follow_not_null(arch, regions, next, seen.push(current));
                }
            },
            None => {},
        }
    }
}

} // verus!
