//! The code of inline hooks: jumps, gateway stubs and redirected addresses.
use vstd::prelude::*;

use crate::arch::Arch;
use crate::bytes::{
    le4, le8, lemma_u32_round_trip, lemma_u64_round_trip, push_u32, read_u32, read_u64,
    sign_extend32, signed32, u32_at, u64_at,
};
use crate::eat::{absolute_jump, write_abs_jump_stub};
use crate::code::{jump_target, rip_slot};
use crate::memory::{bytes_at, lemma_part_of_bytes, readable, region_at, MemoryRegion};
use crate::nearby::Trampoline;
use crate::DetourError;

verus! {

/// How many pointer-sized slots of a stack are scanned for return addresses.
pub const STACK_SCAN_DEPTH: usize = 512;

/// The byte that fills up a patch: a one-byte instruction that does nothing.
pub const NOP: u8 = 0x90;

/// The kind of jump that redirects a function.
///
/// - `Relative5` is `E9` with a 32-bit displacement, for detours within its reach.
/// - `Absolute14` is an indirect jump through the eight bytes behind it, on x64
///   only.
#[derive(Clone, Copy, Debug, PartialEq, Eq, Structural)]
pub enum JumpType {
    Relative5,
    Absolute14,
}

impl JumpType {
    /// The number of bytes of the jump.
    pub open spec fn spec_len(self) -> usize {
        match self {
            JumpType::Relative5 => 5,
            JumpType::Absolute14 => 14,
        }
    }

    /// Returns the number of bytes of the jump.
    pub fn len(self) -> (len: usize)
        ensures
            len == self.spec_len(),
    {
        match self {
            JumpType::Relative5 => 5,
            JumpType::Absolute14 => 14,
        }
    }
}

/// What kind of code an inline hook is attached to.
#[derive(Clone, Copy, Debug, PartialEq, Eq, Structural)]
pub enum TargetKind {
    /// A function whose first instructions are stolen and relocated.
    Normal,
    /// A gateway stub of an earlier hook, which is replaced by another one.
    ManagedGateway,
}

/// Where the stolen instructions start, in the original code and in the
/// relocated code.
#[derive(Debug)]
pub struct RedirectMap {
    pub old_instruction_offsets: Vec<u32>,
    pub new_instruction_offsets: Vec<u32>,
}

/// A prepared inline hook.
#[derive(Debug)]
pub struct InlineData {
    pub target: u64,
    pub detour: u64,
    pub trampoline: Trampoline,
    /// Where the stolen code continues in the trampoline.
    pub redirect_base: u64,
    pub stolen_len: usize,
    pub jump_type: JumpType,
    pub orig_bytes: Vec<u8>,
    pub target_kind: TargetKind,
    pub redirect_map: Option<RedirectMap>,
}

/// The number of bytes of a gateway stub.
pub open spec fn gateway_len(arch: Arch) -> usize {
    match arch {
        Arch::X86 => 5,
        Arch::X64 => 14,
    }
}

/// Returns the number of bytes of a gateway stub.
pub fn managed_gateway_len(arch: Arch) -> (len: usize)
    ensures
        len == gateway_len(arch),
{
    match arch {
        Arch::X86 => 5,
        Arch::X64 => 14,
    }
}

/// The displacement of a five-byte jump from `from` to `to`.
pub open spec fn displacement(from: u64, to: u64) -> u32 {
    ((to - from - 5) % 0x1_0000_0000) as u32
}

/// Returns the displacement of a five-byte jump from `from` to `to`.
pub fn jump_displacement(from: u64, to: u64) -> (rel: u32)
    ensures
        rel == displacement(from, to),
{
    let difference: i128 = to as i128 - from as i128 - 5;
    let low: i128 = ((difference % 0x1_0000_0000) + 0x1_0000_0000) % 0x1_0000_0000;
    low as u32
}

/// The code of a five-byte jump from `from` to `to`.
pub open spec fn relative_jump(from: u64, to: u64) -> Seq<u8> {
    seq![0xE9u8] + le4(displacement(from, to))
}

/// Returns the code of a five-byte jump from `from` to `to`.
pub fn write_relative_jump(from: u64, to: u64) -> (code: Vec<u8>)
    ensures
        code@ == relative_jump(from, to),
        code@.len() == 5,
{
    let mut code: Vec<u8> = Vec::new();
    code.push(0xE9);
    assert(code@ =~= seq![0xE9u8]);
    push_u32(&mut code, jump_displacement(from, to));
    code
}

/// Whether a five-byte jump at `from` reaches `to`.
pub open spec fn within_reach(arch: Arch, from: u64, to: u64) -> bool {
    match arch {
        Arch::X86 => true,
        Arch::X64 => {
            let distance = (to - from - 5) % 0x1_0000_0000_0000_0000;
            distance < 0x8000_0000 || distance >= 0x1_0000_0000_0000_0000 - 0x8000_0000
        },
    }
}

/// The jump that redirects `target` to `detour`.
pub open spec fn jump_type_of(arch: Arch, target: u64, detour: u64) -> JumpType {
    if within_reach(arch, target, detour) {
        JumpType::Relative5
    } else {
        JumpType::Absolute14
    }
}

/// Chooses the jump that redirects `target` to `detour`.
pub fn choose_jump(arch: Arch, target: u64, detour: u64) -> (jump: JumpType)
    ensures
        jump == jump_type_of(arch, target, detour),
{
    match arch {
        Arch::X86 => JumpType::Relative5,
        Arch::X64 => {
            let limit: i128 = 0x1_0000_0000_0000_0000;
            let difference: i128 = detour as i128 - target as i128 - 5;
            let distance: i128 = ((difference % limit) + limit) % limit;
            if distance < 0x8000_0000 || distance >= limit - 0x8000_0000 {
                JumpType::Relative5
            } else {
                JumpType::Absolute14
            }
        },
    }
}

/// A five-byte jump whose target is within reach leads there.
pub proof fn lemma_relative_jump_leads(arch: Arch, from: u64, to: u64)
    requires
        from < arch.address_limit(),
        to < arch.address_limit(),
        within_reach(arch, from, to),
    ensures
        arch.displaced(from, 5 + signed32(displacement(from, to))) == to,
{
    let difference = to - from - 5;
    let low = difference % 0x1_0000_0000;
    let signed = signed32(displacement(from, to));
    assert(signed == low || signed == low - 0x1_0000_0000);
    match arch {
        Arch::X86 => {
            assert((from + 5 + low) % 0x1_0000_0000 == to);
        },
        Arch::X64 => {
            let distance = difference % 0x1_0000_0000_0000_0000;
            if distance < 0x8000_0000 {
                assert(low == distance);
                assert(signed == distance);
            } else {
                assert(low == distance - (0x1_0000_0000_0000_0000 - 0x1_0000_0000));
                assert(signed == distance - 0x1_0000_0000_0000_0000);
            }
        },
    }
}

/// The code of a gateway stub at `at` that leads to `to`.
pub open spec fn gateway_stub(arch: Arch, at: u64, to: u64) -> Seq<u8> {
    match arch {
        Arch::X86 => relative_jump(at, to),
        Arch::X64 => absolute_jump(to),
    }
}

/// Where the gateway stub at `at` leads, if `code` is one.
pub open spec fn gateway_target(arch: Arch, at: u64, code: Seq<u8>) -> Option<u64> {
    match arch {
        Arch::X86 => if code[0] == 0xE9 {
            Some(arch.displaced(at, 5 + signed32(u32_at(code, 1))))
        } else {
            None
        },
        Arch::X64 => if code[0] == 0xFF && code[1] == 0x25 && code[2] == 0 && code[3] == 0
            && code[4] == 0 && code[5] == 0 {
            Some(u64_at(code, 6))
        } else {
            None
        },
    }
}

/// Returns the code of a gateway stub at `at` that leads to `to`.
pub fn write_managed_gateway_stub(arch: Arch, at: u64, to: u64) -> (stub: Vec<u8>)
    ensures
        stub@ == gateway_stub(arch, at, to),
        stub@.len() == gateway_len(arch),
{
    match arch {
        Arch::X86 => write_relative_jump(at, to),
        Arch::X64 => write_abs_jump_stub(to),
    }
}

/// Returns where the gateway stub at `at` leads, `None` where `code` is none.
pub fn read_managed_gateway_target(arch: Arch, at: u64, code: &[u8]) -> (target: Option<u64>)
    requires
        code@.len() >= gateway_len(arch),
    ensures
        target == gateway_target(arch, at, code@),
{
    match arch {
        Arch::X86 => if code[0] == 0xE9 {
            Some(arch.displace(at, 5 + sign_extend32(read_u32(code, 1))))
        } else {
            None
        },
        Arch::X64 => if code[0] == 0xFF && code[1] == 0x25 && code[2] == 0 && code[3] == 0
            && code[4] == 0 && code[5] == 0 {
            Some(read_u64(code, 6))
        } else {
            None
        },
    }
}

/// What is read back of a gateway stub is the target that it was written for.
pub proof fn lemma_gateway_round_trip(arch: Arch, at: u64, to: u64)
    requires
        at < arch.address_limit(),
        to < arch.address_limit(),
    ensures
        gateway_target(arch, at, gateway_stub(arch, at, to)) == Some(to),
{
    let code = gateway_stub(arch, at, to);
    match arch {
        Arch::X86 => {
            assert(code.subrange(1, 5) =~= le4(displacement(at, to)));
            lemma_u32_round_trip(code, 1, displacement(at, to));
            lemma_relative_jump_leads(arch, at, to);
        },
        Arch::X64 => {
            assert(code.subrange(6, 14) =~= le8(to));
            lemma_u64_round_trip(code, 6, to);
        },
    }
}

impl InlineData {
    /// What every prepared hook satisfies: the stolen bytes hold the jump, the
    /// original bytes were kept, and an address in the stolen code can be
    /// translated to one in the trampoline.
    pub open spec fn wf(self, arch: Arch) -> bool {
        &&& self.target != 0
        &&& self.detour != 0
        &&& self.target + self.stolen_len <= u64::MAX
        &&& self.stolen_len <= u32::MAX
        &&& self.jump_type.spec_len() <= self.stolen_len
        &&& self.jump_type == jump_type_of(arch, self.target, self.detour)
        &&& self.orig_bytes@.len() == self.stolen_len
        &&& match self.target_kind {
            TargetKind::Normal => {
                &&& self.redirect_base == arch.displaced(
                    self.trampoline.ptr,
                    gateway_len(arch) as int,
                )
                &&& self.redirect_map matches Some(map) && {
                    &&& map.old_instruction_offsets@.len() == map.new_instruction_offsets@.len()
                    &&& forall|i: int|
                        0 <= i < map.new_instruction_offsets@.len() ==> gateway_len(arch)
                            + #[trigger] map.new_instruction_offsets@[i] < self.trampoline.size
                }
            },
            TargetKind::ManagedGateway => {
                &&& self.redirect_base == self.trampoline.ptr
                &&& self.stolen_len == gateway_len(arch)
                &&& self.stolen_len <= self.trampoline.size
            },
        }
    }

    /// Whether `address` lies in the stolen code.
    pub open spec fn steals(self, address: u64) -> bool {
        self.target <= address < self.target + self.stolen_len
    }

    /// The jump to the detour.
    pub open spec fn jump_code(self) -> Seq<u8> {
        match self.jump_type {
            JumpType::Relative5 => relative_jump(self.target, self.detour),
            JumpType::Absolute14 => absolute_jump(self.detour),
        }
    }

    /// The bytes that replace the stolen ones: the jump to the detour, filled up
    /// with instructions that do nothing.
    pub open spec fn patch(self) -> Seq<u8> {
        self.jump_code() + Seq::new(
            (self.stolen_len - self.jump_type.spec_len()) as nat,
            |i: int| NOP,
        )
    }

    /// Returns the bytes that replace the stolen ones.
    pub fn patch_bytes(&self) -> (patch: Vec<u8>)
        requires
            self.jump_type.spec_len() <= self.stolen_len,
        ensures
            patch@ == self.patch(),
            patch@.len() == self.stolen_len,
    {
        let mut patch: Vec<u8> = match self.jump_type {
            JumpType::Relative5 => write_relative_jump(self.target, self.detour),
            JumpType::Absolute14 => write_abs_jump_stub(self.detour),
        };
        let len: usize = self.jump_type.len();
        assert(patch@ =~= self.jump_code() + Seq::new(0, |i: int| NOP));
        while patch.len() < self.stolen_len
            invariant
                len == self.jump_type.spec_len(),
                len <= patch@.len() <= self.stolen_len,
                patch@ == self.jump_code() + Seq::new((patch@.len() - len) as nat, |i: int| NOP),
                self.jump_code().len() == len,
            decreases self.stolen_len - patch@.len(),
        {
            let ghost count = (patch@.len() - len) as nat;
            patch.push(NOP);
            assert(patch@ =~= self.jump_code() + Seq::new((count + 1) as nat, |i: int| NOP));
        }
        patch
    }
}

/// The position of the first `value` from `at` on.
pub open spec fn position_of(list: Seq<u32>, value: u32, at: int) -> Option<int>
    decreases list.len() - at,
{
    if at < 0 || at >= list.len() {
        None
    } else if list[at] == value {
        Some(at)
    } else {
        position_of(list, value, at + 1)
    }
}

/// Returns the position of the first `value`.
fn find_position(list: &Vec<u32>, value: u32) -> (position: Option<usize>)
    ensures
        match position {
            Some(index) => position_of(list@, value, 0) == Some(index as int) && index
                < list@.len(),
            None => position_of(list@, value, 0) is None,
        },
{
    let mut i: usize = 0;
    while i < list.len()
        invariant
            i <= list@.len(),
            position_of(list@, value, i as int) == position_of(list@, value, 0),
        decreases list@.len() - i,
    {
        if list[i] == value {
            return Some(i);
        }
        i = i + 1;
    }
    None
}

/// A position that was found holds the value.
pub proof fn lemma_position_of(list: Seq<u32>, value: u32, at: int)
    requires
        0 <= at,
    ensures
        match position_of(list, value, at) {
            Some(found) => at <= found < list.len() && list[found] == value,
            None => forall|i: int| at <= i < list.len() ==> list[i] != value,
        },
    decreases list.len() - at,
{
    if at < list.len() && list[at] != value {
        lemma_position_of(list, value, at + 1);
    }
}

/// Where an address in the stolen code continues in the trampoline: the start of
/// an instruction continues at its relocated start, any address in a gateway stub
/// at the same offset. `None` where the address is not translated.
pub open spec fn redirected(arch: Arch, data: InlineData, address: u64) -> Option<u64> {
    if !data.steals(address) {
        None
    } else {
        let offset = address - data.target;
        match data.target_kind {
            TargetKind::ManagedGateway => Some(arch.displaced(data.redirect_base, offset)),
            TargetKind::Normal => {
                let map = data.redirect_map->0;
                match position_of(map.old_instruction_offsets@, offset as u32, 0) {
                    Some(index) => Some(
                        arch.displaced(
                            data.redirect_base,
                            map.new_instruction_offsets@[index] as int,
                        ),
                    ),
                    None => None,
                }
            },
        }
    }
}

/// Returns where an address in the stolen code continues in the trampoline.
pub fn map_redirect_address_exact(arch: Arch, data: &InlineData, address: u64) -> (mapped: Option<
    u64,
>)
    requires
        data.wf(arch),
    ensures
        mapped == redirected(arch, *data, address),
{
    if address < data.target || address - data.target >= data.stolen_len as u64 {
        return None;
    }
    let offset: u64 = address - data.target;
    match data.target_kind {
        TargetKind::ManagedGateway => Some(arch.displace(data.redirect_base, offset as i128)),
        TargetKind::Normal => match &data.redirect_map {
            Some(map) => match find_position(&map.old_instruction_offsets, offset as u32) {
                Some(index) => Some(
                    arch.displace(
                        data.redirect_base,
                        map.new_instruction_offsets[index] as i128,
                    ),
                ),
                None => None,
            },
            None => None,
        },
    }
}

/// What was captured of a suspended thread: its instruction pointer, its stack
/// pointer, and the pointer-sized values from the stack pointer on.
#[derive(Debug)]
pub struct ThreadState {
    pub ip: u64,
    pub sp: u64,
    pub stack: Vec<u64>,
}

/// How many pointer-sized slots between `sp` and `top` are scanned.
pub open spec fn scanned_slots(arch: Arch, sp: int, top: int) -> int {
    if top <= sp {
        0
    } else if (top - sp) / arch.spec_pointer_size() as int >= STACK_SCAN_DEPTH {
        STACK_SCAN_DEPTH as int
    } else {
        (top - sp) / arch.spec_pointer_size() as int
    }
}

/// Returns how many pointer-sized slots are scanned of a stack whose pointer is
/// `sp` and whose region ends at `top`: whole slots only, and not too many.
pub fn stack_scan_len(arch: Arch, sp: u64, top: u64) -> (count: usize)
    ensures
        count == scanned_slots(arch, sp as int, top as int),
        count <= STACK_SCAN_DEPTH,
        sp + count * arch.spec_pointer_size() <= top || count == 0,
{
    if top <= sp {
        return 0;
    }
    let slots: u64 = match arch {
        Arch::X86 => (top - sp) / 4,
        Arch::X64 => (top - sp) / 8,
    };
    if slots >= STACK_SCAN_DEPTH as u64 {
        STACK_SCAN_DEPTH
    } else {
        slots as usize
    }
}

/// A return address on a stack that is replaced.
#[derive(Clone, Copy, Debug, PartialEq, Eq, Structural)]
pub struct StackRedirect {
    pub address: u64,
    pub old: u64,
    pub new: u64,
}

/// What is changed of a suspended thread before code under it is replaced: the
/// instruction pointer, and return addresses on the stack.
#[derive(Debug)]
pub struct ThreadRedirect {
    pub ip: Option<u64>,
    pub stack: Vec<StackRedirect>,
}

/// The replacements among the first `upto` stack slots.
pub open spec fn stack_redirects(
    arch: Arch,
    data: InlineData,
    sp: u64,
    stack: Seq<u64>,
    upto: int,
) -> Seq<StackRedirect>
    decreases upto,
{
    if upto <= 0 {
        Seq::empty()
    } else {
        let before = stack_redirects(arch, data, sp, stack, upto - 1);
        match redirected(arch, data, stack[upto - 1]) {
            Some(new) => before.push(
                StackRedirect {
                    address: arch.displaced(sp, (upto - 1) * arch.spec_pointer_size()),
                    old: stack[upto - 1],
                    new,
                },
            ),
            None => before,
        }
    }
}

/// Decides what is changed of a suspended thread so that it does not run into
/// the code that `data` replaces.
///
/// An instruction pointer in the stolen code that is not at the start of an
/// instruction cannot be translated, and the hook is refused.
pub fn redirect_rip_relative_threads(arch: Arch, data: &InlineData, state: &ThreadState) -> (
redirect: Result<ThreadRedirect, DetourError>)
    requires
        data.wf(arch),
        state.stack@.len() <= STACK_SCAN_DEPTH,
    ensures
        match redirect {
            Ok(change) => {
                &&& change.ip == redirected(arch, *data, state.ip)
                &&& data.steals(state.ip) ==> change.ip is Some
                &&& change.stack@ == stack_redirects(
                    arch,
                    *data,
                    state.sp,
                    state.stack@,
                    state.stack@.len() as int,
                )
            },
            Err(error) => {
                &&& data.steals(state.ip)
                &&& redirected(arch, *data, state.ip) is None
                &&& error == DetourError::RelocationFailed
            },
        },
{
    let mut ip: Option<u64> = None;
    if state.ip >= data.target && state.ip - data.target < data.stolen_len as u64 {
        match map_redirect_address_exact(arch, data, state.ip) {
            Some(address) => {
                ip = Some(address);
            },
            None => {
                return Err(DetourError::RelocationFailed);
            },
        }
    }
    let mut stack: Vec<StackRedirect> = Vec::new();
    let step: u64 = arch.pointer_size();
    let mut i: usize = 0;
    while i < state.stack.len()
        invariant
            data.wf(arch),
            i <= state.stack@.len() <= STACK_SCAN_DEPTH,
            step == arch.spec_pointer_size(),
            stack@ == stack_redirects(arch, *data, state.sp, state.stack@, i as int),
        decreases state.stack@.len() - i,
    {
        let value: u64 = state.stack[i];
        match map_redirect_address_exact(arch, data, value) {
            Some(new) => {
                assert(i * step <= 0x1000) by (nonlinear_arith)
                    requires
                        i <= 512,
                        step <= 8,
                ;
                let offset: u64 = i as u64 * step;
                let address: u64 = arch.displace(state.sp, offset as i128);
                stack.push(StackRedirect { address, old: value, new });
            },
            None => {},
        }
        i = i + 1;
    }
    Ok(ThreadRedirect { ip, stack })
}

/// No address in the replaced code is left behind: every recorded replacement
/// leads from the stolen code to the address that stands for it in the
/// trampoline.
pub proof fn lemma_redirects_leave_stolen_code(
    arch: Arch,
    data: InlineData,
    sp: u64,
    stack: Seq<u64>,
    upto: int,
)
    requires
        upto <= stack.len(),
    ensures
        forall|i: int|
            0 <= i < stack_redirects(arch, data, sp, stack, upto).len() ==> {
                let change = #[trigger] stack_redirects(arch, data, sp, stack, upto)[i];
                data.steals(change.old) && redirected(arch, data, change.old) == Some(change.new)
            },
    decreases upto,
{
    if upto > 0 {
        lemma_redirects_leave_stolen_code(arch, data, sp, stack, upto - 1);
    }
}

/// A thread that is moved out of the stolen code goes on inside the trampoline:
/// where the trampoline lies in the address space, every translated address is one of
/// its own.
pub proof fn lemma_redirects_lead_into_trampoline(arch: Arch, data: InlineData, address: u64)
    requires
        data.wf(arch),
        data.trampoline.ptr + data.trampoline.size <= arch.address_limit(),
        redirected(arch, data, address) is Some,
    ensures
        data.trampoline.ptr <= redirected(arch, data, address)->0 < data.trampoline.ptr
            + data.trampoline.size,
{
    let start = data.trampoline.ptr;
    match data.target_kind {
        TargetKind::ManagedGateway => {
            assert(arch.displaced(start, address - data.target) == start + (address - data.target));
        },
        TargetKind::Normal => {
            let map = data.redirect_map->0;
            lemma_position_of(map.old_instruction_offsets@, (address - data.target) as u32, 0);
            let index = position_of(
                map.old_instruction_offsets@,
                (address - data.target) as u32,
                0,
            )->0;
            let offset = map.new_instruction_offsets@[index] as int;
            assert(gateway_len(arch) + offset < data.trampoline.size);
            assert(arch.displaced(start, gateway_len(arch) as int) == start + gateway_len(arch));
            assert(arch.displaced(data.redirect_base, offset) == data.redirect_base + offset);
        },
    }
}

/// A function that an inline hook has patched leads to the detour: where memory
/// holds the patch of a hook at its target, in one region, the jump stub that
/// stands there jumps to the detour.
pub proof fn lemma_patched_target_leads_to_detour(
    arch: Arch,
    regions: Seq<MemoryRegion>,
    data: InlineData,
)
    requires
        data.wf(arch),
        data.detour < arch.address_limit(),
        bytes_at(arch, regions, data.target as int, data.stolen_len as int) == Some(data.patch()),
        forall|a: int|
            data.target <= a < data.target + data.stolen_len ==> #[trigger] region_at(regions, a)
                == region_at(regions, data.target as int),
    ensures
        jump_target(arch, regions, data.target) == Some(data.detour),
{
    let patch = data.patch();
    match data.jump_type {
        JumpType::Relative5 => {
            assert(data.jump_code().len() == 5);
            assert(patch.subrange(0, 5) =~= relative_jump(data.target, data.detour));
            lemma_relative_patch_leads(arch, regions, data.target, patch, data.detour);
        },
        JumpType::Absolute14 => {
            assert(data.jump_code().len() == 14);
            assert(patch.subrange(0, 14) =~= absolute_jump(data.detour));
            lemma_absolute_patch_leads(regions, data.target, patch, data.detour);
        },
    }
}

/// Whether `bytes` stand at `address` in one region.
spec fn stands(arch: Arch, regions: Seq<MemoryRegion>, address: u64, bytes: Seq<u8>) -> bool {
    &&& address != 0
    &&& bytes_at(arch, regions, address as int, bytes.len() as int) == Some(bytes)
    &&& forall|a: int|
        address <= a < address + bytes.len() ==> #[trigger] region_at(regions, a) == region_at(
            regions,
            address as int,
        )
}

/// The bytes from `offset` on are read at the address as many bytes further on.
proof fn lemma_inner_read(
    arch: Arch,
    regions: Seq<MemoryRegion>,
    address: u64,
    bytes: Seq<u8>,
    offset: int,
    count: int,
)
    requires
        stands(arch, regions, address, bytes),
        0 <= offset,
        count > 0,
        offset + count <= bytes.len(),
    ensures
        arch.displaced(address, offset) == address + offset,
        bytes_at(arch, regions, arch.displaced(address, offset) as int, count) == Some(
            bytes.subrange(offset, offset + count),
        ),
{
    assert(readable(arch, regions, address as int, bytes.len() as int));
    assert(region_at(regions, address + offset) == region_at(regions, address as int));
    lemma_part_of_bytes(
        arch,
        regions,
        address as int,
        bytes.len() as int,
        offset,
        count,
    );
    assert(address + offset < arch.address_limit());
    assert((address + offset) % arch.address_limit() == address + offset) by (nonlinear_arith)
        requires
            0 <= address + offset < arch.address_limit(),
    ;
}

/// A five-byte jump that stands at an address leads where it should.
proof fn lemma_relative_patch_leads(
    arch: Arch,
    regions: Seq<MemoryRegion>,
    target: u64,
    patch: Seq<u8>,
    detour: u64,
)
    requires
        stands(arch, regions, target, patch),
        patch.len() >= 5,
        patch.subrange(0, 5) == relative_jump(target, detour),
        detour < arch.address_limit(),
        within_reach(arch, target, detour),
    ensures
        jump_target(arch, regions, target) == Some(detour),
{
    lemma_inner_read(arch, regions, target, patch, 0, 1);
    lemma_inner_read(arch, regions, target, patch, 1, 4);
    assert(patch[0] == patch.subrange(0, 5)[0]);
    assert(patch.subrange(0, 1)[0] == patch[0]);
    let part = patch.subrange(1, 5);
    assert(part =~= patch.subrange(0, 5).subrange(1, 5));
    assert(part =~= le4(displacement(target, detour)));
    assert(part.subrange(0, 4) =~= part);
    lemma_u32_round_trip(part, 0, displacement(target, detour));
    lemma_relative_jump_leads(arch, target, detour);
}

/// A jump through the pointer behind it that stands at an address leads where it
/// should.
proof fn lemma_absolute_patch_leads(
    regions: Seq<MemoryRegion>,
    target: u64,
    patch: Seq<u8>,
    detour: u64,
)
    requires
        stands(Arch::X64, regions, target, patch),
        patch.len() >= 14,
        patch.subrange(0, 14) == absolute_jump(detour),
    ensures
        jump_target(Arch::X64, regions, target) == Some(detour),
{
    let arch = Arch::X64;
    let code = patch.subrange(0, 14);
    assert(code[0] == 0xFF && code[1] == 0x25);
    lemma_inner_read(arch, regions, target, patch, 0, 1);
    assert(patch.subrange(0, 1)[0] == code[0]);
    lemma_inner_read(arch, regions, target, patch, 1, 1);
    assert(patch.subrange(1, 2)[0] == code[1]);
    lemma_inner_read(arch, regions, target, patch, 2, 4);
    let part = patch.subrange(2, 6);
    assert(0u32 & 0xff == 0 && (0u32 >> 8) & 0xff == 0 && (0u32 >> 16) & 0xff == 0 && (0u32 >> 24)
        & 0xff == 0) by (bit_vector);
    assert(part[0] == code[2] && part[1] == code[3] && part[2] == code[4] && part[3] == code[5]);
    assert(part.subrange(0, 4) =~= le4(0u32));
    lemma_u32_round_trip(part, 0, 0);
    lemma_inner_read(arch, regions, target, patch, 6, 8);
    assert(rip_slot(arch, regions, target, 2) == Some((target + 6) as u64));
    let pointer = patch.subrange(6, 14);
    assert(pointer =~= code.subrange(6, 14));
    assert(pointer =~= le8(detour));
    assert(pointer.subrange(0, 8) =~= pointer);
    lemma_u64_round_trip(pointer, 0, detour);
}

} // verus!
