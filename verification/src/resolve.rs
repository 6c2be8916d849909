//! Resolving the address that an instruction refers to.
use vstd::prelude::*;

use crate::arch::Arch;
use crate::bytes::{read_u32, sign_extend32, signed32, u32_at};
use crate::disasm::{
    decode_all, decoded, instructions_from, read_window, readable_bytes_from, readable_from,
    window, DecodedInstruction, FirstOperand, MAX_INSTRUCTION_LEN,
};
use crate::memory::{MemoryMap, MemoryRegion};

verus! {

/// The instruction at `address`, where the address is not null, its memory can
/// be read and its bytes decode.
pub open spec fn instruction_at(
    arch: Arch,
    regions: Seq<MemoryRegion>,
    address: u64,
) -> Option<DecodedInstruction> {
    let code = window(arch, regions, address as int, MAX_INSTRUCTION_LEN as int);
    if address == 0 || readable_from(arch, regions, address as int) == 0 || code.len() == 0 {
        None
    } else {
        let first = decoded(arch.spec_bitness(), code, address);
        if first.invalid {
            None
        } else {
            Some(first)
        }
    }
}

/// Decodes the instruction at `address`.
pub fn decode_one(arch: Arch, map: &MemoryMap, address: u64) -> (instruction: Option<
    DecodedInstruction,
>)
    ensures
        instruction == instruction_at(arch, map@, address),
{
    if address == 0 {
        return None;
    }
    if readable_bytes_from(arch, map, address) == 0 {
        return None;
    }
    let code = read_window(arch, map, address, MAX_INSTRUCTION_LEN as u64);
    if code.len() == 0 {
        return None;
    }
    let list = decode_all(arch, &code, address);
    proof {
        assert(code@.subrange(0, code@.len() as int) =~= code@);
        assert(instructions_from(arch, code@, address, 0)[0] == decoded(
            arch.spec_bitness(),
            code@,
            address,
        ));
    }
    if list[0].invalid {
        return None;
    }
    Some(list[0])
}

/// The target of a near branch.
pub open spec fn branch_target(instruction: DecodedInstruction) -> Option<u64> {
    match instruction.first_operand {
        FirstOperand::Other => None,
        _ => Some(instruction.near_branch_target),
    }
}

/// The address of an instruction-pointer-relative memory operand.
pub open spec fn relative_operand(instruction: DecodedInstruction) -> Option<u64> {
    if instruction.ip_relative {
        Some(instruction.memory_displacement)
    } else {
        None
    }
}

/// Returns the target of a near branch, `None` for any other instruction.
pub fn near_branch_of(instruction: DecodedInstruction) -> (target: Option<u64>)
    ensures
        target == branch_target(instruction),
{
    match instruction.first_operand {
        FirstOperand::NearBranch16 | FirstOperand::NearBranch32 | FirstOperand::NearBranch64 => {
            Some(instruction.near_branch_target)
        },
        FirstOperand::Other => None,
    }
}

/// Returns the address of an instruction-pointer-relative memory operand, `None`
/// for an instruction without one.
pub fn relative_operand_of(instruction: DecodedInstruction) -> (address: Option<u64>)
    ensures
        address == relative_operand(instruction),
{
    if instruction.ip_relative {
        Some(instruction.memory_displacement)
    } else {
        None
    }
}

/// Resolves the absolute target of a near branch (`call`, `jmp`, `jcc`) at
/// `address`.
///
/// Returns `None` if the address is not readable, does not decode, or holds no
/// near branch.
pub fn resolve_call_target(arch: Arch, map: &MemoryMap, address: u64) -> (target: Option<u64>)
    ensures
        target == (match instruction_at(arch, map@, address) {
            Some(instruction) => branch_target(instruction),
            None => None,
        }),
{
    match decode_one(arch, map, address) {
        Some(instruction) => near_branch_of(instruction),
        None => None,
    }
}

/// Resolves the absolute address that a RIP-relative memory operand at `address`
/// refers to.
///
/// Returns `None` if the address is not readable, does not decode, or holds no
/// instruction with such an operand.
pub fn resolve_rip_relative(arch: Arch, map: &MemoryMap, address: u64) -> (operand: Option<u64>)
    ensures
        operand == (match instruction_at(arch, map@, address) {
            Some(instruction) => relative_operand(instruction),
            None => None,
        }),
{
    match decode_one(arch, map, address) {
        Some(instruction) => relative_operand_of(instruction),
        None => None,
    }
}

/// Resolves a relative reference from its raw encoding, without decoding.
///
/// `instruction` holds the bytes at `address`. The signed 32-bit displacement
/// stands at `disp_offset` and counts from the end of the instruction, which is
/// `instr_len` bytes long.
pub fn resolve_relative(
    arch: Arch,
    instruction: &[u8],
    address: u64,
    disp_offset: usize,
    instr_len: usize,
) -> (target: u64)
    requires
        disp_offset + 4 <= instruction@.len(),
    ensures
        target == arch.displaced(
            address,
            instr_len + signed32(u32_at(instruction@, disp_offset as int)),
        ),
{
    let displacement: i128 = sign_extend32(read_u32(instruction, disp_offset));
    arch.displace(address, instr_len as i128 + displacement)
}

} // verus!
