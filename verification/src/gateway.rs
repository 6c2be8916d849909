//! A callable gateway to the original function, for hooks that trap at the
//! function's entry instead of replacing its first instructions.
use vstd::prelude::*;

use crate::arch::Arch;
use crate::disasm::{
    encoded_relocation, instruction_len, instructions_from, read_window, relocated, window,
    DisasmError, Disassembler, RelocationMapping,
};
use crate::mem::CodeWrite;
use crate::memory::{MemoryMap, MemoryRegion};
use crate::nearby::Trampoline;

verus! {

/// The number of bytes that are reserved for a gateway.
pub const GATEWAY_CAPACITY: usize = 64;

/// A gateway that is ready to be written.
#[derive(Debug)]
pub struct OriginalGateway {
    pub trampoline: Trampoline,
    pub write: CodeWrite,
}

/// The code of a gateway at `gateway` to the function at `target`: its first
/// instruction, relocated, with a jump behind the original one.
pub open spec fn gateway_code(
    arch: Arch,
    regions: Seq<MemoryRegion>,
    target: u64,
    gateway: u64,
) -> Option<Seq<u8>> {
    match instruction_len(arch, regions, target, 1) {
        Ok(len) => {
            let code = window(arch, regions, target as int, len);
            match relocated(
                instructions_from(arch, code, target, 0),
                encoded_relocation(arch, code, target, gateway),
            ) {
                Some((moved, _, _)) => Some(moved),
                None => None,
            }
        },
        Err(_) => None,
    }
}

/// Completes a gateway at `gateway` from what the relocation of the function's
/// first instruction came to.
pub fn finish_gateway(gateway: u64, relocation: Result<RelocationMapping, DisasmError>) -> (built:
    Option<OriginalGateway>)
    ensures
        match relocation {
            Ok(mapping) => built matches Some(ready) && {
                &&& ready.trampoline.ptr == gateway
                &&& ready.trampoline.size == GATEWAY_CAPACITY
                &&& ready.write.address == gateway
                &&& ready.write.bytes@ == mapping.code@
            },
            Err(_) => built is None,
        },
{
    match relocation {
        Ok(mapping) => Some(
            OriginalGateway {
                trampoline: Trampoline { ptr: gateway, size: GATEWAY_CAPACITY as u64 },
                write: CodeWrite { address: gateway, bytes: mapping.code },
            },
        ),
        Err(_) => None,
    }
}

/// Builds a gateway that runs the original first instruction of the function at
/// `target` and resumes in its body. `memory` was allocated near the target.
///
/// Returns `None` for a null target, where the first instruction cannot be
/// measured or relocated, and where there is no memory.
pub fn build_original_gateway(arch: Arch, map: &MemoryMap, target: u64, memory: Option<u64>) -> (
built: Option<OriginalGateway>)
    ensures
        match built {
            Some(ready) => {
                &&& target != 0
                &&& memory == Some(ready.trampoline.ptr)
                &&& ready.trampoline.size == GATEWAY_CAPACITY
                &&& ready.write.address == ready.trampoline.ptr
                &&& gateway_code(arch, map@, target, ready.trampoline.ptr) == Some(
                    ready.write.bytes@,
                )
            },
            None => target == 0 || memory is None || gateway_code(
                arch,
                map@,
                target,
                memory->0,
            ) is None,
        },
{
    if target == 0 {
        return None;
    }
    let len: usize = match Disassembler::get_instruction_len(arch, map, target, 1) {
        Ok(len) => len,
        Err(_) => {
            return None;
        },
    };
    let gateway: u64 = match memory {
        Some(gateway) => gateway,
        None => {
            return None;
        },
    };
    let code = read_window(arch, map, target, len as u64);
    let relocation = Disassembler::relocate(arch, &code, target, gateway);
    finish_gateway(gateway, relocation)
}

} // verus!
