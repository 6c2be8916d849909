//! Hooks in the middle of a function: a stub captures the registers, calls a
//! handler with them, restores them and resumes the function. This module holds
//! the stub and the register block for x64; [`crate::midhook_x86`] holds those
//! for x86.
use vstd::prelude::*;

use crate::arch::Arch;
use crate::bytes::{le4, le8, lemma_u64_round_trip, push_all, push_u32, push_u64, u64_at};
use crate::eat::absolute_jump;
use crate::mem::CodeWrite;
use crate::nearby::Trampoline;
use crate::transaction::Hook;
use crate::DetourError;

verus! {

/// The number of bytes that are reserved for a stub.
pub const STUB_CAPACITY: usize = 512;

/// The number of bytes of the stub.
pub const STUB_LEN: usize = 379;

/// Where the stub holds the address of the handler.
pub const HANDLER_OFFSET: usize = 184;

/// The number of bytes of the register block.
pub const CONTEXT_SIZE: usize = 392;

/// A 128-bit register: bytes 0 to 7 are `low`, bytes 8 to 15 are `high`.
#[derive(Clone, Copy, Debug, PartialEq, Eq, Structural)]
pub struct Xmm {
    pub low: u64,
    pub high: u64,
}

impl Default for Xmm {
    fn default() -> (zero: Xmm)
        ensures
            zero.low == 0,
            zero.high == 0,
    {
        Xmm { low: 0, high: 0 }
    }
}

/// The bytes of a 128-bit register in memory.
pub open spec fn xmm_bytes(xmm: Xmm) -> Seq<u8> {
    le8(xmm.low) + le8(xmm.high)
}

/// The bytes of the first `count` registers, one after the other.
pub open spec fn xmm_block(registers: Seq<Xmm>, count: int) -> Seq<u8>
    decreases count,
{
    if count <= 0 {
        Seq::empty()
    } else {
        xmm_block(registers, count - 1) + xmm_bytes(registers[count - 1])
    }
}

/// The bytes of registers are sixteen for each of them.
pub proof fn lemma_xmm_block_len(registers: Seq<Xmm>, count: int)
    requires
        0 <= count <= registers.len(),
    ensures
        xmm_block(registers, count).len() == 16 * count,
    decreases count,
{
    if count > 0 {
        lemma_xmm_block_len(registers, count - 1);
    }
}

/// The registers at a hook site, as the stub saves them for the handler.
///
/// A handler may change any of them; `xmm` holds the registers in the order of
/// their numbers.
#[derive(Clone, Copy, Debug)]
pub struct HookContext {
    pub rflags: u64,
    pub rax: u64,
    pub rcx: u64,
    pub rdx: u64,
    pub rbx: u64,
    pub rbp: u64,
    pub rsi: u64,
    pub rdi: u64,
    pub r8: u64,
    pub r9: u64,
    pub r10: u64,
    pub r11: u64,
    pub r12: u64,
    pub r13: u64,
    pub r14: u64,
    pub r15: u64,
    pub mxcsr: u32,
    pub _reserved: u32,
    pub xmm: [Xmm; 16],
}

impl HookContext {
    /// The block in memory, from the lowest address on: the flags, the
    /// general-purpose registers, the SSE control word with padding, and the
    /// 128-bit registers.
    pub open spec fn block(self) -> Seq<u8> {
        le8(self.rflags) + le8(self.rax) + le8(self.rcx) + le8(self.rdx) + le8(self.rbx) + le8(
            self.rbp,
        ) + le8(self.rsi) + le8(self.rdi) + le8(self.r8) + le8(self.r9) + le8(self.r10) + le8(
            self.r11,
        ) + le8(self.r12) + le8(self.r13) + le8(self.r14) + le8(self.r15) + le4(self.mxcsr) + le4(
            self._reserved,
        ) + xmm_block(self.xmm@, 16)
    }

    /// Returns the block as it stands in memory.
    pub fn to_bytes(&self) -> (bytes: Vec<u8>)
        ensures
            bytes@ == self.block(),
            bytes@.len() == CONTEXT_SIZE,
    {
        let mut bytes: Vec<u8> = Vec::new();
        push_u64(&mut bytes, self.rflags);
        push_u64(&mut bytes, self.rax);
        push_u64(&mut bytes, self.rcx);
        push_u64(&mut bytes, self.rdx);
        push_u64(&mut bytes, self.rbx);
        push_u64(&mut bytes, self.rbp);
        push_u64(&mut bytes, self.rsi);
        push_u64(&mut bytes, self.rdi);
        push_u64(&mut bytes, self.r8);
        push_u64(&mut bytes, self.r9);
        push_u64(&mut bytes, self.r10);
        push_u64(&mut bytes, self.r11);
        push_u64(&mut bytes, self.r12);
        push_u64(&mut bytes, self.r13);
        push_u64(&mut bytes, self.r14);
        push_u64(&mut bytes, self.r15);
        push_u32(&mut bytes, self.mxcsr);
        push_u32(&mut bytes, self._reserved);
        let ghost head = bytes@;
        assert(head.len() == 136);
        let mut n: usize = 0;
        assert(bytes@ =~= head + xmm_block(self.xmm@, 0));
        while n < 16
            invariant
                n <= 16,
                bytes@ == head + xmm_block(self.xmm@, n as int),
            decreases 16 - n,
        {
            let ghost before = bytes@;
            push_u64(&mut bytes, self.xmm[n].low);
            push_u64(&mut bytes, self.xmm[n].high);
            n = n + 1;
            assert(bytes@ =~= before + xmm_bytes(self.xmm@[n - 1]));
            assert(bytes@ =~= head + xmm_block(self.xmm@, n as int));
        }
        proof {
            lemma_xmm_block_len(self.xmm@, 16);
            assert(bytes@ =~= self.block());
        }
        bytes
    }
}

/// The code that saves register `n` on the stack.
pub open spec fn save_xmm(n: u8) -> Seq<u8> {
    seq![0x48u8, 0x83, 0xEC, 0x10] + (if n >= 8 {
        seq![0x44u8]
    } else {
        Seq::empty()
    }) + seq![0x0Fu8, 0x11, 0x04 | ((n & 7) << 3), 0x24]
}

/// The code that restores register `n` from the stack.
pub open spec fn restore_xmm(n: u8) -> Seq<u8> {
    (if n >= 8 {
        seq![0x44u8]
    } else {
        Seq::empty()
    }) + seq![0x0Fu8, 0x10, 0x04 | ((n & 7) << 3), 0x24] + seq![0x48u8, 0x83, 0xC4, 0x10]
}

/// The code that saves the registers from 15 down to `n`, so that the lowest one
/// ends at the lowest address.
pub open spec fn save_from(n: int) -> Seq<u8>
    decreases 16 - n,
{
    if n >= 16 {
        Seq::empty()
    } else {
        save_from(n + 1) + save_xmm(n as u8)
    }
}

/// The code that restores the first `count` registers.
pub open spec fn restore_upto(count: int) -> Seq<u8>
    decreases count,
{
    if count <= 0 {
        Seq::empty()
    } else {
        restore_upto(count - 1) + restore_xmm((count - 1) as u8)
    }
}

/// The code that saves the SSE control word, the general-purpose registers from
/// `r15` to `rax`, and the flags.
pub open spec fn save_general() -> Seq<u8> {
    seq![
        0x48u8, 0x83, 0xEC, 0x08, 0x0F, 0xAE, 0x1C, 0x24,
        0x41, 0x57, 0x41, 0x56, 0x41, 0x55, 0x41, 0x54,
        0x41, 0x53, 0x41, 0x52, 0x41, 0x51, 0x41, 0x50,
        0x57, 0x56, 0x55, 0x53, 0x52, 0x51, 0x50, 0x9C,
    ]
}

/// The code that calls `handler` with the address of the block.
pub open spec fn call_handler(handler: u64) -> Seq<u8> {
    seq![
        0x48u8, 0x89, 0xE1, 0x48, 0x89, 0xE5, 0x48, 0x83, 0xE4, 0xF0, 0x48, 0x83, 0xEC, 0x20, 0x48,
        0xB8,
    ] + le8(handler) + seq![0xFFu8, 0xD0, 0x48, 0x89, 0xEC]
}

/// The code that restores the flags, the general-purpose registers from `rax` to
/// `r15`, and the SSE control word.
pub open spec fn restore_general() -> Seq<u8> {
    seq![
        0x9Du8, 0x58, 0x59, 0x5A, 0x5B, 0x5D, 0x5E, 0x5F,
        0x41, 0x58, 0x41, 0x59, 0x41, 0x5A, 0x41, 0x5B,
        0x41, 0x5C, 0x41, 0x5D, 0x41, 0x5E, 0x41, 0x5F,
        0x0F, 0xAE, 0x14, 0x24, 0x48, 0x83, 0xC4, 0x08,
    ]
}

/// The whole stub: everything is saved, the handler is called, everything is
/// restored in the opposite order, and the function is resumed at `gateway`.
pub open spec fn stub_code(handler: u64, gateway: u64) -> Seq<u8> {
    save_from(0) + save_general() + call_handler(handler) + restore_general() + restore_upto(16)
        + absolute_jump(gateway)
}

/// The code that saves registers is eight bytes for each, and one more for each
/// of the upper eight.
pub proof fn lemma_save_len(n: int)
    requires
        0 <= n <= 16,
    ensures
        save_from(n).len() == 8 * (16 - n) + (if n >= 8 {
            16 - n
        } else {
            8
        }),
    decreases 16 - n,
{
    if n < 16 {
        lemma_save_len(n + 1);
    }
}

/// The code that restores registers is as long as the code that saves them.
pub proof fn lemma_restore_len(count: int)
    requires
        0 <= count <= 16,
    ensures
        restore_upto(count).len() == 8 * count + (if count >= 8 {
            count - 8
        } else {
            0
        }),
    decreases count,
{
    if count > 0 {
        lemma_restore_len(count - 1);
    }
}

/// The stub fits into the reserved memory, and holds the handler and the gateway
/// where its instructions expect them.
pub proof fn lemma_stub_layout(handler: u64, gateway: u64)
    ensures
        stub_code(handler, gateway).len() == STUB_LEN,
        STUB_LEN <= STUB_CAPACITY,
        u64_at(stub_code(handler, gateway), HANDLER_OFFSET as int) == handler,
        u64_at(stub_code(handler, gateway), STUB_LEN - 8) == gateway,
{
    lemma_save_len(0);
    lemma_restore_len(16);
    let code = stub_code(handler, gateway);
    assert(code.subrange(184, 192) =~= le8(handler));
    assert(code.subrange(371, 379) =~= le8(gateway));
    lemma_u64_round_trip(code, 184, handler);
    lemma_u64_round_trip(code, 371, gateway);
}

/// Appends the code that saves register `n`.
fn emit_save_xmm(code: &mut Vec<u8>, n: u8)
    ensures
        final(code)@ == old(code)@ + save_xmm(n),
{
    code.push(0x48);
    code.push(0x83);
    code.push(0xEC);
    code.push(0x10);
    if n >= 8 {
        code.push(0x44);
    }
    code.push(0x0F);
    code.push(0x11);
    code.push(0x04 | ((n & 7) << 3));
    code.push(0x24);
    assert(code@ =~= old(code)@ + save_xmm(n));
}

/// Appends the code that restores register `n`.
fn emit_restore_xmm(code: &mut Vec<u8>, n: u8)
    ensures
        final(code)@ == old(code)@ + restore_xmm(n),
{
    if n >= 8 {
        code.push(0x44);
    }
    code.push(0x0F);
    code.push(0x10);
    code.push(0x04 | ((n & 7) << 3));
    code.push(0x24);
    code.push(0x48);
    code.push(0x83);
    code.push(0xC4);
    code.push(0x10);
    assert(code@ =~= old(code)@ + restore_xmm(n));
}

/// Builds the stub that calls `handler` and resumes at `gateway`.
pub fn build_stub(handler: u64, gateway: u64) -> (stub: Vec<u8>)
    ensures
        stub@ == stub_code(handler, gateway),
        stub@.len() == STUB_LEN,
{
    let mut code: Vec<u8> = Vec::new();
    let mut n: u8 = 16;
    assert(code@ =~= save_from(16));
    while n > 0
        invariant
            n <= 16,
            code@ == save_from(n as int),
        decreases n,
    {
        n = n - 1;
        emit_save_xmm(&mut code, n);
    }
    let save: [u8; 32] = [
        0x48, 0x83, 0xEC, 0x08, 0x0F, 0xAE, 0x1C, 0x24,
        0x41, 0x57, 0x41, 0x56, 0x41, 0x55, 0x41, 0x54,
        0x41, 0x53, 0x41, 0x52, 0x41, 0x51, 0x41, 0x50,
        0x57, 0x56, 0x55, 0x53, 0x52, 0x51, 0x50, 0x9C,
    ];
    assert(save@ =~= save_general());
    push_all(&mut code, &save);
    let ghost saved = code@;
    let call: [u8; 16] = [
        0x48, 0x89, 0xE1, 0x48, 0x89, 0xE5, 0x48, 0x83, 0xE4, 0xF0, 0x48, 0x83, 0xEC, 0x20, 0x48,
        0xB8,
    ];
    push_all(&mut code, &call);
    push_u64(&mut code, handler);
    let after: [u8; 5] = [0xFF, 0xD0, 0x48, 0x89, 0xEC];
    push_all(&mut code, &after);
    assert(code@ =~= saved + call_handler(handler));
    let restore: [u8; 32] = [
        0x9D, 0x58, 0x59, 0x5A, 0x5B, 0x5D, 0x5E, 0x5F,
        0x41, 0x58, 0x41, 0x59, 0x41, 0x5A, 0x41, 0x5B,
        0x41, 0x5C, 0x41, 0x5D, 0x41, 0x5E, 0x41, 0x5F,
        0x0F, 0xAE, 0x14, 0x24, 0x48, 0x83, 0xC4, 0x08,
    ];
    assert(restore@ =~= restore_general());
    push_all(&mut code, &restore);
    let ghost head = code@;
    let mut k: u8 = 0;
    assert(code@ =~= head + restore_upto(0));
    while k < 16
        invariant
            k <= 16,
            code@ == head + restore_upto(k as int),
        decreases 16 - k,
    {
        emit_restore_xmm(&mut code, k);
        k = k + 1;
        assert(code@ =~= head + restore_upto(k as int));
    }
    let jump = crate::eat::write_abs_jump_stub(gateway);
    push_all(&mut code, &jump);
    proof {
        lemma_stub_layout(handler, gateway);
        assert(code@ =~= stub_code(handler, gateway));
    }
    code
}

/// An installed hook in the middle of a function.
#[derive(Debug)]
pub struct MidHook {
    /// The inline hook that leads to the stub; `None` once it is unhooked.
    pub hook: Option<Hook>,
    pub stub: Trampoline,
    pub target: u64,
}

impl MidHook {
    /// Checks the arguments of a hook, and returns the memory for its stub.
    pub fn prepare(target: u64, handler: u64, stub: Option<u64>) -> (memory: Result<
        Trampoline,
        DetourError,
    >)
        ensures
            match memory {
                Ok(reserved) => target != 0 && handler != 0 && stub == Some(reserved.ptr)
                    && reserved.size == STUB_CAPACITY,
                Err(error) => if target == 0 || handler == 0 {
                    error == DetourError::InvalidParameter
                } else {
                    stub is None && error == DetourError::AllocationFailed
                },
            },
    {
        if target == 0 || handler == 0 {
            return Err(DetourError::InvalidParameter);
        }
        match stub {
            Some(ptr) => Ok(Trampoline { ptr, size: STUB_CAPACITY as u64 }),
            None => Err(DetourError::AllocationFailed),
        }
    }

    /// Returns the write of the stub that calls `handler` and resumes the
    /// function at `gateway`. A null handler is refused.
    pub fn write_stub(arch: Arch, stub: &Trampoline, handler: u64, gateway: u64) -> (write: Result<
        CodeWrite,
        DetourError,
    >)
        ensures
            ({
                let code = match arch {
                    Arch::X86 => crate::midhook_x86::stub_code(stub.ptr, handler, gateway),
                    Arch::X64 => stub_code(handler, gateway),
                };
                match write {
                    Ok(edit) => handler != 0 && code.len() <= stub.size && edit.address == stub.ptr
                        && edit.bytes@ == code,
                    Err(error) => if handler == 0 {
                        error == DetourError::InvalidParameter
                    } else {
                        code.len() > stub.size && error == DetourError::AllocationFailed
                    },
                }
            }),
    {
        if handler == 0 {
            return Err(DetourError::InvalidParameter);
        }
        let bytes = match arch {
            Arch::X86 => crate::midhook_x86::build_stub(stub.ptr, handler, gateway),
            Arch::X64 => build_stub(handler, gateway),
        };
        if bytes.len() as u64 > stub.size {
            return Err(DetourError::AllocationFailed);
        }
        Ok(CodeWrite { address: stub.ptr, bytes })
    }

    /// Turns what the commit of the inline hook came to into the installed hook.
    pub fn install(target: u64, stub: Trampoline, committed: Result<Vec<Hook>, DetourError>) -> (
    hook: Result<MidHook, DetourError>)
        ensures
            match committed {
                Ok(hooks) => if hooks@.len() > 0 {
                    hook == Ok::<MidHook, DetourError>(
                        MidHook { hook: Some(hooks@[0]), stub, target },
                    )
                } else {
                    hook == Err::<MidHook, DetourError>(DetourError::InvalidParameter)
                },
                Err(error) => hook == Err::<MidHook, DetourError>(error),
            },
    {
        match committed {
            Ok(list) => {
                let mut hooks = list;
                if hooks.len() == 0 {
                    return Err(DetourError::InvalidParameter);
                }
                let first = hooks.remove(0);
                Ok(MidHook { hook: Some(first), stub, target })
            },
            Err(error) => Err(error),
        }
    }

    /// Returns the address that was patched.
    pub fn target(&self) -> (target: u64)
        ensures
            target == self.target,
    {
        self.target
    }

    /// Gives up the inline hook, which is to be unhooked; `None` where it was
    /// given up before.
    pub fn unhook(&mut self) -> (hook: Option<Hook>)
        ensures
            hook == old(self).hook,
            *final(self) == (MidHook { hook: None, ..*old(self) }),
    {
        self.hook.take()
    }
}

} // verus!
