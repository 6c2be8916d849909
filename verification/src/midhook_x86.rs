//! The stub and the register block of hooks in the middle of a function, for
//! x86.
use vstd::prelude::*;

use crate::bytes::{le4, lemma_u32_round_trip, push_all, push_u32, push_u64, u32_at};
use crate::inline::{displacement, relative_jump, write_relative_jump};
use crate::midhook::{lemma_xmm_block_len, xmm_block, xmm_bytes, Xmm, STUB_CAPACITY};

verus! {

/// The number of bytes of the stub.
pub const STUB_LEN: usize = 145;

/// Where the stub holds the address of the handler.
pub const HANDLER_OFFSET: usize = 69;

/// The number of bytes of the register block.
pub const CONTEXT_SIZE: usize = 168;

/// The registers at a hook site, as the stub saves them for the handler.
///
/// A change of `esp` has no effect.
#[derive(Clone, Copy, Debug)]
pub struct HookContext {
    pub eflags: u32,
    pub edi: u32,
    pub esi: u32,
    pub ebp: u32,
    pub esp: u32,
    pub ebx: u32,
    pub edx: u32,
    pub ecx: u32,
    pub eax: u32,
    pub mxcsr: u32,
    pub xmm: [Xmm; 8],
}

impl HookContext {
    /// The block in memory, from the lowest address on.
    pub open spec fn block(self) -> Seq<u8> {
        le4(self.eflags) + le4(self.edi) + le4(self.esi) + le4(self.ebp) + le4(self.esp) + le4(
            self.ebx,
        ) + le4(self.edx) + le4(self.ecx) + le4(self.eax) + le4(self.mxcsr) + xmm_block(
            self.xmm@,
            8,
        )
    }

    /// Returns the block as it stands in memory.
    pub fn to_bytes(&self) -> (bytes: Vec<u8>)
        ensures
            bytes@ == self.block(),
            bytes@.len() == CONTEXT_SIZE,
    {
        let mut bytes: Vec<u8> = Vec::new();
        push_u32(&mut bytes, self.eflags);
        push_u32(&mut bytes, self.edi);
        push_u32(&mut bytes, self.esi);
        push_u32(&mut bytes, self.ebp);
        push_u32(&mut bytes, self.esp);
        push_u32(&mut bytes, self.ebx);
        push_u32(&mut bytes, self.edx);
        push_u32(&mut bytes, self.ecx);
        push_u32(&mut bytes, self.eax);
        push_u32(&mut bytes, self.mxcsr);
        let ghost head = bytes@;
        assert(head.len() == 40);
        let mut n: usize = 0;
        assert(bytes@ =~= head + xmm_block(self.xmm@, 0));
        while n < 8
            invariant
                n <= 8,
                bytes@ == head + xmm_block(self.xmm@, n as int),
            decreases 8 - n,
        {
            let ghost before = bytes@;
            push_u64(&mut bytes, self.xmm[n].low);
            push_u64(&mut bytes, self.xmm[n].high);
            n = n + 1;
            assert(bytes@ =~= before + xmm_bytes(self.xmm@[n - 1]));
            assert(bytes@ =~= head + xmm_block(self.xmm@, n as int));
        }
        proof {
            lemma_xmm_block_len(self.xmm@, 8);
            assert(bytes@ =~= self.block());
        }
        bytes
    }
}

/// The code that saves register `n` on the stack.
pub open spec fn save_xmm(n: u8) -> Seq<u8> {
    seq![0x83u8, 0xEC, 0x10, 0x0F, 0x11, 0x04 | (n << 3), 0x24]
}

/// The code that restores register `n` from the stack.
pub open spec fn restore_xmm(n: u8) -> Seq<u8> {
    seq![0x0Fu8, 0x10, 0x04 | (n << 3), 0x24, 0x83, 0xC4, 0x10]
}

/// The code that saves the registers from 7 down to `n`.
pub open spec fn save_from(n: int) -> Seq<u8>
    decreases 8 - n,
{
    if n >= 8 {
        Seq::empty()
    } else {
        save_from(n + 1) + save_xmm(n as u8)
    }
}

/// The code that restores the first `count` registers.
pub open spec fn restore_upto(count: int) -> Seq<u8>
    decreases count,
{
    if count <= 0 {
        Seq::empty()
    } else {
        restore_upto(count - 1) + restore_xmm((count - 1) as u8)
    }
}

/// The whole stub at `stub`: everything is saved, the handler is called,
/// everything is restored in the opposite order, and the function is resumed at
/// `gateway`.
pub open spec fn stub_code(stub: u64, handler: u64, gateway: u64) -> Seq<u8> {
    save_from(0) + seq![0x83u8, 0xEC, 0x04, 0x0F, 0xAE, 0x1C, 0x24, 0x60, 0x9C, 0x89, 0xE0, 0x50, 0xB8]
        + le4((handler % 0x1_0000_0000) as u32) + seq![
        0xFFu8, 0xD0, 0x9D, 0x61, 0x0F, 0xAE, 0x14, 0x24, 0x83, 0xC4, 0x04,
    ] + restore_upto(8) + relative_jump(jump_site(stub), gateway)
}

/// The address of the jump that ends the stub at `stub`.
pub open spec fn jump_site(stub: u64) -> u64 {
    crate::arch::Arch::X86.displaced(stub, 140)
}

/// The code that saves registers is seven bytes for each.
pub proof fn lemma_save_len(n: int)
    requires
        0 <= n <= 8,
    ensures
        save_from(n).len() == 7 * (8 - n),
    decreases 8 - n,
{
    if n < 8 {
        lemma_save_len(n + 1);
    }
}

/// The code that restores registers is as long as the code that saves them.
pub proof fn lemma_restore_len(count: int)
    requires
        0 <= count <= 8,
    ensures
        restore_upto(count).len() == 7 * count,
    decreases count,
{
    if count > 0 {
        lemma_restore_len(count - 1);
    }
}

/// The stub fits into the reserved memory, holds the handler where its
/// instructions expect it, and ends with a jump to the gateway.
pub proof fn lemma_stub_layout(stub: u64, handler: u64, gateway: u64)
    ensures
        stub_code(stub, handler, gateway).len() == STUB_LEN,
        STUB_LEN <= STUB_CAPACITY,
        u32_at(stub_code(stub, handler, gateway), HANDLER_OFFSET as int) == handler
            % 0x1_0000_0000,
        u32_at(stub_code(stub, handler, gateway), STUB_LEN - 4) == displacement(
            jump_site(stub),
            gateway,
        ),
{
    lemma_save_len(0);
    lemma_restore_len(8);
    let code = stub_code(stub, handler, gateway);
    let low = (handler % 0x1_0000_0000) as u32;
    assert(code.subrange(69, 73) =~= le4(low));
    assert(code.subrange(141, 145) =~= le4(displacement(jump_site(stub), gateway)));
    lemma_u32_round_trip(code, 69, low);
    lemma_u32_round_trip(code, 141, displacement(jump_site(stub), gateway));
}

/// Appends the code that saves register `n`.
fn emit_save_xmm(code: &mut Vec<u8>, n: u8)
    ensures
        final(code)@ == old(code)@ + save_xmm(n),
{
    code.push(0x83);
    code.push(0xEC);
    code.push(0x10);
    code.push(0x0F);
    code.push(0x11);
    code.push(0x04 | (n << 3));
    code.push(0x24);
    assert(code@ =~= old(code)@ + save_xmm(n));
}

/// Appends the code that restores register `n`.
fn emit_restore_xmm(code: &mut Vec<u8>, n: u8)
    ensures
        final(code)@ == old(code)@ + restore_xmm(n),
{
    code.push(0x0F);
    code.push(0x10);
    code.push(0x04 | (n << 3));
    code.push(0x24);
    code.push(0x83);
    code.push(0xC4);
    code.push(0x10);
    assert(code@ =~= old(code)@ + restore_xmm(n));
}

/// Builds the stub at `stub` that calls `handler` and resumes at `gateway`.
pub fn build_stub(stub: u64, handler: u64, gateway: u64) -> (code: Vec<u8>)
    ensures
        code@ == stub_code(stub, handler, gateway),
        code@.len() == STUB_LEN,
{
    let mut code: Vec<u8> = Vec::new();
    let mut n: u8 = 8;
    assert(code@ =~= save_from(8));
    while n > 0
        invariant
            n <= 8,
            code@ == save_from(n as int),
        decreases n,
    {
        n = n - 1;
        emit_save_xmm(&mut code, n);
    }
    let call: [u8; 13] = [
        0x83, 0xEC, 0x04, 0x0F, 0xAE, 0x1C, 0x24, 0x60, 0x9C, 0x89, 0xE0, 0x50, 0xB8,
    ];
    push_all(&mut code, &call);
    push_u32(&mut code, (handler % 0x1_0000_0000) as u32);
    let restore: [u8; 11] = [
        0xFF, 0xD0, 0x9D, 0x61, 0x0F, 0xAE, 0x14, 0x24, 0x83, 0xC4, 0x04,
    ];
    push_all(&mut code, &restore);
    let ghost head = code@;
    let mut k: u8 = 0;
    assert(code@ =~= head + restore_upto(0));
    while k < 8
        invariant
            k <= 8,
            code@ == head + restore_upto(k as int),
        decreases 8 - k,
    {
        emit_restore_xmm(&mut code, k);
        k = k + 1;
        assert(code@ =~= head + restore_upto(k as int));
    }
    let site: u64 = crate::arch::Arch::X86.displace(stub, 140);
    let jump = write_relative_jump(site, gateway);
    push_all(&mut code, &jump);
    proof {
        lemma_stub_layout(stub, handler, gateway);
        assert(code@ =~= stub_code(stub, handler, gateway));
    }
    code
}

} // verus!
