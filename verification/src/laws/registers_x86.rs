//! Laws of the x86 stub of a hook in the middle of a function, over a small model of the
//! processor: what the stub's bytes do to the registers and to the stack.
use vstd::prelude::*;

use crate::bytes::{
    le4, le8, lemma_u32_round_trip, lemma_u64_round_trip, signed32, u32_at, u64_at,
};
use crate::inline::displacement;
use crate::midhook::{xmm_block, xmm_bytes, Xmm};
use crate::midhook_x86::{
    jump_site, lemma_restore_len, lemma_save_len, lemma_stub_layout, restore_upto, restore_xmm,
    save_from, save_xmm, stub_code, HookContext,
};

verus! {

/// The processor, as far as the stub touches it.
pub struct Machine {
    /// The general-purpose registers by their numbers: eax, ecx, edx, ebx, the stack
    /// pointer (whose place is not used), ebp, esi and edi.
    pub general: Seq<u32>,
    pub flags: u32,
    pub mxcsr: u32,
    pub xmm: Seq<Xmm>,
    /// The stack pointer.
    pub sp: int,
    /// The memory from the stack pointer upward.
    pub stack: Seq<u8>,
    /// The memory that ends at the stack pointer.
    pub below: Seq<u8>,
    /// The flags that adding a number to an address leaves.
    pub sum_flags: spec_fn(int, int) -> u32,
}

impl Machine {
    /// Whether there are as many registers as there should be.
    pub open spec fn wf(self) -> bool {
        self.general.len() == 8 && self.xmm.len() == 8
    }

    /// The machine after the stack pointer has moved by `delta`.
    pub open spec fn moved(self, delta: int) -> Machine {
        let low = self.below.len() as int;
        if delta <= 0 {
            Machine {
                sp: self.sp + delta,
                stack: self.below.subrange(low + delta, low) + self.stack,
                below: self.below.subrange(0, low + delta),
                ..self
            }
        } else {
            Machine {
                sp: self.sp + delta,
                stack: self.stack.subrange(delta, self.stack.len() as int),
                below: self.below + self.stack.subrange(0, delta),
                ..self
            }
        }
    }

    /// The machine after bytes were written at the stack pointer.
    pub open spec fn stored(self, bytes: Seq<u8>) -> Machine {
        Machine {
            stack: bytes + self.stack.subrange(bytes.len() as int, self.stack.len() as int),
            ..self
        }
    }
}

/// The instructions that the stub is made of.
pub enum Instruction {
    Push { register: int },
    PushAll,
    PopAll,
    PushFlags,
    PopFlags,
    AddToSp { number: int },
    StoreXmm { register: int },
    LoadXmm { register: int },
    StoreMxcsr,
    LoadMxcsr,
    /// Copies the stack pointer to a register.
    CopySp { register: int },
    /// Loads a constant.
    Load { register: int, value: u32 },
}

/// A byte of code.
pub open spec fn is(code: Seq<u8>, at: int, byte: u8) -> bool {
    at < code.len() && code[at] == byte
}

/// The instruction at a place of the code, with its length.
#[verifier::opaque]
pub open spec fn instruction(code: Seq<u8>, at: int) -> Option<(Instruction, int)> {
    if at < 0 || at >= code.len() {
        None
    } else if 0x50 <= code[at] <= 0x57 {
        Some((Instruction::Push { register: code[at] - 0x50 }, 1))
    } else if code[at] == 0x60 {
        Some((Instruction::PushAll, 1))
    } else if code[at] == 0x61 {
        Some((Instruction::PopAll, 1))
    } else if code[at] == 0x9C {
        Some((Instruction::PushFlags, 1))
    } else if code[at] == 0x9D {
        Some((Instruction::PopFlags, 1))
    } else if code[at] == 0x83 && is(code, at + 1, 0xEC) && at + 2 < code.len() && code[at + 2]
        < 0x80 {
        Some((Instruction::AddToSp { number: -(code[at + 2] as int) }, 3))
    } else if code[at] == 0x83 && is(code, at + 1, 0xC4) && at + 2 < code.len() && code[at + 2]
        < 0x80 {
        Some((Instruction::AddToSp { number: code[at + 2] as int }, 3))
    } else if code[at] == 0x89 && at + 1 < code.len() && 0xE0 <= code[at + 1] <= 0xE7 {
        Some((Instruction::CopySp { register: code[at + 1] - 0xE0 }, 2))
    } else if 0xB8 <= code[at] <= 0xBF && at + 4 < code.len() {
        Some((Instruction::Load { register: code[at] - 0xB8, value: u32_at(code, at + 1) }, 5))
    } else if code[at] == 0x0F && is(code, at + 1, 0xAE) && is(code, at + 2, 0x1C) && is(
        code,
        at + 3,
        0x24,
    ) {
        Some((Instruction::StoreMxcsr, 4))
    } else if code[at] == 0x0F && is(code, at + 1, 0xAE) && is(code, at + 2, 0x14) && is(
        code,
        at + 3,
        0x24,
    ) {
        Some((Instruction::LoadMxcsr, 4))
    } else if code[at] == 0x0F && is(code, at + 1, 0x11) && at + 2 < code.len() && code[at + 2] % 8
        == 4 && code[at + 2] < 0x40 && is(code, at + 3, 0x24) {
        Some((Instruction::StoreXmm { register: (code[at + 2] / 8) as int }, 4))
    } else if code[at] == 0x0F && is(code, at + 1, 0x10) && at + 2 < code.len() && code[at + 2] % 8
        == 4 && code[at + 2] < 0x40 && is(code, at + 3, 0x24) {
        Some((Instruction::LoadXmm { register: (code[at + 2] / 8) as int }, 4))
    } else {
        None
    }
}

/// What an instruction does.
#[verifier::opaque]
pub open spec fn executed(machine: Machine, instruction: Instruction) -> Machine {
    match instruction {
        Instruction::Push { register } => machine.moved(-4).stored(le4(machine.general[register])),
        Instruction::PushAll => machine.moved(-32).stored(
            le4(machine.general[7]) + le4(machine.general[6]) + le4(machine.general[5]) + le4(
                machine.sp as u32,
            ) + le4(machine.general[3]) + le4(machine.general[2]) + le4(machine.general[1]) + le4(
                machine.general[0],
            ),
        ),
        Instruction::PopAll => Machine {
            general: seq![
                u32_at(machine.stack, 28),
                u32_at(machine.stack, 24),
                u32_at(machine.stack, 20),
                u32_at(machine.stack, 16),
                machine.general[4],
                u32_at(machine.stack, 8),
                u32_at(machine.stack, 4),
                u32_at(machine.stack, 0),
            ],
            ..machine.moved(32)
        },
        Instruction::PushFlags => machine.moved(-4).stored(le4(machine.flags)),
        Instruction::PopFlags => Machine {
            flags: u32_at(machine.stack, 0),
            ..machine.moved(4)
        },
        Instruction::AddToSp { number } => Machine {
            flags: (machine.sum_flags)(machine.sp, number),
            ..machine.moved(number)
        },
        Instruction::StoreXmm { register } => machine.stored(xmm_bytes(machine.xmm[register])),
        Instruction::LoadXmm { register } => Machine {
            xmm: machine.xmm.update(
                register,
                Xmm { low: u64_at(machine.stack, 0), high: u64_at(machine.stack, 8) },
            ),
            ..machine
        },
        Instruction::StoreMxcsr => machine.stored(le4(machine.mxcsr)),
        Instruction::LoadMxcsr => Machine { mxcsr: u32_at(machine.stack, 0), ..machine },
        Instruction::CopySp { register } => Machine {
            general: machine.general.update(register, machine.sp as u32),
            ..machine
        },
        Instruction::Load { register, value } => Machine {
            general: machine.general.update(register, value),
            ..machine
        },
    }
}

/// What the code from `at` to its end does; `None` where it holds something else than the
/// instructions above.
#[verifier::opaque]
pub open spec fn run(code: Seq<u8>, at: int, machine: Machine) -> Option<Machine>
    decreases code.len() - at,
{
    if at >= code.len() {
        Some(machine)
    } else {
        match instruction(code, at) {
            Some((first, len)) => if 0 < len && at + len <= code.len() {
                run(code, at + len, executed(machine, first))
            } else {
                None
            },
            None => None,
        }
    }
}

/// Code in front does not change what code does.
proof fn lemma_run_suffix(a: Seq<u8>, b: Seq<u8>, at: int, machine: Machine)
    requires
        0 <= at,
    ensures
        run(a + b, a.len() + at, machine) == run(b, at, machine),
    decreases b.len() - at,
{
    reveal(instruction);
    reveal(run);
    let all = a + b;
    if at < b.len() {
        assert(forall|i: int| 0 <= i < b.len() ==> all[a.len() + i] == b[i]);
        assert(at + 4 < b.len() ==> u32_at(all, a.len() + at + 1) == u32_at(b, at + 1));
        assert(instruction(all, a.len() + at) == instruction(b, at));
        match instruction(b, at) {
            Some((first, len)) => {
                lemma_run_suffix(a, b, at + len, executed(machine, first));
            },
            None => {},
        }
    }
}

/// Code behind does not change what code does before.
proof fn lemma_run_prefix(a: Seq<u8>, b: Seq<u8>, at: int, machine: Machine)
    requires
        0 <= at <= a.len(),
        run(a, at, machine) is Some,
    ensures
        run(a + b, at, machine) == run(a + b, a.len() as int, run(a, at, machine)->0),
    decreases a.len() - at,
{
    reveal(instruction);
    reveal(run);
    let all = a + b;
    if at < a.len() {
        assert(forall|i: int| 0 <= i < a.len() ==> all[i] == a[i]);
        assert(at + 4 < a.len() ==> u32_at(all, at + 1) == u32_at(a, at + 1));
        assert(instruction(all, at) == instruction(a, at));
        match instruction(a, at) {
            Some((first, len)) => {
                lemma_run_prefix(a, b, at + len, executed(machine, first));
            },
            None => {},
        }
    }
}

/// Two pieces of code do what the first and then the second does.
proof fn lemma_run_both(a: Seq<u8>, b: Seq<u8>, machine: Machine)
    requires
        run(a, 0, machine) is Some,
    ensures
        run(a + b, 0, machine) == run(b, 0, run(a, 0, machine)->0),
{
    lemma_run_prefix(a, b, 0, machine);
    lemma_run_suffix(a, b, 0, run(a, 0, machine)->0);
}

/// One instruction is executed, and the code goes on behind it.
proof fn lemma_run_one(code: Seq<u8>, at: int, first: Instruction, len: int, machine: Machine)
    requires
        0 <= at < code.len(),
        len > 0,
        at + len <= code.len(),
        instruction(code, at) == Some((first, len)),
    ensures
        run(code, at, machine) == run(code, at + len, executed(machine, first)),
{
    reveal(run);
}

/// At its end, code does nothing more.
proof fn lemma_run_end(code: Seq<u8>, machine: Machine)
    ensures
        run(code, code.len() as int, machine) == Some(machine),
{
    reveal(run);
}

/// The bytes of the registers from `n` on.
pub open spec fn xmm_tail(registers: Seq<Xmm>, n: int) -> Seq<u8>
    decreases 8 - n,
{
    if n >= 8 {
        Seq::empty()
    } else {
        xmm_bytes(registers[n]) + xmm_tail(registers, n + 1)
    }
}

/// The bytes of all registers, split at any of them.
proof fn lemma_xmm_split(registers: Seq<Xmm>, n: int)
    requires
        0 <= n <= 8,
    ensures
        xmm_block(registers, n) + xmm_tail(registers, n) == xmm_block(registers, 8),
    decreases 8 - n,
{
    if n < 8 {
        lemma_xmm_split(registers, n + 1);
        lemma_join(xmm_block(registers, n), xmm_bytes(registers[n]), xmm_tail(registers, n + 1));
    } else {
        assert(xmm_block(registers, n) + xmm_tail(registers, n) =~= xmm_block(registers, 8));
    }
}

/// Pieces of memory follow each other however they are put together.
proof fn lemma_join(a: Seq<u8>, b: Seq<u8>, c: Seq<u8>)
    ensures
        (a + b) + c == a + (b + c),
{
    assert((a + b) + c =~= a + (b + c));
}

/// What saving one register does.
proof fn lemma_save_one(n: int, machine: Machine)
    requires
        0 <= n < 8,
        machine.wf(),
        machine.below.len() >= 16,
    ensures
        run(save_xmm(n as u8), 0, machine) matches Some(after) && {
            &&& after.general == machine.general
            &&& after.xmm == machine.xmm
            &&& after.mxcsr == machine.mxcsr
            &&& after.sum_flags == machine.sum_flags
            &&& after.sp == machine.sp - 16
            &&& after.stack == xmm_bytes(machine.xmm[n]) + machine.stack
            &&& after.below == machine.below.subrange(0, machine.below.len() - 16)
        },
{
    let code = save_xmm(n as u8);
    let first = Instruction::AddToSp { number: -16 };
    let second = Instruction::StoreXmm { register: n };
    let m1 = executed(machine, first);
    let m2 = executed(m1, second);
    assert(code.len() == 7);
    assert(instruction(code, 0) == Some((first, 3int)) && instruction(code, 3) == Some(
        (second, 4int),
    )) by {
        reveal(instruction);
        let number = n as u8;
        assert(number < 8 ==> (0x04 | (number << 3)) == 4 + 8 * number) by (bit_vector);
    }
    lemma_run_one(code, 0, first, 3, machine);
    lemma_run_one(code, 3, second, 4, m1);
    lemma_run_end(code, m2);
    reveal(executed);
    assert(m2.stack =~= xmm_bytes(machine.xmm[n]) + machine.stack);
}

/// What restoring one register does.
proof fn lemma_restore_one(n: int, machine: Machine, value: Xmm, rest: Seq<u8>)
    requires
        0 <= n < 8,
        machine.wf(),
        machine.stack == xmm_bytes(value) + rest,
    ensures
        run(restore_xmm(n as u8), 0, machine) matches Some(after) && {
            &&& after.general == machine.general
            &&& after.xmm == machine.xmm.update(n, value)
            &&& after.mxcsr == machine.mxcsr
            &&& after.sp == machine.sp + 16
            &&& after.stack == rest
        },
{
    let code = restore_xmm(n as u8);
    let first = Instruction::LoadXmm { register: n };
    let second = Instruction::AddToSp { number: 16 };
    let m1 = executed(machine, first);
    let m2 = executed(m1, second);
    assert(code.len() == 7);
    assert(instruction(code, 0) == Some((first, 4int)) && instruction(code, 4) == Some(
        (second, 3int),
    )) by {
        reveal(instruction);
        let number = n as u8;
        assert(number < 8 ==> (0x04 | (number << 3)) == 4 + 8 * number) by (bit_vector);
    }
    lemma_run_one(code, 0, first, 4, machine);
    lemma_run_one(code, 4, second, 3, m1);
    lemma_run_end(code, m2);
    reveal(executed);
    assert(machine.stack.subrange(0, 8) =~= le8(value.low));
    assert(machine.stack.subrange(8, 16) =~= le8(value.high));
    lemma_u64_round_trip(machine.stack, 0, value.low);
    lemma_u64_round_trip(machine.stack, 8, value.high);
    assert(m2.stack =~= rest);
}

/// Saving the registers from 7 down to `n` leaves them on the stack, the lowest number
/// lowest, and changes none of them.
proof fn lemma_save_xmm_registers(n: int, machine: Machine)
    requires
        0 <= n <= 8,
        machine.wf(),
        machine.below.len() >= 16 * (8 - n),
    ensures
        run(save_from(n), 0, machine) matches Some(after) && {
            &&& after.general == machine.general
            &&& after.xmm == machine.xmm
            &&& after.mxcsr == machine.mxcsr
            &&& after.sum_flags == machine.sum_flags
            &&& after.sp == machine.sp - 16 * (8 - n)
            &&& after.stack == xmm_tail(machine.xmm, n) + machine.stack
            &&& after.below == machine.below.subrange(0, machine.below.len() - 16 * (8 - n))
        },
    decreases 8 - n,
{
    reveal(run);
    if n < 8 {
        lemma_save_xmm_registers(n + 1, machine);
        let before = run(save_from(n + 1), 0, machine)->0;
        lemma_run_both(save_from(n + 1), save_xmm(n as u8), machine);
        lemma_save_one(n, before);
        lemma_join(xmm_bytes(machine.xmm[n]), xmm_tail(machine.xmm, n + 1), machine.stack);
        let after = run(save_from(n), 0, machine)->0;
        assert(after.below =~= machine.below.subrange(0, machine.below.len() - 16 * (8 - n)));
    } else {
        assert(save_from(8) =~= Seq::<u8>::empty());
        assert(machine.stack =~= xmm_tail(machine.xmm, 8) + machine.stack);
        assert(machine.below =~= machine.below.subrange(0, machine.below.len() as int));
    }
}

/// Restoring the first `count` registers takes them from the stack, the lowest number
/// first.
proof fn lemma_restore_xmm_registers(count: int, machine: Machine, saved: Seq<Xmm>, rest: Seq<u8>)
    requires
        0 <= count <= 8,
        machine.wf(),
        saved.len() == 8,
        machine.stack == xmm_tail(saved, 0) + rest,
    ensures
        run(restore_upto(count), 0, machine) matches Some(after) && {
            &&& after.general == machine.general
            &&& after.xmm.len() == 8
            &&& forall|i: int| 0 <= i < count ==> #[trigger] after.xmm[i] == saved[i]
            &&& after.mxcsr == machine.mxcsr
            &&& after.sp == machine.sp + 16 * count
            &&& after.stack == xmm_tail(saved, count) + rest
        },
    decreases count,
{
    reveal(run);
    if count > 0 {
        let n = count - 1;
        lemma_restore_xmm_registers(n, machine, saved, rest);
        let before = run(restore_upto(n), 0, machine)->0;
        lemma_join(xmm_bytes(saved[n]), xmm_tail(saved, count), rest);
        lemma_run_both(restore_upto(n), restore_xmm(n as u8), machine);
        lemma_restore_one(n, before, saved[n], xmm_tail(saved, count) + rest);
    } else {
        assert(restore_upto(0) =~= Seq::<u8>::empty());
    }
}

/// Whether a machine's registers are those of a context, but for the flags and the stack
/// pointer.
pub open spec fn has_registers(machine: Machine, context: HookContext) -> bool {
    &&& machine.wf()
    &&& machine.general[0] == context.eax
    &&& machine.general[1] == context.ecx
    &&& machine.general[2] == context.edx
    &&& machine.general[3] == context.ebx
    &&& machine.general[5] == context.ebp
    &&& machine.general[6] == context.esi
    &&& machine.general[7] == context.edi
    &&& machine.mxcsr == context.mxcsr
    &&& machine.xmm == context.xmm@
}

/// The first 36 bytes of a block: the flags and the general-purpose registers.
#[verifier::opaque]
pub open spec fn general_bytes(context: HookContext) -> Seq<u8> {
    le4(context.eflags) + (le4(context.edi) + le4(context.esi) + le4(context.ebp) + le4(context.esp)
        + le4(context.ebx) + le4(context.edx) + le4(context.ecx) + le4(context.eax))
}

/// The block of a context and what follows it, part by part.
proof fn lemma_block_order(context: HookContext, rest: Seq<u8>)
    ensures
        context.block() + rest == general_bytes(context) + (le4(context.mxcsr) + (xmm_tail(
            context.xmm@,
            0,
        ) + rest)),
{
    reveal(general_bytes);
    let tail = xmm_tail(context.xmm@, 0);
    lemma_xmm_split(context.xmm@, 0);
    assert(xmm_block(context.xmm@, 0) + tail =~= tail);
    assert(context.block() =~= general_bytes(context) + (le4(context.mxcsr) + tail));
    lemma_join(general_bytes(context), le4(context.mxcsr) + tail, rest);
    lemma_join(le4(context.mxcsr), tail, rest);
}

/// The code between the saving of the 128-bit registers and the call.
pub open spec fn middle(handler: u32) -> Seq<u8> {
    seq![0x83u8, 0xEC, 0x04, 0x0F, 0xAE, 0x1C, 0x24, 0x60, 0x9C, 0x89, 0xE0, 0x50, 0xB8] + le4(
        handler,
    )
}

/// The SSE control word is saved above the general-purpose registers.
proof fn lemma_save_control(machine: Machine)
    requires
        machine.wf(),
        machine.below.len() >= 4,
    ensures
        ({
            let after = executed(
                executed(machine, Instruction::AddToSp { number: -4 }),
                Instruction::StoreMxcsr,
            );
            &&& after.general == machine.general && after.xmm == machine.xmm
            &&& after.flags == (machine.sum_flags)(machine.sp, -4)
            &&& after.sp == machine.sp - 4
            &&& after.stack == le4(machine.mxcsr) + machine.stack
            &&& after.below.len() == machine.below.len() - 4
        }),
{
    reveal(executed);
    let after = executed(
        executed(machine, Instruction::AddToSp { number: -4 }),
        Instruction::StoreMxcsr,
    );
    assert(after.stack =~= le4(machine.mxcsr) + machine.stack);
}

/// The general-purpose registers and the flags are saved below the SSE control word.
proof fn lemma_save_general(machine: Machine, context: HookContext)
    requires
        has_registers(Machine { mxcsr: context.mxcsr, ..machine }, context),
        machine.flags == context.eflags,
        context.esp == machine.sp as u32,
        machine.below.len() >= 36,
    ensures
        ({
            let after = executed(executed(machine, Instruction::PushAll), Instruction::PushFlags);
            &&& after.wf()
            &&& after.sp == machine.sp - 36
            &&& after.stack == general_bytes(context) + machine.stack
            &&& after.below.len() == machine.below.len() - 36
        }),
{
    reveal(executed);
    reveal(general_bytes);
    let m1 = executed(machine, Instruction::PushAll);
    let all = le4(context.edi) + le4(context.esi) + le4(context.ebp) + le4(context.esp) + le4(
        context.ebx,
    ) + le4(context.edx) + le4(context.ecx) + le4(context.eax);
    assert(all.len() == 32);
    assert(m1.stack =~= all + machine.stack);
    let m2 = executed(m1, Instruction::PushFlags);
    assert(m2.stack =~= le4(context.eflags) + m1.stack);
    lemma_join(le4(context.eflags), all, machine.stack);
}

/// What the code in front of the call consists of.
proof fn lemma_middle_code(handler: u32)
    ensures
        middle(handler).len() == 17,
        instruction(middle(handler), 0) == Some((Instruction::AddToSp { number: -4 }, 3int)),
        instruction(middle(handler), 3) == Some((Instruction::StoreMxcsr, 4int)),
        instruction(middle(handler), 7) == Some((Instruction::PushAll, 1int)),
        instruction(middle(handler), 8) == Some((Instruction::PushFlags, 1int)),
        instruction(middle(handler), 9) == Some((Instruction::CopySp { register: 0 }, 2int)),
        instruction(middle(handler), 11) == Some((Instruction::Push { register: 0 }, 1int)),
        instruction(middle(handler), 12) == Some(
            (Instruction::Load { register: 0, value: handler }, 5int),
        ),
{
    reveal(instruction);
    let code = middle(handler);
    assert(code.subrange(13, 17) =~= le4(handler));
    lemma_u32_round_trip(code, 13, handler);
}

/// The address of the block is pushed, and that of the handler is loaded.
proof fn lemma_pass_address(handler: u32, machine: Machine)
    requires
        machine.wf(),
        machine.below.len() >= 4,
    ensures
        ({
            let after = executed(
                executed(
                    executed(machine, Instruction::CopySp { register: 0 }),
                    Instruction::Push { register: 0 },
                ),
                Instruction::Load { register: 0, value: handler },
            );
            &&& after.general[0] == handler
            &&& after.sp == machine.sp - 4
            &&& after.stack == le4(machine.sp as u32) + machine.stack
        }),
{
    reveal(executed);
    let after = executed(
        executed(
            executed(machine, Instruction::CopySp { register: 0 }),
            Instruction::Push { register: 0 },
        ),
        Instruction::Load { register: 0, value: handler },
    );
    assert(after.stack =~= le4(machine.sp as u32) + machine.stack);
}

/// What the code in front of the call does below the 128-bit registers.
#[verifier::spinoff_prover]
#[verifier::rlimit(40)]
proof fn lemma_middle(handler: u32, machine: Machine, context: HookContext)
    requires
        has_registers(machine, context),
        machine.below.len() >= 44,
        context.eflags == (machine.sum_flags)(machine.sp, -4),
        context.esp == (machine.sp - 4) as u32,
    ensures
        run(middle(handler), 0, machine) matches Some(after) && {
            &&& after.general[0] == handler
            &&& after.sp == machine.sp - 44
            &&& after.stack == le4((machine.sp - 40) as u32) + (general_bytes(context) + (le4(
                context.mxcsr,
            ) + machine.stack))
        },
{
    let code = middle(handler);
    let m1 = executed(machine, Instruction::AddToSp { number: -4 });
    let m2 = executed(m1, Instruction::StoreMxcsr);
    let m3 = executed(m2, Instruction::PushAll);
    let m4 = executed(m3, Instruction::PushFlags);
    let m5 = executed(m4, Instruction::CopySp { register: 0 });
    let m6 = executed(m5, Instruction::Push { register: 0 });
    let m7 = executed(m6, Instruction::Load { register: 0, value: handler });
    lemma_middle_code(handler);
    lemma_run_one(code, 0, Instruction::AddToSp { number: -4 }, 3, machine);
    lemma_run_one(code, 3, Instruction::StoreMxcsr, 4, m1);
    lemma_run_one(code, 7, Instruction::PushAll, 1, m2);
    lemma_run_one(code, 8, Instruction::PushFlags, 1, m3);
    lemma_run_one(code, 9, Instruction::CopySp { register: 0 }, 2, m4);
    lemma_run_one(code, 11, Instruction::Push { register: 0 }, 1, m5);
    lemma_run_one(code, 12, Instruction::Load { register: 0, value: handler }, 5, m6);
    lemma_run_end(code, m7);
    lemma_save_control(machine);
    lemma_save_general(m2, context);
    lemma_pass_address(handler, m4);
}

/// The handler is called with the address of the block of the live registers: the code in
/// front of the call leaves on the stack the block of a context that holds every register
/// as it was at the hook site, above what was on the stack, and below it, as the only
/// argument, its address.
///
/// The flags of the block are those that the subtraction in front of their saving leaves,
/// and its stack pointer is the one below the saved 128-bit registers and control word.
pub proof fn lemma_handler_gets_the_live_registers(
    stub: u64,
    handler: u64,
    gateway: u64,
    machine: Machine,
    context: HookContext,
)
    requires
        has_registers(machine, context),
        machine.below.len() >= 172,
        context.eflags == (machine.sum_flags)(machine.sp - 128, -4),
        context.esp == (machine.sp - 132) as u32,
    ensures
        stub_code(stub, handler, gateway).len() == 145,
        run(stub_code(stub, handler, gateway).subrange(0, 73), 0, machine) matches Some(after) && {
            &&& after.general[0] == handler % 0x1_0000_0000
            &&& after.sp == machine.sp - 172
            &&& after.stack == le4((machine.sp - 168) as u32) + (context.block() + machine.stack)
        },
        stub_code(stub, handler, gateway).subrange(73, 75) == seq![0xFFu8, 0xD0],
{
    let code = stub_code(stub, handler, gateway);
    let first = save_from(0);
    let low = (handler % 0x1_0000_0000) as u32;
    let second = middle(low);
    lemma_stub_layout(stub, handler, gateway);
    lemma_save_len(0);
    assert(code.subrange(0, 73) =~= first + second);
    assert(code.subrange(73, 75) =~= seq![0xFFu8, 0xD0]);
    lemma_save_xmm_registers(0, machine);
    let m1 = run(first, 0, machine)->0;
    lemma_run_both(first, second, machine);
    lemma_middle(low, m1, context);
    lemma_block_order(context, machine.stack);
}

/// The code behind the call, up to the restoring of the 128-bit registers.
pub open spec fn behind() -> Seq<u8> {
    seq![0x9Du8, 0x61, 0x0F, 0xAE, 0x14, 0x24, 0x83, 0xC4, 0x04]
}

/// The eight general-purpose registers of a block.
#[verifier::opaque]
pub open spec fn eight(context: HookContext) -> Seq<u8> {
    le4(context.edi) + le4(context.esi) + le4(context.ebp) + le4(context.esp) + le4(context.ebx)
        + le4(context.edx) + le4(context.ecx) + le4(context.eax)
}

/// The flags are restored first.
proof fn lemma_restore_flags(machine: Machine, context: HookContext, rest: Seq<u8>)
    requires
        machine.stack == general_bytes(context) + rest,
    ensures
        ({
            let after = executed(machine, Instruction::PopFlags);
            &&& after.general == machine.general && after.xmm == machine.xmm
            &&& after.sp == machine.sp + 4
            &&& after.stack == eight(context) + rest
        }),
{
    reveal(executed);
    reveal(general_bytes);
    reveal(eight);
    lemma_join(le4(context.eflags), eight(context), rest);
    let after = executed(machine, Instruction::PopFlags);
    assert(after.stack =~= eight(context) + rest);
}

/// The general-purpose registers are restored together.
proof fn lemma_restore_general(machine: Machine, context: HookContext, rest: Seq<u8>)
    requires
        machine.wf(),
        machine.stack == eight(context) + rest,
    ensures
        ({
            let after = executed(machine, Instruction::PopAll);
            &&& has_registers(
                Machine { mxcsr: context.mxcsr, xmm: context.xmm@, ..after },
                context,
            )
            &&& after.xmm == machine.xmm
            &&& after.sp == machine.sp + 32
            &&& after.stack == rest
        }),
{
    let stack = machine.stack;
    assert(eight(context).len() == 32) by {
        reveal(eight);
    }
    assert({
        &&& stack.subrange(0, 4) == le4(context.edi)
        &&& stack.subrange(4, 8) == le4(context.esi)
        &&& stack.subrange(8, 12) == le4(context.ebp)
        &&& stack.subrange(16, 20) == le4(context.ebx)
        &&& stack.subrange(20, 24) == le4(context.edx)
        &&& stack.subrange(24, 28) == le4(context.ecx)
        &&& stack.subrange(28, 32) == le4(context.eax)
    }) by {
        reveal(eight);
    }
    lemma_u32_round_trip(stack, 0, context.edi);
    lemma_u32_round_trip(stack, 4, context.esi);
    lemma_u32_round_trip(stack, 8, context.ebp);
    lemma_u32_round_trip(stack, 16, context.ebx);
    lemma_u32_round_trip(stack, 20, context.edx);
    lemma_u32_round_trip(stack, 24, context.ecx);
    lemma_u32_round_trip(stack, 28, context.eax);
    reveal(executed);
    let after = executed(machine, Instruction::PopAll);
    assert(after.stack =~= rest);
}

/// The SSE control word is restored behind them.
proof fn lemma_restore_control(machine: Machine, context: HookContext, rest: Seq<u8>)
    requires
        machine.stack == le4(context.mxcsr) + rest,
    ensures
        ({
            let after = executed(
                executed(machine, Instruction::LoadMxcsr),
                Instruction::AddToSp { number: 4 },
            );
            &&& after.general == machine.general && after.xmm == machine.xmm
            &&& after.mxcsr == context.mxcsr
            &&& after.sp == machine.sp + 4
            &&& after.stack == rest
        }),
{
    reveal(executed);
    assert(machine.stack.subrange(0, 4) =~= le4(context.mxcsr));
    lemma_u32_round_trip(machine.stack, 0, context.mxcsr);
    let after = executed(
        executed(machine, Instruction::LoadMxcsr),
        Instruction::AddToSp { number: 4 },
    );
    assert(after.stack =~= rest);
}

/// What the code behind the call does below the 128-bit registers.
#[verifier::spinoff_prover]
#[verifier::rlimit(40)]
proof fn lemma_behind(machine: Machine, context: HookContext, rest: Seq<u8>)
    requires
        machine.wf(),
        machine.stack == general_bytes(context) + (le4(context.mxcsr) + rest),
    ensures
        run(behind(), 0, machine) matches Some(after) && {
            &&& has_registers(Machine { xmm: context.xmm@, ..after }, context)
            &&& after.xmm == machine.xmm
            &&& after.sp == machine.sp + 40
            &&& after.stack == rest
        },
{
    let code = behind();
    let m1 = executed(machine, Instruction::PopFlags);
    let m2 = executed(m1, Instruction::PopAll);
    let m3 = executed(m2, Instruction::LoadMxcsr);
    let m4 = executed(m3, Instruction::AddToSp { number: 4 });
    assert(code.len() == 9);
    assert({
        &&& instruction(code, 0) == Some((Instruction::PopFlags, 1int))
        &&& instruction(code, 1) == Some((Instruction::PopAll, 1int))
        &&& instruction(code, 2) == Some((Instruction::LoadMxcsr, 4int))
        &&& instruction(code, 6) == Some((Instruction::AddToSp { number: 4 }, 3int))
    }) by {
        reveal(instruction);
    }
    lemma_run_one(code, 0, Instruction::PopFlags, 1, machine);
    lemma_run_one(code, 1, Instruction::PopAll, 1, m1);
    lemma_run_one(code, 2, Instruction::LoadMxcsr, 4, m2);
    lemma_run_one(code, 6, Instruction::AddToSp { number: 4 }, 3, m3);
    lemma_run_end(code, m4);
    lemma_restore_flags(machine, context, le4(context.mxcsr) + rest);
    lemma_restore_general(m1, context, le4(context.mxcsr) + rest);
    lemma_restore_control(m2, context, rest);
}

/// After the call, the function goes on with the registers of the block, whatever the
/// handler has left in it: the code behind the call takes every register but the stack
/// pointer from the block and leaves the stack as it was at the hook site.
///
/// The flags are loaded from the block too, and changed by the additions that follow.
pub proof fn lemma_block_gives_the_registers(
    stub: u64,
    handler: u64,
    gateway: u64,
    machine: Machine,
    context: HookContext,
    rest: Seq<u8>,
)
    requires
        machine.wf(),
        machine.stack == context.block() + rest,
    ensures
        run(stub_code(stub, handler, gateway).subrange(75, 140), 0, machine) matches Some(after)
            && {
            &&& has_registers(after, context)
            &&& after.sp == machine.sp + 168
            &&& after.stack == rest
        },
{
    let code = stub_code(stub, handler, gateway);
    let first = behind();
    let second = restore_upto(8);
    lemma_stub_layout(stub, handler, gateway);
    lemma_save_len(0);
    lemma_restore_len(8);
    assert(code.subrange(75, 140) =~= first + second);
    lemma_block_order(context, rest);
    lemma_behind(machine, context, xmm_tail(context.xmm@, 0) + rest);
    let m1 = run(first, 0, machine)->0;
    lemma_run_both(first, second, machine);
    lemma_restore_xmm_registers(8, m1, context.xmm@, rest);
    let m2 = run(second, 0, m1)->0;
    assert(m2.xmm =~= context.xmm@);
    assert(m2.stack =~= rest);
}

/// The stub ends in a jump to the gateway.
pub proof fn lemma_stub_resumes_at_the_gateway(stub: u64, handler: u64, gateway: u64)
    requires
        stub <= 0xFFFF_FFFF,
        gateway <= 0xFFFF_FFFF,
    ensures
        stub_code(stub, handler, gateway).len() == 145,
        stub_code(stub, handler, gateway)[140] == 0xE9,
        (stub + 145 + signed32(u32_at(stub_code(stub, handler, gateway), 141))) % 0x1_0000_0000
            == gateway,
{
    lemma_stub_layout(stub, handler, gateway);
    lemma_save_len(0);
    lemma_restore_len(8);
    let site = jump_site(stub);
    let rel = displacement(site, gateway);
    assert(site == (stub + 140) % 0x1_0000_0000);
    assert(rel == (gateway - site - 5) % 0x1_0000_0000);
}

} // verus!
