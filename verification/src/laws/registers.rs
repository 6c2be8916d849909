//! Laws of the x64 stub of a hook in the middle of a function, over a small model of the
//! processor: what the stub's bytes do to the registers and to the stack.
use vstd::prelude::*;

use crate::bytes::{le4, le8, lemma_u32_round_trip, lemma_u64_round_trip, u32_at, u64_at};
use crate::midhook::{
    call_handler, lemma_restore_len, lemma_save_len, lemma_stub_layout, restore_general,
    restore_upto, restore_xmm, save_from, save_general, save_xmm, stub_code, xmm_block, xmm_bytes,
    HookContext, Xmm,
};

verus! {

/// The processor, as far as the stub touches it.
pub struct Machine {
    /// The general-purpose registers by their numbers: rax, rcx, rdx, rbx, the stack
    /// pointer (whose place is not used), rbp, rsi, rdi, and r8 to r15.
    pub general: Seq<u64>,
    pub flags: u64,
    pub mxcsr: u32,
    pub xmm: Seq<Xmm>,
    /// The stack pointer.
    pub sp: int,
    /// The memory from the stack pointer upward.
    pub stack: Seq<u8>,
    /// The memory that ends at the stack pointer.
    pub below: Seq<u8>,
    /// The flags that adding a number to an address leaves.
    pub sum_flags: spec_fn(int, int) -> u64,
}

impl Machine {
    /// Whether there are as many registers as there should be.
    pub open spec fn wf(self) -> bool {
        self.general.len() == 16 && self.xmm.len() == 16
    }

    /// The machine after the stack pointer has moved by `delta`.
    pub open spec fn moved(self, delta: int) -> Machine {
        let low = self.below.len() as int;
        if delta <= 0 {
            Machine {
                sp: self.sp + delta,
                stack: self.below.subrange(low + delta, low) + self.stack,
                below: self.below.subrange(0, low + delta),
                ..self
            }
        } else {
            Machine {
                sp: self.sp + delta,
                stack: self.stack.subrange(delta, self.stack.len() as int),
                below: self.below + self.stack.subrange(0, delta),
                ..self
            }
        }
    }

    /// The machine after bytes were written at the stack pointer.
    pub open spec fn stored(self, bytes: Seq<u8>) -> Machine {
        Machine {
            stack: bytes + self.stack.subrange(bytes.len() as int, self.stack.len() as int),
            ..self
        }
    }
}

/// The instructions that the stub is made of.
pub enum Instruction {
    Push { register: int },
    Pop { register: int },
    PushFlags,
    PopFlags,
    AddToSp { number: int },
    StoreXmm { register: int },
    LoadXmm { register: int },
    StoreMxcsr,
    LoadMxcsr,
    /// Copies the stack pointer to a register.
    CopySp { register: int },
    /// Sets the stack pointer to what a register holds.
    SetSp { register: int },
    /// Lowers the stack pointer to a multiple of 16.
    AlignSp,
    /// Loads a constant.
    Load { register: int, value: u64 },
}

/// A byte of code.
pub open spec fn is(code: Seq<u8>, at: int, byte: u8) -> bool {
    at < code.len() && code[at] == byte
}

/// The instruction at a place of the code, with its length.
#[verifier::opaque]
pub open spec fn instruction(code: Seq<u8>, at: int) -> Option<(Instruction, int)> {
    if at < 0 || at >= code.len() {
        None
    } else if 0x50 <= code[at] <= 0x57 {
        Some((Instruction::Push { register: code[at] - 0x50 }, 1))
    } else if 0x58 <= code[at] <= 0x5F {
        Some((Instruction::Pop { register: code[at] - 0x58 }, 1))
    } else if code[at] == 0x9C {
        Some((Instruction::PushFlags, 1))
    } else if code[at] == 0x9D {
        Some((Instruction::PopFlags, 1))
    } else if code[at] == 0x41 && at + 1 < code.len() && 0x50 <= code[at + 1] <= 0x57 {
        Some((Instruction::Push { register: 8 + (code[at + 1] - 0x50) }, 2))
    } else if code[at] == 0x41 && at + 1 < code.len() && 0x58 <= code[at + 1] <= 0x5F {
        Some((Instruction::Pop { register: 8 + (code[at + 1] - 0x58) }, 2))
    } else if code[at] == 0x48 && is(code, at + 1, 0x83) && is(code, at + 2, 0xEC) && at + 3
        < code.len() && code[at + 3] < 0x80 {
        Some((Instruction::AddToSp { number: -(code[at + 3] as int) }, 4))
    } else if code[at] == 0x48 && is(code, at + 1, 0x83) && is(code, at + 2, 0xC4) && at + 3
        < code.len() && code[at + 3] < 0x80 {
        Some((Instruction::AddToSp { number: code[at + 3] as int }, 4))
    } else if code[at] == 0x48 && is(code, at + 1, 0x83) && is(code, at + 2, 0xE4) && is(
        code,
        at + 3,
        0xF0,
    ) {
        Some((Instruction::AlignSp, 4))
    } else if code[at] == 0x48 && is(code, at + 1, 0x89) && at + 2 < code.len() && 0xE0 <= code[at
        + 2] <= 0xE7 {
        Some((Instruction::CopySp { register: code[at + 2] - 0xE0 }, 3))
    } else if code[at] == 0x48 && is(code, at + 1, 0x89) && is(code, at + 2, 0xEC) {
        Some((Instruction::SetSp { register: 5 }, 3))
    } else if code[at] == 0x48 && at + 9 < code.len() && 0xB8 <= code[at + 1] <= 0xBF {
        Some((Instruction::Load { register: code[at + 1] - 0xB8, value: u64_at(code, at + 2) }, 10))
    } else if code[at] == 0x0F && is(code, at + 1, 0xAE) && is(code, at + 2, 0x1C) && is(
        code,
        at + 3,
        0x24,
    ) {
        Some((Instruction::StoreMxcsr, 4))
    } else if code[at] == 0x0F && is(code, at + 1, 0xAE) && is(code, at + 2, 0x14) && is(
        code,
        at + 3,
        0x24,
    ) {
        Some((Instruction::LoadMxcsr, 4))
    } else if code[at] == 0x0F && is(code, at + 1, 0x11) && at + 2 < code.len() && code[at + 2] % 8
        == 4 && code[at + 2] < 0x40 && is(code, at + 3, 0x24) {
        Some((Instruction::StoreXmm { register: (code[at + 2] / 8) as int }, 4))
    } else if code[at] == 0x0F && is(code, at + 1, 0x10) && at + 2 < code.len() && code[at + 2] % 8
        == 4 && code[at + 2] < 0x40 && is(code, at + 3, 0x24) {
        Some((Instruction::LoadXmm { register: (code[at + 2] / 8) as int }, 4))
    } else if code[at] == 0x44 && is(code, at + 1, 0x0F) && is(code, at + 2, 0x11) && at + 3
        < code.len() && code[at + 3] % 8 == 4 && code[at + 3] < 0x40 && is(code, at + 4, 0x24) {
        Some((Instruction::StoreXmm { register: 8 + code[at + 3] / 8 }, 5))
    } else if code[at] == 0x44 && is(code, at + 1, 0x0F) && is(code, at + 2, 0x10) && at + 3
        < code.len() && code[at + 3] % 8 == 4 && code[at + 3] < 0x40 && is(code, at + 4, 0x24) {
        Some((Instruction::LoadXmm { register: 8 + code[at + 3] / 8 }, 5))
    } else {
        None
    }
}

/// What an instruction does.
#[verifier::opaque]
pub open spec fn executed(machine: Machine, instruction: Instruction) -> Machine {
    match instruction {
        Instruction::Push { register } => machine.moved(-8).stored(le8(machine.general[register])),
        Instruction::Pop { register } => Machine {
            general: machine.general.update(register, u64_at(machine.stack, 0)),
            ..machine.moved(8)
        },
        Instruction::PushFlags => machine.moved(-8).stored(le8(machine.flags)),
        Instruction::PopFlags => Machine {
            flags: u64_at(machine.stack, 0),
            ..machine.moved(8)
        },
        Instruction::AddToSp { number } => Machine {
            flags: (machine.sum_flags)(machine.sp, number),
            ..machine.moved(number)
        },
        Instruction::StoreXmm { register } => machine.stored(xmm_bytes(machine.xmm[register])),
        Instruction::LoadXmm { register } => Machine {
            xmm: machine.xmm.update(
                register,
                Xmm { low: u64_at(machine.stack, 0), high: u64_at(machine.stack, 8) },
            ),
            ..machine
        },
        Instruction::StoreMxcsr => machine.stored(le4(machine.mxcsr)),
        Instruction::LoadMxcsr => Machine { mxcsr: u32_at(machine.stack, 0), ..machine },
        Instruction::CopySp { register } => Machine {
            general: machine.general.update(register, machine.sp as u64),
            ..machine
        },
        Instruction::SetSp { register } => machine.moved(machine.general[register] - machine.sp),
        Instruction::AlignSp => Machine {
            flags: (machine.sum_flags)(machine.sp, -(machine.sp % 16)),
            ..machine.moved(-(machine.sp % 16))
        },
        Instruction::Load { register, value } => Machine {
            general: machine.general.update(register, value),
            ..machine
        },
    }
}

/// What the code from `at` to its end does; `None` where it holds something else than the
/// instructions above.
#[verifier::opaque]
pub open spec fn run(code: Seq<u8>, at: int, machine: Machine) -> Option<Machine>
    decreases code.len() - at,
{
    if at >= code.len() {
        Some(machine)
    } else {
        match instruction(code, at) {
            Some((first, len)) => if 0 < len && at + len <= code.len() {
                run(code, at + len, executed(machine, first))
            } else {
                None
            },
            None => None,
        }
    }
}

/// Code in front does not change what code does.
proof fn lemma_run_suffix(a: Seq<u8>, b: Seq<u8>, at: int, machine: Machine)
    requires
        0 <= at,
    ensures
        run(a + b, a.len() + at, machine) == run(b, at, machine),
    decreases b.len() - at,
{
    reveal(instruction);
    reveal(run);
    let all = a + b;
    if at < b.len() {
        assert(forall|i: int| 0 <= i < b.len() ==> all[a.len() + i] == b[i]);
        assert(at + 9 < b.len() ==> u64_at(all, a.len() + at + 2) == u64_at(b, at + 2));
        assert(instruction(all, a.len() + at) == instruction(b, at));
        match instruction(b, at) {
            Some((first, len)) => {
                lemma_run_suffix(a, b, at + len, executed(machine, first));
            },
            None => {},
        }
    }
}

/// Code behind does not change what code does before.
proof fn lemma_run_prefix(a: Seq<u8>, b: Seq<u8>, at: int, machine: Machine)
    requires
        0 <= at <= a.len(),
        run(a, at, machine) is Some,
    ensures
        run(a + b, at, machine) == run(a + b, a.len() as int, run(a, at, machine)->0),
    decreases a.len() - at,
{
    reveal(instruction);
    reveal(run);
    let all = a + b;
    if at < a.len() {
        assert(forall|i: int| 0 <= i < a.len() ==> all[i] == a[i]);
        assert(at + 9 < a.len() ==> u64_at(all, at + 2) == u64_at(a, at + 2));
        assert(instruction(all, at) == instruction(a, at));
        match instruction(a, at) {
            Some((first, len)) => {
                lemma_run_prefix(a, b, at + len, executed(machine, first));
            },
            None => {},
        }
    }
}

/// Two pieces of code do what the first and then the second does.
proof fn lemma_run_both(a: Seq<u8>, b: Seq<u8>, machine: Machine)
    requires
        run(a, 0, machine) is Some,
    ensures
        run(a + b, 0, machine) == run(b, 0, run(a, 0, machine)->0),
{
    lemma_run_prefix(a, b, 0, machine);
    lemma_run_suffix(a, b, 0, run(a, 0, machine)->0);
}

/// The bytes of the registers from `n` on.
pub open spec fn xmm_tail(registers: Seq<Xmm>, n: int) -> Seq<u8>
    decreases 16 - n,
{
    if n >= 16 {
        Seq::empty()
    } else {
        xmm_bytes(registers[n]) + xmm_tail(registers, n + 1)
    }
}

/// The bytes of all registers, split at any of them.
proof fn lemma_xmm_split(registers: Seq<Xmm>, n: int)
    requires
        0 <= n <= 16,
    ensures
        xmm_block(registers, n) + xmm_tail(registers, n) == xmm_block(registers, 16),
    decreases 16 - n,
{
    if n < 16 {
        lemma_xmm_split(registers, n + 1);
        assert(xmm_block(registers, n) + (xmm_bytes(registers[n]) + xmm_tail(registers, n + 1))
            =~= (xmm_block(registers, n) + xmm_bytes(registers[n])) + xmm_tail(registers, n + 1));
    } else {
        assert(xmm_block(registers, n) + xmm_tail(registers, n) =~= xmm_block(registers, 16));
    }
}

/// The code that saves one register makes room for it and stores it there.
proof fn lemma_save_one(n: u8, machine: Machine)
    requires
        n < 16,
        machine.wf(),
        machine.below.len() >= 16,
    ensures
        run(save_xmm(n), 0, machine) == Some(
            executed(
                executed(machine, Instruction::AddToSp { number: -16 }),
                Instruction::StoreXmm { register: n as int },
            ),
        ),
{
    reveal(instruction);
    reveal(executed);
    reveal(run);
    let code = save_xmm(n);
    assert(n < 16 ==> (0x04 | ((n & 7) << 3)) == 4 + 8 * (n % 8)) by (bit_vector);
    let modrm = (0x04 | ((n & 7) << 3)) as u8;
    let first = executed(machine, Instruction::AddToSp { number: -16 });
    let second = executed(first, Instruction::StoreXmm { register: n as int });
    assert(instruction(code, 0) == Some((Instruction::AddToSp { number: -16 }, 4int)));
    if n < 8 {
        assert(code.len() == 8);
        assert(code[4] == 0x0F && code[5] == 0x11 && code[6] == modrm && code[7] == 0x24);
        assert(instruction(code, 4) == Some((Instruction::StoreXmm { register: n as int }, 4int)));
        assert(run(code, 8, second) == Some(second));
    } else {
        assert(code.len() == 9);
        assert(code[4] == 0x44 && code[5] == 0x0F && code[6] == 0x11 && code[7] == modrm && code[8]
            == 0x24);
        assert(instruction(code, 4) == Some((Instruction::StoreXmm { register: n as int }, 5int)));
        assert(run(code, 9, second) == Some(second));
    }
    assert(run(code, 4, first) == Some(second));
    assert(run(code, 0, machine) == run(code, 4, first));
}

/// The code that restores one register loads it and gives its room up.
proof fn lemma_restore_one(n: u8, machine: Machine)
    requires
        n < 16,
        machine.wf(),
        machine.stack.len() >= 16,
    ensures
        run(restore_xmm(n), 0, machine) == Some(
            executed(
                executed(machine, Instruction::LoadXmm { register: n as int }),
                Instruction::AddToSp { number: 16 },
            ),
        ),
{
    reveal(instruction);
    reveal(executed);
    reveal(run);
    let code = restore_xmm(n);
    assert(n < 16 ==> (0x04 | ((n & 7) << 3)) == 4 + 8 * (n % 8)) by (bit_vector);
    let modrm = (0x04 | ((n & 7) << 3)) as u8;
    let first = executed(machine, Instruction::LoadXmm { register: n as int });
    let second = executed(first, Instruction::AddToSp { number: 16 });
    let len: int = if n < 8 {
        4
    } else {
        5
    };
    if n < 8 {
        assert(code[0] == 0x0F && code[1] == 0x10 && code[2] == modrm && code[3] == 0x24);
        assert(code[4] == 0x48 && code[5] == 0x83 && code[6] == 0xC4 && code[7] == 0x10);
    } else {
        assert(code[0] == 0x44 && code[1] == 0x0F && code[2] == 0x10 && code[3] == modrm && code[4]
            == 0x24);
        assert(code[5] == 0x48 && code[6] == 0x83 && code[7] == 0xC4 && code[8] == 0x10);
    }
    assert(code.len() == len + 4);
    assert(instruction(code, 0) == Some((Instruction::LoadXmm { register: n as int }, len)));
    assert(instruction(code, len) == Some((Instruction::AddToSp { number: 16 }, 4int)));
    assert(run(code, len + 4, second) == Some(second));
    assert(run(code, len, first) == Some(second));
    assert(run(code, 0, machine) == run(code, len, first));
}

/// What saving one register does.
#[verifier::rlimit(40)]
proof fn lemma_save_one_effect(n: int, machine: Machine)
    requires
        0 <= n < 16,
        machine.wf(),
        machine.below.len() >= 16,
    ensures
        run(save_xmm(n as u8), 0, machine) matches Some(after) && {
            &&& after.general == machine.general
            &&& after.xmm == machine.xmm
            &&& after.mxcsr == machine.mxcsr
            &&& after.sum_flags == machine.sum_flags
            &&& after.sp == machine.sp - 16
            &&& after.stack == xmm_bytes(machine.xmm[n]) + machine.stack
            &&& after.below == machine.below.subrange(0, machine.below.len() - 16)
        },
{
    reveal(executed);
    lemma_save_one(n as u8, machine);
    let after = run(save_xmm(n as u8), 0, machine)->0;
    assert(after.stack =~= xmm_bytes(machine.xmm[n]) + machine.stack);
}

/// What restoring one register does.
#[verifier::rlimit(40)]
proof fn lemma_restore_one_effect(n: int, machine: Machine, value: Xmm, rest: Seq<u8>)
    requires
        0 <= n < 16,
        machine.wf(),
        machine.stack == xmm_bytes(value) + rest,
    ensures
        run(restore_xmm(n as u8), 0, machine) matches Some(after) && {
            &&& after.general == machine.general
            &&& after.xmm == machine.xmm.update(n, value)
            &&& after.mxcsr == machine.mxcsr
            &&& after.sum_flags == machine.sum_flags
            &&& after.sp == machine.sp + 16
            &&& after.stack == rest
        },
{
    reveal(executed);
    lemma_restore_one(n as u8, machine);
    assert(machine.stack.subrange(0, 8) =~= le8(value.low));
    assert(machine.stack.subrange(8, 16) =~= le8(value.high));
    lemma_u64_round_trip(machine.stack, 0, value.low);
    lemma_u64_round_trip(machine.stack, 8, value.high);
    let after = run(restore_xmm(n as u8), 0, machine)->0;
    assert(after.stack =~= rest);
}

/// Pieces of memory follow each other however they are put together.
proof fn lemma_join(a: Seq<u8>, b: Seq<u8>, c: Seq<u8>)
    ensures
        (a + b) + c == a + (b + c),
{
    assert((a + b) + c =~= a + (b + c));
}

/// Saving the registers from 15 down to `n` leaves them on the stack, the lowest number
/// lowest, and changes none of them.
proof fn lemma_save_xmm_registers(n: int, machine: Machine)
    requires
        0 <= n <= 16,
        machine.wf(),
        machine.below.len() >= 16 * (16 - n),
    ensures
        run(save_from(n), 0, machine) matches Some(after) && {
            &&& after.general == machine.general
            &&& after.xmm == machine.xmm
            &&& after.mxcsr == machine.mxcsr
            &&& after.sum_flags == machine.sum_flags
            &&& after.sp == machine.sp - 16 * (16 - n)
            &&& after.stack == xmm_tail(machine.xmm, n) + machine.stack
            &&& after.below == machine.below.subrange(0, machine.below.len() - 16 * (16 - n))
        },
    decreases 16 - n,
{
    reveal(run);
    if n < 16 {
        lemma_save_xmm_registers(n + 1, machine);
        let before = run(save_from(n + 1), 0, machine)->0;
        lemma_run_both(save_from(n + 1), save_xmm(n as u8), machine);
        lemma_save_one_effect(n, before);
        lemma_join(xmm_bytes(machine.xmm[n]), xmm_tail(machine.xmm, n + 1), machine.stack);
        let after = run(save_from(n), 0, machine)->0;
        assert(after.below =~= machine.below.subrange(0, machine.below.len() - 16 * (16 - n)));
    } else {
        assert(save_from(16) =~= Seq::<u8>::empty());
        assert(machine.stack =~= xmm_tail(machine.xmm, 16) + machine.stack);
        assert(machine.below =~= machine.below.subrange(0, machine.below.len() as int));
    }
}

/// Restoring the first `count` registers takes them from the stack, the lowest number
/// first.
proof fn lemma_restore_xmm_registers(count: int, machine: Machine, saved: Seq<Xmm>, rest: Seq<u8>)
    requires
        0 <= count <= 16,
        machine.wf(),
        saved.len() == 16,
        machine.stack == xmm_tail(saved, 0) + rest,
    ensures
        run(restore_upto(count), 0, machine) matches Some(after) && {
            &&& after.general == machine.general
            &&& after.xmm.len() == 16
            &&& forall|i: int| 0 <= i < count ==> #[trigger] after.xmm[i] == saved[i]
            &&& after.mxcsr == machine.mxcsr
            &&& after.sum_flags == machine.sum_flags
            &&& after.sp == machine.sp + 16 * count
            &&& after.stack == xmm_tail(saved, count) + rest
        },
    decreases count,
{
    reveal(run);
    if count > 0 {
        let n = count - 1;
        lemma_restore_xmm_registers(n, machine, saved, rest);
        let before = run(restore_upto(n), 0, machine)->0;
        lemma_join(xmm_bytes(saved[n]), xmm_tail(saved, count), rest);
        lemma_run_both(restore_upto(n), restore_xmm(n as u8), machine);
        lemma_restore_one_effect(n, before, saved[n], xmm_tail(saved, count) + rest);
    } else {
        assert(restore_upto(0) =~= Seq::<u8>::empty());
    }
}

/// The bytes of a 64-bit value on the stack.
#[verifier::opaque]
pub open spec fn quad(value: u64) -> Seq<u8> {
    le8(value)
}

/// The bytes of the SSE control word on the stack, with its padding.
#[verifier::opaque]
pub open spec fn control(context: HookContext) -> Seq<u8> {
    le4(context.mxcsr) + le4(context._reserved)
}

/// One instruction is executed, and the code goes on behind it.
proof fn lemma_run_one(code: Seq<u8>, at: int, first: Instruction, len: int, machine: Machine)
    requires
        0 <= at < code.len(),
        len > 0,
        at + len <= code.len(),
        instruction(code, at) == Some((first, len)),
    ensures
        run(code, at, machine) == run(code, at + len, executed(machine, first)),
{
    reveal(run);
}

/// At its end, code does nothing more.
proof fn lemma_run_end(code: Seq<u8>, machine: Machine)
    ensures
        run(code, code.len() as int, machine) == Some(machine),
{
    reveal(run);
}

/// Pushing a register puts its bytes on the stack.
proof fn lemma_push(machine: Machine, register: int)
    requires
        machine.wf(),
        machine.below.len() >= 8,
        0 <= register < 16,
    ensures
        ({
            let after = executed(machine, Instruction::Push { register });
            &&& after.general == machine.general && after.xmm == machine.xmm
            &&& after.flags == machine.flags && after.mxcsr == machine.mxcsr
            &&& after.sum_flags == machine.sum_flags
            &&& after.sp == machine.sp - 8
            &&& after.stack == quad(machine.general[register]) + machine.stack
            &&& after.below.len() == machine.below.len() - 8
        }),
{
    reveal(executed);
    reveal(quad);
    let after = executed(machine, Instruction::Push { register });
    assert(after.stack =~= le8(machine.general[register]) + machine.stack);
}

/// Popping a register takes its bytes from the stack.
proof fn lemma_pop(machine: Machine, register: int, value: u64, rest: Seq<u8>)
    requires
        machine.wf(),
        0 <= register < 16,
        machine.stack == quad(value) + rest,
    ensures
        ({
            let after = executed(machine, Instruction::Pop { register });
            &&& after.general == machine.general.update(register, value)
            &&& after.xmm == machine.xmm
            &&& after.mxcsr == machine.mxcsr
            &&& after.sum_flags == machine.sum_flags
            &&& after.sp == machine.sp + 8
            &&& after.stack == rest
        }),
{
    reveal(executed);
    reveal(quad);
    let after = executed(machine, Instruction::Pop { register });
    assert(machine.stack.subrange(0, 8) =~= le8(value));
    lemma_u64_round_trip(machine.stack, 0, value);
    assert(after.stack =~= rest);
}

/// Whether a machine's registers are those of a context, but for the flags.
pub open spec fn has_registers(machine: Machine, context: HookContext) -> bool {
    &&& has_general(machine, context)
    &&& machine.xmm == context.xmm@
}

/// Whether a machine's registers are those of a context, but for the flags and the
/// 128-bit registers.
pub open spec fn has_general(machine: Machine, context: HookContext) -> bool {
    &&& machine.wf()
    &&& machine.general[0] == context.rax
    &&& machine.general[1] == context.rcx
    &&& machine.general[2] == context.rdx
    &&& machine.general[3] == context.rbx
    &&& machine.general[5] == context.rbp
    &&& machine.general[6] == context.rsi
    &&& machine.general[7] == context.rdi
    &&& machine.general[8] == context.r8
    &&& machine.general[9] == context.r9
    &&& machine.general[10] == context.r10
    &&& machine.general[11] == context.r11
    &&& machine.general[12] == context.r12
    &&& machine.general[13] == context.r13
    &&& machine.general[14] == context.r14
    &&& machine.general[15] == context.r15
    &&& machine.mxcsr == context.mxcsr
}

/// The memory of a context's block from its `n`-th value on, with what follows: the flags
/// are the first, the registers from rax on follow, and the seventeenth is the SSE control
/// word.
pub open spec fn memory_from(context: HookContext, n: int, rest: Seq<u8>) -> Seq<u8>
    decreases 17 - n,
{
    if n >= 17 {
        xmm_tail(context.xmm@, 0) + rest
    } else if n == 16 {
        control(context) + memory_from(context, 17, rest)
    } else {
        quad(value_of(context, n)) + memory_from(context, n + 1, rest)
    }
}

/// The `n`-th 64-bit value of a context's block.
pub open spec fn value_of(context: HookContext, n: int) -> u64 {
    if n == 0 {
        context.rflags
    } else if n == 1 {
        context.rax
    } else if n == 2 {
        context.rcx
    } else if n == 3 {
        context.rdx
    } else if n == 4 {
        context.rbx
    } else if n == 5 {
        context.rbp
    } else if n == 6 {
        context.rsi
    } else if n == 7 {
        context.rdi
    } else if n == 8 {
        context.r8
    } else if n == 9 {
        context.r9
    } else if n == 10 {
        context.r10
    } else if n == 11 {
        context.r11
    } else if n == 12 {
        context.r12
    } else if n == 13 {
        context.r13
    } else if n == 14 {
        context.r14
    } else {
        context.r15
    }
}

/// Eighteen pieces, what follows them and the rest follow each other however they are put
/// together.
proof fn lemma_chain(
    p0: Seq<u8>,
    p1: Seq<u8>,
    p2: Seq<u8>,
    p3: Seq<u8>,
    p4: Seq<u8>,
    p5: Seq<u8>,
    p6: Seq<u8>,
    p7: Seq<u8>,
    p8: Seq<u8>,
    p9: Seq<u8>,
    p10: Seq<u8>,
    p11: Seq<u8>,
    p12: Seq<u8>,
    p13: Seq<u8>,
    p14: Seq<u8>,
    p15: Seq<u8>,
    c: Seq<u8>,
    d: Seq<u8>,
    tail: Seq<u8>,
    rest: Seq<u8>,
)
    ensures
        p0 + p1 + p2 + p3 + p4 + p5 + p6 + p7 + p8 + p9 + p10 + p11 + p12 + p13 + p14 + p15 + c + d
            + tail + rest == p0 + (p1 + (p2 + (p3 + (p4 + (p5 + (p6 + (p7 + (p8 + (p9 + (p10 + (p11
            + (p12 + (p13 + (p14 + (p15 + ((c + d) + (tail + rest))))))))))))))))),
{
    let b0 = p0;
    let b1 = b0 + p1;
    let b2 = b1 + p2;
    let b3 = b2 + p3;
    let b4 = b3 + p4;
    let b5 = b4 + p5;
    let b6 = b5 + p6;
    let b7 = b6 + p7;
    let b8 = b7 + p8;
    let b9 = b8 + p9;
    let b10 = b9 + p10;
    let b11 = b10 + p11;
    let b12 = b11 + p12;
    let b13 = b12 + p13;
    let b14 = b13 + p14;
    let b15 = b14 + p15;
    let t16 = (c + d) + (tail + rest);
    let t15 = p15 + t16;
    let t14 = p14 + t15;
    let t13 = p13 + t14;
    let t12 = p12 + t13;
    let t11 = p11 + t12;
    let t10 = p10 + t11;
    let t9 = p9 + t10;
    let t8 = p8 + t9;
    let t7 = p7 + t8;
    let t6 = p6 + t7;
    let t5 = p5 + t6;
    let t4 = p4 + t5;
    let t3 = p3 + t4;
    let t2 = p2 + t3;
    let t1 = p1 + t2;
    lemma_join(b15 + c + d, tail, rest);
    lemma_join(b15, c, d);
    lemma_join(b15, c + d, tail + rest);
    lemma_join(b14, p15, t16);
    lemma_join(b13, p14, t15);
    lemma_join(b12, p13, t14);
    lemma_join(b11, p12, t13);
    lemma_join(b10, p11, t12);
    lemma_join(b9, p10, t11);
    lemma_join(b8, p9, t10);
    lemma_join(b7, p8, t9);
    lemma_join(b6, p7, t8);
    lemma_join(b5, p6, t7);
    lemma_join(b4, p5, t6);
    lemma_join(b3, p4, t5);
    lemma_join(b2, p3, t4);
    lemma_join(b1, p2, t3);
    lemma_join(b0, p1, t2);
}

/// The block of a context and what follows it, value by value.
#[verifier::rlimit(40)]
proof fn lemma_block_order(context: HookContext, rest: Seq<u8>)
    ensures
        context.block() + rest == memory_from(context, 0, rest),
{
    let tail = xmm_tail(context.xmm@, 0);
    lemma_xmm_split(context.xmm@, 0);
    assert(xmm_block(context.xmm@, 0) + tail =~= tail);
    reveal(quad);
    reveal(control);
    reveal_with_fuel(memory_from, 18);
    lemma_chain(
        le8(context.rflags),
        le8(context.rax),
        le8(context.rcx),
        le8(context.rdx),
        le8(context.rbx),
        le8(context.rbp),
        le8(context.rsi),
        le8(context.rdi),
        le8(context.r8),
        le8(context.r9),
        le8(context.r10),
        le8(context.r11),
        le8(context.r12),
        le8(context.r13),
        le8(context.r14),
        le8(context.r15),
        le4(context.mxcsr),
        le4(context._reserved),
        tail,
        rest,
    );
}

/// What the saving code consists of.
proof fn lemma_save_general_code()
    ensures
        save_general().len() == 32,
        instruction(save_general(), 0) == Some((Instruction::AddToSp { number: -8 }, 4int)),
        instruction(save_general(), 4) == Some((Instruction::StoreMxcsr, 4int)),
        instruction(save_general(), 8) == Some((Instruction::Push { register: 15 }, 2int)),
        instruction(save_general(), 10) == Some((Instruction::Push { register: 14 }, 2int)),
        instruction(save_general(), 12) == Some((Instruction::Push { register: 13 }, 2int)),
        instruction(save_general(), 14) == Some((Instruction::Push { register: 12 }, 2int)),
        instruction(save_general(), 16) == Some((Instruction::Push { register: 11 }, 2int)),
        instruction(save_general(), 18) == Some((Instruction::Push { register: 10 }, 2int)),
        instruction(save_general(), 20) == Some((Instruction::Push { register: 9 }, 2int)),
        instruction(save_general(), 22) == Some((Instruction::Push { register: 8 }, 2int)),
        instruction(save_general(), 24) == Some((Instruction::Push { register: 7 }, 1int)),
        instruction(save_general(), 25) == Some((Instruction::Push { register: 6 }, 1int)),
        instruction(save_general(), 26) == Some((Instruction::Push { register: 5 }, 1int)),
        instruction(save_general(), 27) == Some((Instruction::Push { register: 3 }, 1int)),
        instruction(save_general(), 28) == Some((Instruction::Push { register: 2 }, 1int)),
        instruction(save_general(), 29) == Some((Instruction::Push { register: 1 }, 1int)),
        instruction(save_general(), 30) == Some((Instruction::Push { register: 0 }, 1int)),
        instruction(save_general(), 31) == Some((Instruction::PushFlags, 1int)),
{
    reveal(instruction);
}

/// What the restoring code consists of.
proof fn lemma_restore_general_code()
    ensures
        restore_general().len() == 32,
        instruction(restore_general(), 0) == Some((Instruction::PopFlags, 1int)),
        instruction(restore_general(), 1) == Some((Instruction::Pop { register: 0 }, 1int)),
        instruction(restore_general(), 2) == Some((Instruction::Pop { register: 1 }, 1int)),
        instruction(restore_general(), 3) == Some((Instruction::Pop { register: 2 }, 1int)),
        instruction(restore_general(), 4) == Some((Instruction::Pop { register: 3 }, 1int)),
        instruction(restore_general(), 5) == Some((Instruction::Pop { register: 5 }, 1int)),
        instruction(restore_general(), 6) == Some((Instruction::Pop { register: 6 }, 1int)),
        instruction(restore_general(), 7) == Some((Instruction::Pop { register: 7 }, 1int)),
        instruction(restore_general(), 8) == Some((Instruction::Pop { register: 8 }, 2int)),
        instruction(restore_general(), 10) == Some((Instruction::Pop { register: 9 }, 2int)),
        instruction(restore_general(), 12) == Some((Instruction::Pop { register: 10 }, 2int)),
        instruction(restore_general(), 14) == Some((Instruction::Pop { register: 11 }, 2int)),
        instruction(restore_general(), 16) == Some((Instruction::Pop { register: 12 }, 2int)),
        instruction(restore_general(), 18) == Some((Instruction::Pop { register: 13 }, 2int)),
        instruction(restore_general(), 20) == Some((Instruction::Pop { register: 14 }, 2int)),
        instruction(restore_general(), 22) == Some((Instruction::Pop { register: 15 }, 2int)),
        instruction(restore_general(), 24) == Some((Instruction::LoadMxcsr, 4int)),
        instruction(restore_general(), 28) == Some((Instruction::AddToSp { number: 8 }, 4int)),
{
    reveal(instruction);
}

/// A machine on its way through the saving code: the stack holds the block from value `n`
/// on, and no register has changed.
#[verifier::opaque]
pub open spec fn saved_to(
    machine: Machine,
    origin: Machine,
    context: HookContext,
    n: int,
    rest: Seq<u8>,
) -> bool {
    &&& machine.general == origin.general && machine.xmm == origin.xmm
    &&& machine.mxcsr == origin.mxcsr && machine.flags == context.rflags
    &&& machine.sum_flags == origin.sum_flags
    &&& machine.sp == origin.sp - 8 * (17 - n)
    &&& machine.below.len() == origin.below.len() - 8 * (17 - n)
    &&& machine.stack == memory_from(context, n, rest)
}

/// Pushing the register before saves one value more.
proof fn lemma_save_next(
    code: Seq<u8>,
    at: int,
    len: int,
    register: int,
    machine: Machine,
    origin: Machine,
    context: HookContext,
    n: int,
    rest: Seq<u8>,
)
    requires
        0 <= at,
        len > 0,
        at + len <= code.len(),
        instruction(code, at) == Some((Instruction::Push { register }, len)),
        origin.wf(),
        origin.below.len() >= 136,
        0 <= n < 16,
        0 <= register < 16,
        saved_to(machine, origin, context, n + 1, rest),
        origin.general[register] == value_of(context, n),
    ensures
        run(code, at, machine) == run(
            code,
            at + len,
            executed(machine, Instruction::Push { register }),
        ),
        saved_to(
            executed(machine, Instruction::Push { register }),
            origin,
            context,
            n,
            rest,
        ),
{
    reveal(saved_to);
    lemma_push(machine, register);
    lemma_run_one(code, at, Instruction::Push { register }, len, machine);
}

/// What instructions that save the registers do.
#[verifier::spinoff_prover]
#[verifier::rlimit(60)]
proof fn lemma_saving(code: Seq<u8>, machine: Machine, context: HookContext, rest: Seq<u8>)
    requires
        code.len() == 32,
        instruction(code, 0) == Some((Instruction::AddToSp { number: -8 }, 4int)),
        instruction(code, 4) == Some((Instruction::StoreMxcsr, 4int)),
        instruction(code, 8) == Some((Instruction::Push { register: 15 }, 2int)),
        instruction(code, 10) == Some((Instruction::Push { register: 14 }, 2int)),
        instruction(code, 12) == Some((Instruction::Push { register: 13 }, 2int)),
        instruction(code, 14) == Some((Instruction::Push { register: 12 }, 2int)),
        instruction(code, 16) == Some((Instruction::Push { register: 11 }, 2int)),
        instruction(code, 18) == Some((Instruction::Push { register: 10 }, 2int)),
        instruction(code, 20) == Some((Instruction::Push { register: 9 }, 2int)),
        instruction(code, 22) == Some((Instruction::Push { register: 8 }, 2int)),
        instruction(code, 24) == Some((Instruction::Push { register: 7 }, 1int)),
        instruction(code, 25) == Some((Instruction::Push { register: 6 }, 1int)),
        instruction(code, 26) == Some((Instruction::Push { register: 5 }, 1int)),
        instruction(code, 27) == Some((Instruction::Push { register: 3 }, 1int)),
        instruction(code, 28) == Some((Instruction::Push { register: 2 }, 1int)),
        instruction(code, 29) == Some((Instruction::Push { register: 1 }, 1int)),
        instruction(code, 30) == Some((Instruction::Push { register: 0 }, 1int)),
        instruction(code, 31) == Some((Instruction::PushFlags, 1int)),
        has_registers(machine, context),
        machine.below.len() >= 136,
        machine.stack == xmm_tail(context.xmm@, 0) + rest,
        context.rflags == (machine.sum_flags)(machine.sp, -8),
        le4(context._reserved) == machine.below.subrange(
            machine.below.len() - 4,
            machine.below.len() as int,
        ),
    ensures
        run(code, 0, machine) matches Some(after) && {
            &&& after.general == machine.general && after.xmm == machine.xmm
            &&& after.mxcsr == machine.mxcsr
            &&& after.sum_flags == machine.sum_flags
            &&& after.sp == machine.sp - 136
            &&& after.stack == memory_from(context, 0, rest)
            &&& after.below.len() == machine.below.len() - 136
        },
{
    let m1 = executed(machine, Instruction::AddToSp { number: -8 });
    let m2 = executed(m1, Instruction::StoreMxcsr);
    lemma_run_one(code, 0, Instruction::AddToSp { number: -8 }, 4, machine);
    lemma_run_one(code, 4, Instruction::StoreMxcsr, 4, m1);
    lemma_save_control(machine, context, rest);
    lemma_save_next(code, 8, 2, 15, m2, machine, context, 15, rest);
    let m3 = executed(m2, Instruction::Push { register: 15 });
    lemma_save_next(code, 10, 2, 14, m3, machine, context, 14, rest);
    let m4 = executed(m3, Instruction::Push { register: 14 });
    lemma_save_next(code, 12, 2, 13, m4, machine, context, 13, rest);
    let m5 = executed(m4, Instruction::Push { register: 13 });
    lemma_save_next(code, 14, 2, 12, m5, machine, context, 12, rest);
    let m6 = executed(m5, Instruction::Push { register: 12 });
    lemma_save_next(code, 16, 2, 11, m6, machine, context, 11, rest);
    let m7 = executed(m6, Instruction::Push { register: 11 });
    lemma_save_next(code, 18, 2, 10, m7, machine, context, 10, rest);
    let m8 = executed(m7, Instruction::Push { register: 10 });
    lemma_save_next(code, 20, 2, 9, m8, machine, context, 9, rest);
    let m9 = executed(m8, Instruction::Push { register: 9 });
    lemma_save_next(code, 22, 2, 8, m9, machine, context, 8, rest);
    let m10 = executed(m9, Instruction::Push { register: 8 });
    lemma_save_next(code, 24, 1, 7, m10, machine, context, 7, rest);
    let m11 = executed(m10, Instruction::Push { register: 7 });
    lemma_save_next(code, 25, 1, 6, m11, machine, context, 6, rest);
    let m12 = executed(m11, Instruction::Push { register: 6 });
    lemma_save_next(code, 26, 1, 5, m12, machine, context, 5, rest);
    let m13 = executed(m12, Instruction::Push { register: 5 });
    lemma_save_next(code, 27, 1, 3, m13, machine, context, 4, rest);
    let m14 = executed(m13, Instruction::Push { register: 3 });
    lemma_save_next(code, 28, 1, 2, m14, machine, context, 3, rest);
    let m15 = executed(m14, Instruction::Push { register: 2 });
    lemma_save_next(code, 29, 1, 1, m15, machine, context, 2, rest);
    let m16 = executed(m15, Instruction::Push { register: 1 });
    lemma_save_next(code, 30, 1, 0, m16, machine, context, 1, rest);
    let m17 = executed(m16, Instruction::Push { register: 0 });
    let m18 = executed(m17, Instruction::PushFlags);
    lemma_run_one(code, 31, Instruction::PushFlags, 1, m17);
    lemma_run_end(code, m18);
    lemma_save_flags(m17, machine, context, rest);
}

/// The flags are saved last.
#[verifier::rlimit(40)]
proof fn lemma_save_flags(
    machine: Machine,
    origin: Machine,
    context: HookContext,
    rest: Seq<u8>,
)
    requires
        origin.wf(),
        origin.below.len() >= 136,
        saved_to(machine, origin, context, 1, rest),
    ensures
        ({
            let after = executed(machine, Instruction::PushFlags);
            &&& after.general == origin.general && after.xmm == origin.xmm
            &&& after.mxcsr == origin.mxcsr
            &&& after.sum_flags == origin.sum_flags
            &&& after.sp == origin.sp - 136
            &&& after.stack == memory_from(context, 0, rest)
            &&& after.below.len() == origin.below.len() - 136
        }),
{
    reveal(executed);
    reveal(quad);
    reveal(saved_to);
    let after = executed(machine, Instruction::PushFlags);
    assert(memory_from(context, 0, rest) == quad(context.rflags) + memory_from(context, 1, rest));
    assert(after.stack =~= quad(machine.flags) + machine.stack);
}

/// The SSE control word is saved above all other values.
#[verifier::rlimit(40)]
proof fn lemma_save_control(machine: Machine, context: HookContext, rest: Seq<u8>)
    requires
        machine.wf(),
        machine.mxcsr == context.mxcsr,
        machine.below.len() >= 136,
        machine.stack == xmm_tail(context.xmm@, 0) + rest,
        context.rflags == (machine.sum_flags)(machine.sp, -8),
        le4(context._reserved) == machine.below.subrange(
            machine.below.len() - 4,
            machine.below.len() as int,
        ),
    ensures
        saved_to(
            executed(
                executed(machine, Instruction::AddToSp { number: -8 }),
                Instruction::StoreMxcsr,
            ),
            machine,
            context,
            16,
            rest,
        ),
{
    reveal(executed);
    reveal(saved_to);
    reveal(control);
    let m1 = executed(machine, Instruction::AddToSp { number: -8 });
    let m2 = executed(m1, Instruction::StoreMxcsr);
    assert(memory_from(context, 17, rest) == machine.stack);
    assert(m2.stack =~= control(context) + machine.stack);
}

/// A machine on its way through the restoring code: the values before the `n`-th are
/// loaded, and the stack holds the block from there on.
#[verifier::opaque]
pub open spec fn restored_to(
    machine: Machine,
    origin: Machine,
    context: HookContext,
    n: int,
    rest: Seq<u8>,
) -> bool {
    &&& machine.wf()
    &&& machine.sum_flags == origin.sum_flags
    &&& machine.sp == origin.sp + 8 * n
    &&& machine.stack == memory_from(context, n, rest)
    &&& forall|i: int|
        1 <= i < n ==> machine.general[#[trigger] number_of(i)] == value_of(context, i)
}

/// The number of the register that the `n`-th value of a block belongs to.
pub open spec fn number_of(n: int) -> int {
    if n <= 4 {
        n - 1
    } else {
        n
    }
}

/// Popping the next register restores one value more.
proof fn lemma_restore_next(
    code: Seq<u8>,
    at: int,
    len: int,
    machine: Machine,
    origin: Machine,
    context: HookContext,
    n: int,
    rest: Seq<u8>,
)
    requires
        0 <= at,
        len > 0,
        at + len <= code.len(),
        1 <= n < 16,
        instruction(code, at) == Some((Instruction::Pop { register: number_of(n) }, len)),
        restored_to(machine, origin, context, n, rest),
    ensures
        run(code, at, machine) == run(
            code,
            at + len,
            executed(machine, Instruction::Pop { register: number_of(n) }),
        ),
        restored_to(
            executed(machine, Instruction::Pop { register: number_of(n) }),
            origin,
            context,
            n + 1,
            rest,
        ),
{
    reveal(restored_to);
    lemma_pop(
        machine,
        number_of(n),
        value_of(context, n),
        memory_from(context, n + 1, rest),
    );
    lemma_run_one(code, at, Instruction::Pop { register: number_of(n) }, len, machine);
}

/// What instructions that restore the registers do.
#[verifier::spinoff_prover]
#[verifier::rlimit(60)]
proof fn lemma_restoring(code: Seq<u8>, machine: Machine, context: HookContext, rest: Seq<u8>)
    requires
        code.len() == 32,
        instruction(code, 0) == Some((Instruction::PopFlags, 1int)),
        instruction(code, 1) == Some((Instruction::Pop { register: 0 }, 1int)),
        instruction(code, 2) == Some((Instruction::Pop { register: 1 }, 1int)),
        instruction(code, 3) == Some((Instruction::Pop { register: 2 }, 1int)),
        instruction(code, 4) == Some((Instruction::Pop { register: 3 }, 1int)),
        instruction(code, 5) == Some((Instruction::Pop { register: 5 }, 1int)),
        instruction(code, 6) == Some((Instruction::Pop { register: 6 }, 1int)),
        instruction(code, 7) == Some((Instruction::Pop { register: 7 }, 1int)),
        instruction(code, 8) == Some((Instruction::Pop { register: 8 }, 2int)),
        instruction(code, 10) == Some((Instruction::Pop { register: 9 }, 2int)),
        instruction(code, 12) == Some((Instruction::Pop { register: 10 }, 2int)),
        instruction(code, 14) == Some((Instruction::Pop { register: 11 }, 2int)),
        instruction(code, 16) == Some((Instruction::Pop { register: 12 }, 2int)),
        instruction(code, 18) == Some((Instruction::Pop { register: 13 }, 2int)),
        instruction(code, 20) == Some((Instruction::Pop { register: 14 }, 2int)),
        instruction(code, 22) == Some((Instruction::Pop { register: 15 }, 2int)),
        instruction(code, 24) == Some((Instruction::LoadMxcsr, 4int)),
        instruction(code, 28) == Some((Instruction::AddToSp { number: 8 }, 4int)),
        machine.wf(),
        machine.stack == memory_from(context, 0, rest),
    ensures
        run(code, 0, machine) matches Some(after) && {
            &&& has_general(after, context)
            &&& after.sum_flags == machine.sum_flags
            &&& after.sp == machine.sp + 136
            &&& after.stack == xmm_tail(context.xmm@, 0) + rest
        },
{
    let m1 = executed(machine, Instruction::PopFlags);
    lemma_run_one(code, 0, Instruction::PopFlags, 1, machine);
    assert(restored_to(m1, machine, context, 1, rest)) by {
        reveal(executed);
        reveal(restored_to);
        reveal(quad);
        assert(memory_from(context, 0, rest) == quad(context.rflags) + memory_from(
            context,
            1,
            rest,
        ));
        assert(m1.stack =~= memory_from(context, 1, rest));
    }
    lemma_restore_next(code, 1, 1, m1, machine, context, 1, rest);
    let m2 = executed(m1, Instruction::Pop { register: 0 });
    lemma_restore_next(code, 2, 1, m2, machine, context, 2, rest);
    let m3 = executed(m2, Instruction::Pop { register: 1 });
    lemma_restore_next(code, 3, 1, m3, machine, context, 3, rest);
    let m4 = executed(m3, Instruction::Pop { register: 2 });
    lemma_restore_next(code, 4, 1, m4, machine, context, 4, rest);
    let m5 = executed(m4, Instruction::Pop { register: 3 });
    lemma_restore_next(code, 5, 1, m5, machine, context, 5, rest);
    let m6 = executed(m5, Instruction::Pop { register: 5 });
    lemma_restore_next(code, 6, 1, m6, machine, context, 6, rest);
    let m7 = executed(m6, Instruction::Pop { register: 6 });
    lemma_restore_next(code, 7, 1, m7, machine, context, 7, rest);
    let m8 = executed(m7, Instruction::Pop { register: 7 });
    lemma_restore_next(code, 8, 2, m8, machine, context, 8, rest);
    let m9 = executed(m8, Instruction::Pop { register: 8 });
    lemma_restore_next(code, 10, 2, m9, machine, context, 9, rest);
    let m10 = executed(m9, Instruction::Pop { register: 9 });
    lemma_restore_next(code, 12, 2, m10, machine, context, 10, rest);
    let m11 = executed(m10, Instruction::Pop { register: 10 });
    lemma_restore_next(code, 14, 2, m11, machine, context, 11, rest);
    let m12 = executed(m11, Instruction::Pop { register: 11 });
    lemma_restore_next(code, 16, 2, m12, machine, context, 12, rest);
    let m13 = executed(m12, Instruction::Pop { register: 12 });
    lemma_restore_next(code, 18, 2, m13, machine, context, 13, rest);
    let m14 = executed(m13, Instruction::Pop { register: 13 });
    lemma_restore_next(code, 20, 2, m14, machine, context, 14, rest);
    let m15 = executed(m14, Instruction::Pop { register: 14 });
    lemma_restore_next(code, 22, 2, m15, machine, context, 15, rest);
    let m16 = executed(m15, Instruction::Pop { register: 15 });
    let m17 = executed(m16, Instruction::LoadMxcsr);
    let m18 = executed(m17, Instruction::AddToSp { number: 8 });
    lemma_run_one(code, 24, Instruction::LoadMxcsr, 4, m16);
    lemma_run_one(code, 28, Instruction::AddToSp { number: 8 }, 4, m17);
    lemma_run_end(code, m18);
    lemma_restore_control(m16, machine, context, rest);
    lemma_restored_registers(m16, machine, context, rest);
}

/// The SSE control word is restored behind all other values.
#[verifier::rlimit(40)]
proof fn lemma_restore_control(
    machine: Machine,
    origin: Machine,
    context: HookContext,
    rest: Seq<u8>,
)
    requires
        restored_to(machine, origin, context, 16, rest),
    ensures
        ({
            let after = executed(
                executed(machine, Instruction::LoadMxcsr),
                Instruction::AddToSp { number: 8 },
            );
            &&& after.general == machine.general && after.xmm == machine.xmm
            &&& after.mxcsr == context.mxcsr
            &&& after.sum_flags == origin.sum_flags
            &&& after.sp == origin.sp + 136
            &&& after.stack == xmm_tail(context.xmm@, 0) + rest
        }),
{
    reveal(executed);
    reveal(restored_to);
    reveal(control);
    let after = executed(
        executed(machine, Instruction::LoadMxcsr),
        Instruction::AddToSp { number: 8 },
    );
    assert(memory_from(context, 17, rest) == xmm_tail(context.xmm@, 0) + rest);
    assert(machine.stack.subrange(0, 4) =~= le4(context.mxcsr));
    lemma_u32_round_trip(machine.stack, 0, context.mxcsr);
    assert(after.stack =~= memory_from(context, 17, rest));
}

/// All registers are loaded when all values are.
proof fn lemma_restored_registers(
    machine: Machine,
    origin: Machine,
    context: HookContext,
    rest: Seq<u8>,
)
    requires
        restored_to(machine, origin, context, 16, rest),
    ensures
        machine.wf(),
        machine.general[0] == context.rax,
        machine.general[1] == context.rcx,
        machine.general[2] == context.rdx,
        machine.general[3] == context.rbx,
        machine.general[5] == context.rbp,
        machine.general[6] == context.rsi,
        machine.general[7] == context.rdi,
        machine.general[8] == context.r8,
        machine.general[9] == context.r9,
        machine.general[10] == context.r10,
        machine.general[11] == context.r11,
        machine.general[12] == context.r12,
        machine.general[13] == context.r13,
        machine.general[14] == context.r14,
        machine.general[15] == context.r15,
{
    reveal(restored_to);
    assert(machine.general[number_of(1)] == value_of(context, 1));
    assert(machine.general[number_of(2)] == value_of(context, 2));
    assert(machine.general[number_of(3)] == value_of(context, 3));
    assert(machine.general[number_of(4)] == value_of(context, 4));
    assert(machine.general[number_of(5)] == value_of(context, 5));
    assert(machine.general[number_of(6)] == value_of(context, 6));
    assert(machine.general[number_of(7)] == value_of(context, 7));
    assert(machine.general[number_of(8)] == value_of(context, 8));
    assert(machine.general[number_of(9)] == value_of(context, 9));
    assert(machine.general[number_of(10)] == value_of(context, 10));
    assert(machine.general[number_of(11)] == value_of(context, 11));
    assert(machine.general[number_of(12)] == value_of(context, 12));
    assert(machine.general[number_of(13)] == value_of(context, 13));
    assert(machine.general[number_of(14)] == value_of(context, 14));
    assert(machine.general[number_of(15)] == value_of(context, 15));
}

/// What the code in front of the call does: the two registers point to the block, the
/// stack pointer is aligned below it with room for the callee, and the handler's address is
/// loaded.
#[verifier::rlimit(40)]
proof fn lemma_call_prepared(handler: u64, machine: Machine)
    requires
        machine.wf(),
        machine.below.len() >= 48,
        0 <= machine.sp <= u64::MAX,
    ensures
        run(call_handler(handler).subrange(0, 24), 0, machine) matches Some(after) && {
            &&& after.wf()
            &&& after.general[0] == handler
            &&& after.general[1] == machine.sp
            &&& after.general[5] == machine.sp
            &&& after.sp % 16 == 0
            &&& machine.sp - 48 < after.sp <= machine.sp - 32
            &&& after.stack.len() == machine.stack.len() + (machine.sp - after.sp)
            &&& after.stack.subrange(machine.sp - after.sp, after.stack.len() as int)
                == machine.stack
        },
{
    let code = call_handler(handler).subrange(0, 24);
    let m1 = executed(machine, Instruction::CopySp { register: 1 });
    let m2 = executed(m1, Instruction::CopySp { register: 5 });
    let m3 = executed(m2, Instruction::AlignSp);
    let m4 = executed(m3, Instruction::AddToSp { number: -32 });
    let m5 = executed(m4, Instruction::Load { register: 0, value: handler });
    assert(code.len() == 24);
    assert({
        &&& instruction(code, 0) == Some((Instruction::CopySp { register: 1 }, 3int))
        &&& instruction(code, 3) == Some((Instruction::CopySp { register: 5 }, 3int))
        &&& instruction(code, 6) == Some((Instruction::AlignSp, 4int))
        &&& instruction(code, 10) == Some((Instruction::AddToSp { number: -32 }, 4int))
        &&& instruction(code, 14) == Some(
            (Instruction::Load { register: 0, value: handler }, 10int),
        )
    }) by {
        reveal(instruction);
        assert(code.subrange(16, 24) =~= le8(handler));
        lemma_u64_round_trip(code, 16, handler);
    }
    lemma_run_one(code, 0, Instruction::CopySp { register: 1 }, 3, machine);
    lemma_run_one(code, 3, Instruction::CopySp { register: 5 }, 3, m1);
    lemma_run_one(code, 6, Instruction::AlignSp, 4, m2);
    lemma_run_one(code, 10, Instruction::AddToSp { number: -32 }, 4, m3);
    lemma_run_one(code, 14, Instruction::Load { register: 0, value: handler }, 10, m4);
    lemma_run_end(code, m5);
    reveal(executed);
    assert(m5.stack.subrange(machine.sp - m5.sp, m5.stack.len() as int) =~= machine.stack);
}

/// The handler is called with the address of the block of the live registers: the code in
/// front of the call leaves on the stack the block of a context that holds every register
/// as it was at the hook site, above what was on the stack, and hands its address over in
/// the register of the first argument and in one that the handler preserves. The stack
/// pointer at the call is a multiple of 16 with 32 bytes of room above it.
///
/// The flags of the block are those that the subtraction in front of their saving leaves,
/// and the padding of the block is what was in memory.
#[verifier::spinoff_prover]
#[verifier::rlimit(40)]
pub proof fn lemma_handler_gets_the_live_registers(
    handler: u64,
    gateway: u64,
    machine: Machine,
    context: HookContext,
)
    requires
        has_registers(machine, context),
        machine.below.len() >= 440,
        machine.below.len() <= machine.sp <= u64::MAX,
        context.rflags == (machine.sum_flags)(machine.sp - 256, -8),
        le4(context._reserved) == machine.below.subrange(
            machine.below.len() - 260,
            machine.below.len() - 256,
        ),
    ensures
        stub_code(handler, gateway).len() == 379,
        run(stub_code(handler, gateway).subrange(0, 192), 0, machine) matches Some(after) && {
            let block = machine.sp - 392;
            &&& after.general[1] == block
            &&& after.general[5] == block
            &&& after.general[0] == handler
            &&& after.sp % 16 == 0
            &&& after.sp + 32 <= block
            &&& after.stack.subrange(block - after.sp, after.stack.len() as int)
                == context.block() + machine.stack
        },
        stub_code(handler, gateway).subrange(192, 194) == seq![0xFFu8, 0xD0],
{
    let stub = stub_code(handler, gateway);
    let first = save_from(0);
    let second = save_general();
    let third = call_handler(handler).subrange(0, 24);
    lemma_stub_layout(handler, gateway);
    lemma_save_len(0);
    assert(stub.subrange(0, 192) =~= (first + second) + third);
    assert(stub.subrange(192, 194) =~= seq![0xFFu8, 0xD0]);
    lemma_save_xmm_registers(0, machine);
    let m1 = run(first, 0, machine)->0;
    lemma_run_both(first, second, machine);
    assert(m1.below.subrange(m1.below.len() - 4, m1.below.len() as int)
        =~= machine.below.subrange(machine.below.len() - 260, machine.below.len() - 256));
    lemma_save_general_code();
    lemma_saving(second, m1, context, machine.stack);
    let m2 = run(second, 0, m1)->0;
    lemma_block_order(context, machine.stack);
    lemma_run_both(first + second, third, machine);
    lemma_call_prepared(handler, m2);
}

/// After the call, the function goes on with the registers of the block, whatever the
/// handler has left in it: the code behind the call takes every register from the block
/// and leaves the stack as it was at the hook site.
///
/// The flags are loaded from the block too, and changed by the additions that follow.
#[verifier::spinoff_prover]
#[verifier::rlimit(40)]
pub proof fn lemma_block_gives_the_registers(
    handler: u64,
    gateway: u64,
    machine: Machine,
    context: HookContext,
    rest: Seq<u8>,
)
    requires
        machine.wf(),
        machine.sp <= machine.general[5],
        machine.general[5] - machine.sp <= machine.stack.len(),
        machine.stack.subrange(machine.general[5] - machine.sp, machine.stack.len() as int)
            == context.block() + rest,
    ensures
        run(stub_code(handler, gateway).subrange(194, 365), 0, machine) matches Some(after) && {
            &&& has_registers(after, context)
            &&& after.sp == machine.general[5] + 392
            &&& after.stack == rest
        },
{
    let stub = stub_code(handler, gateway);
    let first = call_handler(handler).subrange(26, 29);
    let second = restore_general();
    let third = restore_upto(16);
    lemma_stub_layout(handler, gateway);
    lemma_save_len(0);
    lemma_restore_len(16);
    assert(stub.subrange(194, 365) =~= (first + second) + third);
    let m1 = executed(machine, Instruction::SetSp { register: 5 });
    assert(run(first, 0, machine) == Some(m1)) by {
        assert(first.len() == 3);
        assert(instruction(first, 0) == Some((Instruction::SetSp { register: 5 }, 3int))) by {
            reveal(instruction);
        }
        lemma_run_one(first, 0, Instruction::SetSp { register: 5 }, 3, machine);
        lemma_run_end(first, m1);
    }
    assert(m1.general == machine.general && m1.xmm == machine.xmm && m1.sp == machine.general[5]
        && m1.stack == context.block() + rest) by {
        reveal(executed);
        if machine.sp == machine.general[5] {
            let low = machine.below.len() as int;
            assert(machine.below.subrange(low, low) + machine.stack =~= machine.stack);
            assert(machine.stack.subrange(0, machine.stack.len() as int) =~= machine.stack);
        }
    }
    lemma_run_both(first, second, machine);
    lemma_block_order(context, rest);
    lemma_restore_general_code();
    lemma_restoring(second, m1, context, rest);
    let m2 = run(second, 0, m1)->0;
    lemma_run_both(first + second, third, machine);
    lemma_restore_xmm_registers(16, m2, context.xmm@, rest);
    let m3 = run(third, 0, m2)->0;
    assert(m3.xmm =~= context.xmm@);
    assert(m3.stack =~= rest);
}

/// What the handler does not change comes back: where it returns with the block as it got
/// it, the function goes on with every register as it was at the hook site.
#[verifier::spinoff_prover]
#[verifier::rlimit(40)]
pub proof fn lemma_untouched_block_changes_nothing(
    handler: u64,
    gateway: u64,
    machine: Machine,
    context: HookContext,
    returned: Machine,
)
    requires
        has_registers(machine, context),
        returned.wf(),
        returned.general[5] == machine.sp - 392,
        returned.sp <= machine.sp - 392,
        machine.sp - 392 - returned.sp <= returned.stack.len(),
        returned.stack.subrange(machine.sp - 392 - returned.sp, returned.stack.len() as int)
            == context.block() + machine.stack,
    ensures
        run(stub_code(handler, gateway).subrange(194, 365), 0, returned) matches Some(after) && {
            &&& after.general.update(4, 0) == machine.general.update(4, 0)
            &&& after.xmm == machine.xmm
            &&& after.mxcsr == machine.mxcsr
            &&& after.sp == machine.sp
            &&& after.stack == machine.stack
        },
{
    lemma_block_gives_the_registers(handler, gateway, returned, context, machine.stack);
    let after = run(stub_code(handler, gateway).subrange(194, 365), 0, returned)->0;
    assert(after.general.update(4, 0) =~= machine.general.update(4, 0));
}

/// The stub ends in a jump through the pointer that follows it, which is the gateway.
pub proof fn lemma_stub_resumes_at_the_gateway(handler: u64, gateway: u64)
    ensures
        stub_code(handler, gateway).len() == 379,
        stub_code(handler, gateway).subrange(365, 371) == seq![0xFFu8, 0x25, 0, 0, 0, 0],
        u64_at(stub_code(handler, gateway), 371) == gateway,
{
    let stub = stub_code(handler, gateway);
    lemma_stub_layout(handler, gateway);
    lemma_save_len(0);
    lemma_restore_len(16);
    assert(stub.subrange(365, 371) =~= seq![0xFFu8, 0x25, 0, 0, 0, 0]);
}

} // verus!
