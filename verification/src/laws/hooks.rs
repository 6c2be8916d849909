//! Laws of installed hooks, of the regions that are watched, and of the code that is
//! decoded, moved or swept.
use vstd::prelude::*;

use crate::arch::Arch;
use crate::cfg::{enforced, remembered, Enforcement};
use crate::code::follow;
use crate::disasm::{
    covered_from, decoded, encoded_block, encoded_relocation, instruction_len, instructions_from,
    relocated, window, DecodedInstruction, FirstOperand, NearJump, NearJumpEncoding,
};
use crate::eat::reachable_rva;
use crate::export_sweep::{outcome_of, recorded, swept_stats, StatsView, SweepView};
use crate::gateway::gateway_code;
use crate::hook::{hook_edit, removable, retired, switched};
use crate::introspect::ExportView;
use crate::inline::gateway_target;
use crate::laws::inline::{bits, limit};
use crate::laws::jumps::{as_signed, eight, four};
use crate::laws::memory::{
    lemma_u32_value, lemma_u64_value, lemma_window_gives_captured_bytes, reports,
};
use crate::memory::MemoryRegion;
use crate::module::image_size;
use crate::pe::parsed;
use crate::resolve::{branch_target, instruction_at, relative_operand};
use crate::transaction::Hook;
use crate::watchdog::{
    guarded_after, without, GuardId, GuardedRegion, Sweep, Watchdog, WatchdogError,
};

verus! {

/// Enabling or disabling a hook changes nothing but its state: it stays at its place, with
/// what it writes and what it writes back.
pub proof fn lemma_switching_changes_only_the_state(arch: Arch, hook: Hook, enable: bool)
    ensures
        switched(hook, enable).spec_enabled() == enable,
        hook_edit(arch, switched(hook, enable)) == hook_edit(arch, hook),
        switched(hook, enable).spec_original_ptr() == hook.spec_original_ptr(),
        switched(switched(hook, enable), hook.spec_enabled()) == hook,
{
}

/// A hook is removed where it stands; only the slot of an import is looked up again.
pub proof fn lemma_hook_is_removed_where_it_stands(arch: Arch, mapped: Seq<u8>, hook: Hook)
    ensures
        !(hook is Iat) && removable(arch, mapped, hook) is Ok ==> removable(
            arch,
            mapped,
            hook,
        )->Ok_0 == hook_edit(arch, hook).address,
        hook is VtableInstance ==> removable(arch, mapped, retired(hook)) is Err,
        retired(hook).spec_original_ptr() == hook.spec_original_ptr(),
        !(hook is VtableInstance) ==> hook_edit(arch, retired(hook)) == hook_edit(arch, hook),
{
}

/// An export can point straight to a detour exactly where some 32-bit offset from the
/// image leads there, and then by that offset.
pub proof fn lemma_offset_is_found_where_there_is_one(arch: Arch, base: u64, address: u64, rva: u32)
    requires
        base < limit(arch),
        address < limit(arch),
    ensures
        arch == Arch::X64 && base + rva == address ==> reachable_rva(arch, base, address) == Some(
            rva,
        ),
        arch == Arch::X86 && (base + rva) % 0x1_0000_0000 == address ==> reachable_rva(
            arch,
            base,
            address,
        ) == Some(rva),
        reachable_rva(arch, base, address) matches Some(found) ==> (base + found) % limit(arch)
            == address,
{
}

/// The size of a module is that of its image.
pub proof fn lemma_module_size_is_that_of_the_image(arch: Arch, mapped: Seq<u8>, base: u64)
    ensures
        base == 0 ==> image_size(mapped, base) == 0,
        parsed(arch, mapped, base) matches Ok(image) ==> image_size(mapped, base) == image.size,
{
}

/// Indirect calls count as checked where the process asks for it, unless that was decided
/// or found out before.
pub proof fn lemma_checked_calls_follow_the_policy(
    enforcement: Enforcement,
    policy: Option<u32>,
    later: Option<u32>,
)
    ensures
        enforcement.forced is None && enforcement.detected is None ==> enforced(
            enforcement,
            policy,
        ) == (policy is Some && policy->0 & 1 != 0),
        enforcement.forced matches Some(state) ==> enforced(enforcement, policy) == state,
        enforced(remembered(enforcement, policy), later) == enforced(enforcement, policy),
{
}

/// Giving up a guard takes away the regions with its number and keeps all others in their
/// order.
pub proof fn lemma_unguarding_takes_only_its_region(
    before: Seq<GuardedRegion>,
    region: GuardedRegion,
    behind: Seq<GuardedRegion>,
    id: u64,
)
    ensures
        without(
            before + seq![region] + behind,
            id,
            (before.len() + 1 + behind.len()) as int,
        ) == without(before, id, before.len() as int) + (if region.id == id {
            Seq::<GuardedRegion>::empty()
        } else {
            seq![region]
        }) + without(behind, id, behind.len() as int),
{
    let front = before + seq![region];
    let all = front + behind;
    lemma_without_front(front, behind, id, front.len() as int);
    lemma_without_front(before, seq![region], id, before.len() as int);
    assert(front[before.len() as int] == region);
    let kept = without(before, id, before.len() as int) + (if region.id == id {
        Seq::<GuardedRegion>::empty()
    } else {
        seq![region]
    });
    assert(without(front, id, front.len() as int) =~= kept);
    lemma_without_behind(front, behind, id, behind.len() as int);
}

/// What follows regions does not change what is kept of them.
proof fn lemma_without_front(
    front: Seq<GuardedRegion>,
    behind: Seq<GuardedRegion>,
    id: u64,
    upto: int,
)
    requires
        0 <= upto <= front.len(),
    ensures
        without(front + behind, id, upto) == without(front, id, upto),
    decreases upto,
{
    if upto > 0 {
        lemma_without_front(front, behind, id, upto - 1);
    }
}

/// What is kept of the regions behind follows what is kept of those in front.
proof fn lemma_without_behind(
    front: Seq<GuardedRegion>,
    behind: Seq<GuardedRegion>,
    id: u64,
    upto: int,
)
    requires
        0 <= upto <= behind.len(),
    ensures
        without(front + behind, id, front.len() + upto) == without(front, id, front.len() as int)
            + without(behind, id, upto),
    decreases upto,
{
    let left = without(front, id, front.len() as int);
    if upto > 0 {
        lemma_without_behind(front, behind, id, upto - 1);
        assert((front + behind)[front.len() + upto - 1] == behind[upto - 1]);
        assert(without(front + behind, id, front.len() + upto) =~= left + without(
            behind,
            id,
            upto,
        ));
    } else {
        lemma_without_front(front, behind, id, front.len() as int);
        assert(left + without(behind, id, 0) =~= left);
    }
}

/// A sweep looks at the regions one after the other: it marks the one it looked at, leaves
/// all others, and reports exactly a change that was not there at the sweep before, with
/// what was found and what should have been there.
pub proof fn lemma_sweep_reports_new_changes(
    before: Sweep,
    after: Sweep,
    was: Watchdog,
    is: Watchdog,
    found: Seq<u8>,
    restored: bool,
)
    requires
        after.advanced(before, was, is, found, restored),
        before.next < was.regions@.len(),
    ensures
        ({
            let region = was.regions@[before.next as int];
            let intact = found == region.expected@;
            &&& after.next == before.next + 1
            &&& is.regions@.len() == was.regions@.len()
            &&& is.regions@[before.next as int].tampered == !intact
            &&& is.regions@[before.next as int].target == region.target
            &&& is.regions@[before.next as int].expected@ == region.expected@
            &&& is.regions@[before.next as int].id == region.id
            &&& forall|i: int|
                0 <= i < was.regions@.len() && i != before.next ==> #[trigger] is.regions@[i]
                    == was.regions@[i]
            &&& intact || region.tampered ==> after.hits@ == before.hits@
            &&& !intact && !region.tampered ==> {
                &&& after.hits@.len() == before.hits@.len() + 1
                &&& forall|i: int|
                    0 <= i < before.hits@.len() ==> #[trigger] after.hits@[i] == before.hits@[i]
                &&& after.hits@.last().target == region.target
                &&& after.hits@.last().found@ == found
                &&& after.hits@.last().expected@ == region.expected@
                &&& after.hits@.last().restored == restored
            }
        }),
{
    let region = was.regions@[before.next as int];
    if found != region.expected@ && !region.tampered {
        assert forall|i: int| 0 <= i < before.hits@.len() implies #[trigger] after.hits@[i]
            == before.hits@[i] by {
            assert(after.hits@.drop_last()[i] == after.hits@[i]);
        }
    }
}

/// A guard is numbered with a number that no other has, and watches what it was asked to.
pub proof fn lemma_guard_watches_its_region(
    before: Watchdog,
    after: Watchdog,
    target: u64,
    expected: Seq<u8>,
    guard: Result<GuardId, WatchdogError>,
)
    requires
        before.wf(),
        guarded_after(before, after, target, expected, guard),
    ensures
        target == 0 || expected.len() == 0 ==> guard is Err && after == before,
        target != 0 && expected.len() > 0 ==> {
            &&& guard is Ok
            &&& after.regions@.len() == before.regions@.len() + 1
            &&& forall|i: int|
                0 <= i < before.regions@.len() ==> #[trigger] after.regions@[i]
                    == before.regions@[i] && before.regions@[i].id != guard->Ok_0.id
            &&& after.regions@.last().id == guard->Ok_0.id
            &&& after.regions@.last().target == target
            &&& after.regions@.last().expected@ == expected
            &&& !after.regions@.last().tampered
        },
{
    if target != 0 && expected.len() > 0 {
        assert forall|i: int| 0 <= i < before.regions@.len() implies #[trigger] after.regions@[i]
            == before.regions@[i] && before.regions@[i].id != guard->Ok_0.id by {
            assert(after.regions@.drop_last()[i] == after.regions@[i]);
        }
    }
}

/// The target of an instruction is that of its near branch, whatever its width; an
/// instruction without one has none. The address that an operand refers to is that of an
/// operand relative to the instruction pointer.
pub proof fn lemma_instruction_refers_to_its_operand(instruction: DecodedInstruction)
    ensures
        branch_target(instruction) is None <==> instruction.first_operand == FirstOperand::Other,
        branch_target(instruction) matches Some(target) ==> target
            == instruction.near_branch_target,
        relative_operand(instruction) is Some <==> instruction.ip_relative,
        relative_operand(instruction) matches Some(address) ==> address
            == instruction.memory_displacement,
{
}

/// The target of a gateway's stub is the one that its bytes hold.
pub proof fn lemma_gateway_leads_where_its_bytes_say(arch: Arch, at: u64, code: Seq<u8>)
    requires
        at < limit(arch),
        code.len() >= 14,
    ensures
        arch == Arch::X64 ==> gateway_target(arch, at, code) == if code[0] == 0xFF && code[1]
            == 0x25 && code[2] == 0 && code[3] == 0 && code[4] == 0 && code[5] == 0 {
            Some(eight(code, 6) as u64)
        } else {
            None
        },
        arch == Arch::X86 ==> gateway_target(arch, at, code) == if code[0] == 0xE9 {
            Some(((at + 5 + as_signed(four(code, 1), 0x1_0000_0000)) % 0x1_0000_0000) as u64)
        } else {
            None
        },
{
    lemma_u32_value(code, 1);
    lemma_u64_value(code, 6);
}

/// The instruction at an address is what the decoder makes of the bytes there, of at most
/// fifteen of them; there is none at null, where nothing was captured, and where the
/// decoder finds none.
pub proof fn lemma_instruction_is_decoded_from_its_bytes(
    arch: Arch,
    regions: Seq<MemoryRegion>,
    index: int,
    address: u64,
)
    requires
        reports(regions, index, address as int),
        regions[index].base + regions[index].size < limit(arch),
    ensures
        ({
            let code = window(arch, regions, address as int, 15);
            let first = decoded(bits(arch), code, address);
            &&& code.len() <= 15
            &&& forall|i: int|
                0 <= i < code.len() ==> #[trigger] code[i] == regions[index].bytes@[address + i
                    - regions[index].base]
            &&& instruction_at(arch, regions, address) == if address == 0 || code.len() == 0
                || first.invalid {
                None
            } else {
                Some(first)
            }
        }),
{
    lemma_window_gives_captured_bytes(arch, regions, index, address as int, 15);
    crate::laws::memory::lemma_query_reports(regions, address as int);
}

/// The way to the original of a breakpoint runs the code at the target that its first
/// byte belongs to, and goes on behind it: it is what the encoder makes of that one
/// instruction with a jump to the code behind it.
pub proof fn lemma_gateway_runs_the_first_instruction(
    arch: Arch,
    regions: Seq<MemoryRegion>,
    index: int,
    target: u64,
    gateway: u64,
    moved: Seq<u8>,
)
    requires
        gateway_code(arch, regions, target, gateway) == Some(moved),
        reports(regions, index, target as int),
        regions[index].base + regions[index].size < limit(arch),
    ensures
        ({
            let first = decoded(bits(arch), window(arch, regions, target as int, 16), target);
            let code = window(arch, regions, target as int, first.len as int);
            &&& !first.invalid
            &&& forall|i: int|
                0 <= i < code.len() ==> #[trigger] code[i] == regions[index].bytes@[target + i
                    - regions[index].base]
            &&& encoded_block(
                bits(arch),
                code,
                target,
                seq![
                    NearJump {
                        encoding: if arch == Arch::X86 {
                            NearJumpEncoding::Rel32In32
                        } else {
                            NearJumpEncoding::Rel32In64
                        },
                        target: (target + code.len()) as u64,
                    },
                ],
                gateway,
            ) matches Ok((encoded, _)) && encoded == moved
        }),
{
    let ahead = window(arch, regions, target as int, 16);
    let list = instructions_from(arch, ahead, target, 0);
    crate::laws::memory::lemma_query_reports(regions, target as int);
    assert(ahead.subrange(0, ahead.len() as int) =~= ahead);
    assert(covered_from(list, 0, 0, 1) is Ok);
    let first = list[0];
    assert(first == decoded(arch.spec_bitness(), ahead, target));
    if first.len == 0 {
        assert(list =~= seq![first]);
        assert(covered_from(list, 1, 0, 1) is Err);
    }
    assert(instruction_len(arch, regions, target, 1)->Ok_0 == first.len);
    lemma_window_gives_captured_bytes(arch, regions, index, target as int, first.len as int);
    let code = window(arch, regions, target as int, first.len as int);
    assert(relocated(
        instructions_from(arch, code, target, 0),
        encoded_relocation(arch, code, target, gateway),
    ) is Some);
    assert(encoded_relocation(arch, code, target, gateway) is Ok);
}

/// An export is swept at the code that it leads to: it is passed over where it is a
/// forwarder or has no address, and where the memory of the code cannot be executed; else
/// its first instructions, as many as a short jump needs, are moved.
pub proof fn lemma_export_is_swept_at_its_code(
    arch: Arch,
    regions: Seq<MemoryRegion>,
    export: ExportView,
    trampoline: u64,
    index: int,
)
    requires
        reports(regions, index, follow(arch, regions, export.address, Seq::empty()) as int),
    ensures
        ({
            let code = follow(arch, regions, export.address, Seq::empty());
            let region = regions[index];
            let outcome = outcome_of(arch, regions, export, trampoline);
            if export.forwarder is Some || export.address == 0 {
                outcome == SweepView::Ignored
            } else if region.state != 0x1000 || region.protect & 0xf0 == 0 {
                outcome == SweepView::NotCode
            } else {
                match instruction_len(arch, regions, code, 5) {
                    Err(_) => outcome == SweepView::Undecodable,
                    Ok(len) => match outcome {
                        SweepView::Ignored | SweepView::NotCode | SweepView::Undecodable => false,
                        SweepView::Relocated { written } => 0 < written <= 4096,
                        SweepView::Overrun { written, stolen, code: at } => {
                            &&& written == 0 || written > 4096
                            &&& stolen == window(arch, regions, code as int, len).len()
                            &&& at == code
                        },
                        SweepView::Failed { reason: _, stolen, bytes } => {
                            let all = window(arch, regions, code as int, len);
                            &&& stolen == all.len()
                            &&& bytes.len() == (if all.len() < 16 {
                                all.len() as int
                            } else {
                                16
                            })
                            &&& forall|i: int|
                                0 <= i < bytes.len() ==> #[trigger] bytes[i] == all[i]
                        },
                    },
                }
            }
        }),
{
    crate::laws::memory::lemma_query_reports(
        regions,
        follow(arch, regions, export.address, Seq::empty()) as int,
    );
}

/// A moved prologue counts as too long for a trampoline exactly where more than 112 bytes
/// were written.
pub proof fn lemma_long_prologues_are_counted(stats: StatsView, label: Seq<char>, written: int)
    ensures
        ({
            let after = recorded(stats, label, SweepView::Relocated { written });
            &&& after.relocated == stats.relocated + 1
            &&& after.swept == stats.swept + 1
            &&& after.exceeds_real_budget - stats.exceeds_real_budget == (if written > 112 {
                1int
            } else {
                0
            })
            &&& after.crashes == stats.crashes && after.refused == stats.refused
        }),
{
}

/// How many exports a sweep passes over: forwarders and those without an address.
pub open spec fn passed_over(exports: Seq<ExportView>, upto: int) -> int
    decreases upto,
{
    if upto <= 0 {
        0
    } else {
        passed_over(exports, upto - 1) + if exports[upto - 1].forwarder is Some
            || exports[upto - 1].address == 0 {
            1int
        } else {
            0int
        }
    }
}

/// How many exports a count has taken in.
pub open spec fn taken_in(stats: StatsView) -> int {
    stats.swept + stats.skipped_not_code + stats.skipped_undecodable
}

/// A sweep takes in every export once, but for forwarders and exports without an address,
/// and keeps the first twenty refusals.
pub proof fn lemma_sweep_takes_in_every_export(
    arch: Arch,
    regions: Seq<MemoryRegion>,
    module: Seq<char>,
    exports: Seq<ExportView>,
    trampoline: u64,
    stats: StatsView,
    upto: int,
)
    requires
        0 <= upto <= exports.len(),
        stats.refused >= 0,
        stats.refusal_samples.len() == if stats.refused < 20 {
            stats.refused
        } else {
            20
        },
    ensures
        ({
            let after = swept_stats(arch, regions, module, exports, trampoline, stats, upto);
            &&& taken_in(after) == taken_in(stats) + upto - passed_over(exports, upto)
            &&& after.refused >= stats.refused
            &&& after.refusal_samples.len() == if after.refused < 20 {
                after.refused
            } else {
                20
            }
        }),
    decreases upto,
{
    if upto > 0 {
        lemma_sweep_takes_in_every_export(
            arch,
            regions,
            module,
            exports,
            trampoline,
            stats,
            upto - 1,
        );
    }
}

} // verus!
