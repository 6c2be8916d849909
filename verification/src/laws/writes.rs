//! Laws of what is written into a process and of where: the values of hooked slots, the
//! steps of a slot's write, the memory for trampolines and the debug registers.
use vstd::prelude::*;

use crate::arch::Arch;
use crate::bytes::{le4, le8};
use crate::hook::{hook_edit, value_bytes};
use crate::laws::inline::limit;
use crate::laws::memory::{lemma_le4_digits, lemma_le8_digits};
use crate::laws::threads::pointer_len;
use crate::mem::{
    adjusted_protect, OsError, RestorePolicy, SlotWrite, WriteEvent, WriteStage, WriteStep,
};
use crate::nearby::{candidate_in, lemma_aligned, NearbySearch, QueriedRegion};
use crate::slots::{first_free, slot_for, SlotError};
use crate::transaction::Hook;
use crate::veh::control_register;
use crate::vtable::slot_address;

verus! {

/// The number that bytes in memory stand for, the lowest byte first.
pub open spec fn number(bytes: Seq<u8>) -> int
    decreases bytes.len(),
{
    if bytes.len() == 0 {
        0
    } else {
        bytes[0] + 0x100 * number(bytes.drop_first())
    }
}

/// The number of four bytes.
proof fn lemma_number_of_four(bytes: Seq<u8>)
    requires
        bytes.len() == 4,
    ensures
        number(bytes) == bytes[0] + 0x100 * bytes[1] + 0x1_0000 * bytes[2] + 0x100_0000 * bytes[3],
{
    reveal_with_fuel(number, 5);
}

/// The number of eight bytes.
proof fn lemma_number_of_eight(bytes: Seq<u8>)
    requires
        bytes.len() == 8,
    ensures
        number(bytes) == bytes[0] + 0x100 * bytes[1] + 0x1_0000 * bytes[2] + 0x100_0000 * bytes[3]
            + 0x1_0000_0000 * (bytes[4] + 0x100 * bytes[5] + 0x1_0000 * bytes[6] + 0x100_0000
            * bytes[7]),
{
    reveal_with_fuel(number, 9);
}

/// The bytes that are written of a value stand for it, as far as they can hold it.
pub proof fn lemma_written_value(value: u64, len: int)
    requires
        len == 4 || len == 8,
    ensures
        value_bytes(value, len).len() == len,
        len == 8 ==> number(value_bytes(value, len)) == value,
        len == 4 ==> number(value_bytes(value, len)) == value % 0x1_0000_0000,
{
    if len == 8 {
        lemma_le8_digits(value);
        lemma_number_of_eight(le8(value));
    } else {
        let low = (value & 0xffff_ffff) as u32;
        assert(value & 0xffff_ffff == value % 0x1_0000_0000) by (bit_vector);
        lemma_le4_digits(low);
        lemma_number_of_four(le4(low));
        assert(low == low % 0x100 + 0x100 * (low / 0x100 % 0x100) + 0x1_0000 * (low / 0x1_0000
            % 0x100) + 0x100_0000 * (low / 0x100_0000)) by (nonlinear_arith);
    }
}

/// An enabled hook leaves its detour in its slot and a disabled one the original value:
/// the bytes that are written, and those that are written back, stand for them.
pub proof fn lemma_slot_holds_detour_or_original(arch: Arch, hook: Hook)
    ensures
        match hook {
            Hook::Inline(inline) => {
                &&& hook_edit(arch, hook).address == inline.target
                &&& hook_edit(arch, hook).new == inline.patch@
                &&& hook_edit(arch, hook).old == inline.orig_bytes@
            },
            Hook::Iat(import) => {
                &&& hook_edit(arch, hook).address == import.slot
                &&& hook_edit(arch, hook).new.len() == pointer_len(arch)
                &&& number(hook_edit(arch, hook).new) == import.detour as int % limit(arch)
                &&& number(hook_edit(arch, hook).old) == import.original_ptr as int % limit(arch)
            },
            Hook::Eat(export) => {
                &&& hook_edit(arch, hook).address == export.slot_ptr
                &&& hook_edit(arch, hook).new.len() == 4
                &&& number(hook_edit(arch, hook).new) == export.detour_rva
                &&& number(hook_edit(arch, hook).old) == export.original_rva
            },
            Hook::Vtable(table) => {
                &&& hook_edit(arch, hook).address == table.slot
                &&& hook_edit(arch, hook).new.len() == pointer_len(arch)
                &&& number(hook_edit(arch, hook).new) == table.detour as int % limit(arch)
                &&& number(hook_edit(arch, hook).old) == table.original_ptr as int % limit(arch)
            },
            Hook::VtableInstance(instance) => {
                &&& hook_edit(arch, hook).address == instance.object_vptr
                &&& hook_edit(arch, hook).new.len() == pointer_len(arch)
                &&& number(hook_edit(arch, hook).new) == instance.cloned_vtable as int % limit(arch)
                &&& number(hook_edit(arch, hook).old) == instance.original_vtable as int % limit(
                    arch,
                )
            },
        },
{
    let len = pointer_len(arch);
    match hook {
        Hook::Inline(_) => {},
        Hook::Iat(import) => {
            lemma_written_value(import.detour, len);
            lemma_written_value(import.original_ptr, len);
        },
        Hook::Eat(export) => {
            lemma_written_value(export.detour_rva as u64, 4);
            lemma_written_value(export.original_rva as u64, 4);
        },
        Hook::Vtable(table) => {
            lemma_written_value(table.detour, len);
            lemma_written_value(table.original_ptr, len);
        },
        Hook::VtableInstance(instance) => {
            lemma_written_value(instance.cloned_vtable, len);
            lemma_written_value(instance.original_vtable, len);
        },
    }
}

/// The slots of a table of functions follow each other, a pointer each, from its start on.
pub proof fn lemma_table_slots_follow_each_other(arch: Arch, vtable: u64, index: usize)
    requires
        vtable + (index + 1) * pointer_len(arch) < limit(arch),
        index < usize::MAX,
    ensures
        slot_address(arch, vtable, 0) == vtable,
        slot_address(arch, vtable, (index + 1) as usize) == slot_address(arch, vtable, index)
            + pointer_len(arch),
{
    assert((index + 1) * pointer_len(arch) == index * pointer_len(arch) + pointer_len(arch))
        by (nonlinear_arith);
    assert(index * pointer_len(arch) >= 0) by (nonlinear_arith)
        requires
            pointer_len(arch) == 4 || pointer_len(arch) == 8,
    ;
}

/// Memory that can be executed stays so when it is made readable or writable, with the
/// same right to read and write; any other protection is set as it was asked for.
pub proof fn lemma_adjusted_protection(old_protect: u32, new_protect: u32)
    ensures
        old_protect & 0xf0 != 0 && (new_protect == 0x02 || new_protect == 0x04 || new_protect
            == 0x08) ==> adjusted_protect(old_protect, new_protect) == 0x10 * new_protect,
        !(old_protect & 0xf0 != 0 && (new_protect == 0x02 || new_protect == 0x04 || new_protect
            == 0x08)) ==> adjusted_protect(old_protect, new_protect) == new_protect,
{
}

/// A write that nothing stops makes the slot writable, remembers what it holds, stores the
/// new value there and puts the protection back.
pub proof fn lemma_write_goes_through(
    write: SlotWrite,
    before: u32,
    original: u64,
    last: u32,
)
    requires
        write.wf(),
        write.stage == WriteStage::Protecting,
    ensures
        ({
            let w1 = write.after(WriteEvent::Protected(Ok(before)));
            let w2 = w1.after(WriteEvent::Loaded(original));
            let w3 = w2.after(WriteEvent::Stored);
            let w4 = w3.after(WriteEvent::Protected(Ok(last)));
            &&& write.pending_step() == (WriteStep::Protect {
                address: write.slot,
                len: write.len,
                protect: write.protect,
            })
            &&& w1.pending_step() == (WriteStep::Load { address: write.slot, len: write.len })
            &&& w2.pending_step() == (WriteStep::Store {
                address: write.slot,
                len: write.len,
                value: write.value,
            })
            &&& w3.pending_step() == (WriteStep::Protect {
                address: write.slot,
                len: write.len,
                protect: before,
            })
            &&& w4.pending_step() == WriteStep::Done
            &&& w4.stored && w4.failure is None && w4.original == original
            &&& w4.slot == write.slot && w4.value == write.value
        }),
{
}

/// A write that asks first makes the slot writable without taking away the right to
/// execute it.
pub proof fn lemma_asking_write_keeps_execution(write: SlotWrite, current: u32)
    requires
        write.wf(),
        write.stage == WriteStage::Querying,
    ensures
        ({
            let asked = write.after(WriteEvent::Queried(Ok(current)));
            &&& write.pending_step() == (WriteStep::Query { address: write.slot })
            &&& asked.stage == WriteStage::Protecting && asked.wf()
            &&& asked.slot == write.slot && asked.len == write.len && asked.value == write.value
                && asked.policy == write.policy
            &&& asked.protect == if current & 0xf0 != 0 {
                0x40u32
            } else {
                0x04u32
            }
        }),
{
}

/// Where the protection cannot be put back, the original value is, unless the policy is to
/// keep the new one; and the protection is tried once more where the policy asks for it.
/// The failure is reported in each case.
pub proof fn lemma_failed_restore_is_undone(
    write: SlotWrite,
    before: u32,
    original: u64,
    error: OsError,
    again: Result<u32, OsError>,
)
    requires
        write.wf(),
        write.stage == WriteStage::Protecting,
    ensures
        ({
            let failed = write.after(WriteEvent::Protected(Ok(before))).after(
                WriteEvent::Loaded(original),
            ).after(WriteEvent::Stored).after(WriteEvent::Protected(Err(error)));
            let undone = failed.after(WriteEvent::Stored);
            let retried = undone.after(WriteEvent::Protected(again));
            &&& failed.failure == Some(error)
            &&& match write.policy {
                RestorePolicy::Keep => failed.pending_step() == WriteStep::Done && failed.stored,
                RestorePolicy::Undo => {
                    &&& failed.pending_step() == (WriteStep::Store {
                        address: write.slot,
                        len: write.len,
                        value: original,
                    })
                    &&& undone.pending_step() == WriteStep::Done
                    &&& !undone.stored && undone.failure == Some(error)
                },
                RestorePolicy::UndoAndRetry => {
                    &&& failed.pending_step() == (WriteStep::Store {
                        address: write.slot,
                        len: write.len,
                        value: original,
                    })
                    &&& undone.pending_step() == (WriteStep::Protect {
                        address: write.slot,
                        len: write.len,
                        protect: before,
                    })
                    &&& retried.pending_step() == WriteStep::Done
                    &&& !retried.stored && retried.failure == Some(error)
                },
            }
        }),
{
}

/// Whether memory for a trampoline may lie at an address of a region.
pub open spec fn fits(search: NearbySearch, region: QueriedRegion, address: int) -> bool {
    &&& region.state == 0x10000
    &&& address > 0
    &&& address % search.granularity as int == 0
    &&& region.base <= address
    &&& search.current <= address
    &&& address + search.size <= region.base + region.size
    &&& search.min <= address
    &&& address + search.size <= search.max
}

/// The address that is tried in a region is the lowest one that fits, and one is tried
/// wherever one fits.
pub proof fn lemma_lowest_fitting_address_is_tried(
    search: NearbySearch,
    region: QueriedRegion,
    address: int,
)
    requires
        search.wf(),
        search.min <= search.current,
    ensures
        candidate_in(search, region) matches Some(candidate) ==> fits(
            search,
            region,
            candidate as int,
        ),
        fits(search, region, address) ==> candidate_in(search, region) is Some && candidate_in(
            search,
            region,
        )->0 <= address,
{
    let granularity = search.granularity as int;
    let start = if region.base > search.current {
        region.base as int
    } else {
        search.current as int
    };
    let first = if start == 0 {
        1
    } else {
        start
    };
    lemma_aligned(first, granularity);
    let candidate = crate::nearby::aligned(first, granularity);
    if fits(search, region, address) && candidate > address {
        vstd::arithmetic::div_mod::lemma_mod_equivalence(candidate, address, granularity);
        let gap = candidate - address;
        assert(gap % granularity == 0);
        assert(0 < gap < granularity);
        vstd::arithmetic::div_mod::lemma_small_mod(gap as nat, granularity as nat);
    }
}

/// The memory for a trampoline is looked for in all places that a short jump from the
/// target, and one back, can span with room to spare.
pub proof fn lemma_search_spans_the_reach(
    search: NearbySearch,
    target: u64,
    size: u64,
    address: u64,
)
    requires
        search.limited_by(target, size),
        size <= 0x1_0000,
        target - address <= 0x7fff_ffff - 0x10_0000 - size,
        address + size - target <= 0x7fff_ffff - 0x10_0000 - size,
        address + size <= u64::MAX,
    ensures
        search.holds(address),
{
}

/// A breakpoint gets the first free slot; it gets none where its target has one already
/// or where all are taken.
pub proof fn lemma_first_free_slot_is_taken(targets: Seq<u64>, target: u64, slot: int)
    ensures
        targets.contains(target) ==> slot_for(targets, target) == Err::<int, SlotError>(
            SlotError::AlreadyHooked,
        ),
        !targets.contains(target) && 0 <= slot < targets.len() && targets[slot] == 0 && (forall|
            i: int,
        |
            0 <= i < slot ==> targets[i] != 0) ==> slot_for(targets, target) == Ok::<
            int,
            SlotError,
        >(slot),
        !targets.contains(target) && (forall|i: int|
            0 <= i < targets.len() ==> targets[i] != 0) ==> slot_for(targets, target) == Err::<
            int,
            SlotError,
        >(SlotError::NoFreeSlot),
{
    if 0 <= slot < targets.len() && targets[slot] == 0 && (forall|i: int|
        0 <= i < slot ==> targets[i] != 0) {
        lemma_first_free_at(targets, 0, slot);
    }
    if forall|i: int| 0 <= i < targets.len() ==> targets[i] != 0 {
        lemma_none_free(targets, 0);
    }
}

/// The first free slot is found.
proof fn lemma_first_free_at(targets: Seq<u64>, at: int, slot: int)
    requires
        0 <= at <= slot < targets.len(),
        targets[slot] == 0,
        forall|i: int| 0 <= i < slot ==> targets[i] != 0,
    ensures
        first_free(targets, at) == Some(slot),
    decreases slot - at,
{
    if at < slot {
        lemma_first_free_at(targets, at + 1, slot);
    }
}

/// No slot is found where none is free.
proof fn lemma_none_free(targets: Seq<u64>, at: int)
    requires
        0 <= at,
        forall|i: int| 0 <= i < targets.len() ==> targets[i] != 0,
    ensures
        first_free(targets, at) is None,
    decreases targets.len() - at,
{
    if at < targets.len() {
        lemma_none_free(targets, at + 1);
    }
}

/// A bit of the control register.
pub open spec fn bit(register: u64, k: u64) -> u64 {
    (register >> k) & 1
}

/// Setting a breakpoint sets the enable bit of its slot, clearing it clears that bit;
/// either way its condition becomes execution, with bits 16 to 19 for the first slot and
/// four more for each other, and every other bit stays.
pub proof fn lemma_control_bits(dr7: u64, slot: usize, enable: bool, k: u64)
    requires
        slot < 4,
        k < 64,
    ensures
        bit(control_register(dr7, slot, enable), k) == if k == 2 * slot {
            if enable {
                1u64
            } else {
                0u64
            }
        } else if 16 + 4 * slot <= k < 20 + 4 * slot {
            0
        } else {
            bit(dr7, k)
        },
{
    lemma_control_bits_at(dr7, k);
    lemma_cleared_bits_at(dr7, k);
}

/// The bits of the control register with a slot enabled.
proof fn lemma_control_bits_at(dr7: u64, k: u64)
    by (bit_vector)
    requires
        k < 64,
    ensures
        ((((dr7 & !(0xFu64 << 16u32)) | (1u64 << 0u32)) >> k) & 1) == (if k == 0 {
            1u64
        } else if 16 <= k && k < 20 {
            0u64
        } else {
            (dr7 >> k) & 1
        }),
        ((((dr7 & !(0xFu64 << 20u32)) | (1u64 << 2u32)) >> k) & 1) == (if k == 2 {
            1u64
        } else if 20 <= k && k < 24 {
            0u64
        } else {
            (dr7 >> k) & 1
        }),
        ((((dr7 & !(0xFu64 << 24u32)) | (1u64 << 4u32)) >> k) & 1) == (if k == 4 {
            1u64
        } else if 24 <= k && k < 28 {
            0u64
        } else {
            (dr7 >> k) & 1
        }),
        ((((dr7 & !(0xFu64 << 28u32)) | (1u64 << 6u32)) >> k) & 1) == (if k == 6 {
            1u64
        } else if 28 <= k && k < 32 {
            0u64
        } else {
            (dr7 >> k) & 1
        }),
{
}

/// The bits of the control register with a slot disabled.
proof fn lemma_cleared_bits_at(dr7: u64, k: u64)
    by (bit_vector)
    requires
        k < 64,
    ensures
        ((((dr7 & !(0xFu64 << 16u32)) & !(1u64 << 0u32)) >> k) & 1) == (if k == 0 || 16 <= k && k
            < 20 {
            0u64
        } else {
            (dr7 >> k) & 1
        }),
        ((((dr7 & !(0xFu64 << 20u32)) & !(1u64 << 2u32)) >> k) & 1) == (if k == 2 || 20 <= k && k
            < 24 {
            0u64
        } else {
            (dr7 >> k) & 1
        }),
        ((((dr7 & !(0xFu64 << 24u32)) & !(1u64 << 4u32)) >> k) & 1) == (if k == 4 || 24 <= k && k
            < 28 {
            0u64
        } else {
            (dr7 >> k) & 1
        }),
        ((((dr7 & !(0xFu64 << 28u32)) & !(1u64 << 6u32)) >> k) & 1) == (if k == 6 || 28 <= k && k
            < 32 {
            0u64
        } else {
            (dr7 >> k) & 1
        }),
{
}

} // verus!
