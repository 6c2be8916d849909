//! Laws of installing hooks: what is written where, and what is kept for the way back.
use vstd::prelude::*;

use crate::arch::Arch;
use crate::delay::{DelayHook, DelayHookError, DelayManager};
use crate::eat::{absolute_jump, export_slot, EatHook, EatHookError, PreparedEat};
use crate::iat::{import_slot, IatHook, IatHookError};
use crate::int3::{Int3Hook, Int3HookError, Int3Manager};
use crate::laws::inline::limit;
use crate::laws::threads::pointer_len;
use crate::laws::transactions::table_slot;
use crate::mem::{CodeWrite, SlotWrite};
use crate::pe::parsed;
use crate::transaction::Hook;
use crate::veh::VehManager;
use crate::vtable::{ClonedTable, VTableHook, VTableHookError, VTableInstanceHook};

verus! {

/// An import hook writes its detour, a pointer long, into the slot of the import.
pub proof fn lemma_import_hook_writes_its_detour(
    arch: Arch,
    mapped: &[u8],
    base: u64,
    dll: &str,
    function: &str,
    detour: u64,
    write: Result<SlotWrite, IatHookError>,
)
    requires
        call_ensures(IatHook::prepare, (arch, mapped, base, dll, function, detour), write),
    ensures
        write is Ok <==> base != 0 && detour != 0 && import_slot(
            arch,
            mapped@,
            base,
            dll@,
            function@,
        ) is Ok,
        write matches Ok(begun) ==> {
            &&& begun.slot == import_slot(arch, mapped@, base, dll@, function@)->Ok_0
            &&& begun.value == detour
            &&& begun.len == pointer_len(arch)
        },
{
}

/// An export hook is prepared for the slot of the export, keeps the address that the slot
/// led to, and makes it lead to the detour, or to a stub that jumps there.
pub proof fn lemma_export_hook_leads_to_its_detour(
    arch: Arch,
    mapped: &[u8],
    base: u64,
    function: &str,
    detour: u64,
    stub: Option<u64>,
    prepared: Result<PreparedEat, EatHookError>,
)
    requires
        call_ensures(EatHook::prepare, (arch, mapped, base, function, detour, stub), prepared),
        base < limit(arch),
        detour < limit(arch),
        stub matches Some(address) ==> address < limit(arch),
    ensures
        prepared matches Ok(ready) ==> {
            &&& parsed(arch, mapped@, base) matches Ok(image) && export_slot(
                arch,
                image,
                mapped@,
                function@,
            ) matches Ok(found) && ready.slot == found.slot && ready.original_rva
                == found.original_rva
            &&& ready.original_ptr == (base + ready.original_rva) % limit(arch)
            &&& ready.detour.stub is None ==> (base + ready.detour.rva) % limit(arch) == detour
            &&& ready.detour.stub matches Some(code) ==> {
                &&& code@ == absolute_jump(detour)
                &&& stub == Some(ready.stub_address)
                &&& (base + ready.detour.rva) % limit(arch) == ready.stub_address
            }
        },
{
    crate::eat::lemma_rva_resolves(arch, base, detour);
    if prepared is Ok {
        let ready = prepared->Ok_0;
        if ready.detour.stub is Some {
            crate::eat::lemma_rva_resolves(arch, base, ready.stub_address);
        }
    }
}

/// A hook of a table writes its detour into the slot with its number.
pub proof fn lemma_table_hook_writes_its_slot(
    arch: Arch,
    vtable: u64,
    index: usize,
    detour: u64,
    write: Result<SlotWrite, VTableHookError>,
)
    requires
        call_ensures(VTableHook::prepare, (arch, vtable, index, detour), write),
    ensures
        write is Ok <==> vtable != 0 && detour != 0,
        write matches Ok(begun) ==> {
            &&& begun.slot == table_slot(arch, vtable, index)
            &&& begun.value == detour
            &&& begun.len == pointer_len(arch)
        },
{
}

/// A hook of one object works on a copy of its table, in which the one slot holds the
/// detour and all others what they held, and makes the object point to the copy.
pub proof fn lemma_object_gets_a_table_of_its_own(
    arch: Arch,
    object: u64,
    vtable: u64,
    entries: Vec<u64>,
    index: usize,
    detour: u64,
    clone: Result<ClonedTable, VTableHookError>,
    memory: Option<u64>,
    write: Result<SlotWrite, VTableHookError>,
)
    requires
        call_ensures(VTableInstanceHook::prepare, (object, vtable, entries, index, detour), clone),
        clone is Ok,
        call_ensures(VTableInstanceHook::redirect, (arch, &clone->Ok_0, memory), write),
    ensures
        ({
            let table = clone->Ok_0;
            &&& index < entries@.len()
            &&& table.entries@.len() == entries@.len()
            &&& table.entries@[index as int] == detour
            &&& forall|i: int|
                0 <= i < entries@.len() && i != index ==> #[trigger] table.entries@[i]
                    == entries@[i]
            &&& table.original_ptr == entries@[index as int]
            &&& table.original_vtable == vtable
            &&& write is Ok <==> memory is Some
            &&& write matches Ok(begun) ==> begun.slot == object && Some(begun.value) == memory
                && begun.len == pointer_len(arch)
        }),
{
}

/// A breakpoint is written as the one byte `CC` at its target, and taken back by the byte
/// that was there.
pub proof fn lemma_breakpoint_is_one_byte(
    manager: &mut Int3Manager,
    slot: usize,
    target: u64,
    detour: u64,
    registered: Option<u64>,
    write: Result<CodeWrite, Int3HookError>,
    other: &Int3Manager,
    hook: &Int3Hook,
    removal: Option<CodeWrite>,
)
    requires
        call_ensures(Int3Manager::publish, (manager, slot, target, detour, registered), write),
        call_ensures(Int3Manager::removal_write, (other, hook), removal),
    ensures
        write matches Ok(edit) ==> edit.address == target && edit.bytes@ == seq![0xCCu8],
        removal is Some <==> hook.active,
        removal matches Some(edit) ==> edit.address == hook.target && edit.bytes@
            == seq![hook.original_byte],
{
}

/// An exception continues at the detour of its address where it is a breakpoint, or a
/// single step for a hardware breakpoint, and is passed on otherwise.
pub proof fn lemma_exception_continues_at_the_detour(
    software: &Int3Manager,
    hardware: &VehManager,
    code: u32,
    address: u64,
    taken: Option<u64>,
    stepped: Option<u64>,
)
    requires
        software.wf(),
        hardware.wf(),
        call_ensures(Int3Manager::int3_handler, (software, code, address), taken),
        call_ensures(VehManager::veh_handler, (hardware, code, address), stepped),
    ensures
        taken matches Some(found) ==> code == 0x8000_0003 && software.table.detour_of(
            address,
            found,
        ),
        code == 0x8000_0003 && address != 0 && software.table.targets@.contains(address) ==> taken
            is Some,
        code == 0x8000_0004 && address != 0 && hardware.table.targets@.contains(address)
            ==> stepped is Some,
        stepped matches Some(found) ==> code == 0x8000_0004 && hardware.table.detour_of(
            address,
            found,
        ),
{
}

/// A delayed hook is registered with the next number, in small letters, and is not active
/// before it is installed; it needs the hook on the loader.
pub proof fn lemma_delayed_hook_is_registered(
    manager: &mut DelayManager,
    module: &str,
    function: &str,
    detour: u64,
    loader: Option<Hook>,
    request: Result<DelayHook, DelayHookError>,
)
    requires
        old(manager).wf(),
        call_ensures(DelayHook::register, (manager, module, function, detour, loader), request),
    ensures
        request is Ok <==> detour != 0 && module@.len() > 0 && function@.len() > 0 && (old(
            manager,
        ).ldr_hook is Some || loader is Some),
        request is Err ==> *final(manager) == *old(manager),
        request matches Ok(handle) ==> {
            &&& final(manager).pending@.len() == old(manager).pending@.len() + 1
            &&& forall|i: int|
                0 <= i < old(manager).pending@.len() ==> #[trigger] final(manager).pending@[i]
                    == old(manager).pending@[i] && final(manager).pending@[i].id != handle.id
            &&& final(manager).pending@.last().id == handle.id
            &&& final(manager).pending@.last().module@ == crate::text::ascii_lower_text(module@)
            &&& final(manager).pending@.last().func@ == function@
            &&& final(manager).pending@.last().detour == detour
            &&& final(manager).pending@.last().hook is None
        },
{
    if request is Ok {
        assert forall|i: int|
            0 <= i < old(manager).pending@.len() implies #[trigger] final(manager).pending@[i]
            == old(manager).pending@[i] && final(manager).pending@[i].id != request->Ok_0.id by {
            assert(final(manager).pending@.drop_last()[i] == final(manager).pending@[i]);
        }
    }
}

} // verus!
