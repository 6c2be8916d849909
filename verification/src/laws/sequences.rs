//! Laws of calls that follow each other: what the second gives of what the first did.
use vstd::prelude::*;

use crate::arch::Arch;
use crate::hook::HookWrite;
use crate::mem::CodeWrite;
use crate::midhook::{stub_code, MidHook};
use crate::nearby::{NearbySearch, QueriedRegion, SearchStep, Trampoline};
use crate::reclaim::{reclaim, retire, Quarantine, RetiredRegion};
use crate::registry::{is_enabled, register, take, Registry};
use crate::slots::SlotTable;
use crate::transaction::{CommitAction, GatewayRegistry, Hook, Rollback, UndoStep};
use crate::watchdog::{GuardId, Sweep, SweepStep, WatchMode, Watchdog, WatchdogError};
use crate::DetourError;

verus! {

/// Whether this is what a lookup of a table gives.
pub open spec fn looked_up(table: SlotTable, address: u64, found: Option<u64>) -> bool {
    call_ensures(SlotTable::lookup, (&table, address), found)
}

/// What a lookup finds is the detour of the address, and nothing only where there is none.
proof fn lemma_looked_up(table: SlotTable, address: u64, found: Option<u64>, detour: u64)
    requires
        table.wf(),
        looked_up(table, address, found),
    ensures
        found matches Some(d) ==> table.detour_of(address, d),
        found is None ==> !table.detour_of(address, detour),
{
    if found is None && table.detour_of(address, detour) {
        let i = choose|i: int|
            0 <= i < table.targets@.len() && #[trigger] table.targets@[i] == address
                && table.detours@[i] == detour;
        assert(table.targets@.contains(address));
    }
}

/// A published breakpoint is found at its target with its detour, and every other one as
/// before.
pub proof fn lemma_published_breakpoint_is_found(
    table: &mut SlotTable,
    slot: usize,
    target: u64,
    detour: u64,
    after: SlotTable,
    address: u64,
    before_found: Option<u64>,
    found: Option<u64>,
)
    requires
        old(table).wf(),
        slot < old(table).targets@.len(),
        old(table).targets@[slot as int] == 0,
        !old(table).targets@.contains(target),
        target != 0,
        detour != 0,
        call_ensures(SlotTable::publish, (table, slot, target, detour), ()),
        after == *final(table),
        looked_up(after, address, found),
        looked_up(*old(table), address, before_found),
    ensures
        address == target ==> found == Some(detour),
        address != target ==> found == before_found,
{
    assert(after.targets@[slot as int] == target && after.detours@[slot as int] == detour);
    if address == target {
        assert(after.detour_of(address, detour));
        lemma_looked_up(after, address, found, detour);
        if found is Some {
            crate::slots::lemma_detour_is_unique(after, address, detour, found->0);
        }
    } else if address == 0 {
        lemma_looked_up(after, address, found, 0);
        lemma_looked_up(*old(table), address, before_found, 0);
    } else {
        lemma_other_breakpoints_stay(*old(table), after, slot, address, found, before_found);
    }
}

/// A cleared breakpoint is found no more, and every other one as before.
pub proof fn lemma_cleared_breakpoint_is_gone(
    table: &mut SlotTable,
    slot: usize,
    after: SlotTable,
    address: u64,
    before_found: Option<u64>,
    found: Option<u64>,
)
    requires
        old(table).wf(),
        slot < old(table).targets@.len(),
        call_ensures(SlotTable::clear, (table, slot), ()),
        after == *final(table),
        looked_up(after, address, found),
        looked_up(*old(table), address, before_found),
    ensures
        address == old(table).targets@[slot as int] ==> found is None,
        address != old(table).targets@[slot as int] ==> found == before_found,
{
    let target = old(table).targets@[slot as int];
    lemma_looked_up(after, address, found, 0);
    lemma_looked_up(*old(table), address, before_found, 0);
    if address != 0 && address == target && found is Some {
        let i = choose|i: int|
            0 <= i < after.targets@.len() && #[trigger] after.targets@[i] == address
                && after.detours@[i] == found->0;
        assert(old(table).targets@[i] == address);
        assert(false);
    } else if address != 0 && address != target {
        lemma_other_breakpoints_stay(*old(table), after, slot, address, found, before_found);
    }
}

/// A change of one slot leaves what is found of the others.
proof fn lemma_other_breakpoints_stay(
    before: SlotTable,
    after: SlotTable,
    slot: usize,
    address: u64,
    found: Option<u64>,
    before_found: Option<u64>,
)
    requires
        before.wf(),
        after.wf(),
        slot < before.targets@.len(),
        after.targets@.len() == before.targets@.len(),
        forall|i: int|
            0 <= i < before.targets@.len() && i != slot ==> #[trigger] after.targets@[i]
                == before.targets@[i] && after.detours@[i] == before.detours@[i],
        address != after.targets@[slot as int],
        address != before.targets@[slot as int],
        looked_up(after, address, found),
        looked_up(before, address, before_found),
    ensures
        found == before_found,
{
    lemma_looked_up(after, address, found, if before_found is Some {
        before_found->0
    } else {
        0
    });
    lemma_looked_up(before, address, before_found, if found is Some {
        found->0
    } else {
        0
    });
    if found is Some {
        let i = choose|i: int|
            0 <= i < after.targets@.len() && #[trigger] after.targets@[i] == address
                && after.detours@[i] == found->0;
        assert(before.targets@[i] == address && before.detours@[i] == found->0);
        assert(before.detour_of(address, found->0));
        if before_found is Some {
            crate::slots::lemma_detour_is_unique(before, address, found->0, before_found->0);
        }
    } else if before_found is Some {
        let i = choose|i: int|
            0 <= i < before.targets@.len() && #[trigger] before.targets@[i] == address
                && before.detours@[i] == before_found->0;
        assert(after.targets@[i] == address && after.detours@[i] == before_found->0);
        assert(after.detour_of(address, before_found->0));
    }
}

/// A registered hook is known by its name, is handed out by it, and is gone then.
pub proof fn lemma_registered_hook_is_handed_out(
    registry: &mut Registry,
    name: String,
    hook: Hook,
    previous: Option<Hook>,
    held: &mut Registry,
    key: &str,
    enabled: Option<bool>,
    taken: Option<Hook>,
    left: Registry,
    later: Option<bool>,
)
    requires
        old(registry).wf(),
        call_ensures(register, (registry, name, hook), previous),
        *old(held) == *final(registry),
        key@ == name@,
        call_ensures(is_enabled, (old(held), key), enabled),
        call_ensures(take, (held, key), taken),
        left == *final(held),
        call_ensures(is_enabled, (&left, key), later),
    ensures
        enabled == Some(hook.spec_enabled()),
        taken == Some(hook),
        later is None,
{
}

/// A retired stub waits until the quarantine is emptied, and is handed out then.
pub proof fn lemma_retired_stub_waits(
    quarantine: &mut Quarantine,
    address: u64,
    size: u64,
    held: &mut Quarantine,
    locked: bool,
    regions: Vec<RetiredRegion>,
)
    requires
        address != 0,
        size != 0,
        call_ensures(retire, (quarantine, address, size), ()),
        *old(held) == *final(quarantine),
        call_ensures(reclaim, (held, locked), regions),
    ensures
        locked ==> regions@ == old(quarantine).regions@.push(
            RetiredRegion { base: address, size },
        ) && final(held).regions@.len() == 0,
        !locked ==> regions@.len() == 0 && final(held).regions@ == old(quarantine).regions@.push(
            RetiredRegion { base: address, size },
        ),
{
}

/// A guard that was given out can be given up once, and leaves the regions as they were.
pub proof fn lemma_guard_is_given_up(
    watchdog: &mut Watchdog,
    target: u64,
    bytes: &[u8],
    guard: Result<GuardId, WatchdogError>,
    held: &mut Watchdog,
    found: bool,
)
    requires
        old(watchdog).wf(),
        target != 0,
        bytes@.len() > 0,
        call_ensures(Watchdog::guard, (watchdog, target, bytes), guard),
        *old(held) == *final(watchdog),
        guard is Ok,
        call_ensures(Watchdog::unguard, (held, guard->Ok_0), found),
    ensures
        found,
        final(held).regions@ == old(watchdog).regions@,
{
    crate::watchdog::lemma_guard_then_unguard(
        *old(watchdog),
        *final(watchdog),
        target,
        bytes@,
        guard->Ok_0,
    );
    assert(old(held).regions@.last().id == guard->Ok_0.id);
}

/// A region that was changed is written back as it should be, in the mode that restores;
/// in the other mode, and where nothing was changed, nothing is written.
pub proof fn lemma_changed_region_is_written_back(
    sweep: &mut Sweep,
    watchdog: &mut Watchdog,
    found: &[u8],
    step: SweepStep,
)
    requires
        old(sweep).wf(*old(watchdog)),
        old(sweep).next < old(watchdog).regions@.len(),
        call_ensures(Sweep::examine, (sweep, watchdog, found), step),
    ensures
        ({
            let region = old(watchdog).regions@[old(sweep).next as int];
            &&& step is Rewrite <==> old(sweep).mode == WatchMode::Restore && found@
                != region.expected@
            &&& step matches SweepStep::Rewrite(write) ==> write.address == region.target
                && write.bytes@ == region.expected@
            &&& step is Continue ==> final(sweep).next == old(sweep).next + 1
        }),
{
}

/// A free region that fits is tried next, at an address within it.
pub proof fn lemma_fitting_region_is_tried(
    search: &mut NearbySearch,
    region: QueriedRegion,
    after: NearbySearch,
    step: SearchStep,
    address: int,
)
    requires
        old(search).wf(),
        old(search).stage == crate::nearby::SearchStage::Querying,
        old(search).min <= old(search).current,
        call_ensures(NearbySearch::region_found, (search, Some(region)), ()),
        after == *final(search),
        call_ensures(NearbySearch::step, (&after,), step),
        crate::laws::writes::fits(*old(search), region, address),
    ensures
        step matches SearchStep::Allocate { address: tried, size } && {
            &&& crate::laws::writes::fits(*old(search), region, tried as int)
            &&& tried <= address
            &&& size == old(search).size
        },
{
    crate::laws::writes::lemma_lowest_fitting_address_is_tried(*old(search), region, address);
}

/// Memory counts as a trampoline only where it lies in reach.
pub proof fn lemma_memory_in_reach_is_taken(
    search: &NearbySearch,
    address: u64,
    trampoline: Option<Trampoline>,
)
    requires
        call_ensures(NearbySearch::allocated, (search, address), trampoline),
    ensures
        trampoline is Some <==> address != 0 && search.min <= address && address + search.size
            <= search.max,
        trampoline matches Some(found) ==> found.ptr == address && found.size == search.size,
{
}

/// The stub of a hook is written where its memory is, with the code for its handler.
pub proof fn lemma_stub_is_written(
    memory: &Trampoline,
    handler: u64,
    gateway: u64,
    write: Result<CodeWrite, DetourError>,
)
    requires
        call_ensures(MidHook::write_stub, (Arch::X64, memory, handler, gateway), write),
    ensures
        write is Ok <==> handler != 0 && stub_code(handler, gateway).len() <= memory.size,
        write matches Ok(edit) ==> edit.address == memory.ptr && edit.bytes@ == stub_code(
            handler,
            gateway,
        ),
{
}

/// A gateway is managed from its registration to its removal.
pub proof fn lemma_gateway_is_managed_in_between(
    gateways: &mut GatewayRegistry,
    gateway: u64,
    held: &mut GatewayRegistry,
    managed: bool,
    left: GatewayRegistry,
    later: bool,
)
    requires
        call_ensures(GatewayRegistry::register_managed_gateway, (gateways, gateway), ()),
        *old(held) == *final(gateways),
        call_ensures(GatewayRegistry::is_managed_gateway, (old(held), gateway), managed),
        call_ensures(GatewayRegistry::unregister_managed_gateway, (held, gateway), ()),
        left == *final(held),
        call_ensures(GatewayRegistry::is_managed_gateway, (&left, gateway), later),
    ensures
        managed,
        !later,
        left@ =~= old(gateways)@.remove(gateway),
{
}

/// A rollback undoes the last action first: an installed hook is unhooked, a removed one is
/// enabled again.
pub proof fn lemma_rollback_undoes_the_last_action(undo: &mut Rollback, step: Option<UndoStep>)
    requires
        old(undo).wf(),
        call_ensures(Rollback::next, (undo,), step),
    ensures
        step is None <==> old(undo).order@.len() == 0,
        old(undo).order@.len() > 0 ==> {
            &&& final(undo).order@ == old(undo).order@.drop_first()
            &&& old(undo).order@[0] == CommitAction::Installed ==> step == Some(
                UndoStep::Unhook(old(undo).hooks@[0]),
            )
            &&& old(undo).order@[0] == CommitAction::Detached ==> step == Some(
                UndoStep::Enable { handle: old(undo).enable@[0] },
            )
        },
{
}

/// A hook that is switched is written where it stands: with its detour to enable it, with
/// what was there to disable it, and not at all where it is in that state.
pub proof fn lemma_switched_hook_is_written(
    arch: Arch,
    hook: &Hook,
    enable: bool,
    write: Option<HookWrite>,
)
    requires
        call_ensures(Hook::toggle_write, (hook, arch, enable), write),
    ensures
        hook.spec_enabled() == enable ==> write is None,
        write matches Some(begun) ==> {
            let edit = crate::hook::hook_edit(arch, *hook);
            &&& begun.address() == edit.address
            &&& begun.bytes() == (if enable {
                edit.new
            } else {
                edit.old
            })
        },
        hook.spec_enabled() != enable && hook is Inline ==> write is Some,
{
}

} // verus!
