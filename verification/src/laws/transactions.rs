//! Laws of transactions: what a request adds to the queue, in which order a commit goes
//! through it, and what becomes of threads, gateways and requests.
use vstd::prelude::*;

use crate::arch::Arch;
use crate::delay::{position, removed, DelayManager, DelayRemoval};
use crate::disasm::{
    instruction_len, relocation_of, DecodedInstruction, DisasmError, RelocationMapping,
};
use crate::hook::{gateways_after, removal_error, switch_result, HookOutcome};
use crate::iat::import_slot;
use crate::laws::inline::limit;
use crate::laws::memory::{lemma_query_reports, reports};
use crate::memory::{mem_pointer, MemoryRegion};
use crate::registry::toggled;
use crate::transaction::{
    aborted, commit_begun, detach_queued, export_attached, import_attached, inline_attached,
    instance_attached, table_attached, thread_updated, AttachedInline, Commit, CommitStep, Hook,
    PendingHook, TransactionCore,
};
use crate::DetourError;

verus! {

/// Whether a queue is as before, with one hook more at its end, and nothing else of the
/// transaction has changed.
pub open spec fn queued_one(before: TransactionCore, after: TransactionCore) -> bool {
    &&& after.pending_hooks@.len() == before.pending_hooks@.len() + 1
    &&& forall|i: int|
        0 <= i < before.pending_hooks@.len() ==> #[trigger] after.pending_hooks@[i]
            == before.pending_hooks@[i]
    &&& after.arch == before.arch
    &&& after.threads@ == before.threads@
    &&& after.is_pending == before.is_pending
    &&& after.redirected_threads@ == before.redirected_threads@
    &&& after.redirected_stacks@ == before.redirected_stacks@
}

/// A queue without its last hook is the queue before.
proof fn lemma_queued_one(before: TransactionCore, after: TransactionCore)
    requires
        crate::transaction::only_queue_changed(before, after),
        after.pending_hooks@.len() == before.pending_hooks@.len() + 1,
        after.pending_hooks@.drop_last() == before.pending_hooks@,
    ensures
        queued_one(before, after),
{
    assert forall|i: int|
        0 <= i < before.pending_hooks@.len() implies #[trigger] after.pending_hooks@[i]
        == before.pending_hooks@[i] by {
        assert(after.pending_hooks@.drop_last()[i] == after.pending_hooks@[i]);
    }
}

/// An inline hook is queued behind all others, for its target and its detour, in an open
/// transaction only; a refused one leaves the transaction as it was.
pub proof fn lemma_inline_hook_is_queued(
    before: TransactionCore,
    after: TransactionCore,
    regions: Seq<MemoryRegion>,
    gateways: Set<u64>,
    target: u64,
    detour: u64,
    trampoline: Option<u64>,
    result: Result<AttachedInline, DetourError>,
)
    requires
        inline_attached(before, after, regions, gateways, target, detour, trampoline, result),
    ensures
        result is Err ==> after == before,
        result is Ok ==> {
            &&& before.is_pending && target != 0 && detour != 0 && trampoline is Some
            &&& queued_one(before, after)
            &&& after.pending_hooks@.last() matches PendingHook::Inline(data) && data.target
                == target && data.detour == detour && Some(data.trampoline.ptr) == trampoline
            &&& Some(result->Ok_0.gateway) == trampoline
            &&& Some(result->Ok_0.write.address) == trampoline
        },
        !before.is_pending ==> result == Err::<AttachedInline, DetourError>(
            DetourError::NotStarted,
        ),
        before.is_pending && (target == 0 || detour == 0) ==> result == Err::<
            AttachedInline,
            DetourError,
        >(DetourError::InvalidParameter),
{
    if result is Ok {
        lemma_queued_one(before, after);
    }
}

/// An import or an export hook is queued behind all others, with its names and its detour.
pub proof fn lemma_named_hook_is_queued(
    before: TransactionCore,
    after: TransactionCore,
    regions: Seq<MemoryRegion>,
    mapped: Seq<u8>,
    module: u64,
    dll: Seq<char>,
    function: Seq<char>,
    detour: u64,
    result: Result<(), DetourError>,
)
    requires
        import_attached(before, after, regions, mapped, module, dll, function, detour, result)
            || export_attached(before, after, mapped, module, function, detour, result),
    ensures
        result is Err ==> after == before,
        result is Ok ==> {
            &&& before.is_pending
            &&& queued_one(before, after)
            &&& match after.pending_hooks@.last() {
                PendingHook::Iat { module: m, target_dll, target_func, detour: d } => {
                    &&& m == module && target_dll@ == dll && target_func@ == function && d == detour
                    &&& import_slot(before.arch, mapped, module, dll, function) is Ok
                },
                PendingHook::Eat { module: m, target_func, detour: d } => m == module
                    && target_func@ == function && d == detour,
                _ => false,
            }
        },
        !before.is_pending ==> result == Err::<(), DetourError>(DetourError::NotStarted),
{
    if result is Ok {
        lemma_queued_one(before, after);
    }
}

/// The address of a slot of a table of functions.
pub open spec fn table_slot(arch: Arch, table: u64, index: usize) -> u64 {
    ((table + index * crate::laws::threads::pointer_len(arch)) % limit(arch)) as u64
}

/// A hook of a table's slot is queued behind all others, and what is returned is the
/// pointer that stands in the slot.
pub proof fn lemma_table_hook_is_queued(
    before: TransactionCore,
    after: TransactionCore,
    regions: Seq<MemoryRegion>,
    vtable: u64,
    index: usize,
    detour: u64,
    result: Result<u64, DetourError>,
)
    requires
        table_attached(before, after, regions, vtable, index, detour, result),
    ensures
        result is Err ==> after == before,
        result is Ok ==> {
            &&& before.is_pending
            &&& queued_one(before, after)
            &&& after.pending_hooks@.last() == (PendingHook::Vtable { vtable, index, detour })
            &&& mem_pointer(before.arch, regions, table_slot(before.arch, vtable, index)) == Some(
                result->Ok_0,
            )
        },
        result is Err && before.is_pending && vtable != 0 && detour != 0 && mem_pointer(
            before.arch,
            regions,
            table_slot(before.arch, vtable, index),
        ) is Some ==> forall|i: int| #[trigger]
            reports(regions, i, table_slot(before.arch, vtable, index) as int)
                ==> regions[i].protect & 0x66 == 0,
{
    if result is Ok {
        assert(after.pending_hooks@.drop_last() =~= before.pending_hooks@);
        lemma_queued_one(before, after);
    } else {
        lemma_query_reports(regions, table_slot(before.arch, vtable, index) as int);
    }
}

/// A hook of one object is queued behind all others, and what is returned is the pointer
/// in the slot of the table that the object points to.
pub proof fn lemma_instance_hook_is_queued(
    before: TransactionCore,
    after: TransactionCore,
    regions: Seq<MemoryRegion>,
    object: u64,
    index: usize,
    len: usize,
    detour: u64,
    result: Result<u64, DetourError>,
)
    requires
        instance_attached(before, after, regions, object, index, len, detour, result),
    ensures
        result is Err ==> after == before,
        result is Ok ==> {
            &&& before.is_pending && index < len
            &&& queued_one(before, after)
            &&& after.pending_hooks@.last() == (PendingHook::VtableInstance {
                object_vptr: object,
                vtable_len: len,
                index,
                detour,
            })
            &&& mem_pointer(before.arch, regions, object) matches Some(table) && mem_pointer(
                before.arch,
                regions,
                table_slot(before.arch, table, index),
            ) == Some(result->Ok_0)
        },
{
    if result is Ok {
        assert(after.pending_hooks@.drop_last() =~= before.pending_hooks@);
        lemma_queued_one(before, after);
    }
}

/// A removal is queued behind all others in an open transaction.
pub proof fn lemma_removal_is_queued(
    before: TransactionCore,
    after: TransactionCore,
    handle: usize,
    result: Result<(), DetourError>,
)
    requires
        detach_queued(before, after, handle, result),
    ensures
        before.is_pending <==> result is Ok,
        result is Err ==> after == before,
        result is Ok ==> queued_one(before, after) && after.pending_hooks@.last()
            == (PendingHook::Detach { handle }),
{
    if result is Ok {
        assert(after.pending_hooks@.drop_last() =~= before.pending_hooks@);
        lemma_queued_one(before, after);
    }
}

/// A thread that could be stopped is held until the end, behind those before; the calling
/// thread and the thread number 0 never are.
pub proof fn lemma_stopped_thread_is_held(
    before: TransactionCore,
    after: TransactionCore,
    thread_id: u32,
    calling_thread: u32,
    suspended: Option<u64>,
    result: Result<(), DetourError>,
)
    requires
        thread_updated(before, after, thread_id, calling_thread, suspended, result),
    ensures
        before.is_pending <==> result is Ok,
        before.is_pending && thread_id != 0 && thread_id != calling_thread && suspended is Some
            ==> after.threads@ == before.threads@.push(suspended->0),
        !before.is_pending || thread_id == 0 || thread_id == calling_thread || suspended is None
            ==> after.threads@ == before.threads@,
        after.pending_hooks@ == before.pending_hooks@,
        after.is_pending == before.is_pending,
{
}

/// An aborted transaction lets all its threads go on and forgets its queue; a finished one
/// has none to let go.
pub proof fn lemma_abort_resumes_every_thread(
    before: TransactionCore,
    after: TransactionCore,
    resume: Vec<u64>,
)
    requires
        aborted(before, after, resume),
    ensures
        !after.is_pending,
        before.is_pending ==> resume@ == before.threads@ && after.threads@.len() == 0
            && after.pending_hooks@.len() == 0,
        !before.is_pending ==> resume@.len() == 0 && after == before,
{
}

/// A commit takes over the queue as it is and begins with its first hook and its first
/// thread.
pub proof fn lemma_commit_takes_the_queue(
    before: TransactionCore,
    after: TransactionCore,
    run: Result<Commit, DetourError>,
)
    requires
        commit_begun(before, after, run),
    ensures
        before.is_pending <==> run is Ok,
        run matches Ok(begun) ==> begun.queue@ == before.pending_hooks@ && begun.thread == 0
            && begun.installed@.len() == 0 && after.pending_hooks@.len() == 0 && after.threads@
            == before.threads@,
        run is Err ==> after == before,
{
}

/// A commit works on the first hook of the queue: an inline hook is patched when every
/// held thread has been inspected and no change of a thread is open, each thread by its
/// number before the next; any other hook is installed at once. It ends with the queue.
pub proof fn lemma_commit_steps(run: Commit, core: TransactionCore)
    requires
        run.wf(core),
    ensures
        run.pending_step(core) == CommitStep::Finish <==> run.queue@.len() == 0,
        run.queue@.len() > 0 ==> match run.queue@[0] {
            PendingHook::Inline(_) => {
                &&& run.pending_step(core) == CommitStep::Patch <==> run.thread
                    == core.threads@.len() && run.redirect is None
                &&& run.thread < core.threads@.len() && run.redirect is None ==> run.pending_step(
                    core,
                ) == (CommitStep::InspectThread { thread: core.threads@[run.thread as int] })
                &&& run.redirect is Some ==> run.pending_step(core) == (CommitStep::RedirectThread {
                    thread: core.threads@[run.thread as int],
                })
            },
            PendingHook::Iat { .. } => run.pending_step(core) == CommitStep::HookImport,
            PendingHook::Eat { .. } => run.pending_step(core) == CommitStep::HookExport,
            PendingHook::Vtable { .. } => run.pending_step(core) == CommitStep::HookSlot,
            PendingHook::VtableInstance { .. } => run.pending_step(core)
                == CommitStep::HookInstance,
            PendingHook::Detach { handle } => run.pending_step(core) == (CommitStep::Detach {
                handle,
            }),
        },
{
}

/// What a hook's write came to.
pub open spec fn succeeded(outcome: HookOutcome) -> bool {
    match outcome {
        HookOutcome::Code(code) => code.written,
        HookOutcome::Slot(slot) => slot is Ok,
    }
}

/// A hook is switched exactly where it has a place to be written and the write succeeded.
pub proof fn lemma_hook_is_switched_with_its_write(hook: Hook, enable: bool, outcome: HookOutcome)
    requires
        outcome.fits(hook),
    ensures
        switch_result(hook, enable, outcome) is Ok <==> succeeded(outcome) && match hook {
            Hook::Inline(_) => true,
            Hook::Iat(import) => import.slot != 0,
            Hook::Eat(export) => export.slot_ptr != 0,
            Hook::Vtable(table) => table.slot != 0,
            Hook::VtableInstance(instance) => instance.object_vptr != 0 && (if enable {
                instance.cloned_vtable != 0
            } else {
                instance.original_vtable != 0
            }),
        },
{
}

/// A removed inline hook gives its trampoline up as a gateway; a target that was a gateway
/// before it was hooked becomes one again once its bytes are back. Nothing else changes
/// among the gateways.
pub proof fn lemma_gateways_follow_the_hooks(gateways: Set<u64>, hook: Hook, outcome: HookOutcome)
    requires
        outcome.fits(hook),
    ensures
        !(hook is Inline) ==> gateways_after(gateways, hook, outcome) == gateways,
        hook matches Hook::Inline(inline) ==> {
            let after = gateways_after(gateways, hook, outcome);
            &&& removal_error(hook, outcome) is None ==> !after.contains(inline.trampoline.ptr)
            &&& inline.target != inline.trampoline.ptr && inline.target_kind
                == crate::inline::TargetKind::ManagedGateway && removal_error(hook, outcome) is None
                ==> after.contains(inline.target)
            &&& forall|other: u64|
                other != inline.target && other != inline.trampoline.ptr ==> (
                #[trigger] after.contains(other) <==> gateways.contains(other))
            &&& !succeeded(outcome) ==> after =~= gateways
        },
{
}

/// A hook is removed exactly where it knows what to write back and the write succeeded;
/// that of an inline hook in full, with the instruction cache and the protection.
pub proof fn lemma_hook_is_removed_with_its_write(hook: Hook, outcome: HookOutcome)
    requires
        outcome.fits(hook),
    ensures
        removal_error(hook, outcome) is None <==> match (hook, outcome) {
            (Hook::Inline(inline), HookOutcome::Code(code)) => inline.target != 0
                && inline.orig_bytes@.len() == inline.stolen_len && code.written && code.flushed
                && code.restored,
            (Hook::Vtable(table), HookOutcome::Slot(slot)) => table.slot != 0 && slot is Ok,
            (Hook::VtableInstance(instance), HookOutcome::Slot(slot)) => instance.object_vptr != 0
                && instance.original_vtable != 0 && instance.cloned_vtable != 0
                && instance.vtable_len != 0 && slot is Ok,
            (_, HookOutcome::Slot(slot)) => slot is Ok,
            (_, HookOutcome::Code(_)) => false,
        },
{
}

/// Switching a hook of the registry changes that hook alone, and only where its write
/// succeeded.
pub proof fn lemma_switching_changes_one_entry(
    before: Map<Seq<char>, Hook>,
    after: Map<Seq<char>, Hook>,
    name: Seq<char>,
    enable: bool,
    outcome: HookOutcome,
    result: Result<bool, DetourError>,
    other: Seq<char>,
)
    requires
        toggled(before, after, name, enable, outcome, result),
        before.dom().contains(name) ==> outcome.fits(before[name]),
    ensures
        after.dom() =~= before.dom(),
        other != name && before.dom().contains(other) ==> after[other] == before[other],
        !before.dom().contains(name) ==> result == Ok::<bool, DetourError>(false),
        before.dom().contains(name) && result is Ok ==> result == Ok::<bool, DetourError>(true)
            && after[name].spec_enabled() == enable,
        before.dom().contains(name) && result is Err ==> after[name] == before[name]
            && before[name].spec_enabled() != enable,
        before.dom().contains(name) && before[name].spec_enabled() != enable && !succeeded(outcome)
            ==> result is Err,
{
    if before.dom().contains(name) && before[name].spec_enabled() != enable {
        lemma_hook_is_switched_with_its_write(before[name], enable, outcome);
    }
}

/// Giving up a delayed hook takes away its request and no other, hands its breakpoint
/// back, and with the last request the hook on the loader.
pub proof fn lemma_delayed_hook_is_given_up(
    before: DelayManager,
    after: DelayManager,
    id: u64,
    removal: DelayRemoval,
    at: int,
)
    requires
        before.wf(),
        removed(before, after, id, removal),
        0 <= at < before.pending@.len(),
        before.pending@[at].id == id,
    ensures
        after.pending@.len() == before.pending@.len() - 1,
        forall|i: int| 0 <= i < at ==> #[trigger] after.pending@[i] == before.pending@[i],
        forall|i: int|
            at <= i < after.pending@.len() ==> #[trigger] after.pending@[i] == before.pending@[i
                + 1],
        removal.hook == before.pending@[at].hook,
        before.pending@.len() == 1 ==> removal.ldr_hook == before.ldr_hook && after.ldr_hook
            is None,
        before.pending@.len() > 1 ==> removal.ldr_hook is None && after.ldr_hook
            == before.ldr_hook,
        after.next_id == before.next_id,
{
    lemma_request_is_found(before, id, 0, at);
}

/// The request with a number is found.
proof fn lemma_request_is_found(manager: DelayManager, id: u64, from: int, at: int)
    requires
        manager.wf(),
        0 <= from <= at < manager.pending@.len(),
        manager.pending@[at].id == id,
    ensures
        position(manager.pending@, id, from) == Some(at),
    decreases at - from,
{
    if from < at {
        assert(manager.pending@[from].id != manager.pending@[at].id);
        lemma_request_is_found(manager, id, from + 1, at);
    }
}

/// Code is measured only where it can be read, and only as far.
pub proof fn lemma_unreadable_code_is_not_measured(
    arch: Arch,
    regions: Seq<MemoryRegion>,
    index: int,
    address: u64,
    min_size: int,
)
    requires
        reports(regions, index, address as int),
        regions[index].base + regions[index].size < limit(arch),
        min_size > 0,
    ensures
        regions[index].state != 0x1000 || regions[index].protect & 0xee == 0 ==> instruction_len(
            arch,
            regions,
            address,
            min_size,
        ) == Err::<int, DisasmError>(DisasmError::Unreadable),
        regions[index].state == 0x1000 && regions[index].protect & 0xee != 0 && address + min_size
            > regions[index].base + regions[index].size ==> instruction_len(
            arch,
            regions,
            address,
            min_size,
        ) == Err::<int, DisasmError>(DisasmError::TooFewBytes),
{
    lemma_query_reports(regions, address as int);
}

/// Code is moved only as a whole: not where one of its instructions is invalid, where the
/// encoder fails, or where it leaves one instruction out.
pub proof fn lemma_code_is_moved_as_a_whole(
    list: Seq<DecodedInstruction>,
    encoded: Result<(Seq<u8>, Seq<u32>), Seq<char>>,
    result: Result<RelocationMapping, DisasmError>,
    i: int,
)
    requires
        relocation_of(list, encoded, result),
        0 <= i < list.len(),
    ensures
        list[i].invalid ==> result is Err,
        encoded is Err ==> result is Err,
        encoded matches Ok((code, offsets)) ==> {
            &&& offsets.len() < list.len() ==> result is Err
            &&& i < offsets.len() && offsets[i] == u32::MAX ==> result is Err
            &&& result matches Ok(mapping) ==> mapping.code@ == code && mapping.written_len
                == code.len() && mapping.new_instruction_offsets@.len() == list.len()
                && mapping.new_instruction_offsets@[i] == offsets[i]
        },
{
    if list[i].invalid {
        lemma_invalid_is_refused(list, 0, i);
    }
    if encoded is Ok && result is Ok {
        let (code, offsets) = encoded->Ok_0;
        let kept = offsets.subrange(0, list.len() as int);
        assert(kept[i] == offsets[i]);
        assert(!kept.contains(u32::MAX));
    } else if encoded is Ok {
        let (code, offsets) = encoded->Ok_0;
        if i < offsets.len() && list.len() <= offsets.len() {
            assert(offsets.subrange(0, list.len() as int)[i] == offsets[i]);
        }
    }
}

/// An invalid instruction is refused wherever it stands.
proof fn lemma_invalid_is_refused(list: Seq<DecodedInstruction>, at: int, i: int)
    requires
        0 <= at <= i < list.len(),
        list[i].invalid,
    ensures
        crate::disasm::relocation_refusal(list, at) is Some,
    decreases i - at,
{
    if at < i {
        lemma_invalid_is_refused(list, at + 1, i);
    }
}

} // verus!
