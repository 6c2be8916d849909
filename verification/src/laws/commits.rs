//! Laws of a commit and of its rollback: what is recorded before it is changed, what is
//! installed, and in which order everything is put back.
use vstd::prelude::*;

use crate::inline::{redirected, stack_redirects, StackRedirect, TargetKind, ThreadState};
use crate::mem::CodeWrite;
use crate::transaction::{
    Commit, CommitAction, Committed, GatewayRegistry, Hook, InlineHook,
    Rollback, TransactionCore,
};
use crate::DetourError;

verus! {

/// A thread in stolen code is moved to the place of its instruction, with what it had
/// before recorded first; a thread elsewhere keeps its instruction pointer. A thread whose
/// place is unknown fails the commit.
pub proof fn lemma_thread_is_recorded_before_it_is_moved(
    core: &mut TransactionCore,
    run: &mut Commit,
    state: ThreadState,
    result: Result<(), DetourError>,
)
    requires
        old(run).wf(*old(core)),
        old(run).queue@.len() > 0,
        old(run).queue@[0] is Inline,
        call_ensures(TransactionCore::thread_inspected, (core, run, Some(state)), result),
    ensures
        ({
            let data = old(run).queue@[0]->Inline_0;
            let handle = old(core).threads@[old(run).thread as int];
            let place = redirected(old(core).arch, data, state.ip);
            let stolen = data.target <= state.ip < data.target + data.stolen_len;
            &&& result is Err <==> stolen && place is None
            &&& result is Err ==> final(core).redirected_threads@ == old(core).redirected_threads@
            &&& result is Ok ==> {
                &&& final(run).redirect matches Some(change) && change.ip == place && change.stack@
                    == stack_redirects(
                    old(core).arch,
                    data,
                    state.sp,
                    state.stack@,
                    state.stack@.len() as int,
                )
                &&& place is Some ==> final(core).redirected_threads@ == old(
                    core,
                ).redirected_threads@.push((handle, state.ip))
                &&& place is None ==> final(core).redirected_threads@ == old(
                    core,
                ).redirected_threads@
            }
            &&& final(core).threads@ == old(core).threads@
            &&& final(run).queue@ == old(run).queue@
            &&& final(run).installed@ == old(run).installed@
        }),
{
}

/// Every stack slot that is changed is recorded with its thread and the value before, in
/// the order of the changes; then the next thread is looked at.
pub proof fn lemma_changed_slots_are_recorded(
    core: &mut TransactionCore,
    run: &mut Commit,
    changed: bool,
    result: Result<(), DetourError>,
    i: int,
)
    requires
        old(run).wf(*old(core)),
        old(run).redirect is Some,
        call_ensures(TransactionCore::thread_redirected, (core, run, changed), result),
    ensures
        ({
            let change = old(run).redirect->0;
            let handle = old(core).threads@[old(run).thread as int];
            let before = old(core).redirected_stacks@;
            let after = final(core).redirected_stacks@;
            &&& result is Err <==> change.ip is Some && !changed
            &&& result is Err ==> after == before
            &&& result is Ok ==> {
                &&& after.len() == before.len() + change.stack@.len()
                &&& 0 <= i < before.len() ==> after[i] == before[i]
                &&& 0 <= i < change.stack@.len() ==> after[before.len() + i] == (
                    handle,
                    change.stack@[i].address,
                    change.stack@[i].old,
                )
                &&& final(run).thread == old(run).thread + 1
            }
            &&& final(run).redirect is None
        }),
{
    if result is Ok {
        let change = old(run).redirect->0;
        let handle = old(core).threads@[old(run).thread as int];
        let listed = change.stack@.map_values(
            |slot: StackRedirect| (handle, slot.address, slot.old),
        );
        assert(final(core).redirected_stacks@ == old(core).redirected_stacks@ + listed);
        assert(listed.len() == change.stack@.len());
    }
}

/// A patched hook is installed behind those before it, with all that its removal needs,
/// and its trampoline becomes a gateway in place of the one that it was put on; a failed
/// patch changes nothing.
pub proof fn lemma_patched_hook_is_installed(
    core: &mut TransactionCore,
    run: &mut Commit,
    gateways: &mut GatewayRegistry,
    written: bool,
    result: Result<(), DetourError>,
)
    requires
        old(run).wf(*old(core)),
        old(run).queue@.len() > 0,
        old(run).queue@[0] is Inline,
        call_ensures(TransactionCore::apply_inline_hook, (core, run, gateways, written), result),
    ensures
        written <==> result is Ok,
        !written ==> *final(run) == *old(run) && final(gateways)@ == old(gateways)@,
        written ==> {
            let data = old(run).queue@[0]->Inline_0;
            &&& final(run).queue@ == old(run).queue@.drop_first()
            &&& final(run).installed@.len() == old(run).installed@.len() + 1
            &&& final(run).order@.last() == CommitAction::Installed
            &&& final(run).thread == 0
            &&& final(run).installed@.last() matches Hook::Inline(hook) && {
                &&& hook.target == data.target
                &&& hook.orig_bytes@ == data.orig_bytes@
                &&& hook.patch@ == data.patch()
                &&& hook.stolen_len == data.stolen_len
                &&& hook.trampoline == data.trampoline
                &&& hook.enabled && hook.active
            }
            &&& final(gateways)@.contains(data.trampoline.ptr)
            &&& data.target_kind == TargetKind::ManagedGateway && data.target
                != data.trampoline.ptr ==> !final(gateways)@.contains(data.target)
            &&& forall|other: u64|
                other != data.target && other != data.trampoline.ptr ==> (
                #[trigger] final(gateways)@.contains(other) <==> old(gateways)@.contains(other))
        },
        *final(core) == *old(core),
{
}

/// A finished commit hands out all that it installed and lets all threads go on.
pub proof fn lemma_finished_commit_hands_out_its_hooks(
    core: &mut TransactionCore,
    run: Commit,
    done: Committed,
)
    requires
        call_ensures(TransactionCore::finish, (core, run), done),
    ensures
        done.hooks@ == run.installed@,
        done.detached@ == run.detached@,
        done.resume@ == old(core).threads@,
        final(core).threads@.len() == 0,
        !final(core).is_pending,
{
}

/// A rollback puts everything back in the opposite order: the threads and the stack slots
/// that were changed, and the hooks that were installed or removed; then all threads go
/// on. The error names the hook that failed by its place in the queue.
pub proof fn lemma_rollback_goes_backwards(
    core: &mut TransactionCore,
    run: Commit,
    error: DetourError,
    undo: Rollback,
    i: int,
)
    requires
        call_ensures(TransactionCore::rollback, (core, run, error), undo),
    ensures
        ({
            let threads = old(core).redirected_threads@;
            let stacks = old(core).redirected_stacks@;
            let hooks = run.installed@;
            let order = run.order@;
            &&& undo.threads@.len() == threads.len()
            &&& 0 <= i < threads.len() ==> undo.threads@[i] == threads[threads.len() - 1 - i]
            &&& undo.stacks@.len() == stacks.len()
            &&& 0 <= i < stacks.len() ==> undo.stacks@[i] == stacks[stacks.len() - 1 - i]
            &&& undo.hooks@.len() == hooks.len()
            &&& 0 <= i < hooks.len() ==> undo.hooks@[i] == hooks[hooks.len() - 1 - i]
            &&& undo.order@.len() == order.len()
            &&& 0 <= i < order.len() ==> undo.order@[i] == order[order.len() - 1 - i]
        }),
        undo.resume@ == old(core).threads@,
        undo.index == run.installed@.len() + run.detached@.len(),
        undo.error == error,
{
}

/// An inline hook is removed by its own bytes at its own target, and switched by its patch
/// and by those bytes.
pub proof fn lemma_inline_hook_writes_back_its_bytes(
    hook: &InlineHook,
    write: Result<CodeWrite, DetourError>,
    enable: bool,
    switch: Option<CodeWrite>,
)
    requires
        call_ensures(InlineHook::perform_unhook, (hook,), write),
        call_ensures(InlineHook::toggle_write, (hook, enable), switch),
    ensures
        write is Ok <==> hook.target != 0 && hook.orig_bytes@.len() == hook.stolen_len,
        write matches Ok(edit) ==> edit.address == hook.target && edit.bytes@ == hook.orig_bytes@,
        switch is Some <==> hook.enabled != enable,
        switch matches Some(edit) ==> edit.address == hook.target && edit.bytes@ == (if enable {
            hook.patch@
        } else {
            hook.orig_bytes@
        }),
{
}

} // verus!
