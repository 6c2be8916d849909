//! Transactions as callers see them.
use vstd::prelude::*;

use crate::arch::Arch;
use crate::dump::description;
use crate::memory::{MemoryMap, MemoryRegion};
use crate::scan::{
    module_match, parses_to, scan_module_by_name, FoundModule, Pattern, PatternError,
};
use crate::transaction::{
    aborted, commit_begun, detach_queued, export_attached, import_attached, inline_attached,
    instance_attached, table_attached, thread_updated, AttachedInline, Commit, Committed,
    GatewayRegistry, Rollback, TransactionCore,
};
use crate::DetourError;

verus! {

/// A transaction: hooks are queued in it and then installed together, or not at
/// all. A transaction that was committed or aborted is over.
#[derive(Debug)]
pub struct DetourTransaction {
    pub inner: Option<TransactionCore>,
}

/// What a byte signature resolves to in a module.
pub open spec fn resolved_pattern(
    arch: Arch,
    regions: Seq<MemoryRegion>,
    module: Option<FoundModule<'_>>,
    parsed: Result<Pattern, PatternError>,
) -> Result<u64, DetourError> {
    match parsed {
        Err(error) => Err(DetourError::Pattern(error)),
        Ok(pattern) => match module {
            None => Err(DetourError::PatternNotFound),
            Some(image) => match module_match(arch, regions, image.mapped@, image.base, pattern) {
                Some(target) => Ok(target),
                None => Err(DetourError::PatternNotFound),
            },
        },
    }
}

/// Returns where a byte signature matches first in a module.
pub fn resolve_pattern(
    arch: Arch,
    map: &MemoryMap,
    module: Option<FoundModule<'_>>,
    pattern: &str,
) -> (target: Result<u64, DetourError>)
    ensures
        exists|parsed: Result<Pattern, PatternError>| #[trigger]
            parses_to(pattern@, parsed) && target == resolved_pattern(arch, map@, module, parsed),
{
    let parsed = Pattern::parse(pattern);
    let ghost result = parsed;
    assert(parses_to(pattern@, result));
    match parsed {
        Err(error) => Err(DetourError::from(error)),
        Ok(signature) => match scan_module_by_name(arch, map, module, &signature) {
            Some(target) => Ok(target),
            None => Err(DetourError::PatternNotFound),
        },
    }
}

impl DetourTransaction {
    /// Whether the transaction, if it is not over, is in order.
    pub open spec fn wf(self) -> bool {
        self.inner matches Some(core) ==> core.wf()
    }

    /// Begins a transaction.
    pub fn begin(arch: Arch) -> (transaction: DetourTransaction)
        ensures
            transaction.wf(),
            transaction.inner matches Some(core) && core.arch == arch && core.is_pending
                && core.threads@.len() == 0 && core.pending_hooks@.len() == 0,
    {
        DetourTransaction { inner: Some(TransactionCore::begin(arch)) }
    }

    /// Tracks a thread that was suspended for the transaction.
    pub fn update_thread(&mut self, thread_id: u32, calling_thread: u32, suspended: Option<u64>) -> (
    result: Result<(), DetourError>)
        requires
            old(self).wf(),
        ensures
            final(self).wf(),
            match (old(self).inner, final(self).inner) {
                (Some(before), Some(after)) => thread_updated(
                    before,
                    after,
                    thread_id,
                    calling_thread,
                    suspended,
                    result,
                ),
                (None, None) => result == Err::<(), DetourError>(DetourError::NotStarted),
                _ => false,
            },
    {
        match &mut self.inner {
            Some(core) => core.update_thread(thread_id, calling_thread, suspended),
            None => Err(DetourError::NotStarted),
        }
    }

    /// Queues an inline hook.
    pub fn attach(
        &mut self,
        map: &MemoryMap,
        gateways: &GatewayRegistry,
        target: u64,
        detour: u64,
        trampoline: Option<u64>,
    ) -> (result: Result<AttachedInline, DetourError>)
        requires
            old(self).wf(),
        ensures
            final(self).wf(),
            match (old(self).inner, final(self).inner) {
                (Some(before), Some(after)) => inline_attached(
                    before,
                    after,
                    map@,
                    gateways@,
                    target,
                    detour,
                    trampoline,
                    result,
                ),
                (None, None) => result == Err::<AttachedInline, DetourError>(
                    DetourError::NotStarted,
                ),
                _ => false,
            },
    {
        match &mut self.inner {
            Some(core) => core.attach(map, gateways, target, detour, trampoline),
            None => Err(DetourError::NotStarted),
        }
    }

    /// Queues an inline hook of the first match of a byte signature in a module.
    /// `trampoline` was allocated near that match, which [`resolve_pattern`]
    /// returns.
    pub fn attach_pattern(
        &mut self,
        arch: Arch,
        map: &MemoryMap,
        gateways: &GatewayRegistry,
        module: Option<FoundModule<'_>>,
        pattern: &str,
        detour: u64,
        trampoline: Option<u64>,
    ) -> (result: Result<AttachedInline, DetourError>)
        requires
            old(self).wf(),
        ensures
            final(self).wf(),
            exists|parsed: Result<Pattern, PatternError>| #[trigger]
                parses_to(pattern@, parsed) && match resolved_pattern(arch, map@, module, parsed) {
                    Err(error) => *final(self) == *old(self) && result == Err::<
                        AttachedInline,
                        DetourError,
                    >(error),
                    Ok(target) => match (old(self).inner, final(self).inner) {
                        (Some(before), Some(after)) => inline_attached(
                            before,
                            after,
                            map@,
                            gateways@,
                            target,
                            detour,
                            trampoline,
                            result,
                        ),
                        (None, None) => result == Err::<AttachedInline, DetourError>(
                            DetourError::NotStarted,
                        ),
                        _ => false,
                    },
                },
    {
        match resolve_pattern(arch, map, module, pattern) {
            Ok(target) => self.attach(map, gateways, target, detour, trampoline),
            Err(error) => Err(error),
        }
    }

    /// Queues an inline hook of an export that was looked up by its name: `target`
    /// is its address, `None` where the module or the export was not found.
    pub fn attach_export(
        &mut self,
        map: &MemoryMap,
        gateways: &GatewayRegistry,
        target: Option<u64>,
        detour: u64,
        trampoline: Option<u64>,
    ) -> (result: Result<AttachedInline, DetourError>)
        requires
            old(self).wf(),
        ensures
            final(self).wf(),
            match target {
                None => *final(self) == *old(self) && result == Err::<AttachedInline, DetourError>(
                    DetourError::InvalidParameter,
                ),
                Some(address) => match (old(self).inner, final(self).inner) {
                    (Some(before), Some(after)) => inline_attached(
                        before,
                        after,
                        map@,
                        gateways@,
                        address,
                        detour,
                        trampoline,
                        result,
                    ),
                    (None, None) => result == Err::<AttachedInline, DetourError>(
                        DetourError::NotStarted,
                    ),
                    _ => false,
                },
            },
    {
        match target {
            Some(address) => self.attach(map, gateways, address, detour, trampoline),
            None => Err(DetourError::InvalidParameter),
        }
    }

    /// Queues the hook of an import.
    pub fn attach_iat(
        &mut self,
        map: &MemoryMap,
        mapped: &[u8],
        module: u64,
        target_dll: &str,
        target_func: &str,
        detour: u64,
    ) -> (result: Result<(), DetourError>)
        requires
            old(self).wf(),
        ensures
            final(self).wf(),
            match (old(self).inner, final(self).inner) {
                (Some(before), Some(after)) => import_attached(
                    before,
                    after,
                    map@,
                    mapped@,
                    module,
                    target_dll@,
                    target_func@,
                    detour,
                    result,
                ),
                (None, None) => result == Err::<(), DetourError>(DetourError::NotStarted),
                _ => false,
            },
    {
        match &mut self.inner {
            Some(core) => core.attach_iat(map, mapped, module, target_dll, target_func, detour),
            None => Err(DetourError::NotStarted),
        }
    }

    /// Queues the hook of an export slot.
    pub fn attach_eat(&mut self, mapped: &[u8], module: u64, target_func: &str, detour: u64) -> (
    result: Result<(), DetourError>)
        requires
            old(self).wf(),
        ensures
            final(self).wf(),
            match (old(self).inner, final(self).inner) {
                (Some(before), Some(after)) => export_attached(
                    before,
                    after,
                    mapped@,
                    module,
                    target_func@,
                    detour,
                    result,
                ),
                (None, None) => result == Err::<(), DetourError>(DetourError::NotStarted),
                _ => false,
            },
    {
        match &mut self.inner {
            Some(core) => core.attach_eat(mapped, module, target_func, detour),
            None => Err(DetourError::NotStarted),
        }
    }

    /// Queues the hook of a table slot, and returns the pointer that it holds.
    pub fn attach_vtable(&mut self, map: &MemoryMap, vtable: u64, index: usize, detour: u64) -> (
    result: Result<u64, DetourError>)
        requires
            old(self).wf(),
        ensures
            final(self).wf(),
            match (old(self).inner, final(self).inner) {
                (Some(before), Some(after)) => table_attached(
                    before,
                    after,
                    map@,
                    vtable,
                    index,
                    detour,
                    result,
                ),
                (None, None) => result == Err::<u64, DetourError>(DetourError::NotStarted),
                _ => false,
            },
    {
        match &mut self.inner {
            Some(core) => core.attach_vtable(map, vtable, index, detour),
            None => Err(DetourError::NotStarted),
        }
    }

    /// Queues the hook of a table slot of one object, and returns the pointer that
    /// it holds.
    pub fn attach_vtable_instance(
        &mut self,
        map: &MemoryMap,
        object_vptr: u64,
        index: usize,
        vtable_len: usize,
        detour: u64,
    ) -> (result: Result<u64, DetourError>)
        requires
            old(self).wf(),
        ensures
            final(self).wf(),
            match (old(self).inner, final(self).inner) {
                (Some(before), Some(after)) => instance_attached(
                    before,
                    after,
                    map@,
                    object_vptr,
                    index,
                    vtable_len,
                    detour,
                    result,
                ),
                (None, None) => result == Err::<u64, DetourError>(DetourError::NotStarted),
                _ => false,
            },
    {
        match &mut self.inner {
            Some(core) => core.attach_vtable_instance(map, object_vptr, index, vtable_len, detour),
            None => Err(DetourError::NotStarted),
        }
    }

    /// Queues the removal of an installed hook.
    pub fn detach(&mut self, handle: usize) -> (result: Result<(), DetourError>)
        requires
            old(self).wf(),
        ensures
            final(self).wf(),
            match (old(self).inner, final(self).inner) {
                (Some(before), Some(after)) => detach_queued(before, after, handle, result),
                (None, None) => result == Err::<(), DetourError>(DetourError::NotStarted),
                _ => false,
            },
    {
        match &mut self.inner {
            Some(core) => core.detach(handle),
            None => Err(DetourError::NotStarted),
        }
    }

    /// Begins to commit the transaction.
    pub fn commit(&mut self) -> (run: Result<Commit, DetourError>)
        requires
            old(self).wf(),
        ensures
            final(self).wf(),
            match (old(self).inner, final(self).inner) {
                (Some(before), Some(after)) => commit_begun(before, after, run),
                (None, None) => run == Err::<Commit, DetourError>(DetourError::NotStarted),
                _ => false,
            },
    {
        match &mut self.inner {
            Some(core) => core.commit(),
            None => Err(DetourError::NotStarted),
        }
    }

    /// Ends a commit whose hooks are all installed. The transaction is over.
    pub fn finish(&mut self, run: Commit) -> (done: Committed)
        requires
            old(self).inner matches Some(core) && run.wf(core),
            run.queue@.len() == 0,
        ensures
            final(self).inner is None,
            done.hooks@ == run.installed@,
            done.detached@ == run.detached@,
            done.resume@ == old(self).inner->0.threads@,
    {
        let mut taken: Option<TransactionCore> = None;
        std::mem::swap(&mut taken, &mut self.inner);
        match taken {
            Some(mut core) => core.finish(run),
            None => Committed { hooks: run.installed, detached: run.detached, resume: Vec::new() },
        }
    }

    /// Gives up a commit in which the current hook failed with `error`: everything
    /// that it has changed is handed out to be undone, beginning with what was
    /// changed last. The transaction is over.
    pub fn rollback(&mut self, run: Commit, error: DetourError) -> (undo: Rollback)
        requires
            old(self).inner matches Some(core) && run.wf(core),
            run.queue@.len() > 0,
        ensures
            final(self).inner is None,
            undo.wf(),
            undo.threads@ == old(self).inner->0.redirected_threads@.reverse(),
            undo.stacks@ == old(self).inner->0.redirected_stacks@.reverse(),
            undo.hooks@ == run.installed@.reverse(),
            undo.enable@ == run.detached@.reverse(),
            undo.order@ == run.order@.reverse(),
            undo.resume@ == old(self).inner->0.threads@,
            undo.index == run.installed@.len() + run.detached@.len(),
            undo.kind == run.queue@[0].spec_kind(),
            undo.error == error,
    {
        let mut taken: Option<TransactionCore> = None;
        std::mem::swap(&mut taken, &mut self.inner);
        match taken {
            Some(mut core) => core.rollback(run, error),
            None => Rollback {
                threads: Vec::new(),
                stacks: Vec::new(),
                hooks: run.installed,
                enable: run.detached,
                order: run.order,
                resume: Vec::new(),
                index: 0,
                kind: run.queue[0].kind(),
                error,
            },
        }
    }

    /// Aborts the transaction: queued hooks are discarded, and the threads that
    /// are returned are to be resumed. On a transaction that is over this has no
    /// effect.
    pub fn abort(&mut self) -> (resume: Vec<u64>)
        requires
            old(self).wf(),
        ensures
            final(self).inner is None,
            match old(self).inner {
                Some(core) => if core.is_pending {
                    resume@ == core.threads@
                } else {
                    resume@.len() == 0
                },
                None => resume@.len() == 0,
            },
    {
        let mut taken: Option<TransactionCore> = None;
        std::mem::swap(&mut taken, &mut self.inner);
        match taken {
            Some(mut core) => core.abort(),
            None => Vec::new(),
        }
    }

    /// Returns a description of the transaction, `None` where it is over. `ids` are
    /// the numbers of its threads.
    pub fn dump_state(&self, ids: &[u32]) -> (text: Option<String>)
        requires
            self.inner matches Some(core) ==> ids@.len() == core.threads@.len(),
        ensures
            match (self.inner, text) {
                (Some(core), Some(lines)) => lines@ == description(core, ids@),
                (None, None) => true,
                _ => false,
            },
    {
        match &self.inner {
            Some(core) => Some(core.dump_state(ids)),
            None => None,
        }
    }
}

} // verus!
