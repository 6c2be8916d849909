//! Detour transactions: hooks are queued, committed together, and rolled back
//! together when one of them fails.
use std::collections::HashSet;
use vstd::prelude::*;

use crate::arch::Arch;
use crate::disasm::{
    encoded_relocation, instruction_len, instructions_from, read_window, relocated, starts_within,
    window, DisasmError, Disassembler, RelocationMapping,
};
use crate::eat::{export_slot, EatHook as ExportHook, EatHookError, InstalledEat};
use crate::iat::{import_slot, IatHook as ImportHook, IatHookError};
use crate::inline::{
    choose_jump, gateway_len, gateway_stub, gateway_target, jump_type_of, managed_gateway_len,
    read_managed_gateway_target, redirect_rip_relative_threads, redirected, stack_redirects,
    write_managed_gateway_stub, InlineData, JumpType, RedirectMap, StackRedirect, TargetKind,
    ThreadRedirect, ThreadState, STACK_SCAN_DEPTH,
};
use crate::mem::{CodeWrite, CodeWriteOutcome};
use crate::memory::{mem_pointer, region_at, MemoryMap, MemoryRegion};
use crate::nearby::Trampoline;
use crate::pe::parsed;
use crate::vtable::{slot_address, slot_of, VTableHook, VTableHookError, VTableInstanceHook};
use crate::{DetourError, HookKind};

verus! {

/// The number of bytes that a trampoline for stolen instructions holds.
pub const TRAMPOLINE_CAPACITY: usize = 128;

/// Protections under which a slot or a module header can be read.
pub const SLOT_READABLE: u32 = 0x66;

/// The gateway stubs that are in place. A function whose code is one of them is
/// hooked by replacing the stub.
#[derive(Debug)]
pub struct GatewayRegistry {
    pub gateways: HashSet<u64>,
}

impl View for GatewayRegistry {
    type V = Set<u64>;

    open spec fn view(&self) -> Set<u64> {
        self.gateways@
    }
}

impl GatewayRegistry {
    /// Returns a registry without gateways.
    pub fn new() -> (registry: GatewayRegistry)
        ensures
            registry@ == Set::<u64>::empty(),
    {
        broadcast use vstd::std_specs::hash::group_hash_axioms;

        GatewayRegistry { gateways: HashSet::new() }
    }

    /// Records a gateway.
    pub fn register_managed_gateway(&mut self, gateway: u64)
        ensures
            final(self)@ == old(self)@.insert(gateway),
    {
        broadcast use vstd::std_specs::hash::group_hash_axioms;

        self.gateways.insert(gateway);
    }

    /// Forgets a gateway.
    pub fn unregister_managed_gateway(&mut self, gateway: u64)
        ensures
            final(self)@ == old(self)@.remove(gateway),
    {
        broadcast use vstd::std_specs::hash::group_hash_axioms;

        self.gateways.remove(&gateway);
    }

    /// Returns whether a gateway is recorded.
    pub fn is_managed_gateway(&self, address: u64) -> (managed: bool)
        ensures
            managed == self@.contains(address),
    {
        broadcast use vstd::std_specs::hash::group_hash_axioms;

        self.gateways.contains(&address)
    }
}

/// A hook that is queued.
#[derive(Debug)]
pub enum PendingHook {
    Inline(InlineData),
    Iat { module: u64, target_dll: String, target_func: String, detour: u64 },
    Eat { module: u64, target_func: String, detour: u64 },
    Vtable { vtable: u64, index: usize, detour: u64 },
    VtableInstance { object_vptr: u64, vtable_len: usize, index: usize, detour: u64 },
    /// The removal of an installed hook, which the caller knows by a number.
    Detach { handle: usize },
}

impl PendingHook {
    /// The kind of the hook.
    pub open spec fn spec_kind(self) -> HookKind {
        match self {
            PendingHook::Inline(_) => HookKind::Inline,
            PendingHook::Iat { .. } => HookKind::Iat,
            PendingHook::Eat { .. } => HookKind::Eat,
            PendingHook::Vtable { .. } => HookKind::Vtable,
            PendingHook::VtableInstance { .. } => HookKind::VtableInstance,
            PendingHook::Detach { .. } => HookKind::Detach,
        }
    }

    /// Returns the kind of the hook.
    pub fn kind(&self) -> (kind: HookKind)
        ensures
            kind == self.spec_kind(),
    {
        match self {
            PendingHook::Inline(_) => HookKind::Inline,
            PendingHook::Iat { .. } => HookKind::Iat,
            PendingHook::Eat { .. } => HookKind::Eat,
            PendingHook::Vtable { .. } => HookKind::Vtable,
            PendingHook::VtableInstance { .. } => HookKind::VtableInstance,
            PendingHook::Detach { .. } => HookKind::Detach,
        }
    }

    /// Whether the hook was prepared completely.
    pub open spec fn wf(self, arch: Arch) -> bool {
        self matches PendingHook::Inline(data) ==> data.wf(arch)
    }
}

/// An installed inline hook.
#[derive(Debug)]
pub struct InlineHook {
    pub target: u64,
    pub trampoline: Trampoline,
    pub stolen_len: usize,
    pub orig_bytes: Vec<u8>,
    pub patch: Vec<u8>,
    pub jump_type: JumpType,
    pub target_kind: TargetKind,
    pub active: bool,
    pub enabled: bool,
}

/// An installed import hook.
#[derive(Debug)]
pub struct IatHook {
    pub module: u64,
    pub dll_name: String,
    pub func_name: String,
    pub slot: u64,
    pub original_ptr: u64,
    pub detour: u64,
    pub active: bool,
    pub enabled: bool,
}

/// An installed detour.
#[derive(Debug)]
pub enum Hook {
    Inline(InlineHook),
    Iat(IatHook),
    Eat(InstalledEat),
    Vtable(VTableHook),
    VtableInstance(VTableInstanceHook),
}

impl Hook {
    /// Where the original function is called through.
    pub open spec fn spec_original_ptr(self) -> u64 {
        match self {
            Hook::Inline(hook) => hook.trampoline.ptr,
            Hook::Iat(hook) => hook.original_ptr,
            Hook::Eat(hook) => hook.original_ptr,
            Hook::Vtable(hook) => hook.original_ptr,
            Hook::VtableInstance(hook) => hook.original_ptr,
        }
    }

    /// Returns the address through which the original function is called: the
    /// trampoline of an inline hook, the replaced pointer of any other hook.
    pub fn original_ptr(&self) -> (pointer: u64)
        ensures
            pointer == self.spec_original_ptr(),
    {
        match self {
            Hook::Inline(hook) => hook.trampoline.ptr,
            Hook::Iat(hook) => hook.original_ptr,
            Hook::Eat(hook) => hook.original_ptr,
            Hook::Vtable(hook) => hook.original_ptr,
            Hook::VtableInstance(hook) => hook.original_ptr,
        }
    }

    /// Whether calls reach the detour.
    pub open spec fn spec_enabled(self) -> bool {
        match self {
            Hook::Inline(hook) => hook.enabled,
            Hook::Iat(hook) => hook.enabled,
            Hook::Eat(hook) => hook.enabled,
            Hook::Vtable(hook) => hook.enabled,
            Hook::VtableInstance(hook) => hook.enabled,
        }
    }

    /// Returns whether calls reach the detour.
    pub fn is_enabled(&self) -> (enabled: bool)
        ensures
            enabled == self.spec_enabled(),
    {
        match self {
            Hook::Inline(hook) => hook.enabled,
            Hook::Iat(hook) => hook.enabled,
            Hook::Eat(hook) => hook.enabled,
            Hook::Vtable(hook) => hook.enabled,
            Hook::VtableInstance(hook) => hook.enabled,
        }
    }
}

impl InlineHook {
    /// Returns the address through which the original function is called.
    pub fn original_ptr(&self) -> (pointer: u64)
        ensures
            pointer == self.trampoline.ptr,
    {
        self.trampoline.ptr
    }

    /// Whether the hook can be undone: it has a target and all of its original
    /// bytes.
    pub open spec fn undoable(self) -> bool {
        self.target != 0 && self.orig_bytes@.len() == self.stolen_len
    }

    /// Returns the write that puts the original bytes back.
    pub fn perform_unhook(&self) -> (write: Result<CodeWrite, DetourError>)
        ensures
            match write {
                Ok(edit) => self.undoable() && edit.address == self.target && edit.bytes@
                    == self.orig_bytes@,
                Err(error) => !self.undoable() && error == DetourError::InvalidParameter,
            },
    {
        if self.target == 0 || self.orig_bytes.len() != self.stolen_len {
            return Err(DetourError::InvalidParameter);
        }
        Ok(
            CodeWrite {
                address: self.target,
                bytes: crate::bytes::copy_range(&self.orig_bytes, 0, self.orig_bytes.len()),
            },
        )
    }

    /// Completes an unhook whose write came to `outcome`.
    ///
    /// A target that was a gateway is one again as soon as its bytes are back.
    /// The hook's own gateway is forgotten when everything went well; otherwise
    /// the hook stays active.
    pub fn unhook(&mut self, gateways: &mut GatewayRegistry, outcome: CodeWriteOutcome) -> (result:
        Result<(), DetourError>)
        ensures
            ({
                let restored = if outcome.written && old(self).target_kind
                    == TargetKind::ManagedGateway {
                    old(gateways)@.insert(old(self).target)
                } else {
                    old(gateways)@
                };
                match result {
                    Ok(_) => {
                        &&& old(self).undoable() && outcome.written && outcome.flushed
                            && outcome.restored
                        &&& *final(self) == (InlineHook { active: false, ..*old(self) })
                        &&& final(gateways)@ == restored.remove(old(self).trampoline.ptr)
                    },
                    Err(error) => {
                        &&& *final(self) == *old(self)
                        &&& if old(self).undoable() {
                            &&& !(outcome.written && outcome.flushed && outcome.restored)
                            &&& error == DetourError::RelocationFailed
                            &&& final(gateways)@ == restored
                        } else {
                            &&& error == DetourError::InvalidParameter
                            &&& final(gateways)@ == old(gateways)@
                        }
                    },
                }
            }),
    {
        if self.target == 0 || self.orig_bytes.len() != self.stolen_len {
            return Err(DetourError::InvalidParameter);
        }
        if !outcome.written {
            return Err(DetourError::RelocationFailed);
        }
        if self.target_kind == TargetKind::ManagedGateway {
            gateways.register_managed_gateway(self.target);
        }
        if !outcome.flushed || !outcome.restored {
            return Err(DetourError::RelocationFailed);
        }
        gateways.unregister_managed_gateway(self.trampoline.ptr);
        self.active = false;
        Ok(())
    }

    /// Returns the write that disables or enables the hook, `None` where it is
    /// disabled or enabled already.
    pub fn toggle_write(&self, enable: bool) -> (write: Option<CodeWrite>)
        ensures
            match write {
                Some(edit) => {
                    &&& self.enabled != enable
                    &&& edit.address == self.target
                    &&& edit.bytes@ == if enable {
                        self.patch@
                    } else {
                        self.orig_bytes@
                    }
                },
                None => self.enabled == enable,
            },
    {
        if self.enabled == enable {
            return None;
        }
        let bytes: Vec<u8> = if enable {
            crate::bytes::copy_range(&self.patch, 0, self.patch.len())
        } else {
            crate::bytes::copy_range(&self.orig_bytes, 0, self.orig_bytes.len())
        };
        assert(self.patch@.subrange(0, self.patch@.len() as int) =~= self.patch@);
        assert(self.orig_bytes@.subrange(0, self.orig_bytes@.len() as int) =~= self.orig_bytes@);
        Some(CodeWrite { address: self.target, bytes })
    }

    /// Completes a disable or an enable.
    pub fn toggled(&mut self, enable: bool, outcome: CodeWriteOutcome) -> (result: Result<
        (),
        DetourError,
    >)
        ensures
            old(self).enabled == enable ==> result == Ok::<(), DetourError>(()) && *final(self)
                == *old(self),
            old(self).enabled != enable && outcome.written ==> result == Ok::<(), DetourError>(())
                && *final(self) == (InlineHook { enabled: enable, ..*old(self) }),
            old(self).enabled != enable && !outcome.written ==> result == Err::<(), DetourError>(
                DetourError::RelocationFailed,
            ) && *final(self) == *old(self),
    {
        if self.enabled == enable {
            return Ok(());
        }
        if !outcome.written {
            return Err(DetourError::RelocationFailed);
        }
        self.enabled = enable;
        Ok(())
    }
}

/// What a queued inline hook asks for: the gateway through which the original
/// function will be called, and the bytes to write there.
#[derive(Debug)]
pub struct AttachedInline {
    pub gateway: u64,
    pub write: CodeWrite,
}

/// A transaction: the threads that it holds suspended, and the hooks that are
/// queued.
#[derive(Debug)]
pub struct TransactionCore {
    pub arch: Arch,
    pub threads: Vec<u64>,
    pub pending_hooks: Vec<PendingHook>,
    pub is_pending: bool,
    /// The threads whose instruction pointer was changed, with the pointer
    /// before.
    pub redirected_threads: Vec<(u64, u64)>,
    /// The stack slots that were changed: thread, address, and the value before.
    pub redirected_stacks: Vec<(u64, u64, u64)>,
}

/// Whether two states of a transaction differ in the queued hooks only.
pub open spec fn only_queue_changed(before: TransactionCore, after: TransactionCore) -> bool {
    &&& after.arch == before.arch
    &&& after.threads == before.threads
    &&& after.is_pending == before.is_pending
    &&& after.redirected_threads == before.redirected_threads
    &&& after.redirected_stacks == before.redirected_stacks
}

/// Tracking a thread: what it does and what it returns.
pub open spec fn thread_updated(
    before: TransactionCore,
    after: TransactionCore,
    thread_id: u32,
    calling_thread: u32,
    suspended: Option<u64>,
    result: Result<(), DetourError>,
) -> bool {
    &&& match result {
        Ok(_) => {
            &&& before.is_pending
            &&& after.threads@ == if thread_id != 0 && thread_id != calling_thread
                && suspended is Some {
                before.threads@.push(suspended->0)
            } else {
                before.threads@
            }
        },
        Err(error) => {
            &&& !before.is_pending && error == DetourError::NotStarted
            &&& after.threads@ == before.threads@
        },
    }
    &&& after.arch == before.arch
    &&& after.pending_hooks == before.pending_hooks
    &&& after.is_pending == before.is_pending
    &&& after.redirected_threads == before.redirected_threads
    &&& after.redirected_stacks == before.redirected_stacks
}

/// Queueing an inline hook: what it does and what it returns.
pub open spec fn inline_attached(
    before: TransactionCore,
    after: TransactionCore,
    regions: Seq<MemoryRegion>,
    gateways: Set<u64>,
    target: u64,
    detour: u64,
    trampoline: Option<u64>,
    result: Result<AttachedInline, DetourError>,
) -> bool {
    &&& only_queue_changed(before, after)
    &&& result is Err ==> after == before
    &&& attach_result(
        before.arch,
        regions,
        gateways,
        before.is_pending,
        target,
        detour,
        trampoline,
    ) == (match result {
        Ok(attached) => Ok::<(u64, Seq<u8>), DetourError>(
            (attached.gateway, attached.write.bytes@),
        ),
        Err(error) => Err::<(u64, Seq<u8>), DetourError>(error),
    })
    &&& result matches Ok(attached) ==> {
        &&& attached.write.address == attached.gateway
        &&& after.pending_hooks@.len() == before.pending_hooks@.len() + 1
        &&& after.pending_hooks@.drop_last() == before.pending_hooks@
        &&& after.pending_hooks@.last() matches PendingHook::Inline(data) && queued(
            before.arch,
            regions,
            gateways,
            target,
            detour,
            attached.gateway,
            data,
        )
    }
}

/// Queueing the hook of an import: what it does and what it returns.
pub open spec fn import_attached(
    before: TransactionCore,
    after: TransactionCore,
    regions: Seq<MemoryRegion>,
    mapped: Seq<u8>,
    module: u64,
    target_dll: Seq<char>,
    target_func: Seq<char>,
    detour: u64,
    result: Result<(), DetourError>,
) -> bool {
    &&& only_queue_changed(before, after)
    &&& match result {
        Ok(_) => {
            &&& before.is_pending
            &&& queryable(regions, module as int)
            &&& import_slot(before.arch, mapped, module, target_dll, target_func)
                is Ok
            &&& after.pending_hooks@.len() == before.pending_hooks@.len() + 1
            &&& after.pending_hooks@.drop_last() == before.pending_hooks@
            &&& after.pending_hooks@.last() matches PendingHook::Iat {
                module: m,
                target_dll: dll,
                target_func: func,
                detour: d,
            } && m == module && dll@ == target_dll && func@ == target_func && d == detour
        },
        Err(error) => {
            &&& after == before
            &&& if !before.is_pending {
                error == DetourError::NotStarted
            } else if !queryable(regions, module as int) {
                error == DetourError::InvalidParameter
            } else {
                import_slot(
                    before.arch,
                    mapped,
                    module,
                    target_dll,
                    target_func,
                ) matches Err(reason) && error == DetourError::Iat(
                    crate::iat::mapped_error(reason),
                )
            }
        },
    }
}

/// Queueing the hook of an export: what it does and what it returns.
pub open spec fn export_attached(
    before: TransactionCore,
    after: TransactionCore,
    mapped: Seq<u8>,
    module: u64,
    target_func: Seq<char>,
    detour: u64,
    result: Result<(), DetourError>,
) -> bool {
    &&& only_queue_changed(before, after)
    &&& match result {
        Ok(_) => {
            &&& before.is_pending
            &&& parsed(before.arch, mapped, module) matches Ok(image) && export_slot(
                before.arch,
                image,
                mapped,
                target_func,
            ) is Ok
            &&& after.pending_hooks@.len() == before.pending_hooks@.len() + 1
            &&& after.pending_hooks@.drop_last() == before.pending_hooks@
            &&& after.pending_hooks@.last() matches PendingHook::Eat {
                module: m,
                target_func: func,
                detour: d,
            } && m == module && func@ == target_func && d == detour
        },
        Err(error) => {
            &&& after == before
            &&& if !before.is_pending {
                error == DetourError::NotStarted
            } else {
                match parsed(before.arch, mapped, module) {
                    Err(reason) => error == DetourError::Eat(
                        crate::eat::image_error(reason),
                    ),
                    Ok(image) => export_slot(
                        before.arch,
                        image,
                        mapped,
                        target_func,
                    ) matches Err(reason) && error == DetourError::Eat(reason),
                }
            }
        },
    }
}

/// Queueing the hook of a table slot: what it does and what it returns.
pub open spec fn table_attached(
    before: TransactionCore,
    after: TransactionCore,
    regions: Seq<MemoryRegion>,
    vtable: u64,
    index: usize,
    detour: u64,
    result: Result<u64, DetourError>,
) -> bool {
    &&& only_queue_changed(before, after)
    &&& ({
        let arch = before.arch;
        let slot = slot_address(arch, vtable, index);
        match result {
            Ok(original) => {
                &&& before.is_pending && vtable != 0 && detour != 0
                &&& queryable(regions, slot as int)
                &&& mem_pointer(arch, regions, slot) == Some(original)
                &&& after.pending_hooks@ == before.pending_hooks@.push(
                    PendingHook::Vtable { vtable, index, detour },
                )
            },
            Err(error) => {
                &&& after == before
                &&& if !before.is_pending {
                    error == DetourError::NotStarted
                } else {
                    &&& error == DetourError::InvalidParameter
                    &&& vtable == 0 || detour == 0 || !queryable(regions, slot as int)
                        || mem_pointer(arch, regions, slot) is None
                }
            },
        }
    })
}

/// Queueing the hook of one object: what it does and what it returns.
pub open spec fn instance_attached(
    before: TransactionCore,
    after: TransactionCore,
    regions: Seq<MemoryRegion>,
    object_vptr: u64,
    index: usize,
    vtable_len: usize,
    detour: u64,
    result: Result<u64, DetourError>,
) -> bool {
    &&& only_queue_changed(before, after)
    &&& ({
        let arch = before.arch;
        let table = mem_pointer(arch, regions, object_vptr);
        match result {
            Ok(original) => {
                &&& before.is_pending && object_vptr != 0 && detour != 0
                &&& index < vtable_len
                &&& table matches Some(vtable) && vtable != 0 && mem_pointer(
                    arch,
                    regions,
                    slot_address(arch, vtable, index),
                ) == Some(original)
                &&& after.pending_hooks@ == before.pending_hooks@.push(
                    PendingHook::VtableInstance { object_vptr, vtable_len, index, detour },
                )
            },
            Err(error) => {
                &&& after == before
                &&& if !before.is_pending {
                    error == DetourError::NotStarted
                } else {
                    &&& error == DetourError::InvalidParameter
                    &&& object_vptr == 0 || detour == 0 || index >= vtable_len || match table {
                        Some(vtable) => vtable == 0 || mem_pointer(
                            arch,
                            regions,
                            slot_address(arch, vtable, index),
                        ) is None,
                        None => true,
                    }
                }
            },
        }
    })
}

/// Queueing the removal of an installed hook: what it does and what it returns.
pub open spec fn detach_queued(
    before: TransactionCore,
    after: TransactionCore,
    handle: usize,
    result: Result<(), DetourError>,
) -> bool {
    &&& only_queue_changed(before, after)
    &&& if before.is_pending {
        &&& result == Ok::<(), DetourError>(())
        &&& after.pending_hooks@ == before.pending_hooks@.push(PendingHook::Detach { handle })
    } else {
        result == Err::<(), DetourError>(DetourError::NotStarted) && after == before
    }
}

/// Aborting a transaction: what it does and what it returns.
pub open spec fn aborted(
    before: TransactionCore,
    after: TransactionCore,
    resume: Vec<u64>,
) -> bool {
    &&& !after.is_pending
    &&& after.arch == before.arch
    &&& after.redirected_threads == before.redirected_threads
    &&& after.redirected_stacks == before.redirected_stacks
    &&& if before.is_pending {
        &&& resume@ == before.threads@
        &&& after.threads@.len() == 0
        &&& after.pending_hooks@.len() == 0
    } else {
        resume@.len() == 0 && after == before
    }
}

/// Beginning to commit: what it does and what it returns.
pub open spec fn commit_begun(
    before: TransactionCore,
    after: TransactionCore,
    run: Result<Commit, DetourError>,
) -> bool {
    &&& after.arch == before.arch
    &&& after.threads == before.threads
    &&& after.is_pending == before.is_pending
    &&& after.redirected_threads == before.redirected_threads
    &&& after.redirected_stacks == before.redirected_stacks
    &&& match run {
        Ok(begun) => {
            &&& before.is_pending
            &&& begun.wf(after)
            &&& begun.queue@ == before.pending_hooks@
            &&& begun.installed@.len() == 0 && begun.detached@.len() == 0
            &&& begun.order@.len() == 0
            &&& begun.thread == 0 && begun.redirect is None
            &&& after.pending_hooks@.len() == 0
        },
        Err(error) => {
            &&& !before.is_pending && error == DetourError::NotStarted
            &&& after == before
        },
    }
}

/// Whether `address` can be queried and its protection allows reading.
pub open spec fn queryable(regions: Seq<MemoryRegion>, address: int) -> bool {
    region_at(regions, address) matches Some(region) && region.protect & SLOT_READABLE != 0
}

/// Returns whether `address` can be queried and its protection allows reading.
fn is_queryable(map: &MemoryMap, address: u64) -> (ok: bool)
    ensures
        ok == queryable(map@, address as int),
{
    match map.query(address) {
        Some(index) => map.regions[index].protect & SLOT_READABLE != 0,
        None => false,
    }
}

impl TransactionCore {
    /// Whether every queued hook was prepared completely.
    pub open spec fn wf(self) -> bool {
        forall|i: int|
            0 <= i < self.pending_hooks@.len() ==> (#[trigger] self.pending_hooks@[i]).wf(self.arch)
    }

    /// Begins a transaction.
    pub fn begin(arch: Arch) -> (core: TransactionCore)
        ensures
            core.wf(),
            core.arch == arch,
            core.is_pending,
            core.threads@.len() == 0,
            core.pending_hooks@.len() == 0,
            core.redirected_threads@.len() == 0,
            core.redirected_stacks@.len() == 0,
    {
        TransactionCore {
            arch,
            threads: Vec::new(),
            pending_hooks: Vec::new(),
            is_pending: true,
            redirected_threads: Vec::new(),
            redirected_stacks: Vec::new(),
        }
    }

    /// Returns whether a thread is to be suspended for the transaction: not the
    /// calling thread, and not the thread number 0.
    pub fn wants_thread(&self, thread_id: u32, calling_thread: u32) -> (wants: bool)
        ensures
            wants == (self.is_pending && thread_id != 0 && thread_id != calling_thread),
    {
        self.is_pending && thread_id != 0 && thread_id != calling_thread
    }

    /// Tracks the thread `thread_id`, which was suspended under the handle
    /// `suspended`. A thread that could not be opened or suspended is skipped.
    pub fn update_thread(&mut self, thread_id: u32, calling_thread: u32, suspended: Option<u64>) -> (
    result: Result<(), DetourError>)
        requires
            old(self).wf(),
        ensures
            final(self).wf(),
            thread_updated(*old(self), *final(self), thread_id, calling_thread, suspended, result),
    {
        if !self.is_pending {
            return Err(DetourError::NotStarted);
        }
        if thread_id == 0 || thread_id == calling_thread {
            return Ok(());
        }
        match suspended {
            Some(handle) => {
                self.threads.push(handle);
            },
            None => {},
        }
        Ok(())
    }

    /// Returns how many bytes of trampoline memory the hook of `target` needs.
    pub fn trampoline_capacity(&self, gateways: &GatewayRegistry, target: u64) -> (capacity: u64)
        ensures
            capacity == if gateways@.contains(target) {
                64
            } else {
                TRAMPOLINE_CAPACITY as u64
            },
    {
        if gateways.is_managed_gateway(target) {
            64
        } else {
            TRAMPOLINE_CAPACITY as u64
        }
    }

    /// Queues the hook of a gateway stub: `code` is the stub at `target`, and
    /// `trampoline` the memory for the stub that replaces it.
    pub fn queue_gateway(&mut self, target: u64, detour: u64, code: Vec<u8>, trampoline: Option<u64>) -> (
    result: Result<AttachedInline, DetourError>)
        requires
            old(self).wf(),
            target != 0,
            detour != 0,
            target + code@.len() <= u64::MAX,
        ensures
            final(self).wf(),
            only_queue_changed(*old(self), *final(self)),
            ({
                let arch = old(self).arch;
                let whole = code@.len() == gateway_len(arch);
                match result {
                    Ok(attached) => {
                        &&& whole
                        &&& trampoline == Some(attached.gateway)
                        &&& attached.write.address == attached.gateway
                        &&& gateway_target(arch, target, code@) matches Some(previous)
                            && attached.write.bytes@ == gateway_stub(
                            arch,
                            attached.gateway,
                            previous,
                        )
                        &&& final(self).pending_hooks@.len() == old(self).pending_hooks@.len() + 1
                        &&& final(self).pending_hooks@.drop_last() == old(self).pending_hooks@
                        &&& final(self).pending_hooks@.last() matches PendingHook::Inline(data) && {
                            &&& data.target == target && data.detour == detour
                            &&& data.trampoline.ptr == attached.gateway
                            &&& data.trampoline.size == 64
                            &&& data.redirect_base == attached.gateway
                            &&& data.stolen_len == gateway_len(arch)
                            &&& data.jump_type == jump_type_of(arch, target, detour)
                            &&& data.orig_bytes@ == code@
                            &&& data.target_kind == TargetKind::ManagedGateway
                            &&& data.redirect_map is None
                        }
                    },
                    Err(error) => {
                        &&& *final(self) == *old(self)
                        &&& if !whole || gateway_target(arch, target, code@) is None {
                            error == DetourError::InvalidParameter
                        } else {
                            trampoline is None && error == DetourError::AllocationFailed
                        }
                    },
                }
            }),
    {
        let len: usize = managed_gateway_len(self.arch);
        if code.len() != len {
            return Err(DetourError::InvalidParameter);
        }
        let previous: u64 = match read_managed_gateway_target(self.arch, target, &code) {
            Some(previous) => previous,
            None => {
                return Err(DetourError::InvalidParameter);
            },
        };
        let gateway: u64 = match trampoline {
            Some(gateway) => gateway,
            None => {
                return Err(DetourError::AllocationFailed);
            },
        };
        let bytes = write_managed_gateway_stub(self.arch, gateway, previous);
        let data = InlineData {
            target,
            detour,
            trampoline: Trampoline { ptr: gateway, size: 64 },
            redirect_base: gateway,
            stolen_len: len,
            jump_type: choose_jump(self.arch, target, detour),
            orig_bytes: code,
            target_kind: TargetKind::ManagedGateway,
            redirect_map: None,
        };
        self.pending_hooks.push(PendingHook::Inline(data));
        assert(self.pending_hooks@.drop_last() =~= old(self).pending_hooks@);
        Ok(AttachedInline { gateway, write: CodeWrite { address: gateway, bytes } })
    }

    /// Queues the hook of a function: `code` holds its stolen bytes, and
    /// `relocation` is what relocating them behind a gateway stub at `trampoline`
    /// came to.
    pub fn queue_relocated(
        &mut self,
        target: u64,
        detour: u64,
        code: Vec<u8>,
        trampoline: u64,
        relocation: Result<RelocationMapping, DisasmError>,
    ) -> (result: Result<AttachedInline, DetourError>)
        requires
            old(self).wf(),
            target != 0,
            detour != 0,
            target + code@.len() <= u64::MAX,
            code@.len() <= u32::MAX,
            jump_type_of(old(self).arch, target, detour).spec_len() <= code@.len(),
            relocation matches Ok(mapping) ==> {
                &&& mapping.written_len == mapping.code@.len()
                &&& mapping.old_instruction_offsets@.len() == mapping.new_instruction_offsets@.len()
                &&& !mapping.new_instruction_offsets@.contains(u32::MAX)
                &&& starts_within(mapping.code@, mapping.new_instruction_offsets@)
            },
        ensures
            final(self).wf(),
            only_queue_changed(*old(self), *final(self)),
            ({
                let arch = old(self).arch;
                let body = arch.displaced(trampoline, gateway_len(arch) as int);
                match result {
                    Ok(attached) => relocation matches Ok(mapping) && {
                        &&& gateway_len(arch) + mapping.written_len <= TRAMPOLINE_CAPACITY
                        &&& attached.gateway == trampoline
                        &&& attached.write.address == trampoline
                        &&& attached.write.bytes@ == gateway_stub(arch, trampoline, body)
                            + mapping.code@
                        &&& final(self).pending_hooks@.len() == old(self).pending_hooks@.len() + 1
                        &&& final(self).pending_hooks@.drop_last() == old(self).pending_hooks@
                        &&& final(self).pending_hooks@.last() matches PendingHook::Inline(data) && {
                            &&& data.target == target && data.detour == detour
                            &&& data.trampoline.ptr == trampoline
                            &&& data.trampoline.size == TRAMPOLINE_CAPACITY
                            &&& data.redirect_base == body
                            &&& data.stolen_len == code@.len()
                            &&& data.jump_type == jump_type_of(arch, target, detour)
                            &&& data.orig_bytes@ == code@
                            &&& data.target_kind == TargetKind::Normal
                            &&& data.redirect_map matches Some(map) && {
                                &&& map.old_instruction_offsets@ == mapping.old_instruction_offsets@
                                &&& map.new_instruction_offsets@ == mapping.new_instruction_offsets@
                            }
                        }
                    },
                    Err(error) => {
                        &&& *final(self) == *old(self)
                        &&& error == DetourError::RelocationFailed
                        &&& relocation matches Ok(mapping) ==> gateway_len(arch)
                            + mapping.written_len > TRAMPOLINE_CAPACITY
                    },
                }
            }),
    {
        let mapping = match relocation {
            Ok(mapping) => mapping,
            Err(_) => {
                return Err(DetourError::RelocationFailed);
            },
        };
        let len: usize = managed_gateway_len(self.arch);
        if mapping.written_len > TRAMPOLINE_CAPACITY - len {
            return Err(DetourError::RelocationFailed);
        }
        let body: u64 = self.arch.displace(trampoline, len as i128);
        let mut bytes = write_managed_gateway_stub(self.arch, trampoline, body);
        crate::bytes::push_all(&mut bytes, &mapping.code);
        let data = InlineData {
            target,
            detour,
            trampoline: Trampoline { ptr: trampoline, size: TRAMPOLINE_CAPACITY as u64 },
            redirect_base: body,
            stolen_len: code.len(),
            jump_type: choose_jump(self.arch, target, detour),
            orig_bytes: code,
            target_kind: TargetKind::Normal,
            redirect_map: Some(
                RedirectMap {
                    old_instruction_offsets: mapping.old_instruction_offsets,
                    new_instruction_offsets: mapping.new_instruction_offsets,
                },
            ),
        };
        self.pending_hooks.push(PendingHook::Inline(data));
        assert(self.pending_hooks@.drop_last() =~= old(self).pending_hooks@);
        Ok(AttachedInline { gateway: trampoline, write: CodeWrite { address: trampoline, bytes } })
    }

    /// Queues an inline hook of `target`.
    ///
    /// `map` holds the code of the target, and `trampoline` the memory that was
    /// allocated near it. A target that is a managed gateway is hooked by
    /// replacing its stub; of any other target, the first instructions are moved
    /// to the trampoline.
    pub fn attach(
        &mut self,
        map: &MemoryMap,
        gateways: &GatewayRegistry,
        target: u64,
        detour: u64,
        trampoline: Option<u64>,
    ) -> (result: Result<AttachedInline, DetourError>)
        requires
            old(self).wf(),
        ensures
            final(self).wf(),
            inline_attached(*old(self), *final(self), map@, gateways@, target, detour, trampoline, result),
    {
        if !self.is_pending {
            return Err(DetourError::NotStarted);
        }
        if target == 0 || detour == 0 {
            return Err(DetourError::InvalidParameter);
        }
        let arch = self.arch;
        if gateways.is_managed_gateway(target) {
            let code = read_window(arch, map, target, managed_gateway_len(arch) as u64);
            proof {
                crate::memory::lemma_find_region(map@, target as int, map@.len() as int);
            }
            return self.queue_gateway(target, detour, code, trampoline);
        }
        let jump = choose_jump(arch, target, detour);
        let stolen_len: usize = match Disassembler::get_instruction_len(
            arch,
            map,
            target,
            jump.len(),
        ) {
            Ok(stolen_len) => stolen_len,
            Err(_) => {
                return Err(DetourError::InvalidParameter);
            },
        };
        let gateway: u64 = match trampoline {
            Some(gateway) => gateway,
            None => {
                return Err(DetourError::AllocationFailed);
            },
        };
        let code = read_window(arch, map, target, stolen_len as u64);
        let body: u64 = arch.displace(gateway, managed_gateway_len(arch) as i128);
        let relocation = Disassembler::relocate(arch, &code, target, body);
        self.queue_relocated(target, detour, code, gateway, relocation)
    }
}

/// The code that a hook of `target` steals: the stub of a managed gateway, or
/// the instructions that the jump to the detour covers.
pub open spec fn stolen_code(
    arch: Arch,
    regions: Seq<MemoryRegion>,
    gateways: Set<u64>,
    target: u64,
    detour: u64,
) -> Option<Seq<u8>> {
    if gateways.contains(target) {
        let code = window(arch, regions, target as int, gateway_len(arch) as int);
        if code.len() == gateway_len(arch) && gateway_target(arch, target, code) is Some {
            Some(code)
        } else {
            None
        }
    } else {
        match instruction_len(
            arch,
            regions,
            target,
            jump_type_of(arch, target, detour).spec_len() as int,
        ) {
            Ok(len) => Some(window(arch, regions, target as int, len)),
            Err(_) => None,
        }
    }
}

/// The relocated form of the code that a hook of `target` steals, for a gateway
/// at `gateway`.
pub open spec fn moved_code(arch: Arch, code: Seq<u8>, target: u64, gateway: u64) -> Option<
    (Seq<u8>, Seq<u32>, Seq<u32>),
> {
    relocated(
        instructions_from(arch, code, target, 0),
        encoded_relocation(
            arch,
            code,
            target,
            arch.displaced(gateway, gateway_len(arch) as int),
        ),
    )
}

/// What attaching an inline hook gives: the gateway with the bytes to write
/// there, or the error.
pub open spec fn attach_result(
    arch: Arch,
    regions: Seq<MemoryRegion>,
    gateways: Set<u64>,
    is_pending: bool,
    target: u64,
    detour: u64,
    trampoline: Option<u64>,
) -> Result<(u64, Seq<u8>), DetourError> {
    if !is_pending {
        Err(DetourError::NotStarted)
    } else if target == 0 || detour == 0 {
        Err(DetourError::InvalidParameter)
    } else {
        match stolen_code(arch, regions, gateways, target, detour) {
            None => Err(DetourError::InvalidParameter),
            Some(code) => match trampoline {
                None => Err(DetourError::AllocationFailed),
                Some(gateway) => if gateways.contains(target) {
                    Ok(
                        (
                            gateway,
                            gateway_stub(arch, gateway, gateway_target(arch, target, code)->0),
                        ),
                    )
                } else {
                    match moved_code(arch, code, target, gateway) {
                        None => Err(DetourError::RelocationFailed),
                        Some((moved, _, _)) => if gateway_len(arch) + moved.len()
                            > TRAMPOLINE_CAPACITY {
                            Err(DetourError::RelocationFailed)
                        } else {
                            Ok(
                                (
                                    gateway,
                                    gateway_stub(
                                        arch,
                                        gateway,
                                        arch.displaced(gateway, gateway_len(arch) as int),
                                    ) + moved,
                                ),
                            )
                        },
                    }
                },
            },
        }
    }
}

/// Whether `data` is what a successful attach queues.
pub open spec fn queued(
    arch: Arch,
    regions: Seq<MemoryRegion>,
    gateways: Set<u64>,
    target: u64,
    detour: u64,
    gateway: u64,
    data: InlineData,
) -> bool {
    &&& data.target == target && data.detour == detour
    &&& data.trampoline.ptr == gateway
    &&& data.jump_type == jump_type_of(arch, target, detour)
    &&& stolen_code(arch, regions, gateways, target, detour) == Some(data.orig_bytes@)
    &&& data.stolen_len == data.orig_bytes@.len()
    &&& if gateways.contains(target) {
        &&& data.trampoline.size == 64
        &&& data.target_kind == TargetKind::ManagedGateway
        &&& data.redirect_base == gateway
        &&& data.redirect_map is None
    } else {
        &&& data.trampoline.size == TRAMPOLINE_CAPACITY
        &&& data.target_kind == TargetKind::Normal
        &&& data.redirect_base == arch.displaced(gateway, gateway_len(arch) as int)
        &&& moved_code(arch, data.orig_bytes@, target, gateway) matches Some((_, old_starts, new_starts))
            && (data.redirect_map matches Some(map) && map.old_instruction_offsets@ == old_starts
            && map.new_instruction_offsets@ == new_starts)
    }
}

impl TransactionCore {
    /// Queues the hook of an import of the module that is mapped at `module`:
    /// `target_func` from `target_dll`. The import is looked up at once, so that a
    /// missing one is reported early.
    pub fn attach_iat(
        &mut self,
        map: &MemoryMap,
        mapped: &[u8],
        module: u64,
        target_dll: &str,
        target_func: &str,
        detour: u64,
    ) -> (result: Result<(), DetourError>)
        requires
            old(self).wf(),
        ensures
            final(self).wf(),
            import_attached(*old(self), *final(self), map@, mapped@, module, target_dll@, target_func@, detour, result),
    {
        if !self.is_pending {
            return Err(DetourError::NotStarted);
        }
        if !is_queryable(map, module) {
            return Err(DetourError::InvalidParameter);
        }
        match ImportHook::find_import_address(self.arch, mapped, module, target_dll, target_func) {
            Ok(_) => {},
            Err(error) => {
                return Err(DetourError::from(error));
            },
        }
        self.pending_hooks.push(
            PendingHook::Iat {
                module,
                target_dll: target_dll.to_owned(),
                target_func: target_func.to_owned(),
                detour,
            },
        );
        assert(self.pending_hooks@.drop_last() =~= old(self).pending_hooks@);
        Ok(())
    }

    /// Queues the hook of an export of the module that is mapped at `module`. The
    /// export is looked up at once, so that a missing or forwarded one is reported
    /// early.
    pub fn attach_eat(&mut self, mapped: &[u8], module: u64, target_func: &str, detour: u64) -> (
    result: Result<(), DetourError>)
        requires
            old(self).wf(),
        ensures
            final(self).wf(),
            export_attached(*old(self), *final(self), mapped@, module, target_func@, detour, result),
    {
        if !self.is_pending {
            return Err(DetourError::NotStarted);
        }
        match ExportHook::find_export_address(self.arch, mapped, module, target_func) {
            Ok(_) => {},
            Err(error) => {
                return Err(DetourError::from(error));
            },
        }
        self.pending_hooks.push(
            PendingHook::Eat { module, target_func: target_func.to_owned(), detour },
        );
        assert(self.pending_hooks@.drop_last() =~= old(self).pending_hooks@);
        Ok(())
    }

    /// Queues the hook of slot `index` of the table at `vtable`, and returns the
    /// pointer that the slot holds.
    pub fn attach_vtable(&mut self, map: &MemoryMap, vtable: u64, index: usize, detour: u64) -> (
    result: Result<u64, DetourError>)
        requires
            old(self).wf(),
        ensures
            final(self).wf(),
            table_attached(*old(self), *final(self), map@, vtable, index, detour, result),
    {
        if !self.is_pending {
            return Err(DetourError::NotStarted);
        }
        if vtable == 0 || detour == 0 {
            return Err(DetourError::InvalidParameter);
        }
        let slot: u64 = slot_of(self.arch, vtable, index);
        if !is_queryable(map, slot) {
            return Err(DetourError::InvalidParameter);
        }
        match map.read_pointer(self.arch, slot) {
            Some(original) => {
                self.pending_hooks.push(PendingHook::Vtable { vtable, index, detour });
                Ok(original)
            },
            None => Err(DetourError::InvalidParameter),
        }
    }

    /// Queues the hook of slot `index` of one object, whose table has
    /// `vtable_len` slots, and returns the pointer that the slot holds.
    pub fn attach_vtable_instance(
        &mut self,
        map: &MemoryMap,
        object_vptr: u64,
        index: usize,
        vtable_len: usize,
        detour: u64,
    ) -> (result: Result<u64, DetourError>)
        requires
            old(self).wf(),
        ensures
            final(self).wf(),
            instance_attached(*old(self), *final(self), map@, object_vptr, index, vtable_len, detour, result),
    {
        if !self.is_pending {
            return Err(DetourError::NotStarted);
        }
        if object_vptr == 0 || detour == 0 || vtable_len == 0 || index >= vtable_len {
            return Err(DetourError::InvalidParameter);
        }
        let vtable: u64 = match map.read_pointer(self.arch, object_vptr) {
            Some(vtable) => vtable,
            None => {
                return Err(DetourError::InvalidParameter);
            },
        };
        if vtable == 0 {
            return Err(DetourError::InvalidParameter);
        }
        match map.read_pointer(self.arch, slot_of(self.arch, vtable, index)) {
            Some(original) => {
                self.pending_hooks.push(
                    PendingHook::VtableInstance { object_vptr, vtable_len, index, detour },
                );
                Ok(original)
            },
            None => Err(DetourError::InvalidParameter),
        }
    }

    /// Queues the removal of the installed hook that the caller knows by the
    /// number `handle`.
    pub fn detach(&mut self, handle: usize) -> (result: Result<(), DetourError>)
        requires
            old(self).wf(),
        ensures
            final(self).wf(),
            detach_queued(*old(self), *final(self), handle, result),
    {
        if !self.is_pending {
            return Err(DetourError::NotStarted);
        }
        self.pending_hooks.push(PendingHook::Detach { handle });
        Ok(())
    }

    /// Aborts the transaction: the queued hooks are discarded, and the threads
    /// that are returned are to be resumed. On a finished transaction this has no
    /// effect.
    pub fn abort(&mut self) -> (resume: Vec<u64>)
        requires
            old(self).wf(),
        ensures
            final(self).wf(),
            aborted(*old(self), *final(self), resume),
    {
        if !self.is_pending {
            return Vec::new();
        }
        self.pending_hooks = Vec::new();
        self.is_pending = false;
        self.cleanup_threads()
    }

    /// Gives up the suspended threads, which are to be resumed.
    fn cleanup_threads(&mut self) -> (resume: Vec<u64>)
        ensures
            resume@ == old(self).threads@,
            final(self).threads@.len() == 0,
            final(self).arch == old(self).arch,
            final(self).pending_hooks == old(self).pending_hooks,
            final(self).is_pending == old(self).is_pending,
            final(self).redirected_threads == old(self).redirected_threads,
            final(self).redirected_stacks == old(self).redirected_stacks,
    {
        let mut resume: Vec<u64> = Vec::new();
        std::mem::swap(&mut resume, &mut self.threads);
        resume
    }

    /// Begins to commit the transaction. The hooks are installed one after the
    /// other in the order in which they were queued.
    pub fn commit(&mut self) -> (run: Result<Commit, DetourError>)
        requires
            old(self).wf(),
        ensures
            final(self).wf(),
            commit_begun(*old(self), *final(self), run),
    {
        if !self.is_pending {
            return Err(DetourError::NotStarted);
        }
        let mut queue: Vec<PendingHook> = Vec::new();
        std::mem::swap(&mut queue, &mut self.pending_hooks);
        let count: usize = queue.len();
        assert(queue@.len() == count);
        Ok(
            Commit {
                queue,
                thread: 0,
                installed: Vec::new(),
                detached: Vec::new(),
                order: Vec::new(),
                redirect: None,
            },
        )
    }

    /// Takes what was captured of the thread that the commit asked for, `None`
    /// where its registers could not be read.
    pub fn thread_inspected(&mut self, run: &mut Commit, state: Option<ThreadState>) -> (result:
        Result<(), DetourError>)
        requires
            old(run).wf(*old(self)),
            old(run).pending_step(*old(self)) is InspectThread,
            state matches Some(captured) ==> captured.stack@.len() <= STACK_SCAN_DEPTH,
        ensures
            final(run).wf(*final(self)),
            final(self).arch == old(self).arch,
            final(self).threads == old(self).threads,
            final(self).pending_hooks == old(self).pending_hooks,
            final(self).is_pending == old(self).is_pending,
            final(self).redirected_stacks == old(self).redirected_stacks,
            final(run).queue == old(run).queue,
            final(run).installed == old(run).installed,
            final(run).detached == old(run).detached,
            final(run).order == old(run).order,
            ({
                let arch = old(self).arch;
                let data = old(run).queue@[0]->Inline_0;
                let handle = old(self).threads@[old(run).thread as int];
                match state {
                    None => {
                        &&& result is Ok
                        &&& final(run).thread == old(run).thread + 1
                        &&& final(run).redirect is None
                        &&& final(self).redirected_threads == old(self).redirected_threads
                    },
                    Some(captured) => {
                        let ip = redirected(arch, data, captured.ip);
                        &&& final(run).thread == old(run).thread
                        &&& if data.steals(captured.ip) && ip is None {
                            &&& result == Err::<(), DetourError>(DetourError::RelocationFailed)
                            &&& final(run).redirect is None
                            &&& final(self).redirected_threads == old(self).redirected_threads
                        } else {
                            &&& result is Ok
                            &&& final(run).redirect matches Some(change) && change.ip == ip
                                && change.stack@ == stack_redirects(
                                arch,
                                data,
                                captured.sp,
                                captured.stack@,
                                captured.stack@.len() as int,
                            )
                            &&& final(self).redirected_threads@ == if ip is Some {
                                old(self).redirected_threads@.push((handle, captured.ip))
                            } else {
                                old(self).redirected_threads@
                            }
                        }
                    },
                }
            }),
    {
        let count: usize = self.threads.len();
        assert(run.thread < count);
        let captured = match state {
            Some(captured) => captured,
            None => {
                run.thread = run.thread + 1;
                return Ok(());
            },
        };
        let handle: u64 = self.threads[run.thread];
        let change = match &run.queue[0] {
            PendingHook::Inline(data) => match redirect_rip_relative_threads(
                self.arch,
                data,
                &captured,
            ) {
                Ok(change) => change,
                Err(error) => {
                    return Err(error);
                },
            },
            _ => {
                return Err(DetourError::RelocationFailed);
            },
        };
        if change.ip.is_some() {
            self.redirected_threads.push((handle, captured.ip));
        }
        run.redirect = Some(change);
        Ok(())
    }

    /// Takes whether the instruction pointer of the current thread could be
    /// changed. If so, the return addresses on its stack were replaced too.
    pub fn thread_redirected(&mut self, run: &mut Commit, changed: bool) -> (result: Result<
        (),
        DetourError,
    >)
        requires
            old(run).wf(*old(self)),
            old(run).pending_step(*old(self)) is RedirectThread,
        ensures
            final(run).wf(*final(self)),
            final(self).arch == old(self).arch,
            final(self).threads == old(self).threads,
            final(self).pending_hooks == old(self).pending_hooks,
            final(self).is_pending == old(self).is_pending,
            final(self).redirected_threads == old(self).redirected_threads,
            final(run).queue == old(run).queue,
            final(run).installed == old(run).installed,
            final(run).detached == old(run).detached,
            final(run).order == old(run).order,
            final(run).redirect is None,
            ({
                let handle = old(self).threads@[old(run).thread as int];
                let change = old(run).redirect->0;
                if change.ip is Some && !changed {
                    &&& result == Err::<(), DetourError>(DetourError::RelocationFailed)
                    &&& final(run).thread == old(run).thread
                    &&& final(self).redirected_stacks == old(self).redirected_stacks
                } else {
                    &&& result is Ok
                    &&& final(run).thread == old(run).thread + 1
                    &&& final(self).redirected_stacks@ == old(self).redirected_stacks@
                        + change.stack@.map_values(
                        |slot: StackRedirect| (handle, slot.address, slot.old),
                    )
                }
            }),
    {
        let count: usize = self.threads.len();
        assert(run.thread < count);
        let handle: u64 = self.threads[run.thread];
        let mut taken: Option<ThreadRedirect> = None;
        std::mem::swap(&mut taken, &mut run.redirect);
        let change = match taken {
            Some(change) => change,
            None => {
                return Ok(());
            },
        };
        if change.ip.is_some() && !changed {
            return Err(DetourError::RelocationFailed);
        }
        let ghost before = self.redirected_stacks@;
        let ghost record = |slot: StackRedirect| (handle, slot.address, slot.old);
        assert(self.redirected_stacks@ =~= before + change.stack@.take(0).map_values(record));
        let mut i: usize = 0;
        while i < change.stack.len()
            invariant
                i <= change.stack@.len(),
                record == |slot: StackRedirect| (handle, slot.address, slot.old),
                self.redirected_stacks@ == before + change.stack@.take(i as int).map_values(record),
                self.arch == old(self).arch,
                self.threads == old(self).threads,
                self.pending_hooks == old(self).pending_hooks,
                self.is_pending == old(self).is_pending,
                self.redirected_threads == old(self).redirected_threads,
            decreases change.stack@.len() - i,
        {
            let slot = change.stack[i];
            self.redirected_stacks.push((handle, slot.address, slot.old));
            i = i + 1;
            assert(self.redirected_stacks@ =~= before + change.stack@.take(i as int).map_values(
                record,
            ));
        }
        assert(change.stack@.take(i as int) =~= change.stack@);
        run.thread = run.thread + 1;
        Ok(())
    }

    /// Takes whether the patch of the current inline hook could be written.
    ///
    /// A gateway that was overwritten is no gateway any more; the trampoline of
    /// the new hook is one.
    pub fn apply_inline_hook(
        &mut self,
        run: &mut Commit,
        gateways: &mut GatewayRegistry,
        written: bool,
    ) -> (result: Result<(), DetourError>)
        requires
            old(run).wf(*old(self)),
            old(run).pending_step(*old(self)) is Patch,
        ensures
            *final(self) == *old(self),
            final(run).wf(*final(self)),
            if written {
                let data = old(run).queue@[0]->Inline_0;
                let kept = if data.target_kind == TargetKind::ManagedGateway {
                    old(gateways)@.remove(data.target)
                } else {
                    old(gateways)@
                };
                &&& result is Ok
                &&& final(gateways)@ == kept.insert(data.trampoline.ptr)
                &&& final(run).advanced(*old(run))
                &&& final(run).installed@.last() matches Hook::Inline(hook) && installs(data, hook)
            } else {
                &&& result == Err::<(), DetourError>(DetourError::RelocationFailed)
                &&& final(gateways)@ == old(gateways)@
                &&& *final(run) == *old(run)
            },
    {
        if !written {
            return Err(DetourError::RelocationFailed);
        }
        let hook = run.take_first();
        match hook {
            PendingHook::Inline(data) => {
                if data.target_kind == TargetKind::ManagedGateway {
                    gateways.unregister_managed_gateway(data.target);
                }
                gateways.register_managed_gateway(data.trampoline.ptr);
                let patch = data.patch_bytes();
                run.installed.push(
                    Hook::Inline(
                        InlineHook {
                            target: data.target,
                            trampoline: data.trampoline,
                            stolen_len: data.stolen_len,
                            orig_bytes: data.orig_bytes,
                            patch,
                            jump_type: data.jump_type,
                            target_kind: data.target_kind,
                            active: true,
                            enabled: true,
                        },
                    ),
                );
                run.order.push(CommitAction::Installed);
                assert(run.installed@.drop_last() =~= old(run).installed@);
                assert(run.order@.drop_last() =~= old(run).order@);
                Ok(())
            },
            _ => Err(DetourError::RelocationFailed),
        }
    }

    /// Takes what the hook of the current import came to: its slot with the
    /// original pointer, or the error.
    pub fn import_hooked(&mut self, run: &mut Commit, outcome: Result<(u64, u64), IatHookError>) -> (
    result: Result<(), DetourError>)
        requires
            old(run).wf(*old(self)),
            old(run).pending_step(*old(self)) is HookImport,
        ensures
            *final(self) == *old(self),
            final(run).wf(*final(self)),
            match outcome {
                Ok((slot, original)) => {
                    &&& result is Ok
                    &&& final(run).advanced(*old(run))
                    &&& old(run).queue@[0] matches PendingHook::Iat {
                        module,
                        target_dll,
                        target_func,
                        detour,
                    } && final(run).installed@.last() == Hook::Iat(
                        IatHook {
                            module,
                            dll_name: target_dll,
                            func_name: target_func,
                            slot,
                            original_ptr: original,
                            detour,
                            active: true,
                            enabled: true,
                        },
                    )
                },
                Err(error) => {
                    &&& result == Err::<(), DetourError>(DetourError::Iat(error))
                    &&& *final(run) == *old(run)
                },
            },
    {
        match outcome {
            Ok((slot, original)) => {
                let hook = run.take_first();
                match hook {
                    PendingHook::Iat { module, target_dll, target_func, detour } => {
                        run.installed.push(
                            Hook::Iat(
                                IatHook {
                                    module,
                                    dll_name: target_dll,
                                    func_name: target_func,
                                    slot,
                                    original_ptr: original,
                                    detour,
                                    active: true,
                                    enabled: true,
                                },
                            ),
                        );
                        run.order.push(CommitAction::Installed);
                        assert(run.installed@.drop_last() =~= old(run).installed@);
                        assert(run.order@.drop_last() =~= old(run).order@);
                        Ok(())
                    },
                    _ => Err(DetourError::InvalidParameter),
                }
            },
            Err(error) => Err(DetourError::from(error)),
        }
    }

    /// Takes what the hook of the current export came to.
    pub fn export_hooked(&mut self, run: &mut Commit, outcome: Result<InstalledEat, EatHookError>) -> (
    result: Result<(), DetourError>)
        requires
            old(run).wf(*old(self)),
            old(run).pending_step(*old(self)) is HookExport,
        ensures
            *final(self) == *old(self),
            final(run).wf(*final(self)),
            match outcome {
                Ok(hook) => {
                    &&& result is Ok
                    &&& final(run).advanced(*old(run))
                    &&& final(run).installed@.last() == Hook::Eat(hook)
                },
                Err(error) => {
                    &&& result == Err::<(), DetourError>(DetourError::Eat(error))
                    &&& *final(run) == *old(run)
                },
            },
    {
        match outcome {
            Ok(hook) => {
                run.finish_first(Hook::Eat(hook));
                Ok(())
            },
            Err(error) => Err(DetourError::from(error)),
        }
    }

    /// Takes what the hook of the current table slot came to.
    pub fn slot_hooked(&mut self, run: &mut Commit, outcome: Result<VTableHook, VTableHookError>) -> (
    result: Result<(), DetourError>)
        requires
            old(run).wf(*old(self)),
            old(run).pending_step(*old(self)) is HookSlot,
        ensures
            *final(self) == *old(self),
            final(run).wf(*final(self)),
            match outcome {
                Ok(hook) => {
                    &&& result is Ok
                    &&& final(run).advanced(*old(run))
                    &&& final(run).installed@.last() == Hook::Vtable(hook)
                },
                Err(error) => {
                    &&& result == Err::<(), DetourError>(DetourError::Vtable(error))
                    &&& *final(run) == *old(run)
                },
            },
    {
        match outcome {
            Ok(hook) => {
                run.finish_first(Hook::Vtable(hook));
                Ok(())
            },
            Err(error) => Err(DetourError::from(error)),
        }
    }

    /// Takes what the hook of the current object came to.
    pub fn instance_hooked(
        &mut self,
        run: &mut Commit,
        outcome: Result<VTableInstanceHook, VTableHookError>,
    ) -> (result: Result<(), DetourError>)
        requires
            old(run).wf(*old(self)),
            old(run).pending_step(*old(self)) is HookInstance,
        ensures
            *final(self) == *old(self),
            final(run).wf(*final(self)),
            match outcome {
                Ok(hook) => {
                    &&& result is Ok
                    &&& final(run).advanced(*old(run))
                    &&& final(run).installed@.last() == Hook::VtableInstance(hook)
                },
                Err(error) => {
                    &&& result == Err::<(), DetourError>(DetourError::Vtable(error))
                    &&& *final(run) == *old(run)
                },
            },
    {
        match outcome {
            Ok(hook) => {
                run.finish_first(Hook::VtableInstance(hook));
                Ok(())
            },
            Err(error) => Err(DetourError::from(error)),
        }
    }

    /// Takes whether the hook that is to be removed could be disabled.
    pub fn detached(&mut self, run: &mut Commit, outcome: Result<(), DetourError>) -> (result:
        Result<(), DetourError>)
        requires
            old(run).wf(*old(self)),
            old(run).pending_step(*old(self)) is Detach,
        ensures
            *final(self) == *old(self),
            final(run).wf(*final(self)),
            result == outcome,
            match outcome {
                Ok(_) => {
                    &&& final(run).queue@ == old(run).queue@.drop_first()
                    &&& final(run).thread == 0 && final(run).redirect is None
                    &&& final(run).installed == old(run).installed
                    &&& final(run).detached@ == old(run).detached@.push(
                        old(run).queue@[0]->handle,
                    )
                    &&& final(run).order@ == old(run).order@.push(CommitAction::Detached)
                },
                Err(_) => *final(run) == *old(run),
            },
    {
        if outcome.is_ok() {
            let hook = run.take_first();
            if let PendingHook::Detach { handle } = hook {
                run.detached.push(handle);
                run.order.push(CommitAction::Detached);
                assert(run.order@.drop_last() =~= old(run).order@);
            }
        }
        outcome
    }

    /// Gives up a commit in which the current hook failed with `error`: everything
    /// that the commit has changed is handed out to be undone, first the threads,
    /// then the stacks, then the hooks. Each list begins with what was changed last,
    /// so that what was changed twice ends as it was before. Hooks that were
    /// disabled to be removed are enabled again in their turn: see
    /// [`Rollback::next`]. The threads are resumed after that.
    pub fn rollback(&mut self, run: Commit, error: DetourError) -> (undo: Rollback)
        requires
            run.wf(*old(self)),
            run.queue@.len() > 0,
        ensures
            undo.wf(),
            undo.threads@ == old(self).redirected_threads@.reverse(),
            undo.stacks@ == old(self).redirected_stacks@.reverse(),
            undo.hooks@ == run.installed@.reverse(),
            undo.enable@ == run.detached@.reverse(),
            undo.order@ == run.order@.reverse(),
            undo.resume@ == old(self).threads@,
            undo.index == run.installed@.len() + run.detached@.len(),
            undo.kind == run.queue@[0].spec_kind(),
            undo.error == error,
            final(self).redirected_threads@.len() == 0,
            final(self).redirected_stacks@.len() == 0,
            final(self).threads@.len() == 0,
            final(self).arch == old(self).arch,
            final(self).pending_hooks == old(self).pending_hooks,
            final(self).is_pending == old(self).is_pending,
    {
        let kind = run.queue[0].kind();
        let mut threads: Vec<(u64, u64)> = Vec::new();
        std::mem::swap(&mut threads, &mut self.redirected_threads);
        let mut stacks: Vec<(u64, u64, u64)> = Vec::new();
        std::mem::swap(&mut stacks, &mut self.redirected_stacks);
        let resume = self.cleanup_threads();
        let index: usize = run.installed.len() + run.detached.len();
        proof {
            lemma_count_reverse(run.order@, CommitAction::Installed);
            lemma_count_reverse(run.order@, CommitAction::Detached);
        }
        Rollback {
            threads: reversed(threads),
            stacks: reversed(stacks),
            hooks: reversed(run.installed),
            enable: reversed(run.detached),
            order: reversed(run.order),
            resume,
            index,
            kind,
            error,
        }
    }

    /// Ends a commit whose hooks are all installed: the transaction is finished,
    /// and its threads are to be resumed.
    pub fn finish(&mut self, run: Commit) -> (done: Committed)
        requires
            run.wf(*old(self)),
            run.queue@.len() == 0,
        ensures
            done.hooks@ == run.installed@,
            done.detached@ == run.detached@,
            done.resume@ == old(self).threads@,
            final(self).threads@.len() == 0,
            !final(self).is_pending,
            final(self).arch == old(self).arch,
            final(self).pending_hooks == old(self).pending_hooks,
            final(self).redirected_threads == old(self).redirected_threads,
            final(self).redirected_stacks == old(self).redirected_stacks,
    {
        let resume = self.cleanup_threads();
        self.is_pending = false;
        Committed { hooks: run.installed, detached: run.detached, resume }
    }
}

/// Whether `hook` is the installed form of `data`.
pub open spec fn installs(data: InlineData, hook: InlineHook) -> bool {
    &&& hook.target == data.target
    &&& hook.trampoline == data.trampoline
    &&& hook.stolen_len == data.stolen_len
    &&& hook.orig_bytes == data.orig_bytes
    &&& hook.patch@ == data.patch()
    &&& hook.jump_type == data.jump_type
    &&& hook.target_kind == data.target_kind
    &&& hook.active && hook.enabled
}

/// Returns a list from its last element to its first.
fn reversed<T>(list: Vec<T>) -> (out: Vec<T>)
    ensures
        out@ == list@.reverse(),
{
    let ghost all = list@;
    let mut rest = list;
    let mut out: Vec<T> = Vec::new();
    while rest.len() > 0
        invariant
            out@.len() + rest@.len() == all.len(),
            forall|i: int| 0 <= i < rest@.len() ==> #[trigger] rest@[i] == all[i],
            forall|i: int| 0 <= i < out@.len() ==> #[trigger] out@[i] == all[all.len() - 1 - i],
        decreases rest@.len(),
    {
        if let Some(last) = rest.pop() {
            out.push(last);
        }
    }
    assert(out@ =~= all.reverse());
    out
}

/// What a commit has done with one queued hook.
#[derive(Clone, Copy, Debug, PartialEq, Eq, Structural)]
pub enum CommitAction {
    /// The hook was installed.
    Installed,
    /// An installed hook was disabled in order to be removed.
    Detached,
}

/// How often `action` occurs in `order`.
pub open spec fn count_of(order: Seq<CommitAction>, action: CommitAction) -> int
    decreases order.len(),
{
    if order.len() == 0 {
        0
    } else {
        count_of(order.drop_last(), action) + if order.last() == action {
            1int
        } else {
            0int
        }
    }
}

/// Every action is an installation or a removal.
proof fn lemma_count_all(order: Seq<CommitAction>)
    ensures
        0 <= count_of(order, CommitAction::Installed),
        0 <= count_of(order, CommitAction::Detached),
        count_of(order, CommitAction::Installed) + count_of(order, CommitAction::Detached)
            == order.len(),
    decreases order.len(),
{
    if order.len() > 0 {
        lemma_count_all(order.drop_last());
    }
}

/// The first action counts like the last one.
proof fn lemma_count_first(order: Seq<CommitAction>, action: CommitAction)
    requires
        order.len() > 0,
    ensures
        count_of(order, action) == count_of(order.drop_first(), action) + if order[0] == action {
            1int
        } else {
            0int
        },
    decreases order.len(),
{
    if order.len() > 1 {
        lemma_count_first(order.drop_last(), action);
        assert(order.drop_last().drop_first() =~= order.drop_first().drop_last());
        assert(order.drop_first().last() == order.last());
    } else {
        assert(order.drop_first() =~= Seq::<CommitAction>::empty());
        assert(order.drop_last() =~= Seq::<CommitAction>::empty());
    }
}

/// The order does not change how often an action occurs.
proof fn lemma_count_reverse(order: Seq<CommitAction>, action: CommitAction)
    ensures
        count_of(order.reverse(), action) == count_of(order, action),
    decreases order.len(),
{
    if order.len() > 0 {
        lemma_count_reverse(order.drop_last(), action);
        lemma_count_first(order.reverse(), action);
        assert(order.reverse().drop_first() =~= order.drop_last().reverse());
        assert(order.reverse()[0] == order.last());
    }
}

/// A commit that is under way: the hooks that are still to be installed, the
/// number of the thread that is checked for the first of them, and the hooks that
/// are installed.
#[derive(Debug)]
pub struct Commit {
    pub queue: Vec<PendingHook>,
    pub thread: usize,
    pub installed: Vec<Hook>,
    /// The hooks that are disabled in order to be removed, by their numbers.
    pub detached: Vec<usize>,
    /// What was done with the hooks that were taken from the queue, in their order.
    pub order: Vec<CommitAction>,
    /// The change of the current thread that is being made.
    pub redirect: Option<ThreadRedirect>,
}

/// What is to be done next in a commit.
#[derive(Clone, Copy, Debug, PartialEq, Eq, Structural)]
pub enum CommitStep {
    /// Capture the registers and the stack of a thread.
    InspectThread { thread: u64 },
    /// Make the change of a thread that the commit holds.
    RedirectThread { thread: u64 },
    /// Write the patch of the first queued hook.
    Patch,
    /// Hook the import of the first queued hook.
    HookImport,
    /// Hook the export of the first queued hook.
    HookExport,
    /// Hook the table slot of the first queued hook.
    HookSlot,
    /// Hook the object of the first queued hook.
    HookInstance,
    /// Disable the installed hook that is to be removed.
    Detach { handle: usize },
    /// Flush the instruction cache and end the commit.
    Finish,
}

/// A commit that succeeded: the installed hooks, the hooks that are removed, and
/// the threads to resume.
#[derive(Debug)]
pub struct Committed {
    pub hooks: Vec<Hook>,
    /// The hooks that are disabled for good, by their numbers.
    pub detached: Vec<usize>,
    pub resume: Vec<u64>,
}

/// A commit that failed, with all that is to be undone. Each list begins with what
/// was changed last.
#[derive(Debug)]
pub struct Rollback {
    /// The threads whose instruction pointer is put back.
    pub threads: Vec<(u64, u64)>,
    /// The stack slots whose value is put back.
    pub stacks: Vec<(u64, u64, u64)>,
    /// The hooks that are unhooked.
    pub hooks: Vec<Hook>,
    /// The hooks that are enabled again, by their numbers.
    pub enable: Vec<usize>,
    /// In which order hooks are unhooked and enabled.
    pub order: Vec<CommitAction>,
    /// The threads that are resumed.
    pub resume: Vec<u64>,
    /// The position of the failing hook among the queued hooks.
    pub index: usize,
    /// The kind of the failing hook.
    pub kind: HookKind,
    /// Why it failed.
    pub error: DetourError,
}

/// How one hook is undone.
#[derive(Debug)]
pub enum UndoStep {
    /// Remove a hook that the commit had installed.
    Unhook(Hook),
    /// Enable a hook that the commit had disabled.
    Enable { handle: usize },
}

impl Rollback {
    /// Whether there is a hook for each action that is to be undone.
    pub open spec fn wf(self) -> bool {
        &&& count_of(self.order@, CommitAction::Installed) == self.hooks@.len()
        &&& count_of(self.order@, CommitAction::Detached) == self.enable@.len()
    }

    /// Returns how the next hook is undone, `None` where all are. What was done last
    /// is undone first.
    pub fn next(&mut self) -> (step: Option<UndoStep>)
        requires
            old(self).wf(),
        ensures
            final(self).wf(),
            final(self).threads == old(self).threads,
            final(self).stacks == old(self).stacks,
            final(self).resume == old(self).resume,
            final(self).index == old(self).index,
            final(self).kind == old(self).kind,
            final(self).error == old(self).error,
            if old(self).order@.len() == 0 {
                step is None && *final(self) == *old(self)
            } else {
                &&& final(self).order@ == old(self).order@.drop_first()
                &&& match old(self).order@[0] {
                    CommitAction::Installed => {
                        &&& step == Some(UndoStep::Unhook(old(self).hooks@[0]))
                        &&& final(self).hooks@ == old(self).hooks@.drop_first()
                        &&& final(self).enable == old(self).enable
                    },
                    CommitAction::Detached => {
                        &&& step == Some(UndoStep::Enable { handle: old(self).enable@[0] })
                        &&& final(self).enable@ == old(self).enable@.drop_first()
                        &&& final(self).hooks == old(self).hooks
                    },
                }
            },
    {
        if self.order.len() == 0 {
            return None;
        }
        proof {
            lemma_count_first(self.order@, CommitAction::Installed);
            lemma_count_first(self.order@, CommitAction::Detached);
            lemma_count_all(self.order@.drop_first());
        }
        let action = self.order.remove(0);
        assert(self.order@ =~= old(self).order@.drop_first());
        match action {
            CommitAction::Installed => {
                let hook = self.hooks.remove(0);
                assert(self.hooks@ =~= old(self).hooks@.drop_first());
                Some(UndoStep::Unhook(hook))
            },
            CommitAction::Detached => {
                let handle: usize = self.enable.remove(0);
                assert(self.enable@ =~= old(self).enable@.drop_first());
                Some(UndoStep::Enable { handle })
            },
        }
    }

    /// Returns the error that reports the failed commit.
    pub fn into_error(self) -> (error: DetourError)
        ensures
            error == (DetourError::CommitFailed {
                index: self.index,
                kind: self.kind,
                source: Box::new(self.error),
            }),
    {
        DetourError::CommitFailed {
            index: self.index,
            kind: self.kind,
            source: Box::new(self.error),
        }
    }
}

impl Commit {
    /// Whether the state of the commit fits the transaction.
    pub open spec fn wf(self, core: TransactionCore) -> bool {
        &&& forall|i: int|
            0 <= i < self.queue@.len() ==> (#[trigger] self.queue@[i]).wf(core.arch)
        &&& self.queue@.len() + self.installed@.len() + self.detached@.len() <= usize::MAX
        &&& count_of(self.order@, CommitAction::Installed) == self.installed@.len()
        &&& count_of(self.order@, CommitAction::Detached) == self.detached@.len()
        &&& self.thread <= core.threads@.len()
        &&& self.thread > 0 ==> self.queue@.len() > 0 && self.queue@[0] is Inline
        &&& self.redirect is Some ==> self.queue@.len() > 0 && self.queue@[0] is Inline
            && self.thread < core.threads@.len()
    }

    /// Whether the first queued hook of `before` is installed now, and nothing
    /// else was changed.
    pub open spec fn advanced(self, before: Commit) -> bool {
        &&& self.queue@ == before.queue@.drop_first()
        &&& self.thread == 0
        &&& self.redirect is None
        &&& self.detached == before.detached
        &&& self.installed@.len() == before.installed@.len() + 1
        &&& self.installed@.drop_last() == before.installed@
        &&& self.order@.len() == before.order@.len() + 1
        &&& self.order@.drop_last() == before.order@
        &&& self.order@.last() == CommitAction::Installed
    }

    /// The step that the commit waits for.
    pub open spec fn pending_step(self, core: TransactionCore) -> CommitStep {
        if self.queue@.len() == 0 {
            CommitStep::Finish
        } else {
            match self.queue@[0] {
                PendingHook::Inline(_) => if self.redirect is Some {
                    CommitStep::RedirectThread { thread: core.threads@[self.thread as int] }
                } else if self.thread < core.threads@.len() {
                    CommitStep::InspectThread { thread: core.threads@[self.thread as int] }
                } else {
                    CommitStep::Patch
                },
                PendingHook::Iat { .. } => CommitStep::HookImport,
                PendingHook::Eat { .. } => CommitStep::HookExport,
                PendingHook::Vtable { .. } => CommitStep::HookSlot,
                PendingHook::VtableInstance { .. } => CommitStep::HookInstance,
                PendingHook::Detach { handle } => CommitStep::Detach { handle },
            }
        }
    }

    /// Returns the step that the commit waits for.
    pub fn step(&self, core: &TransactionCore) -> (step: CommitStep)
        requires
            self.wf(*core),
        ensures
            step == self.pending_step(*core),
    {
        if self.queue.len() == 0 {
            return CommitStep::Finish;
        }
        match &self.queue[0] {
            PendingHook::Inline(_) => {
                if self.redirect.is_some() {
                    CommitStep::RedirectThread { thread: core.threads[self.thread] }
                } else if self.thread < core.threads.len() {
                    CommitStep::InspectThread { thread: core.threads[self.thread] }
                } else {
                    CommitStep::Patch
                }
            },
            PendingHook::Iat { .. } => CommitStep::HookImport,
            PendingHook::Eat { .. } => CommitStep::HookExport,
            PendingHook::Vtable { .. } => CommitStep::HookSlot,
            PendingHook::VtableInstance { .. } => CommitStep::HookInstance,
            PendingHook::Detach { handle } => CommitStep::Detach { handle: *handle },
        }
    }

    /// Returns the write that installs the first queued hook, which is an inline
    /// hook.
    pub fn patch(&self, core: &TransactionCore) -> (write: CodeWrite)
        requires
            self.wf(*core),
            self.pending_step(*core) is Patch,
        ensures
            write.address == self.queue@[0]->Inline_0.target,
            write.bytes@ == self.queue@[0]->Inline_0.patch(),
            write.bytes@.len() == self.queue@[0]->Inline_0.orig_bytes@.len(),
    {
        match &self.queue[0] {
            PendingHook::Inline(data) => CodeWrite {
                address: data.target,
                bytes: data.patch_bytes(),
            },
            _ => CodeWrite { address: 0, bytes: Vec::new() },
        }
    }

    /// Takes the first queued hook out of the queue.
    fn take_first(&mut self) -> (hook: PendingHook)
        requires
            old(self).queue@.len() > 0,
        ensures
            hook == old(self).queue@[0],
            final(self).queue@ == old(self).queue@.drop_first(),
            final(self).thread == 0,
            final(self).redirect is None,
            final(self).installed == old(self).installed,
            final(self).detached == old(self).detached,
            final(self).order == old(self).order,
    {
        self.thread = 0;
        self.redirect = None;
        let hook = self.queue.remove(0);
        assert(self.queue@ =~= old(self).queue@.drop_first());
        hook
    }

    /// Replaces the first queued hook by its installed form.
    fn finish_first(&mut self, hook: Hook)
        requires
            old(self).queue@.len() > 0,
        ensures
            final(self).advanced(*old(self)),
            final(self).installed@.last() == hook,
    {
        let _ = self.take_first();
        self.installed.push(hook);
        self.order.push(CommitAction::Installed);
        assert(self.installed@.drop_last() =~= old(self).installed@);
        assert(self.order@.drop_last() =~= old(self).order@);
    }
}

/// The hooks of a commit are installed or removed in the order in which they were
/// queued: of all queued hooks, those that are done are the first ones.
pub proof fn lemma_commit_keeps_order(before: Commit, after: Commit, all: Seq<PendingHook>)
    requires
        before.queue@.len() > 0,
        before.installed@.len() + before.detached@.len() + before.queue@.len() == all.len(),
        before.queue@ == all.subrange(
            (before.installed@.len() + before.detached@.len()) as int,
            all.len() as int,
        ),
        after.queue@ == before.queue@.drop_first(),
        after.installed@.len() + after.detached@.len() == before.installed@.len()
            + before.detached@.len() + 1,
    ensures
        after.installed@.len() + after.detached@.len() + after.queue@.len() == all.len(),
        after.queue@ == all.subrange(
            (after.installed@.len() + after.detached@.len()) as int,
            all.len() as int,
        ),
{
    assert(after.queue@ =~= all.subrange(
        (after.installed@.len() + after.detached@.len()) as int,
        all.len() as int,
    ));
}

/// A commit that fails reports the hook that failed: the index that is reported is
/// the position of that hook among all queued hooks, and the kind is its kind.
pub proof fn lemma_failure_names_the_hook(run: Commit, undo: Rollback, all: Seq<PendingHook>)
    requires
        run.queue@.len() > 0,
        run.installed@.len() + run.detached@.len() + run.queue@.len() == all.len(),
        run.queue@ == all.subrange(
            (run.installed@.len() + run.detached@.len()) as int,
            all.len() as int,
        ),
        undo.index == run.installed@.len() + run.detached@.len(),
        undo.kind == run.queue@[0].spec_kind(),
    ensures
        undo.index < all.len(),
        all[undo.index as int] == run.queue@[0],
        undo.kind == all[undo.index as int].spec_kind(),
{
}

/// What the steps of a commit do to memory: bytes at an address are replaced.
pub struct Edit {
    pub address: int,
    pub old: Seq<u8>,
    pub new: Seq<u8>,
}

/// Memory after `bytes` were written to `address`.
pub open spec fn written(memory: Map<int, u8>, address: int, bytes: Seq<u8>) -> Map<int, u8> {
    Map::new(
        |a: int| memory.dom().contains(a) || address <= a < address + bytes.len(),
        |a: int|
            if address <= a < address + bytes.len() {
                bytes[a - address]
            } else {
                memory[a]
            },
    )
}

/// Whether memory holds `bytes` at `address`.
pub open spec fn holds(memory: Map<int, u8>, address: int, bytes: Seq<u8>) -> bool {
    forall|a: int|
        address <= a < address + bytes.len() ==> #[trigger] memory.dom().contains(a) && memory[a]
            == bytes[a - address]
}

/// Memory after the edits were made, one after the other.
pub open spec fn applied(memory: Map<int, u8>, edits: Seq<Edit>) -> Map<int, u8>
    decreases edits.len(),
{
    if edits.len() == 0 {
        memory
    } else {
        let last = edits.last();
        written(applied(memory, edits.drop_last()), last.address, last.new)
    }
}

/// Memory after the edits were undone, from the last one to the first.
pub open spec fn undone(memory: Map<int, u8>, edits: Seq<Edit>) -> Map<int, u8>
    decreases edits.len(),
{
    if edits.len() == 0 {
        memory
    } else {
        let last = edits.last();
        undone(written(memory, last.address, last.old), edits.drop_last())
    }
}

/// Memory after the bytes from before each edit were written back, from the first
/// edit of the list to the last.
pub open spec fn written_back(memory: Map<int, u8>, edits: Seq<Edit>) -> Map<int, u8>
    decreases edits.len(),
{
    if edits.len() == 0 {
        memory
    } else {
        let first = edits[0];
        written_back(written(memory, first.address, first.old), edits.drop_first())
    }
}

/// Undoing edits is writing back in the opposite order.
pub proof fn lemma_undone_is_written_back(memory: Map<int, u8>, edits: Seq<Edit>)
    ensures
        undone(memory, edits) == written_back(memory, edits.reverse()),
    decreases edits.len(),
{
    if edits.len() > 0 {
        let last = edits.last();
        lemma_undone_is_written_back(written(memory, last.address, last.old), edits.drop_last());
        assert(edits.reverse().drop_first() =~= edits.drop_last().reverse());
        assert(edits.reverse()[0] == last);
    }
}

/// Whether an edit replaces the byte at `a`.
pub open spec fn touches(edits: Seq<Edit>, a: int) -> bool {
    exists|i: int|
        0 <= i < edits.len() && (#[trigger] edits[i]).address <= a < edits[i].address
            + edits[i].old.len()
}

/// Whether edit `i` of a list replaces mapped bytes by as many bytes, and knows, of
/// each byte that no earlier edit replaces, what `memory` holds there. Of other
/// bytes it may know what an earlier edit wrote, or what stood there before.
pub open spec fn replaces(memory: Map<int, u8>, edits: Seq<Edit>, i: int) -> bool {
    let edit = edits[i];
    &&& edit.old.len() == edit.new.len()
    &&& forall|a: int|
        edit.address <= a < edit.address + edit.old.len() ==> #[trigger] memory.dom().contains(a)
            && (!touches(edits.take(i), a) ==> edit.old[a - edit.address] == memory[a])
}

/// An edit of the front of a list is an edit of the list.
proof fn lemma_replaces_front(memory: Map<int, u8>, edits: Seq<Edit>)
    requires
        edits.len() > 0,
        forall|i: int| 0 <= i < edits.len() ==> #[trigger] replaces(memory, edits, i),
    ensures
        forall|i: int|
            0 <= i < edits.len() - 1 ==> #[trigger] replaces(memory, edits.drop_last(), i),
{
    let front = edits.drop_last();
    assert forall|i: int| 0 <= i < front.len() implies #[trigger] replaces(memory, front, i) by {
        assert(replaces(memory, edits, i));
        assert(front[i] == edits[i]);
        assert(front.take(i) =~= edits.take(i));
    }
}

/// What the front of a list replaces, and what its last edit replaces, is what the
/// list replaces.
proof fn lemma_touches_last(edits: Seq<Edit>, a: int)
    requires
        edits.len() > 0,
    ensures
        touches(edits, a) == (touches(edits.drop_last(), a) || edits.last().address <= a
            < edits.last().address + edits.last().old.len()),
{
    let front = edits.drop_last();
    if touches(front, a) {
        let i = choose|i: int|
            0 <= i < front.len() && (#[trigger] front[i]).address <= a < front[i].address
                + front[i].old.len();
        assert(edits[i] == front[i]);
    }
    if touches(edits, a) {
        let i = choose|i: int|
            0 <= i < edits.len() && (#[trigger] edits[i]).address <= a < edits[i].address
                + edits[i].old.len();
        if i < front.len() {
            assert(front[i] == edits[i]);
        }
    }
    assert(edits[edits.len() - 1] == edits.last());
}

/// Edits change no byte that they do not replace.
proof fn lemma_applied(memory: Map<int, u8>, edits: Seq<Edit>)
    requires
        forall|i: int| 0 <= i < edits.len() ==> #[trigger] replaces(memory, edits, i),
    ensures
        applied(memory, edits).dom() =~= memory.dom(),
        forall|a: int|
            memory.dom().contains(a) && !touches(edits, a) ==> #[trigger] applied(memory, edits)[a]
                == memory[a],
    decreases edits.len(),
{
    if edits.len() > 0 {
        let last = edits.last();
        lemma_replaces_front(memory, edits);
        lemma_applied(memory, edits.drop_last());
        assert(replaces(memory, edits, edits.len() - 1));
        assert forall|a: int|
            memory.dom().contains(a) && !touches(edits, a) implies #[trigger] applied(
            memory,
            edits,
        )[a] == memory[a] by {
            lemma_touches_last(edits, a);
        }
    }
}

/// Whether edit `i` of a list replaces bytes by as many bytes, and knows all of them
/// from before the list, or all of them from right before itself.
pub open spec fn knows(memory: Map<int, u8>, edits: Seq<Edit>, i: int) -> bool {
    let edit = edits[i];
    &&& edit.old.len() == edit.new.len()
    &&& holds(memory, edit.address, edit.old) || holds(
        applied(memory, edits.take(i)),
        edit.address,
        edit.old,
    )
}

/// The edits of a commit can be undone: an inline hook takes its bytes when it is
/// queued, a hook of a slot when it is written, and either is enough.
pub proof fn lemma_known_edits_replace(memory: Map<int, u8>, edits: Seq<Edit>)
    requires
        forall|i: int| 0 <= i < edits.len() ==> #[trigger] knows(memory, edits, i),
    ensures
        forall|i: int| 0 <= i < edits.len() ==> #[trigger] replaces(memory, edits, i),
    decreases edits.len(),
{
    if edits.len() > 0 {
        let front = edits.drop_last();
        assert forall|i: int| 0 <= i < front.len() implies #[trigger] knows(memory, front, i) by {
            assert(knows(memory, edits, i));
            assert(front[i] == edits[i]);
            assert(front.take(i) =~= edits.take(i));
        }
        lemma_known_edits_replace(memory, front);
        lemma_applied(memory, front);
        let at = edits.len() - 1;
        assert(knows(memory, edits, at));
        assert(edits.take(at) =~= front);
        assert forall|a: int|
            edits[at].address <= a < edits[at].address + edits[at].old.len() implies #[trigger]
            memory.dom().contains(a) && (!touches(edits.take(at), a) ==> edits[at].old[a
            - edits[at].address] == memory[a]) by {
            assert(applied(memory, front).dom().contains(a) == memory.dom().contains(a));
            if !touches(front, a) && memory.dom().contains(a) {
                assert(applied(memory, front)[a] == memory[a]);
            }
        }
        assert forall|i: int| 0 <= i < edits.len() implies #[trigger] replaces(
            memory,
            edits,
            i,
        ) by {
            if i < front.len() {
                assert(replaces(memory, front, i));
                assert(front[i] == edits[i]);
                assert(front.take(i) =~= edits.take(i));
            }
        }
    }
}

/// Undoing edits from the last to the first leads from every memory that differs
/// from `memory` only where the edits replace bytes back to `memory`.
proof fn lemma_undone(memory: Map<int, u8>, now: Map<int, u8>, edits: Seq<Edit>)
    requires
        now.dom() =~= memory.dom(),
        forall|i: int| 0 <= i < edits.len() ==> #[trigger] replaces(memory, edits, i),
        forall|a: int|
            memory.dom().contains(a) && !touches(edits, a) ==> #[trigger] now[a] == memory[a],
    ensures
        undone(now, edits) == memory,
    decreases edits.len(),
{
    if edits.len() == 0 {
        assert forall|a: int| memory.dom().contains(a) implies #[trigger] now[a] == memory[a] by {
            assert(!touches(edits, a));
        }
        assert(now =~= memory);
    } else {
        let last = edits.last();
        let front = edits.drop_last();
        let earlier = written(now, last.address, last.old);
        lemma_replaces_front(memory, edits);
        assert(replaces(memory, edits, edits.len() - 1));
        assert(edits.take(edits.len() - 1) =~= front);
        assert forall|a: int| #[trigger] earlier.dom().contains(a) == memory.dom().contains(a) by {
            if last.address <= a < last.address + last.old.len() {
                assert(memory.dom().contains(a));
            }
        }
        assert(earlier.dom() =~= memory.dom());
        assert forall|a: int|
            memory.dom().contains(a) && !touches(front, a) implies #[trigger] earlier[a]
            == memory[a] by {
            lemma_touches_last(edits, a);
            assert(earlier.dom().contains(a));
        }
        lemma_undone(memory, earlier, front);
    }
}

/// Undoing a commit from its last edit to its first brings back the memory from
/// before it, also where edits overlap: an edit may know the bytes from before the
/// commit, as an inline hook does, or those that an earlier edit wrote, as a hook of
/// a slot does.
pub proof fn lemma_rollback_restores_memory(memory: Map<int, u8>, edits: Seq<Edit>)
    requires
        forall|i: int| 0 <= i < edits.len() ==> #[trigger] replaces(memory, edits, i),
    ensures
        undone(applied(memory, edits), edits) == memory,
        written_back(applied(memory, edits), edits.reverse()) == memory,
{
    lemma_applied(memory, edits);
    lemma_undone(memory, applied(memory, edits), edits);
    lemma_undone_is_written_back(applied(memory, edits), edits);
}

/// Whether `list` has an entry for everything that differs between `before` and
/// `now`, and the first entry of each holds the value from before. The keys stand
/// for threads, with their instruction pointers, or for stack slots.
pub open spec fn recorded(
    before: Map<u64, u64>,
    now: Map<u64, u64>,
    list: Seq<(u64, u64)>,
) -> bool {
    &&& now.dom() == before.dom()
    &&& forall|i: int| 0 <= i < list.len() ==> #[trigger] records(before, list, i)
    &&& forall|key: u64| #[trigger]
        before.dom().contains(key) && now[key] != before[key] ==> listed(list, key)
}

/// Whether entry `i` of `list` has a known key, and holds its value from `before`
/// where it is the first entry for it.
pub open spec fn records(before: Map<u64, u64>, list: Seq<(u64, u64)>, i: int) -> bool {
    &&& before.dom().contains(list[i].0)
    &&& !listed(list.take(i), list[i].0) ==> before[list[i].0] == list[i].1
}

/// Whether `list` has an entry for `key`.
pub open spec fn listed(list: Seq<(u64, u64)>, key: u64) -> bool {
    exists|i: int| 0 <= i < list.len() && (#[trigger] list[i]).0 == key
}

/// The values after those of `list` were put back, from the last one to the first.
pub open spec fn put_back(now: Map<u64, u64>, list: Seq<(u64, u64)>) -> Map<u64, u64>
    decreases list.len(),
{
    if list.len() == 0 {
        now
    } else {
        put_back(now.insert(list.last().0, list.last().1), list.drop_last())
    }
}

/// A thread, or a stack slot, that is changed and recorded with the value that it
/// has leaves the record complete, also where it was changed before.
pub proof fn lemma_redirect_is_recorded(
    before: Map<u64, u64>,
    now: Map<u64, u64>,
    list: Seq<(u64, u64)>,
    key: u64,
    new: u64,
)
    requires
        recorded(before, now, list),
        before.dom().contains(key),
    ensures
        recorded(before, now.insert(key, new), list.push((key, now[key]))),
{
    let longer = list.push((key, now[key]));
    assert(now.insert(key, new).dom() =~= before.dom());
    assert forall|i: int| 0 <= i < longer.len() implies #[trigger] records(before, longer, i) by {
        if i < list.len() {
            assert(records(before, list, i));
            assert(longer[i] == list[i]);
            assert(longer.take(i) =~= list.take(i));
        } else {
            assert(longer.take(i) =~= list);
        }
    }
    assert forall|other: u64| #[trigger]
        before.dom().contains(other) && now.insert(key, new)[other]
            != before[other] implies listed(longer, other) by {
        if other == key {
            assert(longer[list.len() as int].0 == other);
        } else {
            let i = choose|i: int| 0 <= i < list.len() && (#[trigger] list[i]).0 == other;
            assert(longer[i].0 == other);
        }
    }
}

/// Putting back what was recorded, from the last entry to the first, restores every
/// thread and every stack slot, also those that were changed more than once: a
/// commit that fails leaves the threads as they were.
pub proof fn lemma_rollback_restores_threads(
    before: Map<u64, u64>,
    now: Map<u64, u64>,
    list: Seq<(u64, u64)>,
)
    requires
        recorded(before, now, list),
    ensures
        put_back(now, list) == before,
    decreases list.len(),
{
    if list.len() == 0 {
        assert forall|key: u64| #[trigger] before.dom().contains(key) implies now[key]
            == before[key] by {
            assert(!listed(list, key));
        }
        assert(now =~= before);
    } else {
        let last = list.last();
        let front = list.drop_last();
        let earlier = now.insert(last.0, last.1);
        assert(records(before, list, list.len() - 1));
        assert(list.take(list.len() - 1) =~= front);
        assert(earlier.dom() =~= before.dom());
        assert forall|i: int| 0 <= i < front.len() implies #[trigger] records(
            before,
            front,
            i,
        ) by {
            assert(records(before, list, i));
            assert(front[i] == list[i]);
            assert(front.take(i) =~= list.take(i));
        }
        assert forall|key: u64| #[trigger]
            before.dom().contains(key) && earlier[key] != before[key] implies listed(front, key) by {
            if key != last.0 {
                let i = choose|i: int| 0 <= i < list.len() && (#[trigger] list[i]).0 == key;
                assert(front[i] == list[i]);
            }
        }
        lemma_rollback_restores_threads(before, earlier, front);
    }
}

/// Unhooking an installed inline hook restores the memory from before it was
/// installed.
pub proof fn lemma_unhook_restores_memory(
    arch: Arch,
    memory: Map<int, u8>,
    data: InlineData,
    hook: InlineHook,
)
    requires
        data.wf(arch),
        installs(data, hook),
        holds(memory, data.target as int, data.orig_bytes@),
    ensures
        hook.undoable(),
        written(
            written(memory, hook.target as int, hook.patch@),
            hook.target as int,
            hook.orig_bytes@,
        ) == memory,
{
    assert(data.patch().len() == data.stolen_len) by {
        match data.jump_type {
            JumpType::Relative5 => {
                assert(data.jump_code().len() == 5);
            },
            JumpType::Absolute14 => {
                assert(data.jump_code().len() == 14);
            },
        }
    }
    assert(written(
        written(memory, hook.target as int, hook.patch@),
        hook.target as int,
        hook.orig_bytes@,
    ) =~= memory);
}

/// An enabled hook that is disabled and enabled again has the memory of an
/// enabled hook, and disabling it leaves the memory from before the hook.
pub proof fn lemma_toggle_round_trip(memory: Map<int, u8>, hook: InlineHook)
    requires
        hook.orig_bytes@.len() == hook.patch@.len(),
        holds(memory, hook.target as int, hook.orig_bytes@),
    ensures
        ({
            let at = hook.target as int;
            let enabled = written(memory, at, hook.patch@);
            let disabled = written(enabled, at, hook.orig_bytes@);
            disabled == memory && written(disabled, at, hook.patch@) == enabled
        }),
{
    let at = hook.target as int;
    let enabled = written(memory, at, hook.patch@);
    let disabled = written(enabled, at, hook.orig_bytes@);
    assert(disabled =~= memory);
}

} // verus!
