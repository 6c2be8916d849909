//! Toggling and removing installed hooks of every kind.
use vstd::prelude::*;

use crate::arch::Arch;
use crate::bytes::{le4, le8};
use crate::eat::{EatHook, EatHookError, InstalledEat};
use crate::iat::{import_slot, mapped_error, IatHookError, InternalIatHookError};
use crate::inline::TargetKind;
use crate::mem::{
    CodeWrite, CodeWriteOutcome, OsError, RestorePolicy, SlotWrite, WriteStage,
};
use crate::transaction::{
    applied, holds, lemma_rollback_restores_memory, replaces, undone, written, written_back,
    CommitAction, Edit, GatewayRegistry, Hook, IatHook, InlineHook,
};
use crate::vtable::{slot_result, VTableHook, VTableHookError, VTableInstanceHook};
use crate::DetourError;

verus! {

/// A write that a hook asks for: bytes over code, or a value into a slot.
#[derive(Debug)]
pub enum HookWrite {
    Code(CodeWrite),
    Slot(SlotWrite),
}

/// What the write of a hook came to.
#[derive(Debug)]
pub enum HookOutcome {
    Code(CodeWriteOutcome),
    Slot(Result<(), OsError>),
}

impl HookOutcome {
    /// Whether this can be what a write of `hook` came to.
    pub open spec fn fits(self, hook: Hook) -> bool {
        self is Code <==> hook is Inline
    }
}

/// The bytes of a value of `len` bytes.
pub open spec fn value_bytes(value: u64, len: int) -> Seq<u8> {
    if len == 4 {
        le4((value & 0xffff_ffff) as u32)
    } else {
        le8(value)
    }
}

impl HookWrite {
    /// Where the write goes.
    pub open spec fn address(self) -> int {
        match self {
            HookWrite::Code(edit) => edit.address as int,
            HookWrite::Slot(edit) => edit.slot as int,
        }
    }

    /// What is written.
    pub open spec fn bytes(self) -> Seq<u8> {
        match self {
            HookWrite::Code(edit) => edit.bytes@,
            HookWrite::Slot(edit) => value_bytes(edit.value, edit.len as int),
        }
    }

    /// Whether nothing was done for the write yet.
    pub open spec fn begins(self) -> bool {
        match self {
            HookWrite::Code(_) => true,
            HookWrite::Slot(edit) => edit.wf() && (edit.stage == WriteStage::Querying || edit.stage
                == WriteStage::Protecting),
        }
    }
}

/// What a hook replaces in memory while it is enabled.
pub open spec fn hook_edit(arch: Arch, hook: Hook) -> Edit {
    let len = arch.spec_pointer_size() as int;
    match hook {
        Hook::Inline(inline) => Edit {
            address: inline.target as int,
            old: inline.orig_bytes@,
            new: inline.patch@,
        },
        Hook::Iat(import) => Edit {
            address: import.slot as int,
            old: value_bytes(import.original_ptr, len),
            new: value_bytes(import.detour, len),
        },
        Hook::Eat(export) => Edit {
            address: export.slot_ptr as int,
            old: value_bytes(export.original_rva as u64, 4),
            new: value_bytes(export.detour_rva as u64, 4),
        },
        Hook::Vtable(table) => Edit {
            address: table.slot as int,
            old: value_bytes(table.original_ptr, len),
            new: value_bytes(table.detour, len),
        },
        Hook::VtableInstance(instance) => Edit {
            address: instance.object_vptr as int,
            old: value_bytes(instance.original_vtable, len),
            new: value_bytes(instance.cloned_vtable, len),
        },
    }
}

/// Whether a hook has a place to write to and a value to write there when it is
/// switched to `enable`.
pub open spec fn writable(hook: Hook, enable: bool) -> bool {
    match hook {
        Hook::Inline(_) => true,
        Hook::Iat(import) => import.slot != 0,
        Hook::Eat(export) => export.slot_ptr != 0,
        Hook::Vtable(table) => table.slot != 0,
        Hook::VtableInstance(instance) => instance.object_vptr != 0 && if enable {
            instance.cloned_vtable != 0
        } else {
            instance.original_vtable != 0
        },
    }
}

/// The hook with its switch set to `enable`.
pub open spec fn switched(hook: Hook, enable: bool) -> Hook {
    match hook {
        Hook::Inline(inline) => Hook::Inline(InlineHook { enabled: enable, ..inline }),
        Hook::Iat(import) => Hook::Iat(IatHook { enabled: enable, ..import }),
        Hook::Eat(export) => Hook::Eat(InstalledEat { enabled: enable, ..export }),
        Hook::Vtable(table) => Hook::Vtable(VTableHook { enabled: enable, ..table }),
        Hook::VtableInstance(instance) => Hook::VtableInstance(
            VTableInstanceHook { enabled: enable, ..instance },
        ),
    }
}

/// What switching a hook to `enable` results in, where it is not switched so
/// already.
pub open spec fn switch_result(hook: Hook, enable: bool, outcome: HookOutcome) -> Result<
    (),
    DetourError,
> {
    match (hook, outcome) {
        (Hook::Inline(_), HookOutcome::Code(code)) => if code.written {
            Ok(())
        } else {
            Err(DetourError::RelocationFailed)
        },
        (Hook::Iat(_), HookOutcome::Slot(slot)) => if !writable(hook, enable) {
            Err(DetourError::Iat(IatHookError::InvalidParameter))
        } else {
            match slot {
                Ok(_) => Ok(()),
                Err(reason) => Err(DetourError::Iat(IatHookError::ProtectFailed(reason))),
            }
        },
        (Hook::Eat(_), HookOutcome::Slot(slot)) => if !writable(hook, enable) {
            Err(DetourError::Eat(EatHookError::InvalidParameter))
        } else {
            match slot {
                Ok(_) => Ok(()),
                Err(reason) => Err(DetourError::Eat(EatHookError::ProtectFailed(reason))),
            }
        },
        (Hook::Vtable(table), HookOutcome::Slot(slot)) => slot_result(table.slot, slot),
        (Hook::VtableInstance(instance), HookOutcome::Slot(slot)) => if writable(hook, enable) {
            slot_result(instance.object_vptr, slot)
        } else {
            slot_result(0, slot)
        },
        _ => Err(DetourError::InvalidParameter),
    }
}

impl IatHook {
    /// Returns the write that points the slot at the detour or at the original
    /// function, `None` where it does already and for a hook without a slot.
    pub fn toggle_write(&self, arch: Arch, enable: bool) -> (write: Option<SlotWrite>)
        ensures
            match write {
                Some(begun) => {
                    &&& self.enabled != enable && self.slot != 0
                    &&& begun.wf() && begun.stage == WriteStage::Protecting
                    &&& begun.slot == self.slot
                    &&& begun.len == arch.spec_pointer_size()
                    &&& begun.value == if enable {
                        self.detour
                    } else {
                        self.original_ptr
                    }
                    &&& begun.policy == RestorePolicy::UndoAndRetry
                },
                None => self.enabled == enable || self.slot == 0,
            },
    {
        if self.enabled == enable || self.slot == 0 {
            return None;
        }
        let value: u64 = if enable {
            self.detour
        } else {
            self.original_ptr
        };
        Some(SlotWrite::plain(self.slot, arch.pointer_size(), value, RestorePolicy::UndoAndRetry))
    }

    /// Begins the write that puts the original pointer back into the import slot.
    /// The slot is looked up again in the module, which is mapped as `mapped`.
    pub fn perform_unhook(&self, arch: Arch, mapped: &[u8]) -> (write: Result<
        SlotWrite,
        DetourError,
    >)
        ensures
            match write {
                Ok(begun) => {
                    &&& self.module != 0 && self.original_ptr != 0
                    &&& import_slot(
                        arch,
                        mapped@,
                        self.module,
                        self.dll_name@,
                        self.func_name@,
                    ) == Ok::<u64, InternalIatHookError>(begun.slot)
                    &&& begun.wf() && begun.stage == WriteStage::Protecting
                    &&& begun.len == arch.spec_pointer_size()
                    &&& begun.value == self.original_ptr
                    &&& begun.policy == RestorePolicy::UndoAndRetry
                },
                Err(error) => if self.module == 0 || self.original_ptr == 0 {
                    error == DetourError::Iat(IatHookError::InvalidParameter)
                } else {
                    import_slot(
                        arch,
                        mapped@,
                        self.module,
                        self.dll_name@,
                        self.func_name@,
                    ) matches Err(reason) && error == DetourError::Iat(mapped_error(reason))
                },
            },
    {
        match crate::iat::IatHook::prepare(
            arch,
            mapped,
            self.module,
            self.dll_name.as_str(),
            self.func_name.as_str(),
            self.original_ptr,
        ) {
            Ok(begun) => Ok(begun),
            Err(error) => Err(DetourError::from(error)),
        }
    }

    /// Completes an unhook whose write came to `outcome`. A hook that could not
    /// be unhooked stays active.
    pub fn unhook(&mut self, outcome: Result<(), OsError>) -> (result: Result<(), DetourError>)
        ensures
            match outcome {
                Ok(_) => result == Ok::<(), DetourError>(()) && *final(self) == (IatHook {
                    active: false,
                    ..*old(self)
                }),
                Err(reason) => result == Err::<(), DetourError>(
                    DetourError::Iat(IatHookError::ProtectFailed(reason)),
                ) && *final(self) == *old(self),
            },
    {
        match outcome {
            Ok(()) => {
                self.active = false;
                Ok(())
            },
            Err(reason) => Err(DetourError::from(IatHookError::ProtectFailed(reason))),
        }
    }
}

impl InstalledEat {
    /// Returns the write that points the slot at the detour or at the original
    /// export, `None` where it does already and for a hook without a slot.
    pub fn toggle_write(&self, enable: bool) -> (write: Option<SlotWrite>)
        ensures
            match write {
                Some(begun) => {
                    &&& self.enabled != enable && self.slot_ptr != 0
                    &&& begun.wf() && begun.stage == WriteStage::Protecting
                    &&& begun.slot == self.slot_ptr
                    &&& begun.len == 4
                    &&& begun.value == if enable {
                        self.detour_rva
                    } else {
                        self.original_rva
                    }
                    &&& begun.policy == RestorePolicy::Keep
                },
                None => self.enabled == enable || self.slot_ptr == 0,
            },
    {
        if self.enabled == enable {
            return None;
        }
        let rva: u32 = if enable {
            self.detour_rva
        } else {
            self.original_rva
        };
        match EatHook::write_export_rva(self.slot_ptr, rva) {
            Ok(begun) => Some(begun),
            Err(_) => None,
        }
    }

    /// Begins the write that puts the original relative address back.
    pub fn perform_unhook(&self) -> (write: Result<SlotWrite, DetourError>)
        ensures
            match write {
                Ok(begun) => {
                    &&& self.slot_ptr != 0
                    &&& begun.wf() && begun.stage == WriteStage::Protecting
                    &&& begun.slot == self.slot_ptr
                    &&& begun.len == 4
                    &&& begun.value == self.original_rva
                    &&& begun.policy == RestorePolicy::Keep
                },
                Err(error) => self.slot_ptr == 0 && error == DetourError::Eat(
                    EatHookError::InvalidParameter,
                ),
            },
    {
        match EatHook::write_export_rva(self.slot_ptr, self.original_rva) {
            Ok(begun) => Ok(begun),
            Err(error) => Err(DetourError::from(error)),
        }
    }
}

impl Hook {
    /// Returns the write that enables or disables the hook, `None` where it is
    /// enabled or disabled already and where there is nothing to write to.
    pub fn toggle_write(&self, arch: Arch, enable: bool) -> (write: Option<HookWrite>)
        ensures
            match write {
                Some(begun) => {
                    &&& self.spec_enabled() != enable && writable(*self, enable)
                    &&& begun is Code <==> self is Inline
                    &&& begun.begins()
                    &&& begun.address() == hook_edit(arch, *self).address
                    &&& begun.bytes() == if enable {
                        hook_edit(arch, *self).new
                    } else {
                        hook_edit(arch, *self).old
                    }
                },
                None => self.spec_enabled() == enable || !writable(*self, enable),
            },
    {
        match self {
            Hook::Inline(inline) => match inline.toggle_write(enable) {
                Some(begun) => Some(HookWrite::Code(begun)),
                None => None,
            },
            Hook::Iat(import) => match import.toggle_write(arch, enable) {
                Some(begun) => Some(HookWrite::Slot(begun)),
                None => None,
            },
            Hook::Eat(export) => match export.toggle_write(enable) {
                Some(begun) => Some(HookWrite::Slot(begun)),
                None => None,
            },
            Hook::Vtable(table) => {
                let begun = if enable {
                    table.enable_write(arch)
                } else {
                    table.disable_write(arch)
                };
                match begun {
                    Some(begun) => Some(HookWrite::Slot(begun)),
                    None => None,
                }
            },
            Hook::VtableInstance(instance) => {
                let begun = if enable {
                    instance.enable_write(arch)
                } else {
                    instance.disable_write(arch)
                };
                match begun {
                    Some(begun) => Some(HookWrite::Slot(begun)),
                    None => None,
                }
            },
        }
    }

    /// Completes an enable whose write came to `outcome`.
    pub fn enable(&mut self, outcome: HookOutcome) -> (result: Result<(), DetourError>)
        requires
            outcome.fits(*old(self)),
        ensures
            old(self).spec_enabled() ==> result == Ok::<(), DetourError>(()) && *final(self)
                == *old(self),
            !old(self).spec_enabled() ==> result == switch_result(*old(self), true, outcome),
            !old(self).spec_enabled() && result is Ok ==> *final(self) == switched(
                *old(self),
                true,
            ),
            result is Err ==> *final(self) == *old(self),
    {
        self.switch(true, outcome)
    }

    /// Completes a disable whose write came to `outcome`. The hook can be enabled
    /// again.
    pub fn disable(&mut self, outcome: HookOutcome) -> (result: Result<(), DetourError>)
        requires
            outcome.fits(*old(self)),
        ensures
            !old(self).spec_enabled() ==> result == Ok::<(), DetourError>(()) && *final(self)
                == *old(self),
            old(self).spec_enabled() ==> result == switch_result(*old(self), false, outcome),
            old(self).spec_enabled() && result is Ok ==> *final(self) == switched(
                *old(self),
                false,
            ),
            result is Err ==> *final(self) == *old(self),
    {
        self.switch(false, outcome)
    }

    /// Completes an enable or a disable whose write came to `outcome`.
    fn switch(&mut self, enable: bool, outcome: HookOutcome) -> (result: Result<(), DetourError>)
        requires
            outcome.fits(*old(self)),
        ensures
            old(self).spec_enabled() == enable ==> result == Ok::<(), DetourError>(())
                && *final(self) == *old(self),
            old(self).spec_enabled() != enable ==> result == switch_result(
                *old(self),
                enable,
                outcome,
            ),
            old(self).spec_enabled() != enable && result is Ok ==> *final(self) == switched(
                *old(self),
                enable,
            ),
            result is Err ==> *final(self) == *old(self),
    {
        match outcome {
            HookOutcome::Code(code) => match self {
                Hook::Inline(inline) => inline.toggled(enable, code),
                _ => Ok(()),
            },
            HookOutcome::Slot(slot) => match self {
                Hook::Inline(_) => Ok(()),
                Hook::Iat(import) => {
                    if import.enabled == enable {
                        return Ok(());
                    }
                    if import.slot == 0 {
                        return Err(DetourError::from(IatHookError::InvalidParameter));
                    }
                    match slot {
                        Ok(()) => {
                            import.enabled = enable;
                            Ok(())
                        },
                        Err(reason) => Err(DetourError::from(IatHookError::ProtectFailed(reason))),
                    }
                },
                Hook::Eat(export) => {
                    if export.enabled == enable {
                        return Ok(());
                    }
                    if export.slot_ptr == 0 {
                        return Err(DetourError::from(EatHookError::InvalidParameter));
                    }
                    match slot {
                        Ok(()) => {
                            export.enabled = enable;
                            Ok(())
                        },
                        Err(reason) => Err(DetourError::from(EatHookError::ProtectFailed(reason))),
                    }
                },
                Hook::Vtable(table) => if enable {
                    table.enable(slot)
                } else {
                    table.disable(slot)
                },
                Hook::VtableInstance(instance) => if enable {
                    instance.enable(slot)
                } else {
                    instance.disable(slot)
                },
            },
        }
    }

    /// Begins the write that removes the hook: what was there before it is put
    /// back. `mapped` is the module of an import hook and not looked at
    /// otherwise.
    pub fn perform_unhook(&self, arch: Arch, mapped: &[u8]) -> (write: Result<
        HookWrite,
        DetourError,
    >)
        ensures
            match write {
                Ok(begun) => {
                    &&& begun is Code <==> self is Inline
                    &&& begun.begins()
                    &&& removable(arch, mapped@, *self) == Ok::<int, DetourError>(begun.address())
                    &&& begun.bytes() == hook_edit(arch, *self).old
                },
                Err(error) => removable(arch, mapped@, *self) == Err::<int, DetourError>(error),
            },
    {
        match self {
            Hook::Inline(inline) => match inline.perform_unhook() {
                Ok(begun) => Ok(HookWrite::Code(begun)),
                Err(error) => Err(error),
            },
            Hook::Iat(import) => match import.perform_unhook(arch, mapped) {
                Ok(begun) => Ok(HookWrite::Slot(begun)),
                Err(error) => Err(error),
            },
            Hook::Eat(export) => match export.perform_unhook() {
                Ok(begun) => Ok(HookWrite::Slot(begun)),
                Err(error) => Err(error),
            },
            Hook::Vtable(table) => match table.perform_unhook(arch) {
                Some(begun) => Ok(HookWrite::Slot(begun)),
                None => Err(
                    DetourError::from(VTableHookError::InvalidParameter),
                ),
            },
            Hook::VtableInstance(instance) => match instance.perform_unhook(arch) {
                Some(begun) => Ok(HookWrite::Slot(begun)),
                None => Err(
                    DetourError::from(VTableHookError::InvalidParameter),
                ),
            },
        }
    }

    /// Completes the removal of a hook whose write was begun and came to
    /// `outcome`. Returns the address of a cloned table that is to be released.
    pub fn unhook(&mut self, gateways: &mut GatewayRegistry, outcome: HookOutcome) -> (result:
        Result<Option<u64>, DetourError>)
        requires
            outcome.fits(*old(self)),
        ensures
            final(gateways)@ == gateways_after(old(gateways)@, *old(self), outcome),
            match removal_error(*old(self), outcome) {
                None => {
                    &&& *final(self) == retired(*old(self))
                    &&& result == Ok::<Option<u64>, DetourError>(
                        match *old(self) {
                            Hook::VtableInstance(instance) => Some(instance.cloned_vtable),
                            _ => None,
                        },
                    )
                },
                Some(error) => {
                    &&& *final(self) == *old(self)
                    &&& result == Err::<Option<u64>, DetourError>(error)
                },
            },
    {
        match outcome {
            HookOutcome::Code(code) => match self {
                Hook::Inline(inline) => match inline.unhook(gateways, code) {
                    Ok(()) => Ok(None),
                    Err(error) => Err(error),
                },
                _ => Ok(None),
            },
            HookOutcome::Slot(slot) => match self {
                Hook::Inline(_) => Ok(None),
                Hook::Iat(import) => match import.unhook(slot) {
                    Ok(()) => Ok(None),
                    Err(error) => Err(error),
                },
                Hook::Eat(export) => match slot {
                    Ok(()) => {
                        export.enabled = false;
                        Ok(None)
                    },
                    Err(reason) => Err(DetourError::from(EatHookError::ProtectFailed(reason))),
                },
                Hook::Vtable(table) => match table.unhook(slot) {
                    Ok(()) => Ok(None),
                    Err(error) => Err(error),
                },
                Hook::VtableInstance(instance) => match instance.unhook(slot) {
                    Ok(clone) => Ok(Some(clone)),
                    Err(error) => Err(error),
                },
            },
        }
    }
}

/// Why a hook whose removal came to `outcome` is not removed.
pub open spec fn removal_error(hook: Hook, outcome: HookOutcome) -> Option<DetourError> {
    match (hook, outcome) {
        (Hook::Inline(inline), HookOutcome::Code(code)) => if !inline.undoable() {
            Some(DetourError::InvalidParameter)
        } else if code.written && code.flushed && code.restored {
            None
        } else {
            Some(DetourError::RelocationFailed)
        },
        (Hook::VtableInstance(instance), HookOutcome::Slot(slot)) => if !instance.complete() {
            Some(DetourError::Vtable(VTableHookError::InvalidParameter))
        } else {
            match slot {
                Ok(_) => None,
                Err(reason) => Some(
                    DetourError::Vtable(VTableHookError::ProtectFailed(reason)),
                ),
            }
        },
        (Hook::Vtable(table), HookOutcome::Slot(slot)) => match slot_result(
            table.slot,
            slot,
        ) {
            Ok(_) => None,
            Err(error) => Some(error),
        },
        (Hook::Iat(_), HookOutcome::Slot(slot)) => match slot {
            Ok(_) => None,
            Err(reason) => Some(DetourError::Iat(IatHookError::ProtectFailed(reason))),
        },
        (Hook::Eat(_), HookOutcome::Slot(slot)) => match slot {
            Ok(_) => None,
            Err(reason) => Some(DetourError::Eat(EatHookError::ProtectFailed(reason))),
        },
        _ => None,
    }
}

/// The managed gateways after the removal of a hook came to `outcome`: a target
/// that was a gateway is one again when its bytes are back, and the gateway of a
/// removed inline hook is forgotten.
pub open spec fn gateways_after(gateways: Set<u64>, hook: Hook, outcome: HookOutcome) -> Set<u64> {
    match (hook, outcome) {
        (Hook::Inline(inline), HookOutcome::Code(code)) => {
            let restored = if inline.undoable() && code.written && inline.target_kind
                == TargetKind::ManagedGateway {
                gateways.insert(inline.target)
            } else {
                gateways
            };
            if removal_error(hook, outcome) is None {
                restored.remove(inline.trampoline.ptr)
            } else {
                restored
            }
        },
        _ => gateways,
    }
}

/// A hook after it was removed.
pub open spec fn retired(hook: Hook) -> Hook {
    match hook {
        Hook::Inline(inline) => Hook::Inline(InlineHook { active: false, ..inline }),
        Hook::Iat(import) => Hook::Iat(IatHook { active: false, ..import }),
        Hook::Eat(export) => Hook::Eat(InstalledEat { enabled: false, ..export }),
        Hook::Vtable(table) => Hook::Vtable(VTableHook { active: false, ..table }),
        Hook::VtableInstance(instance) => Hook::VtableInstance(
            VTableInstanceHook { cloned_vtable: 0, active: false, ..instance },
        ),
    }
}

/// Where the removal of a hook writes to, or why it cannot be removed.
pub open spec fn removable(arch: Arch, mapped: Seq<u8>, hook: Hook) -> Result<int, DetourError> {
    match hook {
        Hook::Inline(inline) => if inline.undoable() {
            Ok(inline.target as int)
        } else {
            Err(DetourError::InvalidParameter)
        },
        Hook::Iat(import) => if import.module == 0 || import.original_ptr == 0 {
            Err(DetourError::Iat(IatHookError::InvalidParameter))
        } else {
            match import_slot(arch, mapped, import.module, import.dll_name@, import.func_name@) {
                Ok(slot) => Ok(slot as int),
                Err(reason) => Err(DetourError::Iat(mapped_error(reason))),
            }
        },
        Hook::Eat(export) => if export.slot_ptr == 0 {
            Err(DetourError::Eat(EatHookError::InvalidParameter))
        } else {
            Ok(export.slot_ptr as int)
        },
        Hook::Vtable(table) => if table.slot == 0 {
            Err(DetourError::Vtable(VTableHookError::InvalidParameter))
        } else {
            Ok(table.slot as int)
        },
        Hook::VtableInstance(instance) => if instance.complete() {
            Ok(instance.object_vptr as int)
        } else {
            Err(DetourError::Vtable(VTableHookError::InvalidParameter))
        },
    }
}

/// A hook of any kind that is disabled leaves the memory from before it, and
/// enabling it again brings the memory of the enabled hook back.
pub proof fn lemma_hook_round_trip(arch: Arch, memory: Map<int, u8>, hook: Hook)
    requires
        hook_edit(arch, hook).old.len() == hook_edit(arch, hook).new.len(),
        holds(memory, hook_edit(arch, hook).address, hook_edit(arch, hook).old),
    ensures
        ({
            let edit = hook_edit(arch, hook);
            let enabled = written(memory, edit.address, edit.new);
            let disabled = written(enabled, edit.address, edit.old);
            &&& holds(enabled, edit.address, edit.new)
            &&& disabled == memory
            &&& written(disabled, edit.address, edit.new) == enabled
        }),
{
    let edit = hook_edit(arch, hook);
    let enabled = written(memory, edit.address, edit.new);
    let disabled = written(enabled, edit.address, edit.old);
    assert(disabled =~= memory);
}

/// A hook on a slot replaces as many bytes as there were.
pub proof fn lemma_slot_edit_keeps_length(arch: Arch, hook: Hook)
    requires
        !(hook is Inline),
    ensures
        hook_edit(arch, hook).old.len() == hook_edit(arch, hook).new.len(),
{
}

/// What hooks replace in memory, in their order.
pub open spec fn hook_edits(arch: Arch, hooks: Seq<Hook>) -> Seq<Edit> {
    hooks.map_values(|hook: Hook| hook_edit(arch, hook))
}

/// A commit that fails leaves the memory as it was: where each of the hooks that
/// it installed replaced bytes by as many bytes and knows what stood there, before
/// the commit or before itself, removing those hooks from the last to the first
/// brings every byte back. One place may be hooked more than once.
pub proof fn lemma_failed_commit_restores_memory(
    arch: Arch,
    memory: Map<int, u8>,
    hooks: Seq<Hook>,
)
    requires
        forall|i: int|
            0 <= i < hooks.len() ==> #[trigger] replaces(memory, hook_edits(arch, hooks), i),
    ensures
        undone(applied(memory, hook_edits(arch, hooks)), hook_edits(arch, hooks)) == memory,
        written_back(applied(memory, hook_edits(arch, hooks)), hook_edits(arch, hooks.reverse()))
            == memory,
{
    lemma_rollback_restores_memory(memory, hook_edits(arch, hooks));
    assert(hook_edits(arch, hooks.reverse()) =~= hook_edits(arch, hooks).reverse());
}

/// What a commit replaces in memory for a hook: that of an installed hook, or the
/// opposite of it for a hook that is disabled in order to be removed.
pub open spec fn action_edit(arch: Arch, hook: Hook, action: CommitAction) -> Edit {
    let edit = hook_edit(arch, hook);
    match action {
        CommitAction::Installed => edit,
        CommitAction::Detached => Edit { address: edit.address, old: edit.new, new: edit.old },
    }
}

/// What the actions of a commit replace in memory, in their order.
pub open spec fn action_edits(arch: Arch, actions: Seq<(Hook, CommitAction)>) -> Seq<Edit> {
    actions.map_values(|done: (Hook, CommitAction)| action_edit(arch, done.0, done.1))
}

/// A commit that fails after it has installed some hooks and disabled others leaves
/// the memory as it was: undoing its actions from the last to the first, which
/// removes what was installed and enables what was disabled, brings every byte back.
pub proof fn lemma_failed_commit_enables_again(
    arch: Arch,
    memory: Map<int, u8>,
    actions: Seq<(Hook, CommitAction)>,
)
    requires
        forall|i: int|
            0 <= i < actions.len() ==> #[trigger] replaces(memory, action_edits(arch, actions), i),
    ensures
        undone(applied(memory, action_edits(arch, actions)), action_edits(arch, actions)) == memory,
        written_back(
            applied(memory, action_edits(arch, actions)),
            action_edits(arch, actions.reverse()),
        ) == memory,
{
    lemma_rollback_restores_memory(memory, action_edits(arch, actions));
    assert(action_edits(arch, actions.reverse()) =~= action_edits(arch, actions).reverse());
}

} // verus!
