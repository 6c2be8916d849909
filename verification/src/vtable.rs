//! Hooks on virtual method tables.
use vstd::prelude::*;

use crate::arch::Arch;
use crate::mem::{OsError, RestorePolicy, SlotWrite, WriteStage};
use crate::DetourError;

verus! {

/// Why a table hook could not be prepared or written, in detail.
#[derive(Debug)]
pub enum InternalVTableHookError {
    NullVTable,
    NullDetour,
    NullObject,
    InvalidLength,
    IndexOutOfRange,
    AllocationFailed,
    ProtectFailed(OsError),
}

/// Why a table hook failed.
#[derive(Debug)]
pub enum VTableHookError {
    /// One or more pointers or arguments were invalid.
    InvalidParameter,
    /// Memory for a cloned table could not be allocated.
    AllocationFailed,
    /// Changing the page protection of the slot failed.
    ProtectFailed(OsError),
}

impl VTableHookError {
    /// The text of the error.
    pub open spec fn text(self) -> Seq<char> {
        match self {
            VTableHookError::InvalidParameter => "invalid VTable hook parameters"@,
            VTableHookError::AllocationFailed => "failed to allocate memory for cloned VTable"@,
            VTableHookError::ProtectFailed(error) => "failed to change page protection: "@
                + error.message@,
        }
    }

    /// Returns the text of the error.
    pub fn to_string(&self) -> (text: String)
        ensures
            text@ == self.text(),
    {
        match self {
            VTableHookError::InvalidParameter => "invalid VTable hook parameters".to_owned(),
            VTableHookError::AllocationFailed =>
                "failed to allocate memory for cloned VTable".to_owned(),
            VTableHookError::ProtectFailed(error) => {
                let mut text: String = "failed to change page protection: ".to_owned();
                text.append(error.message.as_str());
                text
            },
        }
    }
}

/// The public form of an error.
pub open spec fn mapped_error(error: InternalVTableHookError) -> VTableHookError {
    match error {
        InternalVTableHookError::AllocationFailed => VTableHookError::AllocationFailed,
        InternalVTableHookError::ProtectFailed(reason) => VTableHookError::ProtectFailed(reason),
        _ => VTableHookError::InvalidParameter,
    }
}

impl From<InternalVTableHookError> for VTableHookError {
    fn from(error: InternalVTableHookError) -> (mapped: VTableHookError) {
        match error {
            InternalVTableHookError::NullVTable | InternalVTableHookError::NullDetour
            | InternalVTableHookError::NullObject | InternalVTableHookError::InvalidLength
            | InternalVTableHookError::IndexOutOfRange => VTableHookError::InvalidParameter,
            InternalVTableHookError::AllocationFailed => VTableHookError::AllocationFailed,
            InternalVTableHookError::ProtectFailed(reason) => VTableHookError::ProtectFailed(
                reason,
            ),
        }
    }
}

impl vstd::std_specs::convert::FromSpecImpl<InternalVTableHookError> for VTableHookError {
    open spec fn obeys_from_spec() -> bool {
        true
    }

    open spec fn from_spec(error: InternalVTableHookError) -> VTableHookError {
        mapped_error(error)
    }
}

/// Returns the public form of an error.
pub fn map_err(error: InternalVTableHookError) -> (mapped: VTableHookError)
    ensures
        mapped == mapped_error(error),
{
    VTableHookError::from(error)
}

/// The address of slot `index` of the table at `vtable`.
pub open spec fn slot_address(arch: Arch, vtable: u64, index: usize) -> u64 {
    arch.displaced(vtable, index * arch.spec_pointer_size())
}

/// Returns the address of slot `index` of the table at `vtable`.
pub fn slot_of(arch: Arch, vtable: u64, index: usize) -> (slot: u64)
    ensures
        slot == slot_address(arch, vtable, index),
{
    match arch {
        Arch::X86 => arch.displace(vtable, index as i128 * 4),
        Arch::X64 => arch.displace(vtable, index as i128 * 8),
    }
}

/// An installed hook on one slot of a table.
///
/// The slot itself is patched, so every object that dispatches through the table
/// observes the hook.
#[derive(Debug)]
pub struct VTableHook {
    pub slot: u64,
    pub original_ptr: u64,
    pub detour: u64,
    pub active: bool,
    pub enabled: bool,
}

impl VTableHook {
    /// Begins the write that points slot `index` of `vtable` at `detour`.
    pub fn prepare(arch: Arch, vtable: u64, index: usize, detour: u64) -> (write: Result<
        SlotWrite,
        VTableHookError,
    >)
        ensures
            match write {
                Ok(begun) => {
                    &&& vtable != 0 && detour != 0
                    &&& begun.wf() && begun.stage == WriteStage::Querying
                    &&& begun.slot == slot_address(arch, vtable, index)
                    &&& begun.len == arch.spec_pointer_size()
                    &&& begun.value == detour
                    &&& begun.policy == RestorePolicy::UndoAndRetry
                },
                Err(error) => (vtable == 0 || detour == 0) && error
                    == VTableHookError::InvalidParameter,
            },
    {
        if vtable == 0 {
            return Err(map_err(InternalVTableHookError::NullVTable));
        }
        if detour == 0 {
            return Err(map_err(InternalVTableHookError::NullDetour));
        }
        let slot: u64 = slot_of(arch, vtable, index);
        Ok(
            SlotWrite::keeping_execution(
                slot,
                arch.pointer_size(),
                detour,
                RestorePolicy::UndoAndRetry,
            ),
        )
    }

    /// Turns the finished write of a slot into the installed hook.
    ///
    /// On an error the slot holds its original pointer.
    pub fn install(write: SlotWrite) -> (hook: Result<VTableHook, VTableHookError>)
        requires
            write.wf(),
            write.stage == WriteStage::Finished,
            write.policy == RestorePolicy::UndoAndRetry,
        ensures
            match hook {
                Ok(installed) => {
                    &&& write.failure is None && write.stored
                    &&& installed.slot == write.slot
                    &&& installed.original_ptr == write.original
                    &&& installed.detour == write.value
                    &&& installed.active && installed.enabled
                },
                Err(error) => write.failure matches Some(reason) && error
                    == VTableHookError::ProtectFailed(reason) && !write.stored,
            },
    {
        match write.failure {
            Some(reason) => Err(map_err(InternalVTableHookError::ProtectFailed(reason))),
            None => Ok(
                VTableHook {
                    slot: write.slot,
                    original_ptr: write.original,
                    detour: write.value,
                    active: true,
                    enabled: true,
                },
            ),
        }
    }

    /// Returns the function pointer that the slot held before.
    pub fn original_ptr(&self) -> (pointer: u64)
        ensures
            pointer == self.original_ptr,
    {
        self.original_ptr
    }

    /// Returns whether the slot points at the detour.
    pub fn is_enabled(&self) -> (enabled: bool)
        ensures
            enabled == self.enabled,
    {
        self.enabled
    }

    /// Returns the write that disables the hook, `None` where nothing is to be
    /// written.
    pub fn disable_write(&self, arch: Arch) -> (write: Option<SlotWrite>)
        ensures
            match write {
                Some(begun) => self.enabled && self.slot != 0 && begins_slot_write(
                    arch,
                    begun,
                    self.slot,
                    self.original_ptr,
                ),
                None => !self.enabled || self.slot == 0,
            },
    {
        if !self.enabled {
            return None;
        }
        write_slot(arch, self.slot, self.original_ptr)
    }

    /// Returns the write that enables the hook, `None` where nothing is to be
    /// written.
    pub fn enable_write(&self, arch: Arch) -> (write: Option<SlotWrite>)
        ensures
            match write {
                Some(begun) => !self.enabled && self.slot != 0 && begins_slot_write(
                    arch,
                    begun,
                    self.slot,
                    self.detour,
                ),
                None => self.enabled || self.slot == 0,
            },
    {
        if self.enabled {
            return None;
        }
        write_slot(arch, self.slot, self.detour)
    }

    /// Completes a disable whose write came to `outcome`: the slot holds its
    /// original pointer again, and the hook can be enabled later.
    pub fn disable(&mut self, outcome: Result<(), OsError>) -> (result: Result<(), DetourError>)
        ensures
            !old(self).enabled ==> result == Ok::<(), DetourError>(()) && *final(self)
                == *old(self),
            old(self).enabled ==> result == slot_result(old(self).slot, outcome),
            old(self).enabled && result is Ok ==> *final(self) == (VTableHook {
                enabled: false,
                ..*old(self)
            }),
            result is Err ==> *final(self) == *old(self),
    {
        if !self.enabled {
            return Ok(());
        }
        match finish_slot_write(self.slot, outcome) {
            Ok(()) => {
                self.enabled = false;
                Ok(())
            },
            Err(error) => Err(error),
        }
    }

    /// Completes an enable whose write came to `outcome`: the slot holds the
    /// detour again.
    pub fn enable(&mut self, outcome: Result<(), OsError>) -> (result: Result<(), DetourError>)
        ensures
            old(self).enabled ==> result == Ok::<(), DetourError>(()) && *final(self)
                == *old(self),
            !old(self).enabled ==> result == slot_result(old(self).slot, outcome),
            !old(self).enabled && result is Ok ==> *final(self) == (VTableHook {
                enabled: true,
                ..*old(self)
            }),
            result is Err ==> *final(self) == *old(self),
    {
        if self.enabled {
            return Ok(());
        }
        match finish_slot_write(self.slot, outcome) {
            Ok(()) => {
                self.enabled = true;
                Ok(())
            },
            Err(error) => Err(error),
        }
    }

    /// Returns the write that puts the original pointer back, `None` for a hook
    /// without a slot.
    pub fn perform_unhook(&self, arch: Arch) -> (write: Option<SlotWrite>)
        ensures
            match write {
                Some(begun) => self.slot != 0 && begins_slot_write(
                    arch,
                    begun,
                    self.slot,
                    self.original_ptr,
                ),
                None => self.slot == 0,
            },
    {
        write_slot(arch, self.slot, self.original_ptr)
    }

    /// Completes an unhook whose write came to `outcome`. A hook that could not
    /// be unhooked stays active.
    pub fn unhook(&mut self, outcome: Result<(), OsError>) -> (result: Result<(), DetourError>)
        ensures
            result == slot_result(old(self).slot, outcome),
            result is Ok ==> *final(self) == (VTableHook { active: false, ..*old(self) }),
            result is Err ==> *final(self) == *old(self),
    {
        match finish_slot_write(self.slot, outcome) {
            Ok(()) => {
                self.active = false;
                Ok(())
            },
            Err(error) => Err(error),
        }
    }
}

/// Whether `write` begins the exchange of the pointer in `slot` for `value`.
pub open spec fn begins_slot_write(arch: Arch, write: SlotWrite, slot: u64, value: u64) -> bool {
    &&& write.wf()
    &&& write.stage == WriteStage::Querying
    &&& write.slot == slot
    &&& write.len == arch.spec_pointer_size()
    &&& write.value == value
    &&& write.policy == RestorePolicy::Keep
}

/// What the write of a slot results in.
pub open spec fn slot_result(slot: u64, outcome: Result<(), OsError>) -> Result<(), DetourError> {
    if slot == 0 {
        Err(DetourError::Vtable(VTableHookError::InvalidParameter))
    } else {
        match outcome {
            Ok(_) => Ok(()),
            Err(reason) => Err(DetourError::Vtable(VTableHookError::ProtectFailed(reason))),
        }
    }
}

/// Begins the write of a pointer to a slot, `None` for a null slot.
fn write_slot(arch: Arch, slot: u64, value: u64) -> (write: Option<SlotWrite>)
    ensures
        match write {
            Some(begun) => slot != 0 && begins_slot_write(arch, begun, slot, value),
            None => slot == 0,
        },
{
    if slot == 0 {
        return None;
    }
    Some(SlotWrite::keeping_execution(slot, arch.pointer_size(), value, RestorePolicy::Keep))
}

/// Returns what the write of a slot results in.
fn finish_slot_write(slot: u64, outcome: Result<(), OsError>) -> (result: Result<(), DetourError>)
    ensures
        result == slot_result(slot, outcome),
{
    if slot == 0 {
        return Err(DetourError::Vtable(map_err(InternalVTableHookError::NullVTable)));
    }
    match outcome {
        Ok(()) => Ok(()),
        Err(reason) => Err(
            DetourError::Vtable(map_err(InternalVTableHookError::ProtectFailed(reason))),
        ),
    }
}

/// An installed hook on one object.
///
/// The object's table is cloned, the clone is patched, and the object is pointed
/// at the clone. Only that object is affected.
#[derive(Debug)]
pub struct VTableInstanceHook {
    pub object_vptr: u64,
    pub original_vtable: u64,
    pub cloned_vtable: u64,
    pub vtable_len: usize,
    pub original_ptr: u64,
    pub active: bool,
    pub enabled: bool,
}

/// A cloned table that is ready to be written: its content, and the pointer that
/// the hooked slot held.
#[derive(Debug)]
pub struct ClonedTable {
    pub object_vptr: u64,
    pub original_vtable: u64,
    pub entries: Vec<u64>,
    pub original_ptr: u64,
}

impl VTableInstanceHook {
    /// Checks the arguments of an instance hook and returns the address of the
    /// table to clone: `object_vptr` holds `vtable`.
    pub fn validate(object_vptr: u64, vtable: u64, vtable_len: usize, index: usize, detour: u64) -> (
    result: Result<(), VTableHookError>)
        ensures
            match result {
                Ok(_) => object_vptr != 0 && detour != 0 && index < vtable_len && vtable != 0,
                Err(error) => (object_vptr == 0 || detour == 0 || index >= vtable_len || vtable
                    == 0) && error == VTableHookError::InvalidParameter,
            },
    {
        if object_vptr == 0 {
            return Err(map_err(InternalVTableHookError::NullObject));
        }
        if detour == 0 {
            return Err(map_err(InternalVTableHookError::NullDetour));
        }
        if vtable_len == 0 {
            return Err(map_err(InternalVTableHookError::InvalidLength));
        }
        if index >= vtable_len {
            return Err(map_err(InternalVTableHookError::IndexOutOfRange));
        }
        if vtable == 0 {
            return Err(map_err(InternalVTableHookError::NullVTable));
        }
        Ok(())
    }

    /// Clones the table of an object with slot `index` pointed at `detour`.
    ///
    /// `entries` are the pointers of the table at `vtable`, to which the object
    /// points.
    pub fn prepare(object_vptr: u64, vtable: u64, entries: Vec<u64>, index: usize, detour: u64) -> (
    clone: Result<ClonedTable, VTableHookError>)
        ensures
            match clone {
                Ok(table) => {
                    &&& object_vptr != 0 && detour != 0 && index < entries@.len() && vtable != 0
                    &&& table.object_vptr == object_vptr
                    &&& table.original_vtable == vtable
                    &&& table.entries@ == entries@.update(index as int, detour)
                    &&& table.original_ptr == entries@[index as int]
                },
                Err(error) => (object_vptr == 0 || detour == 0 || index >= entries@.len()
                    || vtable == 0) && error == VTableHookError::InvalidParameter,
            },
    {
        match VTableInstanceHook::validate(object_vptr, vtable, entries.len(), index, detour) {
            Ok(()) => {},
            Err(error) => {
                return Err(error);
            },
        }
        let mut table = entries;
        let original_ptr: u64 = table[index];
        table.set(index, detour);
        Ok(ClonedTable { object_vptr, original_vtable: vtable, entries: table, original_ptr })
    }

    /// Begins the write that points the object at its cloned table, which was
    /// allocated at `clone`.
    pub fn redirect(arch: Arch, table: &ClonedTable, clone: Option<u64>) -> (write: Result<
        SlotWrite,
        VTableHookError,
    >)
        ensures
            match write {
                Ok(begun) => {
                    &&& clone == Some(begun.value)
                    &&& begun.wf() && begun.stage == WriteStage::Querying
                    &&& begun.slot == table.object_vptr
                    &&& begun.len == arch.spec_pointer_size()
                    &&& begun.policy == RestorePolicy::Undo
                },
                Err(error) => clone is None && error == VTableHookError::AllocationFailed,
            },
    {
        match clone {
            Some(address) => Ok(
                SlotWrite::keeping_execution(
                    table.object_vptr,
                    arch.pointer_size(),
                    address,
                    RestorePolicy::Undo,
                ),
            ),
            None => Err(map_err(InternalVTableHookError::AllocationFailed)),
        }
    }

    /// Turns the finished write of the object's table pointer into the installed
    /// hook. On an error the object points at its original table, and the clone
    /// is to be released.
    pub fn install(table: &ClonedTable, write: SlotWrite) -> (hook: Result<
        VTableInstanceHook,
        VTableHookError,
    >)
        requires
            write.wf(),
            write.stage == WriteStage::Finished,
            write.policy == RestorePolicy::Undo,
            write.slot == table.object_vptr,
        ensures
            match hook {
                Ok(installed) => {
                    &&& write.failure is None && write.stored
                    &&& installed.object_vptr == table.object_vptr
                    &&& installed.original_vtable == table.original_vtable
                    &&& installed.cloned_vtable == write.value
                    &&& installed.vtable_len == table.entries@.len()
                    &&& installed.original_ptr == table.original_ptr
                    &&& installed.active && installed.enabled
                },
                Err(error) => write.failure matches Some(reason) && error
                    == VTableHookError::ProtectFailed(reason) && !write.stored,
            },
    {
        match write.failure {
            Some(reason) => Err(map_err(InternalVTableHookError::ProtectFailed(reason))),
            None => Ok(
                VTableInstanceHook {
                    object_vptr: table.object_vptr,
                    original_vtable: table.original_vtable,
                    cloned_vtable: write.value,
                    vtable_len: table.entries.len(),
                    original_ptr: table.original_ptr,
                    active: true,
                    enabled: true,
                },
            ),
        }
    }

    /// Returns the function pointer that the hooked slot held before.
    pub fn original_ptr(&self) -> (pointer: u64)
        ensures
            pointer == self.original_ptr,
    {
        self.original_ptr
    }

    /// Returns whether the object dispatches through the cloned table.
    pub fn is_enabled(&self) -> (enabled: bool)
        ensures
            enabled == self.enabled,
    {
        self.enabled
    }

    /// Returns the write that disables the hook, `None` where nothing is to be
    /// written.
    pub fn disable_write(&self, arch: Arch) -> (write: Option<SlotWrite>)
        ensures
            match write {
                Some(begun) => self.enabled && self.object_vptr != 0 && self.original_vtable != 0
                    && begins_slot_write(arch, begun, self.object_vptr, self.original_vtable),
                None => !self.enabled || self.object_vptr == 0 || self.original_vtable == 0,
            },
    {
        if !self.enabled || self.original_vtable == 0 {
            return None;
        }
        write_slot(arch, self.object_vptr, self.original_vtable)
    }

    /// Returns the write that enables the hook, `None` where nothing is to be
    /// written.
    pub fn enable_write(&self, arch: Arch) -> (write: Option<SlotWrite>)
        ensures
            match write {
                Some(begun) => !self.enabled && self.object_vptr != 0 && self.cloned_vtable != 0
                    && begins_slot_write(arch, begun, self.object_vptr, self.cloned_vtable),
                None => self.enabled || self.object_vptr == 0 || self.cloned_vtable == 0,
            },
    {
        if self.enabled || self.cloned_vtable == 0 {
            return None;
        }
        write_slot(arch, self.object_vptr, self.cloned_vtable)
    }

    /// Completes a disable whose write came to `outcome`: the object points at
    /// its original table, and the clone is kept.
    pub fn disable(&mut self, outcome: Result<(), OsError>) -> (result: Result<(), DetourError>)
        ensures
            !old(self).enabled ==> result == Ok::<(), DetourError>(()) && *final(self)
                == *old(self),
            old(self).enabled && old(self).original_vtable == 0 ==> result == slot_result(
                0,
                outcome,
            ),
            old(self).enabled && old(self).original_vtable != 0 ==> result == slot_result(
                old(self).object_vptr,
                outcome,
            ),
            old(self).enabled && result is Ok ==> *final(self) == (VTableInstanceHook {
                enabled: false,
                ..*old(self)
            }),
            result is Err ==> *final(self) == *old(self),
    {
        if !self.enabled {
            return Ok(());
        }
        let slot: u64 = if self.original_vtable == 0 {
            0
        } else {
            self.object_vptr
        };
        match finish_slot_write(slot, outcome) {
            Ok(()) => {
                self.enabled = false;
                Ok(())
            },
            Err(error) => Err(error),
        }
    }

    /// Completes an enable whose write came to `outcome`: the object points at
    /// the cloned table.
    pub fn enable(&mut self, outcome: Result<(), OsError>) -> (result: Result<(), DetourError>)
        ensures
            old(self).enabled ==> result == Ok::<(), DetourError>(()) && *final(self)
                == *old(self),
            !old(self).enabled && old(self).cloned_vtable == 0 ==> result == slot_result(
                0,
                outcome,
            ),
            !old(self).enabled && old(self).cloned_vtable != 0 ==> result == slot_result(
                old(self).object_vptr,
                outcome,
            ),
            !old(self).enabled && result is Ok ==> *final(self) == (VTableInstanceHook {
                enabled: true,
                ..*old(self)
            }),
            result is Err ==> *final(self) == *old(self),
    {
        if self.enabled {
            return Ok(());
        }
        let slot: u64 = if self.cloned_vtable == 0 {
            0
        } else {
            self.object_vptr
        };
        match finish_slot_write(slot, outcome) {
            Ok(()) => {
                self.enabled = true;
                Ok(())
            },
            Err(error) => Err(error),
        }
    }

    /// Whether the hook still has an object, both tables and a length.
    pub open spec fn complete(self) -> bool {
        self.object_vptr != 0 && self.original_vtable != 0 && self.cloned_vtable != 0
            && self.vtable_len != 0
    }

    /// Returns the write that points the object at its original table, `None` for
    /// a hook that is not complete.
    pub fn perform_unhook(&self, arch: Arch) -> (write: Option<SlotWrite>)
        ensures
            match write {
                Some(begun) => self.complete() && begins_slot_write(
                    arch,
                    begun,
                    self.object_vptr,
                    self.original_vtable,
                ),
                None => !self.complete(),
            },
    {
        if self.object_vptr == 0 || self.original_vtable == 0 || self.cloned_vtable == 0
            || self.vtable_len == 0 {
            return None;
        }
        write_slot(arch, self.object_vptr, self.original_vtable)
    }

    /// Completes an unhook whose write came to `outcome`, and returns the address
    /// of the clone that is to be released. The hook forgets the clone, so that
    /// it is released once.
    pub fn unhook(&mut self, outcome: Result<(), OsError>) -> (result: Result<u64, DetourError>)
        ensures
            match result {
                Ok(clone) => {
                    &&& old(self).complete() && outcome is Ok
                    &&& clone == old(self).cloned_vtable
                    &&& *final(self) == (VTableInstanceHook {
                        cloned_vtable: 0,
                        active: false,
                        ..*old(self)
                    })
                },
                Err(error) => {
                    &&& *final(self) == *old(self)
                    &&& error == if old(self).complete() {
                        DetourError::Vtable(VTableHookError::ProtectFailed(outcome->Err_0))
                    } else {
                        DetourError::Vtable(VTableHookError::InvalidParameter)
                    }
                    &&& old(self).complete() ==> outcome is Err
                },
            },
    {
        if self.object_vptr == 0 || self.original_vtable == 0 || self.cloned_vtable == 0
            || self.vtable_len == 0 {
            return Err(DetourError::Vtable(map_err(InternalVTableHookError::NullObject)));
        }
        match finish_slot_write(self.object_vptr, outcome) {
            Ok(()) => {
                let clone: u64 = self.cloned_vtable;
                self.cloned_vtable = 0;
                self.active = false;
                Ok(clone)
            },
            Err(error) => Err(error),
        }
    }
}

} // verus!
