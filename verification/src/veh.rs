//! Hooks by a hardware breakpoint: no byte of the target is changed.
use vstd::prelude::*;

use crate::arch::Arch;
use crate::slots::{slot_for, SlotError, SlotTable};

verus! {

/// The number of hardware breakpoint registers.
pub const SLOT_COUNT: usize = 4;

/// The exception that a hardware breakpoint raises.
pub const STATUS_SINGLE_STEP: u32 = 0x8000_0004;

/// Why a hardware breakpoint hook failed.
#[derive(Clone, Copy, Debug, PartialEq, Eq, Structural)]
pub enum VehHookError {
    /// A null target or detour was given.
    InvalidParameter,
    /// All hardware breakpoint registers are in use.
    NoFreeSlot,
    /// The target is hooked already.
    AlreadyHooked,
    /// The exception handler could not be registered.
    HandlerRegistrationFailed,
}

impl VehHookError {
    /// The text of the error.
    pub open spec fn text(self) -> Seq<char> {
        match self {
            VehHookError::InvalidParameter => "invalid VEH hook parameters"@,
            VehHookError::NoFreeSlot => "all four hardware breakpoint slots are in use"@,
            VehHookError::AlreadyHooked => "target address is already VEH-hooked"@,
            VehHookError::HandlerRegistrationFailed =>
                "failed to register the vectored exception handler"@,
        }
    }

    /// Returns the text of the error.
    pub fn to_string(&self) -> (text: String)
        ensures
            text@ == self.text(),
    {
        match self {
            VehHookError::InvalidParameter => "invalid VEH hook parameters".to_owned(),
            VehHookError::NoFreeSlot => "all four hardware breakpoint slots are in use".to_owned(),
            VehHookError::AlreadyHooked => "target address is already VEH-hooked".to_owned(),
            VehHookError::HandlerRegistrationFailed =>
                "failed to register the vectored exception handler".to_owned(),
        }
    }
}

/// The hardware breakpoint hooks of a process: the slots, the handle of the
/// exception handler (0 while there is none), and the number of installed hooks.
#[derive(Debug)]
pub struct VehManager {
    pub table: SlotTable,
    pub handler: u64,
    pub count: usize,
}

/// An installed hardware breakpoint hook.
#[derive(Debug)]
pub struct VehHook {
    pub target: u64,
    pub detour: u64,
    pub slot: usize,
    pub active: bool,
}

/// What the removal of a hook came to: the slot that was freed, whose breakpoint was
/// cleared on every thread before, and an exception handler that no hook needs any
/// more and that is to be removed.
#[derive(Clone, Copy, Debug, PartialEq, Eq, Structural)]
pub struct VehRemoval {
    pub slot: usize,
    pub remove_handler: Option<u64>,
}

impl VehManager {
    /// The table has its size, and hooks are counted at most as often as there
    /// are used slots.
    pub open spec fn wf(self) -> bool {
        &&& self.table.wf()
        &&& self.table.targets@.len() == SLOT_COUNT
        &&& self.count <= self.table.used() <= SLOT_COUNT
    }

    /// Returns a manager without hooks.
    pub fn new() -> (manager: VehManager)
        ensures
            manager.wf(),
            manager.table.used() == 0,
            manager.handler == 0,
            manager.count == 0,
    {
        VehManager { table: SlotTable::new(SLOT_COUNT), handler: 0, count: 0 }
    }

    /// Checks an installation and reserves its slot.
    pub fn reserve(&self, target: u64, detour: u64) -> (slot: Result<usize, VehHookError>)
        requires
            self.wf(),
        ensures
            match slot {
                Ok(index) => {
                    &&& target != 0 && detour != 0
                    &&& slot_for(self.table.targets@, target) == Ok::<int, SlotError>(index as int)
                    &&& index < SLOT_COUNT && self.table.targets@[index as int] == 0
                    &&& !self.table.targets@.contains(target)
                },
                Err(error) => if target == 0 || detour == 0 {
                    error == VehHookError::InvalidParameter
                } else {
                    match slot_for(self.table.targets@, target) {
                        Ok(_) => false,
                        Err(SlotError::AlreadyHooked) => error == VehHookError::AlreadyHooked,
                        Err(SlotError::NoFreeSlot) => error == VehHookError::NoFreeSlot,
                    }
                },
            },
    {
        if target == 0 || detour == 0 {
            return Err(VehHookError::InvalidParameter);
        }
        match self.table.reserve(target) {
            Ok(index) => Ok(index),
            Err(SlotError::AlreadyHooked) => Err(VehHookError::AlreadyHooked),
            Err(SlotError::NoFreeSlot) => Err(VehHookError::NoFreeSlot),
        }
    }

    /// Returns whether an exception handler has to be registered first.
    pub fn needs_handler(&self) -> (needs: bool)
        ensures
            needs == (self.handler == 0),
    {
        self.handler == 0
    }

    /// Installs a hook in a reserved slot. The breakpoint of the slot is then to
    /// be set on every thread.
    ///
    /// `registered` is the handle of the exception handler where one had to be
    /// registered.
    pub fn install(&mut self, slot: usize, target: u64, detour: u64, registered: Option<u64>) -> (
    hook: Result<VehHook, VehHookError>)
        requires
            old(self).wf(),
            slot < SLOT_COUNT,
            old(self).table.targets@[slot as int] == 0,
            !old(self).table.targets@.contains(target),
            target != 0,
            detour != 0,
        ensures
            final(self).wf(),
            match hook {
                Ok(installed) => {
                    &&& installed == (VehHook { target, detour, slot, active: true })
                    &&& final(self).table.targets@ == old(self).table.targets@.update(
                        slot as int,
                        target,
                    )
                    &&& final(self).table.detours@ == old(self).table.detours@.update(
                        slot as int,
                        detour,
                    )
                    &&& final(self).count == old(self).count + 1
                    &&& if old(self).handler == 0 {
                        registered == Some(final(self).handler) && final(self).handler != 0
                    } else {
                        final(self).handler == old(self).handler
                    }
                },
                Err(error) => {
                    &&& error == VehHookError::HandlerRegistrationFailed
                    &&& old(self).handler == 0
                    &&& registered is None || registered == Some(0u64)
                    &&& *final(self) == *old(self)
                },
            },
    {
        if self.handler == 0 {
            match registered {
                Some(handle) => {
                    if handle == 0 {
                        return Err(VehHookError::HandlerRegistrationFailed);
                    }
                    self.handler = handle;
                },
                None => {
                    return Err(VehHookError::HandlerRegistrationFailed);
                },
            }
        }
        self.table.publish(slot, target, detour);
        self.count = self.count + 1;
        Ok(VehHook { target, detour, slot, active: true })
    }

    /// Removes a hook whose breakpoint was cleared on every thread: its slot is
    /// freed, and the handler is removed with the last hook. A hook that is
    /// removed already asks for nothing.
    pub fn remove(&mut self, hook: &mut VehHook) -> (removal: Option<VehRemoval>)
        requires
            old(self).wf(),
            old(hook).active ==> old(hook).slot < SLOT_COUNT && old(self).table.targets@[old(
                hook,
            ).slot as int] == old(hook).target && old(hook).target != 0,
        ensures
            final(self).wf(),
            *final(hook) == (VehHook { active: false, ..*old(hook) }),
            match removal {
                Some(asked) => {
                    let count = if old(self).count > 0 {
                        old(self).count - 1
                    } else {
                        0
                    };
                    &&& old(hook).active
                    &&& asked.slot == old(hook).slot
                    &&& final(self).table.targets@ == old(self).table.targets@.update(
                        old(hook).slot as int,
                        0,
                    )
                    &&& final(self).table.detours@ == old(self).table.detours@.update(
                        old(hook).slot as int,
                        0,
                    )
                    &&& final(self).count == count
                    &&& final(self).handler == if count == 0 {
                        0
                    } else {
                        old(self).handler
                    }
                    &&& asked.remove_handler == if count == 0 && old(self).handler != 0 {
                        Some(old(self).handler)
                    } else {
                        None
                    }
                },
                None => !old(hook).active && *final(self) == *old(self),
            },
    {
        if !hook.active {
            return None;
        }
        hook.active = false;
        self.table.clear(hook.slot);
        if self.count > 0 {
            self.count = self.count - 1;
        }
        let mut remove_handler: Option<u64> = None;
        if self.count == 0 && self.handler != 0 {
            remove_handler = Some(self.handler);
            self.handler = 0;
        }
        Some(VehRemoval { slot: hook.slot, remove_handler })
    }

    /// Decides what becomes of an exception: a single step at a hooked address
    /// continues at the detour, every other exception is passed on.
    pub fn veh_handler(&self, code: u32, address: u64) -> (detour: Option<u64>)
        requires
            self.wf(),
        ensures
            match detour {
                Some(found) => code == STATUS_SINGLE_STEP && self.table.detour_of(address, found)
                    && found != 0,
                None => code != STATUS_SINGLE_STEP || forall|other: u64|
                    !self.table.detour_of(address, other),
            },
            detour is None ==> code != STATUS_SINGLE_STEP || address == 0 || !self.table.targets@.contains(
                address,
            ),
    {
        if code != STATUS_SINGLE_STEP {
            return None;
        }
        self.table.lookup(address)
    }
}

impl VehHook {
    /// Returns the hooked address.
    pub fn target(&self) -> (target: u64)
        ensures
            target == self.target,
    {
        self.target
    }

    /// Returns the detour.
    pub fn detour(&self) -> (detour: u64)
        ensures
            detour == self.detour,
    {
        self.detour
    }
}

/// The debug registers of a thread.
#[derive(Clone, Copy, Debug, PartialEq, Eq, Structural)]
pub struct DebugRegisters {
    pub dr0: u64,
    pub dr1: u64,
    pub dr2: u64,
    pub dr3: u64,
    pub dr7: u64,
}

/// The bit of the control register that enables slot `slot`.
pub open spec fn enable_bit(slot: usize) -> u64 {
    1u64 << (slot * 2) as u32
}

/// The bits of the control register that hold the condition and the length of
/// slot `slot`.
pub open spec fn condition_bits(slot: usize) -> u64 {
    0xFu64 << (16 + slot * 4) as u32
}

/// The control register with slot `slot` enabled as an execution breakpoint, or
/// disabled.
pub open spec fn control_register(dr7: u64, slot: usize, enable: bool) -> u64 {
    if enable {
        (dr7 & !condition_bits(slot)) | enable_bit(slot)
    } else {
        (dr7 & !condition_bits(slot)) & !enable_bit(slot)
    }
}

/// The address register of slot `slot`.
pub open spec fn address_register(registers: DebugRegisters, slot: usize) -> u64 {
    if slot == 0 {
        registers.dr0
    } else if slot == 1 {
        registers.dr1
    } else if slot == 2 {
        registers.dr2
    } else {
        registers.dr3
    }
}

/// Sets or clears the execution breakpoint of a slot in the debug registers of a
/// thread. All other state of the registers is kept.
pub fn set_debug_register(
    arch: Arch,
    registers: &mut DebugRegisters,
    slot: usize,
    address: u64,
    enable: bool,
)
    requires
        slot < SLOT_COUNT,
    ensures
        address_register(*final(registers), slot) == if enable {
            match arch {
                Arch::X86 => address % 0x1_0000_0000,
                Arch::X64 => address,
            }
        } else {
            0
        },
        forall|other: usize|
            other < SLOT_COUNT && other != slot ==> #[trigger] address_register(
                *final(registers),
                other,
            ) == address_register(*old(registers), other),
        final(registers).dr7 == control_register(old(registers).dr7, slot, enable),
{
    let value: u64 = if enable {
        match arch {
            Arch::X86 => address % 0x1_0000_0000,
            Arch::X64 => address,
        }
    } else {
        0
    };
    if slot == 0 {
        registers.dr0 = value;
    } else if slot == 1 {
        registers.dr1 = value;
    } else if slot == 2 {
        registers.dr2 = value;
    } else {
        registers.dr3 = value;
    }
    let enable_shift: u32 = slot as u32 * 2;
    let local_enable: u64 = 1u64 << enable_shift;
    let field_shift: u32 = 16 + slot as u32 * 4;
    let condition: u64 = 0xFu64 << field_shift;
    let cleared: u64 = registers.dr7 & !condition;
    registers.dr7 = if enable {
        cleared | local_enable
    } else {
        cleared & !local_enable
    };
}

/// Setting a breakpoint enables its slot with the execution condition, clearing
/// it disables the slot, and both leave every other bit of the control register
/// alone.
pub proof fn lemma_control_register(dr7: u64, slot: usize, enable: bool)
    requires
        slot < SLOT_COUNT,
    ensures
        enable ==> control_register(dr7, slot, enable) & enable_bit(slot) == enable_bit(slot),
        !enable ==> control_register(dr7, slot, enable) & enable_bit(slot) == 0,
        control_register(dr7, slot, enable) & condition_bits(slot) == 0,
        control_register(dr7, slot, enable) & !(condition_bits(slot) | enable_bit(slot)) == dr7
            & !(condition_bits(slot) | enable_bit(slot)),
{
    let bit = enable_bit(slot);
    let field = condition_bits(slot);
    let a = (slot * 2) as u32;
    let b = (16 + slot * 4) as u32;
    assert(a < 8 && 16 <= b < 32);
    assert((0xFu64 << b) & (1u64 << a) == 0) by (bit_vector)
        requires
            a < 8,
            16 <= b < 32,
    ;
    assert(((dr7 & !field) | bit) & bit == bit) by (bit_vector);
    assert(((dr7 & !field) & !bit) & bit == 0) by (bit_vector);
    assert(((dr7 & !field) | bit) & field == 0) by (bit_vector)
        requires
            field & bit == 0,
    ;
    assert(((dr7 & !field) & !bit) & field == 0) by (bit_vector);
    assert(((dr7 & !field) | bit) & !(field | bit) == dr7 & !(field | bit)) by (bit_vector);
    assert(((dr7 & !field) & !bit) & !(field | bit) == dr7 & !(field | bit)) by (bit_vector);
}

/// Setting or clearing the breakpoint of one slot changes nothing of another
/// slot.
pub proof fn lemma_slots_are_independent(dr7: u64, slot: usize, other: usize, enable: bool)
    requires
        slot < SLOT_COUNT,
        other < SLOT_COUNT,
        slot != other,
    ensures
        control_register(dr7, slot, enable) & (condition_bits(other) | enable_bit(other)) == dr7 & (
        condition_bits(other) | enable_bit(other)),
{
    let mine = condition_bits(slot) | enable_bit(slot);
    let theirs = condition_bits(other) | enable_bit(other);
    let after = control_register(dr7, slot, enable);
    lemma_control_register(dr7, slot, enable);
    let a = (slot * 2) as u32;
    let b = (other * 2) as u32;
    let c = (16 + slot * 4) as u32;
    let d = (16 + other * 4) as u32;
    assert(((0xFu64 << c) | (1u64 << a)) & ((0xFu64 << d) | (1u64 << b)) == 0) by (bit_vector)
        requires
            a == 0 || a == 2 || a == 4 || a == 6,
            b == 0 || b == 2 || b == 4 || b == 6,
            a != b,
            c == 16 + 2 * a,
            d == 16 + 2 * b,
    ;
    assert(after & theirs == dr7 & theirs) by (bit_vector)
        requires
            after & !mine == dr7 & !mine,
            mine & theirs == 0,
    ;
}

/// Clearing the breakpoint of a slot that was free before it was set brings the
/// control register back.
pub proof fn lemma_clear_undoes_set(dr7: u64, slot: usize)
    requires
        slot < SLOT_COUNT,
        dr7 & (condition_bits(slot) | enable_bit(slot)) == 0,
    ensures
        control_register(control_register(dr7, slot, true), slot, false) == dr7,
{
    let field = condition_bits(slot);
    let bit = enable_bit(slot);
    assert(((((dr7 & !field) | bit) & !field) & !bit) == dr7) by (bit_vector)
        requires
            dr7 & (field | bit) == 0,
    ;
}

} // verus!
