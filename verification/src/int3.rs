//! Hooks by a breakpoint instruction over the first byte of a function.
use vstd::prelude::*;

use crate::mem::CodeWrite;
use crate::nearby::Trampoline;
use crate::slots::{slot_for, SlotError, SlotTable};
use crate::text::{decimal, push_decimal};
use crate::transaction::{holds, written};

verus! {

/// How many hooks can be installed at the same time.
pub const MAX_HOOKS: usize = 256;

/// The breakpoint instruction.
pub const INT3_OPCODE: u8 = 0xCC;

/// The exception that a breakpoint instruction raises.
pub const STATUS_BREAKPOINT: u32 = 0x8000_0003;

/// Why a breakpoint hook failed.
#[derive(Clone, Copy, Debug, PartialEq, Eq, Structural)]
pub enum Int3HookError {
    /// A null target or detour was given.
    InvalidParameter,
    /// All slots are in use.
    NoFreeSlot,
    /// The target is hooked already.
    AlreadyHooked,
    /// The exception handler could not be registered.
    HandlerRegistrationFailed,
    /// The breakpoint could not be written.
    PatchFailed,
    /// The gateway to the original function could not be built.
    GatewayBuildFailed,
}

impl Int3HookError {
    /// The text of the error.
    pub open spec fn text(self) -> Seq<char> {
        match self {
            Int3HookError::InvalidParameter => "invalid INT3 hook parameters"@,
            Int3HookError::NoFreeSlot => "all "@ + decimal(MAX_HOOKS as nat)
                + " INT3 hook slots are in use"@,
            Int3HookError::AlreadyHooked => "target address is already INT3-hooked"@,
            Int3HookError::HandlerRegistrationFailed =>
                "failed to register the vectored exception handler"@,
            Int3HookError::PatchFailed => "failed to write the INT3 byte into the target"@,
            Int3HookError::GatewayBuildFailed =>
                "failed to build the call-original gateway for the target"@,
        }
    }

    /// Returns the text of the error.
    pub fn to_string(&self) -> (text: String)
        ensures
            text@ == self.text(),
    {
        match self {
            Int3HookError::InvalidParameter => "invalid INT3 hook parameters".to_owned(),
            Int3HookError::NoFreeSlot => {
                let mut text: String = "all ".to_owned();
                push_decimal(&mut text, MAX_HOOKS as u64);
                text.append(" INT3 hook slots are in use");
                text
            },
            Int3HookError::AlreadyHooked => "target address is already INT3-hooked".to_owned(),
            Int3HookError::HandlerRegistrationFailed =>
                "failed to register the vectored exception handler".to_owned(),
            Int3HookError::PatchFailed =>
                "failed to write the INT3 byte into the target".to_owned(),
            Int3HookError::GatewayBuildFailed =>
                "failed to build the call-original gateway for the target".to_owned(),
        }
    }
}

/// The breakpoint hooks of a process: the slots, the handle of the exception
/// handler (0 while there is none), and the number of installed hooks.
#[derive(Debug)]
pub struct Int3Manager {
    pub table: SlotTable,
    pub handler: u64,
    pub count: usize,
}

/// An installed breakpoint hook.
#[derive(Debug)]
pub struct Int3Hook {
    pub target: u64,
    pub detour: u64,
    /// The byte that the breakpoint replaced.
    pub original_byte: u8,
    pub slot: usize,
    pub active: bool,
    /// The gateway to the original function, if one was asked for.
    pub gateway: Option<Trampoline>,
}

/// What is to be undone of an installation that could not write its breakpoint:
/// the handle of an exception handler that is to be removed.
#[derive(Clone, Copy, Debug, PartialEq, Eq, Structural)]
pub struct Abandoned {
    pub error: Int3HookError,
    pub remove_handler: Option<u64>,
}

/// What the removal of a hook asks for after its byte is back: an exception handler
/// that no hook needs any more is removed.
#[derive(Clone, Copy, Debug, PartialEq, Eq, Structural)]
pub struct Int3Removal {
    pub remove_handler: Option<u64>,
}

impl Int3Manager {
    /// The table has its size, and hooks are counted at most as often as there
    /// are used slots.
    pub open spec fn wf(self) -> bool {
        &&& self.table.wf()
        &&& self.table.targets@.len() == MAX_HOOKS
        &&& self.count <= self.table.used() <= MAX_HOOKS
    }

    /// Returns a manager without hooks.
    pub fn new() -> (manager: Int3Manager)
        ensures
            manager.wf(),
            manager.table.used() == 0,
            manager.handler == 0,
            manager.count == 0,
    {
        Int3Manager { table: SlotTable::new(MAX_HOOKS), handler: 0, count: 0 }
    }

    /// Checks an installation and reserves its slot. With `want_gateway`, `built`
    /// says whether the gateway to the original function could be built.
    pub fn reserve(&self, target: u64, detour: u64, want_gateway: bool, built: bool) -> (slot:
        Result<usize, Int3HookError>)
        requires
            self.wf(),
        ensures
            match slot {
                Ok(index) => {
                    &&& target != 0 && detour != 0
                    &&& want_gateway ==> built
                    &&& slot_for(self.table.targets@, target) == Ok::<int, SlotError>(index as int)
                    &&& index < MAX_HOOKS && self.table.targets@[index as int] == 0
                    &&& !self.table.targets@.contains(target)
                },
                Err(error) => if target == 0 || detour == 0 {
                    error == Int3HookError::InvalidParameter
                } else if want_gateway && !built {
                    error == Int3HookError::GatewayBuildFailed
                } else {
                    match slot_for(self.table.targets@, target) {
                        Ok(_) => false,
                        Err(SlotError::AlreadyHooked) => error == Int3HookError::AlreadyHooked,
                        Err(SlotError::NoFreeSlot) => error == Int3HookError::NoFreeSlot,
                    }
                },
            },
    {
        if target == 0 || detour == 0 {
            return Err(Int3HookError::InvalidParameter);
        }
        if want_gateway && !built {
            return Err(Int3HookError::GatewayBuildFailed);
        }
        match self.table.reserve(target) {
            Ok(index) => Ok(index),
            Err(SlotError::AlreadyHooked) => Err(Int3HookError::AlreadyHooked),
            Err(SlotError::NoFreeSlot) => Err(Int3HookError::NoFreeSlot),
        }
    }

    /// Returns whether an exception handler has to be registered first.
    pub fn needs_handler(&self) -> (needs: bool)
        ensures
            needs == (self.handler == 0),
    {
        self.handler == 0
    }

    /// Publishes a reserved slot, so that the handler knows the detour before the
    /// breakpoint can be hit, and returns the write of the breakpoint.
    ///
    /// `registered` is the handle of the exception handler where one had to be
    /// registered.
    pub fn publish(&mut self, slot: usize, target: u64, detour: u64, registered: Option<u64>) -> (
    write: Result<CodeWrite, Int3HookError>)
        requires
            old(self).wf(),
            slot < MAX_HOOKS,
            old(self).table.targets@[slot as int] == 0,
            !old(self).table.targets@.contains(target),
            target != 0,
            detour != 0,
        ensures
            final(self).wf(),
            final(self).count == old(self).count,
            match write {
                Ok(edit) => {
                    &&& edit.address == target && edit.bytes@ == seq![INT3_OPCODE]
                    &&& final(self).table.targets@ == old(self).table.targets@.update(
                        slot as int,
                        target,
                    )
                    &&& final(self).table.detours@ == old(self).table.detours@.update(
                        slot as int,
                        detour,
                    )
                    &&& if old(self).handler == 0 {
                        registered == Some(final(self).handler) && final(self).handler != 0
                    } else {
                        final(self).handler == old(self).handler
                    }
                    &&& final(self).count < final(self).table.used()
                },
                Err(error) => {
                    &&& error == Int3HookError::HandlerRegistrationFailed
                    &&& old(self).handler == 0
                    &&& registered is None || registered == Some(0u64)
                    &&& *final(self) == *old(self)
                },
            },
    {
        if self.handler == 0 {
            match registered {
                Some(handle) => {
                    if handle == 0 {
                        return Err(Int3HookError::HandlerRegistrationFailed);
                    }
                    self.handler = handle;
                },
                None => {
                    return Err(Int3HookError::HandlerRegistrationFailed);
                },
            }
        }
        self.table.publish(slot, target, detour);
        let mut bytes: Vec<u8> = Vec::new();
        bytes.push(INT3_OPCODE);
        assert(bytes@ =~= seq![INT3_OPCODE]);
        Ok(CodeWrite { address: target, bytes })
    }

    /// Takes the byte that the breakpoint replaced, `None` where it could not be
    /// written. Then the slot is freed again, and the handler is removed if no
    /// other hook needs it.
    pub fn install(
        &mut self,
        slot: usize,
        target: u64,
        detour: u64,
        gateway: Option<Trampoline>,
        original: Option<u8>,
    ) -> (hook: Result<Int3Hook, Abandoned>)
        requires
            old(self).wf(),
            slot < MAX_HOOKS,
            old(self).table.targets@[slot as int] == target,
            target != 0,
            old(self).count < old(self).table.used(),
        ensures
            final(self).wf(),
            match original {
                Some(byte) => {
                    &&& hook == Ok::<Int3Hook, Abandoned>(
                        Int3Hook {
                            target,
                            detour,
                            original_byte: byte,
                            slot,
                            active: true,
                            gateway,
                        },
                    )
                    &&& final(self).table == old(self).table
                    &&& final(self).handler == old(self).handler
                    &&& final(self).count == old(self).count + 1
                },
                None => {
                    &&& hook matches Err(abandoned) && abandoned.error == Int3HookError::PatchFailed
                        && abandoned.remove_handler == if old(self).count == 0 && old(self).handler
                        != 0 {
                        Some(old(self).handler)
                    } else {
                        None
                    }
                    &&& final(self).table.targets@ == old(self).table.targets@.update(
                        slot as int,
                        0,
                    )
                    &&& final(self).table.detours@ == old(self).table.detours@.update(
                        slot as int,
                        0,
                    )
                    &&& final(self).handler == if old(self).count == 0 {
                        0
                    } else {
                        old(self).handler
                    }
                    &&& final(self).count == old(self).count
                },
            },
    {
        match original {
            Some(byte) => {
                self.count = self.count + 1;
                Ok(
                    Int3Hook {
                        target,
                        detour,
                        original_byte: byte,
                        slot,
                        active: true,
                        gateway,
                    },
                )
            },
            None => {
                self.table.clear(slot);
                let mut remove_handler: Option<u64> = None;
                if self.count == 0 && self.handler != 0 {
                    remove_handler = Some(self.handler);
                    self.handler = 0;
                }
                Err(Abandoned { error: Int3HookError::PatchFailed, remove_handler })
            },
        }
    }

    /// Returns the write that puts the original byte of a hook back, `None` for a
    /// hook that is removed already. It is performed before [`Int3Manager::remove`]
    /// frees the slot, so that a thread that has hit the breakpoint still finds its
    /// detour.
    pub fn removal_write(&self, hook: &Int3Hook) -> (write: Option<CodeWrite>)
        ensures
            match write {
                Some(edit) => hook.active && edit.address == hook.target && edit.bytes@
                    == seq![hook.original_byte],
                None => !hook.active,
            },
    {
        if !hook.active {
            return None;
        }
        let mut bytes: Vec<u8> = Vec::new();
        bytes.push(hook.original_byte);
        assert(bytes@ =~= seq![hook.original_byte]);
        Some(CodeWrite { address: hook.target, bytes })
    }

    /// Removes a hook whose original byte is back: its slot is freed, and the
    /// handler is removed with the last hook. A hook that is removed already asks
    /// for nothing.
    pub fn remove(&mut self, hook: &mut Int3Hook) -> (removal: Option<Int3Removal>)
        requires
            old(self).wf(),
            old(hook).active ==> old(hook).slot < MAX_HOOKS && old(self).table.targets@[old(
                hook,
            ).slot as int] == old(hook).target && old(hook).target != 0,
        ensures
            final(self).wf(),
            !final(hook).active,
            *final(hook) == (Int3Hook { active: false, ..*old(hook) }),
            match removal {
                Some(asked) => {
                    let count = if old(self).count > 0 {
                        old(self).count - 1
                    } else {
                        0
                    };
                    &&& old(hook).active
                    &&& final(self).table.targets@ == old(self).table.targets@.update(
                        old(hook).slot as int,
                        0,
                    )
                    &&& final(self).table.detours@ == old(self).table.detours@.update(
                        old(hook).slot as int,
                        0,
                    )
                    &&& final(self).count == count
                    &&& final(self).handler == if count == 0 {
                        0
                    } else {
                        old(self).handler
                    }
                    &&& asked.remove_handler == if count == 0 && old(self).handler != 0 {
                        Some(old(self).handler)
                    } else {
                        None
                    }
                },
                None => !old(hook).active && *final(self) == *old(self),
            },
    {
        if !hook.active {
            return None;
        }
        hook.active = false;
        self.table.clear(hook.slot);
        if self.count > 0 {
            self.count = self.count - 1;
        }
        let mut remove_handler: Option<u64> = None;
        if self.count == 0 && self.handler != 0 {
            remove_handler = Some(self.handler);
            self.handler = 0;
        }
        Some(Int3Removal { remove_handler })
    }

    /// Decides what becomes of an exception: a breakpoint at a hooked address
    /// continues at the detour, every other exception is passed on.
    pub fn int3_handler(&self, code: u32, address: u64) -> (detour: Option<u64>)
        requires
            self.wf(),
        ensures
            match detour {
                Some(found) => code == STATUS_BREAKPOINT && self.table.detour_of(address, found)
                    && found != 0,
                None => code != STATUS_BREAKPOINT || forall|other: u64|
                    !self.table.detour_of(address, other),
            },
            detour is None ==> code != STATUS_BREAKPOINT || address == 0 || !self.table.targets@.contains(
                address,
            ),
    {
        if code != STATUS_BREAKPOINT {
            return None;
        }
        self.table.lookup(address)
    }
}

impl Int3Hook {
    /// Returns the hooked address.
    pub fn target(&self) -> (target: u64)
        ensures
            target == self.target,
    {
        self.target
    }

    /// Returns the detour.
    pub fn detour(&self) -> (detour: u64)
        ensures
            detour == self.detour,
    {
        self.detour
    }

    /// Returns the address through which the original function is called, `None`
    /// for a hook without a gateway.
    pub fn original_ptr(&self) -> (pointer: Option<u64>)
        ensures
            pointer == (match self.gateway {
                Some(gateway) => Some(gateway.ptr),
                None => None,
            }),
    {
        match &self.gateway {
            Some(gateway) => Some(gateway.ptr),
            None => None,
        }
    }
}

/// A breakpoint that is written over the first byte of a function and removed
/// again, with the byte that it replaced, leaves the memory as it was.
pub proof fn lemma_breakpoint_round_trip(memory: Map<int, u8>, target: u64, original: u8)
    requires
        holds(memory, target as int, seq![original]),
    ensures
        written(
            written(memory, target as int, seq![INT3_OPCODE]),
            target as int,
            seq![original],
        ) == memory,
{
    assert(memory.dom().contains(target as int));
    assert(memory[target as int] == seq![original][0]);
    assert(written(
        written(memory, target as int, seq![INT3_OPCODE]),
        target as int,
        seq![original],
    ) =~= memory);
}

} // verus!
