//! Writing to protected memory.
use vstd::prelude::*;

use crate::memory::{
    PAGE_EXECUTABLE, PAGE_EXECUTE_READ, PAGE_EXECUTE_READWRITE, PAGE_EXECUTE_WRITECOPY,
    PAGE_READONLY, PAGE_READWRITE, PAGE_WRITECOPY,
};

verus! {

/// An error of the operating system: its number and its text.
#[derive(Debug)]
pub struct OsError {
    pub code: i32,
    pub message: String,
}

/// `new_protect`, with execution allowed where `old_protect` allows it.
pub open spec fn adjusted_protect(old_protect: u32, new_protect: u32) -> u32 {
    if old_protect & PAGE_EXECUTABLE == 0 {
        new_protect
    } else if new_protect == PAGE_READONLY {
        PAGE_EXECUTE_READ
    } else if new_protect == PAGE_READWRITE {
        PAGE_EXECUTE_READWRITE
    } else if new_protect == PAGE_WRITECOPY {
        PAGE_EXECUTE_WRITECOPY
    } else {
        new_protect
    }
}

/// Returns `new_protect` with execution allowed where `old_protect` allows it.
pub fn detour_page_protect_adjust_execute(old_protect: u32, new_protect: u32) -> (protect: u32)
    ensures
        protect == adjusted_protect(old_protect, new_protect),
{
    if old_protect & PAGE_EXECUTABLE != 0 {
        if new_protect == PAGE_READONLY {
            PAGE_EXECUTE_READ
        } else if new_protect == PAGE_READWRITE {
            PAGE_EXECUTE_READWRITE
        } else if new_protect == PAGE_WRITECOPY {
            PAGE_EXECUTE_WRITECOPY
        } else {
            new_protect
        }
    } else {
        new_protect
    }
}

/// Making an executable page readable or writable keeps it executable.
pub proof fn lemma_execution_is_kept(old_protect: u32, new_protect: u32)
    requires
        old_protect & PAGE_EXECUTABLE != 0,
        new_protect == PAGE_READONLY || new_protect == PAGE_READWRITE || new_protect
            == PAGE_WRITECOPY,
    ensures
        adjusted_protect(old_protect, new_protect) & PAGE_EXECUTABLE != 0,
{
    assert(0x20u32 & 0xf0 != 0) by (bit_vector);
    assert(0x40u32 & 0xf0 != 0) by (bit_vector);
    assert(0x80u32 & 0xf0 != 0) by (bit_vector);
}

/// Bytes to be written over code, with the page made writable for the duration
/// of the write and the instruction cache flushed.
#[derive(Debug)]
pub struct CodeWrite {
    pub address: u64,
    pub bytes: Vec<u8>,
}

/// How a [`CodeWrite`] went: whether the page could be made writable (if not,
/// nothing was written), whether the instruction cache was flushed, and whether
/// the protection could be put back.
#[derive(Clone, Copy, Debug, PartialEq, Eq, Structural)]
pub struct CodeWriteOutcome {
    pub written: bool,
    pub flushed: bool,
    pub restored: bool,
}

/// Returns the write of `bytes` to `target`, `None` for a null target or an empty
/// byte string.
pub fn write_memory_atomic(target: u64, bytes: Vec<u8>) -> (write: Option<CodeWrite>)
    ensures
        match write {
            Some(edit) => target != 0 && bytes@.len() > 0 && edit.address == target
                && edit.bytes@ == bytes@,
            None => target == 0 || bytes@.len() == 0,
        },
{
    if target == 0 || bytes.len() == 0 {
        return None;
    }
    Some(CodeWrite { address: target, bytes })
}

/// What becomes of a slot that was written when its protection cannot be put
/// back.
#[derive(Clone, Copy, Debug, PartialEq, Eq, Structural)]
pub enum RestorePolicy {
    /// The new value stays.
    Keep,
    /// The original value is written back.
    Undo,
    /// The original value is written back and the protection is tried again.
    UndoAndRetry,
}

/// Where the write of a slot stands.
#[derive(Clone, Copy, Debug, PartialEq, Eq, Structural)]
pub enum WriteStage {
    Querying,
    Protecting,
    Loading,
    Storing,
    Restoring,
    Undoing,
    Retrying,
    Finished,
}

/// What is to be done next to write a slot.
#[derive(Clone, Copy, Debug, PartialEq, Eq, Structural)]
pub enum WriteStep {
    /// Ask for the protection of the page of `address`.
    Query { address: u64 },
    /// Set the protection of `len` bytes at `address`.
    Protect { address: u64, len: u64, protect: u32 },
    /// Read the `len` bytes at `address`.
    Load { address: u64, len: u64 },
    /// Write the low `len` bytes of `value` to `address`.
    Store { address: u64, len: u64, value: u64 },
    /// Nothing.
    Done,
}

/// What came of a step.
#[derive(Debug)]
pub enum WriteEvent {
    /// The protection that was asked for.
    Queried(Result<u32, OsError>),
    /// The protection was set; the protection before is given.
    Protected(Result<u32, OsError>),
    /// The value that was read.
    Loaded(u64),
    /// The value was written.
    Stored,
}

/// The write of one value to a slot in protected memory: the page is made
/// writable, the value is exchanged, and the protection is put back.
#[derive(Debug)]
pub struct SlotWrite {
    pub slot: u64,
    pub len: u64,
    pub value: u64,
    pub policy: RestorePolicy,
    pub stage: WriteStage,
    /// The protection for the duration of the write.
    pub protect: u32,
    pub old_protect: u32,
    pub original: u64,
    /// Whether the slot holds the new value.
    pub stored: bool,
    pub failure: Option<OsError>,
}

impl SlotWrite {
    /// What is recorded is what happened: a write that ended well left the new
    /// value in the slot, and one that failed left the original value, unless the
    /// policy is to keep what was written.
    pub open spec fn wf(self) -> bool {
        match self.stage {
            WriteStage::Querying | WriteStage::Protecting | WriteStage::Loading
            | WriteStage::Storing => !self.stored && self.failure is None,
            WriteStage::Restoring => self.stored && self.failure is None,
            WriteStage::Undoing => self.stored && self.failure is Some && self.policy
                != RestorePolicy::Keep,
            WriteStage::Retrying => !self.stored && self.failure is Some && self.policy
                == RestorePolicy::UndoAndRetry,
            WriteStage::Finished => {
                &&& self.failure is None ==> self.stored
                &&& self.failure is Some && self.policy != RestorePolicy::Keep ==> !self.stored
            },
        }
    }

    /// Whether `event` is what the current step can come to.
    pub open spec fn expects(self, event: WriteEvent) -> bool {
        match self.stage {
            WriteStage::Querying => event is Queried,
            WriteStage::Protecting | WriteStage::Restoring | WriteStage::Retrying =>
                event is Protected,
            WriteStage::Loading => event is Loaded,
            WriteStage::Storing | WriteStage::Undoing => event is Stored,
            WriteStage::Finished => false,
        }
    }

    /// The step that the write waits for.
    pub open spec fn pending_step(self) -> WriteStep {
        match self.stage {
            WriteStage::Querying => WriteStep::Query { address: self.slot },
            WriteStage::Protecting => WriteStep::Protect {
                address: self.slot,
                len: self.len,
                protect: self.protect,
            },
            WriteStage::Loading => WriteStep::Load { address: self.slot, len: self.len },
            WriteStage::Storing => WriteStep::Store {
                address: self.slot,
                len: self.len,
                value: self.value,
            },
            WriteStage::Undoing => WriteStep::Store {
                address: self.slot,
                len: self.len,
                value: self.original,
            },
            WriteStage::Restoring | WriteStage::Retrying => WriteStep::Protect {
                address: self.slot,
                len: self.len,
                protect: self.old_protect,
            },
            WriteStage::Finished => WriteStep::Done,
        }
    }

    /// The write after `event`.
    pub open spec fn after(self, event: WriteEvent) -> SlotWrite {
        match (self.stage, event) {
            (WriteStage::Querying, WriteEvent::Queried(Ok(current))) => SlotWrite {
                stage: WriteStage::Protecting,
                protect: adjusted_protect(current, PAGE_READWRITE),
                ..self
            },
            (WriteStage::Querying, WriteEvent::Queried(Err(error))) => SlotWrite {
                stage: WriteStage::Finished,
                failure: Some(error),
                ..self
            },
            (WriteStage::Protecting, WriteEvent::Protected(Ok(old_protect))) => SlotWrite {
                stage: WriteStage::Loading,
                old_protect,
                ..self
            },
            (WriteStage::Protecting, WriteEvent::Protected(Err(error))) => SlotWrite {
                stage: WriteStage::Finished,
                failure: Some(error),
                ..self
            },
            (WriteStage::Loading, WriteEvent::Loaded(original)) => SlotWrite {
                stage: WriteStage::Storing,
                original,
                ..self
            },
            (WriteStage::Storing, WriteEvent::Stored) => SlotWrite {
                stage: WriteStage::Restoring,
                stored: true,
                ..self
            },
            (WriteStage::Restoring, WriteEvent::Protected(Ok(_))) => SlotWrite {
                stage: WriteStage::Finished,
                ..self
            },
            (WriteStage::Restoring, WriteEvent::Protected(Err(error))) => SlotWrite {
                stage: if self.policy == RestorePolicy::Keep {
                    WriteStage::Finished
                } else {
                    WriteStage::Undoing
                },
                failure: Some(error),
                ..self
            },
            (WriteStage::Undoing, WriteEvent::Stored) => SlotWrite {
                stage: if self.policy == RestorePolicy::UndoAndRetry {
                    WriteStage::Retrying
                } else {
                    WriteStage::Finished
                },
                stored: false,
                ..self
            },
            (WriteStage::Retrying, WriteEvent::Protected(_)) => SlotWrite {
                stage: WriteStage::Finished,
                ..self
            },
            _ => self,
        }
    }

    /// The steps that are left at most.
    pub open spec fn remaining(self) -> nat {
        match self.stage {
            WriteStage::Querying => 7,
            WriteStage::Protecting => 6,
            WriteStage::Loading => 5,
            WriteStage::Storing => 4,
            WriteStage::Restoring => 3,
            WriteStage::Undoing => 2,
            WriteStage::Retrying => 1,
            WriteStage::Finished => 0,
        }
    }

    /// Begins a write that keeps the page executable where it is: the protection
    /// is asked for first.
    pub fn keeping_execution(slot: u64, len: u64, value: u64, policy: RestorePolicy) -> (write:
        SlotWrite)
        ensures
            write.wf(),
            write.stage == WriteStage::Querying,
            write.slot == slot,
            write.len == len,
            write.value == value,
            write.policy == policy,
    {
        SlotWrite {
            slot,
            len,
            value,
            policy,
            stage: WriteStage::Querying,
            protect: PAGE_READWRITE,
            old_protect: 0,
            original: 0,
            stored: false,
            failure: None,
        }
    }

    /// Begins a write that makes the page plainly readable and writable.
    pub fn plain(slot: u64, len: u64, value: u64, policy: RestorePolicy) -> (write: SlotWrite)
        ensures
            write.wf(),
            write.stage == WriteStage::Protecting,
            write.protect == PAGE_READWRITE,
            write.slot == slot,
            write.len == len,
            write.value == value,
            write.policy == policy,
    {
        SlotWrite {
            slot,
            len,
            value,
            policy,
            stage: WriteStage::Protecting,
            protect: PAGE_READWRITE,
            old_protect: 0,
            original: 0,
            stored: false,
            failure: None,
        }
    }

    /// Returns the step that the write waits for.
    pub fn step(&self) -> (step: WriteStep)
        ensures
            step == self.pending_step(),
            step == WriteStep::Done <==> self.stage == WriteStage::Finished,
    {
        match self.stage {
            WriteStage::Querying => WriteStep::Query { address: self.slot },
            WriteStage::Protecting => WriteStep::Protect {
                address: self.slot,
                len: self.len,
                protect: self.protect,
            },
            WriteStage::Loading => WriteStep::Load { address: self.slot, len: self.len },
            WriteStage::Storing => WriteStep::Store {
                address: self.slot,
                len: self.len,
                value: self.value,
            },
            WriteStage::Undoing => WriteStep::Store {
                address: self.slot,
                len: self.len,
                value: self.original,
            },
            WriteStage::Restoring | WriteStage::Retrying => WriteStep::Protect {
                address: self.slot,
                len: self.len,
                protect: self.old_protect,
            },
            WriteStage::Finished => WriteStep::Done,
        }
    }

    /// Takes what came of the current step.
    pub fn advance(&mut self, event: WriteEvent)
        requires
            old(self).wf(),
            old(self).expects(event),
        ensures
            *final(self) == old(self).after(event),
            final(self).wf(),
            final(self).remaining() < old(self).remaining(),
    {
        match event {
            WriteEvent::Queried(Ok(current)) => {
                self.protect = detour_page_protect_adjust_execute(current, PAGE_READWRITE);
                self.stage = WriteStage::Protecting;
            },
            WriteEvent::Queried(Err(error)) => {
                self.failure = Some(error);
                self.stage = WriteStage::Finished;
            },
            WriteEvent::Protected(outcome) => {
                match self.stage {
                    WriteStage::Protecting => match outcome {
                        Ok(old_protect) => {
                            self.old_protect = old_protect;
                            self.stage = WriteStage::Loading;
                        },
                        Err(error) => {
                            self.failure = Some(error);
                            self.stage = WriteStage::Finished;
                        },
                    },
                    WriteStage::Restoring => match outcome {
                        Ok(_) => {
                            self.stage = WriteStage::Finished;
                        },
                        Err(error) => {
                            self.failure = Some(error);
                            self.stage = if self.policy == RestorePolicy::Keep {
                                WriteStage::Finished
                            } else {
                                WriteStage::Undoing
                            };
                        },
                    },
                    _ => {
                        self.stage = WriteStage::Finished;
                    },
                }
            },
            WriteEvent::Loaded(original) => {
                self.original = original;
                self.stage = WriteStage::Storing;
            },
            WriteEvent::Stored => {
                if self.stage == WriteStage::Storing {
                    self.stored = true;
                    self.stage = WriteStage::Restoring;
                } else {
                    self.stored = false;
                    self.stage = if self.policy == RestorePolicy::UndoAndRetry {
                        WriteStage::Retrying
                    } else {
                        WriteStage::Finished
                    };
                }
            },
        }
    }

    /// Returns what the finished write came to.
    pub fn outcome(self) -> (outcome: Result<(), OsError>)
        ensures
            outcome == (match self.failure {
                None => Ok::<(), OsError>(()),
                Some(error) => Err::<(), OsError>(error),
            }),
    {
        match self.failure {
            None => Ok(()),
            Some(error) => Err(error),
        }
    }
}

/// A finished write either left the new value in the slot and reports no error,
/// or reports an error and, unless written values are kept, left the slot as it
/// was.
pub proof fn lemma_write_is_all_or_nothing(write: SlotWrite)
    requires
        write.wf(),
        write.stage == WriteStage::Finished,
        write.policy != RestorePolicy::Keep,
    ensures
        write.failure is None <==> write.stored,
{
}

} // verus!
