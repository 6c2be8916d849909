//! NeoHook: the decisions of a function-hooking engine for x86 and x86-64
//! Windows processes.
//!
//! Everything here computes on plain values. The process is described by what
//! was captured of it (a [`memory::MemoryMap`], the bytes of a mapped module, a
//! thread's registers), and a change to the process is described by the action
//! that carries it out. The code around the library performs the captures and
//! the actions.
use vstd::prelude::*;

pub mod api;
pub mod arch;
pub mod bytes;
pub mod cfg;
pub mod code;
pub mod delay;
pub mod disasm;
pub mod dump;
pub mod eat;
pub mod export_sweep;
pub mod gateway;
pub mod hook;
pub mod iat;
pub mod inline;
pub mod int3;
pub mod introspect;
pub mod laws;
pub mod mem;
pub mod memory;
pub mod midhook;
pub mod midhook_x86;
pub mod module;
pub mod nearby;
pub mod pe;
pub mod reclaim;
pub mod reentrancy;
pub mod registry;
pub mod resolve;
pub mod scan;
pub mod slots;
pub mod symbols;
pub mod text;
pub mod threads;
pub mod trace;
pub mod trace_x86;
pub mod transaction;
pub mod veh;
pub mod vtable;
pub mod watchdog;

use crate::eat::EatHookError;
use crate::iat::IatHookError;
use crate::scan::PatternError;
use crate::text::{decimal, push_decimal};
use crate::vtable::VTableHookError;

verus! {

/// Which kind of hook a [`DetourError::CommitFailed`] refers to.
#[derive(Debug, Clone, Copy, PartialEq, Eq, Structural)]
pub enum HookKind {
    Inline,
    Iat,
    Eat,
    Vtable,
    VtableInstance,
    Detach,
}

impl HookKind {
    /// The name of the kind.
    pub open spec fn text(self) -> Seq<char> {
        match self {
            HookKind::Inline => "inline"@,
            HookKind::Iat => "IAT"@,
            HookKind::Eat => "EAT"@,
            HookKind::Vtable => "VTable"@,
            HookKind::VtableInstance => "per-instance VTable"@,
            HookKind::Detach => "detach"@,
        }
    }

    /// Returns the name of the kind.
    pub fn to_string(&self) -> (text: String)
        ensures
            text@ == self.text(),
    {
        match self {
            HookKind::Inline => "inline".to_owned(),
            HookKind::Iat => "IAT".to_owned(),
            HookKind::Eat => "EAT".to_owned(),
            HookKind::Vtable => "VTable".to_owned(),
            HookKind::VtableInstance => "per-instance VTable".to_owned(),
            HookKind::Detach => "detach".to_owned(),
        }
    }
}

/// Errors that can occur while installing or managing detours.
#[derive(Debug)]
pub enum DetourError {
    /// The transaction has not been started or has already been finished.
    NotStarted,
    /// Allocating memory for a trampoline failed.
    AllocationFailed,
    /// Relocating the stolen instructions into the trampoline failed.
    RelocationFailed,
    /// One or more parameters were invalid.
    InvalidParameter,
    /// A byte signature could not be parsed.
    Pattern(PatternError),
    /// A byte signature was parsed but does not match anywhere in the module.
    PatternNotFound,
    /// An error occurred while installing an IAT hook.
    Iat(IatHookError),
    /// An error occurred while installing an EAT hook.
    Eat(EatHookError),
    /// An error occurred while installing a VTable hook.
    Vtable(VTableHookError),
    /// A pending hook failed to install while a transaction was committed.
    ///
    /// All hooks that the same commit had installed before are rolled back.
    CommitFailed {
        /// The position of the failing hook among the queued hooks.
        index: usize,
        /// Which kind of hook failed.
        kind: HookKind,
        /// The error that caused the failure.
        source: Box<DetourError>,
    },
}

impl DetourError {
    /// The text of the error.
    pub open spec fn text(self) -> Seq<char>
        decreases self,
    {
        match self {
            DetourError::NotStarted => "Transaction not started or already finished"@,
            DetourError::AllocationFailed => "Failed to allocate memory for trampoline"@,
            DetourError::RelocationFailed => "Failed to relocate instructions to trampoline"@,
            DetourError::InvalidParameter => "One or more parameters were invalid"@,
            DetourError::Pattern(error) => "Signature parse error: "@ + error.text(),
            DetourError::PatternNotFound => "Signature did not match in the target module"@,
            DetourError::Iat(error) => "IAT hook error: "@ + error.text(),
            DetourError::Eat(error) => "EAT hook error: "@ + error.text(),
            DetourError::Vtable(error) => "VTable hook error: "@ + error.text(),
            DetourError::CommitFailed { index, kind, source } => "commit failed at "@ + kind.text()
                + " hook #"@ + decimal(index as nat) + " (rolled back): "@ + source.text(),
        }
    }

    /// Returns the text of the error.
    pub fn to_string(&self) -> (text: String)
        ensures
            text@ == self.text(),
        decreases self,
    {
        match self {
            DetourError::NotStarted => "Transaction not started or already finished".to_owned(),
            DetourError::AllocationFailed => "Failed to allocate memory for trampoline".to_owned(),
            DetourError::RelocationFailed =>
                "Failed to relocate instructions to trampoline".to_owned(),
            DetourError::InvalidParameter => "One or more parameters were invalid".to_owned(),
            DetourError::Pattern(error) => joined("Signature parse error: ", error.to_string()),
            DetourError::PatternNotFound =>
                "Signature did not match in the target module".to_owned(),
            DetourError::Iat(error) => joined("IAT hook error: ", error.to_string()),
            DetourError::Eat(error) => joined("EAT hook error: ", error.to_string()),
            DetourError::Vtable(error) => joined("VTable hook error: ", error.to_string()),
            DetourError::CommitFailed { index, kind, source } => {
                let mut text: String = joined("commit failed at ", kind.to_string());
                text.append(" hook #");
                push_decimal(&mut text, *index as u64);
                text.append(" (rolled back): ");
                let cause: String = source.to_string();
                text.append(cause.as_str());
                text
            },
        }
    }

    /// Returns the error that caused a failed commit, `None` for any other error.
    pub fn source(&self) -> (cause: Option<&DetourError>)
        ensures
            match self {
                DetourError::CommitFailed { source, .. } => cause == Some(&**source),
                _ => cause is None,
            },
    {
        match self {
            DetourError::CommitFailed { source, .. } => Some(&**source),
            _ => None,
        }
    }
}

/// Returns `prefix` with `text` behind it.
fn joined(prefix: &str, text: String) -> (whole: String)
    ensures
        whole@ == prefix@ + text@,
{
    let mut whole: String = prefix.to_owned();
    whole.append(text.as_str());
    whole
}

impl From<PatternError> for DetourError {
    fn from(error: PatternError) -> (mapped: DetourError) {
        DetourError::Pattern(error)
    }
}

impl vstd::std_specs::convert::FromSpecImpl<PatternError> for DetourError {
    open spec fn obeys_from_spec() -> bool {
        true
    }

    open spec fn from_spec(error: PatternError) -> DetourError {
        DetourError::Pattern(error)
    }
}

impl From<IatHookError> for DetourError {
    fn from(error: IatHookError) -> (mapped: DetourError) {
        DetourError::Iat(error)
    }
}

impl vstd::std_specs::convert::FromSpecImpl<IatHookError> for DetourError {
    open spec fn obeys_from_spec() -> bool {
        true
    }

    open spec fn from_spec(error: IatHookError) -> DetourError {
        DetourError::Iat(error)
    }
}

impl From<EatHookError> for DetourError {
    fn from(error: EatHookError) -> (mapped: DetourError) {
        DetourError::Eat(error)
    }
}

impl vstd::std_specs::convert::FromSpecImpl<EatHookError> for DetourError {
    open spec fn obeys_from_spec() -> bool {
        true
    }

    open spec fn from_spec(error: EatHookError) -> DetourError {
        DetourError::Eat(error)
    }
}

impl From<VTableHookError> for DetourError {
    fn from(error: VTableHookError) -> (mapped: DetourError) {
        DetourError::Vtable(error)
    }
}

impl vstd::std_specs::convert::FromSpecImpl<VTableHookError> for DetourError {
    open spec fn obeys_from_spec() -> bool {
        true
    }

    open spec fn from_spec(error: VTableHookError) -> DetourError {
        DetourError::Vtable(error)
    }
}

} // verus!
