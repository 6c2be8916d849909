//! A description of a transaction for debugging.
use vstd::prelude::*;

use crate::inline::JumpType;
use crate::text::{decimal, hexadecimal, push_decimal, push_hexadecimal};
use crate::transaction::{PendingHook, TransactionCore};

verus! {

/// An address as it is shown.
pub open spec fn address_text(address: u64) -> Seq<char> {
    "0x"@ + hexadecimal(address as nat)
}

/// Appends an address.
fn push_address(out: &mut String, address: u64)
    ensures
        final(out)@ == old(out)@ + address_text(address),
{
    out.append("0x");
    push_hexadecimal(out, address);
    assert(out@ =~= old(out)@ + address_text(address));
}

/// The name of a kind of jump.
pub open spec fn jump_name(jump: JumpType) -> Seq<char> {
    match jump {
        JumpType::Relative5 => "Relative5"@,
        JumpType::Absolute14 => "Absolute14"@,
    }
}

/// The line of a suspended thread.
pub open spec fn thread_line(thread_id: u32, handle: u64) -> Seq<char> {
    "  [Thread] TID: "@ + decimal(thread_id as nat) + " (Handle: "@ + address_text(handle) + ")\n"@
}

/// The lines of the first `upto` suspended threads.
pub open spec fn thread_lines(ids: Seq<u32>, handles: Seq<u64>, upto: int) -> Seq<char>
    decreases upto,
{
    if upto <= 0 {
        Seq::empty()
    } else {
        thread_lines(ids, handles, upto - 1) + thread_line(ids[upto - 1], handles[upto - 1])
    }
}

/// What is shown of a queued hook.
pub open spec fn hook_text(hook: PendingHook) -> Seq<char> {
    match hook {
        PendingHook::Inline(data) => "INLINE: Target "@ + address_text(data.target) + " -> Detour "@
            + address_text(data.detour) + " (Type: "@ + jump_name(data.jump_type) + ")"@,
        PendingHook::Iat { target_dll, target_func, .. } => "IAT: "@ + target_dll@ + "!"@
            + target_func@,
        PendingHook::Eat { module, target_func, .. } => "EAT: "@ + address_text(module) + "!"@
            + target_func@,
        PendingHook::Vtable { vtable, index, .. } => "VTABLE: "@ + address_text(vtable) + "["@
            + decimal(index as nat) + "]"@,
        PendingHook::VtableInstance { object_vptr, vtable_len, index, .. } => "VTABLE-INSTANCE: "@
            + address_text(object_vptr) + " len="@ + decimal(vtable_len as nat) + " slot="@
            + decimal(index as nat),
        PendingHook::Detach { handle } => "DETACH: #"@ + decimal(handle as nat),
    }
}

/// Appends what is shown of a queued hook.
fn push_hook(out: &mut String, hook: &PendingHook)
    ensures
        final(out)@ == old(out)@ + hook_text(*hook),
{
    match hook {
        PendingHook::Inline(data) => {
            out.append("INLINE: Target ");
            push_address(out, data.target);
            out.append(" -> Detour ");
            push_address(out, data.detour);
            out.append(" (Type: ");
            match data.jump_type {
                JumpType::Relative5 => {
                    out.append("Relative5");
                },
                JumpType::Absolute14 => {
                    out.append("Absolute14");
                },
            }
            out.append(")");
        },
        PendingHook::Iat { target_dll, target_func, .. } => {
            out.append("IAT: ");
            out.append(target_dll.as_str());
            out.append("!");
            out.append(target_func.as_str());
        },
        PendingHook::Eat { module, target_func, .. } => {
            out.append("EAT: ");
            push_address(out, *module);
            out.append("!");
            out.append(target_func.as_str());
        },
        PendingHook::Vtable { vtable, index, .. } => {
            out.append("VTABLE: ");
            push_address(out, *vtable);
            out.append("[");
            push_decimal(out, *index as u64);
            out.append("]");
        },
        PendingHook::VtableInstance { object_vptr, vtable_len, index, .. } => {
            out.append("VTABLE-INSTANCE: ");
            push_address(out, *object_vptr);
            out.append(" len=");
            push_decimal(out, *vtable_len as u64);
            out.append(" slot=");
            push_decimal(out, *index as u64);
        },
        PendingHook::Detach { handle } => {
            out.append("DETACH: #");
            push_decimal(out, *handle as u64);
        },
    }
    assert(out@ =~= old(out)@ + hook_text(*hook));
}

/// The lines of the first `upto` queued hooks.
pub open spec fn hook_lines(hooks: Seq<PendingHook>, upto: int) -> Seq<char>
    decreases upto,
{
    if upto <= 0 {
        Seq::empty()
    } else {
        hook_lines(hooks, upto - 1) + ("  ["@ + decimal((upto - 1) as nat) + "] "@ + hook_text(
            hooks[upto - 1],
        ) + "\n"@)
    }
}

/// A line with a count, which is left out where there is nothing to count.
pub open spec fn count_line(title: Seq<char>, count: nat) -> Seq<char> {
    if count == 0 {
        Seq::empty()
    } else {
        title + decimal(count) + "\n"@
    }
}

/// The description of a transaction. `ids` are the numbers of its threads.
pub open spec fn description(core: TransactionCore, ids: Seq<u32>) -> Seq<char> {
    "\n--- [DETOUR TRANSACTION DEBUG] ---\nStatus: "@ + (if core.is_pending {
        "PENDING"@
    } else {
        "COMMITTED/ABORTED"@
    }) + "\nThreads ("@ + decimal(core.threads@.len()) + "):\n"@ + thread_lines(
        ids,
        core.threads@,
        core.threads@.len() as int,
    ) + "Planned Hooks ("@ + decimal(core.pending_hooks@.len()) + "):\n"@ + hook_lines(
        core.pending_hooks@,
        core.pending_hooks@.len() as int,
    ) + count_line("RIP-Redirections: "@, core.redirected_threads@.len()) + count_line(
        "Stack-Redirections: "@,
        core.redirected_stacks@.len(),
    ) + "----------------------------------\n\n"@
}

impl TransactionCore {
    /// Returns a description of the transaction. `ids` are the numbers of its
    /// threads.
    pub fn dump_state(&self, ids: &[u32]) -> (text: String)
        requires
            ids@.len() == self.threads@.len(),
        ensures
            text@ == description(*self, ids@),
    {
        let mut text: String = "\n--- [DETOUR TRANSACTION DEBUG] ---\nStatus: ".to_owned();
        if self.is_pending {
            text.append("PENDING");
        } else {
            text.append("COMMITTED/ABORTED");
        }
        text.append("\nThreads (");
        push_decimal(&mut text, self.threads.len() as u64);
        text.append("):\n");
        let ghost head = text@;
        let mut i: usize = 0;
        assert(text@ =~= head + thread_lines(ids@, self.threads@, 0));
        while i < self.threads.len()
            invariant
                i <= self.threads@.len(),
                ids@.len() == self.threads@.len(),
                text@ == head + thread_lines(ids@, self.threads@, i as int),
            decreases self.threads@.len() - i,
        {
            let ghost before = text@;
            text.append("  [Thread] TID: ");
            push_decimal(&mut text, ids[i] as u64);
            text.append(" (Handle: ");
            push_address(&mut text, self.threads[i]);
            text.append(")\n");
            assert(text@ =~= before + thread_line(ids@[i as int], self.threads@[i as int]));
            i = i + 1;
            assert(text@ =~= head + thread_lines(ids@, self.threads@, i as int));
        }
        text.append("Planned Hooks (");
        push_decimal(&mut text, self.pending_hooks.len() as u64);
        text.append("):\n");
        let ghost middle = text@;
        let mut k: usize = 0;
        assert(text@ =~= middle + hook_lines(self.pending_hooks@, 0));
        while k < self.pending_hooks.len()
            invariant
                k <= self.pending_hooks@.len(),
                text@ == middle + hook_lines(self.pending_hooks@, k as int),
            decreases self.pending_hooks@.len() - k,
        {
            let ghost before = text@;
            text.append("  [");
            push_decimal(&mut text, k as u64);
            text.append("] ");
            push_hook(&mut text, &self.pending_hooks[k]);
            text.append("\n");
            assert(text@ =~= before + ("  ["@ + decimal(k as nat) + "] "@ + hook_text(
                self.pending_hooks@[k as int],
            ) + "\n"@));
            k = k + 1;
            assert(text@ =~= middle + hook_lines(self.pending_hooks@, k as int));
        }
        if self.redirected_threads.len() > 0 {
            text.append("RIP-Redirections: ");
            push_decimal(&mut text, self.redirected_threads.len() as u64);
            text.append("\n");
        }
        if self.redirected_stacks.len() > 0 {
            text.append("Stack-Redirections: ");
            push_decimal(&mut text, self.redirected_stacks.len() as u64);
            text.append("\n");
        }
        text.append("----------------------------------\n\n");
        assert(text@ =~= description(*self, ids@));
        text
    }
}

} // verus!
