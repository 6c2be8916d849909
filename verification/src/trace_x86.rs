//! Register values of traced calls on 32-bit processors.
use vstd::prelude::*;

use crate::midhook_x86::HookContext;
use crate::trace::{enters, first_values, format_values, value_list, EntryRecord};

verus! {

/// The general-purpose registers. Integer arguments are passed on the stack, so
/// these are a snapshot and not the arguments.
pub open spec fn general_registers(context: HookContext) -> Seq<u64> {
    seq![
        context.eax as u64,
        context.ecx as u64,
        context.edx as u64,
        context.ebx as u64,
        context.esi as u64,
        context.edi as u64,
    ]
}

/// Returns the first `n` general-purpose registers that were captured at the entry
/// of a call; there are six at most.
pub fn raw_arg_values(context: &HookContext, n: usize) -> (values: Vec<u64>)
    ensures
        values@ == first_values(general_registers(*context), n),
{
    let mut values: Vec<u64> = Vec::new();
    if n > 0 {
        values.push(context.eax as u64);
    }
    if n > 1 {
        values.push(context.ecx as u64);
    }
    if n > 2 {
        values.push(context.edx as u64);
    }
    if n > 3 {
        values.push(context.ebx as u64);
    }
    if n > 4 {
        values.push(context.esi as u64);
    }
    if n > 5 {
        values.push(context.edi as u64);
    }
    assert(values@ =~= first_values(general_registers(*context), n));
    values
}

/// Returns the first `n` general-purpose registers that were captured at the entry
/// of a call, as the text of its record.
pub fn raw_args_text(context: &HookContext, n: usize) -> (text: String)
    ensures
        text@ == value_list(
            first_values(general_registers(*context), n),
            first_values(general_registers(*context), n).len() as int,
        ),
{
    let values = raw_arg_values(context, n);
    format_values(&values)
}

/// Returns the record of the entry of a call, with the first `args` general-purpose
/// registers that were captured there.
pub fn record_raw(function: &str, context: &HookContext, args: usize, thread_id: u32) -> (record:
    EntryRecord)
    ensures
        enters(record, function@, first_values(general_registers(*context), args), thread_id),
{
    EntryRecord { function: function.to_owned(), args: raw_args_text(context, args), thread_id }
}

} // verus!
