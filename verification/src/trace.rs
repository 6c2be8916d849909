//! Records of traced calls, and where they go.
use vstd::prelude::*;

use crate::midhook::HookContext;
use crate::text::{decimal, hexadecimal, push_decimal, push_hexadecimal};

verus! {

/// A traced call.
#[derive(Clone, Copy, Debug)]
pub struct TraceRecord<'a> {
    /// The name of the function.
    pub function: &'a str,
    /// The arguments, separated by commas.
    pub args: &'a str,
    /// The return value.
    pub ret: &'a str,
    /// The thread that the call ran on.
    pub thread_id: u32,
}

/// The installed sink: the address of a function that takes records, 0 while none
/// is installed.
#[derive(Clone, Copy, Debug, PartialEq, Eq, Structural)]
pub struct TraceSink {
    pub address: u64,
}

/// Where a record goes.
#[derive(Debug)]
pub enum Delivery {
    /// To standard error, as the given line.
    Line(String),
    /// To the function at the given address.
    Sink(u64),
}

/// Sends all records from now on to the function at `sink`.
pub fn set_sink(installed: &mut TraceSink, sink: u64)
    ensures
        final(installed).address == sink,
{
    installed.address = sink;
}

/// Sends all records from now on to standard error.
pub fn clear_sink(installed: &mut TraceSink)
    ensures
        final(installed).address == 0,
{
    installed.address = 0;
}

/// The line that is written for a record where no sink is installed.
pub open spec fn record_line(record: TraceRecord<'_>) -> Seq<char> {
    "[neohook::trace] (tid "@ + decimal(record.thread_id as nat) + ") "@ + record.function@ + "("@
        + record.args@ + ") -> "@ + record.ret@
}

/// Returns the line that is written for a record where no sink is installed.
pub fn default_sink(record: &TraceRecord<'_>) -> (line: String)
    ensures
        line@ == record_line(*record),
{
    let mut line: String = "[neohook::trace] (tid ".to_owned();
    push_decimal(&mut line, record.thread_id as u64);
    line.append(") ");
    line.append(record.function);
    line.append("(");
    line.append(record.args);
    line.append(") -> ");
    line.append(record.ret);
    line
}

/// Returns where a record goes: to the installed sink, or to standard error where
/// none is.
pub fn emit(installed: &TraceSink, record: &TraceRecord<'_>) -> (delivery: Delivery)
    ensures
        if installed.address == 0 {
            delivery matches Delivery::Line(line) && line@ == record_line(*record)
        } else {
            delivery == Delivery::Sink(installed.address)
        },
{
    if installed.address == 0 {
        Delivery::Line(default_sink(record))
    } else {
        Delivery::Sink(installed.address)
    }
}

/// Returns the record of a call.
pub fn record<'a>(function: &'a str, args: &'a str, ret: &'a str, thread_id: u32) -> (record:
    TraceRecord<'a>)
    ensures
        record == (TraceRecord { function, args, ret, thread_id }),
{
    TraceRecord { function, args, ret, thread_id }
}

/// The registers that hold the first integer arguments of a call.
pub open spec fn argument_registers(context: HookContext) -> Seq<u64> {
    seq![context.rcx, context.rdx, context.r8, context.r9]
}

/// The first `n` values, or all of them where there are not as many.
pub open spec fn first_values(values: Seq<u64>, n: usize) -> Seq<u64> {
    if n < values.len() {
        values.subrange(0, n as int)
    } else {
        values
    }
}

/// Returns the first `n` integer arguments of a call whose registers were captured
/// at its entry; there are four at most.
pub fn raw_arg_values(context: &HookContext, n: usize) -> (values: Vec<u64>)
    ensures
        values@ == first_values(argument_registers(*context), n),
{
    let mut values: Vec<u64> = Vec::new();
    if n > 0 {
        values.push(context.rcx);
    }
    if n > 1 {
        values.push(context.rdx);
    }
    if n > 2 {
        values.push(context.r8);
    }
    if n > 3 {
        values.push(context.r9);
    }
    assert(values@ =~= first_values(argument_registers(*context), n));
    values
}

/// The first `upto` values in hexadecimal, with a prefix, separated by commas.
pub open spec fn value_list(values: Seq<u64>, upto: int) -> Seq<char>
    decreases upto,
{
    if upto <= 0 {
        Seq::empty()
    } else {
        let before = value_list(values, upto - 1);
        let one = "0x"@ + hexadecimal(values[upto - 1] as nat);
        if upto == 1 {
            one
        } else {
            before + ", "@ + one
        }
    }
}

/// Returns values in hexadecimal, with a prefix, separated by commas.
pub fn format_values(values: &[u64]) -> (text: String)
    ensures
        text@ == value_list(values@, values@.len() as int),
{
    let mut text: String = String::new();
    let mut i: usize = 0;
    while i < values.len()
        invariant
            i <= values@.len(),
            text@ == value_list(values@, i as int),
        decreases values@.len() - i,
    {
        if i > 0 {
            text.append(", ");
        }
        text.append("0x");
        push_hexadecimal(&mut text, values[i]);
        i = i + 1;
        assert(text@ =~= value_list(values@, i as int));
    }
    text
}

/// Returns the first `n` integer arguments of a call whose registers were captured
/// at its entry, as the text of its record.
pub fn raw_args_text(context: &HookContext, n: usize) -> (text: String)
    ensures
        text@ == value_list(
            first_values(argument_registers(*context), n),
            first_values(argument_registers(*context), n).len() as int,
        ),
{
    let values = raw_arg_values(context, n);
    format_values(&values)
}

/// The record of the entry of a call. At the entry there is no return value.
#[derive(Debug)]
pub struct EntryRecord {
    pub function: String,
    pub args: String,
    pub thread_id: u32,
}

impl EntryRecord {
    /// Returns what sinks take: the record, with a mark in place of the return
    /// value.
    pub fn record(&self) -> (record: TraceRecord<'_>)
        ensures
            record.function@ == self.function@,
            record.args@ == self.args@,
            record.ret@ == "<entry>"@,
            record.thread_id == self.thread_id,
    {
        TraceRecord {
            function: self.function.as_str(),
            args: self.args.as_str(),
            ret: "<entry>",
            thread_id: self.thread_id,
        }
    }
}

/// Whether `record` is that of the entry of a call of `function` on a thread, with
/// the given argument values.
pub open spec fn enters(
    record: EntryRecord,
    function: Seq<char>,
    values: Seq<u64>,
    thread_id: u32,
) -> bool {
    &&& record.function@ == function
    &&& record.args@ == value_list(values, values.len() as int)
    &&& record.thread_id == thread_id
}

/// Returns the record of the entry of a call, with the first `args` integer
/// arguments of the registers that were captured there.
pub fn record_raw(function: &str, context: &HookContext, args: usize, thread_id: u32) -> (record:
    EntryRecord)
    ensures
        enters(
            record,
            function@,
            first_values(argument_registers(*context), args),
            thread_id,
        ),
{
    EntryRecord { function: function.to_owned(), args: raw_args_text(context, args), thread_id }
}

} // verus!
