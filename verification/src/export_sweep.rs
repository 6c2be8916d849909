//! A read-only sweep over the exports of a module: the prologue of each is run
//! through the path that an inline hook takes, without a hook being installed.
use vstd::prelude::*;

use crate::arch::Arch;
use crate::bytes::copy_range;
use crate::code::{detour_code_from_pointer, follow};
use crate::disasm::{
    encoded_relocation, instruction_len, instructions_from, read_window, relocation_refusal,
    window, DecodedInstruction, DisasmError, Disassembler, RelocationMapping,
};
use crate::introspect::{ExportInfo, ExportView};
use crate::memory::{region_at, MemoryMap, MemoryRegion, MEM_COMMIT, PAGE_EXECUTABLE};
use crate::text::{
    byte_list, contains, contains_text, decimal, hexadecimal, push_byte_list, push_decimal,
    push_hexadecimal,
};

verus! {

/// The bytes that a near jump takes.
pub const REQUIRED_SPACE: usize = 5;

/// The size of the trampoline page that prologues are relocated to.
pub const TRAMPOLINE_CAP: usize = 4096;

/// The bytes that a hook's own trampoline has for a relocated prologue.
pub const REAL_BUDGET: usize = 112;

/// How many refusals are kept as samples.
pub const SAMPLE_COUNT: usize = 20;

/// What a sweep counted.
#[derive(Debug)]
pub struct Stats {
    pub swept: usize,
    pub relocated: usize,
    pub skipped_not_code: usize,
    pub skipped_undecodable: usize,
    pub refused: usize,
    pub exceeds_real_budget: usize,
    /// What must not happen: a relocation that is empty or overruns the page, or
    /// that broke its own rules.
    pub crashes: Vec<String>,
    /// Some of the refusals.
    pub refusal_samples: Vec<String>,
}

/// What a [`Stats`] holds.
#[verifier::ext_equal]
pub struct StatsView {
    pub swept: int,
    pub relocated: int,
    pub skipped_not_code: int,
    pub skipped_undecodable: int,
    pub refused: int,
    pub exceeds_real_budget: int,
    pub crashes: Seq<Seq<char>>,
    pub refusal_samples: Seq<Seq<char>>,
}

/// What the texts of a list hold.
pub open spec fn texts(list: Seq<String>) -> Seq<Seq<char>> {
    list.map_values(|text: String| text@)
}

impl View for Stats {
    type V = StatsView;

    open spec fn view(&self) -> StatsView {
        StatsView {
            swept: self.swept as int,
            relocated: self.relocated as int,
            skipped_not_code: self.skipped_not_code as int,
            skipped_undecodable: self.skipped_undecodable as int,
            refused: self.refused as int,
            exceeds_real_budget: self.exceeds_real_budget as int,
            crashes: texts(self.crashes@),
            refusal_samples: texts(self.refusal_samples@),
        }
    }
}

/// What came of one export.
#[derive(Debug)]
pub enum SweepOutcome {
    /// The export is forwarded or has no address.
    Ignored,
    /// The export is not code.
    NotCode,
    /// The prologue cannot be measured.
    Undecodable,
    /// The prologue was relocated to as many bytes.
    Relocated { written: usize },
    /// The relocated prologue is empty or too long for the page.
    Overrun { written: usize, stolen: usize, code: u64 },
    /// The prologue was not relocated; up to sixteen of its bytes are given.
    Failed { reason: String, stolen: usize, bytes: Vec<u8> },
}

/// What a [`SweepOutcome`] holds.
#[verifier::ext_equal]
pub enum SweepView {
    Ignored,
    NotCode,
    Undecodable,
    Relocated { written: int },
    Overrun { written: int, stolen: int, code: u64 },
    Failed { reason: Seq<char>, stolen: int, bytes: Seq<u8> },
}

impl View for SweepOutcome {
    type V = SweepView;

    open spec fn view(&self) -> SweepView {
        match *self {
            SweepOutcome::Ignored => SweepView::Ignored,
            SweepOutcome::NotCode => SweepView::NotCode,
            SweepOutcome::Undecodable => SweepView::Undecodable,
            SweepOutcome::Relocated { written } => SweepView::Relocated { written: written as int },
            SweepOutcome::Overrun { written, stolen, code } => SweepView::Overrun {
                written: written as int,
                stolen: stolen as int,
                code,
            },
            SweepOutcome::Failed { reason, stolen, bytes } => SweepView::Failed {
                reason: reason@,
                stolen: stolen as int,
                bytes: bytes@,
            },
        }
    }
}

/// Whether an address lies in committed executable memory.
pub open spec fn executable(regions: Seq<MemoryRegion>, address: u64) -> bool {
    match region_at(regions, address as int) {
        Some(region) => region.state == MEM_COMMIT && region.protect & PAGE_EXECUTABLE != 0,
        None => false,
    }
}

/// Returns whether an address lies in committed executable memory.
pub fn is_executable(map: &MemoryMap, address: u64) -> (code: bool)
    ensures
        code == executable(map@, address),
{
    match map.query(address) {
        Some(index) => map.regions[index].state == MEM_COMMIT && map.regions[index].protect
            & PAGE_EXECUTABLE != 0,
        None => false,
    }
}

/// The length of the relocated code, or why there is none.
pub open spec fn relocation_result(
    list: Seq<DecodedInstruction>,
    encoded: Result<(Seq<u8>, Seq<u32>), Seq<char>>,
) -> Result<int, Seq<char>> {
    match relocation_refusal(list, 0) {
        Some(error) => Err(error.text()),
        None => match encoded {
            Err(reason) => Err("Relocation failed: "@ + reason),
            Ok((code, offsets)) => if offsets.len() < list.len() {
                Err(DisasmError::IncompleteOffsets.text())
            } else if offsets.subrange(0, list.len() as int).contains(u32::MAX) {
                Err(DisasmError::NotEncodable.text())
            } else {
                Ok(code.len() as int)
            },
        },
    }
}

/// The first bytes of a prologue, sixteen at most.
pub open spec fn first_bytes(code: Seq<u8>) -> Seq<u8> {
    if code.len() <= 16 {
        code
    } else {
        code.subrange(0, 16)
    }
}

/// What is made of the relocation of a prologue.
pub open spec fn judged(code: u64, bytes: Seq<u8>, result: Result<int, Seq<char>>) -> SweepView {
    match result {
        Ok(written) => if written == 0 || written > TRAMPOLINE_CAP {
            SweepView::Overrun { written, stolen: bytes.len() as int, code }
        } else {
            SweepView::Relocated { written }
        },
        Err(reason) => SweepView::Failed {
            reason,
            stolen: bytes.len() as int,
            bytes: first_bytes(bytes),
        },
    }
}

/// What comes of an export.
pub open spec fn outcome_of(
    arch: Arch,
    regions: Seq<MemoryRegion>,
    export: ExportView,
    trampoline: u64,
) -> SweepView {
    if export.forwarder is Some || export.address == 0 {
        SweepView::Ignored
    } else {
        let code = follow(arch, regions, export.address, Seq::empty());
        if !executable(regions, code) {
            SweepView::NotCode
        } else {
            match instruction_len(arch, regions, code, REQUIRED_SPACE as int) {
                Err(_) => SweepView::Undecodable,
                Ok(stolen) => {
                    let bytes = window(arch, regions, code as int, stolen);
                    judged(
                        code,
                        bytes,
                        relocation_result(
                            instructions_from(arch, bytes, code, 0),
                            encoded_relocation(arch, bytes, code, trampoline),
                        ),
                    )
                },
            }
        }
    }
}

/// Returns what is made of the relocation of the prologue `bytes` at `code`.
pub fn judge(code: u64, bytes: &[u8], result: Result<RelocationMapping, DisasmError>) -> (outcome:
    SweepOutcome)
    ensures
        outcome@ == judged(
            code,
            bytes@,
            match result {
                Ok(mapping) => Ok(mapping.written_len as int),
                Err(error) => Err(error.text()),
            },
        ),
{
    let stolen: usize = bytes.len();
    match result {
        Ok(mapping) => {
            let written: usize = mapping.written_len;
            if written == 0 || written > TRAMPOLINE_CAP {
                SweepOutcome::Overrun { written, stolen, code }
            } else {
                SweepOutcome::Relocated { written }
            }
        },
        Err(error) => {
            let shown: usize = if stolen <= 16 {
                stolen
            } else {
                16
            };
            let first = copy_range(bytes, 0, shown);
            assert(first@ =~= first_bytes(bytes@));
            SweepOutcome::Failed { reason: error.message(), stolen, bytes: first }
        },
    }
}

/// Runs one export through the path that an inline hook takes.
pub fn probe_export(arch: Arch, map: &MemoryMap, export: &ExportInfo, trampoline: u64) -> (outcome:
    SweepOutcome)
    ensures
        outcome@ == outcome_of(arch, map@, export@, trampoline),
{
    if export.forwarder.is_some() || export.address == 0 {
        return SweepOutcome::Ignored;
    }
    let code: u64 = detour_code_from_pointer(arch, map, export.address);
    if !is_executable(map, code) {
        return SweepOutcome::NotCode;
    }
    let stolen: usize = match Disassembler::get_instruction_len(arch, map, code, REQUIRED_SPACE) {
        Ok(stolen) => stolen,
        Err(_) => {
            return SweepOutcome::Undecodable;
        },
    };
    let bytes = read_window(arch, map, code, stolen as u64);
    let result = Disassembler::relocate(arch, &bytes, code, trampoline);
    judge(code, &bytes, result)
}

/// The label of an export: the module with the name or the ordinal.
pub open spec fn label(module: Seq<char>, export: ExportView) -> Seq<char> {
    match export.name {
        Some(name) => module + "!"@ + name,
        None => module + "!#"@ + decimal(export.ordinal as nat),
    }
}

/// Returns the label of an export: the module with the name or the ordinal.
pub fn export_label(module: &str, export: &ExportInfo) -> (text: String)
    ensures
        text@ == label(module@, export@),
{
    let mut text: String = module.to_owned();
    match &export.name {
        Some(name) => {
            text.append("!");
            text.append(name.as_str());
        },
        None => {
            text.append("!#");
            push_decimal(&mut text, export.ordinal as u64);
        },
    }
    text
}

/// What marks an error of the relocator itself.
pub open spec fn internal_mark() -> Seq<char> {
    "Internal relocation error"@
}

/// How an overrun is reported.
pub open spec fn overrun_text(label: Seq<char>, written: int, stolen: int, code: u64) -> Seq<char> {
    label + ": relocate reported written_len="@ + decimal(written as nat) + " (cap "@ + decimal(
        TRAMPOLINE_CAP as nat,
    ) + ") stolen="@ + decimal(stolen as nat) + " at 0x"@ + hexadecimal(code as nat)
}

/// How the prologue of a failed relocation is shown.
pub open spec fn prologue_text(stolen: int, bytes: Seq<u8>) -> Seq<char> {
    " (stolen="@ + decimal(stolen as nat) + ", bytes="@ + (seq!['['] + byte_list(bytes) + seq![
        ']',
    ]) + ")"@
}

/// The counts after one export more.
pub open spec fn recorded(stats: StatsView, label: Seq<char>, outcome: SweepView) -> StatsView {
    match outcome {
        SweepView::Ignored => stats,
        SweepView::NotCode => StatsView {
            skipped_not_code: stats.skipped_not_code + 1,
            ..stats
        },
        SweepView::Undecodable => StatsView {
            skipped_undecodable: stats.skipped_undecodable + 1,
            ..stats
        },
        SweepView::Relocated { written } => StatsView {
            swept: stats.swept + 1,
            relocated: stats.relocated + 1,
            exceeds_real_budget: stats.exceeds_real_budget + if written > REAL_BUDGET {
                1int
            } else {
                0int
            },
            ..stats
        },
        SweepView::Overrun { written, stolen, code } => StatsView {
            swept: stats.swept + 1,
            crashes: stats.crashes.push(overrun_text(label, written, stolen, code)),
            ..stats
        },
        SweepView::Failed { reason, stolen, bytes } => if contains_text(reason, internal_mark()) {
            StatsView {
                swept: stats.swept + 1,
                crashes: stats.crashes.push(
                    label + ": internal relocator invariant violated: "@ + reason + prologue_text(
                        stolen,
                        bytes,
                    ),
                ),
                ..stats
            }
        } else {
            StatsView {
                swept: stats.swept + 1,
                refused: stats.refused + 1,
                refusal_samples: if stats.refusal_samples.len() < SAMPLE_COUNT {
                    stats.refusal_samples.push(
                        label + ": "@ + reason + prologue_text(stolen, bytes),
                    )
                } else {
                    stats.refusal_samples
                },
                ..stats
            }
        },
    }
}

/// Appends how the prologue of a failed relocation is shown.
fn push_prologue(out: &mut String, stolen: usize, bytes: &[u8])
    ensures
        final(out)@ == old(out)@ + prologue_text(stolen as int, bytes@),
{
    out.append(" (stolen=");
    push_decimal(out, stolen as u64);
    out.append(", bytes=");
    push_byte_list(out, bytes);
    out.append(")");
    assert(out@ =~= old(out)@ + prologue_text(stolen as int, bytes@));
}

/// Appending a text appends what it holds.
proof fn lemma_texts_push(list: Seq<String>, text: String)
    ensures
        texts(list.push(text)) == texts(list).push(text@),
{
    assert(texts(list.push(text)) =~= texts(list).push(text@));
}

impl Stats {
    /// Whether `more` exports can still be counted.
    pub open spec fn room(self, more: int) -> bool {
        &&& self.swept + more <= usize::MAX
        &&& self.relocated <= self.swept
        &&& self.refused <= self.swept
        &&& self.exceeds_real_budget <= self.swept
        &&& self.skipped_not_code + more <= usize::MAX
        &&& self.skipped_undecodable + more <= usize::MAX
    }

    /// Returns the counts before a sweep.
    pub fn new() -> (stats: Stats)
        ensures
            stats@ == (StatsView {
                swept: 0,
                relocated: 0,
                skipped_not_code: 0,
                skipped_undecodable: 0,
                refused: 0,
                exceeds_real_budget: 0,
                crashes: Seq::empty(),
                refusal_samples: Seq::empty(),
            }),
            stats.room(usize::MAX as int),
    {
        let stats = Stats {
            swept: 0,
            relocated: 0,
            skipped_not_code: 0,
            skipped_undecodable: 0,
            refused: 0,
            exceeds_real_budget: 0,
            crashes: Vec::new(),
            refusal_samples: Vec::new(),
        };
        assert(texts(stats.crashes@) =~= Seq::<Seq<char>>::empty());
        stats
    }

    /// Counts what came of an export.
    pub fn record(&mut self, label: String, outcome: SweepOutcome)
        requires
            old(self).room(1),
        ensures
            final(self)@ == recorded(old(self)@, label@, outcome@),
            forall|more: int| old(self).room(more + 1) ==> #[trigger] final(self).room(more),
    {
        match outcome {
            SweepOutcome::Ignored => {},
            SweepOutcome::NotCode => {
                self.skipped_not_code = self.skipped_not_code + 1;
            },
            SweepOutcome::Undecodable => {
                self.skipped_undecodable = self.skipped_undecodable + 1;
            },
            SweepOutcome::Relocated { written } => {
                self.swept = self.swept + 1;
                if written > REAL_BUDGET {
                    self.exceeds_real_budget = self.exceeds_real_budget + 1;
                }
                self.relocated = self.relocated + 1;
            },
            SweepOutcome::Overrun { written, stolen, code } => {
                self.swept = self.swept + 1;
                let mut text: String = label;
                text.append(": relocate reported written_len=");
                push_decimal(&mut text, written as u64);
                text.append(" (cap ");
                push_decimal(&mut text, TRAMPOLINE_CAP as u64);
                text.append(") stolen=");
                push_decimal(&mut text, stolen as u64);
                text.append(" at 0x");
                push_hexadecimal(&mut text, code);
                proof {
                    lemma_texts_push(self.crashes@, text);
                }
                self.crashes.push(text);
            },
            SweepOutcome::Failed { reason, stolen, bytes } => {
                self.swept = self.swept + 1;
                if contains(reason.as_str(), "Internal relocation error") {
                    let mut text: String = label;
                    text.append(": internal relocator invariant violated: ");
                    text.append(reason.as_str());
                    push_prologue(&mut text, stolen, &bytes);
                    proof {
                        lemma_texts_push(self.crashes@, text);
                    }
                    self.crashes.push(text);
                } else {
                    self.refused = self.refused + 1;
                    assert(texts(self.refusal_samples@).len() == self.refusal_samples@.len());
                    if self.refusal_samples.len() < SAMPLE_COUNT {
                        let mut text: String = label;
                        text.append(": ");
                        text.append(reason.as_str());
                        push_prologue(&mut text, stolen, &bytes);
                        proof {
                            lemma_texts_push(self.refusal_samples@, text);
                        }
                        self.refusal_samples.push(text);
                    }
                }
            },
        }
    }
}

/// The counts after the first `upto` exports.
pub open spec fn swept_stats(
    arch: Arch,
    regions: Seq<MemoryRegion>,
    module: Seq<char>,
    exports: Seq<ExportView>,
    trampoline: u64,
    stats: StatsView,
    upto: int,
) -> StatsView
    decreases upto,
{
    if upto <= 0 {
        stats
    } else {
        recorded(
            swept_stats(arch, regions, module, exports, trampoline, stats, upto - 1),
            label(module, exports[upto - 1]),
            outcome_of(arch, regions, exports[upto - 1], trampoline),
        )
    }
}

/// Sweeps over the exports of a module.
pub fn sweep_module(
    arch: Arch,
    map: &MemoryMap,
    module: &str,
    exports: &[ExportInfo],
    trampoline: u64,
    stats: &mut Stats,
)
    requires
        old(stats).room(exports@.len() as int),
    ensures
        final(stats)@ == swept_stats(
            arch,
            map@,
            module@,
            exports@.map_values(|export: ExportInfo| export@),
            trampoline,
            old(stats)@,
            exports@.len() as int,
        ),
{
    let ghost views = exports@.map_values(|export: ExportInfo| export@);
    let mut i: usize = 0;
    while i < exports.len()
        invariant
            i <= exports@.len(),
            views == exports@.map_values(|export: ExportInfo| export@),
            stats.room(exports@.len() - i),
            stats@ == swept_stats(
                arch,
                map@,
                module@,
                views,
                trampoline,
                old(stats)@,
                i as int,
            ),
        decreases exports@.len() - i,
    {
        let outcome = probe_export(arch, map, &exports[i], trampoline);
        let text = export_label(module, &exports[i]);
        assert(views[i as int] == exports@[i as int]@);
        assert(stats.room((exports@.len() - i - 1) + 1));
        stats.record(text, outcome);
        i = i + 1;
        assert(stats.room(exports@.len() - i));
    }
}

/// Every prologue that was swept was relocated, was refused, or is reported as
/// something that must not happen.
pub proof fn lemma_every_prologue_is_counted(
    arch: Arch,
    regions: Seq<MemoryRegion>,
    module: Seq<char>,
    exports: Seq<ExportView>,
    trampoline: u64,
    stats: StatsView,
    upto: int,
)
    requires
        0 <= upto <= exports.len(),
        stats.swept == stats.relocated + stats.refused + stats.crashes.len(),
    ensures
        ({
            let after = swept_stats(arch, regions, module, exports, trampoline, stats, upto);
            after.swept == after.relocated + after.refused + after.crashes.len()
        }),
    decreases upto,
{
    if upto > 0 {
        lemma_every_prologue_is_counted(
            arch,
            regions,
            module,
            exports,
            trampoline,
            stats,
            upto - 1,
        );
    }
}

} // verus!
