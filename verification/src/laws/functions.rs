//! Laws of the functions themselves: what a call returns, by the laws of its subject.
use vstd::prelude::*;

use crate::arch::Arch;
use crate::bytes::u64_at;
use crate::code::{detour_code_from_pointer, detour_code_from_pointer_once, follow, jump_target};
use crate::disasm::{
    encoded_block, instruction_len, instructions_from, read_window, relocation_of, Disassembler,
    DisasmError, NearJump, NearJumpEncoding, RelocationMapping,
};
use crate::eat::{
    direct_rva, export_slot, find_export_slot, reachable_rva, EatHookError, ExportSlot,
};
use crate::export_sweep::{outcome_of, probe_export, SweepOutcome};
use crate::gateway::{build_original_gateway, gateway_code, OriginalGateway};
use crate::iat::{import_slot, IatHook, IatHookError};
use crate::inline::{
    choose_jump, gateway_target, jump_type_of, map_redirect_address_exact,
    read_managed_gateway_target, redirect_rip_relative_threads, redirected, stack_redirects,
    InlineData, JumpType, ThreadRedirect, ThreadState,
};
use crate::introspect::{
    entry_address, enumerate_exports, enumerate_imports, exports_of, get_entry_point, imports_of,
    lossy_text, wide_len, wide_to_string, ExportInfo, ImportInfo,
};
use crate::laws::inline::{bits, lemma_hook_saves_the_code_at_its_target, limit};
use crate::laws::jumps::{as_signed, four};
use crate::laws::memory::{lemma_u32_value, lemma_window_gives_captured_bytes, reports};
use crate::laws::registers::{
    has_registers, lemma_block_gives_the_registers, lemma_handler_gets_the_live_registers, run,
    Machine,
};
use crate::laws::scanning::{lemma_scan_misses_nothing, seamless, stands_at};
use crate::laws::signatures::lemma_mask_is_refused_at_its_first_bad_character;
use crate::laws::transactions::{lemma_inline_hook_is_queued, queued_one};
use crate::memory::{bytes_at, mem_pointer, MemoryMap};
use crate::midhook::{build_stub, HookContext};
use crate::module::{get_module_size, image_size};
use crate::pe::{
    c_string, data_directory, directory, parse_module_image, parsed, read_c_string_from_rva,
    ModuleImage, PeError,
};
use crate::reclaim::{
    free_quiescent_regions, live_addresses, referenced, regions_where, Quiescent, RetiredRegion,
};
use crate::resolve::{
    branch_target, instruction_at, relative_operand, resolve_call_target, resolve_relative,
    resolve_rip_relative,
};
use crate::scan::{
    committed_matches, first_bad_mask, lemma_occurrences_exact, module_match, occurrences, occurs,
    parses_to, scan, scan_all, scan_committed, scan_module, Pattern, PatternError,
};
use crate::symbols::{
    base_name, module_basename_no_ext, SymbolSearch, SymbolStage, SymbolStep,
};
use crate::text::{
    ascii_lower_text, decimal, eq_ignore_ascii_case, hexadecimal, push_decimal, push_hexadecimal,
};
use crate::threads::{other_threads, ThreadEntry, ThreadEnumerator};
use crate::transaction::{
    aborted, commit_begun, export_attached, import_attached, inline_attached, instance_attached,
    table_attached, thread_updated, AttachedInline, Commit, GatewayRegistry, PendingHook,
    TransactionCore,
};
use crate::veh::{address_register, control_register, set_debug_register, DebugRegisters};
use crate::DetourError;

verus! {

/// What is read for decoding are the captured bytes at the address, one after the other.
pub proof fn lemma_code_is_read_at_its_address(
    arch: Arch,
    map: &MemoryMap,
    address: u64,
    max: u64,
    bytes: Vec<u8>,
    index: int,
)
    requires
        call_ensures(read_window, (arch, map, address, max), bytes),
        reports(map@, index, address as int),
        map@[index].base + map@[index].size < limit(arch),
    ensures
        bytes@.len() <= max,
        forall|i: int|
            0 <= i < bytes@.len() ==> #[trigger] bytes@[i] == map@[index].bytes@[address + i
                - map@[index].base],
{
    lemma_window_gives_captured_bytes(arch, map@, index, address as int, max as int);
}

/// A hook that is attached saves the bytes that were captured at its target, behind the
/// hooks that were queued before.
pub proof fn lemma_attached_hook_saves_its_target(
    core: &mut TransactionCore,
    map: &MemoryMap,
    gateways: &GatewayRegistry,
    target: u64,
    detour: u64,
    trampoline: Option<u64>,
    result: Result<AttachedInline, DetourError>,
    index: int,
)
    requires
        call_ensures(
            TransactionCore::attach,
            (core, map, gateways, target, detour, trampoline),
            result,
        ),
        reports(map@, index, target as int),
        map@[index].base + map@[index].size < limit(old(core).arch),
    ensures
        result is Err ==> *final(core) == *old(core),
        result is Ok ==> queued_one(*old(core), *final(core))
            && (final(core).pending_hooks@.last() matches PendingHook::Inline(data) && {
            &&& data.target == target && data.detour == detour
            &&& data.orig_bytes@.len() == data.stolen_len
            &&& forall|i: int|
                0 <= i < data.stolen_len ==> #[trigger] data.orig_bytes@[i]
                    == map@[index].bytes@[target + i - map@[index].base]
        }),
{
    assert(inline_attached(
        *old(core),
        *final(core),
        map@,
        gateways@,
        target,
        detour,
        trampoline,
        result,
    ));
    lemma_inline_hook_is_queued(
        *old(core),
        *final(core),
        map@,
        gateways@,
        target,
        detour,
        trampoline,
        result,
    );
    if result is Ok {
        let data = final(core).pending_hooks@.last()->Inline_0;
        lemma_hook_saves_the_code_at_its_target(
            old(core).arch,
            map@,
            gateways@,
            target,
            detour,
            result->Ok_0.gateway,
            data,
            index,
        );
    }
}

/// The stub that is built calls the handler with the block of the live registers, and takes
/// them from the block that the handler leaves.
pub proof fn lemma_built_stub_saves_and_restores(
    handler: u64,
    gateway: u64,
    stub: Vec<u8>,
    machine: Machine,
    context: HookContext,
    returned: Machine,
    changed: HookContext,
)
    requires
        call_ensures(build_stub, (handler, gateway), stub),
        has_registers(machine, context),
        machine.below.len() >= 440,
        machine.below.len() <= machine.sp <= u64::MAX,
        context.rflags == (machine.sum_flags)(machine.sp - 256, -8),
        crate::bytes::le4(context._reserved) == machine.below.subrange(
            machine.below.len() - 260,
            machine.below.len() - 256,
        ),
        returned.wf(),
        returned.sp == returned.general[5],
        returned.stack == changed.block() + machine.stack,
    ensures
        stub@.len() == 379,
        run(stub@.subrange(0, 192), 0, machine) matches Some(after) && {
            &&& after.general[0] == handler
            &&& after.general[1] == machine.sp - 392
            &&& after.stack.subrange(
                machine.sp - 392 - after.sp,
                after.stack.len() as int,
            ) == context.block() + machine.stack
        },
        stub@.subrange(192, 194) == seq![0xFFu8, 0xD0],
        run(stub@.subrange(194, 365), 0, returned) matches Some(after) && has_registers(
            after,
            changed,
        ) && after.stack == machine.stack,
        stub@.subrange(365, 371) == seq![0xFFu8, 0x25, 0, 0, 0, 0],
        u64_at(stub@, 371) == gateway,
{
    lemma_handler_gets_the_live_registers(handler, gateway, machine, context);
    assert(returned.stack.subrange(0, returned.stack.len() as int) =~= returned.stack);
    lemma_block_gives_the_registers(handler, gateway, returned, changed, machine.stack);
    crate::laws::registers::lemma_stub_resumes_at_the_gateway(handler, gateway);
}

/// A scan lists every place at which the signature stands, or the lowest one.
pub proof fn lemma_scan_lists_every_place(
    arch: Arch,
    map: &MemoryMap,
    start: u64,
    len: u64,
    pattern: &Pattern,
    executable_only: bool,
    first_only: bool,
    found: Vec<u64>,
    index: int,
    address: u64,
)
    requires
        call_ensures(
            scan_committed,
            (arch, map, start, len, pattern, executable_only, first_only),
            found,
        ),
        pattern.wf(),
        pattern.bytes@.len() > 0,
        start + len < limit(arch),
        seamless(arch, map@, start as int, start + len),
        0 <= index < map@.len(),
        stands_at(map@[index], address as int, *pattern, executable_only),
        start <= address,
        address + pattern.bytes@.len() <= start + len,
    ensures
        !first_only ==> found@.contains(address),
        first_only ==> found@.len() == 1 && found@[0] <= address,
{
    let all = committed_matches(
        arch,
        map@,
        start as int,
        len as int,
        *pattern,
        executable_only,
    );
    lemma_scan_misses_nothing(
        arch,
        map@,
        start as int,
        len as int,
        *pattern,
        executable_only,
        index,
        address as int,
    );
    crate::laws::scanning::lemma_scan_finds_nothing_else(
        arch,
        map@,
        start as int,
        len as int,
        *pattern,
        executable_only,
    );
    let i = choose|i: int| 0 <= i < all.len() && all[i] == address as int;
    let listed = found@.map_values(|one: u64| one as int);
    if !first_only {
        assert(listed == all);
        assert(listed[i] == found@[i] as int);
    } else {
        if i > 0 {
            assert(all[0] < all[i]);
        }
        assert(listed.len() == found@.len());
        assert(listed[0] == found@[0] as int);
    }
}

/// The lowest match in a module is found.
pub proof fn lemma_scanned_module(
    arch: Arch,
    map: &MemoryMap,
    mapped: &[u8],
    base: u64,
    pattern: &Pattern,
    found: Option<u64>,
)
    requires
        call_ensures(scan_module, (arch, map, mapped, base, pattern), found),
    ensures
        found == module_match(arch, map@, mapped@, base, *pattern),
{
}

/// A signature is parsed by its tokens.
pub proof fn lemma_parsed_signature(signature: &str, result: Result<Pattern, PatternError>)
    requires
        call_ensures(Pattern::parse, (signature,), result),
    ensures
        parses_to(signature@, result),
{
}

/// A signature of bytes and a mask is taken as it is given: a byte counts where its mask
/// character is no question mark. It is refused where it is empty, where the two are not
/// as long as each other, and for any other mask character.
pub proof fn lemma_masked_signature(
    bytes: &[u8],
    mask: &str,
    result: Result<Pattern, PatternError>,
    i: int,
)
    requires
        call_ensures(Pattern::from_code_style, (bytes, mask), result),
        0 <= i < mask@.len(),
    ensures
        result matches Ok(pattern) ==> {
            &&& bytes@.len() == mask@.len()
            &&& pattern.bytes@ == bytes@
            &&& pattern.mask@.len() == mask@.len()
            &&& pattern.mask@[i] == (mask@[i] != '?')
            &&& mask@[i] == 'x' || mask@[i] == 'X' || mask@[i] == '?'
        },
        bytes@.len() == 0 || bytes@.len() != mask@.len() ==> result is Err,
        bytes@.len() == mask@.len() && bytes@.len() > 0 && (forall|j: int|
            0 <= j < mask@.len() ==> #[trigger] mask@[j] == 'x' || mask@[j] == 'X' || mask@[j]
                == '?') ==> result is Ok,
{
    if bytes@.len() == mask@.len() && bytes@.len() > 0 {
        if forall|j: int|
            0 <= j < mask@.len() ==> #[trigger] mask@[j] == 'x' || mask@[j] == 'X' || mask@[j]
                == '?' {
            lemma_mask_is_refused_at_its_first_bad_character(mask@, mask@.len() as int);
        } else {
            let j = choose|j: int|
                0 <= j < mask@.len() && !(#[trigger] mask@[j] == 'x' || mask@[j] == 'X' || mask@[j]
                    == '?');
            lemma_bad_mask_is_found(mask@, 0, j);
        }
    }
}

/// A mask with an unknown character is not accepted.
proof fn lemma_bad_mask_is_found(mask: Seq<char>, at: int, bad: int)
    requires
        0 <= at <= bad < mask.len(),
        mask[bad] != 'x',
        mask[bad] != 'X',
        mask[bad] != '?',
    ensures
        first_bad_mask(mask, at) <= bad,
    decreases bad - at,
{
    if at < bad {
        lemma_bad_mask_is_found(mask, at + 1, bad);
    }
}

/// A search of bytes lists every offset at which the signature matches, ascending, and
/// nothing else.
pub proof fn lemma_listed_offsets(
    haystack: &[u8],
    pattern: &Pattern,
    offsets: Vec<usize>,
    first: Option<usize>,
    offset: int,
)
    requires
        pattern.wf(),
        pattern.bytes@.len() > 0,
        call_ensures(scan_all, (haystack, pattern), offsets),
        call_ensures(scan, (haystack, pattern), first),
        0 <= offset,
        offset + pattern.bytes@.len() <= haystack@.len(),
        forall|k: int|
            0 <= k < pattern.bytes@.len() && pattern.mask@[k] ==> haystack@[offset + k]
                == #[trigger] pattern.bytes@[k],
    ensures
        exists|i: int| 0 <= i < offsets@.len() && #[trigger] offsets@[i] == offset,
        first is Some && first->0 <= offset,
{
    assert(occurs(haystack@, *pattern, offset));
    lemma_occurrences_exact(haystack@, *pattern, haystack@.len() as int);
    let all = occurrences(haystack@, *pattern);
    assert(all.contains(offset));
    let i = choose|i: int| 0 <= i < all.len() && all[i] == offset;
    let listed = offsets@.map_values(|one: usize| one as int);
    assert(listed == all);
    assert(listed[i] == offsets@[i] as int);
    if i > 0 {
        assert(all[0] < all[i]);
    }
}

/// The imports that are listed are all imports of the image.
pub proof fn lemma_listed_imports(
    arch: Arch,
    mapped: &[u8],
    base: u64,
    result: Result<Vec<ImportInfo>, PeError>,
)
    requires
        call_ensures(enumerate_imports, (arch, mapped, base), result),
    ensures
        match (parsed(arch, mapped@, base), result) {
            (Ok(image), Ok(list)) => {
                let all = imports_of(arch, image, mapped@);
                &&& list@.len() == all.len()
                &&& forall|i: int| 0 <= i < all.len() ==> (#[trigger] list@[i])@ == all[i]
            },
            (Err(error), Err(returned)) => returned == error,
            _ => false,
        },
{
    if result is Ok {
        let list = result->Ok_0@;
        let views = list.map_values(|import: ImportInfo| import@);
        assert(views.len() == list.len());
        assert forall|i: int| 0 <= i < list.len() implies (#[trigger] list[i])@ == views[i] by {}
    }
}

/// The exports that are listed are all exports of the image.
pub proof fn lemma_listed_exports(
    arch: Arch,
    mapped: &[u8],
    base: u64,
    result: Result<Vec<ExportInfo>, PeError>,
)
    requires
        call_ensures(enumerate_exports, (arch, mapped, base), result),
    ensures
        match (parsed(arch, mapped@, base), result) {
            (Ok(image), Ok(list)) => {
                let all = exports_of(arch, image, mapped@);
                &&& list@.len() == all.len()
                &&& forall|i: int| 0 <= i < all.len() ==> (#[trigger] list@[i])@ == all[i]
            },
            (Err(error), Err(returned)) => returned == error,
            _ => false,
        },
{
    if result is Ok {
        let list = result->Ok_0@;
        let views = list.map_values(|export: ExportInfo| export@);
        assert(views.len() == list.len());
        assert forall|i: int| 0 <= i < list.len() implies (#[trigger] list[i])@ == views[i] by {}
    }
}

/// The slot of an import is the one that the import table gives it.
pub proof fn lemma_found_import(
    arch: Arch,
    mapped: &[u8],
    base: u64,
    dll: &str,
    function: &str,
    found: Result<u64, IatHookError>,
)
    requires
        call_ensures(IatHook::find_import_address, (arch, mapped, base, dll, function), found),
    ensures
        found is Ok <==> import_slot(arch, mapped@, base, dll@, function@) is Ok,
        found is Ok ==> found->Ok_0 == import_slot(arch, mapped@, base, dll@, function@)->Ok_0,
{
}

/// The slot of an export is the one that the export table gives it.
pub proof fn lemma_found_export(
    arch: Arch,
    image: &ModuleImage,
    mapped: &[u8],
    function: &str,
    found: Result<ExportSlot, EatHookError>,
)
    requires
        call_ensures(find_export_slot, (arch, image, mapped, function), found),
    ensures
        found == export_slot(arch, *image, mapped@, function@),
{
}

/// An image, its directories, its texts and its entry are read from its headers.
pub proof fn lemma_read_image(
    arch: Arch,
    mapped: &[u8],
    base: u64,
    image: &ModuleImage,
    index: usize,
    rva: u64,
    parsing: Result<ModuleImage, PeError>,
    found: Option<(u64, u64)>,
    text: Option<String>,
    entry: Option<u64>,
    size: u32,
)
    requires
        call_ensures(parse_module_image, (arch, mapped, base), parsing),
        call_ensures(data_directory, (arch, image, mapped, index), found),
        call_ensures(read_c_string_from_rva, (arch, image, mapped, rva), text),
        call_ensures(get_entry_point, (arch, mapped, base), entry),
        call_ensures(get_module_size, (mapped, base), size),
    ensures
        parsing == parsed(arch, mapped@, base),
        found == directory(arch, *image, mapped@, index as int),
        text is Some <==> c_string(arch, *image, mapped@, rva as int) is Some,
        text is Some ==> Some(text->0@) == c_string(arch, *image, mapped@, rva as int),
        entry == entry_address(arch, mapped@, base),
        size == image_size(mapped@, base),
{
}

/// A pointer is followed along its jumps, each to where it leads; null stays null.
pub proof fn lemma_followed_pointer(
    arch: Arch,
    map: &MemoryMap,
    pointer: u64,
    code: u64,
    target: Option<u64>,
)
    requires
        call_ensures(detour_code_from_pointer, (arch, map, pointer), code),
        call_ensures(detour_code_from_pointer_once, (arch, map, pointer), target),
    ensures
        pointer == 0 ==> code == 0,
        pointer != 0 ==> code == follow(arch, map@, pointer, Seq::empty()),
        target == jump_target(arch, map@, pointer),
{
}

/// Memory is read where it was captured.
pub proof fn lemma_read_memory(
    arch: Arch,
    map: &MemoryMap,
    address: u64,
    len: u64,
    bytes: Option<Vec<u8>>,
    pointer: Option<u64>,
)
    requires
        call_ensures(MemoryMap::read, (map, arch, address, len), bytes),
        call_ensures(MemoryMap::read_pointer, (map, arch, address), pointer),
    ensures
        bytes is Some <==> bytes_at(arch, map@, address as int, len as int) is Some,
        bytes is Some ==> Some(bytes->0@) == bytes_at(arch, map@, address as int, len as int),
        pointer == mem_pointer(arch, map@, address),
{
}

/// What an instruction refers to is resolved from the instruction at its address.
pub proof fn lemma_resolved_operand(
    arch: Arch,
    map: &MemoryMap,
    address: u64,
    target: Option<u64>,
    operand: Option<u64>,
)
    requires
        call_ensures(resolve_call_target, (arch, map, address), target),
        call_ensures(resolve_rip_relative, (arch, map, address), operand),
    ensures
        instruction_at(arch, map@, address) is None ==> target is None && operand is None,
        instruction_at(arch, map@, address) matches Some(instruction) ==> target == branch_target(
            instruction,
        ) && operand == relative_operand(instruction),
{
}

/// A relative reference leads as far from the end of its instruction as its displacement
/// says.
pub proof fn lemma_resolved_reference(
    arch: Arch,
    instruction: &[u8],
    address: u64,
    offset: usize,
    len: usize,
    target: u64,
)
    requires
        call_ensures(resolve_relative, (arch, instruction, address, offset, len), target),
        offset + 4 <= instruction@.len(),
    ensures
        target == (address + len + as_signed(
            four(instruction@, offset as int),
            0x1_0000_0000,
        )) % limit(arch),
{
    lemma_u32_value(instruction@, offset as int);
}

/// The length of code and its relocation are those of its instructions.
pub proof fn lemma_measured_and_moved_code(
    arch: Arch,
    map: &MemoryMap,
    address: u64,
    min_size: usize,
    len: Result<usize, DisasmError>,
    code: &[u8],
    trampoline: u64,
    result: Result<RelocationMapping, DisasmError>,
)
    requires
        call_ensures(Disassembler::get_instruction_len, (arch, map, address, min_size), len),
        call_ensures(Disassembler::relocate, (arch, code, address, trampoline), result),
    ensures
        len matches Ok(covered) ==> instruction_len(arch, map@, address, min_size as int) == Ok::<
            int,
            DisasmError,
        >(covered as int),
        len matches Err(error) ==> instruction_len(arch, map@, address, min_size as int) == Err::<
            int,
            DisasmError,
        >(error),
        relocation_of(
            instructions_from(arch, code@, address, 0),
            encoded_block(
                bits(arch),
                code@,
                address,
                seq![
                    NearJump {
                        encoding: if arch == Arch::X86 {
                            NearJumpEncoding::Rel32In32
                        } else {
                            NearJumpEncoding::Rel32In64
                        },
                        target: (address + code@.len()) as u64,
                    },
                ],
                trampoline,
            ),
            result,
        ),
{
}

/// The jump to a detour, the place of an address in a trampoline and the target of a
/// gateway are those of the hook.
pub proof fn lemma_hook_addresses(
    arch: Arch,
    data: &InlineData,
    address: u64,
    jump: JumpType,
    mapped: Option<u64>,
    code: &[u8],
    target: Option<u64>,
)
    requires
        call_ensures(choose_jump, (arch, data.target, data.detour), jump),
        call_ensures(map_redirect_address_exact, (arch, data, address), mapped),
        call_ensures(read_managed_gateway_target, (arch, address, code), target),
    ensures
        jump == jump_type_of(arch, data.target, data.detour),
        mapped == redirected(arch, *data, address),
        target == gateway_target(arch, address, code@),
{
}

/// A thread is moved out of stolen code with its instruction pointer and its stack, or not
/// at all.
pub proof fn lemma_moved_thread(
    arch: Arch,
    data: &InlineData,
    state: &ThreadState,
    result: Result<ThreadRedirect, DetourError>,
)
    requires
        call_ensures(redirect_rip_relative_threads, (arch, data, state), result),
    ensures
        result matches Ok(change) ==> change.ip == redirected(arch, *data, state.ip)
            && change.stack@ == stack_redirects(
            arch,
            *data,
            state.sp,
            state.stack@,
            state.stack@.len() as int,
        ),
        result is Err ==> data.target <= state.ip < data.target + data.stolen_len && redirected(
            arch,
            *data,
            state.ip,
        ) is None,
        data.target <= state.ip < data.target + data.stolen_len && redirected(
            arch,
            *data,
            state.ip,
        ) is None ==> result is Err,
{
}

/// The other threads, the addresses in use and the stubs that may be freed are listed as
/// they are.
pub proof fn lemma_listed_threads_and_stubs(
    arch: Arch,
    entries: &[ThreadEntry],
    process_id: u32,
    calling_thread: u32,
    ids: Vec<u32>,
    threads: &[ThreadState],
    live: Vec<u64>,
    regions: &[RetiredRegion],
    addresses: &[u64],
    parted: Quiescent,
)
    requires
        call_ensures(
            ThreadEnumerator::enumerate_process_threads,
            (entries, process_id, calling_thread),
            ids,
        ),
        call_ensures(live_addresses, (threads,), live),
        call_ensures(free_quiescent_regions, (arch, regions, addresses), parted),
    ensures
        ids@ == other_threads(entries@, process_id, calling_thread, entries@.len() as int),
        live@ == referenced(threads@, threads@.len() as int),
        parted.freed@ == regions_where(
            arch,
            regions@,
            addresses@,
            false,
            regions@.len() as int,
        ),
        parted.busy@ == regions_where(arch, regions@, addresses@, true, regions@.len() as int),
{
}

/// A breakpoint is set in the debug registers of its slot alone.
pub proof fn lemma_set_breakpoint(
    arch: Arch,
    registers: &mut DebugRegisters,
    slot: usize,
    address: u64,
    enable: bool,
    other: usize,
)
    requires
        call_ensures(set_debug_register, (arch, registers, slot, address, enable), ()),
        slot < 4,
        other < 4,
        other != slot,
    ensures
        final(registers).dr7 == control_register(old(registers).dr7, slot, enable),
        address_register(*final(registers), slot) == if enable {
            address as int % limit(arch)
        } else {
            0
        },
        address_register(*final(registers), other) == address_register(*old(registers), other),
{
}

/// An export's offset, a moved first instruction and a swept export are what their laws
/// say.
pub proof fn lemma_moved_exports(
    arch: Arch,
    map: &MemoryMap,
    base: u64,
    address: u64,
    rva: Option<u32>,
    memory: Option<u64>,
    built: Option<OriginalGateway>,
    export: &ExportInfo,
    trampoline: u64,
    outcome: SweepOutcome,
)
    requires
        call_ensures(direct_rva, (arch, base, address), rva),
        call_ensures(build_original_gateway, (arch, map, address, memory), built),
        call_ensures(probe_export, (arch, map, export, trampoline), outcome),
    ensures
        rva == reachable_rva(arch, base, address),
        built matches Some(ready) ==> memory == Some(ready.write.address) && gateway_code(
            arch,
            map@,
            address,
            ready.write.address,
        ) == Some(ready.write.bytes@),
        built is None && address != 0 && memory is Some ==> gateway_code(
            arch,
            map@,
            address,
            memory->0,
        ) is None,
        outcome@ == outcome_of(arch, map@, export@, trampoline),
{
}

/// Numbers and names are written and compared as their laws say.
pub proof fn lemma_written_texts(
    out: &mut String,
    value: u64,
    other: &mut String,
    module: &str,
    name: String,
    buffer: &[u16],
    text: String,
    a: &str,
    b: &str,
    same: bool,
)
    requires
        call_ensures(push_decimal, (out, value), ()),
        call_ensures(push_hexadecimal, (other, value), ()),
        call_ensures(module_basename_no_ext, (module,), name),
        call_ensures(wide_to_string, (buffer,), text),
        call_ensures(eq_ignore_ascii_case, (a, b), same),
    ensures
        final(out)@ == old(out)@ + decimal(value as nat),
        final(other)@ == old(other)@ + hexadecimal(value as nat),
        name@ == base_name(module@),
        text@ == lossy_text(buffer@.subrange(0, wide_len(buffer@, 0)), 0),
        same == (ascii_lower_text(a@) == ascii_lower_text(b@)),
{
}

/// A symbol is looked up by the name of its module, an exclamation mark and its own name.
pub proof fn lemma_looked_up_symbol(search: &SymbolSearch, step: SymbolStep)
    requires
        call_ensures(SymbolSearch::step, (search,), step),
        search.stage == SymbolStage::Querying,
    ensures
        step matches SymbolStep::LookUp(name) && name@ == base_name(search.module@) + seq!['!']
            + search.symbol@,
{
}

/// The requests for imports are queued as their law says.
pub proof fn lemma_queued_import(
    core: &mut TransactionCore,
    map: &MemoryMap,
    mapped: &[u8],
    module: u64,
    dll: &str,
    function: &str,
    detour: u64,
    named: Result<(), DetourError>,
)
    requires
        call_ensures(
            TransactionCore::attach_iat,
            (core, map, mapped, module, dll, function, detour),
            named,
        ),
    ensures
        import_attached(
            *old(core),
            *final(core),
            map@,
            mapped@,
            module,
            dll@,
            function@,
            detour,
            named,
        ),
{
}

/// So are those of exports.
pub proof fn lemma_queued_export(
    core: &mut TransactionCore,
    mapped: &[u8],
    module: u64,
    function: &str,
    detour: u64,
    result: Result<(), DetourError>,
)
    requires
        call_ensures(
            TransactionCore::attach_eat,
            (core, mapped, module, function, detour),
            result,
        ),
    ensures
        export_attached(*old(core), *final(core), mapped@, module, function@, detour, result),
{
}

/// So are those of tables of functions.
pub proof fn lemma_queued_table(
    core: &mut TransactionCore,
    map: &MemoryMap,
    vtable: u64,
    index: usize,
    detour: u64,
    result: Result<u64, DetourError>,
)
    requires
        call_ensures(TransactionCore::attach_vtable, (core, map, vtable, index, detour), result),
    ensures
        table_attached(*old(core), *final(core), map@, vtable, index, detour, result),
{
}

/// So are those of objects.
pub proof fn lemma_queued_instance(
    core: &mut TransactionCore,
    map: &MemoryMap,
    object: u64,
    index: usize,
    len: usize,
    detour: u64,
    result: Result<u64, DetourError>,
)
    requires
        call_ensures(
            TransactionCore::attach_vtable_instance,
            (core, map, object, index, len, detour),
            result,
        ),
    ensures
        instance_attached(*old(core), *final(core), map@, object, index, len, detour, result),
{
}

/// A thread is held as its law says.
pub proof fn lemma_held_thread(
    core: &mut TransactionCore,
    thread_id: u32,
    calling_thread: u32,
    suspended: Option<u64>,
    result: Result<(), DetourError>,
)
    requires
        call_ensures(
            TransactionCore::update_thread,
            (core, thread_id, calling_thread, suspended),
            result,
        ),
    ensures
        thread_updated(*old(core), *final(core), thread_id, calling_thread, suspended, result),
{
}

/// An abort is as its law says.
pub proof fn lemma_ended_transaction(core: &mut TransactionCore, resume: Vec<u64>)
    requires
        call_ensures(TransactionCore::abort, (core,), resume),
    ensures
        aborted(*old(core), *final(core), resume),
{
}

/// The begin of a commit is as its law says.
pub proof fn lemma_begun_commit(core: &mut TransactionCore, begun: Result<Commit, DetourError>)
    requires
        call_ensures(TransactionCore::commit, (core,), begun),
    ensures
        commit_begun(*old(core), *final(core), begun),
{
}

} // verus!
