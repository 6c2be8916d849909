//! Laws of inline hooks: what is saved of the target, what the trampoline holds, what
//! the target is overwritten with, and where an address in the old code goes on.
use vstd::prelude::*;

use crate::arch::Arch;
use crate::bytes::{
    le4, le8, lemma_u32_round_trip, lemma_u64_round_trip, signed32, u32_at, u64_at,
};
use crate::disasm::{
    covered_from, decoded, encoded_block, instruction_len, instructions_from,
    lemma_covered_bounds, length_of, start_offsets, window, DecodedInstruction, NearJump,
    NearJumpEncoding, MAX_INSTRUCTION_LEN,
};
use crate::inline::{
    displacement, gateway_len, gateway_stub, jump_type_of, lemma_position_of,
    lemma_relative_jump_leads, position_of, redirected, InlineData, JumpType, TargetKind,
};
use crate::laws::memory::{
    lemma_read_gives_captured_bytes, lemma_u32_value, lemma_window_gives_captured_bytes, reports,
};
use crate::memory::{bytes_at, MemoryRegion};
use crate::transaction::{attach_result, queued, stolen_code};

verus! {

/// One past the highest address.
pub open spec fn limit(arch: Arch) -> int {
    if arch == Arch::X86 {
        0x1_0000_0000
    } else {
        0x1_0000_0000_0000_0000
    }
}

/// The number of bits of an address.
pub open spec fn bits(arch: Arch) -> u32 {
    if arch == Arch::X86 {
        32
    } else {
        64
    }
}

/// The bytes that a queued hook saves are those that stand at its target, and so are
/// what a removal writes back: byte `i` is the captured byte at `target + i`, and the
/// bytes are what a read of the target gives.
pub proof fn lemma_hook_saves_the_code_at_its_target(
    arch: Arch,
    regions: Seq<MemoryRegion>,
    gateways: Set<u64>,
    target: u64,
    detour: u64,
    gateway: u64,
    data: InlineData,
    index: int,
)
    requires
        queued(arch, regions, gateways, target, detour, gateway, data),
        reports(regions, index, target as int),
        regions[index].base + regions[index].size < limit(arch),
    ensures
        data.target == target,
        data.detour == detour,
        data.trampoline.ptr == gateway,
        data.stolen_len == data.orig_bytes@.len(),
        forall|i: int|
            0 <= i < data.stolen_len ==> #[trigger] data.orig_bytes@[i]
                == regions[index].bytes@[target + i - regions[index].base],
        bytes_at(arch, regions, target as int, data.stolen_len as int) matches Some(bytes)
            ==> data.orig_bytes@ == bytes,
        !gateways.contains(target) ==> (instruction_len(
            arch,
            regions,
            target,
            match data.jump_type {
                JumpType::Relative5 => 5,
                JumpType::Absolute14 => 14,
            },
        ) matches Ok(len) && data.orig_bytes@ == window(arch, regions, target as int, len)),
{
    let needed = jump_type_of(arch, target, detour).spec_len() as int;
    let len = if gateways.contains(target) {
        gateway_len(arch) as int
    } else {
        instruction_len(arch, regions, target, needed)->Ok_0
    };
    if !gateways.contains(target) {
        let code = window(arch, regions, target as int, needed + MAX_INSTRUCTION_LEN);
        lemma_covered_bounds(instructions_from(arch, code, target, 0), 0, 0, needed);
    }
    assert(data.orig_bytes@ == window(arch, regions, target as int, len));
    lemma_window_gives_captured_bytes(arch, regions, index, target as int, len);
    if bytes_at(arch, regions, target as int, data.stolen_len as int) is Some {
        lemma_read_gives_captured_bytes(
            arch,
            regions,
            index,
            target as int,
            data.stolen_len as int,
        );
        assert(data.orig_bytes@ =~= bytes_at(
            arch,
            regions,
            target as int,
            data.stolen_len as int,
        )->0);
    }
}

/// The trampoline of a hooked function runs the saved code and goes on behind it: it
/// holds a stub that leads to the code right behind the stub, and there what the
/// encoder makes of the saved bytes, as they stood at the target, followed by one jump
/// to the target's code behind them.
pub proof fn lemma_trampoline_runs_the_saved_code(
    arch: Arch,
    regions: Seq<MemoryRegion>,
    gateways: Set<u64>,
    target: u64,
    detour: u64,
    trampoline: Option<u64>,
    gateway: u64,
    bytes: Seq<u8>,
    data: InlineData,
)
    requires
        attach_result(arch, regions, gateways, true, target, detour, trampoline) == Ok::<
            (u64, Seq<u8>),
            crate::DetourError,
        >((gateway, bytes)),
        queued(arch, regions, gateways, target, detour, gateway, data),
        !gateways.contains(target),
        gateway + 128 <= limit(arch),
    ensures
        trampoline == Some(gateway),
        ({
            let stub: int = if arch == Arch::X86 {
                5
            } else {
                14
            };
            &&& if arch == Arch::X86 {
                bytes[0] == 0xE9 && u32_at(bytes, 1) == 0
            } else {
                bytes[0] == 0xFF && bytes[1] == 0x25 && u32_at(bytes, 2) == 0 && u64_at(bytes, 6)
                    == gateway + 14
            }
            &&& bytes.len() <= 128
            &&& encoded_block(
                if arch == Arch::X86 {
                    32
                } else {
                    64
                },
                data.orig_bytes@,
                target,
                seq![
                    NearJump {
                        encoding: if arch == Arch::X86 {
                            NearJumpEncoding::Rel32In32
                        } else {
                            NearJumpEncoding::Rel32In64
                        },
                        target: (target + data.orig_bytes@.len()) as u64,
                    },
                ],
                (gateway + stub) as u64,
            ) matches Ok((code, offsets)) && {
                &&& bytes.len() == stub + code.len()
                &&& bytes.subrange(stub, bytes.len() as int) == code
                &&& data.redirect_base == gateway + stub
                &&& data.redirect_map matches Some(map) && {
                    &&& map.new_instruction_offsets@.len() <= offsets.len()
                    &&& map.new_instruction_offsets@ == offsets.subrange(
                        0,
                        map.new_instruction_offsets@.len() as int,
                    )
                }
            }
        }),
{
    let len = gateway_len(arch) as int;
    let body = arch.displaced(gateway, len);
    let stub = gateway_stub(arch, gateway, body);
    assert(body == gateway + len);
    let (moved, _, _) = crate::transaction::moved_code(arch, data.orig_bytes@, target, gateway)->0;
    assert(bytes == stub + moved);
    assert(bytes.subrange(len, bytes.len() as int) =~= moved);
    match arch {
        Arch::X86 => {
            assert(displacement(gateway, body) == 0);
            assert(bytes.subrange(1, 5) =~= le4(0));
            lemma_u32_round_trip(bytes, 1, 0);
        },
        Arch::X64 => {
            assert(bytes.subrange(6, 14) =~= le8(body));
            lemma_u64_round_trip(bytes, 6, body);
            lemma_u32_value(bytes, 2);
        },
    }
}

/// A target is hooked wherever its code can be moved and fits into the trampoline with the
/// stub, and is refused where it does not fit.
pub proof fn lemma_hook_is_queued_where_its_code_fits(
    arch: Arch,
    regions: Seq<MemoryRegion>,
    gateways: Set<u64>,
    target: u64,
    detour: u64,
    gateway: u64,
    saved: Seq<u8>,
    code: Seq<u8>,
    offsets: Seq<u32>,
)
    requires
        target != 0,
        detour != 0,
        !gateways.contains(target),
        stolen_code(arch, regions, gateways, target, detour) == Some(saved),
        gateway + 128 <= limit(arch),
        encoded_block(
            if arch == Arch::X86 {
                32
            } else {
                64
            },
            saved,
            target,
            seq![
                NearJump {
                    encoding: if arch == Arch::X86 {
                        NearJumpEncoding::Rel32In32
                    } else {
                        NearJumpEncoding::Rel32In64
                    },
                    target: (target + saved.len()) as u64,
                },
            ],
            (gateway + if arch == Arch::X86 {
                5int
            } else {
                14
            }) as u64,
        ) == Ok::<(Seq<u8>, Seq<u32>), Seq<char>>((code, offsets)),
        saved.len() <= u32::MAX,
        ({
            let list = instructions_from(arch, saved, target, 0);
            &&& list.len() <= offsets.len()
            &&& forall|i: int| 0 <= i < list.len() ==> !(#[trigger] list[i]).invalid
            &&& forall|i: int| 0 <= i < list.len() ==> length_of(list, i) <= u32::MAX
            &&& forall|i: int| 0 <= i < list.len() ==> #[trigger] offsets[i] < code.len()
                && offsets[i] != u32::MAX
        }),
    ensures
        ({
            let stub: int = if arch == Arch::X86 {
                5
            } else {
                14
            };
            let result = attach_result(
                arch,
                regions,
                gateways,
                true,
                target,
                detour,
                Some(gateway),
            );
            if stub + code.len() <= 128 {
                result matches Ok((at, bytes)) && at == gateway && bytes.len() == stub + code.len()
            } else {
                result == Err::<(u64, Seq<u8>), crate::DetourError>(
                    crate::DetourError::RelocationFailed,
                )
            }
        }),
{
    let list = instructions_from(arch, saved, target, 0);
    let kept = offsets.subrange(0, list.len() as int);
    lemma_nothing_is_refused(list, 0);
    assert(arch.displaced(gateway, gateway_len(arch) as int) == gateway + gateway_len(arch));
    assert forall|i: int| 0 <= i < kept.len() implies #[trigger] kept[i] < code.len() && kept[i]
        != u32::MAX by {
        assert(kept[i] == offsets[i]);
    }
    assert(!kept.contains(u32::MAX));
    assert(crate::transaction::moved_code(arch, saved, target, gateway) is Some);
}

/// Valid code is not refused.
proof fn lemma_nothing_is_refused(list: Seq<DecodedInstruction>, at: int)
    requires
        0 <= at <= list.len(),
        forall|i: int| 0 <= i < list.len() ==> !(#[trigger] list[i]).invalid,
        forall|i: int| 0 <= i < list.len() ==> length_of(list, i) <= u32::MAX,
    ensures
        crate::disasm::relocation_refusal(list, at) is None,
    decreases list.len() - at,
{
    if at < list.len() {
        lemma_nothing_is_refused(list, at + 1);
    }
}

/// A hooked target leads to the detour and to nothing else: its first bytes are a jump
/// there, and the rest of the saved bytes is filled with instructions that do nothing.
pub proof fn lemma_patch_jumps_to_the_detour(arch: Arch, data: InlineData)
    requires
        data.wf(arch),
        data.target < limit(arch),
        data.detour < limit(arch),
    ensures
        data.patch().len() == data.stolen_len,
        match data.jump_type {
            JumpType::Relative5 => {
                &&& data.patch()[0] == 0xE9
                &&& (data.target + 5 + signed32(u32_at(data.patch(), 1))) % limit(arch)
                    == data.detour
                &&& forall|i: int| 5 <= i < data.stolen_len ==> #[trigger] data.patch()[i] == 0x90
            },
            JumpType::Absolute14 => {
                &&& arch == Arch::X64
                &&& data.patch()[0] == 0xFF && data.patch()[1] == 0x25 && u32_at(data.patch(), 2)
                    == 0
                &&& u64_at(data.patch(), 6) == data.detour
                &&& forall|i: int| 14 <= i < data.stolen_len ==> #[trigger] data.patch()[i] == 0x90
            },
        },
{
    let patch = data.patch();
    match data.jump_type {
        JumpType::Relative5 => {
            assert(patch.subrange(1, 5) =~= le4(displacement(data.target, data.detour)));
            lemma_u32_round_trip(patch, 1, displacement(data.target, data.detour));
            lemma_relative_jump_leads(arch, data.target, data.detour);
        },
        JumpType::Absolute14 => {
            assert(patch.subrange(6, 14) =~= le8(data.detour));
            lemma_u64_round_trip(patch, 6, data.detour);
            lemma_u32_value(patch, 2);
        },
    }
}

/// The short jump is taken exactly where a 32-bit displacement leads to the detour.
pub proof fn lemma_short_jump_where_it_reaches(arch: Arch, target: u64, detour: u64, rel: int)
    requires
        target < limit(arch),
        detour < limit(arch),
    ensures
        -0x8000_0000 <= rel < 0x8000_0000 && (target + 5 + rel) % limit(arch) == detour
            ==> jump_type_of(arch, target, detour) == JumpType::Relative5,
        jump_type_of(arch, target, detour) == JumpType::Relative5 ==> {
            let reached = signed32(displacement(target, detour));
            &&& -0x8000_0000 <= reached < 0x8000_0000
            &&& (target + 5 + reached) % limit(arch) == detour
        },
{
    if jump_type_of(arch, target, detour) == JumpType::Relative5 {
        lemma_relative_jump_leads(arch, target, detour);
    }
}

/// Where an address in the saved code goes on: the start of instruction `i` at the
/// start of its relocated form, and an address that starts no instruction nowhere. In a
/// gateway stub every address goes on at the same offset.
pub proof fn lemma_redirect_keeps_the_instruction(
    arch: Arch,
    data: InlineData,
    address: u64,
    i: int,
)
    requires
        data.wf(arch),
    ensures
        address < data.target || address >= data.target + data.stolen_len ==> redirected(
            arch,
            data,
            address,
        ) is None,
        data.target <= address < data.target + data.stolen_len ==> match data.target_kind {
            TargetKind::ManagedGateway => redirected(arch, data, address) == Some(
                ((data.redirect_base + address - data.target) % limit(arch)) as u64,
            ),
            TargetKind::Normal => {
                let map = data.redirect_map->0;
                let old = map.old_instruction_offsets@;
                &&& 0 <= i < old.len() && address == data.target + old[i] && (forall|j: int|
                    0 <= j < i ==> old[j] != old[i]) ==> redirected(arch, data, address) == Some(
                    ((data.redirect_base + map.new_instruction_offsets@[i]) % limit(arch)) as u64,
                )
                &&& (forall|j: int|
                    0 <= j < old.len() ==> data.target + #[trigger] old[j] != address)
                    ==> redirected(arch, data, address) is None
            },
        },
{
    if data.target <= address < data.target + data.stolen_len && data.target_kind
        == TargetKind::Normal {
        let old = data.redirect_map->0.old_instruction_offsets@;
        lemma_position_of(old, (address - data.target) as u32, 0);
        match position_of(old, (address - data.target) as u32, 0) {
            Some(found) => {
                assert(data.target + old[found] == address);
                if 0 <= i < old.len() && address == data.target + old[i] && (forall|j: int|
                    0 <= j < i ==> old[j] != old[i]) {
                    lemma_first_position(old, (address - data.target) as u32, 0, i);
                }
            },
            None => {},
        }
    }
}

/// A search for a value finds its first position.
proof fn lemma_first_position(list: Seq<u32>, value: u32, at: int, first: int)
    requires
        0 <= at <= first < list.len(),
        list[first] == value,
        forall|j: int| at <= j < first ==> list[j] != value,
    ensures
        position_of(list, value, at) == Some(first),
    decreases first - at,
{
    if at < first {
        lemma_first_position(list, value, at + 1, first);
    }
}

/// The code is decoded one instruction after the other: instruction `i` is what the
/// decoder gives for the bytes behind those before it, at its own address; only the last
/// can be invalid, and where it is not, the bytes are used up.
pub proof fn lemma_instructions_follow_each_other(
    arch: Arch,
    code: Seq<u8>,
    ip: u64,
    at: int,
    i: int,
)
    requires
        0 <= at <= code.len(),
        0 <= i < instructions_from(arch, code, ip, at).len(),
        code.len() <= u64::MAX,
    ensures
        ({
            let list = instructions_from(arch, code, ip, at);
            let start = at + length_of(list, i);
            &&& at <= start < code.len()
            &&& list[i] == decoded(
                if arch == Arch::X86 {
                    32
                } else {
                    64
                },
                code.subrange(start, code.len() as int),
                ((ip + start) % 0x1_0000_0000_0000_0000) as u64,
            )
            &&& i < list.len() - 1 ==> !list[i].invalid && list[i].len > 0
            &&& i == list.len() - 1 && !list[i].invalid && list[i].len > 0 ==> start + list[i].len
                >= code.len()
        }),
    decreases i,
{
    let list = instructions_from(arch, code, ip, at);
    let first = list[0];
    let rest = instructions_from(arch, code, ip, at + first.len);
    if i > 0 {
        assert(list =~= seq![first] + rest);
        assert(rest.len() > 0);
        lemma_instructions_follow_each_other(arch, code, ip, at + first.len, i - 1);
        lemma_length_shift(list, rest, i);
    } else if !first.invalid && first.len > 0 {
        assert(list =~= seq![first] + rest);
        if list.len() > 1 {
            assert(rest.len() > 0);
        } else {
            assert(rest.len() == 0);
        }
    }
}

/// The bytes before an instruction are those of the first one and of the others.
proof fn lemma_length_shift(
    list: Seq<DecodedInstruction>,
    rest: Seq<DecodedInstruction>,
    count: int,
)
    requires
        1 <= count <= list.len(),
        list == seq![list[0]] + rest,
    ensures
        length_of(list, count) == list[0].len + length_of(rest, count - 1),
    decreases count,
{
    if count > 1 {
        lemma_length_shift(list, rest, count - 1);
        assert(list[count - 1] == rest[count - 2]);
    } else {
        assert(length_of(list, 0) == 0);
    }
}

/// Measuring stops at the first whole instruction with which enough bytes are covered:
/// where the first `count` instructions are valid and reach `min_size`, but one less
/// does not, their length is the result.
pub proof fn lemma_measured_length(
    list: Seq<DecodedInstruction>,
    at: int,
    count: int,
    min_size: int,
)
    requires
        0 <= at < count <= list.len(),
        length_of(list, count - 1) < min_size <= length_of(list, count),
        forall|i: int| at <= i < count ==> !(#[trigger] list[i]).invalid,
    ensures
        covered_from(list, at, length_of(list, at), min_size) == Ok::<
            int,
            crate::disasm::DisasmError,
        >(length_of(list, count)),
    decreases count - at,
{
    lemma_length_grows(list, at, count - 1);
    lemma_length_grows(list, at + 1, count);
    assert(length_of(list, at + 1) == length_of(list, at) + list[at].len);
    if at + 1 < count {
        lemma_length_grows(list, at + 1, count - 1);
        lemma_measured_length(list, at + 1, count, min_size);
    }
}

/// More instructions take no fewer bytes.
proof fn lemma_length_grows(list: Seq<DecodedInstruction>, i: int, j: int)
    requires
        0 <= i <= j <= list.len(),
    ensures
        length_of(list, i) <= length_of(list, j),
    decreases j - i,
{
    if i < j {
        lemma_length_grows(list, i, j - 1);
    }
}

/// The offset of an instruction is where the one before it ends; the first starts at 0.
pub proof fn lemma_offsets_add_up(list: Seq<DecodedInstruction>, i: int)
    requires
        0 <= i < list.len(),
        length_of(list, i) + list[i].len <= u32::MAX,
        length_of(list, i) >= 0,
    ensures
        start_offsets(list).len() == list.len(),
        start_offsets(list)[0] == 0,
        i + 1 < list.len() ==> start_offsets(list)[i + 1] == start_offsets(list)[i] + list[i].len,
{
}

} // verus!
