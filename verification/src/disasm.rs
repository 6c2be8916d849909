//! Measuring and relocating machine instructions.
use vstd::prelude::*;

use iced_x86::{
    BlockEncoder, BlockEncoderOptions, Code, Decoder, DecoderOptions, Instruction,
    InstructionBlock, OpKind,
};

use crate::arch::Arch;
use crate::bytes::copy_range;
use crate::memory::{lemma_find_region, region_at, MemoryMap, MemoryRegion, MEM_COMMIT, PAGE_READABLE};

verus! {

/// The longest instruction, in bytes.
pub const MAX_INSTRUCTION_LEN: usize = 15;

/// What kind of operand an instruction's first operand is.
#[derive(Clone, Copy, Debug, PartialEq, Eq, Structural)]
pub enum FirstOperand {
    NearBranch16,
    NearBranch32,
    NearBranch64,
    Other,
}

/// What the engine reads of one decoded instruction.
#[derive(Clone, Copy, Debug, PartialEq, Eq, Structural)]
pub struct DecodedInstruction {
    pub len: usize,
    pub invalid: bool,
    pub first_operand: FirstOperand,
    pub near_branch_target: u64,
    pub ip_relative: bool,
    pub memory_displacement: u64,
}

/// What `iced_x86::Decoder` decodes from the start of `code` at address `ip`.
pub uninterp spec fn decoded(bitness: u32, code: Seq<u8>, ip: u64) -> DecodedInstruction;

/// Decodes the first instruction of `code` with `iced_x86::Decoder::decode`.
///
/// Claimed of the decoder: its result depends on the bitness, the bytes and the
/// address alone; an instruction is at most fifteen bytes long and no longer
/// than `code`; at least one byte is consumed where there is one; without any
/// byte the result is invalid.
#[verifier::external_body]
fn decode_first(bitness: u32, code: &[u8], ip: u64) -> (instruction: DecodedInstruction)
    requires
        bitness == 32 || bitness == 64,
    ensures
        instruction == decoded(bitness, code@, ip),
        instruction.len <= MAX_INSTRUCTION_LEN,
        instruction.len <= code@.len(),
        code@.len() > 0 ==> instruction.len >= 1,
        code@.len() == 0 ==> instruction.invalid,
{
    let decoded = Decoder::with_ip(bitness, code, ip, DecoderOptions::NONE).decode();
    DecodedInstruction {
        len: decoded.len(),
        invalid: decoded.is_invalid(),
        first_operand: match decoded.op0_kind() {
            OpKind::NearBranch16 => FirstOperand::NearBranch16,
            OpKind::NearBranch32 => FirstOperand::NearBranch32,
            OpKind::NearBranch64 => FirstOperand::NearBranch64,
            _ => FirstOperand::Other,
        },
        near_branch_target: decoded.near_branch_target(),
        ip_relative: decoded.is_ip_rel_memory_operand(),
        memory_displacement: decoded.memory_displacement64(),
    }
}

/// A block of instructions encoded for a new address: the code, and for each
/// instruction its offset in it (`u32::MAX` where it has none).
#[derive(Debug)]
pub struct EncodedBlock {
    pub code: Vec<u8>,
    pub offsets: Vec<u32>,
}

/// How a near jump is encoded: with a 32-bit displacement, in 32-bit or in 64-bit
/// code.
#[derive(Clone, Copy, Debug, PartialEq, Eq, Structural)]
pub enum NearJumpEncoding {
    Rel32In32,
    Rel32In64,
}

/// A near jump that is encoded behind other instructions.
#[derive(Clone, Copy, Debug, PartialEq, Eq, Structural)]
pub struct NearJump {
    pub encoding: NearJumpEncoding,
    pub target: u64,
}

/// What `iced_x86::BlockEncoder` makes of the instructions that `code` holds at
/// `ip`, followed by the near jumps `tail`, when they are moved to `rip`: the code
/// with the offsets of the instructions, or the error's text.
pub uninterp spec fn encoded_block(
    bitness: u32,
    code: Seq<u8>,
    ip: u64,
    tail: Seq<NearJump>,
    rip: u64,
) -> Result<(Seq<u8>, Seq<u32>), Seq<char>>;

/// Whether each instruction that has an offset starts within the code.
pub open spec fn starts_within(code: Seq<u8>, offsets: Seq<u32>) -> bool {
    forall|i: int|
        0 <= i < offsets.len() && offsets[i] != u32::MAX ==> #[trigger] offsets[i] < code.len()
}

/// Re-encodes a block for the address `rip` with `iced_x86::BlockEncoder::encode`:
/// the instructions that `iced_x86::Decoder` decodes from `code` at `ip`, and the
/// jumps of `tail`, each made by `iced_x86::Instruction::with_branch`.
///
/// Claimed of the encoder: its result depends on these arguments alone; where an
/// instruction is given an offset, the bytes that were written for it stand there, so
/// that the offset lies within the code. An error of `with_branch` would be handed out
/// like one of the encoder; it reports a code that is no branch, which neither jump
/// encoding is.
#[verifier::external_body]
fn encode_block(bitness: u32, code: &[u8], ip: u64, tail: &[NearJump], rip: u64) -> (block: Result<
    EncodedBlock,
    String,
>)
    requires
        bitness == 32 || bitness == 64,
    ensures
        match block {
            Ok(encoded) => {
                &&& encoded_block(bitness, code@, ip, tail@, rip) == Ok::<
                    (Seq<u8>, Seq<u32>),
                    Seq<char>,
                >((encoded.code@, encoded.offsets@))
                &&& starts_within(encoded.code@, encoded.offsets@)
            },
            Err(text) => encoded_block(bitness, code@, ip, tail@, rip) == Err::<
                (Seq<u8>, Seq<u32>),
                Seq<char>,
            >(text@),
        },
{
    let mut decoder = Decoder::with_ip(bitness, code, ip, DecoderOptions::NONE);
    let mut instructions: Vec<Instruction> = decoder.iter().collect();
    for jump in tail {
        let branch = match jump.encoding {
            NearJumpEncoding::Rel32In32 => Code::Jmp_rel32_32,
            NearJumpEncoding::Rel32In64 => Code::Jmp_rel32_64,
        };
        instructions.push(Instruction::with_branch(branch, jump.target).map_err(|e| e.to_string())?);
    }
    let block = InstructionBlock::new(&instructions, rip);
    BlockEncoder::encode(bitness, block, BlockEncoderOptions::RETURN_NEW_INSTRUCTION_OFFSETS)
        .map(|r| EncodedBlock { code: r.code_buffer, offsets: r.new_instruction_offsets })
        .map_err(|e| e.to_string())
}

/// Why instructions could not be measured or relocated.
#[derive(Debug)]
pub enum DisasmError {
    /// The address is not in readable committed memory.
    Unreadable,
    /// The readable memory ends before the requested size.
    TooFewBytes,
    /// A measured byte sequence is not an instruction.
    InvalidInstruction,
    /// The decoded instructions end before the requested size.
    NotCovered,
    /// A relocated byte sequence is not an instruction.
    InvalidRelocation,
    /// An instruction's offset does not fit in 32 bits.
    OffsetOverflow,
    /// The encoder refused the block.
    Encoder(String),
    /// The encoder reported fewer offsets than there are instructions.
    IncompleteOffsets,
    /// An instruction has no encoding at its new address.
    NotEncodable,
}

impl DisasmError {
    /// The text of the error.
    pub open spec fn text(self) -> Seq<char> {
        match self {
            DisasmError::Unreadable => "Target address is not in readable committed memory"@,
            DisasmError::TooFewBytes =>
                "Not enough readable bytes at target to cover the required patch size"@,
            DisasmError::InvalidInstruction =>
                "Invalid instruction encountered while calculating instruction length"@,
            DisasmError::NotCovered =>
                "Error calculating instruction length: not enough instructions to cover min_size"@,
            DisasmError::InvalidRelocation => "Invalid instruction encountered while relocating"@,
            DisasmError::OffsetOverflow =>
                "Internal relocation error: instruction offset overflow"@,
            DisasmError::Encoder(reason) => "Relocation failed: "@ + reason@,
            DisasmError::IncompleteOffsets =>
                "Relocation failed: encoder returned incomplete instruction offsets"@,
            DisasmError::NotEncodable =>
                "Relocation failed: an instruction could not be re-encoded (short-only branch out of range)"@,
        }
    }

    /// Returns the text of the error.
    pub fn message(&self) -> (text: String)
        ensures
            text@ == self.text(),
    {
        match self {
            DisasmError::Unreadable =>
                "Target address is not in readable committed memory".to_owned(),
            DisasmError::TooFewBytes =>
                "Not enough readable bytes at target to cover the required patch size".to_owned(),
            DisasmError::InvalidInstruction =>
                "Invalid instruction encountered while calculating instruction length".to_owned(),
            DisasmError::NotCovered =>
                "Error calculating instruction length: not enough instructions to cover min_size".to_owned(),
            DisasmError::InvalidRelocation =>
                "Invalid instruction encountered while relocating".to_owned(),
            DisasmError::OffsetOverflow =>
                "Internal relocation error: instruction offset overflow".to_owned(),
            DisasmError::Encoder(reason) => {
                let mut text: String = "Relocation failed: ".to_owned();
                text.append(reason.as_str());
                text
            },
            DisasmError::IncompleteOffsets =>
                "Relocation failed: encoder returned incomplete instruction offsets".to_owned(),
            DisasmError::NotEncodable =>
                "Relocation failed: an instruction could not be re-encoded (short-only branch out of range)".to_owned(),
        }
    }
}

/// The instructions of `code` from offset `at` on: one after the other up to the
/// end of the bytes, or up to and with the first invalid one.
pub open spec fn instructions_from(arch: Arch, code: Seq<u8>, ip: u64, at: int) -> Seq<
    DecodedInstruction,
>
    decreases
            if at < code.len() {
                code.len() - at
            } else {
                0
            },
{
    if at < 0 || at >= code.len() {
        Seq::empty()
    } else {
        let first = decoded(
            arch.spec_bitness(),
            code.subrange(at, code.len() as int),
            ip.wrapping_add(at as u64),
        );
        if first.invalid || first.len == 0 {
            seq![first]
        } else {
            seq![first] + instructions_from(arch, code, ip, at + first.len)
        }
    }
}

/// The bytes that the first `count` instructions of `list` take.
pub open spec fn length_of(list: Seq<DecodedInstruction>, count: int) -> int
    decreases count,
{
    if count <= 0 {
        0
    } else {
        length_of(list, count - 1) + list[count - 1].len
    }
}

/// Whether `list` is what a decoder gives for `size` bytes: no instruction but
/// the last one is invalid, each one takes at least one byte and not too many,
/// and together they take no more than `size`.
pub open spec fn decodes(list: Seq<DecodedInstruction>, size: int) -> bool {
    &&& forall|i: int| 0 <= i < list.len() ==> 1 <= (#[trigger] list[i]).len <= MAX_INSTRUCTION_LEN
    &&& forall|i: int| 0 <= i < list.len() - 1 ==> !(#[trigger] list[i]).invalid
    &&& length_of(list, list.len() as int) <= size
}

/// The lengths of more instructions are no smaller than those of fewer.
proof fn lemma_length_monotonic(list: Seq<DecodedInstruction>, i: int, j: int)
    requires
        0 <= i <= j <= list.len(),
    ensures
        0 <= length_of(list, i) <= length_of(list, j),
    decreases j,
{
    if i < j {
        lemma_length_monotonic(list, i, j - 1);
    } else if 0 < j {
        lemma_length_monotonic(list, i - 1, j - 1);
    }
}

/// The lengths depend on the counted instructions only.
proof fn lemma_length_prefix(a: Seq<DecodedInstruction>, b: Seq<DecodedInstruction>, count: int)
    requires
        count <= a.len(),
        count <= b.len(),
        forall|i: int| 0 <= i < count ==> a[i] == b[i],
    ensures
        length_of(a, count) == length_of(b, count),
    decreases count,
{
    if count > 0 {
        lemma_length_prefix(a, b, count - 1);
    }
}

/// Decodes the instructions of `code`, which stands at address `ip`, up to the
/// end or the first invalid one.
pub fn decode_all(arch: Arch, code: &[u8], ip: u64) -> (list: Vec<DecodedInstruction>)
    ensures
        list@ == instructions_from(arch, code@, ip, 0),
        decodes(list@, code@.len() as int),
        code@.len() > 0 ==> list@.len() > 0,
        list@.len() > 0 && !list@.last().invalid ==> length_of(list@, list@.len() as int)
            == code@.len(),
        code@.len() <= usize::MAX,
{
    let mut list: Vec<DecodedInstruction> = Vec::new();
    let mut at: usize = 0;
    assert(list@ + instructions_from(arch, code@, ip, 0) =~= instructions_from(arch, code@, ip, 0));
    while at < code.len()
        invariant
            at <= code@.len(),
            list@ + instructions_from(arch, code@, ip, at as int) == instructions_from(
                arch,
                code@,
                ip,
                0,
            ),
            forall|i: int|
                0 <= i < list@.len() ==> 1 <= (#[trigger] list@[i]).len <= MAX_INSTRUCTION_LEN,
            forall|i: int| 0 <= i < list@.len() ==> !(#[trigger] list@[i]).invalid,
            length_of(list@, list@.len() as int) == at,
            at > 0 ==> list@.len() > 0,
        decreases code@.len() - at,
    {
        let rest = vstd::slice::slice_subrange(code, at, code.len());
        let first = decode_first(arch.bitness(), rest, ip.wrapping_add(at as u64));
        let ghost before = list@;
        list.push(first);
        proof {
            lemma_length_prefix(before, list@, before.len() as int);
            assert(length_of(list@, list@.len() as int) == length_of(list@, before.len() as int)
                + first.len);
        }
        if first.invalid {
            assert(list@ =~= before + instructions_from(arch, code@, ip, at as int));
            return list;
        }
        assert(instructions_from(arch, code@, ip, at as int) =~= seq![first] + instructions_from(
            arch,
            code@,
            ip,
            at + first.len,
        ));
        assert(before + (seq![first] + instructions_from(arch, code@, ip, at + first.len))
            =~= list@ + instructions_from(arch, code@, ip, at + first.len));
        at = at + first.len;
    }
    assert(list@ + instructions_from(arch, code@, ip, at as int) =~= list@);
    list
}

/// How many bytes the whole instructions take that cover the first `min_size`
/// bytes, counting on from `total` bytes at the instruction `at`.
pub open spec fn covered_from(
    list: Seq<DecodedInstruction>,
    at: int,
    total: int,
    min_size: int,
) -> Result<int, DisasmError>
    decreases list.len() - at,
{
    if at < 0 || at >= list.len() || total >= min_size {
        Err(DisasmError::NotCovered)
    } else if list[at].invalid {
        Err(DisasmError::InvalidInstruction)
    } else if total + list[at].len >= min_size {
        Ok(total + list[at].len)
    } else {
        covered_from(list, at + 1, total + list[at].len, min_size)
    }
}

/// Returns how many bytes the whole instructions take that cover the first
/// `min_size` bytes.
pub fn covered_length(list: &[DecodedInstruction], min_size: usize) -> (covered: Result<
    usize,
    DisasmError,
>)
    requires
        length_of(list@, list@.len() as int) <= usize::MAX,
    ensures
        match covered {
            Ok(len) => covered_from(list@, 0, 0, min_size as int) == Ok::<int, DisasmError>(
                len as int,
            ),
            Err(error) => covered_from(list@, 0, 0, min_size as int) == Err::<int, DisasmError>(
                error,
            ),
        },
{
    let mut at: usize = 0;
    let mut total: usize = 0;
    while at < list.len() && total < min_size
        invariant
            at <= list@.len(),
            total == length_of(list@, at as int),
            covered_from(list@, at as int, total as int, min_size as int) == covered_from(
                list@,
                0,
                0,
                min_size as int,
            ),
            length_of(list@, list@.len() as int) <= usize::MAX,
        decreases list@.len() - at,
    {
        if list[at].invalid {
            return Err(DisasmError::InvalidInstruction);
        }
        proof {
            lemma_length_monotonic(list@, at + 1, list@.len() as int);
        }
        total = total + list[at].len;
        if total >= min_size {
            return Ok(total);
        }
        at = at + 1;
    }
    Err(DisasmError::NotCovered)
}

/// A measured length reaches the requested size, is less than one instruction
/// longer, and ends where an instruction ends.
pub proof fn lemma_covered_bounds(
    list: Seq<DecodedInstruction>,
    at: int,
    total: int,
    min_size: int,
)
    requires
        0 <= at <= list.len(),
        total == length_of(list, at),
    ensures
        covered_from(list, at, total, min_size) matches Ok(len) ==> {
            &&& min_size <= len
            &&& exists|count: int|
                at < count <= list.len() && len == #[trigger] length_of(list, count)
                    && length_of(list, count - 1) < min_size
        },
    decreases list.len() - at,
{
    if at < list.len() && total < min_size && !list[at].invalid {
        assert(length_of(list, at + 1) == total + list[at].len);
        if total + list[at].len < min_size {
            lemma_covered_bounds(list, at + 1, total + list[at].len, min_size);
        }
    }
}

/// How many bytes can be read from `address` to the end of its region.
pub open spec fn readable_from(arch: Arch, regions: Seq<MemoryRegion>, address: int) -> int {
    match region_at(regions, address) {
        Some(region) => if region.state == MEM_COMMIT && region.protect & PAGE_READABLE != 0 {
            let end = if region.base + region.size < arch.address_limit() {
                region.base + region.size
            } else {
                arch.address_limit() - 1
            };
            if end > address {
                end - address
            } else {
                0
            }
        } else {
            0
        },
        None => 0,
    }
}

/// Returns how many bytes are readable from `address`, bounded by the committed
/// region that contains it; 0 where there is none or it is not readable.
pub fn readable_bytes_from(arch: Arch, map: &MemoryMap, address: u64) -> (count: u64)
    ensures
        count == readable_from(arch, map@, address as int),
{
    match map.query(address) {
        Some(index) => {
            let region = &map.regions[index];
            if region.state != MEM_COMMIT || region.protect & PAGE_READABLE == 0 {
                return 0;
            }
            let end: u64 = match arch.checked_offset(region.base, region.size) {
                Some(end) => end,
                None => arch.max_address(),
            };
            end.saturating_sub(address)
        },
        None => 0,
    }
}

/// The captured bytes at `address`, at most `limit` of them and none past the
/// readable memory.
pub open spec fn window(arch: Arch, regions: Seq<MemoryRegion>, address: int, limit: int) -> Seq<
    u8,
> {
    match region_at(regions, address) {
        Some(region) => {
            let from = address - region.base;
            let readable = readable_from(arch, regions, address);
            let wanted = if limit < readable {
                limit
            } else {
                readable
            };
            if from >= region.bytes@.len() {
                Seq::empty()
            } else if from + wanted <= region.bytes@.len() {
                region.bytes@.subrange(from, from + wanted)
            } else {
                region.bytes@.subrange(from, region.bytes@.len() as int)
            }
        },
        None => Seq::empty(),
    }
}

/// Copies the captured bytes at `address`, at most `limit` of them and none past
/// the readable memory.
pub fn read_window(arch: Arch, map: &MemoryMap, address: u64, limit: u64) -> (bytes: Vec<u8>)
    ensures
        bytes@ == window(arch, map@, address as int, limit as int),
{
    match map.query(address) {
        Some(index) => {
            let region = &map.regions[index];
            let from: u64 = address - region.base;
            let readable: u64 = readable_bytes_from(arch, map, address);
            let wanted: u64 = if limit < readable {
                limit
            } else {
                readable
            };
            let available: u64 = region.bytes.len() as u64;
            if from >= available {
                return Vec::new();
            }
            if wanted <= available - from {
                copy_range(&region.bytes, from as usize, (from + wanted) as usize)
            } else {
                copy_range(&region.bytes, from as usize, region.bytes.len())
            }
        },
        None => Vec::new(),
    }
}

/// How many bytes the whole instructions at `address` take that cover the first
/// `min_size` bytes.
pub open spec fn instruction_len(
    arch: Arch,
    regions: Seq<MemoryRegion>,
    address: u64,
    min_size: int,
) -> Result<int, DisasmError> {
    let readable = readable_from(arch, regions, address as int);
    if readable == 0 {
        Err(DisasmError::Unreadable)
    } else if readable < min_size {
        Err(DisasmError::TooFewBytes)
    } else {
        let code = window(arch, regions, address as int, min_size + MAX_INSTRUCTION_LEN);
        covered_from(instructions_from(arch, code, address, 0), 0, 0, min_size)
    }
}

/// A relocated instruction sequence.
#[derive(Debug)]
pub struct RelocationMapping {
    pub written_len: usize,
    pub old_instruction_offsets: Vec<u32>,
    pub new_instruction_offsets: Vec<u32>,
    pub code: Vec<u8>,
}

/// The offsets at which the instructions of `list` start.
pub open spec fn start_offsets(list: Seq<DecodedInstruction>) -> Seq<u32> {
    Seq::new(list.len(), |i: int| length_of(list, i) as u32)
}

/// The error for which the decoded instructions cannot be relocated, if any: the
/// first one that is invalid or starts past 32 bits decides.
pub open spec fn relocation_refusal(list: Seq<DecodedInstruction>, at: int) -> Option<DisasmError>
    decreases list.len() - at,
{
    if at < 0 || at >= list.len() {
        None
    } else if list[at].invalid {
        Some(DisasmError::InvalidRelocation)
    } else if length_of(list, at) > u32::MAX {
        Some(DisasmError::OffsetOverflow)
    } else {
        relocation_refusal(list, at + 1)
    }
}

/// The encoding of a near jump in the code of an architecture.
pub open spec fn near_jump_encoding(arch: Arch) -> NearJumpEncoding {
    match arch {
        Arch::X86 => NearJumpEncoding::Rel32In32,
        Arch::X64 => NearJumpEncoding::Rel32In64,
    }
}

/// The jump that ends the relocated form of `len` bytes at `target`: it leads to
/// the code behind them.
pub open spec fn jump_back(arch: Arch, target: u64, len: int) -> NearJump {
    NearJump { encoding: near_jump_encoding(arch), target: (target + len) as u64 }
}

/// What the encoder makes of the instructions of `code` at `target`, with the jump
/// back to the code behind them, when they are moved to `trampoline`.
pub open spec fn encoded_relocation(arch: Arch, code: Seq<u8>, target: u64, trampoline: u64) -> Result<
    (Seq<u8>, Seq<u32>),
    Seq<char>,
> {
    encoded_block(
        arch.spec_bitness(),
        code,
        target,
        seq![jump_back(arch, target, code.len() as int)],
        trampoline,
    )
}

/// What a relocation results in, given the decoded instructions and what the
/// encoder made of them.
pub open spec fn relocation_of(
    list: Seq<DecodedInstruction>,
    encoded: Result<(Seq<u8>, Seq<u32>), Seq<char>>,
    result: Result<RelocationMapping, DisasmError>,
) -> bool {
    match relocation_refusal(list, 0) {
        Some(error) => result == Err::<RelocationMapping, DisasmError>(error),
        None => match encoded {
            Err(text) => result matches Err(DisasmError::Encoder(reason)) && reason@ == text,
            Ok((code, offsets)) => if offsets.len() < list.len() {
                result == Err::<RelocationMapping, DisasmError>(DisasmError::IncompleteOffsets)
            } else if offsets.subrange(0, list.len() as int).contains(u32::MAX) {
                result == Err::<RelocationMapping, DisasmError>(DisasmError::NotEncodable)
            } else {
                result matches Ok(mapping) && {
                    &&& mapping.code@ == code
                    &&& mapping.written_len == code.len()
                    &&& mapping.old_instruction_offsets@ == start_offsets(list)
                    &&& mapping.new_instruction_offsets@ == offsets.subrange(0, list.len() as int)
                    &&& starts_within(mapping.code@, mapping.new_instruction_offsets@)
                }
            },
        },
    }
}

/// The relocated code with the offsets of the instructions before and after,
/// where the relocation succeeds. All new offsets lie within the code.
pub open spec fn relocated(
    list: Seq<DecodedInstruction>,
    encoded: Result<(Seq<u8>, Seq<u32>), Seq<char>>,
) -> Option<(Seq<u8>, Seq<u32>, Seq<u32>)> {
    match encoded {
        Ok((code, offsets)) => {
            let kept = offsets.subrange(0, list.len() as int);
            if relocation_refusal(list, 0) is None && offsets.len() >= list.len() && !kept.contains(
                u32::MAX,
            ) && starts_within(code, kept) {
                Some((code, start_offsets(list), kept))
            } else {
                None
            }
        },
        Err(_) => None,
    }
}

/// Returns the offsets at which the instructions start, or why the instructions
/// cannot be relocated.
pub fn relocatable_offsets(list: &[DecodedInstruction]) -> (offsets: Result<Vec<u32>, DisasmError>)
    requires
        length_of(list@, list@.len() as int) <= usize::MAX,
    ensures
        match offsets {
            Ok(starts) => relocation_refusal(list@, 0) is None && starts@ == start_offsets(list@),
            Err(error) => relocation_refusal(list@, 0) == Some(error),
        },
{
    let mut starts: Vec<u32> = Vec::new();
    let mut total: usize = 0;
    let mut at: usize = 0;
    while at < list.len()
        invariant
            at <= list@.len(),
            total == length_of(list@, at as int),
            starts@.len() == at,
            forall|i: int| 0 <= i < at ==> starts@[i] == length_of(list@, i) as u32,
            relocation_refusal(list@, at as int) == relocation_refusal(list@, 0),
            length_of(list@, list@.len() as int) <= usize::MAX,
        decreases list@.len() - at,
    {
        if list[at].invalid {
            return Err(DisasmError::InvalidRelocation);
        }
        if total as u64 > u32::MAX as u64 {
            return Err(DisasmError::OffsetOverflow);
        }
        proof {
            lemma_length_monotonic(list@, at + 1, list@.len() as int);
        }
        starts.push(total as u32);
        total = total + list[at].len;
        at = at + 1;
    }
    assert(starts@ =~= start_offsets(list@));
    Ok(starts)
}

/// Completes a relocation from the decoded instructions, whose start offsets are
/// `starts`, and from what the encoder made of them.
pub fn finish_relocation(
    list: &[DecodedInstruction],
    starts: Vec<u32>,
    encoded: Result<EncodedBlock, String>,
) -> (result: Result<RelocationMapping, DisasmError>)
    requires
        relocation_refusal(list@, 0) is None,
        starts@ == start_offsets(list@),
        encoded matches Ok(block) ==> starts_within(block.code@, block.offsets@),
    ensures
        relocation_of(
            list@,
            match encoded {
                Ok(block) => Ok((block.code@, block.offsets@)),
                Err(text) => Err(text@),
            },
            result,
        ),
{
    let block = match encoded {
        Ok(block) => block,
        Err(text) => {
            return Err(DisasmError::Encoder(text));
        },
    };
    if block.offsets.len() < list.len() {
        return Err(DisasmError::IncompleteOffsets);
    }
    let mut placed: Vec<u32> = Vec::new();
    let mut i: usize = 0;
    let ghost kept = block.offsets@.subrange(0, list@.len() as int);
    while i < list.len()
        invariant
            i <= list@.len() <= block.offsets@.len(),
            kept == block.offsets@.subrange(0, list@.len() as int),
            placed@ == block.offsets@.subrange(0, i as int),
            forall|j: int| 0 <= j < i ==> kept[j] != u32::MAX,
            relocation_refusal(list@, 0) is None,
            encoded matches Ok(b) && b == block,
        decreases list@.len() - i,
    {
        if block.offsets[i] == u32::MAX {
            assert(kept[i as int] == u32::MAX);
            assert(kept.contains(u32::MAX));
            return Err(DisasmError::NotEncodable);
        }
        placed.push(block.offsets[i]);
        i = i + 1;
        assert(placed@ =~= block.offsets@.subrange(0, i as int));
    }
    assert(!kept.contains(u32::MAX));
    assert forall|j: int| 0 <= j < placed@.len() implies #[trigger] placed@[j]
        < block.code@.len() by {
        assert(placed@[j] == block.offsets@[j] && placed@[j] == kept[j]);
    }
    Ok(
        RelocationMapping {
            written_len: block.code.len(),
            old_instruction_offsets: starts,
            new_instruction_offsets: placed,
            code: block.code,
        },
    )
}

/// Measures and relocates instructions.
pub struct Disassembler;

impl Disassembler {
    /// Returns the decoder bitness of the architecture, 32 or 64.
    pub fn bitness(arch: Arch) -> (bits: u32)
        ensures
            bits == arch.spec_bitness(),
    {
        arch.bitness()
    }

    /// Returns how many bytes the whole instructions at `address` take that cover
    /// the first `min_size` bytes.
    pub fn get_instruction_len(arch: Arch, map: &MemoryMap, address: u64, min_size: usize) -> (len:
        Result<usize, DisasmError>)
        ensures
            match len {
                Ok(covered) => instruction_len(arch, map@, address, min_size as int) == Ok::<
                    int,
                    DisasmError,
                >(covered as int),
                Err(error) => instruction_len(arch, map@, address, min_size as int) == Err::<
                    int,
                    DisasmError,
                >(error),
            },
            len matches Ok(covered) ==> {
                &&& min_size <= covered < min_size + MAX_INSTRUCTION_LEN
                &&& covered == window(arch, map@, address as int, covered as int).len()
                &&& address + covered < arch.address_limit()
            },
    {
        let readable: u64 = readable_bytes_from(arch, map, address);
        if readable == 0 {
            return Err(DisasmError::Unreadable);
        }
        if readable < min_size as u64 {
            return Err(DisasmError::TooFewBytes);
        }
        let limit: u64 = (min_size as u64).saturating_add(MAX_INSTRUCTION_LEN as u64);
        let code = read_window(arch, map, address, limit);
        assert(code@ == window(arch, map@, address as int, min_size + MAX_INSTRUCTION_LEN));
        let list = decode_all(arch, &code, address);
        proof {
            lemma_covered_bounds(list@, 0, 0, min_size as int);
            lemma_find_region(map@, address as int, map@.len() as int);
            match covered_from(list@, 0, 0, min_size as int) {
                Ok(len) => {
                    let count = choose|count: int|
                        0 < count <= list@.len() && len == #[trigger] length_of(list@, count)
                            && length_of(list@, count - 1) < min_size;
                    lemma_length_monotonic(list@, count, list@.len() as int);
                    assert(len == length_of(list@, count - 1) + list@[count - 1].len);
                    assert(len <= code@.len());
                    assert(window(arch, map@, address as int, len).len() == len);
                },
                Err(_) => {},
            }
        }
        covered_length(&list, min_size)
    }

    /// Moves the instructions of `code`, which stand at `target`, to the address
    /// `trampoline`, and lets them return behind the moved bytes.
    ///
    /// The result holds the code for the trampoline. It may be longer than `code`
    /// because of the appended jump back.
    pub fn relocate(arch: Arch, code: &[u8], target: u64, trampoline: u64) -> (result: Result<
        RelocationMapping,
        DisasmError,
    >)
        requires
            target + code@.len() <= u64::MAX,
        ensures
            relocation_of(
                instructions_from(arch, code@, target, 0),
                encoded_block(
                    arch.spec_bitness(),
                    code@,
                    target,
                    seq![
                        NearJump {
                            encoding: near_jump_encoding(arch),
                            target: (target + code@.len()) as u64,
                        },
                    ],
                    trampoline,
                ),
                result,
            ),
    {
        let list = decode_all(arch, code, target);
        let starts = match relocatable_offsets(&list) {
            Ok(starts) => starts,
            Err(error) => {
                return Err(error);
            },
        };
        let encoding = match arch {
            Arch::X86 => NearJumpEncoding::Rel32In32,
            Arch::X64 => NearJumpEncoding::Rel32In64,
        };
        let mut tail: Vec<NearJump> = Vec::new();
        tail.push(NearJump { encoding, target: target + code.len() as u64 });
        assert(tail@ =~= seq![jump_back(arch, target, code@.len() as int)]);
        let encoded = encode_block(arch.bitness(), code, target, &tail, trampoline);
        finish_relocation(&list, starts, encoded)
    }
}

} // verus!
