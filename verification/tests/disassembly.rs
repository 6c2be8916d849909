use iced_x86::{Decoder, DecoderOptions, FlowControl, Instruction};
use neohook::arch::Arch;
use neohook::disasm::{DisasmError, Disassembler, RelocationMapping};
use neohook::memory::{MemoryMap, MemoryRegion, MEM_COMMIT, PAGE_EXECUTE_READ, PAGE_NOACCESS};

const SOURCE: u64 = 0x7ff6_1000_0000;
const TRAMPOLINE: u64 = 0x7ff6_1000_4000;

fn map_of(code: &[u8]) -> MemoryMap {
    MemoryMap {
        regions: vec![MemoryRegion {
            base: SOURCE,
            size: code.len() as u64,
            state: MEM_COMMIT,
            protect: PAGE_EXECUTE_READ,
            bytes: code.to_vec(),
        }],
    }
}

fn instruction_len(code: &[u8], min_size: usize) -> Result<usize, DisasmError> {
    Disassembler::get_instruction_len(Arch::X64, &map_of(code), SOURCE, min_size)
}

fn relocate(code: &[u8]) -> Result<RelocationMapping, DisasmError> {
    Disassembler::relocate(Arch::X64, code, SOURCE, TRAMPOLINE)
}

#[test]
fn get_instruction_len_on_nops() {
    let code = [0x90u8; 32];
    let len = instruction_len(&code, 5).expect("expected instruction length");
    assert_eq!(len, 5);
}

#[test]
fn get_instruction_len_respects_instruction_boundaries_x64() {
    let mut code = [0x90u8; 32];
    code[0..4].copy_from_slice(&[0x48, 0x83, 0xEC, 0x28]);

    let len = instruction_len(&code, 3).expect("expected instruction length");
    assert_eq!(len, 4);
}

#[test]
fn relocate_appends_jump_back() {
    let code = [0x90u8, 0x90, 0x90, 0x90, 0x90];
    let written = relocate(&code).expect("relocation should succeed");
    assert!(
        written.written_len > code.len(),
        "expected appended jump-back"
    );
}

#[test]
fn relocate_preserves_relative_call_target() {
    let code = [0xE8, 0x00, 0x00, 0x00, 0x00];
    let mapping = relocate(&code).expect("relocation should succeed");

    let mut decoder = Decoder::with_ip(64, &mapping.code, TRAMPOLINE, DecoderOptions::NONE);
    let instr = decoder.decode();
    assert_eq!(instr.near_branch_target(), SOURCE + 5);
}

#[test]
fn disassembler_returns_expected_instruction_lengths() {
    let code: [u8; 10] = [0x90, 0x90, 0xB8, 0xAA, 0xBB, 0xCC, 0xDD, 0x90, 0x90, 0x90];
    assert_eq!(instruction_len(&code, 1).unwrap(), 1);
    assert_eq!(instruction_len(&code, 2).unwrap(), 2);
    assert_eq!(instruction_len(&code, 3).unwrap(), 7);
}

#[test]
fn relocate_returns_instruction_offset_mapping() {
    let code = [0x90u8, 0x90, 0x90, 0x90, 0x90];
    let mapping = relocate(&code).expect("relocation should succeed");

    assert_eq!(mapping.old_instruction_offsets, vec![0, 1, 2, 3, 4]);
    assert_eq!(mapping.new_instruction_offsets, vec![0, 1, 2, 3, 4]);
}

#[test]
fn relocate_preserves_rip_relative_memory_operand() {
    let code = [0x48u8, 0x8B, 0x05, 0x00, 0x00, 0x00, 0x00];
    let original_target = SOURCE + code.len() as u64;

    let mapping = relocate(&code).expect("relocation should succeed");

    let mut decoder = Decoder::with_ip(64, &mapping.code, TRAMPOLINE, DecoderOptions::NONE);
    let instr = decoder.decode();

    assert!(
        instr.is_ip_rel_memory_operand(),
        "relocated instruction should still be RIP-relative"
    );
    assert_eq!(
        instr.memory_displacement64(),
        original_target,
        "RIP-relative operand must still resolve to the same absolute address after relocation"
    );
}

#[test]
fn get_instruction_len_handles_min_size_larger_than_32() {
    let code = [0x90u8; 64];
    let len = instruction_len(&code, 40).expect("expected instruction length");
    assert_eq!(len, 40);
}

fn corpus() -> Vec<Vec<u8>> {
    vec![
        vec![0x90],
        vec![0x66, 0x90],
        vec![0x0F, 0x1F, 0x00],
        vec![0xF3, 0x0F, 0x1E, 0xFA],
        vec![0x8B, 0xFF],
        vec![0x55],
        vec![0x53, 0x56, 0x57],
        vec![0x48, 0x89, 0xE5],
        vec![0x48, 0x83, 0xEC, 0x28],
        vec![0x48, 0x89, 0x4C, 0x24, 0x08],
        vec![0x4C, 0x8B, 0xDC],
        vec![0x48, 0x8D, 0x05, 0x10, 0x00, 0x00, 0x00],
        vec![0x48, 0x8B, 0x05, 0x00, 0x00, 0x00, 0x00],
        vec![0xE8, 0x00, 0x00, 0x00, 0x00],
        vec![0xE9, 0x11, 0x22, 0x33, 0x44],
        vec![0xEB, 0x10],
        vec![0x74, 0x05],
        vec![0x75, 0xFB],
        vec![0x0F, 0x84, 0x00, 0x00, 0x00, 0x00],
        vec![0xB8, 0xAA, 0xBB, 0xCC, 0xDD],
        vec![0x31, 0xC0],
        vec![0x48, 0x85, 0xC9],
        vec![0xC3],
        vec![0x48, 0x89, 0x5C, 0x24, 0x08, 0x57, 0x48, 0x83, 0xEC, 0x20],
    ]
}

fn check_lengths(input: &[u8]) {
    let mut padded = input.to_vec();
    padded.extend_from_slice(&[0x90; 32]);
    for min in 1..=input.len().max(1) {
        if let Ok(len) = instruction_len(&padded, min) {
            assert!(len >= min, "len {len} < min {min} for input {input:02X?}");
        }
    }
}

fn check_mapping(input: &[u8], mapping: &RelocationMapping) {
    assert!(
        mapping.written_len <= 512,
        "written_len {} exceeds budget for input {input:02X?}",
        mapping.written_len
    );
    assert_eq!(mapping.written_len, mapping.code.len());
    assert_eq!(
        mapping.old_instruction_offsets.len(),
        mapping.new_instruction_offsets.len(),
        "offset vectors must align for input {input:02X?}"
    );
    for &off in &mapping.new_instruction_offsets {
        assert!(
            (off as usize) < mapping.written_len,
            "new offset {off} out of bounds for input {input:02X?}"
        );
    }
}

#[test]
fn relocate_corpus_invariants_hold() {
    for input in corpus() {
        check_lengths(&input);
        match relocate(&input) {
            Ok(mapping) => {
                check_mapping(&input, &mapping);
                assert!(mapping.written_len > 0, "empty relocation for {input:02X?}");
            }
            Err(_) => panic!("valid corpus entry failed to relocate: {input:02X?}"),
        }
    }
}

fn effective_target(instr: &Instruction, buf: &[u8], base: u64) -> u64 {
    let is_branch = matches!(
        instr.flow_control(),
        FlowControl::Call
            | FlowControl::UnconditionalBranch
            | FlowControl::ConditionalBranch
            | FlowControl::IndirectBranch
            | FlowControl::IndirectCall
    );
    if is_branch {
        if instr.is_ip_rel_memory_operand() {
            let slot = instr.memory_displacement64();
            let off = (slot - base) as usize;
            u64::from_le_bytes(buf[off..off + 8].try_into().unwrap())
        } else {
            instr.near_branch_target()
        }
    } else {
        instr.memory_displacement64()
    }
}

#[test]
fn relocate_preserves_absolute_targets() {
    let bitness = Disassembler::bitness(Arch::X64);
    assert_eq!(bitness, 64);

    let cases: Vec<Vec<u8>> = vec![
        vec![0xE8, 0x00, 0x00, 0x00, 0x00],
        vec![0xE9, 0x40, 0x00, 0x00, 0x00],
        vec![0xEB, 0x10],
        vec![0x48, 0x8B, 0x05, 0x00, 0x00, 0x00, 0x00],
        vec![0x48, 0x8D, 0x0D, 0x34, 0x12, 0x00, 0x00],
    ];

    for code in cases {
        let mut d = Decoder::with_ip(bitness, &code, SOURCE, DecoderOptions::NONE);
        let orig = d.decode();
        let want = effective_target(&orig, &code, SOURCE);

        let map = relocate(&code).expect("corpus case should relocate");
        let mut d2 = Decoder::with_ip(bitness, &map.code, TRAMPOLINE, DecoderOptions::NONE);
        let reloc = d2.decode();
        let got = effective_target(&reloc, &map.code, TRAMPOLINE);

        assert_eq!(
            got, want,
            "relocation changed the absolute target for {code:02X?}"
        );
    }
}

#[test]
fn relocate_rejects_unencodable_short_branch() {
    let mut arena = vec![0x90u8; 8192];
    arena[0] = 0xE3;
    arena[1] = 0x8B;

    let res = Disassembler::relocate(Arch::X64, &arena[..2], SOURCE, SOURCE + 4096);
    match res {
        Err(_) => {}
        Ok(map) => assert!(
            !map.new_instruction_offsets.contains(&u32::MAX),
            "relocate returned Ok with an un-encoded (u32::MAX) instruction offset"
        ),
    }
}

struct Rng(u64);

impl Rng {
    fn next(&mut self) -> u64 {
        let mut x = self.0;
        x ^= x >> 12;
        x ^= x << 25;
        x ^= x >> 27;
        self.0 = x;
        x.wrapping_mul(0x2545_F491_4F6C_DD1D)
    }

    fn below(&mut self, n: usize) -> usize {
        (self.next() % n as u64) as usize
    }
}

fn mutate(rng: &mut Rng, bytes: &mut Vec<u8>) {
    if bytes.is_empty() {
        bytes.push((rng.next() & 0xFF) as u8);
        return;
    }
    match rng.below(5) {
        0 => {
            let i = rng.below(bytes.len());
            bytes[i] ^= 1 << (rng.below(8));
        }
        1 => {
            let i = rng.below(bytes.len());
            bytes[i] = (rng.next() & 0xFF) as u8;
        }
        2 if bytes.len() > 1 => {
            bytes.remove(rng.below(bytes.len()));
        }
        3 if bytes.len() < 32 => {
            let i = rng.below(bytes.len() + 1);
            bytes.insert(i, (rng.next() & 0xFF) as u8);
        }
        _ => {
            let i = rng.below(bytes.len());
            let j = rng.below(bytes.len());
            bytes.swap(i, j);
        }
    }
}

#[test]
fn fuzz_relocate_deep() {
    let corpus = corpus();
    let mut rng = Rng(0x9E37_79B9_7F4A_7C15);
    for _ in 0..5_000 {
        let mut bytes = corpus[rng.below(corpus.len())].clone();
        if rng.below(4) == 0 {
            bytes.extend_from_slice(&corpus[rng.below(corpus.len())]);
            bytes.truncate(32);
        }
        let edits = 1 + rng.below(4);
        for _ in 0..edits {
            mutate(&mut rng, &mut bytes);
        }
        if bytes.is_empty() {
            continue;
        }
        check_lengths(&bytes);
        if let Ok(mapping) = relocate(&bytes) {
            check_mapping(&bytes, &mapping);
        }
    }
}

#[test]
fn relocated_nops_are_followed_by_a_jump_behind_them() {
    let mapping = relocate(&[0x90u8; 5]).unwrap();
    assert_eq!(&mapping.code[..5], &[0x90u8; 5]);
    let mut decoder = Decoder::with_ip(64, &mapping.code[5..], TRAMPOLINE + 5, DecoderOptions::NONE);
    assert_eq!(decoder.decode().near_branch_target(), SOURCE + 5);
}

#[test]
fn the_jump_behind_relocated_code_fits_the_architecture() {
    // Five bytes at 0x400000 go to 0x500000; the jump at 0x500005 returns to 0x400005.
    let mapping =
        Disassembler::relocate(Arch::X86, &[0x90u8; 5], 0x40_0000, 0x50_0000).unwrap();
    assert_eq!(
        mapping.code,
        vec![0x90, 0x90, 0x90, 0x90, 0x90, 0xE9, 0xFB, 0xFF, 0xEF, 0xFF]
    );
    let far = Disassembler::relocate(Arch::X64, &[0x90u8; 5], 0x40_0000, 0x7000_0000).unwrap();
    assert_eq!(far.code[5..], [0xE9, 0xFB, 0xFF, 0x3F, 0x90]);
}

#[test]
fn jcxz_out_of_reach_is_refused_with_its_reason() {
    let error = Disassembler::relocate(Arch::X64, &[0xE3, 0x8B], SOURCE, SOURCE + 0x1000_0000)
        .expect_err("a short-only branch cannot reach that far");
    assert!(error.message().starts_with("Relocation failed: "));
}

#[test]
fn measuring_reports_each_failure() {
    assert!(matches!(
        Disassembler::get_instruction_len(Arch::X64, &MemoryMap { regions: vec![] }, SOURCE, 5),
        Err(DisasmError::Unreadable)
    ));
    let mut hidden = map_of(&[0x90; 8]);
    hidden.regions[0].protect = PAGE_NOACCESS;
    assert!(matches!(
        Disassembler::get_instruction_len(Arch::X64, &hidden, SOURCE, 5),
        Err(DisasmError::Unreadable)
    ));
    assert!(matches!(
        instruction_len(&[0x90, 0x90], 5),
        Err(DisasmError::TooFewBytes)
    ));
    // 06 is no instruction in 64-bit code.
    assert!(matches!(
        instruction_len(&[0x06, 0x90, 0x90, 0x90, 0x90, 0x90], 5),
        Err(DisasmError::InvalidInstruction)
    ));
    // The last instruction is cut off by the end of the region.
    assert!(instruction_len(&[0x90, 0x90, 0x90, 0xB8, 0x00], 5).is_err());
    assert!(matches!(
        relocate(&[0x06]),
        Err(DisasmError::InvalidRelocation)
    ));
    assert_eq!(
        DisasmError::InvalidRelocation.message(),
        "Invalid instruction encountered while relocating"
    );
}

#[test]
fn bitness_decides_how_bytes_decode() {
    // 48 is a prefix in 64-bit code and an instruction of its own in 32-bit code.
    let code = [0x48u8, 0x90, 0x90, 0x90];
    let mut map = map_of(&code);
    assert_eq!(
        Disassembler::get_instruction_len(Arch::X64, &map, SOURCE, 1).unwrap(),
        2
    );
    map.regions[0].base = 0x40_0000;
    assert_eq!(
        Disassembler::get_instruction_len(Arch::X86, &map, 0x40_0000, 1).unwrap(),
        1
    );
    assert_eq!(Disassembler::bitness(Arch::X86), 32);
}
