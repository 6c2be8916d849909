use neohook::arch::Arch;
use neohook::code::{detour_code_from_pointer, detour_code_from_pointer_once};
use neohook::memory::{MemoryMap, MemoryRegion, MEM_COMMIT, PAGE_EXECUTE_READWRITE};
use neohook::resolve::{resolve_call_target, resolve_relative, resolve_rip_relative};

const PAGE: u64 = 0x1_4000_0000;

fn map_at(base: u64, bytes: &[u8]) -> MemoryMap {
    MemoryMap {
        regions: vec![MemoryRegion {
            base,
            size: bytes.len() as u64,
            state: MEM_COMMIT,
            protect: PAGE_EXECUTE_READWRITE,
            bytes: bytes.to_vec(),
        }],
    }
}

#[test]
fn resolve_relative_matches_manual_arithmetic() {
    let code: [u8; 5] = [0xE8, 0x40, 0x00, 0x00, 0x00];
    let got = resolve_relative(Arch::X64, &code, PAGE, 1, 5);
    assert_eq!(got, PAGE + 5 + 0x40);
}

#[test]
fn resolve_relative_handles_negative_displacement() {
    let code: [u8; 5] = [0xE9, 0xF0, 0xFF, 0xFF, 0xFF];
    let got = resolve_relative(Arch::X64, &code, PAGE, 1, 5);
    assert_eq!(got, PAGE + 5 - 0x10);
}

#[test]
fn resolve_call_target_decodes_relative_call() {
    let code: [u8; 5] = [0xE8, 0x00, 0x00, 0x00, 0x00];
    let got =
        resolve_call_target(Arch::X64, &map_at(PAGE, &code), PAGE).expect("should decode a call");
    assert_eq!(got, PAGE + 5);
}

#[test]
fn resolve_call_target_rejects_non_branch() {
    let code: [u8; 4] = [0x90, 0x90, 0x90, 0x90];
    assert!(resolve_call_target(Arch::X64, &map_at(PAGE, &code), PAGE).is_none());
}

#[test]
fn resolve_rip_relative_decodes_memory_operand() {
    let code: [u8; 7] = [0x48, 0x8B, 0x05, 0x00, 0x00, 0x00, 0x00];
    let got = resolve_rip_relative(Arch::X64, &map_at(PAGE, &code), PAGE)
        .expect("should decode a rip-relative");
    assert_eq!(got, PAGE + 7);
}

#[test]
fn resolve_rip_relative_with_displacement() {
    let code: [u8; 7] = [0x48, 0x8D, 0x05, 0x20, 0x00, 0x00, 0x00];
    let got =
        resolve_rip_relative(Arch::X64, &map_at(PAGE, &code), PAGE).expect("should decode a lea");
    assert_eq!(got, PAGE + 7 + 0x20);
}

#[test]
fn resolve_rip_relative_rejects_non_memory_operand() {
    let code: [u8; 4] = [0x90, 0x90, 0x90, 0x90];
    assert!(resolve_rip_relative(Arch::X64, &map_at(PAGE, &code), PAGE).is_none());
}

#[test]
fn null_pointer_returns_none() {
    let map = map_at(PAGE, &[0x90; 16]);
    assert!(resolve_call_target(Arch::X64, &map, 0).is_none());
    assert!(resolve_rip_relative(Arch::X64, &map, 0).is_none());
}

#[test]
fn code_from_pointer_returns_null_for_null() {
    let resolved = detour_code_from_pointer(Arch::X64, &map_at(PAGE, &[0x90; 16]), 0);
    assert_eq!(resolved, 0);
}

#[test]
fn code_from_pointer_follows_relative_jump() {
    let mut page = vec![0u8; 4096];
    let stub = PAGE;
    let target = PAGE + 64;
    let rel = (target as i64).wrapping_sub(stub as i64).wrapping_sub(5) as i32;
    page[0] = 0xE9;
    page[1..5].copy_from_slice(&rel.to_le_bytes());

    assert_eq!(
        detour_code_from_pointer(Arch::X64, &map_at(PAGE, &page), stub),
        target
    );
}

#[test]
fn code_from_pointer_follows_indirect_import_thunk() {
    let mut page = vec![0u8; 4096];
    let target = PAGE + 128;
    page[0] = 0xFF;
    page[1] = 0x25;
    page[2..6].copy_from_slice(&0i32.to_le_bytes());
    page[6..14].copy_from_slice(&target.to_le_bytes());
    assert_eq!(
        detour_code_from_pointer(Arch::X64, &map_at(PAGE, &page), PAGE),
        target
    );

    let base = 0x40_0000u64;
    let mut page = vec![0u8; 4096];
    let target = base as u32 + 128;
    page[0] = 0xFF;
    page[1] = 0x25;
    page[2..6].copy_from_slice(&(base as u32 + 32).to_le_bytes());
    page[32..36].copy_from_slice(&target.to_le_bytes());
    assert_eq!(
        detour_code_from_pointer(Arch::X86, &map_at(base, &page), base),
        target as u64
    );
}

#[test]
fn short_jumps_and_immediate_jumps_are_followed() {
    let mut page = vec![0x90u8; 256];
    page[0..2].copy_from_slice(&[0xEB, 0x0E]);
    page[16..18].copy_from_slice(&[0x48, 0xB8]);
    page[18..26].copy_from_slice(&(PAGE + 100).to_le_bytes());
    page[26..28].copy_from_slice(&[0xFF, 0xE0]);
    let map = map_at(PAGE, &page);
    assert_eq!(
        detour_code_from_pointer_once(Arch::X64, &map, PAGE),
        Some(PAGE + 16)
    );
    assert_eq!(
        detour_code_from_pointer_once(Arch::X64, &map, PAGE + 16),
        Some(PAGE + 100)
    );
    assert_eq!(detour_code_from_pointer(Arch::X64, &map, PAGE), PAGE + 100);
}

#[test]
fn a_loop_of_jumps_ends() {
    let mut page = vec![0x90u8; 64];
    page[0..2].copy_from_slice(&[0xEB, 0x0E]);
    page[16..18].copy_from_slice(&[0xEB, 0xEE]);
    let found = detour_code_from_pointer(Arch::X64, &map_at(PAGE, &page), PAGE);
    assert!(found == PAGE || found == PAGE + 16);
}

#[test]
fn code_that_is_no_stub_is_its_own_code() {
    let map = map_at(PAGE, &[0x55, 0x48, 0x89, 0xE5, 0xC3, 0, 0, 0]);
    assert_eq!(detour_code_from_pointer(Arch::X64, &map, PAGE), PAGE);
    assert_eq!(detour_code_from_pointer_once(Arch::X64, &map, PAGE), None);
}
