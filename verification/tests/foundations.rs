use neohook::arch::Arch;
use neohook::eat::{alloc_export_stub, direct_rva, EatHookError, EXPORT_STUB_LEN};
use neohook::iat::IatHookError;
use neohook::inline::{choose_jump, stack_scan_len, JumpType, STACK_SCAN_DEPTH};
use neohook::mem::{
    detour_page_protect_adjust_execute, write_memory_atomic, OsError, RestorePolicy, SlotWrite,
    WriteEvent, WriteStep,
};
use neohook::memory::{
    MemoryMap, MemoryRegion, MEM_COMMIT, MEM_FREE, PAGE_EXECUTE, PAGE_EXECUTE_READ,
    PAGE_EXECUTE_READWRITE, PAGE_GUARD, PAGE_NOACCESS, PAGE_READONLY, PAGE_READWRITE,
};
use neohook::nearby::{
    align_up, NearbySearch, QueriedRegion, SearchStep, Trampoline, TrampolineAlloc,
};
use neohook::scan::{Pattern, PatternError};
use neohook::vtable::{VTableHook, VTableHookError, VTableInstanceHook};
use neohook::{DetourError, HookKind};

#[test]
fn align_up_works() {
    assert_eq!(align_up(0x10001, 0x10000), 0x20000);
    assert_eq!(align_up(0x20000, 0x10000), 0x20000);
}

/// Where the system puts memory that may be anywhere.
const ANYWHERE: u64 = 0x6000_0000_0000;

/// An address space with regions in use, and what was allocated in it.
struct AddressSpace {
    used: Vec<(u64, u64)>,
    /// Allocations below this address are refused.
    refused: u64,
    allocated: Vec<(u64, Vec<u8>)>,
}

impl AddressSpace {
    fn with(used: &[(u64, u64)]) -> AddressSpace {
        AddressSpace { used: used.to_vec(), refused: 0, allocated: Vec::new() }
    }

    fn query(&self, address: u64) -> QueriedRegion {
        let mut end = address + 0x8000_0000;
        for &(base, size) in &self.used {
            if base <= address && address < base + size {
                return QueriedRegion { base, size, state: MEM_COMMIT };
            }
            if base > address {
                end = end.min(base);
            }
        }
        QueriedRegion { base: address, size: end - address, state: MEM_FREE }
    }

    /// Allocates as the system does: a null address leaves the place to it.
    fn allocate(&mut self, address: u64, size: u64) -> Option<u64> {
        let place = if address == 0 { ANYWHERE } else { address };
        if place < self.refused {
            return None;
        }
        self.allocated.push((place, vec![0; size as usize]));
        Some(place)
    }

    fn run(&mut self, mut search: NearbySearch) -> Option<Trampoline> {
        let size = search.size;
        for _ in 0..100 {
            match search.step() {
                SearchStep::Query { address } => search.region_found(Some(self.query(address))),
                SearchStep::Allocate { address, size: asked } => {
                    assert_eq!(asked, size);
                    assert_ne!(address, 0);
                    if let Some(memory) = self.allocate(address, size) {
                        match search.allocated(memory) {
                            Some(trampoline) => return Some(trampoline),
                            None => {
                                self.allocated.pop();
                            }
                        }
                    }
                    search.allocation_failed();
                }
                SearchStep::Exhausted => return None,
            }
        }
        panic!("the search does not end");
    }

    fn alloc_nearby(&mut self, target: u64, size: u64) -> Option<u64> {
        let search = TrampolineAlloc::alloc_nearby(target, size, 0x10000)?;
        self.run(search).map(|trampoline| trampoline.as_ptr())
    }

    fn alloc_nearby_trampoline(&mut self, target: u64, size: u64) -> Option<Trampoline> {
        let search = TrampolineAlloc::alloc_nearby_trampoline(target, size, 0x10000)?;
        self.run(search)
    }
}

#[test]
fn alloc_nearby_basic_conditions() {
    let target = 0x7ff6_0000_0000u64;
    let mut space = AddressSpace::with(&[(target, 4096)]);
    assert!(space.alloc_nearby_trampoline(0, 64).is_none(), "null target should return None");
    assert!(space.alloc_nearby_trampoline(target, 0).is_none(), "size 0 should return None");
    assert!(
        space.alloc_nearby_trampoline(target, 64).is_some(),
        "expected nearby trampoline allocation to succeed"
    );
}

#[test]
fn alloc_nearby_stays_within_rel32_range() {
    let target = 0x7ff6_0000_0000u64;
    for refused in [0, target, target + 0x1000] {
        let mut space = AddressSpace::with(&[(target, 4096)]);
        space.refused = refused;
        let found = space
            .alloc_nearby_trampoline(target, 64)
            .expect("expected nearby trampoline allocation to succeed");
        assert_eq!(found.ptr % 0x10000, 0);
        let distance = found.ptr.abs_diff(target);
        assert!(
            distance <= i32::MAX as u64,
            "trampoline too far away: distance={distance}"
        );
    }
    let mut space = AddressSpace::with(&[(target, 4096)]);
    space.refused = u64::MAX;
    assert!(space.alloc_nearby_trampoline(target, 64).is_none());
    assert!(space.allocated.is_empty());
    assert!(TrampolineAlloc::anywhere(Arch::X86));
    assert!(!TrampolineAlloc::anywhere(Arch::X64));
}

#[test]
fn alloc_nearby_trampoline_sets_ptr_and_size() {
    let target = 0x7ff6_0000_0000u64;
    let mut space = AddressSpace::with(&[(target, 4096)]);
    let tramp = space
        .alloc_nearby_trampoline(target, 128)
        .expect("expected trampoline allocation");
    assert_ne!(tramp.ptr, 0, "trampoline ptr should not be null");
    assert_eq!(tramp.size, 128, "trampoline size should match request");
    assert_eq!(tramp.ptr, space.allocated[0].0);
}

#[test]
fn allocator_basic_allocation_and_write() {
    let target = 0x7ff6_0000_0000u64;
    let mut space = AddressSpace::with(&[(target, 4096)]);
    let memory = space.alloc_nearby(target, 128);
    assert!(memory.is_some(), "alloc_nearby returned None");
    assert_ne!(memory, Some(0), "allocated pointer must not be null");
    let (base, bytes) = &mut space.allocated[0];
    assert_eq!((Some(*base), bytes.len()), (memory, 128));
    bytes[0] = 0xCC;
    assert_eq!(bytes[0], 0xCC);
}

#[test]
fn memory_near_a_low_target_is_never_asked_for_at_null() {
    let target = 0x40_0000u64;

    // Only the first 64 KiB and what is far above are free.
    let mut space = AddressSpace::with(&[(0x1_0000, 0x3FFF_0000), (0x4000_0000, 0x1000)]);
    let found = space.alloc_nearby_trampoline(target, 128).expect("memory within reach");
    assert_eq!(found.ptr, 0x4001_0000);
    assert!(found.ptr.abs_diff(target) <= i32::MAX as u64);

    // The free memory begins at 0: the first aligned address above is taken.
    let mut space = AddressSpace::with(&[(target, 0x1000)]);
    assert_eq!(space.alloc_nearby_trampoline(target, 128).unwrap().ptr, 0x1_0000);
    assert_eq!(space.alloc_nearby(0, 128), Some(0x1_0000));

    let mut search = TrampolineAlloc::alloc_nearby_trampoline(target, 128, 0x1_0000).unwrap();
    assert_eq!(search.step(), SearchStep::Query { address: 0 });
    search.region_found(Some(QueriedRegion { base: 0, size: 0x1_0000, state: MEM_FREE }));
    assert_eq!(search.step(), SearchStep::Query { address: 0x1_0000 });
}

#[test]
fn memory_out_of_reach_is_not_accepted() {
    let target = 0x7ff6_0000_0000u64;
    let search = TrampolineAlloc::alloc_nearby_trampoline(target, 64, 0x1_0000).unwrap();
    assert!(search.allocated(0).is_none());
    assert!(search.allocated(ANYWHERE).is_none());
    assert!(search.allocated(search.min - 1).is_none());
    assert!(search.allocated(search.max - 63).is_none());
    let last = search.allocated(search.max - 64).unwrap();
    assert_eq!((last.ptr, last.size), (search.max - 64, 64));
    assert_eq!(search.allocated(search.min).unwrap().ptr, search.min);
    assert!((search.max - target) <= i32::MAX as u64);
    assert!((target - search.min) <= i32::MAX as u64);
}

#[test]
fn stubs_of_exports_lie_above_their_module() {
    let base = 0x7ff6_0000_0000u64;
    let search = alloc_export_stub(base, 0x1_0000).unwrap();
    assert_eq!(search.size, EXPORT_STUB_LEN);
    assert!(search.min > base);
    assert!(search.max - base <= u32::MAX as u64);
    let mut space = AddressSpace::with(&[(base, 0x10_0000)]);
    let stub = space.run(search).unwrap();
    assert!(direct_rva(Arch::X64, base, stub.ptr).is_some());
    assert!(alloc_export_stub(u64::MAX - 5, 0x1_0000).is_none());
}

#[test]
fn jumps_are_chosen_by_distance() {
    let target = 0x1_0000_0000u64;
    assert_eq!(choose_jump(Arch::X64, target, target + 5 + 0x7fff_ffff), JumpType::Relative5);
    assert_eq!(choose_jump(Arch::X64, target, target + 5 + 0x8000_0000), JumpType::Absolute14);
    assert_eq!(choose_jump(Arch::X64, target, target + 5 - 0x8000_0000), JumpType::Relative5);
    assert_eq!(choose_jump(Arch::X64, target, target + 4 - 0x8000_0000), JumpType::Absolute14);
    assert_eq!(choose_jump(Arch::X86, 0x40_0000, 0xFFFF_0000), JumpType::Relative5);
    assert_eq!(JumpType::Relative5.len(), 5);
    assert_eq!(JumpType::Absolute14.len(), 14);
}

#[test]
fn stacks_are_scanned_to_their_end() {
    assert_eq!(stack_scan_len(Arch::X64, 0x1000, 0x1011), 2);
    assert_eq!(stack_scan_len(Arch::X86, 0x1000, 0x1011), 4);
    assert_eq!(stack_scan_len(Arch::X64, 0x1000, 0x10_0000), STACK_SCAN_DEPTH);
    assert_eq!(stack_scan_len(Arch::X64, 0x1000, 0xFFF), 0);
}

#[test]
fn protections_keep_execution() {
    assert_eq!(
        detour_page_protect_adjust_execute(PAGE_EXECUTE_READ, PAGE_READWRITE),
        PAGE_EXECUTE_READWRITE
    );
    assert_eq!(
        detour_page_protect_adjust_execute(PAGE_READONLY, PAGE_READWRITE),
        PAGE_READWRITE
    );
    assert_eq!(
        detour_page_protect_adjust_execute(PAGE_EXECUTE, PAGE_READONLY),
        PAGE_EXECUTE_READ
    );
}

#[test]
fn code_writes_need_a_target_and_bytes() {
    assert!(write_memory_atomic(0, vec![1]).is_none());
    assert!(write_memory_atomic(5, vec![]).is_none());
    let write = write_memory_atomic(5, vec![1, 2]).unwrap();
    assert_eq!((write.address, write.bytes), (5, vec![1, 2]));
}

fn denied() -> OsError {
    OsError { code: 5, message: "Access is denied. (os error 5)".to_string() }
}

/// Runs a write; `fail` is the number of the protection change that fails.
fn run(mut write: SlotWrite, fail: usize) -> (Vec<WriteStep>, u64, Result<(), OsError>) {
    let mut memory = 7u64;
    let mut steps = Vec::new();
    let mut protections = 0;
    loop {
        let step = write.step();
        steps.push(step);
        let event = match step {
            WriteStep::Query { .. } => WriteEvent::Queried(Ok(PAGE_EXECUTE_READ)),
            WriteStep::Protect { .. } => {
                protections += 1;
                if protections == fail {
                    WriteEvent::Protected(Err(denied()))
                } else {
                    WriteEvent::Protected(Ok(PAGE_EXECUTE_READ))
                }
            }
            WriteStep::Load { .. } => WriteEvent::Loaded(memory),
            WriteStep::Store { value, .. } => {
                memory = value;
                WriteEvent::Stored
            }
            WriteStep::Done => return (steps, memory, write.outcome()),
        };
        write.advance(event);
    }
}

#[test]
fn slots_are_written_all_or_not_at_all() {
    let (_, memory, outcome) = run(SlotWrite::plain(0x10, 8, 9, RestorePolicy::UndoAndRetry), 0);
    assert_eq!(memory, 9);
    assert!(outcome.is_ok());

    let (steps, memory, outcome) =
        run(SlotWrite::plain(0x10, 8, 9, RestorePolicy::UndoAndRetry), 1);
    assert_eq!(memory, 7);
    assert_eq!(outcome.unwrap_err().code, 5);
    assert_eq!(steps.len(), 2);

    let (_, memory, outcome) = run(SlotWrite::plain(0x10, 8, 9, RestorePolicy::UndoAndRetry), 2);
    assert_eq!(memory, 7, "the original value is written back");
    assert!(outcome.is_err());

    let (_, memory, outcome) = run(SlotWrite::plain(0x10, 8, 9, RestorePolicy::Keep), 2);
    assert_eq!(memory, 9, "the new value is kept");
    assert!(outcome.is_err());
}

#[test]
fn a_write_keeps_the_page_executable() {
    let (steps, _, _) = run(SlotWrite::keeping_execution(0x10, 8, 9, RestorePolicy::Undo), 0);
    assert_eq!(steps[0], WriteStep::Query { address: 0x10 });
    assert_eq!(
        steps[1],
        WriteStep::Protect { address: 0x10, len: 8, protect: PAGE_EXECUTE_READWRITE }
    );
}

#[test]
fn memory_is_read_where_it_is_accessible() {
    let region = |base: u64, protect: u32| MemoryRegion {
        base,
        size: 8,
        state: MEM_COMMIT,
        protect,
        bytes: vec![1, 2, 3, 4, 5, 6, 7, 8],
    };
    let map = MemoryMap {
        regions: vec![
            region(0x100, PAGE_READONLY),
            region(0x200, PAGE_READONLY | PAGE_GUARD),
            region(0x300, PAGE_NOACCESS),
        ],
    };
    assert_eq!(map.read_u8(Arch::X64, 0x107), Some(8));
    assert_eq!(map.read_u16(Arch::X64, 0x106), Some(0x0807));
    assert_eq!(map.read_u32(Arch::X64, 0x100), Some(0x0403_0201));
    assert_eq!(map.read_u64(Arch::X64, 0x100), Some(0x0807_0605_0403_0201));
    assert_eq!(map.read_pointer(Arch::X86, 0x100), Some(0x0403_0201));
    assert_eq!(map.read_u32(Arch::X64, 0x105), None);
    assert_eq!(map.read_u8(Arch::X64, 0x200), None);
    assert_eq!(map.read_u8(Arch::X64, 0x300), None);
    assert_eq!(map.read_u8(Arch::X64, 0x400), None);
    assert!(map.is_readable_range(Arch::X64, 0x100, 8));
    assert!(!map.is_readable_range(Arch::X64, 0x100, 9));
}

#[test]
fn table_hooks_check_their_arguments() {
    assert!(matches!(
        VTableHook::prepare(Arch::X64, 0, 1, 2),
        Err(VTableHookError::InvalidParameter)
    ));
    assert!(matches!(
        VTableHook::prepare(Arch::X64, 1, 1, 0),
        Err(VTableHookError::InvalidParameter)
    ));
    let write = VTableHook::prepare(Arch::X64, 0x1000, 3, 0x20).unwrap();
    assert_eq!((write.slot, write.len, write.value), (0x1018, 8, 0x20));
    let write = VTableHook::prepare(Arch::X86, 0x1000, 3, 0x20).unwrap();
    assert_eq!((write.slot, write.len), (0x100C, 4));
    assert!(VTableInstanceHook::validate(0x10, 0x20, 4, 4, 0x30).is_err());
    assert!(VTableInstanceHook::validate(0x10, 0x20, 4, 3, 0x30).is_ok());
    assert!(VTableInstanceHook::validate(0, 0x20, 4, 3, 0x30).is_err());
}

#[test]
fn errors_have_texts() {
    assert_eq!(HookKind::Eat.to_string(), "EAT");
    assert_eq!(HookKind::Detach.to_string(), "detach");
    assert_eq!(
        DetourError::NotStarted.to_string(),
        "Transaction not started or already finished"
    );
    assert_eq!(
        DetourError::AllocationFailed.to_string(),
        "Failed to allocate memory for trampoline"
    );
    assert_eq!(
        DetourError::from(IatHookError::ProtectFailed(denied())).to_string(),
        "IAT hook error: failed to change page protection: Access is denied. (os error 5)"
    );
    assert_eq!(
        DetourError::from(EatHookError::TargetNotFound).to_string(),
        "EAT hook error: target export not found"
    );
    assert_eq!(
        DetourError::from(VTableHookError::InvalidParameter).to_string(),
        "VTable hook error: invalid VTable hook parameters"
    );
    assert!(DetourError::NotStarted.source().is_none());
}

#[test]
fn signatures_report_their_errors() {
    assert_eq!(
        DetourError::from(PatternError::InvalidMaskChar('\u{e9}')).to_string(),
        format!("Signature parse error: {}", PatternError::InvalidMaskChar('\u{e9}').to_string())
    );
    assert!(PatternError::InvalidMaskChar('\u{e9}').to_string().contains('\u{e9}'));
    assert_eq!(
        Pattern::parse("48 ???").unwrap_err(),
        PatternError::InvalidToken("???".to_string())
    );
    assert_eq!(Pattern::parse("?").unwrap().mask, vec![false]);
    let pattern = Pattern::parse("\t90\n90 ").unwrap();
    assert_eq!(pattern.bytes, vec![0x90, 0x90]);
    assert!(!pattern.is_empty());
    assert!(pattern.matches_at(&[0, 0x90, 0x90], 1));
    assert!(!pattern.matches_at(&[0, 0x90, 0x90], 0));
}
