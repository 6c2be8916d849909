use neohook::arch::Arch;
use neohook::cfg::{
    is_enforced, register_valid_target, set_enforcement, CallTarget, Enforcement, PAGE_SIZE,
};
use neohook::delay::{DelayHook, DelayHookError, DelayManager};
use neohook::inline::ThreadState;
use neohook::int3::Int3Hook;
use neohook::midhook::{HookContext, Xmm};
use neohook::midhook_x86;
use neohook::reclaim::{
    collect_thread_addresses, free_quiescent_regions, live_addresses, part_regions, reclaim,
    retire, Quarantine, Quiescent, RetiredRegion,
};
use neohook::reentrancy::ReentrancyGuard;
use neohook::symbols::{
    image_name, module_basename_no_ext, resolve_symbol, SymbolState, SymbolStep,
};
use neohook::threads::{ThreadEntry, ThreadEnumerator};
use neohook::trace::{
    clear_sink, emit, format_values, raw_arg_values, raw_args_text, record, record_raw, set_sink,
    Delivery, TraceRecord, TraceSink,
};
use neohook::trace_x86;
use neohook::transaction::Hook;
use neohook::vtable::VTableHook;
use neohook::watchdog::{GuardId, Sweep, SweepStep, WatchMode, Watchdog, WatchdogError};

fn slot_hook(slot: u64) -> Hook {
    Hook::Vtable(VTableHook {
        slot,
        original_ptr: 0x10,
        detour: 0x20,
        active: true,
        enabled: true,
    })
}

// ----- Control Flow Guard -----

#[test]
fn override_controls_is_enforced() {
    let mut state = Enforcement::new();
    set_enforcement(&mut state, Some(true));
    assert!(is_enforced(&mut state, None), "forced-on override should report enforced");

    set_enforcement(&mut state, Some(false));
    assert!(
        !is_enforced(&mut state, None),
        "forced-off override should report not enforced"
    );

    set_enforcement(&mut state, None);
}

#[test]
fn register_null_target_is_false() {
    let mut state = Enforcement::new();
    set_enforcement(&mut state, Some(false));
    assert!(register_valid_target(&mut state, Some(1), 0).is_none());
    set_enforcement(&mut state, Some(true));
    assert!(register_valid_target(&mut state, Some(1), 0).is_none());
}

#[test]
fn register_is_noop_when_disabled() {
    let mut state = Enforcement::new();
    set_enforcement(&mut state, Some(false));
    assert!(
        register_valid_target(&mut state, Some(1), 0x7ff6_0000_1230).is_none(),
        "registration must be skipped when CFG handling is off"
    );
}

#[test]
fn register_succeeds_when_forced_on() {
    let mut state = Enforcement::new();
    set_enforcement(&mut state, Some(true));
    let region = 0x7ff6_0000_0000u64;
    assert_ne!(region, 0, "region allocation failed");
    let target = register_valid_target(&mut state, None, region);
    assert_eq!(
        target,
        Some(CallTarget { base: region, region_size: PAGE_SIZE, offset: 0, flags: 1 })
    );
    set_enforcement(&mut state, None);
    assert!(state.needs_detection());
}

#[test]
fn detection_is_asked_once() {
    let mut state = Enforcement::new();
    assert!(state.needs_detection());
    assert!(is_enforced(&mut state, Some(0x8001)));
    assert!(!state.needs_detection());
    assert!(is_enforced(&mut state, Some(0)), "the first answer stays");

    let mut state = Enforcement::new();
    assert!(!is_enforced(&mut state, Some(0x8000)));
    let mut state = Enforcement::new();
    assert!(!is_enforced(&mut state, None));
}

#[test]
fn a_target_is_announced_by_its_page() {
    let mut state = Enforcement::new();
    set_enforcement(&mut state, Some(true));
    assert_eq!(
        register_valid_target(&mut state, None, 0x7ff6_0000_1230),
        Some(CallTarget {
            base: 0x7ff6_0000_1000,
            region_size: PAGE_SIZE,
            offset: 0x230,
            flags: 1,
        })
    );
}

// ----- Delayed hooks -----

#[test]
fn register_rejects_invalid_parameters() {
    let mut manager = DelayManager::new();
    assert!(matches!(
        DelayHook::register(&mut manager, "winmm.dll", "timeGetTime", 0, Some(slot_hook(1))),
        Err(DelayHookError::InvalidParameter)
    ));
    assert!(matches!(
        DelayHook::register(&mut manager, "", "timeGetTime", 0x5000, Some(slot_hook(1))),
        Err(DelayHookError::InvalidParameter)
    ));
    assert!(matches!(
        DelayHook::register(&mut manager, "winmm.dll", "", 0x5000, Some(slot_hook(1))),
        Err(DelayHookError::InvalidParameter)
    ));
    assert_eq!(
        DelayHook::needs_ldr_hook(&manager, "", "timeGetTime", 0x5000),
        Err(DelayHookError::InvalidParameter)
    );
    assert_eq!(
        DelayHookError::InvalidParameter.to_string(),
        "invalid delay-hook parameters"
    );
}

#[test]
fn installs_when_module_is_loaded_later() {
    let mut manager = DelayManager::new();
    assert_eq!(
        DelayHook::needs_ldr_hook(&manager, "WinMM.dll", "timeGetTime", 0x5000),
        Ok(true)
    );
    let hook = DelayHook::register(
        &mut manager,
        "WinMM.dll",
        "timeGetTime",
        0x5000,
        Some(slot_hook(1)),
    )
    .expect("register should succeed");
    assert_eq!(manager.pending[0].module, "winmm.dll");
    assert_eq!(manager.pending[0].func, "timeGetTime");
    assert!(!hook.is_active(&manager));

    let other = DelayHook::register(&mut manager, "b.dll", "f", 0x6000, None).unwrap();
    let at = manager.next_unresolved(0).unwrap();
    assert_eq!(at, 0);
    manager.install_ready_pending(
        at,
        Some(Int3Hook {
            target: 0x9000,
            detour: 0x5000,
            original_byte: 0x55,
            slot: 0,
            active: true,
            gateway: None,
        }),
    );
    assert!(hook.is_active(&manager), "the hook should be active after the module is loaded");
    assert!(!other.is_active(&manager));
    assert_eq!(manager.next_unresolved(0), Some(1));

    let removal = hook.unhook(&mut manager).unwrap();
    assert_eq!(removal.hook.unwrap().target, 0x9000);
    assert!(removal.ldr_hook.is_none(), "a request is left");
    let removal = other.unhook(&mut manager).unwrap();
    assert!(removal.hook.is_none());
    assert!(removal.ldr_hook.is_some(), "the loader is unhooked with the last request");
    assert!(manager.ldr_hook.is_none());
}

#[test]
fn a_loader_that_cannot_be_hooked_is_reported() {
    let mut manager = DelayManager::new();
    let error = DelayHook::register(&mut manager, "a.dll", "f", 0x5000, None).unwrap_err();
    assert_eq!(error, DelayHookError::LdrHookFailed);
    assert_eq!(error.to_string(), "failed to hook ntdll!LdrLoadDll");
    assert!(manager.pending.is_empty());
}

// ----- Reclaiming -----

#[test]
fn retire_then_reclaim_frees_idle_region() {
    let mut quarantine = Quarantine::new();
    retire(&mut quarantine, 0x1_0000, 0x1000);
    let regions = reclaim(&mut quarantine, true);
    assert!(quarantine.regions.is_empty());
    let live = live_addresses(&[ThreadState {
        ip: 0x5_0000,
        sp: 0x9000,
        stack: vec![0x5_0010, 0x1_1000],
    }]);
    let parted = free_quiescent_regions(Arch::X64, &regions, &live);
    assert_eq!(
        parted.freed,
        vec![RetiredRegion { base: 0x1_0000, size: 0x1000 }],
        "an idle retired region should be released by reclaim"
    );
    assert!(parted.busy.is_empty());
}

#[test]
fn a_region_with_a_thread_inside_stays() {
    let mut quarantine = Quarantine::new();
    retire(&mut quarantine, 0, 0x1000);
    retire(&mut quarantine, 0x1_0000, 0);
    retire(&mut quarantine, 0x1_0000, 0x1000);
    retire(&mut quarantine, 0x2_0000, 0x1000);
    retire(&mut quarantine, 0x3_0000, 0x1000);
    assert_eq!(quarantine.regions.len(), 3);

    assert!(reclaim(&mut quarantine, false).is_empty());
    assert_eq!(quarantine.regions.len(), 3, "without the lock nothing is looked at");

    let regions = reclaim(&mut quarantine, true);
    let live = live_addresses(&[
        ThreadState { ip: 0x1_0fff, sp: 0, stack: vec![] },
        ThreadState { ip: 0x9_0000, sp: 0x100, stack: vec![7, 0x2_0000] },
    ]);
    assert_eq!(live, vec![0x1_0fff, 0x9_0000, 7, 0x2_0000]);
    let parted = free_quiescent_regions(Arch::X64, &regions, &live);
    assert_eq!(parted.freed, vec![RetiredRegion { base: 0x3_0000, size: 0x1000 }]);
    quarantine.keep(parted.busy);
    assert_eq!(
        quarantine.regions,
        vec![
            RetiredRegion { base: 0x1_0000, size: 0x1000 },
            RetiredRegion { base: 0x2_0000, size: 0x1000 },
        ]
    );
}

#[test]
fn regions_are_parted_into_memory_that_is_there() {
    let regions: Vec<RetiredRegion> =
        (1..=3).map(|i| RetiredRegion { base: i * 0x1_0000, size: 0x1000 }).collect();
    let mut parted = Quiescent::with_room(regions.len());
    let mut live: Vec<u64> = Vec::with_capacity(2);
    let state = ThreadState { ip: 0x2_0800, sp: 0, stack: vec![0x2_1000] };
    let (freed, busy) = (parted.freed.as_ptr(), parted.busy.as_ptr());
    let addresses = live.as_ptr();
    collect_thread_addresses(&state, &mut live);
    part_regions(Arch::X64, &regions, &live, &mut parted);
    assert_eq!(live, vec![0x2_0800, 0x2_1000]);
    assert_eq!(parted.freed, vec![regions[0], regions[2]]);
    assert_eq!(parted.busy, vec![regions[1]]);
    assert_eq!((parted.freed.as_ptr(), parted.busy.as_ptr()), (freed, busy));
    assert_eq!(live.as_ptr(), addresses);
    assert!(parted.place(Arch::X64, regions[0], &[0x2_0000]));
    assert!(!parted.place(Arch::X64, regions[0], &[0x1_0fff]));
}

// ----- Reentrancy -----

#[test]
fn only_the_outermost_entry_gets_a_guard() {
    let mut entered = false;
    let guard = ReentrancyGuard::enter(&mut entered).expect("outermost entry");
    assert!(ReentrancyGuard::enter(&mut entered).is_none());
    guard.leave(&mut entered);
    assert!(ReentrancyGuard::enter(&mut entered).is_some());
}

// ----- Symbols -----

#[test]
fn basename_strips_path_and_extension() {
    assert_eq!(module_basename_no_ext("kernel32.dll"), "kernel32");
    assert_eq!(
        module_basename_no_ext("C:\\Windows\\System32\\ntdll.dll"),
        "ntdll"
    );
    assert_eq!(module_basename_no_ext("no_extension"), "no_extension");
    assert_eq!(module_basename_no_ext("a.b/c.d.e"), "c.d");
    assert_eq!(module_basename_no_ext("dir.x\\"), "");
}

#[test]
fn empty_inputs_return_none() {
    let state = SymbolState::new();
    assert!(matches!(
        resolve_symbol(&state, "", "GetProcAddress").step(),
        SymbolStep::Done(None)
    ));
    assert!(matches!(
        resolve_symbol(&state, "kernel32.dll", "").step(),
        SymbolStep::Done(None)
    ));
}

#[test]
fn a_symbol_is_looked_up_by_module_and_name() {
    let mut state = SymbolState::new();
    let mut search = resolve_symbol(&state, "C:\\win\\ntdll.dll", "LdrpInit");
    assert!(matches!(search.step(), SymbolStep::Initialize));
    search.initialized(&mut state, true);
    assert!(matches!(search.step(), SymbolStep::LocateModule));
    search.located(&state, Some(0x7000));
    assert!(matches!(search.step(), SymbolStep::LoadSymbols { base: 0x7000 }));
    search.loaded(&mut state);
    match search.step() {
        SymbolStep::LookUp(name) => assert_eq!(name, "ntdll!LdrpInit"),
        other => panic!("unexpected {other:?}"),
    }
    search.looked_up(Some(0x7123));
    assert!(matches!(search.step(), SymbolStep::Done(Some(0x7123))));

    // The symbols of a module are loaded once.
    let mut search = resolve_symbol(&state, "ntdll.dll", "Other");
    assert!(matches!(search.step(), SymbolStep::LocateModule));
    search.located(&state, Some(0x7000));
    assert!(matches!(search.step(), SymbolStep::LookUp(_)));
    search.looked_up(Some(0));
    assert!(matches!(search.step(), SymbolStep::Done(None)));
    assert_eq!(state.loaded, vec![0x7000]);
}

#[test]
fn unknown_symbol_returns_none() {
    let mut state = SymbolState::new();
    let mut search = resolve_symbol(&state, "kernel32.dll", "DefinitelyNotASymbol_zzz_123");
    search.initialized(&mut state, true);
    search.located(&state, Some(0x7000));
    search.loaded(&mut state);
    search.looked_up(None);
    assert!(matches!(search.step(), SymbolStep::Done(None)));
}

#[test]
fn missing_module_returns_none() {
    let mut state = SymbolState::new();
    let mut search = resolve_symbol(&state, "fantasy_dll_999.dll", "Whatever");
    search.initialized(&mut state, true);
    search.located(&state, None);
    assert!(matches!(search.step(), SymbolStep::Done(None)));

    let mut state = SymbolState::new();
    let mut search = resolve_symbol(&state, "a.dll", "b");
    search.initialized(&mut state, false);
    assert!(matches!(search.step(), SymbolStep::Done(None)));
    assert!(!state.initialized);
}

#[test]
fn the_image_name_falls_back_to_the_module() {
    assert_eq!(image_name(&[7, 8, 0, 0], 2, &[1, 2]), vec![7, 8, 0]);
    assert_eq!(image_name(&[7, 8, 9, 9], 4, &[1, 2]), vec![1, 2, 0]);
    assert_eq!(image_name(&[0, 0], 0, &[1, 2]), vec![1, 2, 0]);
}

// ----- Threads -----

#[test]
fn enumerate_process_thread_ids_finds_spawned_threads() {
    let mut entries = Vec::new();
    for id in 1..=11 {
        entries.push(ThreadEntry { thread_id: id, owner_process_id: 42 });
        entries.push(ThreadEntry { thread_id: 100 + id, owner_process_id: 7 });
    }
    let ids = ThreadEnumerator::enumerate_process_threads(&entries, 42, 1);
    assert!(
        ids.len() >= 10,
        "expected to find at least the spawned worker threads, found {}",
        ids.len()
    );
    assert_eq!(ids, vec![2, 3, 4, 5, 6, 7, 8, 9, 10, 11]);
}

// ----- Tracing -----

fn captured(record: &TraceRecord) -> String {
    format!("{}({}) -> {}", record.function, record.args, record.ret)
}

#[test]
fn emit_routes_to_the_installed_sink() {
    let mut sink = TraceSink { address: 0 };
    set_sink(&mut sink, 0xABC);

    let mut lines = Vec::new();
    for record in [record("add", "2, 3", "5", 9), record("noop", "", "()", 9)] {
        match emit(&sink, &record) {
            Delivery::Sink(0xABC) => lines.push(captured(&record)),
            other => panic!("unexpected {other:?}"),
        }
    }
    clear_sink(&mut sink);
    assert_eq!(lines, vec!["add(2, 3) -> 5", "noop() -> ()"]);
}

#[test]
fn emit_uses_the_default_sink_when_cleared() {
    let mut sink = TraceSink { address: 5 };
    clear_sink(&mut sink);
    match emit(&sink, &record("lonely", "1", "1", 77)) {
        Delivery::Line(line) => {
            assert_eq!(line, "[neohook::trace] (tid 77) lonely(1) -> 1")
        }
        other => panic!("unexpected {other:?}"),
    }
}

#[test]
fn raw_records_show_the_argument_registers() {
    let context = HookContext {
        rflags: 0,
        rax: 0,
        rcx: 0x10,
        rdx: 0xABCD,
        rbx: 0,
        rbp: 0,
        rsi: 0,
        rdi: 0,
        r8: 0,
        r9: u64::MAX,
        r10: 0,
        r11: 0,
        r12: 0,
        r13: 0,
        r14: 0,
        r15: 0,
        mxcsr: 0,
        _reserved: 0,
        xmm: [Xmm { low: 0, high: 0 }; 16],
    };
    assert_eq!(raw_arg_values(&context, 2), vec![0x10, 0xABCD]);
    assert_eq!(raw_arg_values(&context, 9), vec![0x10, 0xABCD, 0, u64::MAX]);
    assert_eq!(raw_args_text(&context, 2), "0x10, 0xabcd");
    assert_eq!(raw_args_text(&context, 0), "");
    assert_eq!(raw_args_text(&context, 9), "0x10, 0xabcd, 0x0, 0xffffffffffffffff");
    let args = raw_args_text(&context, 4);
    assert_eq!(args, "0x10, 0xabcd, 0x0, 0xffffffffffffffff");
    let entry = record_raw("f", &context, 4, 3);
    assert_eq!(captured(&entry.record()), "f(0x10, 0xabcd, 0x0, 0xffffffffffffffff) -> <entry>");
    assert_eq!(entry.record().thread_id, 3);
    assert_eq!(captured(&record_raw("g", &context, 1, 3).record()), "g(0x10) -> <entry>");
    assert_eq!(captured(&record_raw("g", &context, 0, 3).record()), "g() -> <entry>");
    assert_eq!(format_values(&[]), "");

    let context = midhook_x86::HookContext {
        eflags: 0,
        edi: 6,
        esi: 5,
        ebp: 0,
        esp: 0,
        ebx: 4,
        edx: 3,
        ecx: 2,
        eax: 1,
        mxcsr: 0,
        xmm: [Xmm { low: 0, high: 0 }; 8],
    };
    assert_eq!(trace_x86::raw_arg_values(&context, 8), vec![1, 2, 3, 4, 5, 6]);
    assert_eq!(trace_x86::raw_arg_values(&context, 1), vec![1]);
    assert_eq!(trace_x86::raw_args_text(&context, 2), "0x1, 0x2");
    let entry = trace_x86::record_raw("h", &context, 3, 9);
    assert_eq!(captured(&entry.record()), "h(0x1, 0x2, 0x3) -> <entry>");
    assert_eq!(entry.thread_id, 9);
    assert_eq!(trace_x86::raw_args_text(&context, 8), "0x1, 0x2, 0x3, 0x4, 0x5, 0x6");
}

// ----- The watchdog -----

fn run_sweep(watchdog: &mut Watchdog, memory: &mut [u8]) -> Sweep {
    let mut sweep = watchdog.sweep();
    while let Some((target, len)) = sweep.region(watchdog) {
        let at = target as usize;
        let found = memory[at..at + len].to_vec();
        if let SweepStep::Rewrite(write) = sweep.examine(watchdog, &found) {
            memory[write.address as usize..write.address as usize + write.bytes.len()]
                .copy_from_slice(&write.bytes);
            sweep.rewritten(watchdog, &found, true);
        }
    }
    sweep
}

#[test]
fn restore_mode_rewrites_tampered_bytes_and_fires_callback() {
    let mut memory = vec![0u8; 32];
    let patched = [0xE9u8, 0x11, 0x22, 0x33, 0x44];
    memory[8..13].copy_from_slice(&patched);

    let mut wd = Watchdog::with_interval(10_000_000);
    let id = wd.guard(8, &patched).expect("guard");
    assert_eq!(wd.mode(), WatchMode::Restore, "default mode is Restore");
    assert_eq!(wd.guarded(), 1);

    memory[8..13].copy_from_slice(&[0x90; 5]);
    let sweep = run_sweep(&mut wd, &mut memory);
    assert_eq!(memory[8..13], patched, "Restore mode should re-apply the patched bytes");
    assert_eq!(wd.restorations(), 1, "a restoration should be counted");
    assert_eq!(sweep.hits.len(), 1, "the tamper callback should have fired");
    let event = sweep.hits[0].event();
    assert_eq!(event.guard_id, id);
    assert_eq!(event.target, 8);
    assert_eq!(event.expected, &patched);
    assert_eq!(event.found, &[0x90; 5]);
    assert!(event.restored, "callback should observe restored=true in Restore mode");

    assert!(wd.unguard(id));
    assert!(!wd.unguard(id));
    memory[8..13].copy_from_slice(&[0xCC; 5]);
    run_sweep(&mut wd, &mut memory);
    assert_eq!(memory[8..13], [0xCC; 5], "unguarded region must not be touched");
    assert_eq!(wd.restorations(), 1, "no restorations after unguard");
}

#[test]
fn detect_only_reports_without_rewriting() {
    let mut memory = vec![0u8; 32];
    let patched = [0xE9u8, 0x55, 0x66, 0x77, 0x88];
    memory[8..13].copy_from_slice(&patched);

    let mut wd = Watchdog::with_interval(10_000_000);
    wd.set_mode(WatchMode::DetectOnly);
    wd.guard(8, &patched).expect("guard");
    assert_eq!(wd.mode(), WatchMode::DetectOnly);

    let tampered = [0x90u8; 5];
    memory[8..13].copy_from_slice(&tampered);
    let mut fired = 0;
    for _ in 0..4 {
        let sweep = run_sweep(&mut wd, &mut memory);
        for hit in &sweep.hits {
            assert!(!hit.event().restored, "DetectOnly must never restore");
            fired += 1;
        }
    }
    assert_eq!(memory[8..13], tampered, "DetectOnly must not rewrite bytes");
    assert_eq!(wd.restorations(), 0, "DetectOnly never restores");
    assert_eq!(fired, 1, "callback fires once per tamper episode, not every sweep");

    memory[8..13].copy_from_slice(&patched);
    assert!(run_sweep(&mut wd, &mut memory).hits.is_empty());
    memory[8..13].copy_from_slice(&tampered);
    assert_eq!(run_sweep(&mut wd, &mut memory).hits.len(), 1, "a new episode");
}

#[test]
fn a_failed_rewrite_is_reported_as_such() {
    let mut wd = Watchdog::with_interval(1);
    wd.guard_bytes(8, &[1, 2]).unwrap();
    let mut sweep = wd.sweep();
    assert!(matches!(sweep.examine(&mut wd, &[3, 4]), SweepStep::Rewrite(_)));
    sweep.rewritten(&mut wd, &[3, 4], false);
    assert_eq!(wd.restorations(), 0);
    assert!(!sweep.hits[0].restored);
    assert!(wd.regions[0].tampered);
}

#[test]
fn guard_rejects_invalid_input() {
    let mut wd = Watchdog::with_interval(50_000_000);
    assert_eq!(wd.guard(0, &[1, 2, 3, 4]), Err(WatchdogError::InvalidParameter));
    assert_eq!(wd.guard(8, &[]), Err(WatchdogError::InvalidParameter));
    assert_eq!(wd.guard_bytes(0, &[1]), Err(WatchdogError::InvalidParameter));
    assert_eq!(
        WatchdogError::InvalidParameter.to_string(),
        "invalid watchdog region (null target or zero len)"
    );
}

#[test]
fn guard_bytes_uses_the_supplied_image() {
    let mut memory = vec![0u8; 16];
    let mut wd = Watchdog::with_interval(0);
    assert_eq!(wd.interval, 1_000_000, "an interval of zero is a millisecond");
    let want = [0xAAu8, 0xBB, 0xCC];
    wd.guard_bytes(4, &want).expect("guard_bytes");
    run_sweep(&mut wd, &mut memory);
    assert_eq!(memory[4..7], want, "watchdog should enforce the supplied image");
}

#[test]
fn guard_id_round_trips_through_raw() {
    let id = GuardId::from_raw(42);
    assert_eq!(id.raw(), 42);
}

#[test]
fn modes_have_numbers() {
    assert_eq!(WatchMode::Restore.as_u8(), 0);
    assert_eq!(WatchMode::DetectOnly.as_u8(), 1);
    assert_eq!(WatchMode::from_u8(0), WatchMode::Restore);
    assert_eq!(WatchMode::from_u8(9), WatchMode::DetectOnly);
    assert_eq!(WatchMode::default(), WatchMode::Restore);
}

#[test]
fn unguarding_keeps_the_other_regions() {
    let mut wd = Watchdog::with_interval(1);
    let a = wd.guard(1, &[1]).unwrap();
    let b = wd.guard(2, &[2]).unwrap();
    let c = wd.guard(3, &[3]).unwrap();
    assert_eq!((a.raw(), b.raw(), c.raw()), (1, 2, 3));
    assert!(wd.unguard(b));
    assert_eq!(wd.regions.iter().map(|r| r.target).collect::<Vec<_>>(), vec![1, 3]);
    let d = wd.guard(4, &[4]).unwrap();
    assert_eq!(d.raw(), 4, "numbers are not used again");
}
