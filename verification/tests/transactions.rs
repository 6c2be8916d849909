use std::collections::HashMap;

use neohook::api::{resolve_pattern, DetourTransaction};
use neohook::arch::Arch;
use neohook::code::detour_code_from_pointer;
use neohook::eat::InstalledEat;
use neohook::export_sweep::{SweepOutcome, Stats};
use neohook::hook::{HookOutcome, HookWrite};
use neohook::introspect::enumerate_exports;
use neohook::inline::{
    read_managed_gateway_target, write_managed_gateway_stub, JumpType, ThreadState,
};
use neohook::mem::{CodeWrite, CodeWriteOutcome, OsError, SlotWrite, WriteEvent, WriteStep};
use neohook::memory::{
    MemoryMap, MemoryRegion, MEM_COMMIT, PAGE_EXECUTE_READ, PAGE_READWRITE,
};
use neohook::nearby::Trampoline;
use neohook::registry::{self, Registry};
use neohook::scan::FoundModule;
use neohook::transaction::{
    CommitStep, GatewayRegistry, Hook, IatHook, InlineHook, PendingHook, TransactionCore, UndoStep,
};
use neohook::vtable::{VTableHook, VTableHookError, VTableInstanceHook};
use neohook::{DetourError, HookKind};

const CODE: u64 = 0x1_4000_0000;
const DATA: u64 = 0x1_5000_0000;
const FAR: u64 = 0x7ff9_0000_0000;
const CLONES: u64 = DATA + 0x800;

/// A process in memory: a page of code, a page of data, and trampolines.
struct Process {
    pages: HashMap<u64, Vec<u8>>,
}

impl Process {
    fn new() -> Process {
        let mut pages = HashMap::new();
        let mut code = vec![0x90u8; 0x1000];
        code[0..4].copy_from_slice(&[0x48, 0x83, 0xEC, 0x28]);
        code[0x100..0x105].copy_from_slice(&[0x55, 0x48, 0x89, 0xE5, 0x90]);
        pages.insert(CODE, code);
        pages.insert(DATA, vec![0u8; 0x1000]);
        pages.insert(CODE + 0x10_0000, vec![0u8; 0x1000]);
        Process { pages }
    }

    fn map(&self) -> MemoryMap {
        let mut regions: Vec<MemoryRegion> = self
            .pages
            .iter()
            .map(|(base, bytes)| MemoryRegion {
                base: *base,
                size: bytes.len() as u64,
                state: MEM_COMMIT,
                protect: if *base == DATA { PAGE_READWRITE } else { PAGE_EXECUTE_READ },
                bytes: bytes.clone(),
            })
            .collect();
        regions.sort_by_key(|region| region.base);
        MemoryMap { regions }
    }

    fn place(&mut self, address: u64) -> &mut [u8] {
        for (base, bytes) in self.pages.iter_mut() {
            if *base <= address && address < *base + bytes.len() as u64 {
                let at = (address - *base) as usize;
                return &mut bytes[at..];
            }
        }
        panic!("{address:#x} is not mapped");
    }

    fn read(&mut self, address: u64, len: usize) -> Vec<u8> {
        self.place(address)[..len].to_vec()
    }

    fn pointer(&mut self, address: u64) -> u64 {
        u64::from_le_bytes(self.read(address, 8).try_into().unwrap())
    }

    fn write(&mut self, write: &CodeWrite) {
        self.place(write.address)[..write.bytes.len()].copy_from_slice(&write.bytes);
    }

    fn run_slot(&mut self, write: &mut SlotWrite) {
        loop {
            let event = match write.step() {
                WriteStep::Query { .. } => WriteEvent::Queried(Ok(PAGE_READWRITE)),
                WriteStep::Protect { .. } => WriteEvent::Protected(Ok(PAGE_READWRITE)),
                WriteStep::Load { address, len } => {
                    let mut bytes = self.read(address, len as usize);
                    bytes.resize(8, 0);
                    WriteEvent::Loaded(u64::from_le_bytes(bytes.try_into().unwrap()))
                }
                WriteStep::Store { address, len, value } => {
                    let bytes = value.to_le_bytes();
                    self.place(address)[..len as usize].copy_from_slice(&bytes[..len as usize]);
                    WriteEvent::Stored
                }
                WriteStep::Done => return,
            };
            write.advance(event);
        }
    }

    fn perform(&mut self, write: HookWrite) -> HookOutcome {
        match write {
            HookWrite::Code(edit) => {
                self.write(&edit);
                HookOutcome::Code(CodeWriteOutcome { written: true, flushed: true, restored: true })
            }
            HookWrite::Slot(mut edit) => {
                self.run_slot(&mut edit);
                HookOutcome::Slot(edit.outcome())
            }
        }
    }

    fn unhook(&mut self, hook: &mut Hook, gateways: &mut GatewayRegistry) {
        let write = hook.perform_unhook(Arch::X64, &[]).unwrap();
        let outcome = self.perform(write);
        hook.unhook(gateways, outcome).unwrap();
    }

    fn hook_instance(
        &mut self,
        object: u64,
        len: usize,
        index: usize,
        detour: u64,
        clone: Option<u64>,
    ) -> Result<VTableInstanceHook, VTableHookError> {
        let table = self.pointer(object);
        VTableInstanceHook::validate(object, table, len, index, detour)?;
        let entries = (0..len as u64).map(|i| self.pointer(table + 8 * i)).collect();
        let cloned = VTableInstanceHook::prepare(object, table, entries, index, detour)?;
        let mut write = VTableInstanceHook::redirect(Arch::X64, &cloned, clone)?;
        for (at, entry) in cloned.entries.iter().enumerate() {
            let place = self.place(write.value + 8 * at as u64);
            place[..8].copy_from_slice(&entry.to_le_bytes());
        }
        self.run_slot(&mut write);
        VTableInstanceHook::install(&cloned, write)
    }

    /// Commits; `fail_at` makes the step with that number fail.
    fn commit(
        &mut self,
        transaction: &mut DetourTransaction,
        gateways: &mut GatewayRegistry,
        installed_before: &mut [Hook],
        threads: &mut HashMap<u64, ThreadState>,
        fail_at: Option<usize>,
    ) -> Result<(Vec<Hook>, Vec<usize>), DetourError> {
        let mut run = transaction.commit()?;
        let mut number = 0;
        loop {
            let core = transaction.inner.as_mut().unwrap();
            let fails = fail_at == Some(number);
            let result = match run.step(core) {
                CommitStep::InspectThread { thread } => {
                    let state = &threads[&thread];
                    let copy = ThreadState { ip: state.ip, sp: state.sp, stack: state.stack.clone() };
                    core.thread_inspected(&mut run, Some(copy))
                }
                CommitStep::RedirectThread { thread } => {
                    let change = run.redirect.as_ref().unwrap();
                    let state = threads.get_mut(&thread).unwrap();
                    if let Some(ip) = change.ip {
                        state.ip = ip;
                    }
                    for slot in &change.stack {
                        let at = ((slot.address - state.sp) / 8) as usize;
                        state.stack[at] = slot.new;
                    }
                    core.thread_redirected(&mut run, true)
                }
                CommitStep::Patch => {
                    let patch = run.patch(core);
                    if !fails {
                        self.write(&patch);
                    }
                    core.apply_inline_hook(&mut run, gateways, !fails)
                }
                CommitStep::HookSlot => {
                    let (vtable, index, detour) = match &run.queue[0] {
                        PendingHook::Vtable { vtable, index, detour } => (*vtable, *index, *detour),
                        other => panic!("unexpected {other:?}"),
                    };
                    let outcome = if fails {
                        Err(VTableHookError::InvalidParameter)
                    } else {
                        let mut write =
                            VTableHook::prepare(Arch::X64, vtable, index, detour).unwrap();
                        self.run_slot(&mut write);
                        VTableHook::install(write)
                    };
                    core.slot_hooked(&mut run, outcome)
                }
                CommitStep::HookInstance => {
                    let (object, len, index, detour) = match &run.queue[0] {
                        PendingHook::VtableInstance { object_vptr, vtable_len, index, detour } => {
                            (*object_vptr, *vtable_len, *index, *detour)
                        }
                        other => panic!("unexpected {other:?}"),
                    };
                    let room = if fails { None } else { Some(CLONES + 0x100 * number as u64) };
                    let outcome = self.hook_instance(object, len, index, detour, room);
                    core.instance_hooked(&mut run, outcome)
                }
                CommitStep::Detach { handle } => {
                    let hook = &mut installed_before[handle];
                    let outcome = match hook.toggle_write(Arch::X64, false) {
                        Some(write) => {
                            let outcome = self.perform(write);
                            hook.disable(outcome)
                        }
                        None => Ok(()),
                    };
                    core.detached(&mut run, outcome)
                }
                CommitStep::Finish => {
                    let done = transaction.finish(run);
                    assert!(done.resume.len() == threads.len());
                    return Ok((done.hooks, done.detached));
                }
                other => panic!("unexpected {other:?}"),
            };
            if let Err(error) = result {
                let mut undo = transaction.rollback(run, error);
                for (thread, ip) in &undo.threads {
                    threads.get_mut(thread).unwrap().ip = *ip;
                }
                for (thread, address, value) in &undo.stacks {
                    let state = threads.get_mut(thread).unwrap();
                    let at = ((address - state.sp) / 8) as usize;
                    state.stack[at] = *value;
                }
                while let Some(step) = undo.next() {
                    match step {
                        UndoStep::Unhook(mut hook) => self.unhook(&mut hook, gateways),
                        UndoStep::Enable { handle } => {
                            let hook = &mut installed_before[handle];
                            if let Some(write) = hook.toggle_write(Arch::X64, true) {
                                let outcome = self.perform(write);
                                hook.enable(outcome).unwrap();
                            }
                        }
                    }
                }
                return Err(undo.into_error());
            }
            number += 1;
        }
    }
}

fn attach(
    process: &mut Process,
    transaction: &mut DetourTransaction,
    gateways: &GatewayRegistry,
    target: u64,
    detour: u64,
    trampoline: u64,
) -> u64 {
    let attached = transaction
        .attach(&process.map(), gateways, target, detour, Some(trampoline))
        .expect("attach");
    process.write(&attached.write);
    attached.gateway
}

fn install_one(
    process: &mut Process,
    gateways: &mut GatewayRegistry,
    target: u64,
    detour: u64,
    trampoline: u64,
) -> Hook {
    let mut tx = DetourTransaction::begin(Arch::X64);
    attach(process, &mut tx, gateways, target, detour, trampoline);
    let (mut hooks, _) = process
        .commit(&mut tx, gateways, &mut [], &mut HashMap::new(), None)
        .expect("commit");
    hooks.remove(0)
}

#[test]
fn a_patched_target_leads_to_the_detour_and_comes_back() {
    let mut process = Process::new();
    let before = process.read(CODE, 32);
    let mut gateways = GatewayRegistry::new();
    let mut hook = install_one(&mut process, &mut gateways, CODE, CODE + 0x800, CODE + 0x10_0000);

    assert_eq!(&process.read(CODE, 5), &[0xE9, 0xFB, 0x07, 0x00, 0x00]);
    assert_eq!(
        detour_code_from_pointer(Arch::X64, &process.map(), CODE),
        CODE + 0x800
    );
    assert_eq!(hook.original_ptr(), CODE + 0x10_0000);
    assert!(hook.is_enabled());
    assert!(gateways.is_managed_gateway(CODE + 0x10_0000));

    process.unhook(&mut hook, &mut gateways);
    assert_eq!(process.read(CODE, 32), before);
    assert!(!gateways.is_managed_gateway(CODE + 0x10_0000));
}

#[test]
fn a_far_detour_is_reached_by_an_absolute_jump() {
    let mut process = Process::new();
    let mut gateways = GatewayRegistry::new();
    let hook = install_one(&mut process, &mut gateways, CODE + 0x200, FAR, CODE + 0x10_0000);
    match &hook {
        Hook::Inline(inline) => assert_eq!(inline.jump_type, JumpType::Absolute14),
        other => panic!("unexpected {other:?}"),
    }
    let mut jump = vec![0xFF, 0x25, 0, 0, 0, 0];
    jump.extend_from_slice(&FAR.to_le_bytes());
    assert_eq!(process.read(CODE + 0x200, 14), jump);
    assert_eq!(detour_code_from_pointer(Arch::X64, &process.map(), CODE + 0x200), FAR);
}

#[test]
fn a_gateway_can_be_hooked_again() {
    let mut process = Process::new();
    let mut gateways = GatewayRegistry::new();
    let first = CODE + 0x10_0000;
    let second = CODE + 0x10_0800;
    install_one(&mut process, &mut gateways, CODE, CODE + 0x800, first);
    let stub = process.read(first, 14);
    let body = read_managed_gateway_target(Arch::X64, first, &stub).unwrap();
    assert_eq!(body, first + 14);

    let mut hook = install_one(&mut process, &mut gateways, first, CODE + 0x900, second);
    assert!(!gateways.is_managed_gateway(first));
    assert!(gateways.is_managed_gateway(second));
    let moved = process.read(second, 14);
    assert_eq!(read_managed_gateway_target(Arch::X64, second, &moved), Some(body));

    process.unhook(&mut hook, &mut gateways);
    assert_eq!(process.read(first, 14), stub);
    assert!(gateways.is_managed_gateway(first));
}

#[test]
fn gateway_stubs_read_back() {
    for (arch, at, to) in [(Arch::X64, 0x1000, FAR), (Arch::X86, 0x40_0000, 0x12_3456)] {
        let stub = write_managed_gateway_stub(arch, at, to);
        assert_eq!(read_managed_gateway_target(arch, at, &stub), Some(to));
    }
    assert_eq!(read_managed_gateway_target(Arch::X64, 0x1000, &[0x90; 14]), None);
}

#[test]
fn attaching_reports_each_error() {
    let process = Process::new();
    let map = process.map();
    let gateways = GatewayRegistry::new();
    let mut tx = DetourTransaction::begin(Arch::X64);
    assert!(matches!(
        tx.attach(&map, &gateways, 0, CODE, Some(1)),
        Err(DetourError::InvalidParameter)
    ));
    assert!(matches!(
        tx.attach(&map, &gateways, CODE, 0, Some(1)),
        Err(DetourError::InvalidParameter)
    ));
    assert!(matches!(
        tx.attach(&map, &gateways, 0x5000, CODE, Some(1)),
        Err(DetourError::InvalidParameter)
    ));
    assert!(matches!(
        tx.attach(&map, &gateways, CODE, CODE + 0x800, None),
        Err(DetourError::AllocationFailed)
    ));
    assert!(matches!(
        tx.attach_vtable(&map, 0, 0, CODE),
        Err(DetourError::InvalidParameter)
    ));
    assert!(matches!(
        tx.attach_vtable_instance(&map, DATA, 3, 3, CODE),
        Err(DetourError::InvalidParameter)
    ));
    assert!(matches!(
        tx.attach_iat(&map, &[], 0x5000, "a.dll", "f", CODE),
        Err(DetourError::InvalidParameter)
    ));
    assert!(matches!(tx.attach_eat(&[], DATA, "f", CODE), Err(DetourError::Eat(_))));
    assert_eq!(tx.inner.as_ref().unwrap().pending_hooks.len(), 0);

    assert!(tx.abort().is_empty());
    assert!(matches!(
        tx.attach(&map, &gateways, CODE, CODE + 0x800, Some(1)),
        Err(DetourError::NotStarted)
    ));
    assert!(matches!(tx.commit(), Err(DetourError::NotStarted)));
    assert!(matches!(tx.update_thread(5, 1, Some(9)), Err(DetourError::NotStarted)));
    assert!(matches!(tx.detach(0), Err(DetourError::NotStarted)));
}

#[test]
fn attach_export_rejects_unknown_export() {
    let process = Process::new();
    let mut tx = DetourTransaction::begin(Arch::X64);
    let err = tx
        .attach_export(&process.map(), &GatewayRegistry::new(), None, CODE, None)
        .expect_err("an unknown export must not resolve");
    assert!(matches!(err, DetourError::InvalidParameter));
}

#[test]
fn attach_export_rejects_unknown_module() {
    let process = Process::new();
    let mut tx = DetourTransaction::begin(Arch::X64);
    tx.abort();
    let err = tx
        .attach_export(&process.map(), &GatewayRegistry::new(), None, CODE, Some(1))
        .expect_err("an unknown module must not resolve");
    assert!(matches!(err, DetourError::InvalidParameter));
}

/// A module with one export, `GetCurrentProcessId`, at its first code page.
fn module_image() -> Vec<u8> {
    let mut image = vec![0u8; 0x2000];
    let mut put = |at: usize, bytes: &[u8]| image[at..at + bytes.len()].copy_from_slice(bytes);
    put(0, b"MZ");
    put(0x3C, &64u32.to_le_bytes());
    put(64, b"PE");
    put(88, &0x20bu16.to_le_bytes());
    put(88 + 56, &0x2000u32.to_le_bytes());
    put(88 + 108, &16u32.to_le_bytes());
    put(88 + 112, &0x400u32.to_le_bytes());
    put(88 + 116, &0x200u32.to_le_bytes());
    // One function with one name; their tables follow the directory.
    for (field, value) in [(16, 1u32), (20, 1), (24, 1), (28, 0x440), (32, 0x450), (36, 0x460)] {
        put(0x400 + field, &value.to_le_bytes());
    }
    put(0x440, &0x1000u32.to_le_bytes());
    put(0x450, &0x470u32.to_le_bytes());
    put(0x470, b"GetCurrentProcessId");
    // mov eax, 0x1357; ret
    put(0x1000, &[0xB8, 0x57, 0x13, 0x00, 0x00, 0xC3]);
    // The detour: mov eax, 0xABCD1234; ret
    put(0x1800, &[0xB8, 0x34, 0x12, 0xCD, 0xAB, 0xC3]);
    image
}

/// Runs the code at `ip` until it returns, and gives what it returns.
fn call(process: &mut Process, mut ip: u64) -> u32 {
    let mut result = 0;
    for _ in 0..10 {
        let code = process.read(ip, 16);
        let word = |at: usize| u32::from_le_bytes(code[at..at + 4].try_into().unwrap());
        match code[0] {
            0xB8 => {
                result = word(1);
                ip += 5;
            }
            0xE9 => ip = (ip + 5).wrapping_add(word(1) as i32 as i64 as u64),
            0xFF => {
                assert_eq!((code[1], word(2)), (0x25, 0));
                ip = process.pointer(ip + 6);
            }
            0xC3 => return result,
            other => panic!("unexpected {other:#x}"),
        }
    }
    panic!("the call does not return");
}

#[test]
fn attach_export_hooks_a_real_export() {
    let module = 0x1_4020_0000u64;
    let mut process = Process::new();
    let image = module_image();
    process.pages.insert(module, image.clone());
    let mut gateways = GatewayRegistry::new();
    let function = enumerate_exports(Arch::X64, &image, module)
        .unwrap()
        .into_iter()
        .find(|export| export.name.as_deref() == Some("GetCurrentProcessId"))
        .map(|export| export.address)
        .unwrap();
    let real = call(&mut process, function);
    assert_ne!(real, 0xABCD_1234);

    let mut tx = DetourTransaction::begin(Arch::X64);
    let attached = tx
        .attach_export(
            &process.map(),
            &gateways,
            Some(function),
            module + 0x1800,
            Some(CODE + 0x10_0000),
        )
        .expect("attach_export should resolve and queue the hook");
    process.write(&attached.write);
    let (mut hooks, _) = process
        .commit(&mut tx, &mut gateways, &mut [], &mut HashMap::new(), None)
        .expect("commit should succeed");

    assert_eq!(
        call(&mut process, function),
        0xABCD_1234,
        "the named-export hook should intercept the call"
    );
    assert_eq!(call(&mut process, attached.gateway), real);

    process.unhook(&mut hooks[0], &mut gateways);
    assert_eq!(
        call(&mut process, function),
        real,
        "original should be restored after unhook"
    );
}

#[test]
fn attach_pattern_reports_each_error() {
    let process = Process::new();
    let map = process.map();
    let gateways = GatewayRegistry::new();
    let mut tx = DetourTransaction::begin(Arch::X64);
    let module = FoundModule { base: CODE, mapped: &[] };
    assert!(matches!(
        tx.attach_pattern(Arch::X64, &map, &gateways, Some(module), "ZZ", CODE, None),
        Err(DetourError::Pattern(_))
    ));
    assert!(matches!(
        tx.attach_pattern(Arch::X64, &map, &gateways, Some(module), "90", CODE, None),
        Err(DetourError::PatternNotFound)
    ));
    assert!(matches!(
        resolve_pattern(Arch::X64, &map, None, "90"),
        Err(DetourError::PatternNotFound)
    ));
}

#[test]
fn threads_inside_the_patched_code_are_moved() {
    let mut process = Process::new();
    let mut gateways = GatewayRegistry::new();
    let trampoline = CODE + 0x10_0000;
    let mut tx = DetourTransaction::begin(Arch::X64);
    assert!(tx.inner.as_ref().unwrap().wants_thread(5, 1));
    assert!(!tx.inner.as_ref().unwrap().wants_thread(1, 1));
    tx.update_thread(5, 1, Some(0x100)).unwrap();
    tx.update_thread(1, 1, Some(0x101)).unwrap();
    tx.update_thread(6, 1, None).unwrap();
    attach(&mut process, &mut tx, &gateways, CODE, CODE + 0x800, trampoline);
    let mut threads = HashMap::new();
    // The second instruction stands four bytes into the function.
    threads.insert(
        0x100,
        ThreadState { ip: CODE + 4, sp: 0x9000, stack: vec![1, CODE + 4, CODE + 0x300] },
    );
    process.commit(&mut tx, &mut gateways, &mut [], &mut threads, None).unwrap();
    let state = &threads[&0x100];
    assert_eq!(state.ip, trampoline + 14 + 4);
    assert_eq!(state.stack, vec![1, trampoline + 14 + 4, CODE + 0x300]);
}

#[test]
fn a_thread_inside_an_instruction_stops_the_commit() {
    let mut process = Process::new();
    let before = process.read(CODE, 32);
    let mut gateways = GatewayRegistry::new();
    let mut tx = DetourTransaction::begin(Arch::X64);
    tx.update_thread(5, 1, Some(0x100)).unwrap();
    attach(&mut process, &mut tx, &gateways, CODE, CODE + 0x800, CODE + 0x10_0000);
    let mut threads = HashMap::new();
    threads.insert(0x100, ThreadState { ip: CODE + 2, sp: 0x9000, stack: vec![] });
    let error = process
        .commit(&mut tx, &mut gateways, &mut [], &mut threads, None)
        .unwrap_err();
    assert_eq!(
        error.to_string(),
        "commit failed at inline hook #0 (rolled back): Failed to relocate instructions to trampoline"
    );
    assert_eq!(process.read(CODE, 32), before);
    assert_eq!(threads[&0x100].ip, CODE + 2);
}

#[test]
fn a_failed_commit_is_rolled_back() {
    let mut process = Process::new();
    process.place(DATA + 0x10)[..8].copy_from_slice(&0x1111u64.to_le_bytes());
    let code = process.read(CODE, 0x300);
    let data = process.read(DATA, 0x100);
    let mut gateways = GatewayRegistry::new();
    let mut tx = DetourTransaction::begin(Arch::X64);
    attach(&mut process, &mut tx, &gateways, CODE, CODE + 0x800, CODE + 0x10_0000);
    assert_eq!(
        tx.attach_vtable(&process.map(), DATA, 2, CODE + 0x800).unwrap(),
        0x1111
    );
    tx.attach_vtable(&process.map(), DATA, 3, CODE + 0x800).unwrap();
    let error = process
        .commit(&mut tx, &mut gateways, &mut [], &mut HashMap::new(), Some(2))
        .unwrap_err();
    match &error {
        DetourError::CommitFailed { index, kind, source } => {
            assert_eq!(*index, 2);
            assert_eq!(*kind, HookKind::Vtable);
            assert!(matches!(**source, DetourError::Vtable(VTableHookError::InvalidParameter)));
        }
        other => panic!("unexpected {other:?}"),
    }
    assert_eq!(process.read(CODE, 0x300), code);
    assert_eq!(process.read(DATA, 0x100), data);
    assert!(!gateways.is_managed_gateway(CODE + 0x10_0000));
    assert!(matches!(tx.commit(), Err(DetourError::NotStarted)));
}

#[test]
fn a_failed_commit_puts_threads_back() {
    let mut process = Process::new();
    let mut gateways = GatewayRegistry::new();
    let mut tx = DetourTransaction::begin(Arch::X64);
    tx.update_thread(5, 1, Some(0x100)).unwrap();
    attach(&mut process, &mut tx, &gateways, CODE, CODE + 0x800, CODE + 0x10_0000);
    tx.attach_vtable(&process.map(), DATA, 3, CODE + 0x800).unwrap();
    let mut threads = HashMap::new();
    let stack = vec![7, CODE + 4, CODE + 0x300];
    threads.insert(0x100, ThreadState { ip: CODE + 4, sp: 0x9000, stack: stack.clone() });
    // The thread is inspected and moved, the function patched; the slot fails.
    process.commit(&mut tx, &mut gateways, &mut [], &mut threads, Some(3)).unwrap_err();
    assert_eq!(threads[&0x100].ip, CODE + 4);
    assert_eq!(threads[&0x100].stack, stack);
}

#[test]
fn hooks_are_detached_in_a_transaction() {
    let mut process = Process::new();
    let before = process.read(CODE, 32);
    let mut gateways = GatewayRegistry::new();
    let hook = install_one(&mut process, &mut gateways, CODE, CODE + 0x800, CODE + 0x10_0000);
    let patched = process.read(CODE, 32);
    let mut hooks = vec![hook];

    // A later failure enables the hook again.
    let mut tx = DetourTransaction::begin(Arch::X64);
    tx.detach(0).unwrap();
    tx.attach_vtable(&process.map(), DATA, 3, CODE + 0x800).unwrap();
    let error = process
        .commit(&mut tx, &mut gateways, &mut hooks, &mut HashMap::new(), Some(1))
        .unwrap_err();
    assert!(matches!(error, DetourError::CommitFailed { index: 1, .. }));
    assert_eq!(process.read(CODE, 32), patched);
    assert!(hooks[0].is_enabled());

    let mut tx = DetourTransaction::begin(Arch::X64);
    tx.detach(0).unwrap();
    let (installed, detached) = process
        .commit(&mut tx, &mut gateways, &mut hooks, &mut HashMap::new(), None)
        .unwrap();
    assert!(installed.is_empty());
    assert_eq!(detached, vec![0]);
    assert_eq!(process.read(CODE, 32), before);
    assert!(!hooks[0].is_enabled());
}

/// Puts `value` into slot `index` of the table at the start of the data.
fn fill_slot(process: &mut Process, index: u64, value: u64) {
    process.place(DATA + 8 * index)[..8].copy_from_slice(&value.to_le_bytes());
}

#[test]
fn a_slot_hooked_twice_comes_back_when_the_third_hook_fails() {
    let mut process = Process::new();
    fill_slot(&mut process, 1, 0x1000);
    // An object with a table of one entry.
    process.place(DATA + 0x100)[..8].copy_from_slice(&(DATA + 0x200).to_le_bytes());
    process.place(DATA + 0x200)[..8].copy_from_slice(&0x5000u64.to_le_bytes());
    let mut gateways = GatewayRegistry::new();

    let mut tx = DetourTransaction::begin(Arch::X64);
    assert_eq!(tx.attach_vtable(&process.map(), DATA, 1, 0x2000).unwrap(), 0x1000);
    assert_eq!(tx.attach_vtable(&process.map(), DATA, 1, 0x3000).unwrap(), 0x1000);
    assert_eq!(
        tx.attach_vtable_instance(&process.map(), DATA + 0x100, 0, 1, 0x4000).unwrap(),
        0x5000
    );
    // The object has lost its table by the time of the commit.
    process.place(DATA + 0x100)[..8].fill(0);
    let before = process.read(DATA, 0x800);
    let error = process
        .commit(&mut tx, &mut gateways, &mut [], &mut HashMap::new(), None)
        .unwrap_err();
    assert!(matches!(
        error,
        DetourError::CommitFailed { index: 2, kind: HookKind::VtableInstance, .. }
    ));
    assert_eq!(process.pointer(DATA + 8), 0x1000);
    assert_eq!(process.read(DATA, 0x800), before);

    // Without the third hook the later of the two stands.
    let mut tx = DetourTransaction::begin(Arch::X64);
    tx.attach_vtable(&process.map(), DATA, 1, 0x2000).unwrap();
    tx.attach_vtable(&process.map(), DATA, 1, 0x3000).unwrap();
    let (mut hooks, _) = process
        .commit(&mut tx, &mut gateways, &mut [], &mut HashMap::new(), None)
        .unwrap();
    assert_eq!(process.pointer(DATA + 8), 0x3000);
    for hook in hooks.iter_mut().rev() {
        process.unhook(hook, &mut gateways);
    }
    assert_eq!(process.read(DATA, 0x800), before);
}

#[test]
fn an_object_hooked_twice_comes_back_when_a_slot_fails() {
    let mut process = Process::new();
    process.place(DATA + 0x100)[..8].copy_from_slice(&(DATA + 0x200).to_le_bytes());
    let before = process.read(DATA, 0x800);
    let mut gateways = GatewayRegistry::new();

    let mut tx = DetourTransaction::begin(Arch::X64);
    tx.attach_vtable_instance(&process.map(), DATA + 0x100, 0, 2, 0x4000).unwrap();
    tx.attach_vtable_instance(&process.map(), DATA + 0x100, 1, 2, 0x5000).unwrap();
    tx.attach_vtable(&process.map(), DATA, 1, 0x2000).unwrap();
    process
        .commit(&mut tx, &mut gateways, &mut [], &mut HashMap::new(), Some(2))
        .unwrap_err();
    assert_eq!(process.read(DATA, 0x800), before);

    let mut tx = DetourTransaction::begin(Arch::X64);
    tx.attach_vtable_instance(&process.map(), DATA + 0x100, 0, 2, 0x4000).unwrap();
    tx.attach_vtable_instance(&process.map(), DATA + 0x100, 1, 2, 0x5000).unwrap();
    process.commit(&mut tx, &mut gateways, &mut [], &mut HashMap::new(), None).unwrap();
    let table = process.pointer(DATA + 0x100);
    assert_eq!(process.pointer(table), 0x4000);
    assert_eq!(process.pointer(table + 8), 0x5000);
}

#[test]
fn removals_and_hooks_of_one_slot_are_undone_in_turn() {
    let mut process = Process::new();
    fill_slot(&mut process, 1, 0x1000);
    let mut gateways = GatewayRegistry::new();
    let mut tx = DetourTransaction::begin(Arch::X64);
    tx.attach_vtable(&process.map(), DATA, 1, 0x2000).unwrap();
    let (mut hooks, _) = process
        .commit(&mut tx, &mut gateways, &mut [], &mut HashMap::new(), None)
        .unwrap();
    assert_eq!(process.pointer(DATA + 8), 0x2000);

    // The slot goes back to 0x1000, is hooked again, and the last hook fails.
    let mut tx = DetourTransaction::begin(Arch::X64);
    tx.detach(0).unwrap();
    tx.attach_vtable(&process.map(), DATA, 1, 0x3000).unwrap();
    tx.attach_vtable(&process.map(), DATA, 2, 0x3000).unwrap();
    let error = process
        .commit(&mut tx, &mut gateways, &mut hooks, &mut HashMap::new(), Some(2))
        .unwrap_err();
    assert!(matches!(error, DetourError::CommitFailed { index: 2, .. }));
    assert_eq!(process.pointer(DATA + 8), 0x2000);
    assert_eq!(process.pointer(DATA + 16), 0);
    assert!(hooks[0].is_enabled());
}

#[test]
fn a_thread_that_was_moved_twice_is_put_back() {
    let mut process = Process::new();
    let code = process.read(CODE, 32);
    let mut gateways = GatewayRegistry::new();
    let first = CODE + 0x10_0000;
    let second = CODE + 0x10_0800;
    let mut tx = DetourTransaction::begin(Arch::X64);
    tx.update_thread(5, 1, Some(0x100)).unwrap();
    attach(&mut process, &mut tx, &gateways, CODE, CODE + 0x800, first);
    // The second hook patches the moved code of the first.
    attach(&mut process, &mut tx, &gateways, first + 14, CODE + 0x900, second);
    tx.attach_vtable(&process.map(), DATA, 3, CODE + 0x800).unwrap();
    let body = process.read(first + 14, 32);
    let stack = vec![7, CODE + 4, CODE + 0x300];
    let start = ThreadState { ip: CODE + 4, sp: 0x9000, stack: stack.clone() };
    let mut threads = HashMap::new();
    threads.insert(0x100, start);

    let mut run = tx.commit().unwrap();
    for _ in 0..2 {
        let core = tx.inner.as_mut().unwrap();
        assert_eq!(run.step(core), CommitStep::InspectThread { thread: 0x100 });
        let state = &threads[&0x100];
        let copy = ThreadState { ip: state.ip, sp: state.sp, stack: state.stack.clone() };
        core.thread_inspected(&mut run, Some(copy)).unwrap();
        assert_eq!(run.step(core), CommitStep::RedirectThread { thread: 0x100 });
        let change = run.redirect.as_ref().unwrap();
        let state = threads.get_mut(&0x100).unwrap();
        state.ip = change.ip.unwrap();
        assert_eq!(change.stack.len(), 1);
        state.stack[1] = change.stack[0].new;
        core.thread_redirected(&mut run, true).unwrap();
        let patch = run.patch(core);
        process.write(&patch);
        core.apply_inline_hook(&mut run, &mut gateways, true).unwrap();
    }
    assert_eq!(threads[&0x100].ip, second + 14 + 4);
    assert_eq!(threads[&0x100].stack[1], second + 14 + 4);

    let core = tx.inner.as_mut().unwrap();
    let error = core
        .slot_hooked(&mut run, Err(VTableHookError::InvalidParameter))
        .unwrap_err();
    let mut undo = tx.rollback(run, error);
    assert_eq!(undo.threads, vec![(0x100, first + 14 + 4), (0x100, CODE + 4)]);
    assert_eq!(
        undo.stacks,
        vec![(0x100, 0x9008, first + 14 + 4), (0x100, 0x9008, CODE + 4)]
    );
    let originals: Vec<u64> = undo.hooks.iter().map(|hook| hook.original_ptr()).collect();
    assert_eq!(originals, vec![second, first]);
    while let Some(step) = undo.next() {
        match step {
            UndoStep::Unhook(mut hook) => process.unhook(&mut hook, &mut gateways),
            other => panic!("unexpected {other:?}"),
        }
    }
    assert!(matches!(undo.into_error(), DetourError::CommitFailed { index: 2, .. }));
    assert_eq!(process.read(CODE, 32), code);
    assert_eq!(process.read(first + 14, 32), body);
}

#[test]
fn register_toggle_and_unhook_all() {
    let mut process = Process::new();
    let original = process.read(CODE, 8);
    let mut gateways = GatewayRegistry::new();
    let hook = install_one(&mut process, &mut gateways, CODE, CODE + 0x800, CODE + 0x10_0000);
    let patched = process.read(CODE, 8);

    let mut store = Registry::new();
    assert!(registry::register(&mut store, "reg-a".to_string(), hook).is_none());
    assert!(registry::names(&store).contains(&"reg-a".to_string()));
    assert_eq!(registry::is_enabled(&store, "reg-a"), Some(true));

    let write = registry::toggle_write(&store, Arch::X64, "reg-a", false).unwrap();
    let outcome = process.perform(write);
    assert_eq!(registry::disable(&mut store, "reg-a", outcome).unwrap(), true);
    assert_eq!(process.read(CODE, 8), original, "disabled hook should not intercept");
    assert_eq!(registry::is_enabled(&store, "reg-a"), Some(false));

    let write = registry::toggle_write(&store, Arch::X64, "reg-a", true).unwrap();
    let outcome = process.perform(write);
    assert_eq!(registry::enable(&mut store, "reg-a", outcome).unwrap(), true);
    assert_eq!(process.read(CODE, 8), patched, "re-enabled hook should intercept again");
    assert!(registry::toggle_write(&store, Arch::X64, "reg-a", true).is_none());

    assert_eq!(
        registry::enable(&mut store, "nope", HookOutcome::Slot(Ok(()))).unwrap(),
        false
    );
    assert_eq!(registry::is_enabled(&store, "nope"), None);

    let mut torn = registry::unhook_all(&mut store);
    assert!(torn.len() >= 1);
    assert_eq!(registry::count(&store), 0);
    for hook in torn.iter_mut() {
        process.unhook(hook, &mut gateways);
    }
    assert_eq!(process.read(CODE, 8), original, "unhook_all should restore the original");
}

#[test]
fn take_returns_without_unhooking() {
    let mut process = Process::new();
    let original = process.read(CODE, 8);
    let mut gateways = GatewayRegistry::new();
    let hook = install_one(&mut process, &mut gateways, CODE, CODE + 0x800, CODE + 0x10_0000);
    let mut store = Registry::new();
    registry::register(&mut store, "reg-take".to_string(), hook);
    let mut hook = registry::take(&mut store, "reg-take").expect("take should return the hook");
    assert_eq!(registry::count(&store), 0);
    assert_ne!(process.read(CODE, 8), original, "taken hook is still installed");
    process.unhook(&mut hook, &mut gateways);
    assert_eq!(process.read(CODE, 8), original);
}

#[test]
fn the_registry_replaces_and_removes() {
    let mut process = Process::new();
    let mut gateways = GatewayRegistry::new();
    let mut store = Registry::new();
    let slot = |slot: u64| {
        Hook::Vtable(VTableHook { slot, original_ptr: 7, detour: 8, active: true, enabled: true })
    };
    assert!(registry::register(&mut store, "a".to_string(), slot(DATA)).is_none());
    assert!(registry::register(&mut store, "b".to_string(), slot(DATA + 8)).is_none());
    let previous = registry::register(&mut store, "a".to_string(), slot(DATA + 16)).unwrap();
    assert_eq!(previous.original_ptr(), 7);
    assert_eq!(registry::count(&store), 2);

    let write = registry::perform_unhook(&store, Arch::X64, &[], "a").unwrap().unwrap();
    let outcome = process.perform(write);
    let removal = registry::unhook(&mut store, &mut gateways, "a", Ok(outcome));
    assert_eq!(removal.result.unwrap(), true);
    assert!(matches!(removal.hook, Some(Hook::Vtable(VTableHook { active: false, .. }))));
    assert_eq!(removal.clone, None);
    assert_eq!(process.pointer(DATA + 16), 7);
    assert_eq!(registry::count(&store), 1);
    assert!(registry::perform_unhook(&store, Arch::X64, &[], "a").is_none());
    let removal =
        registry::unhook(&mut store, &mut gateways, "a", Ok(HookOutcome::Slot(Ok(()))));
    assert_eq!(removal.result.unwrap(), false);
    assert!(removal.hook.is_none());
    let refused = OsError { code: 5, message: "denied".to_string() };
    let removal =
        registry::unhook(&mut store, &mut gateways, "b", Ok(HookOutcome::Slot(Err(refused))));
    assert!(removal.result.is_err());
    assert!(matches!(removal.hook, Some(Hook::Vtable(VTableHook { active: true, .. }))));
    assert_eq!(registry::names(&store), Vec::<String>::new());

    // A hook whose removal cannot even be begun leaves the registry too.
    registry::register(&mut store, "c".to_string(), slot(0));
    let error = registry::perform_unhook(&store, Arch::X64, &[], "c").unwrap().unwrap_err();
    let removal = registry::unhook(&mut store, &mut gateways, "c", Err(error));
    assert!(matches!(removal.result, Err(DetourError::Vtable(_))));
    assert!(removal.hook.is_some());
    assert_eq!(registry::count(&store), 0);
}

#[test]
fn every_kind_of_hook_is_toggled() {
    let hooks = vec![
        Hook::Iat(IatHook {
            module: 1,
            dll_name: "a.dll".to_string(),
            func_name: "f".to_string(),
            slot: DATA,
            original_ptr: 0x11,
            detour: 0x22,
            active: true,
            enabled: true,
        }),
        Hook::Eat(InstalledEat {
            slot_ptr: DATA,
            original_rva: 0x11,
            detour_rva: 0x22,
            original_ptr: 0x33,
            stub: None,
            enabled: true,
        }),
        Hook::Vtable(VTableHook {
            slot: DATA,
            original_ptr: 0x11,
            detour: 0x22,
            active: true,
            enabled: true,
        }),
        Hook::VtableInstance(VTableInstanceHook {
            object_vptr: DATA,
            original_vtable: 0x11,
            cloned_vtable: 0x22,
            vtable_len: 4,
            original_ptr: 0x33,
            active: true,
            enabled: true,
        }),
    ];
    for mut hook in hooks {
        let mut process = Process::new();
        process.place(DATA)[0] = 0x22;
        let write = hook.toggle_write(Arch::X64, false).unwrap();
        let outcome = process.perform(write);
        hook.disable(outcome).unwrap();
        assert_eq!(process.pointer(DATA), 0x11);
        assert!(!hook.is_enabled());
        assert!(hook.toggle_write(Arch::X64, false).is_none());
        let write = hook.toggle_write(Arch::X64, true).unwrap();
        let outcome = process.perform(write);
        hook.enable(outcome).unwrap();
        assert_eq!(process.pointer(DATA), 0x22);
        let refused = OsError { code: 5, message: "denied".to_string() };
        assert!(hook.disable(HookOutcome::Slot(Err(refused))).is_err());
        assert!(hook.is_enabled());
    }
}

#[test]
fn a_cloned_table_is_released_once() {
    let mut process = Process::new();
    let mut gateways = GatewayRegistry::new();
    let mut hook = Hook::VtableInstance(VTableInstanceHook {
        object_vptr: DATA,
        original_vtable: 0x11,
        cloned_vtable: 0x22,
        vtable_len: 4,
        original_ptr: 0x33,
        active: true,
        enabled: true,
    });
    let write = hook.perform_unhook(Arch::X64, &[]).unwrap();
    let outcome = process.perform(write);
    assert_eq!(hook.unhook(&mut gateways, outcome).unwrap(), Some(0x22));
    assert!(hook.perform_unhook(Arch::X64, &[]).is_err());
}

#[test]
fn a_toggle_that_cannot_be_written_changes_nothing() {
    let mut hook = Hook::Inline(InlineHook {
        target: CODE,
        trampoline: Trampoline { ptr: 1, size: 2 },
        stolen_len: 1,
        orig_bytes: vec![0x55],
        patch: vec![0xCC],
        jump_type: JumpType::Relative5,
        target_kind: neohook::inline::TargetKind::Normal,
        active: true,
        enabled: true,
    });
    let failed = CodeWriteOutcome { written: false, flushed: false, restored: false };
    assert!(matches!(
        hook.disable(HookOutcome::Code(failed)),
        Err(DetourError::RelocationFailed)
    ));
    assert!(hook.is_enabled());
}

#[test]
fn a_transaction_describes_itself() {
    let mut core = TransactionCore::begin(Arch::X64);
    core.update_thread(7, 1, Some(0x1F)).unwrap();
    core.pending_hooks.push(PendingHook::Iat {
        module: 1,
        target_dll: "a.dll".to_string(),
        target_func: "f".to_string(),
        detour: 2,
    });
    core.pending_hooks.push(PendingHook::Vtable { vtable: 0xAB, index: 3, detour: 2 });
    core.pending_hooks.push(PendingHook::VtableInstance {
        object_vptr: 0xCD,
        vtable_len: 9,
        index: 4,
        detour: 2,
    });
    core.redirected_threads.push((1, 2));
    assert_eq!(
        core.dump_state(&[7]),
        "\n--- [DETOUR TRANSACTION DEBUG] ---\nStatus: PENDING\nThreads (1):\n  [Thread] TID: 7 (Handle: 0x1f)\nPlanned Hooks (3):\n  [0] IAT: a.dll!f\n  [1] VTABLE: 0xab[3]\n  [2] VTABLE-INSTANCE: 0xcd len=9 slot=4\nRIP-Redirections: 1\n----------------------------------\n\n"
    );
    let mut tx = DetourTransaction::begin(Arch::X64);
    assert!(tx.dump_state(&[]).is_some());
    tx.abort();
    assert!(tx.dump_state(&[]).is_none());
}

#[test]
fn a_sweep_reports_what_must_not_happen() {
    let mut stats = Stats::new();
    stats.record(
        "m!f".to_string(),
        SweepOutcome::Overrun { written: 5000, stolen: 6, code: 0xABC },
    );
    stats.record(
        "m!g".to_string(),
        SweepOutcome::Failed {
            reason: "Internal relocation error: instruction offset overflow".to_string(),
            stolen: 2,
            bytes: vec![0x0A, 0xFF],
        },
    );
    stats.record("m!h".to_string(), SweepOutcome::Relocated { written: 113 });
    assert_eq!(
        stats.crashes,
        vec![
            "m!f: relocate reported written_len=5000 (cap 4096) stolen=6 at 0xabc",
            "m!g: internal relocator invariant violated: Internal relocation error: instruction offset overflow (stolen=2, bytes=[0A, FF])",
        ]
    );
    assert_eq!((stats.swept, stats.relocated, stats.exceeds_real_budget), (3, 1, 1));
    for _ in 0..25 {
        stats.record(
            "m!i".to_string(),
            SweepOutcome::Failed { reason: "r".to_string(), stolen: 1, bytes: vec![1] },
        );
    }
    assert_eq!(stats.refused, 25);
    assert_eq!(stats.refusal_samples.len(), 20);
}

#[test]
fn a_gateway_needs_less_memory_than_a_function() {
    let mut gateways = GatewayRegistry::new();
    gateways.register_managed_gateway(CODE);
    let core = TransactionCore::begin(Arch::X64);
    assert_eq!(core.trampoline_capacity(&gateways, CODE), 64);
    assert_eq!(core.trampoline_capacity(&gateways, CODE + 1), 128);
}
