use neohook::arch::Arch;
use neohook::gateway::{build_original_gateway, GATEWAY_CAPACITY};
use neohook::int3::{Int3Hook, Int3HookError, Int3Manager, INT3_OPCODE, MAX_HOOKS, STATUS_BREAKPOINT};
use neohook::mem::CodeWrite;
use neohook::memory::{MemoryMap, MemoryRegion, MEM_COMMIT, PAGE_EXECUTE_READ};
use neohook::nearby::Trampoline;
use neohook::slots::{SlotError, SlotTable};
use neohook::veh::{
    set_debug_register, DebugRegisters, VehHook, VehHookError, VehManager, SLOT_COUNT,
    STATUS_SINGLE_STEP,
};

const HANDLER: u64 = 0x77;

fn int3_install(
    manager: &mut Int3Manager,
    target: u64,
    detour: u64,
    gateway: Option<Trampoline>,
) -> Result<Int3Hook, Int3HookError> {
    let slot = manager.reserve(target, detour, gateway.is_some(), true)?;
    let registered = if manager.needs_handler() {
        Some(HANDLER)
    } else {
        None
    };
    let write = manager.publish(slot, target, detour, registered)?;
    assert_eq!(write.address, target);
    assert_eq!(write.bytes, vec![INT3_OPCODE]);
    manager
        .install(slot, target, detour, gateway, Some(0x55))
        .map_err(|abandoned| abandoned.error)
}

fn veh_install(manager: &mut VehManager, target: u64, detour: u64) -> Result<VehHook, VehHookError> {
    let slot = manager.reserve(target, detour)?;
    let registered = if manager.needs_handler() {
        Some(HANDLER)
    } else {
        None
    };
    manager.install(slot, target, detour, registered)
}

#[test]
fn int3_install_rejects_null_pointers() {
    let mut manager = Int3Manager::new();
    assert!(matches!(
        int3_install(&mut manager, 0, 0x2000, None),
        Err(Int3HookError::InvalidParameter)
    ));
    assert!(matches!(
        int3_install(&mut manager, 0x1000, 0, None),
        Err(Int3HookError::InvalidParameter)
    ));
}

#[test]
fn int3_install_rejects_duplicate_target() {
    let mut manager = Int3Manager::new();
    let mut hook = int3_install(&mut manager, 0x1000, 0x2000, None)
        .expect("first install should succeed");
    assert!(matches!(
        int3_install(&mut manager, 0x1000, 0x2000, None),
        Err(Int3HookError::AlreadyHooked)
    ));
    manager.remove(&mut hook).unwrap();
}

#[test]
fn redirects_and_restores() {
    let mut manager = Int3Manager::new();
    assert_eq!(manager.int3_handler(STATUS_BREAKPOINT, 0x1000), None);

    let mut hook = int3_install(&mut manager, 0x1000, 0x2000, None).unwrap();
    assert_eq!(manager.int3_handler(STATUS_BREAKPOINT, 0x1000), Some(0x2000));
    assert_eq!(manager.int3_handler(STATUS_SINGLE_STEP, 0x1000), None);
    assert_eq!(manager.int3_handler(STATUS_BREAKPOINT, 0x1001), None);
    assert_eq!(manager.int3_handler(STATUS_BREAKPOINT, 0), None);
    assert_eq!((hook.target(), hook.detour()), (0x1000, 0x2000));

    // The byte is put back first: a late trap still finds its detour.
    let write = manager.removal_write(&hook).unwrap();
    assert_eq!(write.address, 0x1000);
    assert_eq!(write.bytes, vec![0x55]);
    assert_eq!(manager.int3_handler(STATUS_BREAKPOINT, 0x1000), Some(0x2000));
    let removal = manager.remove(&mut hook).unwrap();
    assert_eq!(removal.remove_handler, Some(HANDLER));
    assert!(manager.removal_write(&hook).is_none());
    assert_eq!(manager.int3_handler(STATUS_BREAKPOINT, 0x1000), None);
    assert!(manager.needs_handler());
    assert!(manager.remove(&mut hook).is_none());
}

const FUNCTION: u64 = 0x1_4000_0000;
const GATEWAY: u64 = 0x1_4001_0000;
const DETOUR: u64 = 0x1_4002_0000;

/// Memory with a function that adds one to its argument, and room for a gateway.
struct Machine {
    function: Vec<u8>,
    gateway: Vec<u8>,
    original: u64,
    manager: Int3Manager,
}

impl Machine {
    fn byte(&self, address: u64) -> u8 {
        if address >= GATEWAY {
            self.gateway[(address - GATEWAY) as usize]
        } else {
            self.function[(address - FUNCTION) as usize]
        }
    }

    /// Runs the code at `ip` with `x` as the argument. The detour calls the original
    /// function and adds a thousand.
    fn call(&self, mut ip: u64, x: u32) -> u32 {
        let mut result = 0;
        for _ in 0..10 {
            if ip == DETOUR {
                return self.call(self.original, x) + 1000;
            }
            match self.byte(ip) {
                INT3_OPCODE => {
                    ip = self.manager.int3_handler(STATUS_BREAKPOINT, ip).expect("a hook");
                }
                0x8D => {
                    assert_eq!((self.byte(ip + 1), self.byte(ip + 2)), (0x41, 0x01));
                    result = x.wrapping_add(1);
                    ip += 3;
                }
                0xE9 => {
                    let displacement: Vec<u8> = (1..5).map(|i| self.byte(ip + i)).collect();
                    let displacement = i32::from_le_bytes(displacement.try_into().unwrap());
                    ip = (ip + 5).wrapping_add(displacement as i64 as u64);
                }
                0xC3 => return result,
                other => panic!("unexpected {other:#x}"),
            }
        }
        panic!("the call does not return");
    }

    fn write(&mut self, write: &CodeWrite) -> u8 {
        let at = (write.address - FUNCTION) as usize;
        assert_eq!(write.bytes.len(), 1);
        std::mem::replace(&mut self.function[at], write.bytes[0])
    }
}

#[test]
fn original_gateway_forwards_to_real_function() {
    // lea eax, [rcx+1]; ret
    let mut machine = Machine {
        function: vec![0x8D, 0x41, 0x01, 0xC3],
        gateway: Vec::new(),
        original: 0,
        manager: Int3Manager::new(),
    };
    assert_eq!(machine.call(FUNCTION, 5), 6, "sanity before hook");

    let map = MemoryMap {
        regions: vec![MemoryRegion {
            base: FUNCTION,
            size: 4,
            state: MEM_COMMIT,
            protect: PAGE_EXECUTE_READ,
            bytes: machine.function.clone(),
        }],
    };
    let built = build_original_gateway(Arch::X64, &map, FUNCTION, Some(GATEWAY))
        .expect("install_with_original");
    machine.gateway = built.write.bytes;
    let slot = machine.manager.reserve(FUNCTION, DETOUR, true, true).unwrap();
    let write = machine.manager.publish(slot, FUNCTION, DETOUR, Some(HANDLER)).unwrap();
    let before = machine.write(&write);
    let mut hook = machine
        .manager
        .install(slot, FUNCTION, DETOUR, Some(built.trampoline), Some(before))
        .expect("install_with_original");
    machine.original = hook.original_ptr().expect("gateway pointer present");

    assert_eq!(
        machine.call(FUNCTION, 5),
        1006,
        "detour forwarded to the original via the gateway"
    );

    let write = machine.manager.removal_write(&hook).unwrap();
    machine.write(&write);
    machine.manager.remove(&mut hook).unwrap();
    assert_eq!(machine.call(FUNCTION, 5), 6, "original restored after unhook");
}

#[test]
fn install_without_gateway_has_no_original_ptr() {
    let mut manager = Int3Manager::new();
    let hook = int3_install(&mut manager, 0x1000, 0x2000, None).expect("install");
    assert!(
        hook.original_ptr().is_none(),
        "plain install must not expose a gateway"
    );
    let gateway = Trampoline { ptr: 0x9000, size: 64 };
    let hook = int3_install(&mut manager, 0x1100, 0x2000, Some(gateway)).expect("install");
    assert_eq!(hook.original_ptr(), Some(0x9000));
}

#[test]
fn supports_more_than_four_hooks() {
    let mut manager = Int3Manager::new();
    let mut hooks = Vec::new();
    for i in 0..6u64 {
        hooks.push(
            int3_install(&mut manager, 0x1000 + i * 16, 0x2000, None)
                .expect("install beyond four slots"),
        );
    }
    assert_eq!(hooks.len(), 6, "all six hooks installed without a slot cap");
    for (i, hook) in hooks.iter_mut().enumerate() {
        let removal = manager.remove(hook).unwrap();
        assert_eq!(removal.remove_handler.is_some(), i == 5);
    }
}

#[test]
fn int3_slots_run_out() {
    let mut manager = Int3Manager::new();
    for i in 0..MAX_HOOKS as u64 {
        int3_install(&mut manager, 0x1000 + i, 0x2000, None).unwrap();
    }
    let error = int3_install(&mut manager, 0x10, 0x2000, None).unwrap_err();
    assert_eq!(error, Int3HookError::NoFreeSlot);
    assert_eq!(error.to_string(), "all 256 INT3 hook slots are in use");
}

#[test]
fn int3_failures_are_reported_and_undone() {
    let mut manager = Int3Manager::new();
    assert_eq!(
        manager.reserve(0x1000, 0x2000, true, false),
        Err(Int3HookError::GatewayBuildFailed)
    );
    let slot = manager.reserve(0x1000, 0x2000, false, false).unwrap();
    assert_eq!(
        manager.publish(slot, 0x1000, 0x2000, None).unwrap_err(),
        Int3HookError::HandlerRegistrationFailed
    );
    manager.publish(slot, 0x1000, 0x2000, Some(HANDLER)).unwrap();
    let abandoned = manager
        .install(slot, 0x1000, 0x2000, None, None)
        .unwrap_err();
    assert_eq!(abandoned.error, Int3HookError::PatchFailed);
    assert_eq!(abandoned.remove_handler, Some(HANDLER));
    assert_eq!(manager.table.targets[slot], 0);
    assert!(manager.needs_handler());
    assert_eq!(
        Int3HookError::PatchFailed.to_string(),
        "failed to write the INT3 byte into the target"
    );
    assert_eq!(
        Int3HookError::GatewayBuildFailed.to_string(),
        "failed to build the call-original gateway for the target"
    );
}

#[test]
fn veh_install_rejects_null_pointers() {
    let mut manager = VehManager::new();
    assert!(matches!(
        veh_install(&mut manager, 0, 0x2000),
        Err(VehHookError::InvalidParameter)
    ));
    assert!(matches!(
        veh_install(&mut manager, 0x1000, 0),
        Err(VehHookError::InvalidParameter)
    ));
}

#[test]
fn veh_install_rejects_duplicate_target() {
    let mut manager = VehManager::new();
    let mut hook = veh_install(&mut manager, 0x1000, 0x2000).expect("first install should succeed");
    assert!(matches!(
        veh_install(&mut manager, 0x1000, 0x2000),
        Err(VehHookError::AlreadyHooked)
    ));
    manager.remove(&mut hook).unwrap();
}

#[test]
fn install_runs_out_of_slots_after_four() {
    let mut manager = VehManager::new();
    let mut hooks = Vec::new();
    for target in [0x1000, 0x1100, 0x1200, 0x1300] {
        hooks.push(veh_install(&mut manager, target, 0x2000).expect("install within slot budget"));
    }
    assert!(matches!(
        veh_install(&mut manager, 0x1400, 0x2000),
        Err(VehHookError::NoFreeSlot)
    ));
    for mut hook in hooks.drain(..) {
        manager.remove(&mut hook).unwrap();
    }
    let mut again = veh_install(&mut manager, 0x1400, 0x2000).expect("slot freed after unhook");
    assert_eq!(again.slot, 0);
    let removal = manager.remove(&mut again).unwrap();
    assert_eq!(removal.slot, 0);
    assert_eq!(removal.remove_handler, Some(HANDLER));
    assert!(manager.remove(&mut again).is_none());
}

#[test]
fn veh_handler_redirects_hooked_steps_only() {
    let mut manager = VehManager::new();
    let hook = veh_install(&mut manager, 0x1000, 0x2000).unwrap();
    assert_eq!(manager.veh_handler(STATUS_SINGLE_STEP, 0x1000), Some(0x2000));
    assert_eq!(manager.veh_handler(STATUS_BREAKPOINT, 0x1000), None);
    assert_eq!(manager.veh_handler(STATUS_SINGLE_STEP, 0x1004), None);
    assert_eq!((hook.target(), hook.detour()), (0x1000, 0x2000));
    assert!(matches!(
        VehManager::new().install(0, 0x1000, 0x2000, None),
        Err(VehHookError::HandlerRegistrationFailed)
    ));
    assert_eq!(
        VehHookError::NoFreeSlot.to_string(),
        "all four hardware breakpoint slots are in use"
    );
    assert_eq!(VehHookError::InvalidParameter.to_string(), "invalid VEH hook parameters");
}

#[test]
fn debug_registers_are_set_and_cleared() {
    let mut registers = DebugRegisters {
        dr0: 0,
        dr1: 0x1111,
        dr2: 0,
        dr3: 0,
        dr7: 0x0000_0404,
    };
    set_debug_register(Arch::X64, &mut registers, 2, 0x7fff_1234_5678, true);
    assert_eq!(registers.dr2, 0x7fff_1234_5678);
    assert_eq!(registers.dr1, 0x1111);
    assert_eq!(registers.dr7, 0x0000_0414);
    set_debug_register(Arch::X64, &mut registers, 2, 0x7fff_1234_5678, false);
    assert_eq!(registers.dr2, 0);
    assert_eq!(registers.dr7, 0x0000_0404);

    registers.dr7 = 0xFFFF_0000;
    set_debug_register(Arch::X86, &mut registers, 3, 0x1_0000_0002, true);
    assert_eq!(registers.dr3, 2);
    assert_eq!(registers.dr7, 0x0FFF_0040);
    assert_eq!(SLOT_COUNT, 4);
}

#[test]
fn slots_are_given_in_order() {
    let mut table = SlotTable::new(2);
    assert_eq!(table.reserve(0x10), Ok(0));
    table.publish(0, 0x10, 0x20);
    assert_eq!(table.reserve(0x10), Err(SlotError::AlreadyHooked));
    assert_eq!(table.reserve(0x11), Ok(1));
    table.publish(1, 0x11, 0x21);
    assert_eq!(table.reserve(0x12), Err(SlotError::NoFreeSlot));
    assert_eq!(table.lookup(0x11), Some(0x21));
    table.clear(0);
    assert_eq!(table.lookup(0x10), None);
    assert_eq!(table.reserve(0x12), Ok(0));
}

#[test]
fn a_gateway_runs_the_first_instruction_and_returns() {
    let code = [0x48u8, 0x83, 0xEC, 0x28, 0x90, 0x90, 0x90, 0x90];
    let map = MemoryMap {
        regions: vec![MemoryRegion {
            base: 0x1_4000_0000,
            size: 8,
            state: MEM_COMMIT,
            protect: PAGE_EXECUTE_READ,
            bytes: code.to_vec(),
        }],
    };
    let built =
        build_original_gateway(Arch::X64, &map, 0x1_4000_0000, Some(0x1_4001_0000)).unwrap();
    assert_eq!(built.trampoline.ptr, 0x1_4001_0000);
    assert_eq!(built.trampoline.size, GATEWAY_CAPACITY as u64);
    assert_eq!(built.write.address, 0x1_4001_0000);
    assert_eq!(&built.write.bytes[..4], &code[..4]);
    assert!(built.write.bytes.len() > 4);

    assert!(build_original_gateway(Arch::X64, &map, 0, Some(0x1_4001_0000)).is_none());
    assert!(build_original_gateway(Arch::X64, &map, 0x1_4000_0000, None).is_none());
    assert!(build_original_gateway(Arch::X64, &map, 0x5000, Some(0x1_4001_0000)).is_none());
}
