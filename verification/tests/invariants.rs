use std::collections::HashMap;
use std::collections::VecDeque;
use uh_ios::capability::CapabilityManager;
use uh_ios::exit::{ExitAction, ExitHandler};
use uh_ios::memory::MemoryManager;
use uh_ios::types::{
    CPUState, Capability, CapabilitySet, ExitReason, MemoryRegion, SystemState, VMState, GPA, VMID,
};
use uh_ios::vm::VMManager;
use uh_ios::Error;

type Snapshot = (
    HashMap<u32, VMState>,
    HashMap<u32, CapabilitySet>,
    HashMap<u32, Vec<MemoryRegion>>,
    VecDeque<(VMID, ExitReason)>,
    u32,
);

fn snapshot(state: &SystemState) -> Snapshot {
    (
        state.vms.clone(),
        state.caps.clone(),
        state.memory.clone(),
        state.exits.clone(),
        state.next_vmid,
    )
}

fn cpu_at(pc: u64) -> CPUState {
    let mut cpu = CPUState::default();
    cpu.pc = pc;
    cpu.sp = 0x7000;
    cpu.gpr[5] = 55;
    cpu
}

fn moved_on(cpu: CPUState) -> CPUState {
    let mut next = cpu;
    next.pc = cpu.pc.wrapping_add(4);
    next
}

#[test]
fn every_exit_reason_gets_the_action_of_the_table() {
    let mut state = SystemState::new();
    let vmid = VMManager::create_vm(&mut state).unwrap();
    let cpu = cpu_at(0x9000);
    let inject = |vector: u32| ExitAction::InjectException { vector, cpu_state: cpu };

    let table = vec![
        (
            ExitReason::Hypercall { nr: 0, args: [1, 2, 3, 4, 5, 6] },
            ExitAction::Resume(moved_on(cpu)),
        ),
        (ExitReason::Hypercall { nr: 1, args: [1, 2, 3, 4, 5, 6] }, ExitAction::Halt),
        (ExitReason::Hypercall { nr: 2, args: [0; 6] }, inject(0)),
        (ExitReason::Hypercall { nr: u64::MAX, args: [0; 6] }, inject(0)),
        (ExitReason::MemoryFault { gpa: GPA(0x10), write: true }, inject(1)),
        (ExitReason::MemoryFault { gpa: GPA(0x10), write: false }, inject(1)),
        (ExitReason::InstructionAbort { gpa: GPA(0x20) }, inject(2)),
        (ExitReason::SystemRegister { reg: 9, write: true }, inject(0)),
        (ExitReason::SystemRegister { reg: 9, write: false }, inject(0)),
        (ExitReason::WFI, ExitAction::Resume(moved_on(cpu))),
        (ExitReason::Exception { vector: 0 }, inject(0)),
        (ExitReason::Exception { vector: 77 }, inject(77)),
        (ExitReason::Exception { vector: u32::MAX }, inject(u32::MAX)),
        (ExitReason::Cancelled, ExitAction::Halt),
    ];
    for (reason, expected) in table {
        let action = ExitHandler::handle_exit(&state, vmid, &reason, &cpu).unwrap();
        assert_eq!(action, expected);
    }
    assert_eq!(moved_on(cpu).pc, 0x9004);
}

#[test]
fn program_counter_wraps_at_the_end_of_the_address_space() {
    let mut state = SystemState::new();
    let vmid = VMManager::create_vm(&mut state).unwrap();
    let cpu = cpu_at(u64::MAX - 1);
    let action = ExitHandler::handle_exit(&state, vmid, &ExitReason::WFI, &cpu).unwrap();
    match action {
        ExitAction::Resume(next) => assert_eq!(next.pc, 2),
        other => panic!("unexpected action {:?}", other),
    }
    let cpu = cpu_at(u64::MAX - 4);
    let reason = ExitReason::Hypercall { nr: 0, args: [0; 6] };
    let action = ExitHandler::handle_exit(&state, vmid, &reason, &cpu).unwrap();
    match action {
        ExitAction::Resume(next) => assert_eq!(next.pc, u64::MAX),
        other => panic!("unexpected action {:?}", other),
    }
}

#[test]
fn dispatch_does_not_depend_on_the_rest_of_the_state() {
    let cpu = cpu_at(0x100);
    let reason = ExitReason::Exception { vector: 3 };

    let mut lone = SystemState::new();
    let vmid = VMManager::create_vm(&mut lone).unwrap();
    let first = ExitHandler::handle_exit(&lone, vmid, &reason, &cpu).unwrap();
    let again = ExitHandler::handle_exit(&lone, vmid, &reason, &cpu).unwrap();
    assert_eq!(first, again);

    let mut crowded = SystemState::new();
    let same = VMManager::create_vm(&mut crowded).unwrap();
    let other = VMManager::create_vm(&mut crowded).unwrap();
    assert_eq!(same, vmid);
    VMManager::initialize_vm(&mut crowded, same, cpu_at(0x5555)).unwrap();
    VMManager::trap_vm(&mut crowded, same, ExitReason::Cancelled, cpu_at(0x6666)).unwrap();
    MemoryManager::map_memory(&mut crowded, other, GPA(0), 16, 0x100, 0).unwrap();
    CapabilityManager::revoke_capability(&mut crowded, same, Capability::Execute).unwrap();
    let elsewhere = ExitHandler::handle_exit(&crowded, same, &reason, &cpu).unwrap();
    assert_eq!(first, elsewhere);
}

#[test]
fn revoked_capability_closes_the_gate_and_changes_nothing() {
    let cpu = cpu_at(0x100);

    // initialize needs Execute
    let mut state = SystemState::new();
    let vmid = VMManager::create_vm(&mut state).unwrap();
    CapabilityManager::revoke_capability(&mut state, vmid, Capability::Execute).unwrap();
    let before = snapshot(&state);
    let result = VMManager::initialize_vm(&mut state, vmid, cpu);
    assert!(matches!(result, Err(Error::CapabilityError(_))));
    assert_eq!(snapshot(&state), before);

    // resume needs Execute
    let mut state = SystemState::new();
    let vmid = VMManager::create_vm(&mut state).unwrap();
    VMManager::initialize_vm(&mut state, vmid, cpu).unwrap();
    VMManager::trap_vm(&mut state, vmid, ExitReason::WFI, cpu).unwrap();
    CapabilityManager::revoke_capability(&mut state, vmid, Capability::Execute).unwrap();
    let before = snapshot(&state);
    let result = VMManager::resume_vm(&mut state, vmid, cpu);
    assert!(matches!(result, Err(Error::CapabilityError(_))));
    assert_eq!(snapshot(&state), before);
    let result = ExitHandler::apply_exit_action(&mut state, vmid, ExitAction::Resume(cpu));
    assert!(matches!(result, Err(Error::CapabilityError(_))));
    assert_eq!(snapshot(&state), before);

    // halt needs Halt
    let mut state = SystemState::new();
    let vmid = VMManager::create_vm(&mut state).unwrap();
    CapabilityManager::revoke_capability(&mut state, vmid, Capability::Halt).unwrap();
    let before = snapshot(&state);
    let result = VMManager::halt_vm(&mut state, vmid);
    assert!(matches!(result, Err(Error::CapabilityError(_))));
    assert_eq!(snapshot(&state), before);

    // dispatch needs HandleExit
    let mut state = SystemState::new();
    let vmid = VMManager::create_vm(&mut state).unwrap();
    CapabilityManager::revoke_capability(&mut state, vmid, Capability::HandleExit).unwrap();
    let before = snapshot(&state);
    let result = ExitHandler::handle_exit(&state, vmid, &ExitReason::WFI, &cpu);
    assert!(matches!(result, Err(Error::CapabilityError(_))));
    assert_eq!(snapshot(&state), before);

    // mapping and unmapping need MapMemory
    let mut state = SystemState::new();
    let vmid = VMManager::create_vm(&mut state).unwrap();
    MemoryManager::map_memory(&mut state, vmid, GPA(0), 0x1000, 0xA000, 0).unwrap();
    CapabilityManager::revoke_capability(&mut state, vmid, Capability::MapMemory).unwrap();
    let before = snapshot(&state);
    let result = MemoryManager::map_memory(&mut state, vmid, GPA(0x4000), 0x1000, 0xF000, 0);
    assert!(matches!(result, Err(Error::CapabilityError(_))));
    assert_eq!(snapshot(&state), before);
    let result = MemoryManager::unmap_memory(&mut state, vmid, GPA(0), 0x1000);
    assert!(matches!(result, Err(Error::CapabilityError(_))));
    assert_eq!(snapshot(&state), before);
}

#[test]
fn handles_are_never_handed_out_twice() {
    let mut state = SystemState::new();
    let mut seen: Vec<VMID> = Vec::new();
    for round in 0..60 {
        let vmid = VMManager::create_vm(&mut state).unwrap();
        assert!(!seen.contains(&vmid));
        seen.push(vmid);
        if round % 3 == 0 {
            VMManager::destroy_vm(&mut state, vmid).unwrap();
        }
        if round % 5 == 0 {
            let direct = state.allocate_vmid();
            assert!(!seen.contains(&direct));
            seen.push(direct);
        }
    }
    assert_eq!(seen[0], VMID(0));
    assert_eq!(seen[1], VMID(1));
    assert_eq!(seen.len(), 72);
    assert_eq!(state.next_vmid, 72);
}

fn share_a_byte(a: u64, a_len: u64, b: u64, b_len: u64) -> bool {
    let a_end = a as u128 + a_len as u128;
    let b_end = b as u128 + b_len as u128;
    (a as u128) < b_end && (b as u128) < a_end
}

#[test]
fn mapped_memory_never_interferes() {
    let mut state = SystemState::new();
    let vms = vec![
        VMManager::create_vm(&mut state).unwrap(),
        VMManager::create_vm(&mut state).unwrap(),
        VMManager::create_vm(&mut state).unwrap(),
    ];
    let mut accepted = 0;
    let mut refused = 0;
    for step in 0..200u64 {
        let vmid = vms[(step % 3) as usize];
        let gpa = GPA((step * 7919) % 0x4000);
        let length = 1 + (step * 104729) % 0x600;
        let host = 0x10_0000 + (step * 15485863) % 0x8000;
        match MemoryManager::map_memory(&mut state, vmid, gpa, length, host, 0) {
            Ok(()) => accepted += 1,
            Err(Error::MemoryError(_)) => refused += 1,
            Err(other) => panic!("unexpected error {:?}", other),
        }
    }
    assert!(accepted > 3);
    assert!(refused > 3);

    let mut all: Vec<MemoryRegion> = Vec::new();
    for vmid in &vms {
        let regions = MemoryManager::regions(&state, *vmid).unwrap();
        for region in &regions {
            assert_eq!(region.vmid, *vmid);
            assert!(region.length > 0);
        }
        all.extend(regions);
    }
    assert_eq!(all.len(), accepted);
    for i in 0..all.len() {
        for j in (i + 1)..all.len() {
            let (a, b) = (all[i], all[j]);
            if a.vmid == b.vmid {
                assert!(!share_a_byte(a.guest_base.0, a.length, b.guest_base.0, b.length));
            } else {
                assert!(!share_a_byte(a.host_backing, a.length, b.host_backing, b.length));
            }
        }
    }
}

#[test]
fn halted_vm_cannot_be_initialized_trapped_or_resumed() {
    let cpu = cpu_at(0x100);
    let mut state = SystemState::new();
    let vmid = VMManager::create_vm(&mut state).unwrap();
    VMManager::initialize_vm(&mut state, vmid, cpu).unwrap();
    VMManager::halt_vm(&mut state, vmid).unwrap();
    let before = snapshot(&state);

    let result = VMManager::initialize_vm(&mut state, vmid, cpu);
    assert!(matches!(result, Err(Error::InvalidVMState(v)) if v == vmid));
    let result = VMManager::trap_vm(&mut state, vmid, ExitReason::WFI, cpu);
    assert!(matches!(result, Err(Error::InvalidVMState(v)) if v == vmid));
    let result = VMManager::resume_vm(&mut state, vmid, cpu);
    assert!(matches!(result, Err(Error::InvalidVMState(v)) if v == vmid));
    let result = ExitHandler::apply_exit_action(&mut state, vmid, ExitAction::Resume(cpu));
    assert!(matches!(result, Err(Error::InvalidVMState(v)) if v == vmid));
    let inject = ExitAction::InjectException { vector: 1, cpu_state: cpu };
    let result = ExitHandler::apply_exit_action(&mut state, vmid, inject);
    assert!(matches!(result, Err(Error::InvalidVMState(v)) if v == vmid));

    assert_eq!(snapshot(&state), before);
    assert_eq!(VMManager::get_vm_state(&state, vmid).unwrap(), &VMState::Halted);
}

#[test]
fn pumps_serve_the_exits_in_the_order_of_the_traps() {
    let mut state = SystemState::new();
    let vmid = VMManager::create_vm(&mut state).unwrap();
    VMManager::initialize_vm(&mut state, vmid, cpu_at(0)).unwrap();

    let reasons = vec![
        ExitReason::Exception { vector: 11 },
        ExitReason::WFI,
        ExitReason::Hypercall { nr: 1, args: [0; 6] },
        ExitReason::MemoryFault { gpa: GPA(8), write: true },
        ExitReason::Exception { vector: 12 },
    ];
    let mut last = cpu_at(0);
    for (i, reason) in reasons.iter().enumerate() {
        last = cpu_at(0x1000 * (i as u64 + 1));
        VMManager::trap_vm(&mut state, vmid, *reason, last).unwrap();
    }
    assert_eq!(state.exits.len(), 5);
    assert_eq!(last.pc, 0x5000);

    let inject = |vector: u32| ExitAction::InjectException { vector, cpu_state: last };
    let expected = vec![
        inject(11),
        ExitAction::Resume(moved_on(last)),
        ExitAction::Halt,
        inject(1),
        inject(12),
    ];
    for action in expected {
        let pumped = ExitHandler::process_next_exit(&mut state).unwrap();
        assert_eq!(pumped, Some((vmid, action)));
    }
    assert_eq!(ExitHandler::process_next_exit(&mut state).unwrap(), None);
}

#[test]
fn pumps_follow_the_queue_across_vms() {
    let mut state = SystemState::new();
    let a = VMManager::create_vm(&mut state).unwrap();
    let b = VMManager::create_vm(&mut state).unwrap();
    VMManager::initialize_vm(&mut state, a, cpu_at(0)).unwrap();
    VMManager::initialize_vm(&mut state, b, cpu_at(0)).unwrap();

    VMManager::trap_vm(&mut state, b, ExitReason::Cancelled, cpu_at(0xb0)).unwrap();
    VMManager::trap_vm(&mut state, a, ExitReason::WFI, cpu_at(0xa0)).unwrap();
    VMManager::trap_vm(&mut state, b, ExitReason::Exception { vector: 5 }, cpu_at(0xb4)).unwrap();

    let first = ExitHandler::process_next_exit(&mut state).unwrap();
    assert_eq!(first, Some((b, ExitAction::Halt)));
    let second = ExitHandler::process_next_exit(&mut state).unwrap();
    assert_eq!(second, Some((a, ExitAction::Resume(cpu_at(0xa4)))));
    let third = ExitHandler::process_next_exit(&mut state).unwrap();
    assert_eq!(
        third,
        Some((b, ExitAction::InjectException { vector: 5, cpu_state: cpu_at(0xb4) }))
    );
}
