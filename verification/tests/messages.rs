use uh_ios::capability::CapabilityManager;
use uh_ios::exit::ExitHandler;
use uh_ios::text::{
    capability_required_text, decimal_text, lacks_capability_text, source_lacks_capability_text,
};
use uh_ios::types::{CPUState, Capability, ExitReason, SystemState, VMID};
use uh_ios::vm::VMManager;
use uh_ios::Error;

fn capability_message<T: std::fmt::Debug>(result: Result<T, Error>) -> String {
    match result {
        Err(Error::CapabilityError(text)) => text,
        other => panic!("expected a capability error, got {:?}", other),
    }
}

#[test]
fn numbers_are_written_in_decimal() {
    assert_eq!(decimal_text(0), "0");
    assert_eq!(decimal_text(7), "7");
    assert_eq!(decimal_text(9), "9");
    assert_eq!(decimal_text(10), "10");
    assert_eq!(decimal_text(99), "99");
    assert_eq!(decimal_text(100), "100");
    assert_eq!(decimal_text(1234567890), "1234567890");
    assert_eq!(decimal_text(u32::MAX), "4294967295");
    for n in [1u32, 19, 20, 101, 1000, 65535, 65536, 305419896] {
        assert_eq!(decimal_text(n), format!("{}", n));
    }
}

#[test]
fn messages_name_the_vm_and_the_capability() {
    assert_eq!(capability_required_text(Capability::Execute), "Execute capability required");
    assert_eq!(capability_required_text(Capability::MapMemory), "MapMemory capability required");
    assert_eq!(capability_required_text(Capability::HandleExit), "HandleExit capability required");
    assert_eq!(capability_required_text(Capability::Halt), "Halt capability required");
    assert_eq!(
        lacks_capability_text(VMID(12), Capability::MapMemory),
        "VM VMID(12) lacks required capability MapMemory"
    );
    assert_eq!(
        source_lacks_capability_text(VMID(4000000000), Capability::HandleExit),
        "Source VM VMID(4000000000) does not have capability HandleExit"
    );
    let all = [Capability::Execute, Capability::MapMemory, Capability::HandleExit, Capability::Halt];
    for cap in all {
        let vmid = VMID(305);
        assert_eq!(
            lacks_capability_text(vmid, cap),
            format!("VM {:?} lacks required capability {:?}", vmid, cap)
        );
        assert_eq!(
            source_lacks_capability_text(vmid, cap),
            format!("Source VM {:?} does not have capability {:?}", vmid, cap)
        );
    }
}

#[test]
fn operations_say_which_capability_they_miss() {
    let cpu = CPUState::default();
    let mut state = SystemState::new();
    let vmid = VMManager::create_vm(&mut state).unwrap();
    for cap in [Capability::Execute, Capability::HandleExit, Capability::Halt] {
        CapabilityManager::revoke_capability(&mut state, vmid, cap).unwrap();
    }

    assert_eq!(
        capability_message(VMManager::initialize_vm(&mut state, vmid, cpu)),
        "Execute capability required"
    );
    assert_eq!(
        capability_message(VMManager::halt_vm(&mut state, vmid)),
        "Halt capability required"
    );
    assert_eq!(
        capability_message(ExitHandler::handle_exit(&state, vmid, &ExitReason::WFI, &cpu)),
        "HandleExit capability required"
    );
    assert_eq!(
        capability_message(CapabilityManager::require_capability(&state, vmid, Capability::Halt)),
        "VM VMID(0) lacks required capability Halt"
    );
    assert!(CapabilityManager::require_capability(&state, vmid, Capability::MapMemory).is_ok());

    VMManager::trap_vm(&mut state, vmid, ExitReason::WFI, cpu).unwrap();
    assert_eq!(
        capability_message(VMManager::resume_vm(&mut state, vmid, cpu)),
        "Execute capability required"
    );
}

#[test]
fn every_kind_of_error_carries_its_payload() {
    let errors = vec![
        Error::VMNotFound(VMID(3)),
        Error::InvalidVMState(VMID(4)),
        Error::MemoryError("m".to_string()),
        Error::CapabilityError("c".to_string()),
        Error::ExitError("e".to_string()),
        Error::HVFError("h".to_string()),
    ];
    let shown: Vec<String> = errors.iter().map(|error| format!("{:?}", error)).collect();
    assert_eq!(
        shown,
        vec![
            "VMNotFound(VMID(3))",
            "InvalidVMState(VMID(4))",
            "MemoryError(\"m\")",
            "CapabilityError(\"c\")",
            "ExitError(\"e\")",
            "HVFError(\"h\")",
        ]
    );
}
