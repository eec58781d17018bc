use uh_ios::capability::CapabilityManager;
use uh_ios::types::{Capability, SystemState, VMState};
use uh_ios::vm::VMManager;

#[test]
fn test_capability_check() {
    let mut state = SystemState::new();
    let vmid = VMManager::create_vm(&mut state).unwrap();

    // VM should have Execute capability after creation
    assert!(CapabilityManager::check_capability(&state, vmid, Capability::Execute));
}

#[test]
fn test_capability_grant() {
    let mut state = SystemState::new();
    let vmid = state.allocate_vmid();
    state.vms.insert(vmid.0, VMState::Created);

    assert!(!CapabilityManager::check_capability(&state, vmid, Capability::Execute));

    CapabilityManager::grant_capability(&mut state, vmid, Capability::Execute).unwrap();

    assert!(CapabilityManager::check_capability(&state, vmid, Capability::Execute));
}

#[test]
fn test_capability_revoke() {
    let mut state = SystemState::new();
    let vmid = VMManager::create_vm(&mut state).unwrap();

    assert!(CapabilityManager::check_capability(&state, vmid, Capability::Execute));

    CapabilityManager::revoke_capability(&mut state, vmid, Capability::Execute).unwrap();

    assert!(!CapabilityManager::check_capability(&state, vmid, Capability::Execute));
}

#[test]
fn test_require_capability() {
    let mut state = SystemState::new();
    let vmid = VMManager::create_vm(&mut state).unwrap();

    // Should succeed with capability
    assert!(CapabilityManager::require_capability(&state, vmid, Capability::Execute).is_ok());

    CapabilityManager::revoke_capability(&mut state, vmid, Capability::Execute).unwrap();

    // Should fail without capability
    assert!(CapabilityManager::require_capability(&state, vmid, Capability::Execute).is_err());
}

#[test]
fn test_get_capabilities() {
    let mut state = SystemState::new();
    let vmid = VMManager::create_vm(&mut state).unwrap();

    let caps = CapabilityManager::get_capabilities(&state, vmid).unwrap();

    // VM should have all basic capabilities after creation
    assert!(caps.contains(&Capability::Execute));
    assert!(caps.contains(&Capability::MapMemory));
}

#[test]
fn test_capability_transfer() {
    let mut state = SystemState::new();
    let vm1 = VMManager::create_vm(&mut state).unwrap();
    let vm2 = VMManager::create_vm(&mut state).unwrap();

    // Remove Execute from vm2
    CapabilityManager::revoke_capability(&mut state, vm2, Capability::Execute).unwrap();

    assert!(CapabilityManager::check_capability(&state, vm1, Capability::Execute));
    assert!(!CapabilityManager::check_capability(&state, vm2, Capability::Execute));

    // Transfer with copy (both should have it)
    CapabilityManager::transfer_capability(&mut state, vm1, vm2, Capability::Execute, false)
        .unwrap();

    assert!(CapabilityManager::check_capability(&state, vm1, Capability::Execute));
    assert!(CapabilityManager::check_capability(&state, vm2, Capability::Execute));
}

#[test]
fn test_capability_move() {
    let mut state = SystemState::new();
    let vm1 = VMManager::create_vm(&mut state).unwrap();
    let vm2 = VMManager::create_vm(&mut state).unwrap();

    // Remove Halt from vm2
    CapabilityManager::revoke_capability(&mut state, vm2, Capability::Halt).unwrap();

    // Transfer with move (only target should have it)
    CapabilityManager::transfer_capability(&mut state, vm1, vm2, Capability::Halt, true).unwrap();

    assert!(!CapabilityManager::check_capability(&state, vm1, Capability::Halt));
    assert!(CapabilityManager::check_capability(&state, vm2, Capability::Halt));
}
