use uh_ios::capability::CapabilityManager;
use uh_ios::types::{Capability, CapabilitySet, SystemState, VMState, VMID};
use uh_ios::vm::VMManager;
use uh_ios::Error;

#[test]
fn capability_set_behaves_as_a_set() {
    let mut set = CapabilitySet::new();
    assert_eq!(set.to_vec(), vec![]);
    assert!(!set.contains(&Capability::Halt));

    assert!(set.insert(Capability::Halt));
    assert!(!set.insert(Capability::Halt));
    assert!(set.insert(Capability::Execute));
    assert!(set.contains(&Capability::Halt));
    assert!(set.contains(&Capability::Execute));
    assert!(!set.contains(&Capability::MapMemory));
    assert_eq!(set.to_vec(), vec![Capability::Execute, Capability::Halt]);

    assert!(set.remove(&Capability::Halt));
    assert!(!set.remove(&Capability::Halt));
    assert!(!set.remove(&Capability::HandleExit));
    assert_eq!(set.to_vec(), vec![Capability::Execute]);

    assert!(set.insert(Capability::HandleExit));
    assert!(set.insert(Capability::MapMemory));
    assert!(set.insert(Capability::Halt));
    assert_eq!(
        set.to_vec(),
        vec![
            Capability::Execute,
            Capability::MapMemory,
            Capability::HandleExit,
            Capability::Halt
        ]
    );
}

#[test]
fn container_grants_without_asking_for_the_vm() {
    let mut state = SystemState::new();
    let nobody = VMID(9);
    assert!(!state.has_capability(nobody, Capability::Halt));
    state.grant_capability(nobody, Capability::Halt);
    state.grant_capability(nobody, Capability::Halt);
    assert!(!state.vms.contains_key(&nobody.0));
    assert_eq!(state.caps.get(&nobody.0).unwrap().to_vec(), vec![Capability::Halt]);

    // a VM that does not exist holds nothing, whatever is recorded for it
    assert!(!state.has_capability(nobody, Capability::Halt));
    state.vms.insert(nobody.0, VMState::Created);
    assert!(state.has_capability(nobody, Capability::Halt));
    assert!(!state.has_capability(nobody, Capability::Execute));

    state.revoke_capability(nobody, Capability::Halt);
    assert!(!state.has_capability(nobody, Capability::Halt));
    state.revoke_capability(VMID(10), Capability::Halt);
    assert!(!state.caps.contains_key(&10));
}

#[test]
fn grant_and_revoke_are_idempotent() {
    let mut state = SystemState::new();
    let vmid = state.allocate_vmid();
    state.vms.insert(vmid.0, VMState::Created);
    assert_eq!(CapabilityManager::get_capabilities(&state, vmid).unwrap(), vec![]);

    CapabilityManager::revoke_capability(&mut state, vmid, Capability::Halt).unwrap();
    assert_eq!(CapabilityManager::get_capabilities(&state, vmid).unwrap(), vec![]);

    CapabilityManager::grant_capability(&mut state, vmid, Capability::HandleExit).unwrap();
    CapabilityManager::grant_capability(&mut state, vmid, Capability::HandleExit).unwrap();
    assert_eq!(
        CapabilityManager::get_capabilities(&state, vmid).unwrap(),
        vec![Capability::HandleExit]
    );

    CapabilityManager::revoke_capability(&mut state, vmid, Capability::HandleExit).unwrap();
    CapabilityManager::revoke_capability(&mut state, vmid, Capability::HandleExit).unwrap();
    assert_eq!(CapabilityManager::get_capabilities(&state, vmid).unwrap(), vec![]);
    assert!(!CapabilityManager::check_capability(&state, vmid, Capability::HandleExit));
}

#[test]
fn capabilities_of_an_unknown_vm() {
    let mut state = SystemState::new();
    let known = VMManager::create_vm(&mut state).unwrap();
    let ghost = VMID(77);

    assert!(!CapabilityManager::check_capability(&state, ghost, Capability::Execute));
    assert!(matches!(
        CapabilityManager::grant_capability(&mut state, ghost, Capability::Execute),
        Err(Error::VMNotFound(v)) if v == ghost
    ));
    assert!(matches!(
        CapabilityManager::revoke_capability(&mut state, ghost, Capability::Execute),
        Err(Error::VMNotFound(v)) if v == ghost
    ));
    assert!(matches!(
        CapabilityManager::get_capabilities(&state, ghost),
        Err(Error::VMNotFound(v)) if v == ghost
    ));
    assert!(matches!(
        CapabilityManager::require_capability(&state, ghost, Capability::Execute),
        Err(Error::CapabilityError(_))
    ));
    assert!(matches!(
        CapabilityManager::transfer_capability(&mut state, ghost, known, Capability::Halt, false),
        Err(Error::VMNotFound(v)) if v == ghost
    ));
    assert!(matches!(
        CapabilityManager::transfer_capability(&mut state, known, ghost, Capability::Halt, true),
        Err(Error::VMNotFound(v)) if v == ghost
    ));
    assert!(matches!(
        CapabilityManager::transfer_capability(&mut state, ghost, VMID(78), Capability::Halt, true),
        Err(Error::VMNotFound(v)) if v == ghost
    ));
    assert!(state.has_capability(known, Capability::Halt));
    assert!(!state.caps.contains_key(&ghost.0));
}

#[test]
fn revoked_capabilities_leave_the_list() {
    let mut state = SystemState::new();
    let vmid = VMManager::create_vm(&mut state).unwrap();
    CapabilityManager::revoke_capability(&mut state, vmid, Capability::MapMemory).unwrap();
    CapabilityManager::revoke_capability(&mut state, vmid, Capability::Halt).unwrap();
    let mut caps = CapabilityManager::get_capabilities(&state, vmid).unwrap();
    caps.sort_by_key(|cap| format!("{:?}", cap));
    assert_eq!(caps, vec![Capability::Execute, Capability::HandleExit]);
}

#[test]
fn transfer_needs_the_capability_at_the_source() {
    let mut state = SystemState::new();
    let a = VMManager::create_vm(&mut state).unwrap();
    let b = VMManager::create_vm(&mut state).unwrap();
    CapabilityManager::revoke_capability(&mut state, a, Capability::Halt).unwrap();
    CapabilityManager::revoke_capability(&mut state, b, Capability::Halt).unwrap();

    for move_capability in [false, true] {
        let result = CapabilityManager::transfer_capability(
            &mut state,
            a,
            b,
            Capability::Halt,
            move_capability,
        );
        match result {
            Err(Error::CapabilityError(text)) => {
                assert_eq!(text, "Source VM VMID(0) does not have capability Halt")
            }
            other => panic!("unexpected result {:?}", other),
        }
        assert!(!state.has_capability(a, Capability::Halt));
        assert!(!state.has_capability(b, Capability::Halt));
    }
}

#[test]
fn transfer_to_oneself_is_a_grant() {
    let mut state = SystemState::new();
    let vmid = VMManager::create_vm(&mut state).unwrap();
    for move_capability in [false, true] {
        CapabilityManager::transfer_capability(
            &mut state,
            vmid,
            vmid,
            Capability::Execute,
            move_capability,
        )
        .unwrap();
        assert!(state.has_capability(vmid, Capability::Execute));
        assert_eq!(CapabilityManager::get_capabilities(&state, vmid).unwrap().len(), 4);
    }
}

#[test]
fn transfer_touches_one_capability_only() {
    let mut state = SystemState::new();
    let a = VMManager::create_vm(&mut state).unwrap();
    let b = VMManager::create_vm(&mut state).unwrap();
    CapabilityManager::revoke_capability(&mut state, b, Capability::Execute).unwrap();
    CapabilityManager::revoke_capability(&mut state, b, Capability::Halt).unwrap();

    CapabilityManager::transfer_capability(&mut state, a, b, Capability::Execute, true).unwrap();
    assert_eq!(
        CapabilityManager::get_capabilities(&state, a).unwrap(),
        vec![Capability::MapMemory, Capability::HandleExit, Capability::Halt]
    );
    assert_eq!(
        CapabilityManager::get_capabilities(&state, b).unwrap(),
        vec![Capability::Execute, Capability::MapMemory, Capability::HandleExit]
    );
}
