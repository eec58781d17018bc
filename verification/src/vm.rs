//! The lifecycle of a VM: created, runnable, trapped, halted, destroyed.
//!
//! ```text
//! (none) --create--> Created --initialize--> Runnable <--resume-- Trapped
//!                                               |                     ^
//!                                               +--------trap---------+
//! any state but Halted --halt--> Halted
//! ```

use crate::text::{capability_required, capability_required_text};
use crate::types::{
    default_capabilities, CPUState, Capability, ExitReason, SystemModel, SystemState, VMState,
    VMID,
};
use crate::{outcome, Error, ErrorModel};
use std::collections::VecDeque;
use vstd::prelude::*;

verus! {

/// Holds of the exits that do not belong to `v`.
pub open spec fn not_of(v: VMID) -> spec_fn((VMID, ExitReason)) -> bool {
    |exit: (VMID, ExitReason)| exit.0 != v
}

/// What is left of a queue without the exits of `v` are the exits of the
/// other VMs, all of them.
pub proof fn lemma_without_exits_of(exits: Seq<(VMID, ExitReason)>, v: VMID)
    ensures
        forall|i: int|
            0 <= i < exits.filter(not_of(v)).len() ==> {
                &&& (#[trigger] exits.filter(not_of(v))[i]).0 != v
                &&& exits.contains(exits.filter(not_of(v))[i])
            },
        forall|i: int|
            0 <= i < exits.len() && exits[i].0 != v ==> exits.filter(not_of(v)).contains(
                #[trigger] exits[i],
            ),
{
    let kept = exits.filter(not_of(v));
    assert forall|i: int| 0 <= i < kept.len() implies (#[trigger] kept[i]).0 != v
        && exits.contains(kept[i]) by {
        exits.lemma_filter_contains_rev(not_of(v), kept[i]);
    }
    assert forall|i: int| 0 <= i < exits.len() && exits[i].0 != v implies kept.contains(
        #[trigger] exits[i],
    ) by {
        exits.lemma_filter_contains(not_of(v), i);
    }
}

impl SystemModel {
    /// Creation: the next handle names a new VM, which is Created and holds
    /// the default capabilities.
    pub open spec fn create(self) -> SystemModel {
        let v = self.next_handle();
        SystemModel {
            vms: self.vms.insert(v, VMState::Created),
            caps: self.caps.insert(v, self.capabilities_of(v).union(default_capabilities())),
            next_vmid: self.next_vmid + 1,
            ..self
        }
    }

    /// Initialization: a Created VM that holds Execute becomes Runnable.
    pub open spec fn initialize(self, v: VMID, cpu: CPUState) -> (SystemModel, Result<
        (),
        ErrorModel,
    >) {
        if !self.has_vm(v) {
            (self, Err(ErrorModel::VMNotFound(v)))
        } else if !(self.vms[v] is Created) {
            (self, Err(ErrorModel::InvalidVMState(v)))
        } else if !self.holds(v, Capability::Execute) {
            (self, Err(ErrorModel::CapabilityError(capability_required(Capability::Execute))))
        } else {
            (self.with_vm(v, VMState::Runnable(cpu)), Ok(()))
        }
    }

    /// A trap: a VM that is not Halted becomes Trapped, and the exit joins
    /// the end of the queue.
    pub open spec fn trap(self, v: VMID, reason: ExitReason, cpu: CPUState) -> (
        SystemModel,
        Result<(), ErrorModel>,
    ) {
        if !self.has_vm(v) {
            (self, Err(ErrorModel::VMNotFound(v)))
        } else if self.vms[v] is Halted {
            (self, Err(ErrorModel::InvalidVMState(v)))
        } else {
            (
                SystemModel {
                    vms: self.vms.insert(v, VMState::Trapped(reason, cpu)),
                    exits: self.exits.push((v, reason)),
                    ..self
                },
                Ok(()),
            )
        }
    }

    /// Resumption: a Trapped VM that holds Execute becomes Runnable; the
    /// exit reason it was trapped with is dropped.
    pub open spec fn resume(self, v: VMID, cpu: CPUState) -> (SystemModel, Result<
        (),
        ErrorModel,
    >) {
        if !self.has_vm(v) {
            (self, Err(ErrorModel::VMNotFound(v)))
        } else if !(self.vms[v] is Trapped) {
            (self, Err(ErrorModel::InvalidVMState(v)))
        } else if !self.holds(v, Capability::Execute) {
            (self, Err(ErrorModel::CapabilityError(capability_required(Capability::Execute))))
        } else {
            (self.with_vm(v, VMState::Runnable(cpu)), Ok(()))
        }
    }

    /// Halting: a VM that holds Halt becomes Halted, whatever its state was;
    /// on a Halted VM this changes nothing and succeeds.
    pub open spec fn halt(self, v: VMID) -> (SystemModel, Result<(), ErrorModel>) {
        if !self.has_vm(v) {
            (self, Err(ErrorModel::VMNotFound(v)))
        } else if !self.holds(v, Capability::Halt) {
            (self, Err(ErrorModel::CapabilityError(capability_required(Capability::Halt))))
        } else {
            (self.with_vm(v, VMState::Halted), Ok(()))
        }
    }

    /// Destruction: the VM, its capabilities and its pending exits leave the
    /// state; the exits of the other VMs keep their order. Its regions stay
    /// where they are.
    pub open spec fn destroy(self, v: VMID) -> (SystemModel, Result<(), ErrorModel>) {
        if !self.has_vm(v) {
            (self, Err(ErrorModel::VMNotFound(v)))
        } else {
            (
                SystemModel {
                    vms: self.vms.remove(v),
                    caps: self.caps.remove(v),
                    exits: self.exits.filter(not_of(v)),
                    ..self
                },
                Ok(()),
            )
        }
    }

    /// Whether no exit of `v` is pending.
    pub open spec fn no_exit_of(self, v: VMID) -> bool {
        forall|i: int| 0 <= i < self.exits.len() ==> (#[trigger] self.exits[i]).0 != v
    }

    /// Where the handles in use were allocated, creation keeps it so; the
    /// VM it makes is new, holds exactly the default capabilities, and has
    /// neither regions nor pending exits. Creation keeps the invariant.
    pub proof fn lemma_create(self)
        requires
            self.handles_allocated(),
            self.can_allocate(),
        ensures
            self.create().handles_allocated(),
            !self.has_vm(self.next_handle()),
            self.create().vms[self.next_handle()] == VMState::Created,
            self.create().capabilities_of(self.next_handle()) == default_capabilities(),
            !self.create().memory.contains_key(self.next_handle()),
            self.create().no_exit_of(self.next_handle()),
            self.wf() ==> self.create().wf(),
    {
        self.lemma_next_handle_unused();
    }

    /// Initialization keeps the invariant.
    pub proof fn lemma_initialize_wf(self, v: VMID, cpu: CPUState)
        requires
            self.wf(),
        ensures
            self.initialize(v, cpu).0.wf(),
    {
        if self.has_vm(v) {
            self.lemma_with_vm_wf(v, VMState::Runnable(cpu));
        }
    }

    /// A trap keeps the invariant.
    pub proof fn lemma_trap_wf(self, v: VMID, reason: ExitReason, cpu: CPUState)
        requires
            self.wf(),
        ensures
            self.trap(v, reason, cpu).0.wf(),
    {
    }

    /// Resumption keeps the invariant.
    pub proof fn lemma_resume_wf(self, v: VMID, cpu: CPUState)
        requires
            self.wf(),
        ensures
            self.resume(v, cpu).0.wf(),
    {
        if self.has_vm(v) {
            self.lemma_with_vm_wf(v, VMState::Runnable(cpu));
        }
    }

    /// Halting keeps the invariant.
    pub proof fn lemma_halt_wf(self, v: VMID)
        requires
            self.wf(),
        ensures
            self.halt(v).0.wf(),
    {
        if self.has_vm(v) {
            self.lemma_with_vm_wf(v, VMState::Halted);
        }
    }

    /// After a destruction no exit of the VM is pending and no capability is
    /// recorded for it. Destruction keeps the handles allocated and the
    /// memory isolated. It keeps the whole invariant where the regions of
    /// the VM were released.
    pub proof fn lemma_destroy(self, v: VMID)
        ensures
            self.destroy(v).1 is Ok ==> self.destroy(v).0.no_exit_of(v),
            self.destroy(v).1 is Ok ==> !self.destroy(v).0.caps.contains_key(v),
            !self.destroy(v).0.has_vm(v),
            self.handles_allocated() ==> self.destroy(v).0.handles_allocated(),
            self.memory_isolated() ==> self.destroy(v).0.memory_isolated(),
            self.wf() && !self.memory.contains_key(v) ==> self.destroy(v).0.wf(),
    {
        lemma_without_exits_of(self.exits, v);
        let after = self.destroy(v).0;
        if self.has_vm(v) {
            assert forall|i: int| 0 <= i < after.exits.len() implies {
                &&& self.handles_allocated() ==> (#[trigger] after.exits[i]).0.0 < after.next_vmid
                &&& self.wf() ==> after.vms.contains_key(after.exits[i].0)
            } by {
                let j = choose|j: int| 0 <= j < self.exits.len() && self.exits[j] == after.exits[i];
                assert(self.exits[j] == after.exits[i]);
            }
        }
    }
}

/// The operations of the VM lifecycle.
pub struct VMManager;

impl VMManager {
    /// Creates a VM: allocates a handle, puts the VM in Created and grants it
    /// the default capabilities. Never fails; the counter of handles must
    /// not have run out. Where the handles in use were allocated, the handle
    /// is new: it named no VM, and the VM holds exactly the default
    /// capabilities and has neither regions nor pending exits.
    pub fn create_vm(state: &mut SystemState) -> (result: Result<VMID, Error>)
        requires
            old(state)@.can_allocate(),
        ensures
            result is Ok,
            result->Ok_0 == old(state)@.next_handle(),
            final(state)@ == old(state)@.create(),
            final(state)@.vms[result->Ok_0] == VMState::Created,
            forall|c: Capability|
                default_capabilities().contains(c) ==> final(state)@.holds(result->Ok_0, c),
            old(state)@.handles_allocated() ==> {
                &&& final(state)@.handles_allocated()
                &&& !old(state)@.has_vm(result->Ok_0)
                &&& final(state)@.capabilities_of(result->Ok_0) == default_capabilities()
                &&& !final(state)@.memory.contains_key(result->Ok_0)
                &&& final(state)@.no_exit_of(result->Ok_0)
            },
            old(state)@.wf() ==> final(state)@.wf(),
    {
        let vmid = state.allocate_vmid();
        state.vms.insert(vmid.0, VMState::Created);
        state.grant_capability(vmid, Capability::Execute);
        state.grant_capability(vmid, Capability::MapMemory);
        state.grant_capability(vmid, Capability::HandleExit);
        state.grant_capability(vmid, Capability::Halt);
        proof {
            assert(state@.caps[vmid] == old(state)@.capabilities_of(vmid).union(
                default_capabilities(),
            ));
            if old(state)@.handles_allocated() {
                old(state)@.lemma_create();
            }
        }
        Ok(vmid)
    }

    /// Makes a Created VM Runnable with the given CPU state. Fails, in this
    /// order, with `VMNotFound` for a VM that does not exist, with
    /// `InvalidVMState` for one that is not Created, and with
    /// `CapabilityError` for one that lacks Execute; then nothing changes.
    pub fn initialize_vm(state: &mut SystemState, vmid: VMID, cpu_state: CPUState) -> (result:
        Result<(), Error>)
        ensures
            final(state)@ == old(state)@.initialize(vmid, cpu_state).0,
            outcome(result) == old(state)@.initialize(vmid, cpu_state).1,
            result is Ok <==> old(state)@.has_vm(vmid) && old(state)@.vms[vmid] is Created
                && old(state)@.holds(vmid, Capability::Execute),
            result is Ok ==> final(state)@.vms[vmid] == VMState::Runnable(cpu_state),
            result is Err ==> final(state)@ == old(state)@,
            old(state)@.handles_allocated() ==> final(state)@.handles_allocated(),
            old(state)@.wf() ==> final(state)@.wf(),
    {
        proof {
            if state@.wf() {
                state@.lemma_initialize_wf(vmid, cpu_state);
            }
        }
        match state.vms.get(&vmid.0) {
            None => {
                return Err(Error::VMNotFound(vmid));
            },
            Some(VMState::Created) => {},
            Some(_) => {
                return Err(Error::InvalidVMState(vmid));
            },
        }
        if !state.has_capability(vmid, Capability::Execute) {
            return Err(Error::CapabilityError(capability_required_text(Capability::Execute)));
        }
        state.vms.insert(vmid.0, VMState::Runnable(cpu_state));
        assert(state@ == old(state)@.with_vm(vmid, VMState::Runnable(cpu_state)));
        Ok(())
    }

    /// Records that the oracle reported an exit of the VM: the VM becomes
    /// Trapped and the exit is queued. No capability is needed. Fails with
    /// `VMNotFound` for a VM that does not exist and with `InvalidVMState`
    /// for a Halted one; then nothing changes.
    pub fn trap_vm(
        state: &mut SystemState,
        vmid: VMID,
        exit_reason: ExitReason,
        cpu_state: CPUState,
    ) -> (result: Result<(), Error>)
        ensures
            final(state)@ == old(state)@.trap(vmid, exit_reason, cpu_state).0,
            outcome(result) == old(state)@.trap(vmid, exit_reason, cpu_state).1,
            result is Ok <==> old(state)@.has_vm(vmid) && !(old(state)@.vms[vmid] is Halted),
            result is Ok ==> final(state)@.vms[vmid] == VMState::Trapped(exit_reason, cpu_state),
            result is Ok ==> final(state)@.exits == old(state)@.exits.push((vmid, exit_reason)),
            result is Err ==> final(state)@ == old(state)@,
            old(state)@.handles_allocated() ==> final(state)@.handles_allocated(),
            old(state)@.wf() ==> final(state)@.wf(),
    {
        proof {
            if state@.wf() {
                state@.lemma_trap_wf(vmid, exit_reason, cpu_state);
            }
        }
        match state.vms.get(&vmid.0) {
            None => {
                return Err(Error::VMNotFound(vmid));
            },
            Some(VMState::Halted) => {
                return Err(Error::InvalidVMState(vmid));
            },
            Some(_) => {},
        }
        state.vms.insert(vmid.0, VMState::Trapped(exit_reason, cpu_state));
        state.exits.push_back((vmid, exit_reason));
        assert(state@ == old(state)@.trap(vmid, exit_reason, cpu_state).0);
        Ok(())
    }

    /// Makes a Trapped VM Runnable again with the given CPU state. Fails, in
    /// this order, with `VMNotFound` for a VM that does not exist, with
    /// `InvalidVMState` for one that is not Trapped, and with
    /// `CapabilityError` for one that lacks Execute; then nothing changes.
    pub fn resume_vm(state: &mut SystemState, vmid: VMID, cpu_state: CPUState) -> (result: Result<
        (),
        Error,
    >)
        ensures
            final(state)@ == old(state)@.resume(vmid, cpu_state).0,
            outcome(result) == old(state)@.resume(vmid, cpu_state).1,
            result is Ok <==> old(state)@.has_vm(vmid) && old(state)@.vms[vmid] is Trapped
                && old(state)@.holds(vmid, Capability::Execute),
            result is Ok ==> final(state)@.vms[vmid] == VMState::Runnable(cpu_state),
            result is Err ==> final(state)@ == old(state)@,
            old(state)@.handles_allocated() ==> final(state)@.handles_allocated(),
            old(state)@.wf() ==> final(state)@.wf(),
    {
        proof {
            if state@.wf() {
                state@.lemma_resume_wf(vmid, cpu_state);
            }
        }
        match state.vms.get(&vmid.0) {
            None => {
                return Err(Error::VMNotFound(vmid));
            },
            Some(VMState::Trapped(_, _)) => {},
            Some(_) => {
                return Err(Error::InvalidVMState(vmid));
            },
        }
        if !state.has_capability(vmid, Capability::Execute) {
            return Err(Error::CapabilityError(capability_required_text(Capability::Execute)));
        }
        state.vms.insert(vmid.0, VMState::Runnable(cpu_state));
        assert(state@ == old(state)@.with_vm(vmid, VMState::Runnable(cpu_state)));
        Ok(())
    }

    /// Halts the VM for good, from whatever state; halting a Halted VM
    /// succeeds and changes nothing. Fails with `VMNotFound` for a VM that
    /// does not exist and with `CapabilityError` for one that lacks Halt.
    pub fn halt_vm(state: &mut SystemState, vmid: VMID) -> (result: Result<(), Error>)
        ensures
            final(state)@ == old(state)@.halt(vmid).0,
            outcome(result) == old(state)@.halt(vmid).1,
            result is Ok <==> old(state)@.holds(vmid, Capability::Halt),
            result is Ok ==> final(state)@.vms[vmid] == VMState::Halted,
            result is Err ==> final(state)@ == old(state)@,
            old(state)@.handles_allocated() ==> final(state)@.handles_allocated(),
            old(state)@.wf() ==> final(state)@.wf(),
    {
        proof {
            if state@.wf() {
                state@.lemma_halt_wf(vmid);
            }
        }
        if !state.vms.contains_key(&vmid.0) {
            return Err(Error::VMNotFound(vmid));
        }
        if !state.has_capability(vmid, Capability::Halt) {
            return Err(Error::CapabilityError(capability_required_text(Capability::Halt)));
        }
        state.vms.insert(vmid.0, VMState::Halted);
        assert(state@ == old(state)@.with_vm(vmid, VMState::Halted));
        Ok(())
    }

    /// The lifecycle state of the VM, or `VMNotFound`.
    pub fn get_vm_state(state: &SystemState, vmid: VMID) -> (result: Result<&VMState, Error>)
        ensures
            match result {
                Ok(vm_state) => state@.has_vm(vmid) && *vm_state == state@.vms[vmid],
                Err(error) => !state@.has_vm(vmid) && error@ == ErrorModel::VMNotFound(vmid),
            },
    {
        match state.vms.get(&vmid.0) {
            Some(vm_state) => Ok(vm_state),
            None => Err(Error::VMNotFound(vmid)),
        }
    }

    /// Removes the VM, its capabilities and its pending exits, or fails with
    /// `VMNotFound`. The exits of the other VMs keep their order. Regions of
    /// the VM are not touched: release them first, or they stay behind
    /// without a VM.
    pub fn destroy_vm(state: &mut SystemState, vmid: VMID) -> (result: Result<(), Error>)
        ensures
            final(state)@ == old(state)@.destroy(vmid).0,
            outcome(result) == old(state)@.destroy(vmid).1,
            result is Ok <==> old(state)@.has_vm(vmid),
            !final(state)@.has_vm(vmid),
            result is Ok ==> !final(state)@.caps.contains_key(vmid),
            result is Ok ==> forall|i: int|
                0 <= i < final(state)@.exits.len() ==> (#[trigger] final(state)@.exits[i]).0
                    != vmid,
            result is Err ==> final(state)@ == old(state)@,
            old(state)@.handles_allocated() ==> final(state)@.handles_allocated(),
            old(state)@.memory_isolated() ==> final(state)@.memory_isolated(),
            old(state)@.wf() && !old(state)@.memory.contains_key(vmid) ==> final(state)@.wf(),
    {
        proof {
            state@.lemma_destroy(vmid);
        }
        if !state.vms.contains_key(&vmid.0) {
            return Err(Error::VMNotFound(vmid));
        }
        state.vms.remove(&vmid.0);
        state.caps.remove(&vmid.0);
        Self::drop_exits_of(&mut state.exits, vmid);
        assert(state@ == old(state)@.destroy(vmid).0);
        Ok(())
    }

    /// Takes the exits of the VM off the queue; the others keep their order.
    fn drop_exits_of(exits: &mut VecDeque<(VMID, ExitReason)>, vmid: VMID)
        ensures
            final(exits)@ == old(exits)@.filter(not_of(vmid)),
    {
        let mut kept: VecDeque<(VMID, ExitReason)> = VecDeque::new();
        let count: usize = exits.len();
        let mut seen: usize = 0;
        while seen < count
            invariant
                seen <= count,
                count == old(exits)@.len(),
                exits@ == old(exits)@.subrange(seen as int, count as int),
                kept@ == old(exits)@.subrange(0, seen as int).filter(not_of(vmid)),
            decreases count - seen,
        {
            proof {
                reveal(Seq::filter);
                assert(old(exits)@.subrange(0, seen + 1).drop_last() == old(exits)@.subrange(
                    0,
                    seen as int,
                ));
            }
            match exits.pop_front() {
                Some(exit) => {
                    if exit.0.0 != vmid.0 {
                        kept.push_back(exit);
                    }
                },
                None => {},
            }
            seen = seen + 1;
        }
        assert(old(exits)@.subrange(0, count as int) == old(exits)@);
        *exits = kept;
    }
}

} // verus!
