//! What holds of the nucleus as a whole, proved of the functions of the
//! model that the operations carry out.

use crate::exit::{dispatch, ExitAction};
use crate::text::{capability_required, source_lacks_capability};
use crate::types::{CPUState, Capability, ExitReason, SystemModel, VMState, GPA, VMID};
use crate::vm::lemma_without_exits_of;
use crate::ErrorModel;
use vstd::prelude::*;

verus! {

/// One call of an operation of the nucleus, with what it is given.
pub enum Operation {
    /// `SystemState::allocate_vmid`
    Allocate,
    /// `VMManager::create_vm`
    Create,
    /// `VMManager::initialize_vm`
    Initialize { vmid: VMID, cpu: CPUState },
    /// `VMManager::trap_vm`
    Trap { vmid: VMID, reason: ExitReason, cpu: CPUState },
    /// `VMManager::resume_vm`
    Resume { vmid: VMID, cpu: CPUState },
    /// `VMManager::halt_vm`
    Halt { vmid: VMID },
    /// `VMManager::destroy_vm`
    Destroy { vmid: VMID },
    /// `CapabilityManager::grant_capability`
    Grant { vmid: VMID, cap: Capability },
    /// `CapabilityManager::revoke_capability`
    Revoke { vmid: VMID, cap: Capability },
    /// `CapabilityManager::transfer_capability`
    Transfer { source: VMID, target: VMID, cap: Capability, move_capability: bool },
    /// `MemoryManager::map_memory`
    MapMemory { vmid: VMID, gpa: GPA, length: u64, host_backing: u64, protection: u32 },
    /// `MemoryManager::unmap_memory`
    UnmapMemory { vmid: VMID, gpa: GPA, length: u64 },
    /// `MemoryManager::release_all`
    ReleaseAll { vmid: VMID },
    /// `ExitHandler::process_next_exit`
    ProcessNextExit,
    /// `ExitHandler::apply_exit_action`
    ApplyExitAction { vmid: VMID, action: ExitAction },
}

impl Operation {
    /// Whether the operation returns a handle that it allocated.
    pub open spec fn allocates(self) -> bool {
        self is Allocate || self is Create
    }

    /// Whether the operation may be called in state `s`: one that allocates
    /// needs a handle that is left to allocate.
    pub open spec fn allowed_in(self, s: SystemModel) -> bool {
        self.allocates() ==> s.can_allocate()
    }

    /// Whether the operation leaves no region without a VM behind in state
    /// `s`: a destruction must find the regions of the VM released.
    pub open spec fn tidy_in(self, s: SystemModel) -> bool {
        match self {
            Operation::Destroy { vmid } => !s.memory.contains_key(vmid),
            _ => true,
        }
    }

    /// Whether the operation is the destruction of `v`.
    pub open spec fn destroys(self, v: VMID) -> bool {
        match self {
            Operation::Destroy { vmid } => vmid == v,
            _ => false,
        }
    }
}

impl SystemModel {
    /// The state after one operation, whether it succeeds or fails.
    pub open spec fn step(self, op: Operation) -> SystemModel {
        match op {
            Operation::Allocate => self.allocate(),
            Operation::Create => self.create(),
            Operation::Initialize { vmid, cpu } => self.initialize(vmid, cpu).0,
            Operation::Trap { vmid, reason, cpu } => self.trap(vmid, reason, cpu).0,
            Operation::Resume { vmid, cpu } => self.resume(vmid, cpu).0,
            Operation::Halt { vmid } => self.halt(vmid).0,
            Operation::Destroy { vmid } => self.destroy(vmid).0,
            Operation::Grant { vmid, cap } => self.grant_checked(vmid, cap).0,
            Operation::Revoke { vmid, cap } => self.revoke_checked(vmid, cap).0,
            Operation::Transfer { source, target, cap, move_capability } => self.transfer(
                source,
                target,
                cap,
                move_capability,
            ).0,
            Operation::MapMemory { vmid, gpa, length, host_backing, protection } => self.map_memory(
                vmid,
                gpa,
                length,
                host_backing,
                protection,
            ).0,
            Operation::UnmapMemory { vmid, gpa, length } => self.unmap_memory(vmid, gpa, length).0,
            Operation::ReleaseAll { vmid } => self.release_all(vmid).0,
            Operation::ProcessNextExit => self.process_next_exit().0,
            Operation::ApplyExitAction { vmid, action } => self.apply_exit_action(vmid, action).0,
        }
    }

    /// The state after the operations `ops`, in order.
    pub open spec fn run(self, ops: Seq<Operation>) -> SystemModel
        decreases ops.len(),
    {
        if ops.len() == 0 {
            self
        } else {
            self.run(ops.drop_last()).step(ops.last())
        }
    }

    /// Whether each of `ops` is allowed in the state in which it is called.
    pub open spec fn allows(self, ops: Seq<Operation>) -> bool
        decreases ops.len(),
    {
        ops.len() == 0 || (self.allows(ops.drop_last()) && ops.last().allowed_in(
            self.run(ops.drop_last()),
        ))
    }

    /// Whether each of `ops` is tidy in the state in which it is called.
    pub open spec fn tidies(self, ops: Seq<Operation>) -> bool
        decreases ops.len(),
    {
        ops.len() == 0 || (self.tidies(ops.drop_last()) && ops.last().tidy_in(
            self.run(ops.drop_last()),
        ))
    }

    /// The handles that the allocations and creations among `ops` return,
    /// in order.
    pub open spec fn handles_created(self, ops: Seq<Operation>) -> Seq<VMID>
        decreases ops.len(),
    {
        if ops.len() == 0 {
            Seq::empty()
        } else if ops.last().allocates() {
            self.handles_created(ops.drop_last()).push(self.run(ops.drop_last()).next_handle())
        } else {
            self.handles_created(ops.drop_last())
        }
    }
}

/// Every operation keeps the memory isolated, and keeps the handles in use
/// allocated, each on its own and whatever else holds of the state. It
/// keeps the whole invariant unless it destroys a VM whose regions were
/// not released.
pub proof fn theorem_step_keeps_invariant(s: SystemModel, op: Operation)
    ensures
        s.memory_isolated() ==> s.step(op).memory_isolated(),
        s.handles_allocated() && op.allowed_in(s) ==> s.step(op).handles_allocated(),
        s.wf() && op.allowed_in(s) && op.tidy_in(s) ==> s.step(op).wf(),
{
    match op {
        Operation::Allocate => {
            if s.wf() && s.can_allocate() {
                s.lemma_allocate_wf();
            }
        },
        Operation::Create => {
            if s.handles_allocated() && s.can_allocate() {
                s.lemma_create();
            }
        },
        Operation::Initialize { vmid, cpu } => {
            if s.wf() {
                s.lemma_initialize_wf(vmid, cpu);
            }
        },
        Operation::Trap { vmid, reason, cpu } => {
            if s.wf() {
                s.lemma_trap_wf(vmid, reason, cpu);
            }
        },
        Operation::Resume { vmid, cpu } => {
            if s.wf() {
                s.lemma_resume_wf(vmid, cpu);
            }
        },
        Operation::Halt { vmid } => {
            if s.wf() {
                s.lemma_halt_wf(vmid);
            }
        },
        Operation::Destroy { vmid } => {
            s.lemma_destroy(vmid);
        },
        Operation::Grant { vmid, cap } => {
            if s.wf() && s.has_vm(vmid) {
                s.lemma_grant_wf(vmid, cap);
            }
        },
        Operation::Revoke { vmid, cap } => {
            if s.wf() {
                s.lemma_revoke_wf(vmid, cap);
            }
        },
        Operation::Transfer { source, target, cap, move_capability } => {
            if s.transfer(source, target, cap, move_capability).1 is Ok {
                s.lemma_transfer(source, target, cap, move_capability);
            }
        },
        Operation::MapMemory { vmid, gpa, length, host_backing, protection } => {
            if s.memory_isolated() {
                s.lemma_map_isolated(vmid, gpa, length, host_backing, protection);
            }
            if s.wf() {
                s.lemma_map_wf(vmid, gpa, length, host_backing, protection);
            }
        },
        Operation::UnmapMemory { vmid, gpa, length } => {
            if s.memory_isolated() {
                s.lemma_unmap_isolated(vmid, gpa, length);
            }
            if s.wf() {
                s.lemma_unmap_wf(vmid, gpa, length);
            }
        },
        Operation::ReleaseAll { vmid } => {
            if s.wf() {
                s.lemma_release_wf(vmid);
            }
        },
        Operation::ProcessNextExit => {
            if s.wf() {
                s.lemma_pump_wf();
            }
        },
        Operation::ApplyExitAction { vmid, action } => {
            if s.wf() {
                s.lemma_apply_wf(vmid, action);
            }
        },
    }
}

/// The invariant holds in every state that a run of operations reaches from
/// a state in which it holds, as long as no VM is destroyed before its
/// regions are released; the state without any VM is one.
pub proof fn theorem_invariant(s: SystemModel, ops: Seq<Operation>)
    requires
        s.wf(),
        s.allows(ops),
        s.tidies(ops),
    ensures
        s.run(ops).wf(),
        SystemModel::empty().wf(),
    decreases ops.len(),
{
    if ops.len() > 0 {
        theorem_invariant(s, ops.drop_last());
        theorem_step_keeps_invariant(s.run(ops.drop_last()), ops.last());
    }
}

/// Memory non-interference: whatever operations are carried out on a state
/// with isolated memory, in the state they lead to no two regions of
/// distinct VMs share a host byte, and no two regions of one VM share a
/// guest-physical byte. A state without regions has isolated memory.
pub proof fn theorem_memory_isolated(s: SystemModel, ops: Seq<Operation>)
    requires
        s.memory_isolated(),
    ensures
        s.run(ops).memory_isolated(),
        ({
            let t = s.run(ops);
            &&& forall|v: VMID, w: VMID, i: int, j: int|
                #![trigger t.memory[v][i], t.memory[w][j]]
                v != w && t.memory.contains_key(v) && t.memory.contains_key(w) && 0 <= i
                    < t.memory[v].len() && 0 <= j < t.memory[w].len()
                    ==> !t.memory[v][i].overlaps_host(
                    t.memory[w][j].host_backing,
                    t.memory[w][j].length,
                )
            &&& forall|v: VMID, i: int, j: int|
                #![trigger t.memory[v][i], t.memory[v][j]]
                t.memory.contains_key(v) && 0 <= i < j < t.memory[v].len()
                    ==> !t.memory[v][i].overlaps_guest(
                    t.memory[v][j].guest_base,
                    t.memory[v][j].length,
                )
        }),
    decreases ops.len(),
{
    if ops.len() > 0 {
        theorem_memory_isolated(s, ops.drop_last());
        theorem_step_keeps_invariant(s.run(ops.drop_last()), ops.last());
    }
}

/// The handles in use stay allocated in every run, also where the rest of
/// the invariant was given up: no allocation or creation of the run can
/// return a handle that names a VM, has capabilities or regions recorded,
/// or has an exit pending at that time.
pub proof fn theorem_handles_allocated(s: SystemModel, ops: Seq<Operation>)
    requires
        s.handles_allocated(),
        s.allows(ops),
    ensures
        s.run(ops).handles_allocated(),
        !s.run(ops).vms.contains_key(s.run(ops).next_handle()),
        !s.run(ops).caps.contains_key(s.run(ops).next_handle()),
        !s.run(ops).memory.contains_key(s.run(ops).next_handle()),
        s.run(ops).no_exit_of(s.run(ops).next_handle()),
    decreases ops.len(),
{
    if ops.len() > 0 {
        theorem_handles_allocated(s, ops.drop_last());
        theorem_step_keeps_invariant(s.run(ops.drop_last()), ops.last());
    }
    s.run(ops).lemma_next_handle_unused();
}

/// A state in which no VM has a memory entry has isolated memory.
pub proof fn lemma_no_regions_isolated(s: SystemModel)
    requires
        s.memory == Map::<VMID, Seq<crate::types::MemoryRegion>>::empty(),
    ensures
        s.memory_isolated(),
{
}

/// The counter never goes down in a run, and each handle that the run
/// handed out lies between the counter before and the counter after.
pub proof fn lemma_handles_created(s: SystemModel, ops: Seq<Operation>)
    requires
        s.allows(ops),
    ensures
        s.next_vmid <= s.run(ops).next_vmid,
        forall|i: int|
            0 <= i < s.handles_created(ops).len() ==> s.next_vmid <= (
            #[trigger] s.handles_created(ops)[i]).0 < s.run(ops).next_vmid,
        s.handles_created(ops).no_duplicates(),
    decreases ops.len(),
{
    if ops.len() > 0 {
        lemma_handles_created(s, ops.drop_last());
    }
}

/// Handles are fresh: in any run the allocations and creations never
/// return a handle twice, and none that named a VM, held a capability or
/// owned a region before the run.
pub proof fn theorem_handles_fresh(s: SystemModel, ops: Seq<Operation>)
    requires
        s.allows(ops),
    ensures
        s.handles_created(ops).no_duplicates(),
        s.handles_allocated() ==> forall|i: int|
            0 <= i < s.handles_created(ops).len() ==> {
                &&& !s.vms.contains_key(#[trigger] s.handles_created(ops)[i])
                &&& !s.caps.contains_key(s.handles_created(ops)[i])
                &&& !s.memory.contains_key(s.handles_created(ops)[i])
            },
{
    lemma_handles_created(s, ops);
}

/// The dispatcher is total: for a VM that exists and holds HandleExit, every
/// exit reason in every CPU state gets the action of the dispatch table.
pub proof fn theorem_dispatch_total(s: SystemModel, v: VMID, reason: ExitReason, cpu: CPUState)
    requires
        s.has_vm(v),
        s.holds(v, Capability::HandleExit),
    ensures
        s.handle_exit(v, reason, cpu) is Ok,
        s.handle_exit(v, reason, cpu) == Ok::<ExitAction, ErrorModel>(dispatch(reason, cpu)),
{
}

/// The dispatcher is deterministic: what it decides depends on the VM, the
/// exit reason and the CPU state, and on the system state only through
/// whether the VM exists and holds HandleExit.
pub proof fn theorem_dispatch_deterministic(
    s: SystemModel,
    t: SystemModel,
    v: VMID,
    reason: ExitReason,
    cpu: CPUState,
)
    requires
        s.has_vm(v) == t.has_vm(v),
        s.holds(v, Capability::HandleExit) == t.holds(v, Capability::HandleExit),
    ensures
        s.handle_exit(v, reason, cpu) == t.handle_exit(v, reason, cpu),
{
}

/// Capabilities are sound: an operation that is gated by a capability
/// succeeds only for a VM that holds it.
pub proof fn theorem_capability_sound(
    s: SystemModel,
    v: VMID,
    w: VMID,
    c: Capability,
    move_capability: bool,
    reason: ExitReason,
    cpu: CPUState,
    action: ExitAction,
    gpa: GPA,
    length: u64,
    host_backing: u64,
    protection: u32,
)
    ensures
        s.initialize(v, cpu).1 is Ok ==> s.holds(v, Capability::Execute),
        s.resume(v, cpu).1 is Ok ==> s.holds(v, Capability::Execute),
        s.halt(v).1 is Ok ==> s.holds(v, Capability::Halt),
        s.handle_exit(v, reason, cpu) is Ok ==> s.holds(v, Capability::HandleExit),
        s.pump_result() matches Ok(Some(served)) ==> s.holds(served.0, Capability::HandleExit),
        s.apply_exit_action(v, action).1 is Ok ==> (if action is Halt {
            s.holds(v, Capability::Halt)
        } else {
            s.holds(v, Capability::Execute)
        }),
        s.map_memory(v, gpa, length, host_backing, protection).1 is Ok ==> s.holds(
            v,
            Capability::MapMemory,
        ),
        s.unmap_memory(v, gpa, length).1 is Ok ==> s.holds(v, Capability::MapMemory),
        s.transfer(v, w, c, move_capability).1 is Ok ==> s.holds(v, c),
        s.require(v, c) is Ok <==> s.holds(v, c),
{
}

/// The capability gate of the lifecycle: once Execute is revoked from a
/// Created VM it cannot be initialized, and from a Trapped VM it cannot be
/// resumed; once Halt is revoked from a VM it cannot be halted. Each fails
/// with a capability error and changes nothing.
pub proof fn theorem_lifecycle_gate(s: SystemModel, v: VMID, cpu: CPUState)
    requires
        s.has_vm(v),
    ensures
        s.vms[v] is Created ==> s.revoke(v, Capability::Execute).initialize(v, cpu) == (
            s.revoke(v, Capability::Execute),
            Err::<(), ErrorModel>(
                ErrorModel::CapabilityError(capability_required(Capability::Execute)),
            ),
        ),
        s.vms[v] is Trapped ==> s.revoke(v, Capability::Execute).resume(v, cpu) == (
            s.revoke(v, Capability::Execute),
            Err::<(), ErrorModel>(
                ErrorModel::CapabilityError(capability_required(Capability::Execute)),
            ),
        ),
        s.revoke(v, Capability::Halt).halt(v) == (
            s.revoke(v, Capability::Halt),
            Err::<(), ErrorModel>(
                ErrorModel::CapabilityError(capability_required(Capability::Halt)),
            ),
        ),
{
    s.lemma_grant_revoke(v, Capability::Execute, v, Capability::Execute);
    s.lemma_grant_revoke(v, Capability::Halt, v, Capability::Halt);
}

/// The capability gate of the dispatcher: once HandleExit is revoked from a
/// VM, no exit of it is dispatched.
pub proof fn theorem_dispatch_gate(s: SystemModel, v: VMID, reason: ExitReason, cpu: CPUState)
    requires
        s.has_vm(v),
    ensures
        s.revoke(v, Capability::HandleExit).handle_exit(v, reason, cpu) == Err::<
            ExitAction,
            ErrorModel,
        >(ErrorModel::CapabilityError(capability_required(Capability::HandleExit))),
{
    s.lemma_grant_revoke(v, Capability::HandleExit, v, Capability::HandleExit);
}

/// The capability gate of the memory manager: once MapMemory is revoked
/// from a VM, nothing can be mapped into it or unmapped from it. Each fails
/// with a capability error and changes nothing.
pub proof fn theorem_memory_gate(
    s: SystemModel,
    v: VMID,
    gpa: GPA,
    length: u64,
    host_backing: u64,
    protection: u32,
)
    requires
        s.has_vm(v),
    ensures
        s.revoke(v, Capability::MapMemory).map_memory(v, gpa, length, host_backing, protection) == (
            s.revoke(v, Capability::MapMemory),
            Err::<(), ErrorModel>(
                ErrorModel::CapabilityError(capability_required(Capability::MapMemory)),
            ),
        ),
        s.revoke(v, Capability::MapMemory).unmap_memory(v, gpa, length) == (
            s.revoke(v, Capability::MapMemory),
            Err::<(), ErrorModel>(
                ErrorModel::CapabilityError(capability_required(Capability::MapMemory)),
            ),
        ),
{
    s.lemma_grant_revoke(v, Capability::MapMemory, v, Capability::MapMemory);
}

/// A VM cannot hand on a capability that was revoked from it: the transfer
/// fails with a capability error and changes nothing.
pub proof fn theorem_transfer_gate(
    s: SystemModel,
    src: VMID,
    dst: VMID,
    c: Capability,
    move_capability: bool,
)
    requires
        s.has_vm(src),
        s.has_vm(dst),
    ensures
        s.revoke(src, c).transfer(src, dst, c, move_capability) == (
            s.revoke(src, c),
            Err::<(), ErrorModel>(ErrorModel::CapabilityError(source_lacks_capability(src, c))),
        ),
{
    s.lemma_grant_revoke(src, c, src, c);
}

/// Halted is terminal: a Halted VM cannot be initialized, trapped or
/// resumed. Each fails because of the VM's state and changes nothing.
pub proof fn theorem_halted_terminal(s: SystemModel, v: VMID, reason: ExitReason, cpu: CPUState)
    requires
        s.has_vm(v),
        s.vms[v] is Halted,
    ensures
        s.initialize(v, cpu) == (s, Err::<(), ErrorModel>(ErrorModel::InvalidVMState(v))),
        s.trap(v, reason, cpu) == (s, Err::<(), ErrorModel>(ErrorModel::InvalidVMState(v))),
        s.resume(v, cpu) == (s, Err::<(), ErrorModel>(ErrorModel::InvalidVMState(v))),
{
}

/// No transition leads out of Halted: whatever operation is carried out,
/// but for the destruction of the VM, a Halted VM is Halted afterwards.
pub proof fn theorem_halted_stays(s: SystemModel, v: VMID, op: Operation)
    requires
        s.handles_allocated(),
        s.has_vm(v),
        s.vms[v] is Halted,
        !op.destroys(v),
    ensures
        s.step(op).has_vm(v),
        s.step(op).vms[v] is Halted,
{
}

/// The state after the traps of one VM with `reasons` and `cpus`, in
/// order.
pub open spec fn trap_many(
    s: SystemModel,
    v: VMID,
    reasons: Seq<ExitReason>,
    cpus: Seq<CPUState>,
) -> SystemModel
    decreases reasons.len(),
{
    if reasons.len() == 0 || cpus.len() != reasons.len() {
        s
    } else {
        trap_many(s, v, reasons.drop_last(), cpus.drop_last()).trap(
            v,
            reasons.last(),
            cpus.last(),
        ).0
    }
}

/// The state after `n` pumps in a row, none of whose actions is carried
/// out.
pub open spec fn pump_many(s: SystemModel, n: nat) -> SystemModel
    decreases n,
{
    if n == 0 {
        s
    } else {
        pump_many(s, (n - 1) as nat).process_next_exit().0
    }
}

/// Pumps take the pending exits off the queue from its head and change
/// nothing else.
pub proof fn lemma_pump_many(s: SystemModel, n: nat)
    requires
        n <= s.exits.len(),
    ensures
        pump_many(s, n) == (SystemModel {
            exits: s.exits.subrange(n as int, s.exits.len() as int),
            ..s
        }),
    decreases n,
{
    if n > 0 {
        lemma_pump_many(s, (n - 1) as nat);
    }
}

/// Traps of a VM that is not Halted queue their exits behind those that
/// were pending and leave the VM Trapped with the last of them.
pub proof fn lemma_trap_many(
    s: SystemModel,
    v: VMID,
    reasons: Seq<ExitReason>,
    cpus: Seq<CPUState>,
)
    requires
        s.has_vm(v),
        !(s.vms[v] is Halted),
        reasons.len() == cpus.len(),
        reasons.len() > 0,
    ensures
        trap_many(s, v, reasons, cpus) == (SystemModel {
            vms: s.vms.insert(v, VMState::Trapped(reasons.last(), cpus.last())),
            exits: s.exits + reasons.map_values(|r: ExitReason| (v, r)),
            ..s
        }),
    decreases reasons.len(),
{
    if reasons.len() > 1 {
        lemma_trap_many(s, v, reasons.drop_last(), cpus.drop_last());
    }
    let before = trap_many(s, v, reasons.drop_last(), cpus.drop_last());
    assert(before.exits.push((v, reasons.last())) == s.exits + reasons.map_values(
        |r: ExitReason| (v, r),
    ));
}

/// The queue is first in, first out: after traps of one VM the pumps first
/// serve what was pending before, and then decide on the exits of the
/// traps in the order of the traps. Each decision is taken with the CPU
/// state that the VM is Trapped with, which is that of the last trap.
pub proof fn theorem_queue_fifo(
    s: SystemModel,
    v: VMID,
    reasons: Seq<ExitReason>,
    cpus: Seq<CPUState>,
    i: int,
)
    requires
        s.has_vm(v),
        !(s.vms[v] is Halted),
        s.holds(v, Capability::HandleExit),
        reasons.len() == cpus.len(),
        0 <= i < reasons.len(),
    ensures
        pump_many(trap_many(s, v, reasons, cpus), (s.exits.len() + i) as nat).pump_result() == Ok::<
            Option<(VMID, ExitAction)>,
            ErrorModel,
        >(Some((v, dispatch(reasons[i], cpus.last())))),
{
    lemma_trap_many(s, v, reasons, cpus);
    lemma_pump_many(trap_many(s, v, reasons, cpus), (s.exits.len() + i) as nat);
}

/// No pump meets an exit of a VM that is gone: in every state that a run
/// reaches from a state under the invariant, whether or not regions were
/// left behind, the pending exits belong to VMs that exist.
pub proof fn theorem_exits_have_vm(s: SystemModel, ops: Seq<Operation>)
    requires
        s.wf(),
        s.allows(ops),
    ensures
        forall|i: int|
            0 <= i < s.run(ops).exits.len() ==> s.run(ops).has_vm(
                (#[trigger] s.run(ops).exits[i]).0,
            ),
        forall|v: VMID| #[trigger] s.run(ops).caps.contains_key(v) ==> s.run(ops).has_vm(v),
        !(s.run(ops).pump_result() matches Err(ErrorModel::VMNotFound(_))),
    decreases ops.len(),
{
    if ops.len() > 0 {
        let before = s.run(ops.drop_last());
        theorem_exits_have_vm(s, ops.drop_last());
        match ops.last() {
            Operation::Destroy { vmid } => {
                lemma_without_exits_of(before.exits, vmid);
                let after = before.destroy(vmid).0;
                assert forall|i: int| 0 <= i < after.exits.len() implies after.has_vm(
                    (#[trigger] after.exits[i]).0,
                ) by {
                    let j = choose|j: int|
                        0 <= j < before.exits.len() && before.exits[j] == after.exits[i];
                    assert(before.exits[j] == after.exits[i]);
                }
            },
            _ => {},
        }
    }
}

/// Pumps serve the queue in its order, whichever VMs the exits belong to:
/// the pump after `n` others reports on the exit that was at position `n`.
pub proof fn theorem_pump_order(s: SystemModel, n: nat)
    requires
        n < s.exits.len(),
    ensures
        pump_many(s, n).exits[0] == s.exits[n as int],
        pump_many(s, n).vms == s.vms,
        pump_many(s, n).caps == s.caps,
{
    lemma_pump_many(s, n);
}

} // verus!
