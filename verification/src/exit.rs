//! The exit dispatcher: every exit of a guest gets one action, and the same
//! exit in the same CPU state always gets the same one.

use crate::text::{capability_required, capability_required_text};
use crate::types::{CPUState, Capability, ExitReason, SystemModel, SystemState, VMState, GPA, VMID};
use crate::vm::VMManager;
use crate::{outcome, Error, ErrorModel};
use vstd::prelude::*;

verus! {

/// What the dispatcher decides to do about an exit.
#[derive(Clone, Copy, Debug, PartialEq, Eq)]
pub enum ExitAction {
    /// Install the CPU state and make the VM Runnable.
    Resume(CPUState),
    /// Halt the VM.
    Halt,
    /// Inject exception `vector` into the guest and continue from `cpu_state`.
    InjectException { vector: u32, cpu_state: CPUState },
}

/// Exception vector of an undefined instruction.
pub const VECTOR_UNDEFINED: u32 = 0;

/// Exception vector of a data abort.
pub const VECTOR_DATA_ABORT: u32 = 1;

/// Exception vector of a prefetch abort.
pub const VECTOR_PREFETCH_ABORT: u32 = 2;

/// Number of the hypercall by which a guest yields.
pub const HYPERCALL_YIELD: u64 = 0;

/// Number of the hypercall by which a guest halts itself.
pub const HYPERCALL_HALT: u64 = 1;

/// The address of the instruction after the one at `pc`; the address space
/// wraps around at its end.
pub open spec fn next_pc(pc: u64) -> u64 {
    if pc + 4 <= u64::MAX {
        (pc + 4) as u64
    } else {
        (pc + 4 - 0x1_0000_0000_0000_0000) as u64
    }
}

/// `cpu` with the program counter moved past the trapping instruction.
pub open spec fn skip_instruction(cpu: CPUState) -> CPUState {
    CPUState { pc: next_pc(cpu.pc), ..cpu }
}

/// The dispatch table: the action for an exit, given the CPU state that the
/// VM trapped with.
pub open spec fn dispatch(reason: ExitReason, cpu: CPUState) -> ExitAction {
    match reason {
        ExitReason::Hypercall { nr, args } => if nr == HYPERCALL_YIELD {
            ExitAction::Resume(skip_instruction(cpu))
        } else if nr == HYPERCALL_HALT {
            ExitAction::Halt
        } else {
            ExitAction::InjectException { vector: VECTOR_UNDEFINED, cpu_state: cpu }
        },
        ExitReason::MemoryFault { gpa, write } => ExitAction::InjectException {
            vector: VECTOR_DATA_ABORT,
            cpu_state: cpu,
        },
        ExitReason::InstructionAbort { gpa } => ExitAction::InjectException {
            vector: VECTOR_PREFETCH_ABORT,
            cpu_state: cpu,
        },
        ExitReason::SystemRegister { reg, write } => ExitAction::InjectException {
            vector: VECTOR_UNDEFINED,
            cpu_state: cpu,
        },
        ExitReason::WFI => ExitAction::Resume(skip_instruction(cpu)),
        ExitReason::Exception { vector } => ExitAction::InjectException { vector, cpu_state: cpu },
        ExitReason::Cancelled => ExitAction::Halt,
    }
}

impl SystemModel {
    /// Dispatch of one exit: for a VM that exists and holds HandleExit, the
    /// action of the dispatch table.
    pub open spec fn handle_exit(self, v: VMID, reason: ExitReason, cpu: CPUState) -> Result<
        ExitAction,
        ErrorModel,
    > {
        if !self.has_vm(v) {
            Err(ErrorModel::VMNotFound(v))
        } else if !self.holds(v, Capability::HandleExit) {
            Err(ErrorModel::CapabilityError(capability_required(Capability::HandleExit)))
        } else {
            Ok(dispatch(reason, cpu))
        }
    }

    /// The state with the oldest pending exit taken off the queue.
    pub open spec fn without_oldest_exit(self) -> SystemModel {
        SystemModel { exits: self.exits.subrange(1, self.exits.len() as int), ..self }
    }

    /// What a pump reports: nothing for an empty queue; else the action for
    /// the oldest pending exit, dispatched with the CPU state that its VM is
    /// Trapped with now.
    pub open spec fn pump_result(self) -> Result<Option<(VMID, ExitAction)>, ErrorModel> {
        if self.exits.len() == 0 {
            Ok(None)
        } else {
            let (v, reason) = self.exits[0];
            if !self.has_vm(v) {
                Err(ErrorModel::VMNotFound(v))
            } else {
                match self.vms[v] {
                    VMState::Trapped(_, cpu) => match self.handle_exit(v, reason, cpu) {
                        Ok(action) => Ok(Some((v, action))),
                        Err(error) => Err(error),
                    },
                    _ => Err(ErrorModel::InvalidVMState(v)),
                }
            }
        }
    }

    /// A pump: the oldest pending exit, if there is one, leaves the queue,
    /// whether or not an action comes of it.
    pub open spec fn process_next_exit(self) -> (SystemModel, Result<
        Option<(VMID, ExitAction)>,
        ErrorModel,
    >) {
        if self.exits.len() == 0 {
            (self, self.pump_result())
        } else {
            (self.without_oldest_exit(), self.pump_result())
        }
    }

    /// Carrying out an action: Resume and InjectException resume the VM with
    /// the CPU state that the action carries, Halt halts it.
    pub open spec fn apply_exit_action(self, v: VMID, action: ExitAction) -> (SystemModel, Result<
        (),
        ErrorModel,
    >) {
        match action {
            ExitAction::Resume(cpu) => self.resume(v, cpu),
            ExitAction::Halt => self.halt(v),
            ExitAction::InjectException { vector, cpu_state } => self.resume(v, cpu_state),
        }
    }

    /// A pump keeps the invariant.
    pub proof fn lemma_pump_wf(self)
        requires
            self.wf(),
        ensures
            self.process_next_exit().0.wf(),
    {
    }

    /// Carrying out an action keeps the invariant.
    pub proof fn lemma_apply_wf(self, v: VMID, action: ExitAction)
        requires
            self.wf(),
        ensures
            self.apply_exit_action(v, action).0.wf(),
    {
        match action {
            ExitAction::Resume(cpu) => {
                self.lemma_resume_wf(v, cpu);
            },
            ExitAction::Halt => {
                self.lemma_halt_wf(v);
            },
            ExitAction::InjectException { vector, cpu_state } => {
                self.lemma_resume_wf(v, cpu_state);
            },
        }
    }
}

/// The operations of the dispatcher.
pub struct ExitHandler;

impl ExitHandler {
    /// Decides what to do about an exit of the VM. Reads the state only to
    /// see that the VM exists and holds HandleExit: fails with `VMNotFound`
    /// or `CapabilityError` where it does not, and else returns the action
    /// of the dispatch table.
    pub fn handle_exit(
        state: &SystemState,
        vmid: VMID,
        exit_reason: &ExitReason,
        cpu_state: &CPUState,
    ) -> (result: Result<ExitAction, Error>)
        ensures
            outcome(result) == state@.handle_exit(vmid, *exit_reason, *cpu_state),
            state@.has_vm(vmid) && state@.holds(vmid, Capability::HandleExit) ==> result == Ok::<
                ExitAction,
                Error,
            >(dispatch(*exit_reason, *cpu_state)),
    {
        if !state.vms.contains_key(&vmid.0) {
            return Err(Error::VMNotFound(vmid));
        }
        if !state.has_capability(vmid, Capability::HandleExit) {
            return Err(Error::CapabilityError(capability_required_text(Capability::HandleExit)));
        }
        match exit_reason {
            ExitReason::Hypercall { nr, args } => Self::handle_hypercall(
                state,
                vmid,
                *nr,
                args,
                cpu_state,
            ),
            ExitReason::MemoryFault { gpa, write } => Self::handle_memory_fault(
                state,
                vmid,
                *gpa,
                *write,
                cpu_state,
            ),
            ExitReason::InstructionAbort { gpa } => Self::handle_instruction_abort(
                state,
                vmid,
                *gpa,
                cpu_state,
            ),
            ExitReason::SystemRegister { reg, write } => Self::handle_system_register(
                state,
                vmid,
                *reg,
                *write,
                cpu_state,
            ),
            ExitReason::WFI => Self::handle_wfi(state, vmid, cpu_state),
            ExitReason::Exception { vector } => Self::handle_exception(
                state,
                vmid,
                *vector,
                cpu_state,
            ),
            ExitReason::Cancelled => Self::handle_cancelled(state, vmid, cpu_state),
        }
    }

    /// Hypercall 0 yields, hypercall 1 halts, any other number is an
    /// undefined instruction.
    fn handle_hypercall(
        _state: &SystemState,
        _vmid: VMID,
        nr: u64,
        args: &[u64; 6],
        cpu_state: &CPUState,
    ) -> (result: Result<ExitAction, Error>)
        ensures
            result == Ok::<ExitAction, Error>(
                dispatch(ExitReason::Hypercall { nr, args: *args }, *cpu_state),
            ),
    {
        if nr == HYPERCALL_YIELD {
            Ok(ExitAction::Resume(Self::past_instruction(cpu_state)))
        } else if nr == HYPERCALL_HALT {
            Ok(ExitAction::Halt)
        } else {
            Ok(ExitAction::InjectException { vector: VECTOR_UNDEFINED, cpu_state: *cpu_state })
        }
    }

    /// A memory fault goes back to the guest as a data abort.
    fn handle_memory_fault(
        _state: &SystemState,
        _vmid: VMID,
        gpa: GPA,
        write: bool,
        cpu_state: &CPUState,
    ) -> (result: Result<ExitAction, Error>)
        ensures
            result == Ok::<ExitAction, Error>(
                dispatch(ExitReason::MemoryFault { gpa, write }, *cpu_state),
            ),
    {
        Ok(ExitAction::InjectException { vector: VECTOR_DATA_ABORT, cpu_state: *cpu_state })
    }

    /// An instruction abort goes back to the guest as a prefetch abort.
    fn handle_instruction_abort(
        _state: &SystemState,
        _vmid: VMID,
        gpa: GPA,
        cpu_state: &CPUState,
    ) -> (result: Result<ExitAction, Error>)
        ensures
            result == Ok::<ExitAction, Error>(
                dispatch(ExitReason::InstructionAbort { gpa }, *cpu_state),
            ),
    {
        Ok(ExitAction::InjectException { vector: VECTOR_PREFETCH_ABORT, cpu_state: *cpu_state })
    }

    /// An access to a system register is an undefined instruction.
    fn handle_system_register(
        _state: &SystemState,
        _vmid: VMID,
        reg: u32,
        write: bool,
        cpu_state: &CPUState,
    ) -> (result: Result<ExitAction, Error>)
        ensures
            result == Ok::<ExitAction, Error>(
                dispatch(ExitReason::SystemRegister { reg, write }, *cpu_state),
            ),
    {
        Ok(ExitAction::InjectException { vector: VECTOR_UNDEFINED, cpu_state: *cpu_state })
    }

    /// A wait for interrupt yields: the VM resumes behind the instruction.
    fn handle_wfi(_state: &SystemState, _vmid: VMID, cpu_state: &CPUState) -> (result: Result<
        ExitAction,
        Error,
    >)
        ensures
            result == Ok::<ExitAction, Error>(dispatch(ExitReason::WFI, *cpu_state)),
    {
        Ok(ExitAction::Resume(Self::past_instruction(cpu_state)))
    }

    /// An exception of the guest is injected again under its own vector.
    fn handle_exception(_state: &SystemState, _vmid: VMID, vector: u32, cpu_state: &CPUState) -> (
        result: Result<ExitAction, Error>)
        ensures
            result == Ok::<ExitAction, Error>(
                dispatch(ExitReason::Exception { vector }, *cpu_state),
            ),
    {
        Ok(ExitAction::InjectException { vector, cpu_state: *cpu_state })
    }

    /// A cancelled VM is halted.
    fn handle_cancelled(_state: &SystemState, _vmid: VMID, cpu_state: &CPUState) -> (result:
        Result<ExitAction, Error>)
        ensures
            result == Ok::<ExitAction, Error>(dispatch(ExitReason::Cancelled, *cpu_state)),
    {
        Ok(ExitAction::Halt)
    }

    /// The CPU state with the program counter behind the trapping
    /// instruction.
    fn past_instruction(cpu_state: &CPUState) -> (next: CPUState)
        ensures
            next == skip_instruction(*cpu_state),
    {
        let mut next = *cpu_state;
        next.pc = cpu_state.pc.wrapping_add(4);
        next
    }

    /// Takes the oldest pending exit off the queue and decides what to do
    /// about it. The caller carries the action out with
    /// [`ExitHandler::apply_exit_action`]. Reports nothing for an empty
    /// queue. Fails with `InvalidVMState` where the VM of the exit is not
    /// Trapped and with `CapabilityError` where it lacks HandleExit; the
    /// exit has left the queue all the same. Fails with `VMNotFound` only
    /// where the queue was filled by hand with an exit of a VM that does
    /// not exist: destruction takes the exits of the VM off the queue.
    pub fn process_next_exit(state: &mut SystemState) -> (result: Result<
        Option<(VMID, ExitAction)>,
        Error,
    >)
        ensures
            final(state)@ == old(state)@.process_next_exit().0,
            outcome(result) == old(state)@.process_next_exit().1,
            result matches Ok(None) <==> old(state)@.exits.len() == 0,
            old(state)@.entries_have_vm() ==> !(outcome(result) matches Err(
                ErrorModel::VMNotFound(_),
            )),
            result matches Ok(Some(served)) ==> served.0 == old(state)@.exits[0].0,
            old(state)@.exits.len() > 0 ==> final(state)@.exits == old(state)@.exits.subrange(
                1,
                old(state)@.exits.len() as int,
            ),
            old(state)@.handles_allocated() ==> final(state)@.handles_allocated(),
            old(state)@.wf() ==> final(state)@.wf(),
    {
        proof {
            if state@.wf() {
                state@.lemma_pump_wf();
            }
        }
        let (vmid, exit_reason) = match state.exits.pop_front() {
            Some(entry) => entry,
            None => {
                return Ok(None);
            },
        };
        let cpu_state = match VMManager::get_vm_state(state, vmid) {
            Err(error) => {
                return Err(error);
            },
            Ok(VMState::Trapped(_, cpu)) => *cpu,
            Ok(_) => {
                return Err(Error::InvalidVMState(vmid));
            },
        };
        match Self::handle_exit(state, vmid, &exit_reason, &cpu_state) {
            Ok(action) => Ok(Some((vmid, action))),
            Err(error) => Err(error),
        }
    }

    /// Carries out an action on the VM: resumes it for Resume and for
    /// InjectException, halts it for Halt, and fails as those do.
    pub fn apply_exit_action(state: &mut SystemState, vmid: VMID, action: ExitAction) -> (result:
        Result<(), Error>)
        ensures
            final(state)@ == old(state)@.apply_exit_action(vmid, action).0,
            outcome(result) == old(state)@.apply_exit_action(vmid, action).1,
            old(state)@.handles_allocated() ==> final(state)@.handles_allocated(),
            old(state)@.wf() ==> final(state)@.wf(),
    {
        match action {
            ExitAction::Resume(cpu_state) => VMManager::resume_vm(state, vmid, cpu_state),
            ExitAction::Halt => VMManager::halt_vm(state, vmid),
            ExitAction::InjectException { vector: _, cpu_state } => VMManager::resume_vm(
                state,
                vmid,
                cpu_state,
            ),
        }
    }
}

} // verus!
