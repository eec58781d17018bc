//! The execution oracle as the nucleus sees it: contexts, virtual CPUs and
//! the run step that ends in an exit.
//!
//! The oracle here is a stand-in that keeps no state. Every call succeeds, a
//! virtual CPU always shows the zeroed CPU state, and every run ends in a
//! wait for interrupt. A binding to a host facility has the same surface and
//! reports its failures as [`Error::HVFError`].

use crate::types::{CPUState, ExitReason, VMID};
use crate::Error;
use vstd::prelude::*;

verus! {

/// Handle of the oracle's context for one VM.
#[derive(Debug, Clone, Copy)]
pub struct HVFContext {
    vmid: VMID,
}

impl HVFContext {
    /// The VM that the context was created for.
    pub closed spec fn owner(&self) -> VMID {
        self.vmid
    }

    /// The VM that the context was created for.
    #[verifier::when_used_as_spec(owner)]
    pub fn vmid(&self) -> (vmid: VMID)
        ensures
            vmid == self.owner(),
    {
        self.vmid
    }
}

/// What the oracle says of the machine it runs on.
#[derive(Debug, Clone, Copy)]
pub struct SystemInfo {
    /// Whether the host facility is there.
    pub hvf_available: bool,
    /// Whether the CPU virtualizes at EL2.
    pub arm_el2_supported: bool,
    /// The most virtual CPUs that one VM can have.
    pub max_vcpus: u32,
}

/// The most virtual CPUs that the stand-in reports.
pub const MAX_VCPUS: u32 = 8;

/// The calls that the nucleus makes into the oracle.
pub struct HVF;

impl HVF {
    /// Creates the context of a VM.
    pub fn create_vm(vmid: VMID) -> (result: Result<HVFContext, Error>)
        ensures
            result is Ok,
            result->Ok_0.owner() == vmid,
    {
        Ok(HVFContext { vmid })
    }

    /// Destroys a context.
    pub fn destroy_vm(_ctx: HVFContext) -> (result: Result<(), Error>)
        ensures
            result is Ok,
    {
        Ok(())
    }

    /// Puts `size` bytes of host memory at `host_addr` behind the guest
    /// address `guest_addr`.
    pub fn map_memory(
        _ctx: HVFContext,
        _host_addr: u64,
        _guest_addr: u64,
        _size: u64,
        _flags: u32,
    ) -> (result: Result<(), Error>)
        ensures
            result is Ok,
    {
        Ok(())
    }

    /// Takes `size` bytes at the guest address `guest_addr` out of the guest.
    pub fn unmap_memory(_ctx: HVFContext, _guest_addr: u64, _size: u64) -> (result: Result<
        (),
        Error,
    >)
        ensures
            result is Ok,
    {
        Ok(())
    }

    /// Creates a virtual CPU in the context and returns its number.
    pub fn create_vcpu(_ctx: HVFContext) -> (result: Result<u64, Error>)
        ensures
            result == Ok::<u64, Error>(0),
    {
        Ok(0)
    }

    /// Destroys a virtual CPU.
    pub fn destroy_vcpu(_vcpu: u64) -> (result: Result<(), Error>)
        ensures
            result is Ok,
    {
        Ok(())
    }

    /// Installs a CPU state on a virtual CPU.
    pub fn set_cpu_state(_vcpu: u64, _state: &CPUState) -> (result: Result<(), Error>)
        ensures
            result is Ok,
    {
        Ok(())
    }

    /// Reads the CPU state of a virtual CPU.
    pub fn get_cpu_state(_vcpu: u64) -> (result: Result<CPUState, Error>)
        ensures
            result is Ok,
            result->Ok_0.zeroed(),
    {
        Ok(CPUState::default())
    }

    /// Runs a virtual CPU until the guest exits, and returns why it did.
    pub fn run_vcpu(_vcpu: u64) -> (result: Result<ExitReason, Error>)
        ensures
            result == Ok::<ExitReason, Error>(ExitReason::WFI),
    {
        Ok(ExitReason::WFI)
    }

    /// Describes the machine.
    pub fn get_system_info() -> (result: Result<SystemInfo, Error>)
        ensures
            result is Ok,
            result->Ok_0.hvf_available,
            result->Ok_0.arm_el2_supported,
            result->Ok_0.max_vcpus == MAX_VCPUS,
    {
        Ok(SystemInfo { hvf_available: true, arm_el2_supported: true, max_vcpus: MAX_VCPUS })
    }
}

} // verus!
