//! A micro-hypervisor nucleus: VM lifecycle, capabilities, guest-physical
//! memory and exit dispatch over one shared system state.
//!
//! Every operation works on a [`SystemState`], whose view is a
//! [`types::SystemModel`]. The contract of an operation names the function of
//! the model that it carries out, and the invariants of the nucleus are
//! proved of those functions.

use vstd::prelude::*;

pub mod capability;
pub mod exit;
pub mod hvf;
pub mod memory;
pub mod text;
pub mod theorems;
pub mod types;
pub mod vm;

pub use types::{Capability, SystemState, VMState, VMID};

verus! {

/// What an operation of the nucleus reports when it fails.
#[derive(Debug)]
pub enum Error {
    /// The VM is not in the system state.
    VMNotFound(VMID),
    /// The VM exists, but its lifecycle state rules the operation out.
    InvalidVMState(VMID),
    /// A memory operation met an overlap, an empty range or an unknown region.
    MemoryError(String),
    /// A capability that the operation requires is absent.
    CapabilityError(String),
    /// The dispatcher failed in a way that no other kind covers.
    ExitError(String),
    /// The execution oracle reported a failure.
    HVFError(String),
}

/// An [`Error`] with the text of its message as a sequence of characters.
pub enum ErrorModel {
    /// The VM is not in the system state.
    VMNotFound(VMID),
    /// The VM exists, but its lifecycle state rules the operation out.
    InvalidVMState(VMID),
    /// A memory operation failed; the message says why.
    MemoryError(Seq<char>),
    /// A capability is absent; the message says which.
    CapabilityError(Seq<char>),
    /// The dispatcher failed in a way that no other kind covers.
    ExitError(Seq<char>),
    /// The execution oracle reported a failure.
    HVFError(Seq<char>),
}

impl View for Error {
    type V = ErrorModel;

    open spec fn view(&self) -> ErrorModel {
        match *self {
            Error::VMNotFound(v) => ErrorModel::VMNotFound(v),
            Error::InvalidVMState(v) => ErrorModel::InvalidVMState(v),
            Error::MemoryError(m) => ErrorModel::MemoryError(m@),
            Error::CapabilityError(m) => ErrorModel::CapabilityError(m@),
            Error::ExitError(m) => ErrorModel::ExitError(m@),
            Error::HVFError(m) => ErrorModel::HVFError(m@),
        }
    }
}

/// A result with its error, if any, taken by its view.
pub open spec fn outcome<T>(result: Result<T, Error>) -> Result<T, ErrorModel> {
    match result {
        Ok(value) => Ok(value),
        Err(error) => Err(error@),
    }
}

} // verus!
