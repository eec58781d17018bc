//! Capabilities: what a VM holds decides what may be done with it.

use crate::text::{
    lacks_capability, lacks_capability_text, source_lacks_capability, source_lacks_capability_text,
};
use crate::types::{listed, Capability, SystemModel, SystemState, VMID};
use crate::{outcome, Error, ErrorModel};
use vstd::prelude::*;

verus! {

impl SystemModel {
    /// Granting through the manager: the VM must exist.
    pub open spec fn grant_checked(self, v: VMID, c: Capability) -> (SystemModel, Result<
        (),
        ErrorModel,
    >) {
        if !self.has_vm(v) {
            (self, Err(ErrorModel::VMNotFound(v)))
        } else {
            (self.grant(v, c), Ok(()))
        }
    }

    /// Revoking through the manager: the VM must exist.
    pub open spec fn revoke_checked(self, v: VMID, c: Capability) -> (SystemModel, Result<
        (),
        ErrorModel,
    >) {
        if !self.has_vm(v) {
            (self, Err(ErrorModel::VMNotFound(v)))
        } else {
            (self.revoke(v, c), Ok(()))
        }
    }

    /// What requiring `c` of `v` reports.
    pub open spec fn require(self, v: VMID, c: Capability) -> Result<(), ErrorModel> {
        if self.holds(v, c) {
            Ok(())
        } else {
            Err(ErrorModel::CapabilityError(lacks_capability(v, c)))
        }
    }

    /// A transfer: `dst` gains `c`, which `src` must hold; a move takes it
    /// from `src` unless `src` is `dst`. Where it fails, nothing changes.
    pub open spec fn transfer(self, src: VMID, dst: VMID, c: Capability, move_capability: bool) -> (
        SystemModel,
        Result<(), ErrorModel>,
    ) {
        if !self.has_vm(src) {
            (self, Err(ErrorModel::VMNotFound(src)))
        } else if !self.has_vm(dst) {
            (self, Err(ErrorModel::VMNotFound(dst)))
        } else if !self.holds(src, c) {
            (self, Err(ErrorModel::CapabilityError(source_lacks_capability(src, c))))
        } else if move_capability && src != dst {
            (self.grant(dst, c).revoke(src, c), Ok(()))
        } else {
            (self.grant(dst, c), Ok(()))
        }
    }

    /// A VM holds what it was granted and lacks what was revoked from it;
    /// neither touches another VM or another capability, and both are
    /// idempotent.
    pub proof fn lemma_grant_revoke(self, v: VMID, c: Capability, w: VMID, d: Capability)
        ensures
            self.has_vm(v) ==> self.grant(v, c).holds(v, c),
            !self.revoke(v, c).holds(v, c),
            w != v || d != c ==> self.grant(v, c).holds(w, d) == self.holds(w, d),
            w != v || d != c ==> self.revoke(v, c).holds(w, d) == self.holds(w, d),
            self.holds(v, c) ==> self.grant(v, c) == self,
            self.revoke(v, c).revoke(v, c) == self.revoke(v, c),
            self.grant(v, c).grant(v, c) == self.grant(v, c),
    {
        assert(self.revoke(v, c).revoke(v, c).caps =~~= self.revoke(v, c).caps);
        assert(self.grant(v, c).grant(v, c).caps =~~= self.grant(v, c).caps);
        if self.holds(v, c) {
            assert(self.grant(v, c).caps =~~= self.caps);
        }
    }

    /// After a transfer that succeeds the target holds the capability; the
    /// source holds it if and only if the transfer was no move or the source
    /// is the target. A transfer from a VM to itself changes nothing.
    pub proof fn lemma_transfer(self, src: VMID, dst: VMID, c: Capability, move_capability: bool)
        requires
            self.transfer(src, dst, c, move_capability).1 is Ok,
        ensures
            self.transfer(src, dst, c, move_capability).0.holds(dst, c),
            self.transfer(src, dst, c, move_capability).0.holds(src, c) <==> (!move_capability
                || src == dst),
            src == dst ==> self.transfer(src, dst, c, move_capability).0 == self,
            self.wf() ==> self.transfer(src, dst, c, move_capability).0.wf(),
    {
        self.lemma_grant_revoke(dst, c, src, c);
        self.grant(dst, c).lemma_grant_revoke(src, c, dst, c);
        if self.wf() {
            self.lemma_grant_wf(dst, c);
            self.grant(dst, c).lemma_revoke_wf(src, c);
        }
    }

}

/// The operations on capabilities.
pub struct CapabilityManager;

impl CapabilityManager {
    /// Whether the VM holds the capability; no for a VM that does not
    /// exist.
    pub fn check_capability(state: &SystemState, vmid: VMID, cap: Capability) -> (held: bool)
        ensures
            held == state@.holds(vmid, cap),
            !state@.has_vm(vmid) ==> !held,
    {
        state.has_capability(vmid, cap)
    }

    /// Grants the capability to the VM, which may hold it already. Fails
    /// with `VMNotFound` for a VM that does not exist.
    pub fn grant_capability(state: &mut SystemState, vmid: VMID, cap: Capability) -> (result:
        Result<(), Error>)
        ensures
            final(state)@ == old(state)@.grant_checked(vmid, cap).0,
            outcome(result) == old(state)@.grant_checked(vmid, cap).1,
            result is Ok <==> old(state)@.has_vm(vmid),
            result is Ok ==> final(state)@.holds(vmid, cap),
            result is Err ==> final(state)@ == old(state)@,
            old(state)@.handles_allocated() ==> final(state)@.handles_allocated(),
            old(state)@.wf() ==> final(state)@.wf(),
    {
        if !state.vms.contains_key(&vmid.0) {
            return Err(Error::VMNotFound(vmid));
        }
        state.grant_capability(vmid, cap);
        Ok(())
    }

    /// Revokes the capability from the VM, which need not hold it. Fails
    /// with `VMNotFound` for a VM that does not exist.
    pub fn revoke_capability(state: &mut SystemState, vmid: VMID, cap: Capability) -> (result:
        Result<(), Error>)
        ensures
            final(state)@ == old(state)@.revoke_checked(vmid, cap).0,
            outcome(result) == old(state)@.revoke_checked(vmid, cap).1,
            result is Ok <==> old(state)@.has_vm(vmid),
            !final(state)@.holds(vmid, cap),
            result is Err ==> final(state)@ == old(state)@,
            old(state)@.handles_allocated() ==> final(state)@.handles_allocated(),
            old(state)@.wf() ==> final(state)@.wf(),
    {
        if !state.vms.contains_key(&vmid.0) {
            return Err(Error::VMNotFound(vmid));
        }
        state.revoke_capability(vmid, cap);
        Ok(())
    }

    /// Succeeds if and only if the VM holds the capability; the error names
    /// the VM and the capability.
    pub fn require_capability(state: &SystemState, vmid: VMID, cap: Capability) -> (result: Result<
        (),
        Error,
    >)
        ensures
            outcome(result) == state@.require(vmid, cap),
            result is Ok <==> state@.holds(vmid, cap),
    {
        if !state.has_capability(vmid, cap) {
            return Err(Error::CapabilityError(lacks_capability_text(vmid, cap)));
        }
        Ok(())
    }

    /// The capabilities that the VM holds, each once, in the order of their
    /// declaration. Fails with `VMNotFound` for a VM that does not exist.
    pub fn get_capabilities(state: &SystemState, vmid: VMID) -> (result: Result<
        Vec<Capability>,
        Error,
    >)
        ensures
            match result {
                Ok(caps) => {
                    &&& state@.has_vm(vmid)
                    &&& caps@ == listed(state@.capabilities_of(vmid))
                    &&& caps@.no_duplicates()
                    &&& forall|c: Capability| caps@.contains(c) <==> state@.holds(vmid, c)
                },
                Err(error) => !state@.has_vm(vmid) && error@ == ErrorModel::VMNotFound(vmid),
            },
    {
        if !state.vms.contains_key(&vmid.0) {
            return Err(Error::VMNotFound(vmid));
        }
        let caps = match state.caps.get(&vmid.0) {
            Some(set) => set.to_vec(),
            None => Vec::new(),
        };
        Ok(caps)
    }

    /// Gives the target a capability that the source holds; a move takes it
    /// from the source, unless source and target are one VM. Fails, in this
    /// order, with `VMNotFound` for a source and for a target that does not
    /// exist and with `CapabilityError` for a source that lacks the
    /// capability; then nothing changes.
    pub fn transfer_capability(
        state: &mut SystemState,
        source_vmid: VMID,
        target_vmid: VMID,
        cap: Capability,
        move_capability: bool,
    ) -> (result: Result<(), Error>)
        ensures
            final(state)@ == old(state)@.transfer(
                source_vmid,
                target_vmid,
                cap,
                move_capability,
            ).0,
            outcome(result) == old(state)@.transfer(
                source_vmid,
                target_vmid,
                cap,
                move_capability,
            ).1,
            result is Ok <==> old(state)@.has_vm(target_vmid)
                && old(state)@.holds(source_vmid, cap),
            result is Ok ==> final(state)@.holds(target_vmid, cap),
            result is Ok ==> (final(state)@.holds(source_vmid, cap) <==> !move_capability
                || source_vmid == target_vmid),
            result is Err ==> final(state)@ == old(state)@,
            old(state)@.handles_allocated() ==> final(state)@.handles_allocated(),
            old(state)@.wf() ==> final(state)@.wf(),
    {
        if !state.vms.contains_key(&source_vmid.0) {
            return Err(Error::VMNotFound(source_vmid));
        }
        if !state.vms.contains_key(&target_vmid.0) {
            return Err(Error::VMNotFound(target_vmid));
        }
        if !state.has_capability(source_vmid, cap) {
            return Err(Error::CapabilityError(source_lacks_capability_text(source_vmid, cap)));
        }
        proof {
            if state@.wf() {
                state@.lemma_transfer(source_vmid, target_vmid, cap, move_capability);
            }
        }
        state.grant_capability(target_vmid, cap);
        if move_capability && source_vmid != target_vmid {
            state.revoke_capability(source_vmid, cap);
        }
        Ok(())
    }
}

} // verus!
