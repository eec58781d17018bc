//! The guest-physical memory map of each VM. No two regions of one VM share
//! a guest-physical byte, and no two regions of distinct VMs share a host
//! byte.

use crate::text::{capability_required, capability_required_text};
use crate::types::{Capability, MemoryRegion, SystemModel, SystemState, GPA, VMID};
use crate::{outcome, Error, ErrorModel};
use vstd::prelude::*;

verus! {

/// Message of the error for a region without any byte.
pub open spec fn empty_region_message() -> Seq<char> {
    "Region length must be greater than zero"@
}

/// Message of the error for an overlap in guest-physical space.
pub open spec fn guest_overlap_message() -> Seq<char> {
    "Guest-physical range overlaps a region of the VM"@
}

/// Message of the error for an overlap in host memory.
pub open spec fn host_overlap_message() -> Seq<char> {
    "Host backing overlaps a region of another VM"@
}

/// Message of the error for a range that is no region of the VM.
pub open spec fn unknown_region_message() -> Seq<char> {
    "No region with this base and length"@
}

/// Whether a region of `regions` shares a guest-physical byte with
/// `[gpa, gpa + length)`.
pub open spec fn any_overlaps_guest(regions: Seq<MemoryRegion>, gpa: GPA, length: u64) -> bool {
    exists|i: int| 0 <= i < regions.len() && (#[trigger] regions[i]).overlaps_guest(gpa, length)
}

/// Whether a region of `regions` shares a host byte with
/// `[host, host + length)`.
pub open spec fn any_overlaps_host(regions: Seq<MemoryRegion>, host: u64, length: u64) -> bool {
    exists|i: int| 0 <= i < regions.len() && (#[trigger] regions[i]).overlaps_host(host, length)
}

/// Whether `regions[i]` is the first region that starts at `gpa` and is
/// `length` bytes long.
pub open spec fn first_match(regions: Seq<MemoryRegion>, gpa: GPA, length: u64, i: int) -> bool {
    &&& 0 <= i < regions.len()
    &&& regions[i].guest_base == gpa
    &&& regions[i].length == length
    &&& forall|j: int|
        0 <= j < i ==> !((#[trigger] regions[j]).guest_base == gpa && regions[j].length == length)
}

impl SystemModel {
    /// Whether a region of a VM other than `v` shares a host byte with
    /// `[host, host + length)`.
    pub open spec fn host_conflict(self, v: VMID, host: u64, length: u64) -> bool {
        exists|w: VMID|
            w != v && #[trigger] self.memory.contains_key(w) && any_overlaps_host(
                self.memory[w],
                host,
                length,
            )
    }

    /// Whether a region of `v` starts at `gpa` and is `length` bytes long.
    pub open spec fn has_region(self, v: VMID, gpa: GPA, length: u64) -> bool {
        exists|i: int| first_match(self.regions_of(v), gpa, length, i)
    }

    /// Mapping: a VM that holds MapMemory gains a region that is not empty,
    /// overlaps none of its own in guest-physical space and none of another
    /// VM in host memory. The region joins the end of the VM's regions.
    pub open spec fn map_memory(
        self,
        v: VMID,
        gpa: GPA,
        length: u64,
        host_backing: u64,
        protection: u32,
    ) -> (SystemModel, Result<(), ErrorModel>) {
        if !self.has_vm(v) {
            (self, Err(ErrorModel::VMNotFound(v)))
        } else if !self.holds(v, Capability::MapMemory) {
            (self, Err(ErrorModel::CapabilityError(capability_required(Capability::MapMemory))))
        } else if length == 0 {
            (self, Err(ErrorModel::MemoryError(empty_region_message())))
        } else if any_overlaps_guest(self.regions_of(v), gpa, length) {
            (self, Err(ErrorModel::MemoryError(guest_overlap_message())))
        } else if self.host_conflict(v, host_backing, length) {
            (self, Err(ErrorModel::MemoryError(host_overlap_message())))
        } else {
            let region = MemoryRegion {
                vmid: v,
                guest_base: gpa,
                length,
                host_backing,
                protection,
            };
            let regions = self.regions_of(v).push(region);
            (SystemModel { memory: self.memory.insert(v, regions), ..self }, Ok(()))
        }
    }

    /// Unmapping: a VM that holds MapMemory loses the first of its regions
    /// that starts at `gpa` and is `length` bytes long; the others keep
    /// their order.
    pub open spec fn unmap_memory(self, v: VMID, gpa: GPA, length: u64) -> (SystemModel, Result<
        (),
        ErrorModel,
    >) {
        if !self.has_vm(v) {
            (self, Err(ErrorModel::VMNotFound(v)))
        } else if !self.holds(v, Capability::MapMemory) {
            (self, Err(ErrorModel::CapabilityError(capability_required(Capability::MapMemory))))
        } else if !self.has_region(v, gpa, length) {
            (self, Err(ErrorModel::MemoryError(unknown_region_message())))
        } else {
            let i = choose|i: int| first_match(self.regions_of(v), gpa, length, i);
            let regions = self.regions_of(v).remove(i);
            (SystemModel { memory: self.memory.insert(v, regions), ..self }, Ok(()))
        }
    }

    /// What asking for the regions of `v` reports.
    pub open spec fn regions(self, v: VMID) -> Result<Seq<MemoryRegion>, ErrorModel> {
        if !self.has_vm(v) {
            Err(ErrorModel::VMNotFound(v))
        } else {
            Ok(self.regions_of(v))
        }
    }

    /// Release: a VM that exists loses all its regions.
    pub open spec fn release_all(self, v: VMID) -> (SystemModel, Result<(), ErrorModel>) {
        if !self.has_vm(v) {
            (self, Err(ErrorModel::VMNotFound(v)))
        } else {
            (SystemModel { memory: self.memory.remove(v), ..self }, Ok(()))
        }
    }

    /// Mapping keeps the invariant.
    pub proof fn lemma_map_wf(
        self,
        v: VMID,
        gpa: GPA,
        length: u64,
        host_backing: u64,
        protection: u32,
    )
        requires
            self.wf(),
        ensures
            self.map_memory(v, gpa, length, host_backing, protection).0.wf(),
    {
        self.lemma_map_isolated(v, gpa, length, host_backing, protection);
    }

    /// Unmapping keeps the invariant.
    pub proof fn lemma_unmap_wf(self, v: VMID, gpa: GPA, length: u64)
        requires
            self.wf(),
        ensures
            self.unmap_memory(v, gpa, length).0.wf(),
    {
        self.lemma_unmap_isolated(v, gpa, length);
    }

    /// Release keeps the invariant.
    pub proof fn lemma_release_wf(self, v: VMID)
        requires
            self.wf(),
        ensures
            self.release_all(v).0.wf(),
    {
    }

    /// Mapping keeps the memory isolated.
    pub proof fn lemma_map_isolated(
        self,
        v: VMID,
        gpa: GPA,
        length: u64,
        host_backing: u64,
        protection: u32,
    )
        requires
            self.memory_isolated(),
        ensures
            self.map_memory(v, gpa, length, host_backing, protection).0.memory_isolated(),
    {
    }

    /// Unmapping keeps the memory isolated.
    pub proof fn lemma_unmap_isolated(self, v: VMID, gpa: GPA, length: u64)
        requires
            self.memory_isolated(),
        ensures
            self.unmap_memory(v, gpa, length).0.memory_isolated(),
    {
    }
}

/// The operations on guest-physical memory.
pub struct MemoryManager;

impl MemoryManager {
    /// Maps `length` bytes of host memory at `host_backing` into the VM at
    /// `gpa`. Fails, in this order, with `VMNotFound` for a VM that does not
    /// exist, with `CapabilityError` for one that lacks MapMemory, and with
    /// `MemoryError` for an empty range, for a guest-physical range that
    /// overlaps a region of the VM and for host memory that overlaps a
    /// region of another VM; then nothing changes.
    pub fn map_memory(
        state: &mut SystemState,
        vmid: VMID,
        gpa: GPA,
        length: u64,
        host_backing: u64,
        protection: u32,
    ) -> (result: Result<(), Error>)
        ensures
            final(state)@ == old(state)@.map_memory(vmid, gpa, length, host_backing, protection).0,
            outcome(result) == old(state)@.map_memory(
                vmid,
                gpa,
                length,
                host_backing,
                protection,
            ).1,
            result is Ok <==> old(state)@.holds(vmid, Capability::MapMemory) && length > 0
                && !any_overlaps_guest(old(state)@.regions_of(vmid), gpa, length)
                && !old(state)@.host_conflict(vmid, host_backing, length),
            result is Ok ==> final(state)@.regions_of(vmid) == old(state)@.regions_of(vmid).push(
                MemoryRegion { vmid, guest_base: gpa, length, host_backing, protection },
            ),
            result is Err ==> final(state)@ == old(state)@,
            old(state)@.memory_isolated() ==> final(state)@.memory_isolated(),
            old(state)@.handles_allocated() ==> final(state)@.handles_allocated(),
            old(state)@.wf() ==> final(state)@.wf(),
    {
        proof {
            if state@.memory_isolated() {
                state@.lemma_map_isolated(vmid, gpa, length, host_backing, protection);
            }
            if state@.wf() {
                state@.lemma_map_wf(vmid, gpa, length, host_backing, protection);
            }
        }
        if !state.vms.contains_key(&vmid.0) {
            return Err(Error::VMNotFound(vmid));
        }
        if !state.has_capability(vmid, Capability::MapMemory) {
            return Err(Error::CapabilityError(capability_required_text(Capability::MapMemory)));
        }
        if length == 0 {
            return Err(Error::MemoryError("Region length must be greater than zero".to_string()));
        }
        let guest_taken = match state.memory.get(&vmid.0) {
            Some(regions) => Self::overlaps_guest_in(regions, gpa, length),
            None => false,
        };
        if guest_taken {
            return Err(
                Error::MemoryError("Guest-physical range overlaps a region of the VM".to_string()),
            );
        }
        if Self::host_taken_elsewhere(state, vmid, host_backing, length) {
            return Err(
                Error::MemoryError("Host backing overlaps a region of another VM".to_string()),
            );
        }
        let mut regions = match state.memory.remove(&vmid.0) {
            Some(regions) => regions,
            None => Vec::new(),
        };
        regions.push(MemoryRegion { vmid, guest_base: gpa, length, host_backing, protection });
        state.memory.insert(vmid.0, regions);
        assert(state@.memory == old(state)@.memory.insert(vmid, state@.memory[vmid]));
        Ok(())
    }

    /// Unmaps the region of the VM that starts at `gpa` and is `length`
    /// bytes long. A part of a region cannot be unmapped. Fails, in this
    /// order, with `VMNotFound` for a VM that does not exist, with
    /// `CapabilityError` for one that lacks MapMemory, and with
    /// `MemoryError` where the VM has no such region; then nothing changes.
    pub fn unmap_memory(state: &mut SystemState, vmid: VMID, gpa: GPA, length: u64) -> (result:
        Result<(), Error>)
        ensures
            final(state)@ == old(state)@.unmap_memory(vmid, gpa, length).0,
            outcome(result) == old(state)@.unmap_memory(vmid, gpa, length).1,
            result is Ok <==> old(state)@.holds(vmid, Capability::MapMemory)
                && old(state)@.has_region(vmid, gpa, length),
            result is Ok ==> exists|i: int|
                first_match(old(state)@.regions_of(vmid), gpa, length, i)
                    && final(state)@.regions_of(vmid) == old(state)@.regions_of(vmid).remove(i),
            result is Err ==> final(state)@ == old(state)@,
            old(state)@.memory_isolated() ==> final(state)@.memory_isolated(),
            old(state)@.handles_allocated() ==> final(state)@.handles_allocated(),
            old(state)@.wf() ==> final(state)@.wf(),
    {
        proof {
            if state@.memory_isolated() {
                state@.lemma_unmap_isolated(vmid, gpa, length);
            }
            if state@.wf() {
                state@.lemma_unmap_wf(vmid, gpa, length);
            }
        }
        if !state.vms.contains_key(&vmid.0) {
            return Err(Error::VMNotFound(vmid));
        }
        if !state.has_capability(vmid, Capability::MapMemory) {
            return Err(Error::CapabilityError(capability_required_text(Capability::MapMemory)));
        }
        let found = match state.memory.get(&vmid.0) {
            Some(regions) => Self::find_region(regions, gpa, length),
            None => None,
        };
        let index = match found {
            Some(index) => index,
            None => {
                return Err(Error::MemoryError("No region with this base and length".to_string()));
            },
        };
        let mut regions = match state.memory.remove(&vmid.0) {
            Some(regions) => regions,
            None => Vec::new(),
        };
        regions.remove(index);
        state.memory.insert(vmid.0, regions);
        assert(state@.memory == old(state)@.memory.insert(vmid, state@.memory[vmid]));
        Ok(())
    }

    /// The regions of the VM, in the order in which they were mapped, or
    /// `VMNotFound`.
    pub fn regions(state: &SystemState, vmid: VMID) -> (result: Result<Vec<MemoryRegion>, Error>)
        ensures
            match result {
                Ok(regions) => state@.regions(vmid) == Ok::<Seq<MemoryRegion>, ErrorModel>(
                    regions@,
                ),
                Err(error) => state@.regions(vmid) == Err::<Seq<MemoryRegion>, ErrorModel>(error@),
            },
    {
        if !state.vms.contains_key(&vmid.0) {
            return Err(Error::VMNotFound(vmid));
        }
        let mut copy: Vec<MemoryRegion> = Vec::new();
        match state.memory.get(&vmid.0) {
            Some(regions) => {
                let mut i: usize = 0;
                while i < regions.len()
                    invariant
                        i <= regions.len(),
                        copy@ == regions@.subrange(0, i as int),
                    decreases regions.len() - i,
                {
                    copy.push(regions[i]);
                    i = i + 1;
                }
                assert(copy@ == regions@);
            },
            None => {},
        }
        Ok(copy)
    }

    /// Releases every region of the VM. No capability is needed. Fails with
    /// `VMNotFound` for a VM that does not exist.
    pub fn release_all(state: &mut SystemState, vmid: VMID) -> (result: Result<(), Error>)
        ensures
            final(state)@ == old(state)@.release_all(vmid).0,
            outcome(result) == old(state)@.release_all(vmid).1,
            result is Ok <==> old(state)@.has_vm(vmid),
            result is Err ==> final(state)@ == old(state)@,
            result is Ok ==> final(state)@.regions_of(vmid) == Seq::<MemoryRegion>::empty(),
            old(state)@.memory_isolated() ==> final(state)@.memory_isolated(),
            old(state)@.handles_allocated() ==> final(state)@.handles_allocated(),
            old(state)@.wf() ==> final(state)@.wf(),
    {
        if !state.vms.contains_key(&vmid.0) {
            return Err(Error::VMNotFound(vmid));
        }
        state.memory.remove(&vmid.0);
        assert(state@.memory == old(state)@.memory.remove(vmid));
        Ok(())
    }

    /// Whether two byte ranges share a byte.
    fn ranges_meet(a: u64, a_len: u64, b: u64, b_len: u64) -> (meet: bool)
        ensures
            meet == crate::types::ranges_overlap(a as int, a_len as int, b as int, b_len as int),
    {
        if a_len == 0 || b_len == 0 {
            false
        } else if a <= b {
            b - a < a_len
        } else {
            a - b < b_len
        }
    }

    /// Whether a region of `regions` shares a guest-physical byte with the
    /// given range.
    fn overlaps_guest_in(regions: &Vec<MemoryRegion>, gpa: GPA, length: u64) -> (found: bool)
        ensures
            found == any_overlaps_guest(regions@, gpa, length),
    {
        let mut i: usize = 0;
        while i < regions.len()
            invariant
                i <= regions.len(),
                forall|j: int| 0 <= j < i ==> !(#[trigger] regions@[j]).overlaps_guest(gpa, length),
            decreases regions.len() - i,
        {
            if Self::ranges_meet(regions[i].guest_base.0, regions[i].length, gpa.0, length) {
                return true;
            }
            i = i + 1;
        }
        false
    }

    /// Whether a region of `regions` shares a host byte with the given
    /// range.
    fn overlaps_host_in(regions: &Vec<MemoryRegion>, host: u64, length: u64) -> (found: bool)
        ensures
            found == any_overlaps_host(regions@, host, length),
    {
        let mut i: usize = 0;
        while i < regions.len()
            invariant
                i <= regions.len(),
                forall|j: int| 0 <= j < i ==> !(#[trigger] regions@[j]).overlaps_host(host, length),
            decreases regions.len() - i,
        {
            if Self::ranges_meet(regions[i].host_backing, regions[i].length, host, length) {
                return true;
            }
            i = i + 1;
        }
        false
    }

    /// Whether a region of another VM shares a host byte with the given
    /// range.
    fn host_taken_elsewhere(state: &SystemState, vmid: VMID, host: u64, length: u64) -> (found:
        bool)
        ensures
            found == state@.host_conflict(vmid, host, length),
    {
        for entry in it: state.memory.iter()
            invariant
                forall|w: u32| #[trigger]
                    state.memory@.contains_key(w) ==> it.seq().contains((&w, &state.memory@[w])),
                forall|j: int|
                    0 <= j < it.index() && *(#[trigger] it.seq()[j]).0 != vmid.0
                        ==> !any_overlaps_host((*it.seq()[j].1)@, host, length),
                forall|w: u32|
                    it.index() == it.seq().len() && w != vmid.0
                        && #[trigger] state.memory@.contains_key(w) ==> !any_overlaps_host(
                        state.memory@[w]@,
                        host,
                        length,
                    ),
        {
            let (owner, regions) = entry;
            if *owner != vmid.0 && Self::overlaps_host_in(regions, host, length) {
                assert(state@.memory.contains_key(VMID(*owner)));
                return true;
            }
        }
        false
    }

    /// The index of the first region of `regions` that starts at `gpa` and
    /// is `length` bytes long.
    fn find_region(regions: &Vec<MemoryRegion>, gpa: GPA, length: u64) -> (found: Option<usize>)
        ensures
            match found {
                Some(i) => first_match(regions@, gpa, length, i as int),
                None => forall|i: int| !first_match(regions@, gpa, length, i),
            },
    {
        let mut i: usize = 0;
        while i < regions.len()
            invariant
                i <= regions.len(),
                forall|j: int|
                    0 <= j < i ==> !((#[trigger] regions@[j]).guest_base == gpa
                        && regions@[j].length == length),
            decreases regions.len() - i,
        {
            if regions[i].guest_base.0 == gpa.0 && regions[i].length == length {
                return Some(i);
            }
            i = i + 1;
        }
        None
    }
}

} // verus!
