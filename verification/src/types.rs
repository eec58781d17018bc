//! Core entities of the nucleus and the shared system state.

use std::collections::HashMap;
use std::collections::VecDeque;
use vstd::prelude::*;

verus! {

/// Opaque 32-bit handle of a virtual machine.
#[derive(Clone, Copy, Debug, PartialEq, Eq, Hash, Structural)]
pub struct VMID(pub u32);

/// Location in a VM's guest-physical address space.
#[derive(Clone, Copy, Debug, PartialEq, Eq, Hash, Structural)]
pub struct GPA(pub u64);

/// Architectural state of one virtual CPU, as far as the nucleus sees it.
#[derive(Clone, Copy, Debug, PartialEq, Eq)]
pub struct CPUState {
    /// General-purpose registers x0..x30.
    pub gpr: [u64; 31],
    /// Program counter.
    pub pc: u64,
    /// Stack pointer.
    pub sp: u64,
    /// Processor-state flags.
    pub pstate: u64,
}

impl CPUState {
    /// The CPU state in which every register is zero.
    pub open spec fn zeroed(self) -> bool {
        &&& forall|i: int| 0 <= i < 31 ==> self.gpr[i] == 0
        &&& self.pc == 0
        &&& self.sp == 0
        &&& self.pstate == 0
    }
}

impl Default for CPUState {
    fn default() -> (cpu: CPUState)
        ensures
            cpu.zeroed(),
    {
        CPUState { gpr: [0; 31], pc: 0, sp: 0, pstate: 0 }
    }
}

/// Permission atom that gates a class of operations on a VM.
#[derive(Clone, Copy, Debug, PartialEq, Eq, Hash, Structural)]
pub enum Capability {
    /// The VM may be made runnable.
    Execute,
    /// Guest-physical memory may be mapped into and out of the VM.
    MapMemory,
    /// Exits of the VM may be dispatched.
    HandleExit,
    /// The VM may be halted.
    Halt,
}

/// The capabilities every VM holds right after creation.
pub open spec fn default_capabilities() -> Set<Capability> {
    set![Capability::Execute, Capability::MapMemory, Capability::HandleExit, Capability::Halt]
}

/// The capabilities of `set` in the order of their declaration.
pub open spec fn listed(set: Set<Capability>) -> Seq<Capability> {
    let execute: Seq<Capability> = if set.contains(Capability::Execute) {
        seq![Capability::Execute]
    } else {
        seq![]
    };
    let map_memory: Seq<Capability> = if set.contains(Capability::MapMemory) {
        seq![Capability::MapMemory]
    } else {
        seq![]
    };
    let handle_exit: Seq<Capability> = if set.contains(Capability::HandleExit) {
        seq![Capability::HandleExit]
    } else {
        seq![]
    };
    let halt: Seq<Capability> = if set.contains(Capability::Halt) {
        seq![Capability::Halt]
    } else {
        seq![]
    };
    execute + map_memory + handle_exit + halt
}

/// A set of capabilities, one flag per capability.
#[derive(Clone, Copy, Debug, PartialEq, Eq, Structural)]
pub struct CapabilitySet {
    execute: bool,
    map_memory: bool,
    handle_exit: bool,
    halt: bool,
}

impl View for CapabilitySet {
    type V = Set<Capability>;

    closed spec fn view(&self) -> Set<Capability> {
        Set::new(
            |c: Capability|
                match c {
                    Capability::Execute => self.execute,
                    Capability::MapMemory => self.map_memory,
                    Capability::HandleExit => self.handle_exit,
                    Capability::Halt => self.halt,
                },
        )
    }
}

impl CapabilitySet {
    /// The empty set.
    pub fn new() -> (set: CapabilitySet)
        ensures
            set@ == Set::<Capability>::empty(),
    {
        CapabilitySet { execute: false, map_memory: false, handle_exit: false, halt: false }
    }

    /// Whether `cap` is in the set.
    pub fn contains(&self, cap: &Capability) -> (held: bool)
        ensures
            held == self@.contains(*cap),
    {
        match cap {
            Capability::Execute => self.execute,
            Capability::MapMemory => self.map_memory,
            Capability::HandleExit => self.handle_exit,
            Capability::Halt => self.halt,
        }
    }

    /// Adds `cap`; returns whether it was absent before.
    pub fn insert(&mut self, cap: Capability) -> (added: bool)
        ensures
            final(self)@ == old(self)@.insert(cap),
            added == !old(self)@.contains(cap),
    {
        let held = self.contains(&cap);
        match cap {
            Capability::Execute => {
                self.execute = true;
            },
            Capability::MapMemory => {
                self.map_memory = true;
            },
            Capability::HandleExit => {
                self.handle_exit = true;
            },
            Capability::Halt => {
                self.halt = true;
            },
        }
        !held
    }

    /// Removes `cap`; returns whether it was present before.
    pub fn remove(&mut self, cap: &Capability) -> (removed: bool)
        ensures
            final(self)@ == old(self)@.remove(*cap),
            removed == old(self)@.contains(*cap),
    {
        let held = self.contains(cap);
        match cap {
            Capability::Execute => {
                self.execute = false;
            },
            Capability::MapMemory => {
                self.map_memory = false;
            },
            Capability::HandleExit => {
                self.handle_exit = false;
            },
            Capability::Halt => {
                self.halt = false;
            },
        }
        held
    }

    /// The capabilities in the set, each once, in the order of their
    /// declaration.
    pub fn to_vec(&self) -> (caps: Vec<Capability>)
        ensures
            caps@ == listed(self@),
            caps@.no_duplicates(),
            forall|c: Capability| caps@.contains(c) <==> self@.contains(c),
    {
        let mut caps: Vec<Capability> = Vec::new();
        if self.execute {
            proof {
                lemma_push_fresh(caps@, Capability::Execute);
            }
            caps.push(Capability::Execute);
        }
        if self.map_memory {
            proof {
                lemma_push_fresh(caps@, Capability::MapMemory);
            }
            caps.push(Capability::MapMemory);
        }
        if self.handle_exit {
            proof {
                lemma_push_fresh(caps@, Capability::HandleExit);
            }
            caps.push(Capability::HandleExit);
        }
        if self.halt {
            proof {
                lemma_push_fresh(caps@, Capability::Halt);
            }
            caps.push(Capability::Halt);
        }
        caps
    }
}

/// Appending an element that a duplicate-free sequence lacks keeps it
/// duplicate-free and adds exactly that element.
proof fn lemma_push_fresh<T>(s: Seq<T>, x: T)
    requires
        s.no_duplicates(),
        !s.contains(x),
    ensures
        s.push(x).no_duplicates(),
        forall|y: T| #[trigger] s.push(x).contains(y) <==> (s.contains(y) || y == x),
{
    let t = s.push(x);
    assert forall|y: T| #[trigger] t.contains(y) <==> (s.contains(y) || y == x) by {
        if s.contains(y) {
            let i = choose|i: int| 0 <= i < s.len() && s[i] == y;
            assert(t[i] == y);
        }
        if y == x {
            assert(t[s.len() as int] == y);
        }
    }
}

/// Cause of a trap from a guest into the nucleus.
#[derive(Clone, Copy, Debug, PartialEq, Eq)]
pub enum ExitReason {
    /// The guest asked for a service of the nucleus.
    Hypercall { nr: u64, args: [u64; 6] },
    /// A data access to `gpa` faulted.
    MemoryFault { gpa: GPA, write: bool },
    /// An instruction fetch from `gpa` faulted.
    InstructionAbort { gpa: GPA },
    /// The guest touched system register `reg`.
    SystemRegister { reg: u32, write: bool },
    /// The guest waits for an interrupt.
    WFI,
    /// The guest raised exception `vector`.
    Exception { vector: u32 },
    /// The run of the guest was cancelled.
    Cancelled,
}

/// Lifecycle state of a VM.
#[derive(Clone, Copy, Debug, PartialEq, Eq)]
pub enum VMState {
    /// The VM exists but has no CPU state yet.
    Created,
    /// The VM may be handed to the execution oracle.
    Runnable(CPUState),
    /// The VM has exited and awaits a decision of the dispatcher.
    Trapped(ExitReason, CPUState),
    /// Terminal: the VM can only be destroyed.
    Halted,
}

/// A stretch of guest-physical memory of one VM and the host memory behind it.
#[derive(Clone, Copy, Debug, PartialEq, Eq, Structural)]
pub struct MemoryRegion {
    /// The VM that owns the region.
    pub vmid: VMID,
    /// First guest-physical address of the region.
    pub guest_base: GPA,
    /// Length in bytes.
    pub length: u64,
    /// First host address behind the region.
    pub host_backing: u64,
    /// Protection flags.
    pub protection: u32,
}

/// Whether the byte ranges `[a, a + a_len)` and `[b, b + b_len)` share a byte.
pub open spec fn ranges_overlap(a: int, a_len: int, b: int, b_len: int) -> bool {
    a_len > 0 && b_len > 0 && a < b + b_len && b < a + a_len
}

impl MemoryRegion {
    /// Whether the region shares a guest-physical byte with `[base, base + length)`.
    pub open spec fn overlaps_guest(self, base: GPA, length: u64) -> bool {
        ranges_overlap(self.guest_base.0 as int, self.length as int, base.0 as int, length as int)
    }

    /// Whether the region shares a host byte with `[base, base + length)`.
    pub open spec fn overlaps_host(self, base: u64, length: u64) -> bool {
        ranges_overlap(self.host_backing as int, self.length as int, base as int, length as int)
    }
}

/// The system state as mathematics: what the contracts of the nucleus speak of.
#[verifier::ext_equal]
pub struct SystemModel {
    /// Lifecycle state of each VM that exists.
    pub vms: Map<VMID, VMState>,
    /// Capabilities of each VM that was granted any.
    pub caps: Map<VMID, Set<Capability>>,
    /// Regions of each VM that mapped any, in insertion order.
    pub memory: Map<VMID, Seq<MemoryRegion>>,
    /// Pending exits, oldest first.
    pub exits: Seq<(VMID, ExitReason)>,
    /// The handle that the next allocation returns.
    pub next_vmid: nat,
}

impl SystemModel {
    /// The state without any VM.
    pub open spec fn empty() -> SystemModel {
        SystemModel {
            vms: Map::empty(),
            caps: Map::empty(),
            memory: Map::empty(),
            exits: Seq::empty(),
            next_vmid: 0,
        }
    }

    /// Whether VM `v` exists.
    pub open spec fn has_vm(self, v: VMID) -> bool {
        self.vms.contains_key(v)
    }

    /// The capabilities that are recorded for `v`.
    pub open spec fn capabilities_of(self, v: VMID) -> Set<Capability> {
        if self.caps.contains_key(v) {
            self.caps[v]
        } else {
            Set::empty()
        }
    }

    /// Whether `v` holds capability `c`: a VM that does not exist holds
    /// nothing.
    pub open spec fn holds(self, v: VMID, c: Capability) -> bool {
        self.has_vm(v) && self.capabilities_of(v).contains(c)
    }

    /// The regions of `v`, in insertion order.
    pub open spec fn regions_of(self, v: VMID) -> Seq<MemoryRegion> {
        if self.memory.contains_key(v) {
            self.memory[v]
        } else {
            Seq::empty()
        }
    }

    /// Whether another handle can be allocated.
    pub open spec fn can_allocate(self) -> bool {
        self.next_vmid < u32::MAX
    }

    /// The handle that the next allocation returns.
    pub open spec fn next_handle(self) -> VMID {
        VMID(self.next_vmid as u32)
    }

    /// The state after one allocation.
    pub open spec fn allocate(self) -> SystemModel {
        SystemModel { next_vmid: self.next_vmid + 1, ..self }
    }

    /// The state in which `v` is in lifecycle state `st`.
    pub open spec fn with_vm(self, v: VMID, st: VMState) -> SystemModel {
        SystemModel { vms: self.vms.insert(v, st), ..self }
    }

    /// The state in which `c` is also recorded for `v`.
    pub open spec fn grant(self, v: VMID, c: Capability) -> SystemModel {
        SystemModel { caps: self.caps.insert(v, self.capabilities_of(v).insert(c)), ..self }
    }

    /// The state in which `c` is no longer recorded for `v`.
    pub open spec fn revoke(self, v: VMID, c: Capability) -> SystemModel {
        if self.caps.contains_key(v) {
            SystemModel { caps: self.caps.insert(v, self.caps[v].remove(c)), ..self }
        } else {
            self
        }
    }

    /// Every handle in use was allocated: it lies below the counter, and the
    /// counter fits a handle.
    pub open spec fn handles_allocated(self) -> bool {
        &&& self.next_vmid <= u32::MAX
        &&& forall|v: VMID| #[trigger] self.vms.contains_key(v) ==> v.0 < self.next_vmid
        &&& forall|v: VMID| #[trigger] self.caps.contains_key(v) ==> v.0 < self.next_vmid
        &&& forall|v: VMID| #[trigger] self.memory.contains_key(v) ==> v.0 < self.next_vmid
        &&& forall|i: int|
            0 <= i < self.exits.len() ==> (#[trigger] self.exits[i]).0.0 < self.next_vmid
    }

    /// Capabilities, regions and pending exits belong to VMs that exist.
    pub open spec fn entries_have_vm(self) -> bool {
        &&& forall|v: VMID| #[trigger] self.caps.contains_key(v) ==> self.vms.contains_key(v)
        &&& forall|v: VMID| #[trigger] self.memory.contains_key(v) ==> self.vms.contains_key(v)
        &&& forall|i: int|
            0 <= i < self.exits.len() ==> self.vms.contains_key((#[trigger] self.exits[i]).0)
    }

    /// Each region is filed under its owner and is not empty.
    pub open spec fn regions_filed(self) -> bool {
        forall|v: VMID, i: int|
            self.memory.contains_key(v) && 0 <= i < self.memory[v].len() ==> {
                &&& (#[trigger] self.memory[v][i]).vmid == v
                &&& self.memory[v][i].length > 0
            }
    }

    /// No two regions of one VM share a guest-physical byte.
    pub open spec fn guest_disjoint(self) -> bool {
        forall|v: VMID, i: int, j: int|
            self.memory.contains_key(v) && 0 <= i < j < self.memory[v].len() ==> !(
            #[trigger] self.memory[v][i]).overlaps_guest(
                (#[trigger] self.memory[v][j]).guest_base,
                self.memory[v][j].length,
            )
    }

    /// No two regions of distinct VMs share a host byte.
    pub open spec fn host_disjoint(self) -> bool {
        forall|v: VMID, w: VMID, i: int, j: int|
            v != w && self.memory.contains_key(v) && self.memory.contains_key(w) && 0 <= i
                < self.memory[v].len() && 0 <= j < self.memory[w].len() ==> !(
            #[trigger] self.memory[v][i]).overlaps_host(
                (#[trigger] self.memory[w][j]).host_backing,
                self.memory[w][j].length,
            )
    }

    /// Memory non-interference.
    pub open spec fn memory_isolated(self) -> bool {
        &&& self.regions_filed()
        &&& self.guest_disjoint()
        &&& self.host_disjoint()
    }

    /// The invariant of the system state.
    pub open spec fn wf(self) -> bool {
        &&& self.handles_allocated()
        &&& self.entries_have_vm()
        &&& self.memory_isolated()
    }

    /// A handle that was never allocated names no VM and has no capabilities,
    /// regions or pending exits.
    pub proof fn lemma_next_handle_unused(self)
        requires
            self.handles_allocated(),
        ensures
            !self.has_vm(self.next_handle()),
            self.capabilities_of(self.next_handle()) == Set::<Capability>::empty(),
            self.regions_of(self.next_handle()) == Seq::<MemoryRegion>::empty(),
            forall|i: int|
                0 <= i < self.exits.len() ==> (#[trigger] self.exits[i]).0 != self.next_handle(),
    {
    }

    /// Allocation keeps the handles allocated and keeps the invariant.
    pub proof fn lemma_allocate_wf(self)
        requires
            self.can_allocate(),
        ensures
            self.handles_allocated() ==> self.allocate().handles_allocated(),
            self.wf() ==> self.allocate().wf(),
    {
    }

    /// Granting a capability to a VM that exists keeps the handles allocated
    /// and keeps the invariant.
    pub proof fn lemma_grant_wf(self, v: VMID, c: Capability)
        requires
            self.has_vm(v),
        ensures
            self.handles_allocated() ==> self.grant(v, c).handles_allocated(),
            self.wf() ==> self.grant(v, c).wf(),
    {
    }

    /// Revoking a capability keeps the handles allocated and keeps the
    /// invariant.
    pub proof fn lemma_revoke_wf(self, v: VMID, c: Capability)
        ensures
            self.handles_allocated() ==> self.revoke(v, c).handles_allocated(),
            self.wf() ==> self.revoke(v, c).wf(),
    {
    }

    /// Changing the lifecycle state of a VM that exists keeps the handles
    /// allocated and keeps the invariant.
    pub proof fn lemma_with_vm_wf(self, v: VMID, st: VMState)
        requires
            self.has_vm(v),
        ensures
            self.handles_allocated() ==> self.with_vm(v, st).handles_allocated(),
            self.wf() ==> self.with_vm(v, st).wf(),
    {
    }
}

/// The shared state of the nucleus. The maps are keyed by the number of a
/// handle.
#[derive(Debug)]
pub struct SystemState {
    /// Lifecycle state of each VM.
    pub vms: HashMap<u32, VMState>,
    /// Capabilities of each VM.
    pub caps: HashMap<u32, CapabilitySet>,
    /// Regions of each VM, in insertion order.
    pub memory: HashMap<u32, Vec<MemoryRegion>>,
    /// Pending exits, oldest first.
    pub exits: VecDeque<(VMID, ExitReason)>,
    /// The number of the next handle.
    pub next_vmid: u32,
}

impl View for SystemState {
    type V = SystemModel;

    open spec fn view(&self) -> SystemModel {
        SystemModel {
            vms: Map::new(|v: VMID| self.vms@.contains_key(v.0), |v: VMID| self.vms@[v.0]),
            caps: Map::new(|v: VMID| self.caps@.contains_key(v.0), |v: VMID| self.caps@[v.0]@),
            memory: Map::new(
                |v: VMID| self.memory@.contains_key(v.0),
                |v: VMID| self.memory@[v.0]@,
            ),
            exits: self.exits@,
            next_vmid: self.next_vmid as nat,
        }
    }
}

impl Default for SystemState {
    fn default() -> (state: SystemState)
        ensures
            state@ == SystemModel::empty(),
    {
        SystemState::new()
    }
}

impl SystemState {
    /// The state without any VM.
    pub fn new() -> (state: SystemState)
        ensures
            state@ == SystemModel::empty(),
            state@.wf(),
    {
        SystemState {
            vms: HashMap::new(),
            caps: HashMap::new(),
            memory: HashMap::new(),
            exits: VecDeque::new(),
            next_vmid: 0,
        }
    }

    /// Hands out a handle that was never handed out before.
    pub fn allocate_vmid(&mut self) -> (vmid: VMID)
        requires
            old(self)@.can_allocate(),
        ensures
            vmid == old(self)@.next_handle(),
            final(self)@ == old(self)@.allocate(),
            old(self)@.handles_allocated() ==> !old(self)@.has_vm(vmid),
            old(self)@.handles_allocated() ==> final(self)@.handles_allocated(),
            old(self)@.wf() ==> final(self)@.wf(),
    {
        let vmid = VMID(self.next_vmid);
        self.next_vmid = self.next_vmid + 1;
        proof {
            old(self)@.lemma_allocate_wf();
        }
        vmid
    }

    /// Whether `vmid` holds `cap`. The answer for a VM that does not exist
    /// is no.
    pub fn has_capability(&self, vmid: VMID, cap: Capability) -> (held: bool)
        ensures
            held == self@.holds(vmid, cap),
    {
        if !self.vms.contains_key(&vmid.0) {
            return false;
        }
        match self.caps.get(&vmid.0) {
            Some(set) => set.contains(&cap),
            None => false,
        }
    }

    /// Records `cap` for `vmid`, whether or not the VM exists; a VM that
    /// exists then holds it.
    pub fn grant_capability(&mut self, vmid: VMID, cap: Capability)
        ensures
            final(self)@ == old(self)@.grant(vmid, cap),
            old(self)@.handles_allocated() && old(self)@.has_vm(vmid)
                ==> final(self)@.handles_allocated(),
            old(self)@.wf() && old(self)@.has_vm(vmid) ==> final(self)@.wf(),
    {
        let mut set = match self.caps.get(&vmid.0) {
            Some(held) => *held,
            None => CapabilitySet::new(),
        };
        set.insert(cap);
        self.caps.insert(vmid.0, set);
        proof {
            assert(self@ == old(self)@.grant(vmid, cap));
            if old(self)@.has_vm(vmid) {
                old(self)@.lemma_grant_wf(vmid, cap);
            }
        }
    }

    /// Takes `cap` from what is recorded for `vmid`.
    pub fn revoke_capability(&mut self, vmid: VMID, cap: Capability)
        ensures
            final(self)@ == old(self)@.revoke(vmid, cap),
            old(self)@.handles_allocated() ==> final(self)@.handles_allocated(),
            old(self)@.wf() ==> final(self)@.wf(),
    {
        let held = match self.caps.get(&vmid.0) {
            Some(held) => Some(*held),
            None => None,
        };
        if let Some(mut set) = held {
            set.remove(&cap);
            self.caps.insert(vmid.0, set);
        }
        proof {
            assert(self@ == old(self)@.revoke(vmid, cap));
            old(self)@.lemma_revoke_wf(vmid, cap);
        }
    }
}

} // verus!
