//! Singleton hardware resources and the capability handles that own them.
//!
//! Every physical resource the core touches exists exactly once on the
//! board: the core-voltage/reset pin, the bus chip-select pin, the
//! serial-peripheral block, its DMA channel, and the diagnostic transport
//! endpoint. A [`CapabilityHandle`] is an exclusive-ownership token for one
//! of them. Handles are deliberately neither `Clone` nor `Copy`: once the
//! initializer hands one out it can only be moved into the single task that
//! owns it for the rest of the process lifetime.

use vstd::prelude::*;

verus! {

/// The physical resources the initializer can hand out, one of each.
#[derive(Clone, Copy, PartialEq, Eq, Structural, Debug)]
pub enum ResourceKind {
    /// The co-processor's core-voltage / reset pin.
    PowerPin,
    /// The serial bus chip-select pin.
    SelectPin,
    /// The serial-peripheral controller block.
    SerialBus,
    /// The DMA channel feeding the serial-peripheral block.
    DmaChannel,
    /// The diagnostic transport endpoint.
    DiagEndpoint,
}

/// How many distinct physical resources exist.
pub const RESOURCE_COUNT: usize = 5;

/// The fixed slot of each resource in the initializer's claim table.
pub open spec fn kind_slot(k: ResourceKind) -> int {
    match k {
        ResourceKind::PowerPin => 0,
        ResourceKind::SelectPin => 1,
        ResourceKind::SerialBus => 2,
        ResourceKind::DmaChannel => 3,
        ResourceKind::DiagEndpoint => 4,
    }
}

/// Exclusive ownership of one physical resource.
///
/// Not `Clone`, not `Copy`, and not constructible outside this module: the
/// only source of handles is [`ResourceInitializer::claim`], and a live
/// handle can only be moved, so at most one task ever holds the resource it
/// names.
#[derive(PartialEq, Eq, Structural, Debug)]
pub struct CapabilityHandle {
    kind: ResourceKind,
}

impl CapabilityHandle {
    /// Which resource this handle owns.
    pub closed spec fn kind_spec(self) -> ResourceKind {
        self.kind
    }

    /// The resource this handle owns.
    pub fn resource(&self) -> (k: ResourceKind)
        ensures
            k == self.kind_spec(),
    {
        self.kind
    }
}

/// A startup-time invariant violation; the process must halt, not retry.
#[derive(Clone, Copy, PartialEq, Eq, Structural, Debug)]
pub enum StartupError {
    /// A resource was claimed a second time.
    AlreadyClaimed,
    /// The scheduler's fixed task table is full.
    TaskTableFull,
}

/// Claims each singleton resource at most once and issues its handle.
///
/// Runs before any task is scheduled. A second claim of the same resource is
/// a programming-time invariant violation: it fails, and startup as a whole
/// must halt. Nothing is ever returned to the pool.
pub struct ResourceInitializer {
    /// One claim flag per resource slot, indexed by `kind_slot`.
    claimed: Vec<bool>,
    /// Every resource kind issued so far, in claim order.
    issued: Ghost<Seq<ResourceKind>>,
}

impl ResourceInitializer {
    /// The claim table is consistent with the issue history: a slot is
    /// marked exactly when its resource was issued, and no resource was
    /// issued twice.
    pub closed spec fn wf(self) -> bool {
        &&& self.claimed@.len() == RESOURCE_COUNT
        &&& forall|k: ResourceKind| self.issued@.contains(k) <==> self.claimed@[kind_slot(k)]
        &&& forall|i: int, j: int|
                0 <= i < j < self.issued@.len() ==> self.issued@[i] != self.issued@[j]
    }

    /// The resources issued so far, in order.
    pub closed spec fn issued_kinds(self) -> Seq<ResourceKind> {
        self.issued@
    }

    /// A fresh initializer: nothing claimed, nothing issued.
    pub fn new() -> (r: ResourceInitializer)
        ensures
            r.wf(),
            r.issued_kinds() === Seq::empty(),
    {
        let mut claimed: Vec<bool> = Vec::new();
        claimed.push(false);
        claimed.push(false);
        claimed.push(false);
        claimed.push(false);
        claimed.push(false);
        ResourceInitializer { claimed, issued: Ghost(Seq::empty()) }
    }

    /// Issues the handle for `kind`, exactly once.
    ///
    /// Succeeds if and only if `kind` was never claimed before; afterwards
    /// the slot stays claimed forever. A failure is fatal to startup.
    pub fn claim(&mut self, kind: ResourceKind) -> (r: Result<CapabilityHandle, StartupError>)
        requires
            old(self).wf(),
        ensures
            final(self).wf(),
            old(self).issued_kinds().contains(kind) ==> {
                &&& r === Err(StartupError::AlreadyClaimed)
                &&& final(self).issued_kinds() === old(self).issued_kinds()
            },
            !old(self).issued_kinds().contains(kind) ==> {
                &&& r matches Ok(h) && h.kind_spec() == kind
                &&& final(self).issued_kinds() === old(self).issued_kinds().push(kind)
            },
    {
        let slot: usize = match kind {
            ResourceKind::PowerPin => 0,
            ResourceKind::SelectPin => 1,
            ResourceKind::SerialBus => 2,
            ResourceKind::DmaChannel => 3,
            ResourceKind::DiagEndpoint => 4,
        };
        if self.claimed[slot] {
            Err(StartupError::AlreadyClaimed)
        } else {
            self.claimed.set(slot, true);
            proof {
                broadcast use vstd::seq_lib::lemma_seq_contains_after_push;
                assert(!old(self).issued@.contains(kind));
                assert forall|k: ResourceKind|
                    old(self).issued@.push(kind).contains(k)
                        <==> #[trigger] self.claimed@[kind_slot(k)]
                by {
                    assert(old(self).issued@.contains(k)
                        <==> old(self).claimed@[kind_slot(k)]);
                }
            }
            self.issued = Ghost(self.issued@.push(kind));
            Ok(CapabilityHandle { kind })
        }
    }
}

/// The full set of board resources, one handle each, as startup hands them
/// to their owning tasks.
pub struct BoardHandles {
    /// Goes to the link driver task, with the serial bus.
    pub power: CapabilityHandle,
    /// Goes to the link driver task's bus block.
    pub select: CapabilityHandle,
    /// Goes to the link driver task.
    pub serial: CapabilityHandle,
    /// Goes with the serial bus.
    pub dma: CapabilityHandle,
    /// Goes to the diagnostic sink task.
    pub diag: CapabilityHandle,
}

impl ResourceInitializer {
    /// Startup's one-shot claim of every singleton resource.
    ///
    /// Runs once, on a fresh initializer, before any task is scheduled; the
    /// precondition admits no second run, so the five handles produced here
    /// are the only ones that will ever exist.
    pub fn claim_all(&mut self) -> (h: BoardHandles)
        requires
            old(self).wf(),
            old(self).issued_kinds() === Seq::empty(),
        ensures
            final(self).wf(),
            h.power.kind_spec() == ResourceKind::PowerPin,
            h.select.kind_spec() == ResourceKind::SelectPin,
            h.serial.kind_spec() == ResourceKind::SerialBus,
            h.dma.kind_spec() == ResourceKind::DmaChannel,
            h.diag.kind_spec() == ResourceKind::DiagEndpoint,
            final(self).issued_kinds().len() == RESOURCE_COUNT,
    {
        let power = match self.claim(ResourceKind::PowerPin) {
            Ok(h) => h,
            Err(_) => vstd::pervasive::unreached(),
        };
        let select = match self.claim(ResourceKind::SelectPin) {
            Ok(h) => h,
            Err(_) => vstd::pervasive::unreached(),
        };
        let serial = match self.claim(ResourceKind::SerialBus) {
            Ok(h) => h,
            Err(_) => vstd::pervasive::unreached(),
        };
        let dma = match self.claim(ResourceKind::DmaChannel) {
            Ok(h) => h,
            Err(_) => vstd::pervasive::unreached(),
        };
        let diag = match self.claim(ResourceKind::DiagEndpoint) {
            Ok(h) => h,
            Err(_) => vstd::pervasive::unreached(),
        };
        BoardHandles { power, select, serial, dma, diag }
    }
}

/// Ownership uniqueness: the initializer never issues two live handles for
/// the same physical resource. Any two handles it has handed out, taken at
/// distinct positions of the issue history, name different resources.
pub proof fn lemma_ownership_unique(init: &ResourceInitializer, i: int, j: int)
    requires
        init.wf(),
        0 <= i < init.issued_kinds().len(),
        0 <= j < init.issued_kinds().len(),
        i != j,
    ensures
        init.issued_kinds()[i] != init.issued_kinds()[j],
{
}

} // verus!
