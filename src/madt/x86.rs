//! Secondary-processor bring-up on platforms with advanced programmable
//! interrupt controllers, as a state machine: each step takes what the
//! platform reports and names the next thing the platform must do.

use vstd::prelude::*;

use super::{Madt, MadtEntry, MadtLocalApic};

verus! {

/// Fixed physical (and identity-mapped virtual) address of the trampoline page.
pub const TRAMPOLINE: usize = 0x8000;

/// Offset of the control block's first word (the ready flag) in the trampoline page.
pub const CONTROL_BLOCK_OFFSET: usize = 8;

/// Size of the stack given to each started core: sixteen pages.
pub const AP_STACK_SIZE: u64 = 0x10000;

/// Base code of the INIT inter-processor interrupt.
pub const INIT_IPI: u64 = 0x4500;

/// Base code of the STARTUP inter-processor interrupt.
pub const STARTUP_IPI: u64 = 0x4600;

/// The block that the primary core fills in the trampoline page for a
/// starting core; its six words lie in this order from `CONTROL_BLOCK_OFFSET`:
/// the ready flag, the target's hardware (controller) id, the page table, the
/// stack bounds and the entry address.
#[derive(Clone, Copy, Debug, PartialEq, Eq)]
pub struct ControlBlock {
    pub ready: u64,
    pub cpu_id: u64,
    pub page_table: u64,
    pub stack_start: u64,
    pub stack_end: u64,
    pub code: u64,
}

/// Where in the protocol the primary core stands.
#[derive(Clone, Copy, Debug, PartialEq, Eq)]
pub enum ApState {
    /// Nothing has been done.
    Idle,
    /// The trampoline is in place; records from `next` on are still to be looked at.
    Prepared { next: usize },
    /// A stack is being allocated for the core of record `index`.
    AwaitStack { index: usize },
    /// The core of record `index` has been signalled and is awaited.
    Handshake { index: usize },
    /// The trampoline is gone; nothing more happens.
    TornDown,
}

/// What the platform reports back after performing an action.
#[derive(Clone, Copy, Debug, PartialEq, Eq)]
pub enum ApEvent {
    /// Starts the protocol.
    Begin,
    /// The last action is done; go on.
    Continue,
    /// A stack was allocated; its lowest virtual address.
    StackAllocated(u64),
    /// No stack could be allocated.
    StackUnavailable,
    /// The started core set its ready flag and the kernel's start flag.
    Acknowledged,
}

/// What the platform must do next.
#[derive(Clone, Copy, Debug, PartialEq, Eq)]
pub enum ApAction {
    /// Map the trampoline page writable and executable and copy the bootstrap image into it.
    MapTrampoline,
    /// Allocate a stack for the core with this processor id and controller id.
    AllocateStack { processor: u8, apic_id: u8 },
    /// Write `block` into the trampoline, send the two interrupt commands in
    /// order, and wait for the core to acknowledge.
    StartCore { apic_id: u8, block: ControlBlock, init_icr: u64, startup_icr: u64 },
    /// Give up on the core of this record; no stack could be had for it.
    SkipCore { apic_id: u8 },
    /// The core of this record is disabled and is not started.
    CoreDisabled { apic_id: u8 },
    /// Invalidate this core's address-translation caches.
    InvalidateTlb,
    /// Unmap the trampoline page.
    UnmapTrampoline,
    /// The protocol is over.
    Done,
    /// The event does not fit the state; nothing to do.
    Ignore,
}

/// Whether the record is a local controller other than the primary core's.
pub open spec fn secondary(e: MadtEntry, me: u8) -> bool {
    match e {
        MadtEntry::LocalApic(l) => l.id != me,
        _ => false,
    }
}

/// Whether the record asks for a core to be started: a local controller that
/// is not the primary core's and whose enabled flag is set.
pub open spec fn eligible(e: MadtEntry, me: u8) -> bool {
    match e {
        MadtEntry::LocalApic(l) => l.id != me && l.flags & 1 == 1,
        _ => false,
    }
}

/// The first record at or after `from` of a local controller other than
/// the primary core's.
pub open spec fn next_secondary(entries: Seq<MadtEntry>, me: u8, from: int) -> Option<int>
    decreases entries.len() - from,
{
    if from < 0 || from >= entries.len() {
        None
    } else if secondary(entries[from], me) {
        Some(from)
    } else {
        next_secondary(entries, me, from + 1)
    }
}

/// The record that `next_secondary` finds is a secondary core's, and lies at
/// or after `from`.
pub proof fn lemma_next_secondary(entries: Seq<MadtEntry>, me: u8, from: int)
    ensures
        next_secondary(entries, me, from) matches Some(k) ==> from <= k < entries.len() && secondary(entries[k], me),
    decreases entries.len() - from,
{
    if 0 <= from < entries.len() && !secondary(entries[from], me) {
        lemma_next_secondary(entries, me, from + 1);
    }
}

pub open spec fn local_apic_of(e: MadtEntry) -> MadtLocalApic {
    match e {
        MadtEntry::LocalApic(l) => l,
        _ => MadtLocalApic { processor: 0, id: 0, flags: 0 },
    }
}

/// The destination bits of an interrupt command for controller `id`.
pub open spec fn icr_destination(id: u8, x2: bool) -> u64 {
    if x2 {
        (id as u64) << 32u64
    } else {
        (id as u64) << 56u64
    }
}

pub open spec fn spec_init_icr(id: u8, x2: bool) -> u64 {
    INIT_IPI | icr_destination(id, x2)
}

pub open spec fn spec_startup_icr(id: u8, x2: bool) -> u64 {
    STARTUP_IPI | (((TRAMPOLINE >> 12usize) & 0xFFusize) as u64) | icr_destination(id, x2)
}

/// The interrupt command that resets the core with controller `id`.
pub fn init_ipi_icr(id: u8, x2: bool) -> (r: u64)
    ensures
        r == spec_init_icr(id, x2),
{
    let dest = if x2 {
        (id as u64) << 32u64
    } else {
        (id as u64) << 56u64
    };
    INIT_IPI | dest
}

/// The interrupt command that starts the core with controller `id` at the
/// trampoline's page.
pub fn startup_ipi_icr(id: u8, x2: bool) -> (r: u64)
    ensures
        r == spec_startup_icr(id, x2),
{
    let dest = if x2 {
        (id as u64) << 32u64
    } else {
        (id as u64) << 56u64
    };
    let segment = ((TRAMPOLINE >> 12usize) & 0xFFusize) as u64;
    STARTUP_IPI | segment | dest
}

/// The bring-up of every enabled secondary core listed in a topology table,
/// one core at a time and in the order of the records.
pub struct ApBringUp {
    pub entries: Vec<MadtEntry>,
    /// Controller id of the primary core.
    pub me: u8,
    /// Whether the primary core's controller is in x2 mode.
    pub x2: bool,
    /// Physical address of the active page table, handed to every core.
    pub page_table: u64,
    /// Virtual address at which started cores enter the kernel.
    pub entry_point: u64,
    pub state: ApState,
}

impl ApBringUp {
    pub open spec fn wf(&self) -> bool {
        match self.state {
            ApState::Prepared { next } => next <= self.entries@.len(),
            ApState::AwaitStack { index } => index < self.entries@.len() && eligible(self.entries@[index as int], self.me),
            ApState::Handshake { index } => index < self.entries@.len() && eligible(self.entries@[index as int], self.me),
            _ => true,
        }
    }

    /// The control block for the core of `l`, whose stack starts at `start`.
    pub open spec fn spec_block(&self, l: MadtLocalApic, start: u64) -> ControlBlock {
        ControlBlock {
            ready: 0,
            cpu_id: l.id as u64,
            page_table: self.page_table,
            stack_start: start,
            stack_end: (start + AP_STACK_SIZE) as u64,
            code: self.entry_point,
        }
    }

    /// The next state and the action that `ev` leads to.
    pub open spec fn transition(&self, ev: ApEvent) -> (ApState, ApAction) {
        match (self.state, ev) {
            (ApState::Idle, ApEvent::Begin) => (ApState::Prepared { next: 0 }, ApAction::MapTrampoline),
            (ApState::Prepared { next }, ApEvent::Continue) => match next_secondary(self.entries@, self.me, next as int) {
                None => (ApState::TornDown, ApAction::UnmapTrampoline),
                Some(k) => {
                    let l = local_apic_of(self.entries@[k]);
                    if l.flags & 1 == 1 {
                        (ApState::AwaitStack { index: k as usize }, ApAction::AllocateStack { processor: l.processor, apic_id: l.id })
                    } else {
                        (ApState::Prepared { next: (k + 1) as usize }, ApAction::CoreDisabled { apic_id: l.id })
                    }
                },
            },
            (ApState::AwaitStack { index }, ApEvent::StackAllocated(start)) => {
                let l = local_apic_of(self.entries@[index as int]);
                if start + AP_STACK_SIZE <= u64::MAX {
                    (
                        ApState::Handshake { index },
                        ApAction::StartCore {
                            apic_id: l.id,
                            block: self.spec_block(l, start),
                            init_icr: spec_init_icr(l.id, self.x2),
                            startup_icr: spec_startup_icr(l.id, self.x2),
                        },
                    )
                } else {
                    (ApState::Prepared { next: (index + 1) as usize }, ApAction::SkipCore { apic_id: l.id })
                }
            },
            (ApState::AwaitStack { index }, ApEvent::StackUnavailable) => {
                let l = local_apic_of(self.entries@[index as int]);
                (ApState::Prepared { next: (index + 1) as usize }, ApAction::SkipCore { apic_id: l.id })
            },
            (ApState::Handshake { index }, ApEvent::Acknowledged) =>
                (ApState::Prepared { next: (index + 1) as usize }, ApAction::InvalidateTlb),
            (ApState::TornDown, _) => (ApState::TornDown, ApAction::Done),
            (s, _) => (s, ApAction::Ignore),
        }
    }

    /// A protocol, not yet begun, for the records of `madt`.
    pub fn new(madt: &Madt, me: u8, x2: bool, page_table: u64, entry_point: u64) -> (r: ApBringUp)
        ensures
            r.entries@ == madt.spec_entries(),
            r.me == me,
            r.x2 == x2,
            r.page_table == page_table,
            r.entry_point == entry_point,
            r.state == ApState::Idle,
            r.wf(),
    {
        ApBringUp { entries: madt.entries(), me, x2, page_table, entry_point, state: ApState::Idle }
    }

    /// Index of the first record at or after `from` of a secondary core.
    fn find_next(&self, from: usize) -> (r: Option<usize>)
        requires
            from <= self.entries@.len(),
        ensures
            r == (match next_secondary(self.entries@, self.me, from as int) {
                Some(k) => Some(k as usize),
                None => None::<usize>,
            }),
            r matches Some(k) ==> from <= k < self.entries@.len(),
    {
        let mut k: usize = from;
        while k < self.entries.len()
            invariant
                from <= k <= self.entries@.len(),
                next_secondary(self.entries@, self.me, from as int) == next_secondary(self.entries@, self.me, k as int),
            decreases self.entries@.len() - k,
        {
            let hit = match &self.entries[k] {
                MadtEntry::LocalApic(l) => l.id != self.me,
                _ => false,
            };
            if hit {
                return Some(k);
            }
            k = k + 1;
        }
        None
    }

    /// Takes the platform's report `ev` and returns what it must do next.
    pub fn step(&mut self, ev: ApEvent) -> (r: ApAction)
        requires
            old(self).wf(),
        ensures
            final(self).wf(),
            (final(self).state, r) == old(self).transition(ev),
            final(self).entries == old(self).entries,
            final(self).me == old(self).me,
            final(self).x2 == old(self).x2,
            final(self).page_table == old(self).page_table,
            final(self).entry_point == old(self).entry_point,
    {
        let count = self.entries.len();
        match (self.state, ev) {
            (ApState::Idle, ApEvent::Begin) => {
                self.state = ApState::Prepared { next: 0 };
                ApAction::MapTrampoline
            },
            (ApState::Prepared { next }, ApEvent::Continue) => match self.find_next(next) {

                None => {
                    self.state = ApState::TornDown;
                    ApAction::UnmapTrampoline
                },
                Some(k) => {
                    proof {
                        lemma_next_secondary(self.entries@, self.me, next as int);
                    }
                    let l = match &self.entries[k] {
                        MadtEntry::LocalApic(l) => *l,
                        _ => MadtLocalApic { processor: 0, id: 0, flags: 0 },
                    };
                    if l.flags & 1 == 1 {
                        self.state = ApState::AwaitStack { index: k };
                        ApAction::AllocateStack { processor: l.processor, apic_id: l.id }
                    } else {
                        self.state = ApState::Prepared { next: k + 1 };
                        ApAction::CoreDisabled { apic_id: l.id }
                    }
                },
            },
            (ApState::AwaitStack { index }, ApEvent::StackAllocated(start)) => {
                let l = match &self.entries[index] {
                    MadtEntry::LocalApic(l) => *l,
                    _ => MadtLocalApic { processor: 0, id: 0, flags: 0 },
                };
                if start <= u64::MAX - AP_STACK_SIZE {
                    let block = ControlBlock {
                        ready: 0,
                        cpu_id: l.id as u64,
                        page_table: self.page_table,
                        stack_start: start,
                        stack_end: start + AP_STACK_SIZE,
                        code: self.entry_point,
                    };
                    self.state = ApState::Handshake { index };
                    ApAction::StartCore {
                        apic_id: l.id,
                        block,
                        init_icr: init_ipi_icr(l.id, self.x2),
                        startup_icr: startup_ipi_icr(l.id, self.x2),
                    }
                } else {
                    self.state = ApState::Prepared { next: index + 1 };
                    ApAction::SkipCore { apic_id: l.id }
                }
            },
            (ApState::AwaitStack { index }, ApEvent::StackUnavailable) => {
                let l = match &self.entries[index] {
                    MadtEntry::LocalApic(l) => *l,
                    _ => MadtLocalApic { processor: 0, id: 0, flags: 0 },
                };
                self.state = ApState::Prepared { next: index + 1 };
                ApAction::SkipCore { apic_id: l.id }
            },
            (ApState::Handshake { index }, ApEvent::Acknowledged) => {
                self.state = ApState::Prepared { next: index + 1 };
                ApAction::InvalidateTlb
            },
            (ApState::TornDown, _) => ApAction::Done,
            _ => ApAction::Ignore,
        }
    }
}

} // verus!
