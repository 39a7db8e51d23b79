//! The interrupt topology table ("APIC"): a prefix of two words followed by
//! tagged records of self-described length.

use vstd::prelude::*;

use crate::bytes::{le_at, read_u16, read_u32, read_u64, read_u8};
use crate::acpi::{first_sdt, has_named, is_named, Registry};
use crate::sdt::Sdt;

pub mod aarch64;
pub mod x86;

verus! {

/// Offset in the data region of the first record, after the local
/// controller address and the flags word.
pub const MADT_RECORDS_START: usize = 8;

/// The "APIC" signature.
pub open spec fn apic_signature() -> Seq<u8> {
    seq![0x41u8, 0x50, 0x49, 0x43]
}

/// A processor's local interrupt controller.
#[derive(Clone, Copy, Debug, PartialEq, Eq)]
pub struct MadtLocalApic {
    pub processor: u8,
    pub id: u8,
    pub flags: u32,
}

/// An I/O interrupt router.
#[derive(Clone, Copy, Debug, PartialEq, Eq)]
pub struct MadtIoApic {
    pub id: u8,
    pub address: u32,
    pub gsi_base: u32,
}

/// An interrupt source override.
#[derive(Clone, Copy, Debug, PartialEq, Eq)]
pub struct MadtIntSrcOverride {
    pub bus_source: u8,
    pub irq_source: u8,
    pub gsi_base: u32,
    pub flags: u16,
}

/// A generic interrupt controller's CPU interface.
#[derive(Clone, Copy, Debug, PartialEq, Eq)]
pub struct MadtGicc {
    pub cpu_interface_number: u32,
    pub acpi_processor_uid: u32,
    pub flags: u32,
    pub parking_protocol_version: u32,
    pub performance_interrupt_gsiv: u32,
    pub parked_address: u64,
    pub physical_base_address: u64,
    pub gicv: u64,
    pub gich: u64,
    pub vgic_maintenance_interrupt: u32,
    pub gicr_base_address: u64,
    pub mpidr: u64,
    pub processor_power_efficiency_class: u8,
    pub spe_overflow_interrupt: u16,
}

/// A generic interrupt controller's distributor.
#[derive(Clone, Copy, Debug, PartialEq, Eq)]
pub struct MadtGicd {
    pub gic_id: u32,
    pub physical_base_address: u64,
    pub system_vector_base: u32,
    pub gic_version: u8,
}

/// One record of the table; a tag that is not modelled, or a record whose
/// length does not fit its tag's layout, gives `Unknown` with the raw tag.
#[derive(Clone, Copy, Debug, PartialEq, Eq)]
pub enum MadtEntry {
    LocalApic(MadtLocalApic),
    IoApic(MadtIoApic),
    IntSrcOverride(MadtIntSrcOverride),
    Gicc(MadtGicc),
    Gicd(MadtGicd),
    Unknown(u8),
}

/// The offsets of the records of `d` met by a walk from offset `i`: each step
/// advances by the record's declared length, whether or not its tag is known.
/// The walk stops where no tag and length byte remain, or where a record would
/// run past the end of `d`. A record of declared length zero is met (as
/// unknown) but never left, since a step of zero does not move: the walk as a
/// finite sequence ends with it.
pub open spec fn record_offsets(d: Seq<u8>, i: int) -> Seq<int>
    decreases d.len() - i,
{
    if i < 0 || i + 1 >= d.len() {
        Seq::empty()
    } else if i + d[i + 1] as int > d.len() {
        Seq::empty()
    } else if d[i + 1] == 0 {
        seq![i]
    } else {
        seq![i] + record_offsets(d, i + d[i + 1] as int)
    }
}

pub open spec fn le32(d: Seq<u8>, o: int) -> u32 {
    le_at(d, o, 4) as u32
}

pub open spec fn le64(d: Seq<u8>, o: int) -> u64 {
    le_at(d, o, 8) as u64
}

/// The record of `d` at offset `i`.
pub open spec fn decode_entry(d: Seq<u8>, i: int) -> MadtEntry {
    let tag = d[i];
    let len = d[i + 1];
    if tag == 0 && len == 8 {
        MadtEntry::LocalApic(MadtLocalApic { processor: d[i + 2], id: d[i + 3], flags: le32(d, i + 4) })
    } else if tag == 1 && len == 12 {
        MadtEntry::IoApic(MadtIoApic { id: d[i + 2], address: le32(d, i + 4), gsi_base: le32(d, i + 8) })
    } else if tag == 2 && len == 10 {
        MadtEntry::IntSrcOverride(
            MadtIntSrcOverride {
                bus_source: d[i + 2],
                irq_source: d[i + 3],
                gsi_base: le32(d, i + 4),
                flags: le_at(d, i + 8, 2) as u16,
            },
        )
    } else if tag == 0xB && len >= 80 {
        MadtEntry::Gicc(
            MadtGicc {
                cpu_interface_number: le32(d, i + 4),
                acpi_processor_uid: le32(d, i + 8),
                flags: le32(d, i + 12),
                parking_protocol_version: le32(d, i + 16),
                performance_interrupt_gsiv: le32(d, i + 20),
                parked_address: le64(d, i + 24),
                physical_base_address: le64(d, i + 32),
                gicv: le64(d, i + 40),
                gich: le64(d, i + 48),
                vgic_maintenance_interrupt: le32(d, i + 56),
                gicr_base_address: le64(d, i + 60),
                mpidr: le64(d, i + 68),
                processor_power_efficiency_class: d[i + 76],
                spe_overflow_interrupt: le_at(d, i + 78, 2) as u16,
            },
        )
    } else if tag == 0xC && len >= 24 {
        MadtEntry::Gicd(
            MadtGicd {
                gic_id: le32(d, i + 4),
                physical_base_address: le64(d, i + 8),
                system_vector_base: le32(d, i + 16),
                gic_version: d[i + 20],
            },
        )
    } else {
        MadtEntry::Unknown(tag)
    }
}

/// Whether a walk from offset `i` over `d` arrives at offset `k`.
pub open spec fn walk_reaches(d: Seq<u8>, i: int, k: int) -> bool
    decreases d.len() - i,
{
    if i == k {
        true
    } else if i < 0 || i + 1 >= d.len() || d[i + 1] == 0 || i + d[i + 1] as int > d.len() {
        false
    } else {
        walk_reaches(d, i + d[i + 1] as int, k)
    }
}

/// The walk never reads outside the data region: every record it yields
/// lies wholly inside `d`. A record whose declared length would run past
/// the end of `d` ends the walk where it stands: when the walk arrives at
/// such a record, it yields only records that come before it.
pub proof fn lemma_walk_in_bounds(d: Seq<u8>, i: int, k: int)
    ensures
        forall|j: int|
            0 <= j < record_offsets(d, i).len() ==> {
                let o = #[trigger] record_offsets(d, i)[j];
                &&& 0 <= o
                &&& o + 1 < d.len()
                &&& o + d[o + 1] <= d.len()
            },
        walk_reaches(d, i, k) && 0 <= k && k + 1 < d.len() && k + d[k + 1] as int > d.len() ==>
            forall|j: int| 0 <= j < record_offsets(d, i).len() ==> #[trigger] record_offsets(d, i)[j] < k,
    decreases d.len() - i,
{
    if !(i < 0 || i + 1 >= d.len() || d[i + 1] == 0 || i + d[i + 1] as int > d.len()) {
        let n = i + d[i + 1] as int;
        lemma_walk_in_bounds(d, n, k);
        let offs = record_offsets(d, i);
        assert(offs == seq![i] + record_offsets(d, n));
        assert forall|j: int| 0 <= j < offs.len() implies {
            let o = #[trigger] offs[j];
            &&& 0 <= o
            &&& o + 1 < d.len()
            &&& o + d[o + 1] <= d.len()
        } by {
            if j > 0 {
                assert(offs[j] == record_offsets(d, n)[j - 1]);
            }
        }
        if walk_reaches(d, i, k) && 0 <= k && k + 1 < d.len() && k + d[k + 1] as int > d.len() {
            assert(i != k);
            assert(walk_reaches(d, n, k));
            lemma_walk_ahead(d, n, k);
            assert forall|j: int| 0 <= j < offs.len() implies #[trigger] offs[j] < k by {
                if j > 0 {
                    assert(offs[j] == record_offsets(d, n)[j - 1]);
                }
            }
        }
    } else if 0 <= i && i + 1 < d.len() && i + d[i + 1] as int <= d.len() {
        assert(record_offsets(d, i) == seq![i]);
    }
}

/// A walk only moves forward: the offsets it yields from `i` are at least `i`,
/// and it arrives only at offsets at or beyond `i`.
pub proof fn lemma_walk_ahead(d: Seq<u8>, i: int, k: int)
    ensures
        walk_reaches(d, i, k) ==> i <= k,
        forall|j: int| 0 <= j < record_offsets(d, i).len() ==> i <= #[trigger] record_offsets(d, i)[j],
    decreases d.len() - i,
{
    if !(i < 0 || i + 1 >= d.len() || d[i + 1] == 0 || i + d[i + 1] as int > d.len()) {
        let n = i + d[i + 1] as int;
        lemma_walk_ahead(d, n, k);
        let offs = record_offsets(d, i);
        assert(offs == seq![i] + record_offsets(d, n));
        assert forall|j: int| 0 <= j < offs.len() implies i <= #[trigger] offs[j] by {
            if j > 0 {
                assert(offs[j] == record_offsets(d, n)[j - 1]);
            }
        }
    } else if 0 <= i && i + 1 < d.len() && i + d[i + 1] as int <= d.len() {
        assert(record_offsets(d, i) == seq![i]);
    }
}

/// The records of `d` met by a walk from offset `i`.
pub open spec fn entries_from(d: Seq<u8>, i: int) -> Seq<MadtEntry> {
    record_offsets(d, i).map_values(|o: int| decode_entry(d, o))
}

/// Decodes the record at `i`, whose declared length fits in `d`.
fn decode_entry_at(d: &[u8], i: usize) -> (r: MadtEntry)
    requires
        i + 1 < d@.len(),
        i + d@[i + 1] <= d@.len(),
    ensures
        r == decode_entry(d@, i as int),
{
    let tag = d[i];
    let len = d[i + 1] as usize;
    if tag == 0 && len == 8 {
        MadtEntry::LocalApic(MadtLocalApic { processor: d[i + 2], id: d[i + 3], flags: read_u32(d, i + 4) })
    } else if tag == 1 && len == 12 {
        MadtEntry::IoApic(MadtIoApic { id: d[i + 2], address: read_u32(d, i + 4), gsi_base: read_u32(d, i + 8) })
    } else if tag == 2 && len == 10 {
        MadtEntry::IntSrcOverride(
            MadtIntSrcOverride {
                bus_source: d[i + 2],
                irq_source: d[i + 3],
                gsi_base: read_u32(d, i + 4),
                flags: read_u16(d, i + 8),
            },
        )
    } else if tag == 0xB && len >= 80 {
        MadtEntry::Gicc(
            MadtGicc {
                cpu_interface_number: read_u32(d, i + 4),
                acpi_processor_uid: read_u32(d, i + 8),
                flags: read_u32(d, i + 12),
                parking_protocol_version: read_u32(d, i + 16),
                performance_interrupt_gsiv: read_u32(d, i + 20),
                parked_address: read_u64(d, i + 24),
                physical_base_address: read_u64(d, i + 32),
                gicv: read_u64(d, i + 40),
                gich: read_u64(d, i + 48),
                vgic_maintenance_interrupt: read_u32(d, i + 56),
                gicr_base_address: read_u64(d, i + 60),
                mpidr: read_u64(d, i + 68),
                processor_power_efficiency_class: read_u8(d, i + 76),
                spe_overflow_interrupt: read_u16(d, i + 78),
            },
        )
    } else if tag == 0xC && len >= 24 {
        MadtEntry::Gicd(
            MadtGicd {
                gic_id: read_u32(d, i + 4),
                physical_base_address: read_u64(d, i + 8),
                system_vector_base: read_u32(d, i + 16),
                gic_version: read_u8(d, i + 20),
            },
        )
    } else {
        MadtEntry::Unknown(tag)
    }
}

/// The interrupt topology table, with the two words of its data prefix.
#[derive(Clone, Copy, Debug)]
pub struct Madt<'a> {
    pub sdt: &'a Sdt,
    pub local_address: u32,
    pub flags: u32,
}

/// Flag bit: the platform also has dual legacy interrupt controllers.
pub const FLAG_PCAT: u32 = 1;

impl<'a> Madt<'a> {
    /// The records of the table, in order.
    pub open spec fn spec_entries(&self) -> Seq<MadtEntry> {
        entries_from(self.sdt.data@, MADT_RECORDS_START as int)
    }

    /// Views `sdt` as the topology table: it must carry the "APIC" signature
    /// and a data region that holds the two prefix words.
    pub fn new(sdt: &'a Sdt) -> (r: Option<Madt<'a>>)
        ensures
            r is Some <==> sdt.signature@ == apic_signature() && sdt.data@.len() >= 8,
            r matches Some(m) ==> {
                &&& m.sdt == sdt
                &&& m.local_address == le32(sdt.data@, 0)
                &&& m.flags == le32(sdt.data@, 4)
            },
    {
        if sdt.signature_is(&[0x41, 0x50, 0x49, 0x43]) && sdt.data.len() >= 8 {
            let local_address = read_u32(sdt.data.as_slice(), 0);
            let flags = read_u32(sdt.data.as_slice(), 4);
            Some(Madt { sdt, local_address, flags })
        } else {
            None
        }
    }

    /// Looks the topology table up: the first "APIC" table, when it is one.
    pub fn init(registry: &'a Registry) -> (r: Option<Madt<'a>>)
        requires
            registry.wf(),
        ensures
            !has_named(registry@, "APIC"@) ==> r is None,
            has_named(registry@, "APIC"@) ==> exists|t: Sdt| {
                &&& is_named(registry@, "APIC"@, t)
                &&& (r is Some <==> t.signature@ == apic_signature() && t.data@.len() >= 8)
                &&& (r matches Some(m) ==> *m.sdt == t)
            },
            r matches Some(m) ==> {
                &&& is_named(registry@, "APIC"@, *m.sdt)
                &&& m.sdt.signature@ == apic_signature()
                &&& m.sdt.data@.len() >= 8
                &&& m.local_address == le32(m.sdt.data@, 0)
                &&& m.flags == le32(m.sdt.data@, 4)
            },
    {
        match first_sdt(registry, "APIC") {
            Some(t) => Madt::new(t),
            None => None,
        }
    }

    /// A walk over the records, from the first.
    pub fn iter(&self) -> (r: MadtIter<'a>)
        ensures
            r.sdt == self.sdt,
            r.i == MADT_RECORDS_START,
            r.remaining() == self.spec_entries(),
    {
        MadtIter { sdt: self.sdt, i: MADT_RECORDS_START }
    }

    /// All records of the table, in order; a record of declared length
    /// zero is the last one collected, since the walk does not move past it.
    pub fn entries(&self) -> (r: Vec<MadtEntry>)
        ensures
            r@ == self.spec_entries(),
    {
        let mut it = self.iter();
        let mut r: Vec<MadtEntry> = Vec::new();
        loop
            invariant
                it.sdt == self.sdt,
                r@ + it.remaining() == self.spec_entries(),
            decreases it.remaining().len(),
        {
            let ghost before = it.remaining();
            let at = it.i;
            match it.next() {
                Some(e) => {
                    r.push(e);
                    if it.i == at {
                        proof {
                            assert(before =~= seq![e]);
                            assert(r@ =~= self.spec_entries());
                        }
                        return r;
                    }
                    proof {
                        assert(r@ + it.remaining() =~= self.spec_entries());
                    }
                },
                None => {
                    proof {
                        assert(r@ =~= self.spec_entries());
                    }
                    return r;
                },
            }
        }
    }
}

/// A walk over the records of a topology table.
pub struct MadtIter<'a> {
    pub sdt: &'a Sdt,
    pub i: usize,
}

impl<'a> MadtIter<'a> {
    /// The records that the walk has still to yield.
    pub open spec fn remaining(&self) -> Seq<MadtEntry> {
        entries_from(self.sdt.data@, self.i as int)
    }

    /// Yields the record at the cursor and moves the cursor by its declared
    /// length, or returns `None` once no whole record is left. A record of
    /// declared length zero is yielded, as unknown, without moving.
    pub fn next(&mut self) -> (r: Option<MadtEntry>)
        ensures
            final(self).sdt == old(self).sdt,
            old(self).remaining().len() == 0 ==> r is None && final(self).i == old(self).i,
            old(self).remaining().len() > 0 ==> {
                &&& r == Some(old(self).remaining()[0])
                &&& r == Some(decode_entry(old(self).sdt.data@, old(self).i as int))
                &&& final(self).i == old(self).i + old(self).sdt.data@[old(self).i + 1]
            },
            old(self).remaining().len() > 0 && final(self).i != old(self).i ==> final(self).remaining()
                == old(self).remaining().drop_first(),
            old(self).remaining().len() > 0 && final(self).i == old(self).i ==> old(self).remaining().len() == 1
                && final(self).remaining() == old(self).remaining(),
    {
        let d = self.sdt.data.as_slice();
        let ghost i0 = self.i as int;
        proof {
            reveal_with_fuel(record_offsets, 2);
        }
        if self.i >= d.len() || self.i + 1 >= d.len() {
            return None;
        }
        let entry_len = d[self.i + 1] as usize;
        if entry_len > d.len() - self.i {
            return None;
        }
        let item = decode_entry_at(d, self.i);
        if entry_len == 0 {
            return Some(item);
        }
        self.i = self.i + entry_len;
        proof {
            let offs = record_offsets(d@, i0);
            assert(offs == seq![i0] + record_offsets(d@, self.i as int));
            assert(entries_from(d@, i0).drop_first() =~= entries_from(d@, self.i as int));
        }
        Some(item)
    }
}

} // verus!
