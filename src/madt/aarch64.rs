//! Interrupt-controller bring-up for generic interrupt controllers: pick the
//! distributor and CPU interfaces out of the topology, choose the driver by
//! the distributor's version, and list the activated driver.

use vstd::prelude::*;

use super::{Madt, MadtEntry, MadtGicc, MadtGicd};

verus! {

/// The kind of an activated interrupt-chip driver, with the register bases
/// its driver is started on.
#[derive(Clone, Copy, Debug, PartialEq, Eq)]
pub enum IrqChipKind {
    /// Versions 1 and 2: a mapped distributor and a mapped CPU interface.
    GicV2 { dist_base: u64, cpu_base: u64 },
    /// Version 3: a mapped distributor; the CPU interface is reached through
    /// system registers.
    GicV3 { dist_base: u64 },
}

/// One activated interrupt-chip driver.
#[derive(Clone, Copy, Debug, PartialEq, Eq)]
pub struct IrqChipItem {
    pub phandle: u32,
    pub kind: IrqChipKind,
}

/// The activated interrupt-chip drivers, in the order they were activated.
pub struct IrqChipList {
    pub chips: Vec<IrqChipItem>,
}

/// What bring-up came to.
#[derive(Clone, Copy, Debug, PartialEq, Eq)]
pub enum GicOutcome {
    /// The topology has no distributor; no controller works.
    NoDistributor,
    /// The distributor's version is not supported; nothing was registered.
    UnsupportedVersion(u8),
    /// The topology has no CPU interface; nothing was registered.
    NoCpuInterface,
    /// A driver of this kind was registered.
    Registered(IrqChipKind),
}

/// The distributor and CPU-interface records of a topology.
pub struct GicTopology {
    /// The first distributor record.
    pub gicd: Option<MadtGicd>,
    /// Every CPU-interface record, in order.
    pub giccs: Vec<MadtGicc>,
    /// How many distributor records come after the first and are ignored.
    pub extra_gicds: usize,
}

/// The CPU-interface records of `s`, in order.
pub open spec fn giccs_of(s: Seq<MadtEntry>) -> Seq<MadtGicc>
    decreases s.len(),
{
    if s.len() == 0 {
        Seq::empty()
    } else {
        match s.last() {
            MadtEntry::Gicc(c) => giccs_of(s.drop_last()).push(c),
            _ => giccs_of(s.drop_last()),
        }
    }
}

/// The first distributor record of `s`.
pub open spec fn first_gicd(s: Seq<MadtEntry>) -> Option<MadtGicd>
    decreases s.len(),
{
    if s.len() == 0 {
        None
    } else {
        match first_gicd(s.drop_last()) {
            Some(d) => Some(d),
            None => match s.last() {
                MadtEntry::Gicd(d) => Some(d),
                _ => None,
            },
        }
    }
}

/// The number of distributor records of `s`.
pub open spec fn gicd_count(s: Seq<MadtEntry>) -> nat
    decreases s.len(),
{
    if s.len() == 0 {
        0
    } else {
        gicd_count(s.drop_last()) + match s.last() {
            MadtEntry::Gicd(_) => 1nat,
            _ => 0nat,
        }
    }
}

/// What bring-up comes to on the records `s`.
pub open spec fn gic_outcome(s: Seq<MadtEntry>) -> GicOutcome {
    match first_gicd(s) {
        None => GicOutcome::NoDistributor,
        Some(d) => if d.gic_version == 1 || d.gic_version == 2 {
            if giccs_of(s).len() > 0 {
                GicOutcome::Registered(
                    IrqChipKind::GicV2 {
                        dist_base: d.physical_base_address,
                        cpu_base: giccs_of(s)[0].physical_base_address,
                    },
                )
            } else {
                GicOutcome::NoCpuInterface
            }
        } else if d.gic_version == 3 {
            if giccs_of(s).len() > 0 {
                GicOutcome::Registered(IrqChipKind::GicV3 { dist_base: d.physical_base_address })
            } else {
                GicOutcome::NoCpuInterface
            }
        } else {
            GicOutcome::UnsupportedVersion(d.gic_version)
        },
    }
}

/// The driver for a version-3 distributor is the version-3 kind, for a
/// version 1 or 2 distributor the legacy kind, each on the first CPU interface
/// and the first distributor; without a distributor none is registered.
pub proof fn lemma_dispatch_by_version(s: Seq<MadtEntry>)
    ensures
        first_gicd(s) is None ==> gic_outcome(s) == GicOutcome::NoDistributor,
        first_gicd(s) is Some && giccs_of(s).len() > 0 && first_gicd(s)->0.gic_version == 3 ==> gic_outcome(s)
            == GicOutcome::Registered(IrqChipKind::GicV3 { dist_base: first_gicd(s)->0.physical_base_address }),
        first_gicd(s) is Some && giccs_of(s).len() > 0 && (first_gicd(s)->0.gic_version == 1
            || first_gicd(s)->0.gic_version == 2) ==> gic_outcome(s) == GicOutcome::Registered(
            IrqChipKind::GicV2 {
                dist_base: first_gicd(s)->0.physical_base_address,
                cpu_base: giccs_of(s)[0].physical_base_address,
            },
        ),
{
}

/// The distributor and CPU-interface records of `s`.
pub fn collect(s: &[MadtEntry]) -> (r: GicTopology)
    ensures
        r.gicd == first_gicd(s@),
        r.giccs@ == giccs_of(s@),
        r.extra_gicds == if gicd_count(s@) > 0 {
            (gicd_count(s@) - 1) as nat
        } else {
            0
        },
{
    let mut gicd: Option<MadtGicd> = None;
    let mut giccs: Vec<MadtGicc> = Vec::new();
    let mut extra_gicds: usize = 0;
    let mut i: usize = 0;
    while i < s.len()
        invariant
            i <= s@.len(),
            gicd == first_gicd(s@.take(i as int)),
            giccs@ == giccs_of(s@.take(i as int)),
            extra_gicds == if gicd_count(s@.take(i as int)) > 0 {
                (gicd_count(s@.take(i as int)) - 1) as nat
            } else {
                0
            },
            gicd_count(s@.take(i as int)) <= i,
            gicd is None <==> gicd_count(s@.take(i as int)) == 0,
        decreases s@.len() - i,
    {
        proof {
            assert(s@.take(i + 1).drop_last() =~= s@.take(i as int));
        }
        match s[i] {
            MadtEntry::Gicc(c) => giccs.push(c),
            MadtEntry::Gicd(d) => {
                if gicd.is_none() {
                    gicd = Some(d);
                } else {
                    extra_gicds = extra_gicds + 1;
                }
            },
            _ => {},
        }
        i = i + 1;
    }
    proof {
        assert(s@.take(i as int) =~= s@);
    }
    GicTopology { gicd, giccs, extra_gicds }
}

/// Adds a driver of `kind` to the list of activated drivers.
fn register_irq_chip(chips: &mut IrqChipList, kind: IrqChipKind)
    ensures
        final(chips).chips@ == old(chips).chips@.push(IrqChipItem { phandle: 0, kind }),
{
    chips.chips.push(IrqChipItem { phandle: 0, kind });
}

/// Versions 1 and 2: a driver on the distributor and on the first CPU
/// interface only.
fn initialize_gic_v1_v2(giccs: &[MadtGicc], dist_base: u64, chips: &mut IrqChipList) -> (r: GicOutcome)
    ensures
        giccs@.len() == 0 ==> r == GicOutcome::NoCpuInterface && final(chips).chips@ == old(chips).chips@,
        giccs@.len() > 0 ==> r == GicOutcome::Registered(
            IrqChipKind::GicV2 { dist_base, cpu_base: giccs@[0].physical_base_address },
        ) && final(chips).chips@ == old(chips).chips@.push(
            IrqChipItem { phandle: 0, kind: IrqChipKind::GicV2 { dist_base, cpu_base: giccs@[0].physical_base_address } },
        ),
{
    if giccs.len() == 0 {
        return GicOutcome::NoCpuInterface;
    }
    let kind = IrqChipKind::GicV2 { dist_base, cpu_base: giccs[0].physical_base_address };
    register_irq_chip(chips, kind);
    GicOutcome::Registered(kind)
}

/// Version 3: a driver on the distributor, once there is a CPU interface.
fn initialize_gic_v3(giccs: &[MadtGicc], dist_base: u64, chips: &mut IrqChipList) -> (r: GicOutcome)
    ensures
        giccs@.len() == 0 ==> r == GicOutcome::NoCpuInterface && final(chips).chips@ == old(chips).chips@,
        giccs@.len() > 0 ==> r == GicOutcome::Registered(IrqChipKind::GicV3 { dist_base })
            && final(chips).chips@ == old(chips).chips@.push(
            IrqChipItem { phandle: 0, kind: IrqChipKind::GicV3 { dist_base } },
        ),
{
    if giccs.len() == 0 {
        return GicOutcome::NoCpuInterface;
    }
    let kind = IrqChipKind::GicV3 { dist_base };
    register_irq_chip(chips, kind);
    GicOutcome::Registered(kind)
}

/// Brings up the interrupt controller that `madt` describes: registers one
/// driver, chosen by the first distributor's version, or none.
pub fn init(madt: &Madt, chips: &mut IrqChipList) -> (r: GicOutcome)
    ensures
        r == gic_outcome(madt.spec_entries()),
        r matches GicOutcome::Registered(kind) ==> final(chips).chips@ == old(chips).chips@.push(
            IrqChipItem { phandle: 0, kind },
        ),
        !(r is Registered) ==> final(chips).chips@ == old(chips).chips@,
{
    let entries = madt.entries();
    let topology = collect(entries.as_slice());
    match topology.gicd {
        None => GicOutcome::NoDistributor,
        Some(gicd) => {
            if gicd.gic_version == 1 || gicd.gic_version == 2 {
                initialize_gic_v1_v2(topology.giccs.as_slice(), gicd.physical_base_address, chips)
            } else if gicd.gic_version == 3 {
                initialize_gic_v3(topology.giccs.as_slice(), gicd.physical_base_address, chips)
            } else {
                GicOutcome::UnsupportedVersion(gicd.gic_version)
            }
        },
    }
}

} // verus!
