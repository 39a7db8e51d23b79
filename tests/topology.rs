use acpi_boot::madt::aarch64::{self, collect, GicOutcome, IrqChipItem, IrqChipKind, IrqChipList};
use acpi_boot::madt::x86::{
    init_ipi_icr, startup_ipi_icr, ApAction, ApBringUp, ApEvent, ApState, ControlBlock,
};
use acpi_boot::madt::{Madt, MadtEntry, MadtGicc, MadtGicd, MadtIntSrcOverride, MadtIoApic, MadtLocalApic};
use acpi_boot::sdt::Sdt;

fn apic_table(local_address: u32, flags: u32, records: &[Vec<u8>]) -> Sdt {
    let mut data = Vec::new();
    data.extend_from_slice(&local_address.to_le_bytes());
    data.extend_from_slice(&flags.to_le_bytes());
    for r in records {
        data.extend_from_slice(r);
    }
    let mut b = Vec::new();
    b.extend_from_slice(b"APIC");
    b.extend_from_slice(&((36 + data.len()) as u32).to_le_bytes());
    b.extend_from_slice(&[3, 0]);
    b.extend_from_slice(b"OEMXYZ");
    b.extend_from_slice(b"TABLE001");
    b.extend_from_slice(&[0; 12]);
    b.extend_from_slice(&data);
    Sdt::from_bytes(&b, 0x4000).unwrap()
}

fn local_apic(processor: u8, id: u8, flags: u32) -> Vec<u8> {
    let mut r = vec![0, 8, processor, id];
    r.extend_from_slice(&flags.to_le_bytes());
    r
}

fn io_apic(id: u8, address: u32, gsi_base: u32) -> Vec<u8> {
    let mut r = vec![1, 12, id, 0];
    r.extend_from_slice(&address.to_le_bytes());
    r.extend_from_slice(&gsi_base.to_le_bytes());
    r
}

fn int_src_override(bus: u8, irq: u8, gsi: u32, flags: u16) -> Vec<u8> {
    let mut r = vec![2, 10, bus, irq];
    r.extend_from_slice(&gsi.to_le_bytes());
    r.extend_from_slice(&flags.to_le_bytes());
    r
}

fn gicc(number: u32, uid: u32, base: u64, mpidr: u64) -> Vec<u8> {
    let mut r = vec![0x0B, 80, 0, 0];
    r.extend_from_slice(&number.to_le_bytes());
    r.extend_from_slice(&uid.to_le_bytes());
    r.extend_from_slice(&1u32.to_le_bytes());
    r.extend_from_slice(&0u32.to_le_bytes());
    r.extend_from_slice(&23u32.to_le_bytes());
    r.extend_from_slice(&0u64.to_le_bytes());
    r.extend_from_slice(&base.to_le_bytes());
    r.extend_from_slice(&0x2C02_0000u64.to_le_bytes());
    r.extend_from_slice(&0x2C04_0000u64.to_le_bytes());
    r.extend_from_slice(&25u32.to_le_bytes());
    r.extend_from_slice(&0x2D00_0000u64.to_le_bytes());
    r.extend_from_slice(&mpidr.to_le_bytes());
    r.push(1);
    r.push(0);
    r.extend_from_slice(&21u16.to_le_bytes());
    assert_eq!(r.len(), 80);
    r
}

fn gicd(id: u32, base: u64, version: u8) -> Vec<u8> {
    let mut r = vec![0x0C, 24, 0, 0];
    r.extend_from_slice(&id.to_le_bytes());
    r.extend_from_slice(&base.to_le_bytes());
    r.extend_from_slice(&0u32.to_le_bytes());
    r.push(version);
    r.extend_from_slice(&[0, 0, 0]);
    r
}

#[test]
fn records_of_every_kind_are_decoded() {
    let t = apic_table(
        0xFEE0_0000,
        1,
        &[
            local_apic(0, 0, 1),
            io_apic(2, 0xFEC0_0000, 0),
            int_src_override(0, 0, 2, 0x000F),
            gicc(0, 0, 0x2C00_0000, 0x8000_0000),
            gicd(0, 0x2C01_0000, 3),
            vec![0x7F, 4, 1, 2],
        ],
    );
    let m = Madt::new(&t).unwrap();
    assert_eq!(m.local_address, 0xFEE0_0000);
    assert_eq!(m.flags, 1);
    let e = m.entries();
    assert_eq!(e.len(), 6);
    assert_eq!(e[0], MadtEntry::LocalApic(MadtLocalApic { processor: 0, id: 0, flags: 1 }));
    assert_eq!(e[1], MadtEntry::IoApic(MadtIoApic { id: 2, address: 0xFEC0_0000, gsi_base: 0 }));
    assert_eq!(
        e[2],
        MadtEntry::IntSrcOverride(MadtIntSrcOverride { bus_source: 0, irq_source: 0, gsi_base: 2, flags: 0x000F })
    );
    assert_eq!(
        e[3],
        MadtEntry::Gicc(MadtGicc {
            cpu_interface_number: 0,
            acpi_processor_uid: 0,
            flags: 1,
            parking_protocol_version: 0,
            performance_interrupt_gsiv: 23,
            parked_address: 0,
            physical_base_address: 0x2C00_0000,
            gicv: 0x2C02_0000,
            gich: 0x2C04_0000,
            vgic_maintenance_interrupt: 25,
            gicr_base_address: 0x2D00_0000,
            mpidr: 0x8000_0000,
            processor_power_efficiency_class: 1,
            spe_overflow_interrupt: 21,
        })
    );
    assert_eq!(
        e[4],
        MadtEntry::Gicd(MadtGicd { gic_id: 0, physical_base_address: 0x2C01_0000, system_vector_base: 0, gic_version: 3 })
    );
    assert_eq!(e[5], MadtEntry::Unknown(0x7F));
}

#[test]
fn wrong_length_falls_back_to_unknown() {
    let mut long_local = local_apic(1, 1, 1);
    long_local[1] = 9;
    long_local.push(0);
    let mut short_gicd = gicd(0, 0x1000, 2);
    short_gicd[1] = 23;
    short_gicd.pop();
    let mut long_gicd = gicd(0, 0x1000, 2);
    long_gicd[1] = 28;
    long_gicd.extend_from_slice(&[0; 4]);
    let t = apic_table(0, 0, &[long_local, short_gicd, long_gicd]);
    let e = Madt::new(&t).unwrap().entries();
    assert_eq!(e.len(), 3);
    assert_eq!(e[0], MadtEntry::Unknown(0));
    assert_eq!(e[1], MadtEntry::Unknown(0x0C));
    assert!(matches!(e[2], MadtEntry::Gicd(d) if d.gic_version == 2));
}

#[test]
fn overrunning_last_record_stops_iteration() {
    let mut last = io_apic(3, 0xFEC0_1000, 24);
    last[1] = 40;
    let t = apic_table(0xFEE0_0000, 0, &[local_apic(0, 0, 1), local_apic(1, 1, 1), last]);
    let m = Madt::new(&t).unwrap();
    let e = m.entries();
    assert_eq!(e.len(), 2);
    assert_eq!(e[1], MadtEntry::LocalApic(MadtLocalApic { processor: 1, id: 1, flags: 1 }));
    let mut it = m.iter();
    assert!(it.next().is_some());
    assert!(it.next().is_some());
    assert_eq!(it.next(), None);
    assert_eq!(it.next(), None);
}

#[test]
fn zero_length_record_is_unknown_and_ends_collection() {
    let t = apic_table(0, 0, &[local_apic(0, 0, 1), vec![0x05, 0, 0, 0]]);
    let m = Madt::new(&t).unwrap();
    let e = m.entries();
    assert_eq!(e.len(), 2);
    assert_eq!(e[1], MadtEntry::Unknown(0x05));
    let mut it = m.iter();
    assert!(it.next().is_some());
    assert_eq!(it.i, 16);
    assert_eq!(it.next(), Some(MadtEntry::Unknown(0x05)));
    assert_eq!(it.i, 16);
    assert_eq!(it.next(), Some(MadtEntry::Unknown(0x05)));
    assert_eq!(it.i, 16);
}

#[test]
fn length_one_record_is_unknown_and_stepped_over() {
    // A record of declared length one, whose length byte then starts the next
    // record: an I/O router record (tag 1) of length twelve.
    let mut rec = vec![0x42, 1, 12, 3, 0];
    rec.extend_from_slice(&0xFEC0_0000u32.to_le_bytes());
    rec.extend_from_slice(&16u32.to_le_bytes());
    let t = apic_table(0, 0, &[rec]);
    let m = Madt::new(&t).unwrap();
    let mut it = m.iter();
    assert_eq!(it.next(), Some(MadtEntry::Unknown(0x42)));
    assert_eq!(it.i, 9);
    assert_eq!(it.next(), Some(MadtEntry::IoApic(MadtIoApic { id: 3, address: 0xFEC0_0000, gsi_base: 16 })));
    assert_eq!(it.i, 21);
    assert_eq!(it.next(), None);
    assert_eq!(m.entries().len(), 2);
}

#[test]
fn cursor_advances_by_declared_length_and_stays_at_end() {
    let t = apic_table(0, 0, &[io_apic(1, 0xFEC0_0000, 0), vec![0x7F, 5, 0, 0, 0]]);
    let m = Madt::new(&t).unwrap();
    let mut it = m.iter();
    assert_eq!(it.i, 8);
    assert!(it.next().is_some());
    assert_eq!(it.i, 20);
    assert_eq!(it.next(), Some(MadtEntry::Unknown(0x7F)));
    assert_eq!(it.i, 25);
    assert_eq!(it.next(), None);
    assert_eq!(it.i, 25);
}

#[test]
fn trailing_single_byte_is_not_a_record() {
    let t = apic_table(0, 0, &[local_apic(0, 0, 1), vec![0x00]]);
    assert_eq!(Madt::new(&t).unwrap().entries().len(), 1);
}

#[test]
fn topology_table_needs_signature_and_prefix() {
    let mut b = Vec::new();
    b.extend_from_slice(b"APIC");
    b.extend_from_slice(&40u32.to_le_bytes());
    b.extend_from_slice(&[0; 28]);
    b.extend_from_slice(&[1, 2, 3, 4]);
    let t = Sdt::from_bytes(&b, 0).unwrap();
    assert!(Madt::new(&t).is_none());
    let other = apic_table(0, 0, &[]);
    let mut renamed = other.clone();
    renamed.signature = *b"APIX";
    assert!(Madt::new(&renamed).is_none());
    assert!(Madt::new(&other).unwrap().entries().is_empty());
}

fn chips() -> IrqChipList {
    IrqChipList { chips: Vec::new() }
}

#[test]
fn version_three_distributor_registers_v3_driver() {
    let t = apic_table(0xFEE0_0000, 0, &[gicc(0, 0, 0x2C00_0000, 0), gicd(0, 0x2C01_0000, 3)]);
    let m = Madt::new(&t).unwrap();
    let mut list = chips();
    let r = aarch64::init(&m, &mut list);
    let kind = IrqChipKind::GicV3 { dist_base: 0x2C01_0000 };
    assert_eq!(r, GicOutcome::Registered(kind));
    assert_eq!(list.chips, vec![IrqChipItem { phandle: 0, kind }]);
}

#[test]
fn version_one_distributor_registers_legacy_driver() {
    let t = apic_table(0, 0, &[gicd(0, 0x0800_0000, 1), gicc(0, 0, 0x0801_0000, 0), gicc(1, 1, 0x0802_0000, 1)]);
    let m = Madt::new(&t).unwrap();
    let mut list = chips();
    let r = aarch64::init(&m, &mut list);
    let kind = IrqChipKind::GicV2 { dist_base: 0x0800_0000, cpu_base: 0x0801_0000 };
    assert_eq!(r, GicOutcome::Registered(kind));
    assert_eq!(list.chips.len(), 1);
    assert_eq!(list.chips[0].kind, kind);
}

#[test]
fn version_two_distributor_registers_legacy_driver() {
    let t = apic_table(0, 0, &[gicc(0, 0, 0x0801_0000, 0), gicd(0, 0x0800_0000, 2)]);
    let mut list = chips();
    let r = aarch64::init(&Madt::new(&t).unwrap(), &mut list);
    assert_eq!(r, GicOutcome::Registered(IrqChipKind::GicV2 { dist_base: 0x0800_0000, cpu_base: 0x0801_0000 }));
}

#[test]
fn no_distributor_registers_nothing() {
    let t = apic_table(0, 0, &[gicc(0, 0, 0x2C00_0000, 0)]);
    let mut list = chips();
    assert_eq!(aarch64::init(&Madt::new(&t).unwrap(), &mut list), GicOutcome::NoDistributor);
    assert!(list.chips.is_empty());
}

#[test]
fn unsupported_version_registers_nothing() {
    let t = apic_table(0, 0, &[gicc(0, 0, 0x2C00_0000, 0), gicd(0, 0x2C01_0000, 4)]);
    let mut list = chips();
    assert_eq!(aarch64::init(&Madt::new(&t).unwrap(), &mut list), GicOutcome::UnsupportedVersion(4));
    assert!(list.chips.is_empty());
}

#[test]
fn no_cpu_interface_registers_nothing() {
    let t = apic_table(0, 0, &[gicd(0, 0x2C01_0000, 3)]);
    let mut list = chips();
    assert_eq!(aarch64::init(&Madt::new(&t).unwrap(), &mut list), GicOutcome::NoCpuInterface);
    assert!(list.chips.is_empty());
}

#[test]
fn extra_distributors_are_ignored() {
    let t = apic_table(0, 0, &[gicd(0, 0x1000, 3), gicc(0, 0, 0x3000, 0), gicd(1, 0x2000, 2), gicd(2, 0x4000, 1)]);
    let e = Madt::new(&t).unwrap().entries();
    let topo = collect(&e);
    assert_eq!(topo.gicd.unwrap().physical_base_address, 0x1000);
    assert_eq!(topo.extra_gicds, 2);
    assert_eq!(topo.giccs.len(), 1);
    let mut list = chips();
    assert_eq!(
        aarch64::init(&Madt::new(&t).unwrap(), &mut list),
        GicOutcome::Registered(IrqChipKind::GicV3 { dist_base: 0x1000 })
    );
}

#[test]
fn interrupt_commands() {
    assert_eq!(init_ipi_icr(3, false), 0x4500 | (3u64 << 56));
    assert_eq!(init_ipi_icr(3, true), 0x4500 | (3u64 << 32));
    assert_eq!(startup_ipi_icr(5, false), 0x4608 | (5u64 << 56));
    assert_eq!(startup_ipi_icr(5, true), 0x4608 | (5u64 << 32));
}

#[test]
fn bring_up_starts_enabled_secondaries_in_order() {
    let t = apic_table(
        0xFEE0_0000,
        1,
        &[local_apic(0, 0, 1), local_apic(1, 2, 0), local_apic(2, 4, 1), io_apic(9, 0xFEC0_0000, 0), local_apic(3, 6, 1)],
    );
    let m = Madt::new(&t).unwrap();
    let mut ap = ApBringUp::new(&m, 0, false, 0x9000, 0xFFFF_8000_0010_0000);
    assert_eq!(ap.state, ApState::Idle);
    assert_eq!(ap.step(ApEvent::Continue), ApAction::Ignore);
    assert_eq!(ap.step(ApEvent::Begin), ApAction::MapTrampoline);
    assert_eq!(ap.step(ApEvent::Continue), ApAction::CoreDisabled { apic_id: 2 });
    assert_eq!(ap.step(ApEvent::Continue), ApAction::AllocateStack { processor: 2, apic_id: 4 });
    assert_eq!(ap.step(ApEvent::Acknowledged), ApAction::Ignore);
    let start = 0xFFFF_8000_0200_0000u64;
    assert_eq!(
        ap.step(ApEvent::StackAllocated(start)),
        ApAction::StartCore {
            apic_id: 4,
            block: ControlBlock {
                ready: 0,
                cpu_id: 4,
                page_table: 0x9000,
                stack_start: start,
                stack_end: start + 0x10000,
                code: 0xFFFF_8000_0010_0000,
            },
            init_icr: 0x4500 | (4u64 << 56),
            startup_icr: 0x4608 | (4u64 << 56),
        }
    );
    assert_eq!(ap.step(ApEvent::Acknowledged), ApAction::InvalidateTlb);
    assert_eq!(ap.step(ApEvent::Continue), ApAction::AllocateStack { processor: 3, apic_id: 6 });
    assert_eq!(ap.step(ApEvent::StackUnavailable), ApAction::SkipCore { apic_id: 6 });
    assert_eq!(ap.step(ApEvent::Continue), ApAction::UnmapTrampoline);
    assert_eq!(ap.state, ApState::TornDown);
    assert_eq!(ap.step(ApEvent::Continue), ApAction::Done);
    assert_eq!(ap.step(ApEvent::Begin), ApAction::Done);
}

#[test]
fn bring_up_skips_stack_that_would_wrap() {
    let t = apic_table(0, 0, &[local_apic(1, 1, 1)]);
    let m = Madt::new(&t).unwrap();
    let mut ap = ApBringUp::new(&m, 0, true, 0, 0);
    assert_eq!(ap.step(ApEvent::Begin), ApAction::MapTrampoline);
    assert_eq!(ap.step(ApEvent::Continue), ApAction::AllocateStack { processor: 1, apic_id: 1 });
    assert_eq!(ap.step(ApEvent::StackAllocated(u64::MAX - 0xFFFF)), ApAction::SkipCore { apic_id: 1 });
    assert_eq!(ap.step(ApEvent::Continue), ApAction::UnmapTrampoline);
}

#[test]
fn bring_up_with_only_primary_core() {
    let t = apic_table(0, 0, &[local_apic(0, 7, 1)]);
    let mut ap = ApBringUp::new(&Madt::new(&t).unwrap(), 7, false, 0, 0);
    assert_eq!(ap.step(ApEvent::Begin), ApAction::MapTrampoline);
    assert_eq!(ap.step(ApEvent::Continue), ApAction::UnmapTrampoline);
}
