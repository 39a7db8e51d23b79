use acpi_boot::acpi::{find_sdt, first_sdt, get_sdt_signature, linear_map_span, Registry};
use acpi_boot::rxsdt::RxsdtEnum;
use acpi_boot::sdt::Sdt;

/// The bytes of a table with the given signature, OEM ids and data region.
fn table(sig: &[u8; 4], oem: &[u8; 6], oem_table: &[u8; 8], rev: u8, data: &[u8]) -> Vec<u8> {
    let mut b = Vec::new();
    b.extend_from_slice(sig);
    b.extend_from_slice(&((36 + data.len()) as u32).to_le_bytes());
    b.push(rev);
    b.push(0);
    b.extend_from_slice(oem);
    b.extend_from_slice(oem_table);
    b.extend_from_slice(&1u32.to_le_bytes());
    b.extend_from_slice(&2u32.to_le_bytes());
    b.extend_from_slice(&3u32.to_le_bytes());
    b.extend_from_slice(data);
    b
}

#[test]
fn header_is_decoded() {
    let b = table(b"FACP", b"OEMXYZ", b"TABLE001", 5, &[9, 8, 7]);
    let t = Sdt::from_bytes(&b, 0x1000).unwrap();
    assert_eq!(&t.signature, b"FACP");
    assert_eq!(t.length, 39);
    assert_eq!(t.revision, 5);
    assert_eq!(&t.oem_id, b"OEMXYZ");
    assert_eq!(&t.oem_table_id, b"TABLE001");
    assert_eq!(t.oem_revision, 1);
    assert_eq!(t.creator_id, 2);
    assert_eq!(t.creator_revision, 3);
    assert_eq!(t.data, vec![9, 8, 7]);
    assert_eq!(t.data_len(), 3);
    assert_eq!(t.data_address(), 0x1000 + 36);
    assert_eq!(Sdt::declared_length(&b), Some(39));
}

#[test]
fn malformed_headers_are_refused() {
    let b = table(b"FACP", b"OEMXYZ", b"TABLE001", 5, &[9, 8, 7]);
    // Shorter than a header.
    assert!(Sdt::from_bytes(&b[..35], 0).is_none());
    assert_eq!(Sdt::declared_length(&b[..35]), None);
    // Declared length beyond the bytes.
    assert!(Sdt::from_bytes(&b[..38], 0).is_none());
    // Declared length below the header size.
    let mut short = b.clone();
    short[4..8].copy_from_slice(&20u32.to_le_bytes());
    assert!(Sdt::from_bytes(&short, 0).is_none());
    // Bytes after the declared length are not part of the table.
    let mut long = b.clone();
    long.extend_from_slice(&[1, 2, 3]);
    assert_eq!(Sdt::from_bytes(&long, 0).unwrap().data, vec![9, 8, 7]);
}

#[test]
fn data_len_saturates() {
    let b = table(b"FACP", b"OEMXYZ", b"TABLE001", 5, &[]);
    let mut t = Sdt::from_bytes(&b, 0).unwrap();
    assert_eq!(t.data_len(), 0);
    t.length = 10;
    assert_eq!(t.data_len(), 0);
}

#[test]
fn narrow_and_wide_root_lists_agree() {
    let addrs: Vec<usize> = vec![0x1000, 0xFFFF_F000, 0, 0x7FE1_4000];
    let mut narrow = Vec::new();
    let mut wide = Vec::new();
    for &a in &addrs {
        narrow.extend_from_slice(&(a as u32).to_le_bytes());
        wide.extend_from_slice(&(a as u64).to_le_bytes());
    }
    let r = Sdt::from_bytes(&table(b"RSDT", b"OEMXYZ", b"TABLE001", 1, &narrow), 0).unwrap();
    let x = Sdt::from_bytes(&table(b"XSDT", b"OEMXYZ", b"TABLE001", 1, &wide), 0).unwrap();
    let ra = RxsdtEnum::new(&r).unwrap().iter();
    let xa = RxsdtEnum::new(&x).unwrap().iter();
    assert_eq!(ra, addrs);
    assert_eq!(xa, addrs);
    assert!(matches!(RxsdtEnum::new(&r), Some(RxsdtEnum::Rsdt(_))));
    assert!(matches!(RxsdtEnum::new(&x), Some(RxsdtEnum::Xsdt(_))));
}

#[test]
fn root_list_ignores_partial_entry_and_restarts() {
    let data = [0x00, 0x10, 0x00, 0x00, 0x00, 0x20, 0x00, 0x00, 0xAB, 0xCD];
    let t = Sdt::from_bytes(&table(b"RSDT", b"OEMXYZ", b"TABLE001", 1, &data), 0).unwrap();
    let rx = RxsdtEnum::new(&t).unwrap();
    assert_eq!(rx.iter(), vec![0x1000, 0x2000]);
    assert_eq!(rx.iter(), vec![0x1000, 0x2000]);
    let rsdt = acpi_boot::rsdt::Rsdt::new(&t).unwrap();
    let mut it = rsdt.iter();
    assert_eq!(it.next(), Some(0x1000));
    assert_eq!(it.next(), Some(0x2000));
    assert_eq!(it.next(), None);
    assert_eq!(it.next(), None);
}

#[test]
fn wide_entries_above_four_gib() {
    let data = 0x1_0000_2000u64.to_le_bytes();
    let t = Sdt::from_bytes(&table(b"XSDT", b"OEMXYZ", b"TABLE001", 1, &data), 0).unwrap();
    assert_eq!(RxsdtEnum::new(&t).unwrap().iter(), vec![0x1_0000_2000usize]);
}

#[test]
fn unknown_root_signature_is_refused() {
    let t = Sdt::from_bytes(&table(b"FACP", b"OEMXYZ", b"TABLE001", 1, &[]), 0).unwrap();
    assert!(RxsdtEnum::new(&t).is_none());
    assert!(acpi_boot::xsdt::Xsdt::new(&t).is_none());
}

#[test]
fn same_signature_different_oem_both_found() {
    let a = Sdt::from_bytes(&table(b"SSDT", b"OEMAAA", b"TABLE001", 1, &[1]), 0x1000).unwrap();
    let b = Sdt::from_bytes(&table(b"SSDT", b"OEMBBB", b"TABLE001", 1, &[2]), 0x2000).unwrap();
    let c = Sdt::from_bytes(&table(b"FACP", b"OEMAAA", b"TABLE001", 1, &[3]), 0x3000).unwrap();
    let reg = Registry::build(vec![a.clone(), b.clone(), c.clone()]);
    let mut found: Vec<usize> = find_sdt(&reg, "SSDT").iter().map(|t| t.address).collect();
    found.sort();
    assert_eq!(found, vec![0x1000, 0x2000]);
    let f = find_sdt(&reg, "FACP");
    assert_eq!(f.len(), 1);
    assert_eq!(*f[0], c);
    assert!(find_sdt(&reg, "HPET").is_empty());
    assert!(first_sdt(&reg, "HPET").is_none());
    assert_eq!(first_sdt(&reg, "FACP").unwrap().address, 0x3000);
}

#[test]
fn lookup_in_unbuilt_registry_is_empty() {
    let reg = Registry::new();
    assert!(find_sdt(&reg, "APIC").is_empty());
}

#[test]
fn same_key_keeps_the_later_table() {
    let a = Sdt::from_bytes(&table(b"SSDT", b"OEMAAA", b"TABLE001", 1, &[1]), 0x1000).unwrap();
    let b = Sdt::from_bytes(&table(b"SSDT", b"OEMAAA", b"TABLE001", 1, &[2]), 0x2000).unwrap();
    let mut reg = Registry::new();
    reg.insert(a);
    reg.insert(b);
    let f = find_sdt(&reg, "SSDT");
    assert_eq!(f.len(), 1);
    assert_eq!(f[0].address, 0x2000);
}

#[test]
fn signature_key_is_text() {
    let t = Sdt::from_bytes(&table(b"APIC", b"OEMAAA", b"TABLE001", 1, &[]), 0).unwrap();
    let k = get_sdt_signature(&t);
    assert_eq!(k.0, "APIC");
    assert_eq!(&k.1, b"OEMAAA");
    assert_eq!(&k.2, b"TABLE001");
    let odd = Sdt::from_bytes(&table(&[0x41, 0xFF, 0x43, 0x44], b"OEMAAA", b"TABLE001", 1, &[]), 0).unwrap();
    assert_eq!(get_sdt_signature(&odd).0, "A\u{FFFD}CD");
}

#[test]
fn page_span_rounds_to_pages() {
    assert_eq!(linear_map_span(0x1000, 36), Some((0x1000, 1)));
    assert_eq!(linear_map_span(0x1FF0, 36), Some((0x1000, 2)));
    assert_eq!(linear_map_span(0x1234, 0), Some((0x1000, 1)));
    assert_eq!(linear_map_span(0x1000, 0), Some((0x1000, 0)));
    assert_eq!(linear_map_span(0x1000, 0x2001), Some((0x1000, 3)));
    assert_eq!(linear_map_span(0x1000, usize::MAX), None);
}
