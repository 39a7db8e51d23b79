use acpi_boot::rsdp::{validate_checksum, RSDP};

/// A 36-byte descriptor of revision `rev` with a valid checksum.
fn descriptor(rev: u8, rsdt: u32, xsdt: u64) -> Vec<u8> {
    let mut b = Vec::new();
    b.extend_from_slice(b"RSD PTR ");
    b.push(0);
    b.extend_from_slice(b"OEMID1");
    b.push(rev);
    b.extend_from_slice(&rsdt.to_le_bytes());
    b.extend_from_slice(&36u32.to_le_bytes());
    b.extend_from_slice(&xsdt.to_le_bytes());
    b.push(0);
    b.extend_from_slice(&[0, 0, 0]);
    let sum: u32 = b[..20].iter().map(|&x| x as u32).sum();
    b[8] = ((256 - sum % 256) % 256) as u8;
    b
}

fn repair(b: &mut [u8]) {
    b[8] = 0;
    let sum: u32 = b[..20].iter().map(|&x| x as u32).sum();
    b[8] = ((256 - sum % 256) % 256) as u8;
}

#[test]
fn checksum_flip_and_repair_round_trip() {
    let good = descriptor(0, 0x1000, 0);
    assert!(validate_checksum(&good));
    for i in 0..20 {
        let mut bad = good.clone();
        bad[i] = bad[i].wrapping_add(1);
        assert!(!validate_checksum(&bad), "byte {} changed", i);
        repair(&mut bad);
        assert!(validate_checksum(&bad), "byte {} repaired", i);
    }
}

#[test]
fn checksum_ignores_bytes_after_twenty() {
    let mut b = descriptor(2, 0x1000, 0x2000);
    b[20] = b[20].wrapping_add(7);
    b[30] = 0xAA;
    assert!(validate_checksum(&b));
}

#[test]
fn supplied_descriptor_is_decoded() {
    let b = descriptor(0, 0x7FE1_4000, 0);
    let p = RSDP::get_already_supplied_rsdp(&b).unwrap();
    assert_eq!(&p.signature, b"RSD PTR ");
    assert_eq!(&p.oem_id, b"OEMID1");
    assert_eq!(p.revision, 0);
    assert_eq!(p.rsdt_address, 0x7FE1_4000);
    assert_eq!(p.length, 36);
    assert_eq!(p.sdt_address(), 0x7FE1_4000);
}

#[test]
fn supplied_descriptor_with_bad_checksum_is_refused_without_scanning() {
    let mut b = descriptor(0, 0x1000, 0);
    b[9] ^= 0xFF;
    let mut window = vec![0u8; 64];
    window[..36].copy_from_slice(&descriptor(0, 0x2000, 0));
    assert!(RSDP::get_rsdp(Some(&b), &window).is_none());
}

#[test]
fn short_supplied_descriptor_is_refused() {
    let b = descriptor(0, 0x1000, 0);
    assert!(RSDP::get_already_supplied_rsdp(&b[..35]).is_none());
}

#[test]
fn revision_two_selects_wide_address() {
    let p = RSDP::get_already_supplied_rsdp(&descriptor(2, 0x1000, 0x1_2345_6000)).unwrap();
    assert_eq!(p.sdt_address(), 0x1_2345_6000);
    let q = RSDP::get_already_supplied_rsdp(&descriptor(1, 0x1000, 0x1_2345_6000)).unwrap();
    assert_eq!(q.sdt_address(), 0x1000);
}

#[test]
fn search_finds_first_aligned_valid_descriptor() {
    let mut window = vec![0u8; 0x200];
    // A valid descriptor at an unaligned position is not looked at.
    window[0x18..0x18 + 36].copy_from_slice(&descriptor(0, 0x1111, 0));
    // The signature with a bad checksum is skipped.
    let mut bad = descriptor(0, 0x2222, 0);
    bad[8] = bad[8].wrapping_add(1);
    window[0x40..0x40 + 36].copy_from_slice(&bad);
    window[0x80..0x80 + 36].copy_from_slice(&descriptor(0, 0x3333, 0));
    window[0x100..0x100 + 36].copy_from_slice(&descriptor(0, 0x4444, 0));
    let p = RSDP::search(&window).unwrap();
    assert_eq!(p.rsdt_address, 0x3333);
    let q = RSDP::get_rsdp(None, &window).unwrap();
    assert_eq!(q.rsdt_address, 0x3333);
}

#[test]
fn search_in_empty_window_finds_nothing() {
    let window = vec![0u8; 0x2_0000];
    assert!(RSDP::search(&window).is_none());
    assert!(RSDP::get_rsdp(None, &window).is_none());
    assert!(RSDP::search(&[]).is_none());
}

#[test]
fn search_skips_descriptor_cut_by_window_end() {
    let mut window = vec![0u8; 0x40];
    window[0x10..0x10 + 36].copy_from_slice(&descriptor(0, 0x5555, 0));
    assert!(RSDP::search(&window[..0x30]).is_none());
    assert_eq!(RSDP::search(&window).unwrap().rsdt_address, 0x5555);
}
