//! The serial console redirection description ("SPCR").

use vstd::prelude::*;

use crate::acpi::{first_sdt, gas_at, has_named, is_named, read_gas, GenericAddressStructure, Registry};
use crate::bytes::{le_at, read_u16, read_u32};
use crate::sdt::{Sdt, SDT_SIZE};

verus! {

/// Size in bytes of the whole table that is read, header included.
pub const SPCR_SIZE: usize = 76;

/// Interface type of an ARM PL011 UART.
pub const INTERFACE_PL011: u8 = 3;

/// The "SPCR" signature.
pub open spec fn spcr_signature() -> Seq<u8> {
    seq![0x53u8, 0x50, 0x43, 0x52]
}

/// The console's description; `revision` is the table header's.
#[derive(Clone, Copy, Debug, PartialEq, Eq)]
pub struct Spcr {
    pub revision: u8,
    pub interface_type: u8,
    pub base_address: GenericAddressStructure,
    pub interrupt_type: u8,
    pub irq: u8,
    pub gsiv: u32,
    pub configured_baud_rate: u8,
    pub parity: u8,
    pub stop_bits: u8,
    pub flow_control: u8,
    pub terminal_type: u8,
    pub language: u8,
    pub pci_device_id: u16,
    pub pci_vendor_id: u16,
    pub pci_bus: u8,
    pub pci_device: u8,
    pub pci_function: u8,
    pub pci_flags: u32,
    pub pci_segment: u8,
}

/// The description that a table of header revision `rev` and data region
/// `d` holds.
pub open spec fn spcr_at(rev: u8, d: Seq<u8>) -> Spcr {
    Spcr {
        revision: rev,
        interface_type: d[0],
        base_address: gas_at(d, 4),
        interrupt_type: d[16],
        irq: d[17],
        gsiv: le_at(d, 18, 4) as u32,
        configured_baud_rate: d[22],
        parity: d[23],
        stop_bits: d[24],
        flow_control: d[25],
        terminal_type: d[26],
        language: d[27],
        pci_device_id: le_at(d, 28, 2) as u16,
        pci_vendor_id: le_at(d, 30, 2) as u16,
        pci_bus: d[32],
        pci_device: d[33],
        pci_function: d[34],
        pci_flags: le_at(d, 35, 4) as u32,
        pci_segment: d[39],
    }
}

/// What `Spcr::new` makes of `t`: the description, where `t` is signed
/// "SPCR" and long enough.
pub open spec fn spcr_of(t: Sdt) -> Option<Spcr> {
    if t.signature@ == spcr_signature() && t.length >= SPCR_SIZE && t.data@.len() >= SPCR_SIZE - SDT_SIZE {
        Some(spcr_at(t.revision, t.data@))
    } else {
        None
    }
}

/// What the console set-up comes to.
#[derive(Clone, Copy, Debug, PartialEq, Eq)]
pub enum SpcrOutcome {
    /// No usable table; the console is unavailable.
    Unavailable,
    /// The table gives no address: the console is disabled.
    Disabled,
    /// A PL011 UART whose registers lie at this physical address is to be
    /// mapped and attached as the first serial port.
    Pl011 { base: u64 },
    /// A PL011 UART whose register block is not addressed as supported.
    UnsupportedAddress(GenericAddressStructure),
    /// An interface type that is not supported at this revision.
    UnsupportedInterface { revision: u8, interface_type: u8 },
}

/// What the set-up comes to for the description `s`.
pub open spec fn spcr_outcome(s: Spcr) -> SpcrOutcome {
    if s.base_address.address == 0 {
        SpcrOutcome::Disabled
    } else if s.revision >= 2 && s.interface_type == INTERFACE_PL011 {
        pl011_outcome(s)
    } else {
        SpcrOutcome::UnsupportedInterface { revision: s.revision, interface_type: s.interface_type }
    }
}

/// A PL011's registers are supported in system memory, 32 bits wide, at bit
/// offset 0, with 32-bit accesses.
pub open spec fn pl011_outcome(s: Spcr) -> SpcrOutcome {
    let b = s.base_address;
    if b.address_space == 0 && b.bit_width == 32 && b.bit_offset == 0 && b.access_size == 3 {
        SpcrOutcome::Pl011 { base: b.address }
    } else {
        SpcrOutcome::UnsupportedAddress(b)
    }
}

impl Spcr {
    /// Reads the description out of `sdt`.
    pub fn new(sdt: &Sdt) -> (r: Option<Spcr>)
        ensures
            r == spcr_of(*sdt),
    {
        if !sdt.signature_is(&[0x53, 0x50, 0x43, 0x52]) || (sdt.length as usize) < SPCR_SIZE
            || sdt.data.len() < SPCR_SIZE - SDT_SIZE {
            return None;
        }
        let d = sdt.data.as_slice();
        Some(
            Spcr {
                revision: sdt.revision,
                interface_type: d[0],
                base_address: read_gas(d, 4),
                interrupt_type: d[16],
                irq: d[17],
                gsiv: read_u32(d, 18),
                configured_baud_rate: d[22],
                parity: d[23],
                stop_bits: d[24],
                flow_control: d[25],
                terminal_type: d[26],
                language: d[27],
                pci_device_id: read_u16(d, 28),
                pci_vendor_id: read_u16(d, 30),
                pci_bus: d[32],
                pci_device: d[33],
                pci_function: d[34],
                pci_flags: read_u32(d, 35),
                pci_segment: d[39],
            },
        )
    }

    /// Checks how the PL011's registers are addressed.
    fn init_pl011(&self) -> (r: SpcrOutcome)
        ensures
            r == pl011_outcome(*self),
    {
        let b = self.base_address;
        if b.address_space == 0 && b.bit_width == 32 && b.bit_offset == 0 && b.access_size == 3 {
            SpcrOutcome::Pl011 { base: b.address }
        } else {
            SpcrOutcome::UnsupportedAddress(b)
        }
    }

    /// Decides the console set-up for the description `s`.
    pub fn configure(s: &Spcr) -> (r: SpcrOutcome)
        ensures
            r == spcr_outcome(*s),
    {
        if s.base_address.address == 0 {
            SpcrOutcome::Disabled
        } else if s.revision >= 2 && s.interface_type == INTERFACE_PL011 {
            s.init_pl011()
        } else {
            SpcrOutcome::UnsupportedInterface { revision: s.revision, interface_type: s.interface_type }
        }
    }

    /// Decides the console set-up from the first "SPCR" table.
    pub fn init(registry: &Registry) -> (r: SpcrOutcome)
        requires
            registry.wf(),
        ensures
            !has_named(registry@, "SPCR"@) ==> r == SpcrOutcome::Unavailable,
            has_named(registry@, "SPCR"@) ==> exists|t: Sdt|
                is_named(registry@, "SPCR"@, t) && r == match spcr_of(t) {
                    Some(s) => spcr_outcome(s),
                    None => SpcrOutcome::Unavailable,
                },
    {
        let spcr = match first_sdt(registry, "SPCR") {
            Some(t) => Spcr::new(t),
            None => None,
        };
        match spcr {
            Some(s) => Spcr::configure(&s),
            None => SpcrOutcome::Unavailable,
        }
    }
}

} // verus!
