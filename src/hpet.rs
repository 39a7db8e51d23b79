//! The high-precision event timer description ("HPET").

use vstd::prelude::*;

use crate::acpi::{first_sdt, gas_at, has_named, is_named, read_gas, GenericAddressStructure, Registry};
use crate::bytes::{le_at, read_u16};
use crate::sdt::{Sdt, SDT_SIZE};

verus! {

/// Size in bytes of the whole table that is read, header included.
pub const HPET_SIZE: usize = 56;

/// The "HPET" signature.
pub open spec fn hpet_signature() -> Seq<u8> {
    seq![0x48u8, 0x50, 0x45, 0x54]
}

/// The timer's description; `base_address` is where its registers lie.
#[derive(Clone, Copy, Debug, PartialEq, Eq)]
pub struct Hpet {
    pub hw_rev_id: u8,
    pub comparator_descriptor: u8,
    pub pci_vendor_id: u16,
    pub base_address: GenericAddressStructure,
    pub hpet_number: u8,
    pub min_periodic_clk_tick: u16,
    pub oem_attribute: u8,
}

/// The description that the data region `d` holds.
pub open spec fn hpet_at(d: Seq<u8>) -> Hpet {
    Hpet {
        hw_rev_id: d[0],
        comparator_descriptor: d[1],
        pci_vendor_id: le_at(d, 2, 2) as u16,
        base_address: gas_at(d, 4),
        hpet_number: d[16],
        min_periodic_clk_tick: le_at(d, 17, 2) as u16,
        oem_attribute: d[19],
    }
}

/// What `Hpet::new` makes of `t`: the description, where `t` is signed
/// "HPET", is long enough, and places the registers in system memory.
pub open spec fn hpet_of(t: Sdt) -> Option<Hpet> {
    if t.signature@ == hpet_signature() && t.length >= HPET_SIZE && t.data@.len() >= HPET_SIZE - SDT_SIZE
        && hpet_at(t.data@).base_address.address_space == 0 {
        Some(hpet_at(t.data@))
    } else {
        None
    }
}

impl Hpet {
    /// Reads the description out of `sdt`.
    pub fn new(sdt: &Sdt) -> (r: Option<Hpet>)
        ensures
            r == hpet_of(*sdt),
    {
        if !sdt.signature_is(&[0x48, 0x50, 0x45, 0x54]) || (sdt.length as usize) < HPET_SIZE
            || sdt.data.len() < HPET_SIZE - SDT_SIZE {
            return None;
        }
        let d = sdt.data.as_slice();
        let h = Hpet {
            hw_rev_id: d[0],
            comparator_descriptor: d[1],
            pci_vendor_id: read_u16(d, 2),
            base_address: read_gas(d, 4),
            hpet_number: d[16],
            min_periodic_clk_tick: read_u16(d, 17),
            oem_attribute: d[19],
        };
        if h.base_address.address_space == 0 {
            Some(h)
        } else {
            None
        }
    }

    /// Looks the timer up: the description from the first "HPET" table, when
    /// that table yields one. The caller maps its registers before use.
    pub fn init(registry: &Registry) -> (r: Option<Hpet>)
        requires
            registry.wf(),
        ensures
            !has_named(registry@, "HPET"@) ==> r is None,
            has_named(registry@, "HPET"@) ==> exists|t: Sdt| is_named(registry@, "HPET"@, t) && r == hpet_of(t),
    {
        match first_sdt(registry, "HPET") {
            Some(t) => Hpet::new(t),
            None => None,
        }
    }
}

} // verus!
