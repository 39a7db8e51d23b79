//! The generic timer description ("GTDT").

use vstd::prelude::*;

use crate::acpi::{first_sdt, has_named, is_named, Registry};
use crate::bytes::{le_at, read_u32, read_u64};
use crate::sdt::{Sdt, SDT_SIZE};

verus! {

/// Size in bytes of the whole table that is read, header included.
pub const GTDT_SIZE: usize = 96;

/// The "GTDT" signature.
pub open spec fn gtdt_signature() -> Seq<u8> {
    seq![0x47u8, 0x54, 0x44, 0x54]
}

/// The timers' description: their interrupt lines and flags.
#[derive(Clone, Copy, Debug, PartialEq, Eq)]
pub struct Gtdt {
    pub cnt_control_base: u64,
    pub secure_el1_timer_gsiv: u32,
    pub secure_el1_timer_flags: u32,
    pub non_secure_el1_timer_gsiv: u32,
    pub non_secure_el1_timer_flags: u32,
    pub virtual_el1_timer_gsiv: u32,
    pub virtual_el1_timer_flags: u32,
    pub el2_timer_gsiv: u32,
    pub el2_timer_flags: u32,
    pub cnt_read_base: u64,
    pub platform_timer_count: u32,
    pub platform_timer_offset: u32,
}

/// The description that the data region `d` holds.
pub open spec fn gtdt_at(d: Seq<u8>) -> Gtdt {
    Gtdt {
        cnt_control_base: le_at(d, 0, 8) as u64,
        secure_el1_timer_gsiv: le_at(d, 12, 4) as u32,
        secure_el1_timer_flags: le_at(d, 16, 4) as u32,
        non_secure_el1_timer_gsiv: le_at(d, 20, 4) as u32,
        non_secure_el1_timer_flags: le_at(d, 24, 4) as u32,
        virtual_el1_timer_gsiv: le_at(d, 28, 4) as u32,
        virtual_el1_timer_flags: le_at(d, 32, 4) as u32,
        el2_timer_gsiv: le_at(d, 36, 4) as u32,
        el2_timer_flags: le_at(d, 40, 4) as u32,
        cnt_read_base: le_at(d, 44, 8) as u64,
        platform_timer_count: le_at(d, 52, 4) as u32,
        platform_timer_offset: le_at(d, 56, 4) as u32,
    }
}

/// What `Gtdt::new` makes of `t`: the description, where `t` is signed
/// "GTDT" and long enough.
pub open spec fn gtdt_of(t: Sdt) -> Option<Gtdt> {
    if t.signature@ == gtdt_signature() && t.length >= GTDT_SIZE && t.data@.len() >= GTDT_SIZE - SDT_SIZE {
        Some(gtdt_at(t.data@))
    } else {
        None
    }
}

impl Gtdt {
    /// Reads the description out of `sdt`.
    pub fn new(sdt: &Sdt) -> (r: Option<Gtdt>)
        ensures
            r == gtdt_of(*sdt),
    {
        if !sdt.signature_is(&[0x47, 0x54, 0x44, 0x54]) || (sdt.length as usize) < GTDT_SIZE
            || sdt.data.len() < GTDT_SIZE - SDT_SIZE {
            return None;
        }
        let d = sdt.data.as_slice();
        Some(
            Gtdt {
                cnt_control_base: read_u64(d, 0),
                secure_el1_timer_gsiv: read_u32(d, 12),
                secure_el1_timer_flags: read_u32(d, 16),
                non_secure_el1_timer_gsiv: read_u32(d, 20),
                non_secure_el1_timer_flags: read_u32(d, 24),
                virtual_el1_timer_gsiv: read_u32(d, 28),
                virtual_el1_timer_flags: read_u32(d, 32),
                el2_timer_gsiv: read_u32(d, 36),
                el2_timer_flags: read_u32(d, 40),
                cnt_read_base: read_u64(d, 44),
                platform_timer_count: read_u32(d, 52),
                platform_timer_offset: read_u32(d, 56),
            },
        )
    }

    /// Looks the timers up: the description from the first "GTDT" table, when
    /// that table yields one. The caller registers the non-secure EL1 timer's
    /// interrupt line and enables it.
    pub fn init(registry: &Registry) -> (r: Option<Gtdt>)
        requires
            registry.wf(),
        ensures
            !has_named(registry@, "GTDT"@) ==> r is None,
            has_named(registry@, "GTDT"@) ==> exists|t: Sdt| is_named(registry@, "GTDT"@, t) && r == gtdt_of(t),
    {
        match first_sdt(registry, "GTDT") {
            Some(t) => Gtdt::new(t),
            None => None,
        }
    }
}

} // verus!
