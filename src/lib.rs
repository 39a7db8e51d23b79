//! Discovery and decoding of ACPI firmware tables, and the decisions of
//! interrupt-controller and secondary-processor bring-up.

pub mod acpi;
pub mod bytes;
pub mod gtdt;
pub mod hpet;
pub mod madt;
pub mod rsdp;
pub mod rsdt;
pub mod rxsdt;
pub mod sdt;
pub mod spcr;
pub mod xsdt;
