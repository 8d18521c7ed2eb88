//! Boot-time PE32+ image loader for a confidential-computing guest firmware.
//!
//! The library validates a PE32+ header chain, parses the section table,
//! copies each section into a caller-owned destination buffer, and applies
//! base relocations by a caller-supplied load delta.  Every bound is checked
//! before the corresponding access, for arbitrary (untrusted) input bytes.
//! Alongside the loader stand the small verified helpers of the surrounding
//! firmware: the ACPI MADT builder, the wake-up mailbox layout, the page
//! acceptance plan, and the benchmark bookkeeping.

pub mod acpi;
pub mod bench;
pub mod bytes;
pub mod layout;
pub mod loader;
pub mod mp;
pub mod pe;
pub mod reloc;

