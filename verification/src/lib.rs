//! Hardware-facing core of a small x86-64 kernel: physical frame allocation
//! over the firmware memory map, four-level address translation and mapping,
//! and the decisions of the CPU exception handlers.
//!
//! Everything here computes on plain values. Reading control registers,
//! dereferencing physical memory and loading descriptor tables are left to the
//! caller, which feeds what it read into the functions of this crate.

pub mod addr;
pub mod regions;
pub mod page_table;
pub mod translation;
pub mod interrupts;
pub mod memory;
