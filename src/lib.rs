//! Drivers for the two LoongArch interrupt controllers, the core-local
//! legacy controller and the platform controller, over a byte-addressed
//! register space.
pub mod cpu;
pub mod liointc;
pub mod mmio;
pub mod pch_pic;
