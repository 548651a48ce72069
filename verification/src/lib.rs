//! A PC emulator core: an x86 processor from the 8086 up to the 386 with
//! protection and paging, the memory and port maps around it, a small BIOS and
//! the boot protocols that start an operating system on it.

pub mod bios;
pub mod bits;
pub mod boot;
pub mod bus;
pub mod cpu;
pub mod disk;
pub mod machine;
pub mod text;
pub mod walk;
