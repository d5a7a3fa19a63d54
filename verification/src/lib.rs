//! Verified core of a small x86 BIOS bootloader: disk address packets, the
//! kernel read plan, memory routines, CPU mode transitions and the byte
//! streams that the BIOS teletype and the VGA text buffer receive.

pub mod disk;
pub mod mem_routines;
pub mod kernel_load;
pub mod modes;
pub mod teletype;
pub mod bios;
pub mod print;
pub mod typestate;
pub mod decimal;
pub mod charset;
pub mod vga;
pub mod hex;
