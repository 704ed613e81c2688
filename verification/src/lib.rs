//! Rood: the verified core of a small x86-64 hobby kernel.
//!
//! The library holds the kernel's logic as plain values: the on-disk
//! filesystem and its sector format, the PS/2 line editor, the shell's
//! command parsing and output, the text console's cursor, and the
//! decisions of the ATA and interrupt-controller drivers. Everything
//! that touches hardware (port I/O, video memory, the interrupt table)
//! lives outside it and hands it plain values.
pub mod bytes;
pub mod drivers;
pub mod framebuffer;
pub mod fs;
pub mod interrupts;
pub mod keyboard;
pub mod shell;
