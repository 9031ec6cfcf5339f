//! Core of a small bare-metal kernel: a memory-mapped text display driver,
//! the vector table for CPU exceptions and device interrupts, the chained
//! interrupt-controller protocol, and a keyboard scancode decoder.
//!
//! Hardware access (port I/O, the memory-mapped framebuffer, loading the
//! dispatch table) happens outside this crate; here every transition is a
//! function on plain values with a proved contract.

pub mod interrupts;
pub mod keyboard;
pub mod vga_buffer;
