//! A verified CHIP-8 interpreter core.
//!
//! The crate models the machine state (memory, registers, stack, timers,
//! framebuffer), decodes 16-bit opcodes, and executes them one at a time.
//! The host is expected to drive `Chip::step` at the CPU rate, `Chip::tick`
//! at 60 Hz, feed key state and key-press events in, and rasterize the
//! framebuffer out.

pub mod chip;
pub mod laws;
pub mod opcodes;
pub mod semantics;
