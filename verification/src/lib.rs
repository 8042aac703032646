//! A verified virtual machine core for the classic 8-bit hobbyist
//! instruction set: sixteen 8-bit registers, 4KB of memory, a 16-slot call
//! stack, a 64x32 monochrome display with XOR sprite compositing, a 16-key
//! pad and two countdown timers.
//!
//! The interpreter is a pure state transformer: one `tick` performs a
//! fetch-decode-execute cycle, and every instruction's effect is stated
//! against a mathematical model of the machine state. A step that faults
//! (out-of-bounds fetch, stack misuse, unknown opcode) reports a typed
//! fault and leaves the state untouched.

pub mod draw;
pub mod emu;
pub mod exec;
pub mod instr;
pub mod laws;
