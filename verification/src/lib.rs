//! A verified CHIP-8 virtual machine core.
//!
//! The crate models the classic CHIP-8 interpreter: 4096 bytes of memory,
//! sixteen one-byte variable registers, a 16-bit index register and program
//! counter, a return-address stack, two countdown timers, a 16-key keypad
//! snapshot, and a 64x32 monochrome display. The fetch-decode-execute engine
//! is specified against a mathematical model of the machine state, so the
//! quirky instruction semantics (overflow flags, shift conventions, sprite
//! XOR drawing with edge clipping) are stated and proved, not just coded.

pub mod execute;
pub mod isa;
pub mod laws;
pub mod machine;
pub mod register;
