//! Core of a small virtual CPU in the CHIP-8 tradition: 16-bit instruction
//! words fetched from a flat 4096-byte memory, sixteen 8-bit registers (the
//! last one reserved as the arithmetic flag), and a bounded stack of return
//! addresses for subroutine calls.
//!
//! The executable machine lives in [`cpu`]; its behaviour is specified
//! against the mathematical model in [`state`], and general facts about the
//! instruction semantics are proved in [`lemmas`].

pub mod cpu;
pub mod fault;
pub mod lemmas;
pub mod state;
