//! Instruction execution core of a 6502-family CPU emulator.

pub mod error;
pub mod memory;
pub mod addressing;
pub mod machine;
pub mod cpu;
pub mod op_code;
