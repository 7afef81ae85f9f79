//! The fatal conditions that stop execution.

use vstd::prelude::*;

verus! {

/// Why execution stopped without reaching a halt instruction. Neither
/// condition is recoverable; the processor state stays as it was at the point
/// of failure.
#[derive(Debug, Clone, Copy, PartialEq, Eq, Structural)]
pub enum CpuError {
    /// The dispatch loop fetched a byte that no instruction handler is
    /// registered for.
    UnsupportedOpcode(u8),
    /// The resolver was asked for the address of an instruction that has no
    /// memory operand.
    InvalidAddressingMode,
}

} // verus!
