//! The errors that the emulator reports to its caller.

use vstd::prelude::*;

verus! {

/// Why loading or running a program stopped.
#[derive(Clone, Copy, Debug, PartialEq, Eq, Structural)]
pub enum EmulationError {
    /// The program image is larger than the machine's memory.
    LoadTooLarge,
    /// The byte at `pc` encodes no instruction.
    UnknownOpcode { pc: u32, byte: u8 },
    /// The program counter left the machine's memory.
    PcOutOfBounds { pc: u32 },
    /// A code cache cannot be made with room for no entry.
    InvalidCacheSize,
}

/// Why a basic block has no translation.
#[derive(Clone, Copy, Debug, PartialEq, Eq, Structural)]
pub enum CompileError {
    /// The emitted function is not well formed.
    IRVerificationFailed,
    /// The host could not resolve the emitted function to callable code.
    JitLookupFailed,
}

} // verus!
