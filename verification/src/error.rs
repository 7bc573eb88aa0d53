//! Error taxonomy of the engine. The core pipeline is total and never
//! produces these itself; they exist for the input boundary and as a
//! forward-compatible escape hatch for strict reimplementations.

use vstd::prelude::*;

verus! {

/// Errors reportable by the engine's outer boundary.
#[derive(Debug)]
pub enum DecompilerError {
    /// The input could not be decoded into bytecode.
    InvalidBytecode(String),
    /// Reserved: a strict mode could reject an unassigned byte instead of
    /// promoting it to the catch-all opcode.
    InvalidOpcode { position: usize, opcode: u8 },
    /// A remote bytecode fetch failed.
    RpcError(String),
    /// Some other input could not be parsed.
    ParseError(String),
}

} // verus!
