//! Static analysis of EVM contract bytecode.
//!
//! The pipeline is strictly sequential: raw bytes are disassembled into an
//! instruction sequence, the instructions are partitioned into basic blocks
//! forming a control-flow graph, and a syntactic security pass aggregates
//! selectors, dangerous opcodes and risk indicators into a report.

pub mod analysis;
pub mod cfg;
pub mod disasm;
pub mod error;
pub mod instruction;
pub mod opcode;
pub mod report;
pub mod response;
pub mod strfmt;
