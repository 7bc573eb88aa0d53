//! The report assembler: the top-level pipeline output, combining the
//! input digest with disassembly, block and security statistics.

use vstd::prelude::*;
use vstd::string::StringExecFns;

use sha3::Digest;

use crate::analysis::{spec_analyze, AnalysisModel, SecurityAnalysis, SecurityAnalyzer};
use crate::cfg::{blocks_view, graph_blocks, spec_blocks, ControlFlowGraph};
use crate::disasm::{spec_disassemble, Disassembler};
use crate::error::DecompilerError;
use crate::strfmt::spec_hex_digit;

verus! {

/// The Keccak-256 digest of a byte string. Its only stated property is
/// functionality: identical input bytes give the identical 32-byte output.
pub uninterp spec fn keccak_of(bytes: Seq<u8>) -> Seq<u8>;

/// Relies on sha3's `Keccak256`: the digest depends on the input bytes
/// alone, and is 32 bytes long.
#[verifier::external_body]
fn keccak256(bytes: &[u8]) -> (r: Vec<u8>)
    ensures
        r@ == keccak_of(bytes@),
        r@.len() == 32,
{
    let mut hasher = sha3::Keccak256::new();
    hasher.update(bytes);
    hasher.finalize().to_vec()
}

/// The lowercase hex rendering of a byte string: two digits per byte, high
/// nibble first.
pub open spec fn spec_hex_bytes(bytes: Seq<u8>) -> Seq<char> {
    Seq::new(
        bytes.len() * 2,
        |i: int|
            spec_hex_digit(
                if i % 2 == 0 {
                    bytes[i / 2] >> 4
                } else {
                    bytes[i / 2] & 0xf
                },
            ),
    )
}

/// Relies on hex's `encode`: each input byte becomes two lowercase hex
/// digits, high nibble first.
#[verifier::external_body]
fn hex_encode(bytes: &[u8]) -> (r: String)
    ensures
        r@ == spec_hex_bytes(bytes@),
{
    hex::encode(bytes)
}

/// The digest string of the input: `0x` followed by the lowercase hex of
/// its Keccak-256 digest.
pub open spec fn spec_bytecode_hash(bytes: Seq<u8>) -> Seq<char> {
    "0x"@ + spec_hex_bytes(keccak_of(bytes))
}

/// The top-level pipeline output.
#[derive(Debug)]
pub struct DecompilerOutput {
    pub bytecode_hash: String,
    pub bytecode_size: usize,
    pub instruction_count: usize,
    pub block_count: usize,
    pub security: SecurityAnalysis,
}

/// Mathematical model of a [`DecompilerOutput`].
#[verifier::ext_equal]
pub ghost struct OutputModel {
    pub bytecode_hash: Seq<char>,
    pub bytecode_size: int,
    pub instruction_count: int,
    pub block_count: int,
    pub security: AnalysisModel,
}

impl View for DecompilerOutput {
    type V = OutputModel;

    open spec fn view(&self) -> OutputModel {
        OutputModel {
            bytecode_hash: self.bytecode_hash@,
            bytecode_size: self.bytecode_size as int,
            instruction_count: self.instruction_count as int,
            block_count: self.block_count as int,
            security: self.security@,
        }
    }
}

/// The whole report as a function of the input bytes.
pub open spec fn spec_decompile(bytes: Seq<u8>) -> OutputModel {
    OutputModel {
        bytecode_hash: spec_bytecode_hash(bytes),
        bytecode_size: bytes.len() as int,
        instruction_count: spec_disassemble(bytes).len() as int,
        block_count: spec_blocks(spec_disassemble(bytes)).len() as int,
        security: spec_analyze(spec_disassemble(bytes)),
    }
}

/// Running the pipeline twice on the same input yields identical reports:
/// every report of `bytes` equals [`spec_decompile`] of `bytes`, a
/// function of the input alone.
pub proof fn lemma_decompile_deterministic(bytes: Seq<u8>, o1: OutputModel, o2: OutputModel)
    requires
        o1 == spec_decompile(bytes),
        o2 == spec_decompile(bytes),
    ensures
        o1 == o2,
{
}

/// The composed pipeline.
pub struct Decompiler;

impl Decompiler {
    /// Run the full pipeline: digest, disassemble, partition, analyze.
    /// Total: the result is always `Ok`, and equals [`spec_decompile`] of
    /// the input.
    pub fn decompile(bytecode: &[u8]) -> (r: Result<DecompilerOutput, DecompilerError>)
        ensures
            r matches Ok(out) && out@ == spec_decompile(bytecode@),
            r matches Ok(out) && out@.bytecode_hash.len() == 66,
    {
        let digest = keccak256(bytecode);
        let mut bytecode_hash = String::from_str("0x");
        let digest_hex = hex_encode(digest.as_slice());
        bytecode_hash.append(digest_hex.as_str());
        proof {
            reveal_strlit("0x");
            assert(digest@.len() == 32);
            assert(digest_hex@.len() == 64);
            assert(bytecode_hash@.len() == 66);
        }

        let instructions = match Disassembler::disassemble(bytecode) {
            Ok(v) => v,
            Err(e) => {
                proof {
                    assert(false);
                }
                return Err(e);
            },
        };
        let instr_slice = instructions.as_slice();
        proof {
            assert(instr_slice.deep_view() =~= instructions.deep_view());
        }
        let cfg = ControlFlowGraph::build(instr_slice);
        let security = SecurityAnalyzer::analyze(instr_slice);
        let block_count = cfg.block_count();
        proof {
            assert(blocks_view(graph_blocks(cfg.graph)).len() == graph_blocks(cfg.graph).len());
            assert(block_count == spec_blocks(spec_disassemble(bytecode@)).len());
        }
        let out = DecompilerOutput {
            bytecode_hash,
            bytecode_size: bytecode.len(),
            instruction_count: instructions.len(),
            block_count,
            security,
        };
        proof {
            assert(out@ =~= spec_decompile(bytecode@));
        }
        Ok(out)
    }
}

} // verus!
