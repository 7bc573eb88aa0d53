//! Linear disassembly of a raw byte stream into an instruction sequence.
//!
//! The walk is total: unknown bytes become instructions tagged with the
//! catch-all opcode, and a PUSH whose announced immediate runs past the end
//! of the stream is emitted with the bytes that are actually there.

use vstd::prelude::*;
use vstd::slice::slice_to_vec;

use crate::error::DecompilerError;
use crate::instruction::{InstrModel, Instruction};
use crate::opcode::{immediate_width, spec_classify, spec_immediate_width};

verus! {

/// The model of one emitted instruction.
pub open spec fn spec_instr(offset: int, b: u8, argument: Option<Seq<u8>>) -> InstrModel {
    InstrModel { offset, opcode: spec_classify(b), raw_byte: b, argument }
}

/// The instruction sequence that linear disassembly emits from cursor `i`
/// onward. One step reads the byte at the cursor and its immediate width
/// `w`; a zero-width byte is emitted alone, a full immediate is carved out
/// of the following `w` bytes, and a stream that ends inside the immediate
/// yields a final instruction carrying whatever bytes remain (none, if the
/// byte at the cursor is the last).
pub open spec fn spec_disassemble_from(bytes: Seq<u8>, i: nat) -> Seq<InstrModel>
    decreases bytes.len() - i,
{
    if i >= bytes.len() {
        Seq::empty()
    } else {
        let b = bytes[i as int];
        let w = spec_immediate_width(b) as nat;
        if w == 0 {
            seq![spec_instr(i as int, b, None)] + spec_disassemble_from(bytes, i + 1)
        } else if i + w < bytes.len() {
            seq![
                spec_instr(i as int, b, Some(bytes.subrange(i as int + 1, i as int + 1 + w))),
            ] + spec_disassemble_from(bytes, i + 1 + w)
        } else if i + 1 < bytes.len() {
            seq![spec_instr(i as int, b, Some(bytes.subrange(i as int + 1, bytes.len() as int)))]
        } else {
            seq![spec_instr(i as int, b, None)]
        }
    }
}

/// The full disassembly of a byte stream.
pub open spec fn spec_disassemble(bytes: Seq<u8>) -> Seq<InstrModel> {
    spec_disassemble_from(bytes, 0)
}

/// Offsets of an instruction sequence are strictly increasing.
pub open spec fn offsets_strictly_increasing(s: Seq<InstrModel>) -> bool {
    forall|j: int, k: int| 0 <= j < k < s.len() ==> s[j].offset < s[k].offset
}

/// An instruction whose announced immediate width the stream could not
/// fill: the operand is missing or shorter than the width.
pub open spec fn spec_is_truncated(m: InstrModel) -> bool {
    spec_immediate_width(m.raw_byte) > 0 && (match m.argument {
        Some(a) => a.len() < spec_immediate_width(m.raw_byte),
        None => true,
    })
}

/// The stream space an instruction sequence accounts for: one byte per
/// instruction plus the announced width of each immediate.
pub open spec fn spec_width_sum(s: Seq<InstrModel>) -> int
    decreases s.len(),
{
    if s.len() == 0 {
        0
    } else {
        1 + spec_immediate_width(s[0].raw_byte) + spec_width_sum(s.drop_first())
    }
}

proof fn lemma_disassemble_from_offsets(bytes: Seq<u8>, i: nat)
    ensures
        forall|k: int|
            0 <= k < spec_disassemble_from(bytes, i).len() ==> i
                <= #[trigger] spec_disassemble_from(bytes, i)[k].offset < bytes.len(),
        offsets_strictly_increasing(spec_disassemble_from(bytes, i)),
        spec_disassemble_from(bytes, i).len() == 0 ==> i >= bytes.len(),
        i <= bytes.len() ==> spec_disassemble_from(bytes, i).len() + i <= bytes.len(),
    decreases bytes.len() - i,
{
    let s = spec_disassemble_from(bytes, i);
    if i >= bytes.len() {
    } else {
        let b = bytes[i as int];
        let w = spec_immediate_width(b) as nat;
        if w == 0 || i + w < bytes.len() {
            let next = if w == 0 {
                i + 1
            } else {
                i + 1 + w
            };
            let rest = spec_disassemble_from(bytes, next);
            lemma_disassemble_from_offsets(bytes, next);
            assert(s[0].offset == i);
            assert(forall|k: int| 1 <= k < s.len() ==> s[k] == rest[k - 1]);
        } else {
            assert(s.len() == 1);
        }
    }
}

/// Disassembly offsets are strictly increasing and stay inside the input,
/// the instruction count never exceeds the byte count, and the sequence is
/// empty exactly when the input is.
pub proof fn lemma_disassemble_offsets(bytes: Seq<u8>)
    ensures
        offsets_strictly_increasing(spec_disassemble(bytes)),
        forall|k: int|
            0 <= k < spec_disassemble(bytes).len() ==> 0 <= #[trigger] spec_disassemble(
                bytes,
            )[k].offset < bytes.len(),
        spec_disassemble(bytes).len() <= bytes.len(),
        spec_disassemble(bytes).len() == 0 <==> bytes.len() == 0,
{
    lemma_disassemble_from_offsets(bytes, 0);
    if bytes.len() > 0 {
        assert(spec_disassemble(bytes).len() > 0);
    }
}

proof fn lemma_disassemble_from_width_sum(bytes: Seq<u8>, i: nat)
    ensures
        spec_disassemble_from(bytes, i).len() > 0 && !spec_is_truncated(
            spec_disassemble_from(bytes, i).last(),
        ) ==> i + spec_width_sum(spec_disassemble_from(bytes, i)) == bytes.len(),
        spec_disassemble_from(bytes, i).len() > 0 && spec_is_truncated(
            spec_disassemble_from(bytes, i).last(),
        ) ==> i + spec_width_sum(spec_disassemble_from(bytes, i)) > bytes.len(),
    decreases bytes.len() - i,
{
    let s = spec_disassemble_from(bytes, i);
    if i >= bytes.len() {
    } else {
        let b = bytes[i as int];
        let w = spec_immediate_width(b) as nat;
        if w == 0 || i + w < bytes.len() {
            let next = if w == 0 {
                i + 1
            } else {
                i + 1 + w
            };
            let rest = spec_disassemble_from(bytes, next);
            lemma_disassemble_from_width_sum(bytes, next);
            assert(s.drop_first() =~= rest);
            assert(spec_width_sum(s) == 1 + w + spec_width_sum(rest));
            if rest.len() == 0 {
                assert(next >= bytes.len());
                assert(s.len() == 1);
                assert(!spec_is_truncated(s.last()));
            } else {
                assert(s.last() == rest.last());
            }
        } else {
            assert(s.len() == 1);
            assert(s.drop_first() =~= Seq::<InstrModel>::empty());
            assert(spec_width_sum(s.drop_first()) == 0);
            assert(spec_width_sum(s) == 1 + w);
            assert(spec_is_truncated(s.last()));
        }
    }
}

/// Disassembly accounts for the whole input: the sum of `1 + width` over
/// the emitted instructions equals the byte count, unless the final
/// instruction is truncated, in which case the sum overshoots the byte
/// count and the final operand is strictly shorter than its announced
/// width.
pub proof fn lemma_disassemble_width_sum(bytes: Seq<u8>)
    ensures
        spec_disassemble(bytes).len() > 0 && !spec_is_truncated(spec_disassemble(bytes).last())
            ==> spec_width_sum(spec_disassemble(bytes)) == bytes.len(),
        spec_disassemble(bytes).len() > 0 && spec_is_truncated(spec_disassemble(bytes).last())
            ==> spec_width_sum(spec_disassemble(bytes)) >= bytes.len() && (spec_disassemble(
            bytes,
        ).last().argument matches Some(a) ==> a.len() < spec_immediate_width(
            spec_disassemble(bytes).last().raw_byte,
        )),
{
    lemma_disassemble_from_width_sum(bytes, 0);
    let s = spec_disassemble(bytes);
    if s.len() > 0 && spec_is_truncated(s.last()) {
        if s.last().argument is Some {
            assert(s.last().argument->0.len() < spec_immediate_width(s.last().raw_byte));
        }
    }
}

/// The linear disassembler.
pub struct Disassembler;

impl Disassembler {
    /// Parse bytecode into instructions. Total: every byte stream yields an
    /// instruction sequence, and the result is always `Ok`.
    pub fn disassemble(bytecode: &[u8]) -> (r: Result<Vec<Instruction>, DecompilerError>)
        ensures
            r matches Ok(instrs) && instrs.deep_view() == spec_disassemble(bytecode@),
    {
        let mut instructions: Vec<Instruction> = Vec::new();
        let mut i: usize = 0;
        let n = bytecode.len();
        proof {
            assert(instructions.deep_view() =~= Seq::<InstrModel>::empty());
        }
        while i < n
            invariant
                n == bytecode@.len(),
                i <= n,
                instructions.deep_view() + spec_disassemble_from(bytecode@, i as nat)
                    =~= spec_disassemble(bytecode@),
            decreases n - i,
        {
            let ghost pre = instructions.deep_view();
            let ghost icur = i as nat;
            let raw_byte = bytecode[i];
            let w = immediate_width(raw_byte);
            if w == 0 {
                instructions.push(Instruction::new(i, raw_byte, None));
                proof {
                    assert(instructions.deep_view() =~= pre + seq![
                        spec_instr(icur as int, raw_byte, None),
                    ]);
                }
                i = i + 1;
            } else if w < n - i {
                let arg: Vec<u8> = slice_to_vec(&bytecode[i + 1..i + 1 + w]);
                instructions.push(Instruction::new(i, raw_byte, Some(arg)));
                proof {
                    assert(arg.deep_view() =~= bytecode@.subrange(
                        icur as int + 1,
                        icur as int + 1 + w as int,
                    ));
                    assert(instructions.deep_view() =~= pre + seq![
                        spec_instr(
                            icur as int,
                            raw_byte,
                            Some(bytecode@.subrange(icur as int + 1, icur as int + 1 + w as int)),
                        ),
                    ]);
                }
                i = i + 1 + w;
            } else if 1 < n - i {
                let arg: Vec<u8> = slice_to_vec(&bytecode[i + 1..n]);
                instructions.push(Instruction::new(i, raw_byte, Some(arg)));
                proof {
                    assert(arg.deep_view() =~= bytecode@.subrange(icur as int + 1, n as int));
                    assert(instructions.deep_view() =~= pre + seq![
                        spec_instr(
                            icur as int,
                            raw_byte,
                            Some(bytecode@.subrange(icur as int + 1, n as int)),
                        ),
                    ]);
                    assert(spec_disassemble_from(bytecode@, icur) =~= seq![
                        spec_instr(
                            icur as int,
                            raw_byte,
                            Some(bytecode@.subrange(icur as int + 1, n as int)),
                        ),
                    ]);
                }
                i = n;
            } else {
                instructions.push(Instruction::new(i, raw_byte, None));
                proof {
                    assert(instructions.deep_view() =~= pre + seq![
                        spec_instr(icur as int, raw_byte, None),
                    ]);
                    assert(spec_disassemble_from(bytecode@, icur) =~= seq![
                        spec_instr(icur as int, raw_byte, None),
                    ]);
                }
                i = n;
            }
        }
        Ok(instructions)
    }
}

} // verus!
