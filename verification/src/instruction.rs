//! A single disassembled instruction: its byte offset, opcode identity, the
//! raw byte it came from, and an optional immediate operand.

use vstd::prelude::*;

use crate::opcode::{spec_classify, Opcode};
use crate::strfmt::{hex8, spec_hex8};
use vstd::string::StringExecFns;

verus! {

/// One instruction of the disassembled stream.
///
/// The raw byte is preserved distinctly from the classified opcode so that
/// the collapsed PUSH/DUP/SWAP tags lose no information; immediate parsing
/// and selector detection consult the raw byte. The immediate `argument` is
/// stored exactly as read, without zero padding, so a truncated PUSH keeps
/// an operand shorter than its announced width.
#[derive(Debug)]
pub struct Instruction {
    pub offset: usize,
    pub opcode: Opcode,
    pub raw_byte: u8,
    pub argument: Option<Vec<u8>>,
}

/// Mathematical model of an [`Instruction`].
#[verifier::ext_equal]
pub ghost struct InstrModel {
    pub offset: int,
    pub opcode: Opcode,
    pub raw_byte: u8,
    pub argument: Option<Seq<u8>>,
}

impl View for Instruction {
    type V = InstrModel;

    open spec fn view(&self) -> InstrModel {
        InstrModel {
            offset: self.offset as int,
            opcode: self.opcode,
            raw_byte: self.raw_byte,
            argument: self.argument.deep_view(),
        }
    }
}

impl DeepView for Instruction {
    type V = InstrModel;

    open spec fn deep_view(&self) -> InstrModel {
        self.view()
    }
}

impl Clone for Instruction {
    /// A clone has the same model.
    fn clone(&self) -> (res: Instruction)
        ensures
            res@ == self@,
    {
        let argument: Option<Vec<u8>> = match &self.argument {
            Some(v) => {
                let w = v.clone();
                proof {
                    assert(w@ =~= v@);
                }
                Some(w)
            },
            None => None,
        };
        Instruction { offset: self.offset, opcode: self.opcode, raw_byte: self.raw_byte, argument }
    }
}

/// The big-endian unsigned value of a byte string.
pub open spec fn spec_be_value(bytes: Seq<u8>) -> nat
    decreases bytes.len(),
{
    if bytes.len() == 0 {
        0
    } else {
        spec_be_value(bytes.drop_last()) * 256 + bytes.last() as nat
    }
}

/// 256 raised to a power; used only to bound [`spec_be_value`].
pub open spec fn spec_pow256(n: nat) -> nat
    decreases n,
{
    if n == 0 {
        1
    } else {
        256 * spec_pow256((n - 1) as nat)
    }
}

/// A byte string's big-endian value is below 256 to its length.
pub proof fn lemma_be_value_bound(bytes: Seq<u8>)
    ensures
        spec_be_value(bytes) < spec_pow256(bytes.len()),
    decreases bytes.len(),
{
    if bytes.len() > 0 {
        lemma_be_value_bound(bytes.drop_last());
    }
}

/// The interpretation of an instruction's immediate as a 32-bit selector
/// value: present when an operand of at most four bytes is present, absent
/// otherwise. An operand shorter than four bytes reads as if left-padded
/// with zeros.
pub open spec fn spec_arg_as_u32(m: InstrModel) -> Option<u32> {
    match m.argument {
        Some(bytes) => if bytes.len() <= 4 {
            Some(spec_be_value(bytes) as u32)
        } else {
            None
        },
        None => None,
    }
}

/// The selector rendering of a 32-bit value: `0x` followed by exactly eight
/// lowercase hex digits.
pub open spec fn spec_selector_string(v: u32) -> Seq<char> {
    "0x"@ + spec_hex8(v)
}

/// The selector rendering of an instruction's immediate, when
/// [`spec_arg_as_u32`] yields a value.
pub open spec fn spec_arg_as_selector(m: InstrModel) -> Option<Seq<char>> {
    match spec_arg_as_u32(m) {
        Some(v) => Some(spec_selector_string(v)),
        None => None,
    }
}

/// Render a 32-bit value as a selector string.
pub fn selector_string(v: u32) -> (r: String)
    ensures
        r@ == spec_selector_string(v),
{
    let mut s = String::from_str("0x");
    let digits = hex8(v);
    s.append(digits.as_str());
    s
}

impl Instruction {
    /// Build an instruction, classifying the raw byte.
    pub fn new(offset: usize, raw_byte: u8, argument: Option<Vec<u8>>) -> (r: Instruction)
        ensures
            r@ == (InstrModel {
                offset: offset as int,
                opcode: spec_classify(raw_byte),
                raw_byte: raw_byte,
                argument: argument.deep_view(),
            }),
    {
        Instruction { offset, opcode: Opcode::from(raw_byte), raw_byte, argument }
    }

    /// The immediate as a big-endian u32, for selector extraction.
    pub fn arg_as_u32(&self) -> (r: Option<u32>)
        ensures
            r == spec_arg_as_u32(self@),
    {
        match &self.argument {
            None => None,
            Some(bytes) => {
                proof {
                    assert(bytes.deep_view() =~= bytes@);
                }
                if bytes.len() > 4 {
                    None
                } else {
                    let n = bytes.len();
                    let mut v: u32 = 0;
                    proof {
                        assert(bytes@.take(0) =~= Seq::<u8>::empty());
                    }
                    for i in 0..n
                        invariant
                            n == bytes@.len() <= 4,
                            v == spec_be_value(bytes@.take(i as int)),
                    {
                        proof {
                            lemma_be_value_bound(bytes@.take(i as int));
                            assert(spec_pow256(0) == 1);
                            assert(spec_pow256(1) == 256);
                            assert(spec_pow256(2) == 65536);
                            assert(spec_pow256(3) == 16777216);
                            assert(i == 0 || i == 1 || i == 2 || i == 3);
                            assert(v < 16777216);
                            assert(bytes@.take(i as int + 1).drop_last() =~= bytes@.take(
                                i as int,
                            ));
                        }
                        v = v * 256 + (bytes[i] as u32);
                    }
                    proof {
                        assert(bytes@.take(n as int) =~= bytes@);
                        lemma_be_value_bound(bytes@);
                        assert(spec_pow256(0) == 1);
                        assert(spec_pow256(1) == 256);
                        assert(spec_pow256(2) == 65536);
                        assert(spec_pow256(3) == 16777216);
                        assert(spec_pow256(4) == 0x1_0000_0000);
                    }
                    Some(v)
                }
            },
        }
    }

    /// The immediate rendered as a selector string, when it reads as a
    /// 32-bit value.
    pub fn arg_as_selector(&self) -> (r: Option<String>)
        ensures
            r.deep_view() == spec_arg_as_selector(self@),
    {
        match self.arg_as_u32() {
            Some(v) => Some(selector_string(v)),
            None => None,
        }
    }
}

} // verus!
