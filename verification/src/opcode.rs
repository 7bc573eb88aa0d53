//! The opcode table: classification of raw bytes into opcode identities,
//! together with the derived properties the rest of the pipeline consults
//! (immediate width, dangerousness, control-flow relevance).

use vstd::prelude::*;
use vstd::string::StringExecFns;

verus! {

/// Identity of a single EVM instruction byte.
///
/// The PUSH, DUP and SWAP families are collapsed: `classify` maps every
/// member of a family to the family head (`PUSH1`, `DUP1`, `SWAP1`).
/// Anything a collapsed tag loses is recoverable from the raw byte that an
/// [`crate::instruction::Instruction`] preserves alongside its opcode; in
/// particular immediate widths are always computed from the raw byte, never
/// from the tag. The named width variants `PUSH2`..`PUSH32` exist so that
/// callers can still ask for a family member's width directly.
///
/// `INVALID` is the designated abort opcode `0xFE`; `UNKNOWN` is the
/// catch-all for bytes with no assigned opcode.
#[derive(Debug, Clone, Copy, PartialEq, Eq, Hash, Structural)]
pub enum Opcode {
    STOP,
    ADD,
    MUL,
    SUB,
    DIV,
    SHA3,
    ADDRESS,
    BALANCE,
    ORIGIN,
    CALLER,
    CALLVALUE,
    CALLDATALOAD,
    CALLDATASIZE,
    CALLDATACOPY,
    CODESIZE,
    CODECOPY,
    GASPRICE,
    EXTCODESIZE,
    EXTCODECOPY,
    RETURNDATASIZE,
    RETURNDATACOPY,
    EXTCODEHASH,
    BLOCKHASH,
    COINBASE,
    TIMESTAMP,
    NUMBER,
    DIFFICULTY,
    GASLIMIT,
    CHAINID,
    SELFBALANCE,
    BASEFEE,
    POP,
    MLOAD,
    MSTORE,
    MSTORE8,
    SLOAD,
    SSTORE,
    JUMP,
    JUMPI,
    PC,
    MSIZE,
    GAS,
    JUMPDEST,
    PUSH1,
    PUSH2,
    PUSH3,
    PUSH4,
    PUSH32,
    DUP1,
    SWAP1,
    LOG0,
    LOG1,
    LOG2,
    LOG3,
    LOG4,
    CREATE,
    CALL,
    CALLCODE,
    RETURN,
    DELEGATECALL,
    CREATE2,
    STATICCALL,
    REVERT,
    INVALID,
    SELFDESTRUCT,
    UNKNOWN,
}

/// Total classification of a byte value: every one of the 256 possible
/// bytes maps to exactly one opcode, with `UNKNOWN` as the catch-all.
pub open spec fn spec_classify(b: u8) -> Opcode {
    if b == 0x00 {
        Opcode::STOP
    } else if b == 0x01 {
        Opcode::ADD
    } else if b == 0x02 {
        Opcode::MUL
    } else if b == 0x03 {
        Opcode::SUB
    } else if b == 0x04 {
        Opcode::DIV
    } else if b == 0x20 {
        Opcode::SHA3
    } else if b == 0x30 {
        Opcode::ADDRESS
    } else if b == 0x31 {
        Opcode::BALANCE
    } else if b == 0x32 {
        Opcode::ORIGIN
    } else if b == 0x33 {
        Opcode::CALLER
    } else if b == 0x34 {
        Opcode::CALLVALUE
    } else if b == 0x35 {
        Opcode::CALLDATALOAD
    } else if b == 0x36 {
        Opcode::CALLDATASIZE
    } else if b == 0x37 {
        Opcode::CALLDATACOPY
    } else if b == 0x38 {
        Opcode::CODESIZE
    } else if b == 0x39 {
        Opcode::CODECOPY
    } else if b == 0x3A {
        Opcode::GASPRICE
    } else if b == 0x3B {
        Opcode::EXTCODESIZE
    } else if b == 0x3C {
        Opcode::EXTCODECOPY
    } else if b == 0x3D {
        Opcode::RETURNDATASIZE
    } else if b == 0x3E {
        Opcode::RETURNDATACOPY
    } else if b == 0x3F {
        Opcode::EXTCODEHASH
    } else if b == 0x40 {
        Opcode::BLOCKHASH
    } else if b == 0x41 {
        Opcode::COINBASE
    } else if b == 0x42 {
        Opcode::TIMESTAMP
    } else if b == 0x43 {
        Opcode::NUMBER
    } else if b == 0x44 {
        Opcode::DIFFICULTY
    } else if b == 0x45 {
        Opcode::GASLIMIT
    } else if b == 0x46 {
        Opcode::CHAINID
    } else if b == 0x47 {
        Opcode::SELFBALANCE
    } else if b == 0x48 {
        Opcode::BASEFEE
    } else if b == 0x50 {
        Opcode::POP
    } else if b == 0x51 {
        Opcode::MLOAD
    } else if b == 0x52 {
        Opcode::MSTORE
    } else if b == 0x53 {
        Opcode::MSTORE8
    } else if b == 0x54 {
        Opcode::SLOAD
    } else if b == 0x55 {
        Opcode::SSTORE
    } else if b == 0x56 {
        Opcode::JUMP
    } else if b == 0x57 {
        Opcode::JUMPI
    } else if b == 0x58 {
        Opcode::PC
    } else if b == 0x59 {
        Opcode::MSIZE
    } else if b == 0x5A {
        Opcode::GAS
    } else if b == 0x5B {
        Opcode::JUMPDEST
    } else if 0x60 <= b && b <= 0x7F {
        Opcode::PUSH1
    } else if 0x80 <= b && b <= 0x8F {
        Opcode::DUP1
    } else if 0x90 <= b && b <= 0x9F {
        Opcode::SWAP1
    } else if b == 0xA0 {
        Opcode::LOG0
    } else if b == 0xA1 {
        Opcode::LOG1
    } else if b == 0xA2 {
        Opcode::LOG2
    } else if b == 0xA3 {
        Opcode::LOG3
    } else if b == 0xA4 {
        Opcode::LOG4
    } else if b == 0xF0 {
        Opcode::CREATE
    } else if b == 0xF1 {
        Opcode::CALL
    } else if b == 0xF2 {
        Opcode::CALLCODE
    } else if b == 0xF3 {
        Opcode::RETURN
    } else if b == 0xF4 {
        Opcode::DELEGATECALL
    } else if b == 0xF5 {
        Opcode::CREATE2
    } else if b == 0xFA {
        Opcode::STATICCALL
    } else if b == 0xFD {
        Opcode::REVERT
    } else if b == 0xFE {
        Opcode::INVALID
    } else if b == 0xFF {
        Opcode::SELFDESTRUCT
    } else {
        Opcode::UNKNOWN
    }
}

/// Width in bytes of the inline immediate operand that follows a raw byte:
/// `b - 0x5F` for the PUSH family `0x60..=0x7F`, zero for everything else.
/// The width is a property of the raw byte, not of the collapsed tag.
pub open spec fn spec_immediate_width(b: u8) -> usize {
    if 0x60 <= b && b <= 0x7F {
        (b - 0x5F) as usize
    } else {
        0
    }
}

/// Executable form of [`spec_immediate_width`].
pub fn immediate_width(b: u8) -> (w: usize)
    ensures
        w == spec_immediate_width(b),
{
    if 0x60 <= b && b <= 0x7F {
        (b - 0x5F) as usize
    } else {
        0
    }
}

impl Opcode {
    /// Executable form of [`spec_classify`].
    pub fn classify(b: u8) -> (r: Opcode)
        ensures
            r == spec_classify(b),
    {
        match b {
            0x00 => Opcode::STOP,
            0x01 => Opcode::ADD,
            0x02 => Opcode::MUL,
            0x03 => Opcode::SUB,
            0x04 => Opcode::DIV,
            0x20 => Opcode::SHA3,
            0x30 => Opcode::ADDRESS,
            0x31 => Opcode::BALANCE,
            0x32 => Opcode::ORIGIN,
            0x33 => Opcode::CALLER,
            0x34 => Opcode::CALLVALUE,
            0x35 => Opcode::CALLDATALOAD,
            0x36 => Opcode::CALLDATASIZE,
            0x37 => Opcode::CALLDATACOPY,
            0x38 => Opcode::CODESIZE,
            0x39 => Opcode::CODECOPY,
            0x3A => Opcode::GASPRICE,
            0x3B => Opcode::EXTCODESIZE,
            0x3C => Opcode::EXTCODECOPY,
            0x3D => Opcode::RETURNDATASIZE,
            0x3E => Opcode::RETURNDATACOPY,
            0x3F => Opcode::EXTCODEHASH,
            0x40 => Opcode::BLOCKHASH,
            0x41 => Opcode::COINBASE,
            0x42 => Opcode::TIMESTAMP,
            0x43 => Opcode::NUMBER,
            0x44 => Opcode::DIFFICULTY,
            0x45 => Opcode::GASLIMIT,
            0x46 => Opcode::CHAINID,
            0x47 => Opcode::SELFBALANCE,
            0x48 => Opcode::BASEFEE,
            0x50 => Opcode::POP,
            0x51 => Opcode::MLOAD,
            0x52 => Opcode::MSTORE,
            0x53 => Opcode::MSTORE8,
            0x54 => Opcode::SLOAD,
            0x55 => Opcode::SSTORE,
            0x56 => Opcode::JUMP,
            0x57 => Opcode::JUMPI,
            0x58 => Opcode::PC,
            0x59 => Opcode::MSIZE,
            0x5A => Opcode::GAS,
            0x5B => Opcode::JUMPDEST,
            0x60..=0x7F => Opcode::PUSH1,
            0x80..=0x8F => Opcode::DUP1,
            0x90..=0x9F => Opcode::SWAP1,
            0xA0 => Opcode::LOG0,
            0xA1 => Opcode::LOG1,
            0xA2 => Opcode::LOG2,
            0xA3 => Opcode::LOG3,
            0xA4 => Opcode::LOG4,
            0xF0 => Opcode::CREATE,
            0xF1 => Opcode::CALL,
            0xF2 => Opcode::CALLCODE,
            0xF3 => Opcode::RETURN,
            0xF4 => Opcode::DELEGATECALL,
            0xF5 => Opcode::CREATE2,
            0xFA => Opcode::STATICCALL,
            0xFD => Opcode::REVERT,
            0xFE => Opcode::INVALID,
            0xFF => Opcode::SELFDESTRUCT,
            _ => Opcode::UNKNOWN,
        }
    }

    /// Immediate width of a collapsed tag. Distinct from
    /// [`spec_immediate_width`]: the collapsed `PUSH1` tag answers 1 even
    /// for a byte of a wider PUSH, so consumers that care about the exact
    /// width of an instruction go through its raw byte instead.
    pub open spec fn spec_arg_size(self) -> usize {
        match self {
            Opcode::PUSH1 => 1,
            Opcode::PUSH2 => 2,
            Opcode::PUSH3 => 3,
            Opcode::PUSH4 => 4,
            Opcode::PUSH32 => 32,
            _ => 0,
        }
    }

    /// How many bytes of inline immediate this opcode tag announces.
    pub fn arg_size(&self) -> (r: usize)
        ensures
            r == self.spec_arg_size(),
    {
        match self {
            Opcode::PUSH1 => 1,
            Opcode::PUSH2 => 2,
            Opcode::PUSH3 => 3,
            Opcode::PUSH4 => 4,
            Opcode::PUSH32 => 32,
            _ => 0,
        }
    }

    /// The security-sensitive opcodes: external calls, contract creation,
    /// storage writes and self-destruction.
    pub open spec fn spec_is_dangerous(self) -> bool {
        self == Opcode::CALL || self == Opcode::CALLCODE || self == Opcode::DELEGATECALL
            || self == Opcode::STATICCALL || self == Opcode::SELFDESTRUCT || self == Opcode::CREATE
            || self == Opcode::CREATE2 || self == Opcode::SSTORE
    }

    /// Whether this opcode is dangerous for security analysis.
    pub fn is_dangerous(&self) -> (r: bool)
        ensures
            r == self.spec_is_dangerous(),
    {
        matches!(
            self,
            Opcode::CALL | Opcode::CALLCODE | Opcode::DELEGATECALL | Opcode::STATICCALL
                | Opcode::SELFDESTRUCT | Opcode::CREATE | Opcode::CREATE2 | Opcode::SSTORE
        )
    }

    /// The opcodes that end or redirect straight-line execution.
    pub open spec fn spec_is_control_flow(self) -> bool {
        self == Opcode::JUMP || self == Opcode::JUMPI || self == Opcode::STOP
            || self == Opcode::RETURN || self == Opcode::REVERT || self == Opcode::SELFDESTRUCT
    }

    /// Whether this opcode transfers or terminates control flow.
    pub fn is_control_flow(&self) -> (r: bool)
        ensures
            r == self.spec_is_control_flow(),
    {
        matches!(
            self,
            Opcode::JUMP | Opcode::JUMPI | Opcode::STOP | Opcode::RETURN | Opcode::REVERT
                | Opcode::SELFDESTRUCT
        )
    }
}

impl From<u8> for Opcode {
    fn from(byte: u8) -> (r: Opcode) {
        Opcode::classify(byte)
    }
}

impl vstd::std_specs::convert::FromSpecImpl<u8> for Opcode {
    open spec fn obeys_from_spec() -> bool {
        true
    }

    open spec fn from_spec(b: u8) -> Opcode {
        spec_classify(b)
    }
}

/// The display name of each opcode tag.
pub open spec fn spec_opcode_name(op: Opcode) -> Seq<char> {
    match op {
        Opcode::STOP => "STOP"@,
        Opcode::ADD => "ADD"@,
        Opcode::MUL => "MUL"@,
        Opcode::SUB => "SUB"@,
        Opcode::DIV => "DIV"@,
        Opcode::SHA3 => "SHA3"@,
        Opcode::ADDRESS => "ADDRESS"@,
        Opcode::BALANCE => "BALANCE"@,
        Opcode::ORIGIN => "ORIGIN"@,
        Opcode::CALLER => "CALLER"@,
        Opcode::CALLVALUE => "CALLVALUE"@,
        Opcode::CALLDATALOAD => "CALLDATALOAD"@,
        Opcode::CALLDATASIZE => "CALLDATASIZE"@,
        Opcode::CALLDATACOPY => "CALLDATACOPY"@,
        Opcode::CODESIZE => "CODESIZE"@,
        Opcode::CODECOPY => "CODECOPY"@,
        Opcode::GASPRICE => "GASPRICE"@,
        Opcode::EXTCODESIZE => "EXTCODESIZE"@,
        Opcode::EXTCODECOPY => "EXTCODECOPY"@,
        Opcode::RETURNDATASIZE => "RETURNDATASIZE"@,
        Opcode::RETURNDATACOPY => "RETURNDATACOPY"@,
        Opcode::EXTCODEHASH => "EXTCODEHASH"@,
        Opcode::BLOCKHASH => "BLOCKHASH"@,
        Opcode::COINBASE => "COINBASE"@,
        Opcode::TIMESTAMP => "TIMESTAMP"@,
        Opcode::NUMBER => "NUMBER"@,
        Opcode::DIFFICULTY => "DIFFICULTY"@,
        Opcode::GASLIMIT => "GASLIMIT"@,
        Opcode::CHAINID => "CHAINID"@,
        Opcode::SELFBALANCE => "SELFBALANCE"@,
        Opcode::BASEFEE => "BASEFEE"@,
        Opcode::POP => "POP"@,
        Opcode::MLOAD => "MLOAD"@,
        Opcode::MSTORE => "MSTORE"@,
        Opcode::MSTORE8 => "MSTORE8"@,
        Opcode::SLOAD => "SLOAD"@,
        Opcode::SSTORE => "SSTORE"@,
        Opcode::JUMP => "JUMP"@,
        Opcode::JUMPI => "JUMPI"@,
        Opcode::PC => "PC"@,
        Opcode::MSIZE => "MSIZE"@,
        Opcode::GAS => "GAS"@,
        Opcode::JUMPDEST => "JUMPDEST"@,
        Opcode::PUSH1 => "PUSH1"@,
        Opcode::PUSH2 => "PUSH2"@,
        Opcode::PUSH3 => "PUSH3"@,
        Opcode::PUSH4 => "PUSH4"@,
        Opcode::PUSH32 => "PUSH32"@,
        Opcode::DUP1 => "DUP1"@,
        Opcode::SWAP1 => "SWAP1"@,
        Opcode::LOG0 => "LOG0"@,
        Opcode::LOG1 => "LOG1"@,
        Opcode::LOG2 => "LOG2"@,
        Opcode::LOG3 => "LOG3"@,
        Opcode::LOG4 => "LOG4"@,
        Opcode::CREATE => "CREATE"@,
        Opcode::CALL => "CALL"@,
        Opcode::CALLCODE => "CALLCODE"@,
        Opcode::RETURN => "RETURN"@,
        Opcode::DELEGATECALL => "DELEGATECALL"@,
        Opcode::CREATE2 => "CREATE2"@,
        Opcode::STATICCALL => "STATICCALL"@,
        Opcode::REVERT => "REVERT"@,
        Opcode::INVALID => "INVALID"@,
        Opcode::SELFDESTRUCT => "SELFDESTRUCT"@,
        Opcode::UNKNOWN => "UNKNOWN"@,
    }
}

impl Opcode {
    /// The display name of this opcode, matching the variant's identifier.
    pub fn name(&self) -> (r: String)
        ensures
            r@ == spec_opcode_name(*self),
    {
        match self {
            Opcode::STOP => String::from_str("STOP"),
            Opcode::ADD => String::from_str("ADD"),
            Opcode::MUL => String::from_str("MUL"),
            Opcode::SUB => String::from_str("SUB"),
            Opcode::DIV => String::from_str("DIV"),
            Opcode::SHA3 => String::from_str("SHA3"),
            Opcode::ADDRESS => String::from_str("ADDRESS"),
            Opcode::BALANCE => String::from_str("BALANCE"),
            Opcode::ORIGIN => String::from_str("ORIGIN"),
            Opcode::CALLER => String::from_str("CALLER"),
            Opcode::CALLVALUE => String::from_str("CALLVALUE"),
            Opcode::CALLDATALOAD => String::from_str("CALLDATALOAD"),
            Opcode::CALLDATASIZE => String::from_str("CALLDATASIZE"),
            Opcode::CALLDATACOPY => String::from_str("CALLDATACOPY"),
            Opcode::CODESIZE => String::from_str("CODESIZE"),
            Opcode::CODECOPY => String::from_str("CODECOPY"),
            Opcode::GASPRICE => String::from_str("GASPRICE"),
            Opcode::EXTCODESIZE => String::from_str("EXTCODESIZE"),
            Opcode::EXTCODECOPY => String::from_str("EXTCODECOPY"),
            Opcode::RETURNDATASIZE => String::from_str("RETURNDATASIZE"),
            Opcode::RETURNDATACOPY => String::from_str("RETURNDATACOPY"),
            Opcode::EXTCODEHASH => String::from_str("EXTCODEHASH"),
            Opcode::BLOCKHASH => String::from_str("BLOCKHASH"),
            Opcode::COINBASE => String::from_str("COINBASE"),
            Opcode::TIMESTAMP => String::from_str("TIMESTAMP"),
            Opcode::NUMBER => String::from_str("NUMBER"),
            Opcode::DIFFICULTY => String::from_str("DIFFICULTY"),
            Opcode::GASLIMIT => String::from_str("GASLIMIT"),
            Opcode::CHAINID => String::from_str("CHAINID"),
            Opcode::SELFBALANCE => String::from_str("SELFBALANCE"),
            Opcode::BASEFEE => String::from_str("BASEFEE"),
            Opcode::POP => String::from_str("POP"),
            Opcode::MLOAD => String::from_str("MLOAD"),
            Opcode::MSTORE => String::from_str("MSTORE"),
            Opcode::MSTORE8 => String::from_str("MSTORE8"),
            Opcode::SLOAD => String::from_str("SLOAD"),
            Opcode::SSTORE => String::from_str("SSTORE"),
            Opcode::JUMP => String::from_str("JUMP"),
            Opcode::JUMPI => String::from_str("JUMPI"),
            Opcode::PC => String::from_str("PC"),
            Opcode::MSIZE => String::from_str("MSIZE"),
            Opcode::GAS => String::from_str("GAS"),
            Opcode::JUMPDEST => String::from_str("JUMPDEST"),
            Opcode::PUSH1 => String::from_str("PUSH1"),
            Opcode::PUSH2 => String::from_str("PUSH2"),
            Opcode::PUSH3 => String::from_str("PUSH3"),
            Opcode::PUSH4 => String::from_str("PUSH4"),
            Opcode::PUSH32 => String::from_str("PUSH32"),
            Opcode::DUP1 => String::from_str("DUP1"),
            Opcode::SWAP1 => String::from_str("SWAP1"),
            Opcode::LOG0 => String::from_str("LOG0"),
            Opcode::LOG1 => String::from_str("LOG1"),
            Opcode::LOG2 => String::from_str("LOG2"),
            Opcode::LOG3 => String::from_str("LOG3"),
            Opcode::LOG4 => String::from_str("LOG4"),
            Opcode::CREATE => String::from_str("CREATE"),
            Opcode::CALL => String::from_str("CALL"),
            Opcode::CALLCODE => String::from_str("CALLCODE"),
            Opcode::RETURN => String::from_str("RETURN"),
            Opcode::DELEGATECALL => String::from_str("DELEGATECALL"),
            Opcode::CREATE2 => String::from_str("CREATE2"),
            Opcode::STATICCALL => String::from_str("STATICCALL"),
            Opcode::REVERT => String::from_str("REVERT"),
            Opcode::INVALID => String::from_str("INVALID"),
            Opcode::SELFDESTRUCT => String::from_str("SELFDESTRUCT"),
            Opcode::UNKNOWN => String::from_str("UNKNOWN"),
        }
    }
}

} // verus!
