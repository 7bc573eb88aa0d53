use evm_decompiler::disasm::Disassembler;
use evm_decompiler::opcode::Opcode;

#[test]
fn test_disassemble_simple() {
    // PUSH1 0x60 PUSH1 0x40 MSTORE
    let bytecode = vec![0x60, 0x60, 0x60, 0x40, 0x52];
    let instructions = Disassembler::disassemble(&bytecode).unwrap();

    assert_eq!(instructions.len(), 3);
    assert_eq!(instructions[0].raw_byte, 0x60);
    assert_eq!(instructions[0].argument, Some(vec![0x60]));
}

#[test]
fn test_disassemble_empty() {
    let bytecode = vec![];
    let result = Disassembler::disassemble(&bytecode).unwrap();
    assert!(result.is_empty());
}

#[test]
fn test_disassemble_single_opcode() {
    let bytecode = vec![0x00]; // STOP
    let result = Disassembler::disassemble(&bytecode).unwrap();
    assert_eq!(result.len(), 1);
    assert_eq!(result[0].opcode, Opcode::STOP);
}

#[test]
fn test_disassemble_push1() {
    let bytecode = vec![0x60, 0x40]; // PUSH1 0x40
    let result = Disassembler::disassemble(&bytecode).unwrap();
    assert_eq!(result.len(), 1);
    assert_eq!(result[0].opcode, Opcode::PUSH1);
    assert_eq!(result[0].argument, Some(vec![0x40]));
}

#[test]
fn test_disassemble_push32() {
    let mut bytecode = vec![0x7F]; // PUSH32
    bytecode.extend(vec![0xAB; 32]);
    let result = Disassembler::disassemble(&bytecode).unwrap();
    assert_eq!(result.len(), 1);
    assert_eq!(result[0].argument.as_ref().unwrap().len(), 32);
}

#[test]
fn test_disassemble_sequence() {
    // PUSH1 0x60 PUSH1 0x40 MSTORE
    let bytecode = vec![0x60, 0x60, 0x60, 0x40, 0x52];
    let result = Disassembler::disassemble(&bytecode).unwrap();
    assert_eq!(result.len(), 3);
    assert_eq!(result[0].opcode, Opcode::PUSH1);
    assert_eq!(result[1].opcode, Opcode::PUSH1);
    assert_eq!(result[2].opcode, Opcode::MSTORE);
}

#[test]
fn test_disassemble_truncated_push() {
    // PUSH4 with only 2 bytes of data
    let bytecode = vec![0x63, 0x12, 0x34];
    let result = Disassembler::disassemble(&bytecode).unwrap();
    // Should still parse, just with truncated argument
    assert_eq!(result.len(), 1);
}

#[test]
fn test_disassemble_common_constructor() {
    // Common Solidity constructor prologue
    let bytecode = vec![
        0x60, 0x80, // PUSH1 0x80
        0x60, 0x40, // PUSH1 0x40
        0x52, // MSTORE
        0x34, // CALLVALUE
        0x80, // DUP1
        0x15, // ISZERO
    ];
    let result = Disassembler::disassemble(&bytecode).unwrap();
    assert_eq!(result.len(), 6);
}

#[test]
fn test_disassemble_offsets_ascend() {
    // PUSH1 0x60 at 0, PUSH1 0x40 at 2, MSTORE at 4
    let bytecode = vec![0x60, 0x60, 0x60, 0x40, 0x52];
    let result = Disassembler::disassemble(&bytecode).unwrap();
    assert_eq!(result[0].offset, 0);
    assert_eq!(result[1].offset, 2);
    assert_eq!(result[2].offset, 4);
}

#[test]
fn test_disassemble_truncated_immediate_kept() {
    // PUSH4 followed by only three bytes keeps them, unpadded.
    let bytecode = vec![0x63, 0x12, 0x34, 0x56];
    let result = Disassembler::disassemble(&bytecode).unwrap();
    assert_eq!(result.len(), 1);
    assert_eq!(result[0].argument, Some(vec![0x12, 0x34, 0x56]));
}

#[test]
fn test_disassemble_push_at_stream_end() {
    // A PUSH as the very last byte has no immediate at all.
    let bytecode = vec![0x00, 0x63];
    let result = Disassembler::disassemble(&bytecode).unwrap();
    assert_eq!(result.len(), 2);
    assert_eq!(result[1].opcode, Opcode::PUSH1);
    assert_eq!(result[1].raw_byte, 0x63);
    assert_eq!(result[1].argument, None);
}

#[test]
fn test_disassemble_unknown_bytes() {
    // Unassigned bytes are promoted to the catch-all opcode, one each.
    let bytecode = vec![0x0C, 0x21, 0xEF];
    let result = Disassembler::disassemble(&bytecode).unwrap();
    assert_eq!(result.len(), 3);
    for instr in &result {
        assert_eq!(instr.opcode, Opcode::UNKNOWN);
        assert_eq!(instr.argument, None);
    }
}
