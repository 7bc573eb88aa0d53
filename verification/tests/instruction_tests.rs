use evm_decompiler::instruction::Instruction;
use evm_decompiler::opcode::Opcode;

#[test]
fn test_instruction_new() {
    let instr = Instruction::new(0, 0x60, Some(vec![0x40]));
    assert_eq!(instr.offset, 0);
    assert_eq!(instr.raw_byte, 0x60);
    assert_eq!(instr.opcode, Opcode::PUSH1);
    assert_eq!(instr.argument, Some(vec![0x40]));
}

#[test]
fn test_instruction_arg_as_u32() {
    // PUSH4 0x12345678
    let instr = Instruction::new(0, 0x63, Some(vec![0x12, 0x34, 0x56, 0x78]));
    assert_eq!(instr.arg_as_u32(), Some(0x12345678));
}

#[test]
fn test_instruction_arg_as_u32_short() {
    // PUSH2 0x1234
    let instr = Instruction::new(0, 0x61, Some(vec![0x12, 0x34]));
    assert_eq!(instr.arg_as_u32(), Some(0x1234));
}

#[test]
fn test_instruction_arg_as_selector() {
    let instr = Instruction::new(0, 0x63, Some(vec![0x09, 0x5e, 0xa7, 0xb3]));
    assert_eq!(instr.arg_as_selector(), Some("0x095ea7b3".to_string()));
}

#[test]
fn test_instruction_arg_as_u32_wide_operand() {
    // An operand longer than four bytes does not read as a selector value.
    let instr = Instruction::new(0, 0x65, Some(vec![0x01, 0x02, 0x03, 0x04, 0x05]));
    assert_eq!(instr.arg_as_u32(), None);
    assert_eq!(instr.arg_as_selector(), None);
}

#[test]
fn test_instruction_arg_as_selector_pads_short_operand() {
    // A truncated operand reads as if left-padded with zeros.
    let instr = Instruction::new(0, 0x63, Some(vec![0x12, 0x34, 0x56]));
    assert_eq!(instr.arg_as_selector(), Some("0x00123456".to_string()));
}

#[test]
fn test_instruction_without_argument() {
    let instr = Instruction::new(7, 0x01, None);
    assert_eq!(instr.offset, 7);
    assert_eq!(instr.opcode, Opcode::ADD);
    assert_eq!(instr.arg_as_u32(), None);
    assert_eq!(instr.arg_as_selector(), None);
}
