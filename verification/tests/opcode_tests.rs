use evm_decompiler::opcode::{immediate_width, Opcode};

#[test]
fn test_opcode_from_byte() {
    assert_eq!(Opcode::from(0x00), Opcode::STOP);
    assert_eq!(Opcode::from(0x01), Opcode::ADD);
    assert_eq!(Opcode::from(0x02), Opcode::MUL);
    assert_eq!(Opcode::from(0x03), Opcode::SUB);
    assert_eq!(Opcode::from(0x60), Opcode::PUSH1);
    assert_eq!(Opcode::from(0xF1), Opcode::CALL);
    assert_eq!(Opcode::from(0xFF), Opcode::SELFDESTRUCT);
}

#[test]
fn test_opcode_arg_size() {
    assert_eq!(Opcode::PUSH1.arg_size(), 1);
    assert_eq!(Opcode::PUSH2.arg_size(), 2);
    assert_eq!(Opcode::PUSH32.arg_size(), 32);
    assert_eq!(Opcode::ADD.arg_size(), 0);
    assert_eq!(Opcode::CALL.arg_size(), 0);
}

#[test]
fn test_opcode_is_dangerous() {
    assert!(Opcode::CALL.is_dangerous());
    assert!(Opcode::DELEGATECALL.is_dangerous());
    assert!(Opcode::SELFDESTRUCT.is_dangerous());
    assert!(Opcode::SSTORE.is_dangerous());
    assert!(!Opcode::ADD.is_dangerous());
    assert!(!Opcode::PUSH1.is_dangerous());
}

#[test]
fn test_opcode_is_control_flow() {
    assert!(Opcode::JUMP.is_control_flow());
    assert!(Opcode::JUMPI.is_control_flow());
    assert!(Opcode::STOP.is_control_flow());
    assert!(Opcode::RETURN.is_control_flow());
    assert!(Opcode::REVERT.is_control_flow());
    assert!(!Opcode::ADD.is_control_flow());
}

#[test]
fn test_staticcall_and_creates_are_dangerous() {
    assert!(Opcode::STATICCALL.is_dangerous());
    assert!(Opcode::CALLCODE.is_dangerous());
    assert!(Opcode::CREATE.is_dangerous());
    assert!(Opcode::CREATE2.is_dangerous());
    assert!(!Opcode::JUMP.is_dangerous());
}

#[test]
fn test_opcode_names() {
    assert_eq!(Opcode::STOP.name(), "STOP");
    assert_eq!(Opcode::MSTORE.name(), "MSTORE");
    assert_eq!(Opcode::DELEGATECALL.name(), "DELEGATECALL");
    assert_eq!(Opcode::UNKNOWN.name(), "UNKNOWN");
}

#[test]
fn test_immediate_width_push_family() {
    assert_eq!(immediate_width(0x60), 1);
    assert_eq!(immediate_width(0x63), 4);
    assert_eq!(immediate_width(0x7F), 32);
    assert_eq!(immediate_width(0x5F), 0);
    assert_eq!(immediate_width(0x80), 0);
    assert_eq!(immediate_width(0x00), 0);
}

#[test]
fn test_classify_environment_and_memory_block() {
    assert_eq!(Opcode::from(0x20), Opcode::SHA3);
    assert_eq!(Opcode::from(0x30), Opcode::ADDRESS);
    assert_eq!(Opcode::from(0x48), Opcode::BASEFEE);
    assert_eq!(Opcode::from(0x52), Opcode::MSTORE);
    assert_eq!(Opcode::from(0x5B), Opcode::JUMPDEST);
    assert_eq!(Opcode::from(0xFE), Opcode::INVALID);
    assert_eq!(Opcode::from(0x0C), Opcode::UNKNOWN);
    assert_eq!(Opcode::from(0xA9), Opcode::UNKNOWN);
}
