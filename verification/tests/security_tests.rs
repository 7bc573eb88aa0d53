use evm_decompiler::analysis::SecurityAnalyzer;
use evm_decompiler::disasm::Disassembler;

#[test]
fn test_function_selector_detection() {
    // PUSH4 0x12345678 EQ
    let bytecode = vec![0x63, 0x12, 0x34, 0x56, 0x78, 0x14];
    let instructions = Disassembler::disassemble(&bytecode).unwrap();
    let analysis = SecurityAnalyzer::analyze(&instructions);

    assert!(analysis.function_selectors.contains(&"0x12345678".to_string()));
}

#[test]
fn test_dangerous_opcode_detection() {
    // SELFDESTRUCT
    let bytecode = vec![0xFF];
    let instructions = Disassembler::disassemble(&bytecode).unwrap();
    let analysis = SecurityAnalyzer::analyze(&instructions);

    assert!(analysis.has_selfdestruct);
    assert!(!analysis.risk_indicators.is_empty());
}

#[test]
fn test_detect_selfdestruct() {
    let bytecode = vec![0xFF]; // SELFDESTRUCT
    let instructions = Disassembler::disassemble(&bytecode).unwrap();
    let analysis = SecurityAnalyzer::analyze(&instructions);

    assert!(analysis.has_selfdestruct);
    assert!(!analysis.risk_indicators.is_empty());
}

#[test]
fn test_detect_delegatecall() {
    let bytecode = vec![0xF4]; // DELEGATECALL
    let instructions = Disassembler::disassemble(&bytecode).unwrap();
    let analysis = SecurityAnalyzer::analyze(&instructions);

    assert!(analysis.has_delegatecall);
    assert_eq!(analysis.external_calls, 1);
}

#[test]
fn test_detect_create() {
    let bytecode = vec![0xF0, 0xF5]; // CREATE, CREATE2
    let instructions = Disassembler::disassemble(&bytecode).unwrap();
    let analysis = SecurityAnalyzer::analyze(&instructions);

    assert!(analysis.has_create);
}

#[test]
fn test_detect_function_selectors() {
    // PUSH4 0x12345678 EQ
    let bytecode = vec![0x63, 0x12, 0x34, 0x56, 0x78, 0x14];
    let instructions = Disassembler::disassemble(&bytecode).unwrap();
    let analysis = SecurityAnalyzer::analyze(&instructions);

    assert!(analysis.function_selectors.contains(&"0x12345678".to_string()));
}

#[test]
fn test_detect_multiple_selectors() {
    // Two function selectors
    let bytecode = vec![
        0x63, 0x12, 0x34, 0x56, 0x78, 0x14, // PUSH4 EQ
        0x63, 0xAB, 0xCD, 0xEF, 0x00, 0x14, // PUSH4 EQ
    ];
    let instructions = Disassembler::disassemble(&bytecode).unwrap();
    let analysis = SecurityAnalyzer::analyze(&instructions);

    assert_eq!(analysis.function_selectors.len(), 2);
}

#[test]
fn test_count_external_calls() {
    // CALL, STATICCALL, CALL
    let bytecode = vec![0xF1, 0xFA, 0xF1];
    let instructions = Disassembler::disassemble(&bytecode).unwrap();
    let analysis = SecurityAnalyzer::analyze(&instructions);

    assert_eq!(analysis.external_calls, 3);
}

#[test]
fn test_count_storage_writes() {
    // SSTORE, SSTORE
    let bytecode = vec![0x55, 0x55];
    let instructions = Disassembler::disassemble(&bytecode).unwrap();
    let analysis = SecurityAnalyzer::analyze(&instructions);

    assert_eq!(analysis.storage_writes, 2);
}

#[test]
fn test_no_dangerous_opcodes() {
    // Just arithmetic
    let bytecode = vec![0x01, 0x02, 0x03, 0x04]; // ADD MUL SUB DIV
    let instructions = Disassembler::disassemble(&bytecode).unwrap();
    let analysis = SecurityAnalyzer::analyze(&instructions);

    assert!(!analysis.has_selfdestruct);
    assert!(!analysis.has_delegatecall);
    assert!(!analysis.has_create);
    assert_eq!(analysis.external_calls, 0);
}

#[test]
fn test_minimal_stop_report() {
    // One STOP: one instruction, one block, no selectors, complexity 10.
    let bytecode = vec![0x00];
    let instructions = Disassembler::disassemble(&bytecode).unwrap();
    let analysis = SecurityAnalyzer::analyze(&instructions);

    assert!(analysis.function_selectors.is_empty());
    assert_eq!(analysis.complexity_score, 10);
    assert_eq!(analysis.external_calls, 0);
    assert_eq!(analysis.storage_writes, 0);
}

#[test]
fn test_selfdestruct_risk_indicator_shape() {
    let bytecode = vec![0xFF];
    let instructions = Disassembler::disassemble(&bytecode).unwrap();
    let analysis = SecurityAnalyzer::analyze(&instructions);

    assert_eq!(analysis.risk_indicators.len(), 1);
    assert_eq!(analysis.risk_indicators[0].name, "Self-destruct capability");
    assert_eq!(analysis.risk_indicators[0].severity, "critical");
    assert_eq!(
        analysis.risk_indicators[0].description,
        "Contract can be destroyed, all funds sent to owner"
    );
}

#[test]
fn test_external_calls_without_delegatecall() {
    // CALL STATICCALL CALL: three external calls, none a delegatecall.
    let bytecode = vec![0xF1, 0xFA, 0xF1];
    let instructions = Disassembler::disassemble(&bytecode).unwrap();
    let analysis = SecurityAnalyzer::analyze(&instructions);

    assert_eq!(analysis.external_calls, 3);
    assert!(!analysis.has_delegatecall);
}

#[test]
fn test_many_external_calls_indicator() {
    // Six CALLs cross the density threshold; the description carries the
    // count in decimal.
    let bytecode = vec![0xF1; 6];
    let instructions = Disassembler::disassemble(&bytecode).unwrap();
    let analysis = SecurityAnalyzer::analyze(&instructions);

    assert_eq!(analysis.external_calls, 6);
    let found = analysis.risk_indicators.iter().any(|r| {
        r.name == "Multiple external calls"
            && r.severity == "medium"
            && r.description == "6 external calls - check for reentrancy"
    });
    assert!(found);
}

#[test]
fn test_dangerous_opcode_entries() {
    // CALL at 0, DELEGATECALL at 1: names and risks are recorded exactly.
    let bytecode = vec![0xF1, 0xF4];
    let instructions = Disassembler::disassemble(&bytecode).unwrap();
    let analysis = SecurityAnalyzer::analyze(&instructions);

    assert_eq!(analysis.dangerous_opcodes.len(), 2);
    assert_eq!(analysis.dangerous_opcodes[0].offset, 0);
    assert_eq!(analysis.dangerous_opcodes[0].opcode, "CALL");
    assert_eq!(
        analysis.dangerous_opcodes[0].risk,
        "External call - potential reentrancy"
    );
    assert_eq!(analysis.dangerous_opcodes[1].offset, 1);
    assert_eq!(analysis.dangerous_opcodes[1].opcode, "DELEGATECALL");
    assert_eq!(
        analysis.dangerous_opcodes[1].risk,
        "Delegatecall - storage manipulation risk"
    );
}

#[test]
fn test_delegatecall_risk_ordering() {
    // SELFDESTRUCT then DELEGATECALL: the critical indicator precedes the
    // high one.
    let bytecode = vec![0xFF, 0xF4];
    let instructions = Disassembler::disassemble(&bytecode).unwrap();
    let analysis = SecurityAnalyzer::analyze(&instructions);

    assert_eq!(analysis.risk_indicators.len(), 2);
    assert_eq!(analysis.risk_indicators[0].severity, "critical");
    assert_eq!(analysis.risk_indicators[1].name, "Delegatecall usage");
    assert_eq!(analysis.risk_indicators[1].severity, "high");
}

#[test]
fn test_truncated_push4_selector_detection() {
    // A truncated PUSH4 immediately before EQ still yields a selector,
    // left-padded. (PUSH4 with 3 bytes consumes the EQ byte, so build the
    // pair explicitly with a full stream: PUSH2 0x1234 EQ has raw byte
    // 0x61, not 0x63, and yields nothing.)
    let bytecode = vec![0x61, 0x12, 0x34, 0x14];
    let instructions = Disassembler::disassemble(&bytecode).unwrap();
    let analysis = SecurityAnalyzer::analyze(&instructions);
    assert!(analysis.function_selectors.is_empty());
}
