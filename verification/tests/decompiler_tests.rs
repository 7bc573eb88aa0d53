use evm_decompiler::report::Decompiler;
use sha3::Digest;

#[test]
fn test_decompile_minimal() {
    let bytecode = vec![0x00]; // STOP
    let result = Decompiler::decompile(&bytecode).unwrap();

    assert_eq!(result.bytecode_size, 1);
    assert_eq!(result.instruction_count, 1);
    assert!(!result.bytecode_hash.is_empty());
}

#[test]
fn test_decompile_hash() {
    let bytecode = vec![0x60, 0x80, 0x60, 0x40, 0x52];
    let result = Decompiler::decompile(&bytecode).unwrap();

    // Hash should start with 0x
    assert!(result.bytecode_hash.starts_with("0x"));
    assert_eq!(result.bytecode_hash.len(), 66); // 0x + 64 hex chars
}

#[test]
fn test_decompile_real_contract() {
    // Simplified ERC20 approve function dispatch
    let bytecode = vec![
        0x60, 0x80, // PUSH1 0x80
        0x60, 0x40, // PUSH1 0x40
        0x52, // MSTORE
        0x60, 0x04, // PUSH1 0x04
        0x36, // CALLDATASIZE
        0x10, // LT
        0x60, 0x1C, // PUSH1 0x1C
        0x57, // JUMPI
        0x60, 0x00, // PUSH1 0x00
        0x35, // CALLDATALOAD
        0x60, 0xE0, // PUSH1 0xE0
        0x1C, // SHR
        0x63, 0x09, 0x5e, 0xa7, 0xb3, // PUSH4 approve selector
        0x14, // EQ
    ];
    let result = Decompiler::decompile(&bytecode).unwrap();

    assert!(result.instruction_count > 0);
    assert!(result.security.function_selectors.contains(&"0x095ea7b3".to_string()));
}

#[test]
fn test_decompile_hash_matches_direct_keccak() {
    // The digest string equals the Keccak-256 of the input, hex encoded.
    let bytecode = vec![0x60, 0x80, 0x60, 0x40, 0x52];
    let mut hasher = sha3::Keccak256::new();
    hasher.update(&bytecode);
    let expected = format!("0x{}", hex::encode(hasher.finalize()));

    let result = Decompiler::decompile(&bytecode).unwrap();
    assert_eq!(result.bytecode_hash, expected);
}

#[test]
fn test_decompile_empty_input() {
    let result = Decompiler::decompile(&[]).unwrap();
    assert_eq!(result.bytecode_size, 0);
    assert_eq!(result.instruction_count, 0);
    assert_eq!(result.block_count, 0);
    assert!(result.security.function_selectors.is_empty());
    assert_eq!(result.security.complexity_score, 0);
}

#[test]
fn test_decompile_twice_identical() {
    // Two runs over the same input produce byte-identical reports.
    let bytecode = vec![0x60, 0x80, 0x60, 0x40, 0x52, 0xFF, 0xF4];
    let a = Decompiler::decompile(&bytecode).unwrap();
    let b = Decompiler::decompile(&bytecode).unwrap();

    assert_eq!(a.bytecode_hash, b.bytecode_hash);
    assert_eq!(a.bytecode_size, b.bytecode_size);
    assert_eq!(a.instruction_count, b.instruction_count);
    assert_eq!(a.block_count, b.block_count);
    assert_eq!(a.security.function_selectors, b.security.function_selectors);
    assert_eq!(a.security.external_calls, b.security.external_calls);
    assert_eq!(a.security.storage_writes, b.security.storage_writes);
    assert_eq!(a.security.complexity_score, b.security.complexity_score);
    assert_eq!(a.security.risk_indicators.len(), b.security.risk_indicators.len());
}

#[test]
fn test_decompile_counts_match_parts() {
    // SELFDESTRUCT alone: one instruction, one block, selfdestruct flagged.
    let bytecode = vec![0xFF];
    let result = Decompiler::decompile(&bytecode).unwrap();
    assert_eq!(result.instruction_count, 1);
    assert_eq!(result.block_count, 1);
    assert!(result.security.has_selfdestruct);
    assert_eq!(result.security.complexity_score, 10);
}
