use evm_decompiler::cfg::ControlFlowGraph;
use evm_decompiler::disasm::Disassembler;
use petgraph::graph::NodeIndex;

#[test]
fn test_cfg_simple() {
    let bytecode = vec![0x00]; // STOP
    let instructions = Disassembler::disassemble(&bytecode).unwrap();
    let cfg = ControlFlowGraph::build(&instructions);

    assert_eq!(cfg.block_count(), 1);
    assert!(cfg.entry.is_some());
}

#[test]
fn test_cfg_with_jumpdest() {
    // PUSH1 0x04 JUMP JUMPDEST STOP
    let bytecode = vec![0x60, 0x04, 0x56, 0x5B, 0x00];
    let instructions = Disassembler::disassemble(&bytecode).unwrap();
    let cfg = ControlFlowGraph::build(&instructions);

    // Should have 2 blocks: before jump and at jumpdest
    assert!(cfg.block_count() >= 2);
}

#[test]
fn test_cfg_with_conditional() {
    // PUSH1 0x00 PUSH1 0x08 JUMPI PUSH1 0x01 STOP JUMPDEST STOP
    let bytecode = vec![0x60, 0x00, 0x60, 0x08, 0x57, 0x60, 0x01, 0x00, 0x5B, 0x00];
    let instructions = Disassembler::disassemble(&bytecode).unwrap();
    let cfg = ControlFlowGraph::build(&instructions);

    assert!(cfg.block_count() >= 2);
}

#[test]
fn test_cfg_empty_stream() {
    let instructions = Disassembler::disassemble(&[]).unwrap();
    let cfg = ControlFlowGraph::build(&instructions);
    assert_eq!(cfg.block_count(), 0);
    assert!(cfg.entry.is_none());
    assert!(cfg.blocks.is_empty());
}

#[test]
fn test_cfg_single_block_flags() {
    // A lone STOP forms one returning, non-reverting entry block.
    let bytecode = vec![0x00];
    let instructions = Disassembler::disassemble(&bytecode).unwrap();
    let cfg = ControlFlowGraph::build(&instructions);

    let entry = cfg.entry.unwrap();
    let block = &cfg.graph[entry];
    assert!(block.is_entry);
    assert!(block.is_return);
    assert!(!block.is_revert);
    assert_eq!(block.start_offset, 0);
    assert_eq!(block.end_offset, 0);
    assert_eq!(block.instructions.len(), 1);
}

#[test]
fn test_cfg_revert_block_flag() {
    // A lone REVERT forms one reverting block.
    let bytecode = vec![0xFD];
    let instructions = Disassembler::disassemble(&bytecode).unwrap();
    let cfg = ControlFlowGraph::build(&instructions);

    let entry = cfg.entry.unwrap();
    let block = &cfg.graph[entry];
    assert!(block.is_revert);
    assert!(!block.is_return);
}

#[test]
fn test_cfg_block_index_by_offset() {
    // PUSH1 0x04 JUMP JUMPDEST STOP: blocks start at offsets 0 and 3.
    let bytecode = vec![0x60, 0x04, 0x56, 0x5B, 0x00];
    let instructions = Disassembler::disassemble(&bytecode).unwrap();
    let cfg = ControlFlowGraph::build(&instructions);

    assert_eq!(cfg.block_count(), 2);
    let first: NodeIndex<usize> = *cfg.blocks.get(&0).unwrap();
    let second: NodeIndex<usize> = *cfg.blocks.get(&3).unwrap();
    assert_eq!(cfg.graph[first].start_offset, 0);
    assert_eq!(cfg.graph[second].start_offset, 3);
    assert_eq!(cfg.graph[second].end_offset, 4);
}

#[test]
fn test_cfg_straight_line_is_one_block() {
    // Arithmetic only: no leaders besides the entry.
    let bytecode = vec![0x01, 0x02, 0x03, 0x04];
    let instructions = Disassembler::disassemble(&bytecode).unwrap();
    let cfg = ControlFlowGraph::build(&instructions);
    assert_eq!(cfg.block_count(), 1);
}
