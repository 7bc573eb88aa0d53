//! Basic-block partitioning and control-flow graph construction.
//!
//! A leader is the first instruction of the stream, a `JUMPDEST`, or any
//! instruction following a control-flow opcode. Blocks span the ranges
//! between consecutive leaders. The node set lives in a `petgraph` directed
//! graph; edge construction is reserved for future work, so the edge set is
//! empty.

use vstd::prelude::*;

use petgraph::graph::{DiGraph, NodeIndex};
use std::collections::HashMap;

use crate::instruction::{InstrModel, Instruction};
use crate::opcode::Opcode;

verus! {

broadcast use vstd::std_specs::hash::group_hash_axioms;

/// `petgraph`'s graph type, opaque to verification; values of it are
/// spoken of only through [`graph_blocks`].
#[verifier::external_type_specification]
#[verifier::external_body]
#[verifier::reject_recursive_types(N)]
#[verifier::reject_recursive_types(E)]
#[verifier::reject_recursive_types(Ty)]
#[verifier::reject_recursive_types(Ix)]
pub struct ExGraph<N, E, Ty, Ix>(petgraph::graph::Graph<N, E, Ty, Ix>);

/// `petgraph`'s node handle, opaque to verification; a handle is spoken of
/// only through [`node_index_of`].
#[verifier::external_type_specification]
#[verifier::external_body]
#[verifier::reject_recursive_types(Ix)]
pub struct ExNodeIndex<Ix>(petgraph::graph::NodeIndex<Ix>);

/// `petgraph`'s directed-graph marker type.
#[verifier::external_type_specification]
#[verifier::external_body]
pub struct ExDirected(petgraph::Directed);

/// The node weights a graph holds, in insertion order.
pub uninterp spec fn graph_blocks(g: DiGraph<BasicBlock, (), usize>) -> Seq<BasicBlock>;

/// The position a node handle points at.
pub uninterp spec fn node_index_of(ix: NodeIndex<usize>) -> int;

/// Relies on petgraph's `Graph::with_capacity`: the graph starts with no
/// nodes.
#[verifier::external_body]
fn graph_new() -> (g: DiGraph<BasicBlock, (), usize>)
    ensures
        graph_blocks(g) == Seq::<BasicBlock>::empty(),
{
    DiGraph::with_capacity(0, 0)
}

/// Relies on petgraph's `Graph::add_node`: it appends a node holding the
/// given weight and returns the new node's index, which equals the node
/// count before the call. With a `usize` node index the graph's capacity
/// check always passes, so the call cannot fail.
#[verifier::external_body]
fn graph_add_node(g: &mut DiGraph<BasicBlock, (), usize>, block: BasicBlock) -> (ix: NodeIndex<
    usize,
>)
    ensures
        graph_blocks(*final(g)) == graph_blocks(*old(g)).push(block),
        node_index_of(ix) == graph_blocks(*old(g)).len(),
{
    g.add_node(block)
}

/// Relies on petgraph's `Graph::node_count`: the number of nodes held.
#[verifier::external_body]
fn graph_node_count(g: &DiGraph<BasicBlock, (), usize>) -> (n: usize)
    ensures
        n == graph_blocks(*g).len(),
{
    g.node_count()
}

/// A maximal straight-line run of instructions.
#[derive(Debug)]
pub struct BasicBlock {
    pub start_offset: usize,
    pub end_offset: usize,
    pub instructions: Vec<Instruction>,
    pub is_entry: bool,
    pub is_revert: bool,
    pub is_return: bool,
}

/// Mathematical model of a [`BasicBlock`].
#[verifier::ext_equal]
pub ghost struct BlockModel {
    pub start_offset: int,
    pub end_offset: int,
    pub instructions: Seq<InstrModel>,
    pub is_entry: bool,
    pub is_revert: bool,
    pub is_return: bool,
}

impl View for BasicBlock {
    type V = BlockModel;

    open spec fn view(&self) -> BlockModel {
        BlockModel {
            start_offset: self.start_offset as int,
            end_offset: self.end_offset as int,
            instructions: self.instructions.deep_view(),
            is_entry: self.is_entry,
            is_revert: self.is_revert,
            is_return: self.is_return,
        }
    }
}

/// The models of a sequence of blocks.
pub open spec fn blocks_view(s: Seq<BasicBlock>) -> Seq<BlockModel> {
    s.map_values(|b: BasicBlock| b@)
}

/// Whether the instruction at sequence index `k` begins a basic block:
/// the first instruction, a `JUMPDEST`, or the successor of a control-flow
/// opcode.
pub open spec fn spec_is_leader(s: Seq<InstrModel>, k: int) -> bool {
    &&& 0 <= k < s.len()
    &&& {
        ||| k == 0
        ||| s[k].opcode == Opcode::JUMPDEST
        ||| s[k - 1].opcode.spec_is_control_flow()
    }
}

/// The ascending sequence of leader indices at or after `k`.
pub open spec fn spec_leaders_from(s: Seq<InstrModel>, k: nat) -> Seq<int>
    decreases s.len() - k,
{
    if k >= s.len() {
        Seq::empty()
    } else if spec_is_leader(s, k as int) {
        seq![k as int] + spec_leaders_from(s, k + 1)
    } else {
        spec_leaders_from(s, k + 1)
    }
}

/// All leader indices of an instruction sequence, ascending.
pub open spec fn spec_leaders(s: Seq<InstrModel>) -> Seq<int> {
    spec_leaders_from(s, 0)
}

/// The block covering instruction range `[start, end)`.
pub open spec fn spec_block(s: Seq<InstrModel>, start: int, end: int) -> BlockModel
    recommends
        0 <= start < end <= s.len(),
{
    BlockModel {
        start_offset: s[start].offset,
        end_offset: s[end - 1].offset,
        instructions: s.subrange(start, end),
        is_entry: start == 0,
        is_revert: s[end - 1].opcode == Opcode::REVERT,
        is_return: s[end - 1].opcode == Opcode::RETURN || s[end - 1].opcode == Opcode::STOP,
    }
}

/// The basic-block partition of an instruction sequence: one block per
/// leader, each running to the next leader or to the end of the sequence.
pub open spec fn spec_blocks(s: Seq<InstrModel>) -> Seq<BlockModel> {
    let ls = spec_leaders(s);
    Seq::new(
        ls.len(),
        |i: int|
            spec_block(
                s,
                ls[i],
                if i + 1 < ls.len() {
                    ls[i + 1]
                } else {
                    s.len() as int
                },
            ),
    )
}

/// Position bounds, strict ascent, and headedness of the leader sequence.
pub proof fn lemma_leaders_from(s: Seq<InstrModel>, k: nat)
    ensures
        forall|j: int|
            0 <= j < spec_leaders_from(s, k).len() ==> k <= #[trigger] spec_leaders_from(s, k)[j]
                < s.len(),
        forall|j1: int, j2: int|
            0 <= j1 < j2 < spec_leaders_from(s, k).len() ==> spec_leaders_from(s, k)[j1]
                < spec_leaders_from(s, k)[j2],
        spec_leaders_from(s, k).len() + k <= s.len() || k > s.len(),
        k < s.len() && spec_is_leader(s, k as int) ==> spec_leaders_from(s, k).len() > 0
            && spec_leaders_from(s, k)[0] == k,
    decreases s.len() - k,
{
    if k >= s.len() {
    } else {
        lemma_leaders_from(s, k + 1);
        if spec_is_leader(s, k as int) {
            let rest = spec_leaders_from(s, k + 1);
            assert(forall|j: int|
                1 <= j < spec_leaders_from(s, k).len() ==> spec_leaders_from(s, k)[j] == rest[j
                    - 1]);
        }
    }
}

/// The number of blocks never exceeds the number of instructions.
pub proof fn lemma_block_count_bounded(s: Seq<InstrModel>)
    ensures
        spec_blocks(s).len() <= s.len(),
{
    lemma_leaders_from(s, 0);
}

/// A non-empty instruction sequence yields at least one block; the first
/// block is the entry block and carries `is_entry`, and no other block
/// does.
pub proof fn lemma_single_entry(s: Seq<InstrModel>)
    ensures
        s.len() > 0 ==> spec_blocks(s).len() > 0,
        s.len() == 0 ==> spec_blocks(s).len() == 0,
        spec_blocks(s).len() > 0 ==> spec_blocks(s)[0].is_entry,
        forall|k: int| 1 <= k < spec_blocks(s).len() ==> !(#[trigger] spec_blocks(s)[k].is_entry),
{
    lemma_leaders_from(s, 0);
    if s.len() > 0 {
        assert(spec_is_leader(s, 0));
        assert(spec_leaders(s)[0] == 0);
        assert(forall|k: int|
            1 <= k < spec_leaders(s).len() ==> #[trigger] spec_leaders(s)[k] > spec_leaders(
                s,
            )[0]);
    }
}

/// Copy a range of an instruction slice.
fn copy_range(instructions: &[Instruction], start: usize, end: usize) -> (r: Vec<Instruction>)
    requires
        start <= end <= instructions@.len(),
    ensures
        r.deep_view() == instructions.deep_view().subrange(start as int, end as int),
{
    let mut r: Vec<Instruction> = Vec::new();
    proof {
        assert(r.deep_view() =~= instructions.deep_view().subrange(start as int, start as int));
    }
    for j in start..end
        invariant
            start <= j <= end <= instructions@.len(),
            r.deep_view() =~= instructions.deep_view().subrange(start as int, j as int),
    {
        let ghost pre = r.deep_view();
        let c = instructions[j].clone();
        proof {
            assert(c@ == instructions@[j as int]@);
            assert(instructions.deep_view()[j as int] == instructions@[j as int]@);
        }
        let ghost cv = c@;
        r.push(c);
        proof {
            assert(r.deep_view() =~= pre.push(cv));
            assert(instructions.deep_view().subrange(start as int, j as int + 1) =~= pre.push(
                cv,
            ));
        }
    }
    r
}

/// The control-flow graph: basic blocks as graph nodes, an optional entry
/// handle, and an index from a block's starting byte offset to its node.
pub struct ControlFlowGraph {
    pub graph: DiGraph<BasicBlock, (), usize>,
    pub entry: Option<NodeIndex<usize>>,
    pub blocks: HashMap<usize, NodeIndex<usize>>,
}

impl ControlFlowGraph {
    /// Partition the instruction stream into basic blocks.
    ///
    /// The nodes of the returned graph are exactly [`spec_blocks`] of the
    /// input, in order; the entry handle points at the first block exactly
    /// when the stream is non-empty; and the offset index maps precisely
    /// the starting offsets of the blocks, each to a node holding a block
    /// that starts there.
    pub fn build(instructions: &[Instruction]) -> (cfg: ControlFlowGraph)
        ensures
            blocks_view(graph_blocks(cfg.graph)) == spec_blocks(instructions.deep_view()),
            cfg.entry is Some <==> instructions@.len() > 0,
            cfg.entry matches Some(ix) ==> node_index_of(ix) == 0,
            forall|off: usize|
                #[trigger] cfg.blocks@.dom().contains(off) <==> exists|k: int|
                    0 <= k < spec_blocks(instructions.deep_view()).len()
                        && #[trigger] spec_blocks(instructions.deep_view())[k].start_offset
                        == off as int,
            forall|off: usize|
                #[trigger] cfg.blocks@.dom().contains(off) ==> exists|k: int|
                    0 <= k < spec_blocks(instructions.deep_view()).len()
                        && #[trigger] spec_blocks(instructions.deep_view())[k].start_offset
                        == off as int && node_index_of(cfg.blocks@[off]) == k,
    {
        let ghost sv = instructions.deep_view();
        let n = instructions.len();
        proof {
            assert(sv.len() == n);
        }

        // Collect the leader indices, ascending.
        let mut leaders: Vec<usize> = Vec::new();
        proof {
            assert(leaders@.map_values(|x: usize| x as int) =~= Seq::<int>::empty());
        }
        for k in 0..n
            invariant
                n == instructions@.len(),
                sv == instructions.deep_view(),
                leaders@.map_values(|x: usize| x as int) + spec_leaders_from(sv, k as nat)
                    =~= spec_leaders(sv),
        {
            let ghost pre = leaders@.map_values(|x: usize| x as int);
            proof {
                assert(sv[k as int] == instructions@[k as int]@);
                if k >= 1 {
                    assert(sv[k as int - 1] == instructions@[k as int - 1]@);
                }
            }
            let is_l = if k == 0 {
                true
            } else if instructions[k].opcode == Opcode::JUMPDEST {
                true
            } else {
                instructions[k - 1].opcode.is_control_flow()
            };
            assert(is_l == spec_is_leader(sv, k as int));
            if is_l {
                leaders.push(k);
                proof {
                    assert(leaders@.map_values(|x: usize| x as int) =~= pre + seq![k as int]);
                }
            }
        }
        proof {
            assert(spec_leaders_from(sv, n as nat) =~= Seq::<int>::empty());
            assert(leaders@.map_values(|x: usize| x as int) =~= spec_leaders(sv));
            lemma_leaders_from(sv, 0);
            assert forall|j: int| 0 <= j < leaders@.len() implies 0 <= #[trigger] leaders@[j]
                < n by {
                assert(leaders@.map_values(|x: usize| x as int)[j] == leaders@[j] as int);
                assert(spec_leaders(sv)[j] == spec_leaders_from(sv, 0)[j]);
            };
            assert forall|j1: int, j2: int|
                0 <= j1 < j2 < leaders@.len() implies leaders@[j1] < leaders@[j2] by {
                assert(leaders@.map_values(|x: usize| x as int)[j1] == leaders@[j1] as int);
                assert(leaders@.map_values(|x: usize| x as int)[j2] == leaders@[j2] as int);
                assert(spec_leaders_from(sv, 0)[j1] < spec_leaders_from(sv, 0)[j2]);
            };
            if leaders@.len() > 0 {
                assert(sv.len() > 0);
                assert(spec_is_leader(sv, 0));
                assert(leaders@.map_values(|x: usize| x as int)[0] == leaders@[0] as int);
                assert(leaders@[0] == 0);
            }
        }

        // Build one block per leader.
        let mut graph = graph_new();
        let mut blocks_map: HashMap<usize, NodeIndex<usize>> = HashMap::new();
        let mut entry: Option<NodeIndex<usize>> = None;
        let m = leaders.len();
        let ghost bm = spec_blocks(sv);
        proof {
            assert(blocks_view(graph_blocks(graph)) =~= bm.take(0));
        }
        for bi in 0..m
            invariant
                n == instructions@.len(),
                sv == instructions.deep_view(),
                m == leaders@.len(),
                leaders@.map_values(|x: usize| x as int) =~= spec_leaders(sv),
                bm == spec_blocks(sv),
                forall|j: int| 0 <= j < m ==> 0 <= #[trigger] leaders@[j] < n,
                forall|j1: int, j2: int|
                    0 <= j1 < j2 < m ==> leaders@[j1] < leaders@[j2],
                m > 0 ==> leaders@[0] == 0,
                blocks_view(graph_blocks(graph)) =~= bm.take(bi as int),
                bi == 0 ==> entry is None,
                bi > 0 ==> (entry matches Some(ix) && node_index_of(ix) == 0),
                forall|off: usize|
                    #[trigger] blocks_map@.dom().contains(off) <==> exists|k: int|
                        0 <= k < bi && #[trigger] bm[k].start_offset == off as int,
                forall|off: usize|
                    #[trigger] blocks_map@.dom().contains(off) ==> exists|k: int|
                        0 <= k < bi && #[trigger] bm[k].start_offset == off as int
                            && node_index_of(blocks_map@[off]) == k,
        {
            let start = leaders[bi];
            let end = if bi + 1 < m {
                leaders[bi + 1]
            } else {
                n
            };
            proof {
                assert(spec_leaders(sv)[bi as int] == start as int);
                if bi + 1 < m {
                    assert(spec_leaders(sv)[bi as int + 1] == end as int);
                }
                assert(start < end <= n);
            }
            let block_instructions = copy_range(instructions, start, end);
            let last = end - 1;
            proof {
                assert(sv[last as int] == instructions@[last as int]@);
                assert(sv[start as int] == instructions@[start as int]@);
                assert(block_instructions.deep_view().len() == end - start);
                assert(block_instructions@.len() == end - start);
            }
            let last_opcode = block_instructions[end - 1 - start].opcode;
            proof {
                let idx = end - 1 - start as int;
                assert(block_instructions@[idx]@ == block_instructions.deep_view()[idx]);
                assert(block_instructions.deep_view()[idx] == sv.subrange(
                    start as int,
                    end as int,
                )[idx]);
                assert(sv.subrange(start as int, end as int)[idx] == sv[last as int]);
                assert(last_opcode == sv[last as int].opcode);
            }
            let block = BasicBlock {
                start_offset: instructions[start].offset,
                end_offset: instructions[last].offset,
                instructions: block_instructions,
                is_entry: start == 0,
                is_revert: last_opcode == Opcode::REVERT,
                is_return: last_opcode == Opcode::RETURN || last_opcode == Opcode::STOP,
            };
            proof {
                assert(block@ =~= bm[bi as int]);
            }
            let key = block.start_offset;
            let ghost pre_blocks = blocks_view(graph_blocks(graph));
            let node = graph_add_node(&mut graph, block);
            proof {
                assert(blocks_view(graph_blocks(graph)) =~= pre_blocks.push(bm[bi as int]));
                assert(blocks_view(graph_blocks(graph)) =~= bm.take(bi as int + 1));
                assert(node_index_of(node) == bi as int);
            }
            blocks_map.insert(key, node);
            proof {
                assert(bm[bi as int].start_offset == key as int);
                assert(node_index_of(blocks_map@[key]) == bi as int);
                assert(forall|off: usize|
                    #[trigger] blocks_map@.dom().contains(off) && off != key
                        ==> exists|k: int|
                        0 <= k < bi && #[trigger] bm[k].start_offset == off as int
                            && node_index_of(blocks_map@[off]) == k);
            }
            if start == 0 {
                entry = Some(node);
                proof {
                    assert(bi == 0);
                }
            }
            proof {
                if bi > 0 {
                    assert(leaders@[bi as int] > leaders@[0]);
                    assert(start > 0);
                }
            }
        }
        proof {
            assert(blocks_view(graph_blocks(graph)) =~= bm.take(m as int));
            assert(bm.take(m as int) =~= bm);
            if n > 0 {
                lemma_single_entry(sv);
                assert(m > 0);
            }
        }
        ControlFlowGraph { graph, entry, blocks: blocks_map }
    }

    /// The number of basic blocks in the graph.
    pub fn block_count(&self) -> (n: usize)
        ensures
            n == graph_blocks(self.graph).len(),
    {
        graph_node_count(&self.graph)
    }
}

} // verus!
