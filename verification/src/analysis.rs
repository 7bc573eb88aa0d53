//! Pattern-based security analysis of the instruction stream: dispatcher
//! selector detection, dangerous-opcode classification, counter
//! aggregation, and severity-ranked risk indicators.

use vstd::prelude::*;
use vstd::string::StringExecFns;

use crate::cfg::{spec_blocks, ControlFlowGraph};
use crate::instruction::{spec_arg_as_selector, InstrModel, Instruction};
use crate::opcode::{spec_opcode_name, Opcode};
use crate::strfmt::{decimal_string, spec_decimal};

verus! {

/// A security-sensitive opcode occurrence.
#[derive(Debug)]
pub struct DangerousOpcode {
    pub offset: usize,
    pub opcode: String,
    pub risk: String,
}

/// Mathematical model of a [`DangerousOpcode`].
#[verifier::ext_equal]
pub ghost struct DangerModel {
    pub offset: int,
    pub opcode: Seq<char>,
    pub risk: Seq<char>,
}

impl View for DangerousOpcode {
    type V = DangerModel;

    open spec fn view(&self) -> DangerModel {
        DangerModel { offset: self.offset as int, opcode: self.opcode@, risk: self.risk@ }
    }
}

impl DeepView for DangerousOpcode {
    type V = DangerModel;

    open spec fn deep_view(&self) -> DangerModel {
        self.view()
    }
}

/// A qualitative risk finding with a severity rank.
#[derive(Debug)]
pub struct RiskIndicator {
    pub name: String,
    pub severity: String,
    pub description: String,
}

/// Mathematical model of a [`RiskIndicator`].
#[verifier::ext_equal]
pub ghost struct RiskModel {
    pub name: Seq<char>,
    pub severity: Seq<char>,
    pub description: Seq<char>,
}

impl View for RiskIndicator {
    type V = RiskModel;

    open spec fn view(&self) -> RiskModel {
        RiskModel { name: self.name@, severity: self.severity@, description: self.description@ }
    }
}

impl DeepView for RiskIndicator {
    type V = RiskModel;

    open spec fn deep_view(&self) -> RiskModel {
        self.view()
    }
}

/// The security report over one instruction stream.
#[derive(Debug)]
pub struct SecurityAnalysis {
    pub function_selectors: Vec<String>,
    pub dangerous_opcodes: Vec<DangerousOpcode>,
    pub external_calls: usize,
    pub storage_writes: usize,
    pub has_selfdestruct: bool,
    pub has_delegatecall: bool,
    pub has_create: bool,
    pub complexity_score: u32,
    pub risk_indicators: Vec<RiskIndicator>,
}

/// Mathematical model of a [`SecurityAnalysis`].
#[verifier::ext_equal]
pub ghost struct AnalysisModel {
    pub function_selectors: Seq<Seq<char>>,
    pub dangerous_opcodes: Seq<DangerModel>,
    pub external_calls: int,
    pub storage_writes: int,
    pub has_selfdestruct: bool,
    pub has_delegatecall: bool,
    pub has_create: bool,
    pub complexity_score: int,
    pub risk_indicators: Seq<RiskModel>,
}

impl View for SecurityAnalysis {
    type V = AnalysisModel;

    open spec fn view(&self) -> AnalysisModel {
        AnalysisModel {
            function_selectors: self.function_selectors.deep_view(),
            dangerous_opcodes: self.dangerous_opcodes.deep_view(),
            external_calls: self.external_calls as int,
            storage_writes: self.storage_writes as int,
            has_selfdestruct: self.has_selfdestruct,
            has_delegatecall: self.has_delegatecall,
            has_create: self.has_create,
            complexity_score: self.complexity_score as int,
            risk_indicators: self.risk_indicators.deep_view(),
        }
    }
}

/// The opcodes counted as external calls.
pub open spec fn spec_is_external_call(op: Opcode) -> bool {
    op == Opcode::CALL || op == Opcode::CALLCODE || op == Opcode::STATICCALL || op
        == Opcode::DELEGATECALL
}

/// How many external-call opcodes the stream holds.
pub open spec fn spec_external_calls(s: Seq<InstrModel>) -> int
    decreases s.len(),
{
    if s.len() == 0 {
        0
    } else {
        spec_external_calls(s.drop_last()) + if spec_is_external_call(s.last().opcode) {
            1 as int
        } else {
            0
        }
    }
}

/// How many `SSTORE` opcodes the stream holds.
pub open spec fn spec_storage_writes(s: Seq<InstrModel>) -> int
    decreases s.len(),
{
    if s.len() == 0 {
        0
    } else {
        spec_storage_writes(s.drop_last()) + if s.last().opcode == Opcode::SSTORE {
            1 as int
        } else {
            0
        }
    }
}

/// Whether the stream holds a given opcode.
pub open spec fn spec_has_opcode(s: Seq<InstrModel>, op: Opcode) -> bool {
    exists|i: int| 0 <= i < s.len() && s[i].opcode == op
}

/// Whether the stream can destroy the contract.
pub open spec fn spec_has_selfdestruct(s: Seq<InstrModel>) -> bool {
    spec_has_opcode(s, Opcode::SELFDESTRUCT)
}

/// Whether the stream delegates calls.
pub open spec fn spec_has_delegatecall(s: Seq<InstrModel>) -> bool {
    spec_has_opcode(s, Opcode::DELEGATECALL)
}

/// Whether the stream creates contracts.
pub open spec fn spec_has_create(s: Seq<InstrModel>) -> bool {
    spec_has_opcode(s, Opcode::CREATE) || spec_has_opcode(s, Opcode::CREATE2)
}

/// The selector strings discovered by scanning adjacent instruction pairs
/// for a PUSH4 byte followed by an EQ byte, in discovery order, duplicates
/// retained.
pub open spec fn spec_selectors(s: Seq<InstrModel>) -> Seq<Seq<char>>
    decreases s.len(),
{
    if s.len() < 2 {
        Seq::empty()
    } else {
        let pre = spec_selectors(s.drop_last());
        let x = s[s.len() - 2];
        let y = s.last();
        if x.raw_byte == 0x63 && y.raw_byte == 0x14 {
            match spec_arg_as_selector(x) {
                Some(sel) => pre.push(sel),
                None => pre,
            }
        } else {
            pre
        }
    }
}

/// The dangerous-opcode findings one instruction contributes.
pub open spec fn spec_danger_entry(m: InstrModel) -> Seq<DangerModel> {
    if m.opcode == Opcode::CALL || m.opcode == Opcode::CALLCODE || m.opcode == Opcode::STATICCALL {
        seq![
            DangerModel {
                offset: m.offset,
                opcode: spec_opcode_name(m.opcode),
                risk: "External call - potential reentrancy"@,
            },
        ]
    } else if m.opcode == Opcode::DELEGATECALL {
        seq![
            DangerModel {
                offset: m.offset,
                opcode: "DELEGATECALL"@,
                risk: "Delegatecall - storage manipulation risk"@,
            },
        ]
    } else if m.opcode == Opcode::SELFDESTRUCT {
        seq![
            DangerModel {
                offset: m.offset,
                opcode: "SELFDESTRUCT"@,
                risk: "Contract can be destroyed"@,
            },
        ]
    } else if m.opcode == Opcode::CREATE || m.opcode == Opcode::CREATE2 {
        seq![
            DangerModel {
                offset: m.offset,
                opcode: spec_opcode_name(m.opcode),
                risk: "Creates new contract"@,
            },
        ]
    } else {
        Seq::empty()
    }
}

/// All dangerous-opcode findings of the stream, in stream order.
pub open spec fn spec_dangerous(s: Seq<InstrModel>) -> Seq<DangerModel>
    decreases s.len(),
{
    if s.len() == 0 {
        Seq::empty()
    } else {
        spec_dangerous(s.drop_last()) + spec_danger_entry(s.last())
    }
}

/// The critical indicator recorded for each `SELFDESTRUCT` occurrence.
pub open spec fn spec_selfdestruct_risk() -> RiskModel {
    RiskModel {
        name: "Self-destruct capability"@,
        severity: "critical"@,
        description: "Contract can be destroyed, all funds sent to owner"@,
    }
}

/// The indicators accumulated during the per-instruction pass: one
/// critical entry per `SELFDESTRUCT`.
pub open spec fn spec_sd_risks(s: Seq<InstrModel>) -> Seq<RiskModel>
    decreases s.len(),
{
    if s.len() == 0 {
        Seq::empty()
    } else {
        spec_sd_risks(s.drop_last()) + if s.last().opcode == Opcode::SELFDESTRUCT {
            seq![spec_selfdestruct_risk()]
        } else {
            Seq::empty()
        }
    }
}

/// The full indicator list: the per-instruction critical entries, then the
/// delegatecall indicator, then the external-call-density indicator.
pub open spec fn spec_risks(s: Seq<InstrModel>) -> Seq<RiskModel> {
    spec_sd_risks(s) + (if spec_has_delegatecall(s) {
        seq![
            RiskModel {
                name: "Delegatecall usage"@,
                severity: "high"@,
                description: "Contract uses delegatecall - verify upgrade mechanism"@,
            },
        ]
    } else {
        Seq::<RiskModel>::empty()
    }) + (if spec_external_calls(s) > 5 {
        seq![
            RiskModel {
                name: "Multiple external calls"@,
                severity: "medium"@,
                description: spec_decimal(spec_external_calls(s) as nat)
                    + " external calls - check for reentrancy"@,
            },
        ]
    } else {
        Seq::<RiskModel>::empty()
    })
}

/// The complexity score: `10·B + 20·E + 5·W` over block, external-call and
/// storage-write counts, saturating at the 32-bit maximum.
pub open spec fn spec_complexity(s: Seq<InstrModel>) -> int {
    let raw = 10 * spec_blocks(s).len() + 20 * spec_external_calls(s) + 5 * spec_storage_writes(
        s,
    );
    if raw > 0xFFFF_FFFF {
        0xFFFF_FFFF
    } else {
        raw
    }
}

/// The whole security report as a function of the instruction stream.
pub open spec fn spec_analyze(s: Seq<InstrModel>) -> AnalysisModel {
    AnalysisModel {
        function_selectors: spec_selectors(s),
        dangerous_opcodes: spec_dangerous(s),
        external_calls: spec_external_calls(s),
        storage_writes: spec_storage_writes(s),
        has_selfdestruct: spec_has_selfdestruct(s),
        has_delegatecall: spec_has_delegatecall(s),
        has_create: spec_has_create(s),
        complexity_score: spec_complexity(s),
        risk_indicators: spec_risks(s),
    }
}

/// Extending a prefix by one instruction extends opcode presence by that
/// instruction's opcode.
pub(crate) proof fn lemma_has_opcode_step(s: Seq<InstrModel>, i: int, op: Opcode)
    requires
        0 <= i < s.len(),
    ensures
        spec_has_opcode(s.take(i + 1), op) == (spec_has_opcode(s.take(i), op) || s[i].opcode
            == op),
{
    if spec_has_opcode(s.take(i), op) {
        let k = choose|k: int| 0 <= k < i && (#[trigger] s.take(i)[k]).opcode == op;
        assert(s.take(i + 1)[k].opcode == op);
    }
    if s[i].opcode == op {
        assert(s.take(i + 1)[i].opcode == op);
    }
    if spec_has_opcode(s.take(i + 1), op) {
        let k = choose|k: int| 0 <= k < i + 1 && (#[trigger] s.take(i + 1)[k]).opcode == op;
        if k < i {
            assert(s.take(i)[k].opcode == op);
        } else {
            assert(s[i].opcode == op);
        }
    }
}

/// The analysis is deterministic: any two reports of the same stream are
/// equal, because the report is a function of the stream alone.
pub proof fn lemma_analyze_deterministic(s: Seq<InstrModel>, a1: AnalysisModel, a2: AnalysisModel)
    requires
        a1 == spec_analyze(s),
        a2 == spec_analyze(s),
    ensures
        a1 == a2,
{
}

/// The pattern-based security analyzer.
pub struct SecurityAnalyzer;

impl SecurityAnalyzer {
    /// Produce the security report of an instruction stream. Total: every
    /// stream yields a report, and the report equals [`spec_analyze`] of
    /// the stream.
    pub fn analyze(instructions: &[Instruction]) -> (r: SecurityAnalysis)
        ensures
            r@ == spec_analyze(instructions.deep_view()),
    {
        let ghost sv = instructions.deep_view();
        let n = instructions.len();
        proof {
            assert(sv.len() == n);
        }

        // Selector scan over adjacent pairs.
        let mut selectors: Vec<String> = Vec::new();
        proof {
            assert(selectors.deep_view() =~= Seq::<Seq<char>>::empty());
            if n >= 1 {
                assert(sv.take(1).len() < 2);
            }
        }
        if n >= 2 {
            for j in 0..n - 1
                invariant
                    n == instructions@.len() >= 2,
                    sv == instructions.deep_view(),
                    selectors.deep_view() =~= spec_selectors(sv.take(j as int + 1)),
            {
                let ghost pre = selectors.deep_view();
                proof {
                    assert(sv[j as int] == instructions@[j as int]@);
                    assert(sv[j as int + 1] == instructions@[j as int + 1]@);
                    assert(sv.take(j as int + 2).drop_last() =~= sv.take(j as int + 1));
                    assert(sv.take(j as int + 2).last() == sv[j as int + 1]);
                    assert(sv.take(j as int + 2)[j as int] == sv[j as int]);
                }
                if instructions[j].raw_byte == 0x63 && instructions[j + 1].raw_byte == 0x14 {
                    match instructions[j].arg_as_selector() {
                        Some(sel) => {
                            let ghost selv = sel@;
                            selectors.push(sel);
                            proof {
                                assert(selectors.deep_view() =~= pre.push(selv));
                            }
                        },
                        None => {},
                    }
                }
                proof {
                    assert(selectors.deep_view() =~= spec_selectors(sv.take(j as int + 2)));
                }
            }
        }
        proof {
            assert(sv.take(n as int) =~= sv);
            if n < 2 {
                assert(spec_selectors(sv) =~= Seq::<Seq<char>>::empty());
            }
            assert(selectors.deep_view() =~= spec_selectors(sv));
        }

        // Per-instruction pass.
        let mut dangerous: Vec<DangerousOpcode> = Vec::new();
        let mut external_calls: usize = 0;
        let mut storage_writes: usize = 0;
        let mut has_selfdestruct = false;
        let mut has_delegatecall = false;
        let mut has_create = false;
        let mut risks: Vec<RiskIndicator> = Vec::new();
        proof {
            assert(dangerous.deep_view() =~= Seq::<DangerModel>::empty());
            assert(risks.deep_view() =~= Seq::<RiskModel>::empty());
            assert(sv.take(0) =~= Seq::<InstrModel>::empty());
        }
        for i in 0..n
            invariant
                n == instructions@.len(),
                sv == instructions.deep_view(),
                external_calls <= i,
                storage_writes <= i,
                external_calls == spec_external_calls(sv.take(i as int)),
                storage_writes == spec_storage_writes(sv.take(i as int)),
                has_selfdestruct == spec_has_selfdestruct(sv.take(i as int)),
                has_delegatecall == spec_has_delegatecall(sv.take(i as int)),
                has_create == spec_has_create(sv.take(i as int)),
                dangerous.deep_view() =~= spec_dangerous(sv.take(i as int)),
                risks.deep_view() =~= spec_sd_risks(sv.take(i as int)),
        {
            let ghost pre_d = dangerous.deep_view();
            let ghost pre_r = risks.deep_view();
            proof {
                assert(sv[i as int] == instructions@[i as int]@);
                assert(sv.take(i as int + 1).drop_last() =~= sv.take(i as int));
                assert(sv.take(i as int + 1).last() == sv[i as int]);
            }
            let instr = &instructions[i];
            let ghost m = sv[i as int];
            match instr.opcode {
                Opcode::CALL | Opcode::CALLCODE | Opcode::STATICCALL => {
                    external_calls = external_calls + 1;
                    dangerous.push(
                        DangerousOpcode {
                            offset: instr.offset,
                            opcode: instr.opcode.name(),
                            risk: String::from_str("External call - potential reentrancy"),
                        },
                    );
                    proof {
                        assert(dangerous.deep_view() =~= pre_d + spec_danger_entry(m));
                    }
                },
                Opcode::DELEGATECALL => {
                    has_delegatecall = true;
                    external_calls = external_calls + 1;
                    dangerous.push(
                        DangerousOpcode {
                            offset: instr.offset,
                            opcode: String::from_str("DELEGATECALL"),
                            risk: String::from_str("Delegatecall - storage manipulation risk"),
                        },
                    );
                    proof {
                        assert(dangerous.deep_view() =~= pre_d + spec_danger_entry(m));
                    }
                },
                Opcode::SSTORE => {
                    storage_writes = storage_writes + 1;
                },
                Opcode::SELFDESTRUCT => {
                    has_selfdestruct = true;
                    dangerous.push(
                        DangerousOpcode {
                            offset: instr.offset,
                            opcode: String::from_str("SELFDESTRUCT"),
                            risk: String::from_str("Contract can be destroyed"),
                        },
                    );
                    risks.push(
                        RiskIndicator {
                            name: String::from_str("Self-destruct capability"),
                            severity: String::from_str("critical"),
                            description: String::from_str(
                                "Contract can be destroyed, all funds sent to owner",
                            ),
                        },
                    );
                    proof {
                        assert(dangerous.deep_view() =~= pre_d + spec_danger_entry(m));
                        assert(risks.deep_view() =~= pre_r + seq![spec_selfdestruct_risk()]);
                    }
                },
                Opcode::CREATE | Opcode::CREATE2 => {
                    has_create = true;
                    dangerous.push(
                        DangerousOpcode {
                            offset: instr.offset,
                            opcode: instr.opcode.name(),
                            risk: String::from_str("Creates new contract"),
                        },
                    );
                    proof {
                        assert(dangerous.deep_view() =~= pre_d + spec_danger_entry(m));
                    }
                },
                _ => {},
            }
            proof {
                lemma_has_opcode_step(sv, i as int, Opcode::SELFDESTRUCT);
                lemma_has_opcode_step(sv, i as int, Opcode::DELEGATECALL);
                lemma_has_opcode_step(sv, i as int, Opcode::CREATE);
                lemma_has_opcode_step(sv, i as int, Opcode::CREATE2);
                assert(dangerous.deep_view() =~= spec_dangerous(sv.take(i as int + 1)));
                assert(risks.deep_view() =~= spec_sd_risks(sv.take(i as int + 1)));
            }
        }
        proof {
            assert(sv.take(n as int) =~= sv);
        }

        // Complexity over the block partition.
        let cfg = ControlFlowGraph::build(instructions);
        let block_count = cfg.block_count();
        proof {
            assert(block_count == spec_blocks(sv).len());
        }
        let complexity = saturating_complexity(block_count, external_calls, storage_writes);
        proof {
            assert(complexity as int == spec_complexity(sv));
        }

        // Post-pass indicators.
        if has_delegatecall {
            risks.push(
                RiskIndicator {
                    name: String::from_str("Delegatecall usage"),
                    severity: String::from_str("high"),
                    description: String::from_str(
                        "Contract uses delegatecall - verify upgrade mechanism",
                    ),
                },
            );
        }
        if external_calls > 5 {
            let mut description = decimal_string(external_calls);
            description.append(" external calls - check for reentrancy");
            risks.push(
                RiskIndicator {
                    name: String::from_str("Multiple external calls"),
                    severity: String::from_str("medium"),
                    description,
                },
            );
        }
        proof {
            assert(risks.deep_view() =~= spec_risks(sv));
        }

        let r = SecurityAnalysis {
            function_selectors: selectors,
            dangerous_opcodes: dangerous,
            external_calls,
            storage_writes,
            has_selfdestruct,
            has_delegatecall,
            has_create,
            complexity_score: complexity,
            risk_indicators: risks,
        };
        proof {
            assert(r@ =~= spec_analyze(sv));
        }
        r
    }
}

/// Compute `10·b + 20·e + 5·w` saturating at the 32-bit maximum.
fn saturating_complexity(b: usize, e: usize, w: usize) -> (r: u32)
    ensures
        ({
            let raw = 10 * (b as int) + 20 * (e as int) + 5 * (w as int);
            r as int == if raw > 0xFFFF_FFFF {
                0xFFFF_FFFF as int
            } else {
                raw
            }
        }),
{
    let cap: u64 = 0xFFFF_FFFF;
    let bc: u64 = if b as u64 > cap {
        cap
    } else {
        b as u64
    };
    let ec: u64 = if e as u64 > cap {
        cap
    } else {
        e as u64
    };
    let wc: u64 = if w as u64 > cap {
        cap
    } else {
        w as u64
    };
    let total: u64 = 10 * bc + 20 * ec + 5 * wc;
    if total > cap {
        cap as u32
    } else {
        total as u32
    }
}

} // verus!
