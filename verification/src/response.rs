//! The wire-facing request and response shapes of the analysis endpoint,
//! and the verified assembly of an analysis response from raw bytecode.

use vstd::prelude::*;
use vstd::string::StringExecFns;

use crate::analysis::{
    lemma_has_opcode_step, spec_complexity, spec_external_calls, spec_has_delegatecall,
    spec_has_opcode, spec_has_selfdestruct, spec_risks, spec_selectors, spec_storage_writes,
    RiskModel, SecurityAnalyzer,
};
use crate::cfg::{blocks_view, graph_blocks, spec_blocks, ControlFlowGraph};
use crate::disasm::{spec_disassemble, Disassembler};
use crate::instruction::InstrModel;
use crate::opcode::{spec_opcode_name, Opcode};
use crate::strfmt::{lemma_lex_le_total, lemma_lex_le_trans, lex_le, str_lex_le};

verus! {

/// An analysis request body: bytecode as a hex string.
pub struct AnalyzeRequest {
    pub bytecode: String,
}

/// A health-check response body.
pub struct HealthResponse {
    pub status: String,
    pub service: String,
    pub version: String,
}

/// An error response body.
pub struct ErrorResponse {
    pub error: String,
    pub details: Option<String>,
}

/// A risk finding as serialized in an analysis response.
#[derive(Debug)]
pub struct RiskIndicator {
    pub name: String,
    pub severity: String,
    pub description: String,
}

impl View for RiskIndicator {
    type V = RiskModel;

    open spec fn view(&self) -> RiskModel {
        RiskModel { name: self.name@, severity: self.severity@, description: self.description@ }
    }
}

impl DeepView for RiskIndicator {
    type V = RiskModel;

    open spec fn deep_view(&self) -> RiskModel {
        self.view()
    }
}

/// A successful analysis response body.
pub struct AnalyzeResponse {
    pub success: bool,
    pub opcodes: Vec<String>,
    pub functions: Vec<String>,
    pub selectors: Vec<String>,
    pub is_proxy: bool,
    pub has_sstore: bool,
    pub has_call: bool,
    pub has_delegatecall: bool,
    pub has_selfdestruct: bool,
    pub complexity: i32,
    pub warnings: Vec<String>,
    pub risk_indicators: Vec<RiskIndicator>,
    pub instruction_count: usize,
    pub block_count: usize,
}

/// Whether the stream holds the deprecated `CALLCODE` opcode.
pub open spec fn spec_has_callcode(s: Seq<InstrModel>) -> bool {
    spec_has_opcode(s, Opcode::CALLCODE)
}

/// The warnings derived from the capability flags, in a fixed order.
pub open spec fn spec_warnings(s: Seq<InstrModel>) -> Seq<Seq<char>> {
    (if spec_has_selfdestruct(s) {
        seq!["Contract contains SELFDESTRUCT - can be destroyed"@]
    } else {
        Seq::<Seq<char>>::empty()
    }) + (if spec_has_delegatecall(s) {
        seq!["Contract uses DELEGATECALL - potential proxy or upgrade pattern"@]
    } else {
        Seq::<Seq<char>>::empty()
    }) + (if spec_has_callcode(s) {
        seq!["Contract uses deprecated CALLCODE opcode"@]
    } else {
        Seq::<Seq<char>>::empty()
    })
}

/// Whether some instruction of the stream bears the given opcode name.
pub open spec fn spec_name_listed(s: Seq<InstrModel>, name: Seq<char>) -> bool {
    exists|k: int| 0 <= k < s.len() && spec_opcode_name((#[trigger] s[k]).opcode) == name
}

/// Strictly ascending in the lexicographic order: sorted with no
/// duplicates.
pub open spec fn spec_sorted_distinct(names: Seq<Seq<char>>) -> bool {
    forall|i: int, j: int|
        0 <= i < j < names.len() ==> lex_le(#[trigger] names[i], #[trigger] names[j]) && names[i]
            != names[j]
}

/// The response's complexity value: the score clamped to the signed 32-bit
/// maximum.
pub open spec fn spec_complexity_i32(s: Seq<InstrModel>) -> int {
    if spec_complexity(s) > 0x7FFF_FFFF {
        0x7FFF_FFFF
    } else {
        spec_complexity(s)
    }
}

/// Whether a vector of strings holds the given character sequence.
fn contains_string(v: &Vec<String>, s: &String) -> (r: bool)
    ensures
        r == v.deep_view().contains(s@),
{
    let n = v.len();
    let mut k: usize = 0;
    while k < n
        invariant
            k <= n,
            n == v@.len(),
            forall|t: int| 0 <= t < k ==> #[trigger] v.deep_view()[t] != s@,
        decreases n - k,
    {
        if s.eq(&v[k]) {
            proof {
                assert(v.deep_view()[k as int] == s@);
            }
            return true;
        }
        k = k + 1;
    }
    proof {
        if v.deep_view().contains(s@) {
            let t = choose|t: int| 0 <= t < v.deep_view().len() && #[trigger] v.deep_view()[t]
                == s@;
            assert(false);
        }
    }
    false
}

/// Insert a string into a strictly sorted vector, keeping it strictly
/// sorted.
fn insert_sorted(out: &mut Vec<String>, name: String)
    requires
        spec_sorted_distinct(old(out).deep_view()),
        !old(out).deep_view().contains(name@),
    ensures
        spec_sorted_distinct(final(out).deep_view()),
        forall|x: Seq<char>|
            #[trigger] final(out).deep_view().contains(x) <==> (old(out).deep_view().contains(x)
                || x == name@),
{
    let ghost ov = out.deep_view();
    let ghost nm = name@;
    let n = out.len();
    let mut idx: usize = 0;
    while idx < n && str_lex_le(out[idx].as_str(), name.as_str())
        invariant
            idx <= n,
            n == out@.len(),
            ov == out.deep_view(),
            nm == name@,
            forall|t: int| 0 <= t < idx ==> lex_le(#[trigger] ov[t], nm),
        decreases n - idx,
    {
        idx = idx + 1;
    }
    proof {
        if idx < n {
            assert(!lex_le(ov[idx as int], nm));
            lemma_lex_le_total(ov[idx as int], nm);
            assert(lex_le(nm, ov[idx as int]));
        }
    }
    out.insert(idx, name);
    proof {
        let nv = out.deep_view();
        assert(nv =~= ov.insert(idx as int, nm));
        let i = idx as int;
        assert forall|a: int, b: int| 0 <= a < b < nv.len() implies lex_le(#[trigger] nv[a], #[trigger] nv[b])
            && nv[a] != nv[b] by {
            if b < i {
                assert(nv[a] == ov[a] && nv[b] == ov[b]);
            } else if a < i && b == i {
                assert(nv[a] == ov[a] && nv[b] == nm);
                assert(lex_le(ov[a], nm));
                assert(ov.contains(ov[a]));
            } else if a < i && b > i {
                assert(nv[a] == ov[a] && nv[b] == ov[b - 1]);
            } else if a == i {
                assert(nv[a] == nm && nv[b] == ov[b - 1]);
                assert(b - 1 >= i);
                if b - 1 == i {
                    assert(lex_le(nm, ov[i]));
                } else {
                    assert(lex_le(ov[i], ov[b - 1]));
                    lemma_lex_le_trans(nm, ov[i], ov[b - 1]);
                }
                assert(ov.contains(ov[b - 1]));
            } else {
                assert(nv[a] == ov[a - 1] && nv[b] == ov[b - 1]);
            }
        };
        assert forall|x: Seq<char>| #[trigger] nv.contains(x) implies (ov.contains(x) || x
            == nm) by {
            let t = choose|t: int| 0 <= t < nv.len() && #[trigger] nv[t] == x;
            if t < i {
                assert(ov[t] == x);
            } else if t == i {
            } else {
                assert(ov[t - 1] == x);
            }
        };
        assert forall|x: Seq<char>| (ov.contains(x) || x == nm) implies #[trigger] nv.contains(
            x,
        ) by {
            if ov.contains(x) {
                let t = choose|t: int| 0 <= t < ov.len() && #[trigger] ov[t] == x;
                if t < i {
                    assert(nv[t] == x);
                } else {
                    assert(nv[t + 1] == x);
                }
            } else {
                assert(nv[i] == x);
            }
        };
    }
}

/// Assemble the analysis response for raw bytecode.
///
/// Every field is pinned to the disassembly of the input: the selector
/// list, capability flags, clamped complexity, warnings and risk
/// indicators equal their specifications, the reserved `functions` list is
/// empty, and `opcodes` is the strictly sorted list of exactly the opcode
/// names appearing in the stream.
pub fn analyze_bytecode(bytecode: &[u8]) -> (r: AnalyzeResponse)
    ensures
        r.success == true,
        spec_sorted_distinct(r.opcodes.deep_view()),
        forall|x: Seq<char>|
            #[trigger] r.opcodes.deep_view().contains(x) <==> spec_name_listed(
                spec_disassemble(bytecode@),
                x,
            ),
        r.functions@.len() == 0,
        r.selectors.deep_view() == spec_selectors(spec_disassemble(bytecode@)),
        r.is_proxy == spec_has_delegatecall(spec_disassemble(bytecode@)),
        r.has_sstore == (spec_storage_writes(spec_disassemble(bytecode@)) > 0),
        r.has_call == (spec_external_calls(spec_disassemble(bytecode@)) > 0),
        r.has_delegatecall == spec_has_delegatecall(spec_disassemble(bytecode@)),
        r.has_selfdestruct == spec_has_selfdestruct(spec_disassemble(bytecode@)),
        r.complexity as int == spec_complexity_i32(spec_disassemble(bytecode@)),
        r.warnings.deep_view() == spec_warnings(spec_disassemble(bytecode@)),
        r.risk_indicators.deep_view() == spec_risks(spec_disassemble(bytecode@)),
        r.instruction_count == spec_disassemble(bytecode@).len(),
        r.block_count == spec_blocks(spec_disassemble(bytecode@)).len(),
{
    let instructions = match Disassembler::disassemble(bytecode) {
        Ok(v) => v,
        Err(_) => {
            proof {
                assert(false);
            }
            Vec::new()
        },
    };
    let instr_slice = instructions.as_slice();
    proof {
        assert(instr_slice.deep_view() =~= instructions.deep_view());
    }
    let ghost sv = spec_disassemble(bytecode@);
    let cfg = ControlFlowGraph::build(instr_slice);
    let security = SecurityAnalyzer::analyze(instr_slice);
    let block_count = cfg.block_count();
    proof {
        assert(blocks_view(graph_blocks(cfg.graph)).len() == graph_blocks(cfg.graph).len());
        assert(block_count == spec_blocks(sv).len());
    }
    let n = instructions.len();

    // The distinct opcode names, kept sorted as they are discovered.
    let mut opcodes: Vec<String> = Vec::new();
    proof {
        assert(sv.take(0) =~= Seq::<InstrModel>::empty());
    }
    for i in 0..n
        invariant
            n == instructions@.len(),
            sv == instructions.deep_view(),
            spec_sorted_distinct(opcodes.deep_view()),
            forall|x: Seq<char>|
                #[trigger] opcodes.deep_view().contains(x) <==> spec_name_listed(
                    sv.take(i as int),
                    x,
                ),
    {
        let ghost pre = opcodes.deep_view();
        proof {
            assert(sv[i as int] == instructions@[i as int]@);
        }
        let nm = instructions[i].opcode.name();
        let ghost nmv = nm@;
        let present = contains_string(&opcodes, &nm);
        if !present {
            insert_sorted(&mut opcodes, nm);
        }
        proof {
            assert(nmv == spec_opcode_name(sv[i as int].opcode));
            assert forall|x: Seq<char>| #[trigger] opcodes.deep_view().contains(x)
                implies spec_name_listed(sv.take(i as int + 1), x) by {
                if pre.contains(x) {
                    assert(spec_name_listed(sv.take(i as int), x));
                    let k = choose|k: int|
                        0 <= k < sv.take(i as int).len() && spec_opcode_name(
                            (#[trigger] sv.take(i as int)[k]).opcode,
                        ) == x;
                    assert(sv.take(i as int + 1)[k] == sv.take(i as int)[k]);
                } else {
                    assert(x == nmv);
                    assert(sv.take(i as int + 1)[i as int] == sv[i as int]);
                }
            };
            assert forall|x: Seq<char>| spec_name_listed(sv.take(i as int + 1), x)
                implies #[trigger] opcodes.deep_view().contains(x) by {
                let k = choose|k: int|
                    0 <= k < sv.take(i as int + 1).len() && spec_opcode_name(
                        (#[trigger] sv.take(i as int + 1)[k]).opcode,
                    ) == x;
                if k < i {
                    assert(sv.take(i as int)[k] == sv.take(i as int + 1)[k]);
                    assert(spec_name_listed(sv.take(i as int), x));
                    assert(pre.contains(x));
                } else {
                    assert(x == nmv);
                }
            };
        }
    }
    proof {
        assert(sv.take(n as int) =~= sv);
    }

    // CALLCODE presence for the deprecation warning.
    let mut has_callcode = false;
    for i in 0..n
        invariant
            n == instructions@.len(),
            sv == instructions.deep_view(),
            has_callcode == spec_has_callcode(sv.take(i as int)),
    {
        proof {
            assert(sv[i as int] == instructions@[i as int]@);
            lemma_has_opcode_step(sv, i as int, Opcode::CALLCODE);
        }
        if instructions[i].opcode == Opcode::CALLCODE {
            has_callcode = true;
        }
    }

    // Warnings in their fixed order.
    let mut warnings: Vec<String> = Vec::new();
    if security.has_selfdestruct {
        warnings.push(String::from_str("Contract contains SELFDESTRUCT - can be destroyed"));
    }
    if security.has_delegatecall {
        warnings.push(
            String::from_str("Contract uses DELEGATECALL - potential proxy or upgrade pattern"),
        );
    }
    if has_callcode {
        warnings.push(String::from_str("Contract uses deprecated CALLCODE opcode"));
    }
    proof {
        assert(warnings.deep_view() =~= spec_warnings(sv));
    }

    // Risk indicators, converted to the wire shape.
    let mut risk_indicators: Vec<RiskIndicator> = Vec::new();
    let rn = security.risk_indicators.len();
    for t in 0..rn
        invariant
            rn == security.risk_indicators@.len(),
            security.risk_indicators.deep_view() == spec_risks(sv),
            risk_indicators.deep_view() =~= security.risk_indicators.deep_view().take(t as int),
    {
        let ghost pre_r = risk_indicators.deep_view();
        let source = &security.risk_indicators[t];
        let ghost m = security.risk_indicators.deep_view()[t as int];
        proof {
            assert(m == source@);
        }
        let converted = RiskIndicator {
            name: source.name.clone(),
            severity: source.severity.clone(),
            description: source.description.clone(),
        };
        proof {
            assert(converted@ == m);
        }
        risk_indicators.push(converted);
        proof {
            assert(risk_indicators.deep_view() =~= pre_r.push(m));
            assert(risk_indicators.deep_view() =~= security.risk_indicators.deep_view().take(
                t as int + 1,
            ));
        }
    }
    proof {
        assert(security.risk_indicators.deep_view().take(rn as int)
            =~= security.risk_indicators.deep_view());
    }

    let complexity: i32 = if security.complexity_score > 0x7FFF_FFFF {
        0x7FFF_FFFF
    } else {
        security.complexity_score as i32
    };

    AnalyzeResponse {
        success: true,
        opcodes,
        functions: Vec::new(),
        selectors: security.function_selectors,
        is_proxy: security.has_delegatecall,
        has_sstore: security.storage_writes > 0,
        has_call: security.external_calls > 0,
        has_delegatecall: security.has_delegatecall,
        has_selfdestruct: security.has_selfdestruct,
        complexity,
        warnings,
        risk_indicators,
        instruction_count: n,
        block_count,
    }
}

} // verus!
