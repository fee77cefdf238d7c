//! Normalization: shaping a tool's raw output into the metric schema.
//!
//! A parser interprets raw bytes and never mutates them. What it cannot shape
//! into a record is kept in a separate bucket, never guessed and never treated as
//! a verifier anomaly.
use vstd::prelude::*;
use crate::metrics::{
    CoreMetrics, CounterfactualLayer, CoverageDelta, Expectation, ExpectationFlag,
    HelperArgViolation, JitInterpDiff, Processed, RegSnapshot, RegState, Tnum, VerifierDecision,
};
use crate::text::{eq_lit, lines, lines_of, string_from, trim, trim_chars};
use crate::verifier_log::{decode_lossy, utf8_lossy};

verus! {

/// One normalized record: a CORE observation plus the opt-in counterfactual layer
/// and the expectation flag that sit on top of it.
#[derive(Debug, Clone, PartialEq)]
pub struct MetricRecord {
    /// Raw CORE observation.
    pub core: CoreMetrics,
    /// Opt-in counterfactual layer (default off; never mutates `core`).
    pub counterfactual: CounterfactualLayer,
    /// Confirmation-bias probe (default: no prediction).
    pub expectation: ExpectationFlag,
    /// Partial-parse caveats for this record (empty = fully recognized).
    pub parse_notes: Vec<String>,
    /// Which program produced this observation (the tool's own label).
    pub source_label: Option<String>,
}

/// Why a native block produced no record.
#[derive(Debug, Clone, Copy, PartialEq, Eq, Structural)]
pub enum UnparsedKind {
    /// There was no observation to make: the tool produced no verifier output.
    NotObserved,
    /// The parser was given verifier output and could not shape it.
    Unrecognized,
}

/// A native block that produced no record.
#[derive(Debug, Clone, PartialEq, Eq)]
pub struct UnparsedBlock {
    /// Short label for triage.
    pub label: String,
    /// Whether there was nothing to observe, or the parser failed on real output.
    pub kind: UnparsedKind,
    /// Why the block could not be turned into a record.
    pub reason: String,
}

/// One parsed CORE observation plus any partial-parse caveats for it.
pub struct ParsedRecord {
    /// The CORE observation.
    pub core: CoreMetrics,
    /// Partial-parse caveats (empty = fully recognized).
    pub notes: Vec<String>,
    /// The tool's label for the program this came from.
    pub label: Option<String>,
}

/// A parser's output: the records it could shape, and the blocks it could not.
pub struct ParseOutput {
    /// Records the parser produced.
    pub records: Vec<ParsedRecord>,
    /// Blocks the parser could not shape into a trustworthy record.
    pub unparsed: Vec<UnparsedBlock>,
}

/// Converts one tool's native output into CORE observations, keeping whatever it
/// could not interpret in a separate unparsed bucket.
pub trait RecordParser {
    /// Parses `bytes` (one collected file from `tool`).
    fn parse(&self, tool: &str, bytes: &[u8]) -> ParseOutput;
}

/// A parser that yields nothing (no native format wired up).
pub struct UnimplementedParser;

impl RecordParser for UnimplementedParser {
    fn parse(&self, tool: &str, bytes: &[u8]) -> (out: ParseOutput)
        ensures
            out.records@.len() == 0,
            out.unparsed@.len() == 0,
    {
        ParseOutput { records: Vec::new(), unparsed: Vec::new() }
    }
}

/// The lines of `ls` that hold more than whitespace, in order.
pub open spec fn nonblank(ls: Seq<Seq<char>>) -> Seq<Seq<char>>
    decreases ls.len(),
{
    if ls.len() == 0 {
        Seq::empty()
    } else if trim(ls.last()).len() > 0 {
        nonblank(ls.drop_last()).push(ls.last())
    } else {
        nonblank(ls.drop_last())
    }
}

/// The record lines of the reference format: the non-blank lines of the decoded bytes.
pub open spec fn reference_lines(bytes: Seq<u8>) -> Seq<Seq<char>> {
    nonblank(lines(utf8_lossy(bytes)))
}

/// Whether a reference line is the `buggy` sentinel.
pub open spec fn is_sentinel(line: Seq<char>) -> bool {
    trim(line) == "buggy"@
}

/// The single register state of a reference record: a scalar R0 in `[0, 255]`
/// whose tnum is well-formed (`value 0`) or malformed (`value 1` under mask `0xff`).
pub open spec fn reference_reg(r: RegState, buggy: bool) -> bool {
    &&& r.reg == 0
    &&& r.reg_type@ == "scalar"@
    &&& r.tnum == (Tnum { value: if buggy { 1 } else { 0 }, mask: 0xff })
    &&& r.umin == 0 && r.umax == 255 && r.smin == 0 && r.smax == 255
    &&& r.u32_min is None && r.u32_max is None && r.s32_min is None && r.s32_max is None
    &&& r.ptr_off is None
    &&& !r.bounds_from_log
}

/// The record the reference format yields for one line: an accepted program with
/// every CORE field filled; the sentinel adds a malformed tnum, a JIT/interpreter
/// return-value divergence and one helper argument-type violation.
pub open spec fn reference_core(c: CoreMetrics, buggy: bool) -> bool {
    &&& c.verifier_decision is Accept
    &&& c.register_evolution@.len() == 1
    &&& c.register_evolution@[0].insn_idx == 0
    &&& c.register_evolution@[0].regs@.len() == 1
    &&& reference_reg(c.register_evolution@[0].regs@[0], buggy)
    &&& c.processed == (Processed { insn_processed: 12, states_processed: 3 })
    &&& c.jit_interp_diff == Some(
        JitInterpDiff { retval_jit: if buggy { 1 } else { 0 }, retval_interp: 0, data_out_equal: true },
    )
    &&& c.coverage_delta == (CoverageDelta { new_bb: 0, exec_n: 0 })
    &&& c.helper_arg_observations@.len() == 0
    &&& c.runtime_samples@.len() == 0
    &&& c.intended_retval is None
    &&& c.multi_path is None
    &&& c.store_site is None
    &&& c.prune_probe is None
    &&& c.liveness_gate is None
    &&& if buggy {
        &&& c.helper_arg_violations@.len() == 1
        &&& c.helper_arg_violations@[0].helper@ == "bpf_map_lookup_elem"@
        &&& c.helper_arg_violations@[0].arg_index == 1
        &&& c.helper_arg_violations@[0].expected@ == "PTR_TO_MAP_KEY"@
        &&& c.helper_arg_violations@[0].observed@ == "SCALAR_VALUE"@
    } else {
        c.helper_arg_violations@.len() == 0
    }
}

/// Synthetic reference parser: the known-good transform behind the golden
/// regression fixture. Each non-blank line is one record; the line `buggy`
/// yields a record that trips every downstream signal, any other line a clean,
/// well-formed accepted record. A real tool parser must reproduce this mapping,
/// which is what tells a parser regression apart from a verifier anomaly.
pub struct ReferenceParser;

fn reference_record(buggy: bool) -> (c: CoreMetrics)
    ensures
        reference_core(c, buggy),
{
    let reg = RegState {
        reg: 0,
        reg_type: string_from("scalar"),
        tnum: Tnum { value: if buggy { 1 } else { 0 }, mask: 0xff },
        umin: 0,
        umax: 255,
        smin: 0,
        smax: 255,
        u32_min: None,
        u32_max: None,
        s32_min: None,
        s32_max: None,
        ptr_off: None,
        bounds_from_log: false,
    };
    let mut regs: Vec<RegState> = Vec::new();
    regs.push(reg);
    let mut evolution: Vec<RegSnapshot> = Vec::new();
    evolution.push(RegSnapshot { insn_idx: 0, regs });
    let mut violations: Vec<HelperArgViolation> = Vec::new();
    if buggy {
        violations.push(
            HelperArgViolation {
                helper: string_from("bpf_map_lookup_elem"),
                arg_index: 1,
                expected: string_from("PTR_TO_MAP_KEY"),
                observed: string_from("SCALAR_VALUE"),
            },
        );
    }
    CoreMetrics {
        verifier_decision: VerifierDecision::Accept,
        register_evolution: evolution,
        processed: Processed { insn_processed: 12, states_processed: 3 },
        jit_interp_diff: Some(
            JitInterpDiff { retval_jit: if buggy { 1 } else { 0 }, retval_interp: 0, data_out_equal: true },
        ),
        coverage_delta: CoverageDelta { new_bb: 0, exec_n: 0 },
        helper_arg_violations: violations,
        helper_arg_observations: Vec::new(),
        runtime_samples: Vec::new(),
        intended_retval: None,
        multi_path: None,
        store_site: None,
        prune_probe: None,
        liveness_gate: None,
    }
}

impl RecordParser for ReferenceParser {
    fn parse(&self, tool: &str, bytes: &[u8]) -> (out: ParseOutput)
        ensures
            out.unparsed@.len() == 0,
            out.records@.len() == reference_lines(bytes@).len(),
            forall|k: int|
                0 <= k < out.records@.len() ==> {
                    &&& reference_core(
                        #[trigger] out.records@[k].core,
                        is_sentinel(reference_lines(bytes@)[k]),
                    )
                    &&& out.records@[k].notes@.len() == 0
                    &&& out.records@[k].label is None
                },
    {
        let text = decode_lossy(bytes);
        let ls = lines_of(&text);
        let ghost all = lines(utf8_lossy(bytes@));
        let mut records: Vec<ParsedRecord> = Vec::new();
        let mut i: usize = 0;
        while i < ls.len()
            invariant
                i <= ls@.len(),
                ls@.len() == all.len(),
                forall|k: int| 0 <= k < ls@.len() ==> #[trigger] ls@[k]@ == all[k],
                records@.len() == nonblank(all.take(i as int)).len(),
                forall|k: int|
                    0 <= k < records@.len() ==> {
                        &&& reference_core(
                            #[trigger] records@[k].core,
                            is_sentinel(nonblank(all.take(i as int))[k]),
                        )
                        &&& records@[k].notes@.len() == 0
                        &&& records@[k].label is None
                    },
            decreases ls.len() - i,
        {
            proof {
                assert(all.take(i + 1).drop_last() =~= all.take(i as int));
                assert(all.take(i + 1).last() == all[i as int]);
            }
            let t = trim_chars(&ls[i]);
            if t.len() > 0 {
                let buggy = eq_lit(&t, "buggy");
                let core = reference_record(buggy);
                records.push(ParsedRecord { core, notes: Vec::new(), label: None });
            }
            i = i + 1;
        }
        proof {
            assert(all.take(all.len() as int) =~= all);
        }
        ParseOutput { records, unparsed: Vec::new() }
    }
}

/// A record's CORE observation with the exec counter `n` stamped onto it, if the
/// parser left the counter unset (zero).
pub open spec fn stamped(c: CoreMetrics, n: u64) -> CoreMetrics {
    if c.coverage_delta.exec_n == 0 {
        CoreMetrics { coverage_delta: CoverageDelta { exec_n: n, ..c.coverage_delta }, ..c }
    } else {
        c
    }
}

/// `r` is parsed record `p` wrapped for the normalized payload: provenance
/// stamped, the counterfactual layer off and no prediction recorded.
pub open spec fn wraps(r: MetricRecord, p: ParsedRecord, n: u64) -> bool {
    &&& r.core == stamped(p.core, n)
    &&& !r.counterfactual.enabled
    &&& r.counterfactual.alternatives@.len() == 0
    &&& r.expectation.expected == Expectation::NoPrediction
    &&& r.expectation.predicted is None
    &&& r.parse_notes == p.notes
    &&& r.source_label == p.label
}

/// Every parsed record of `outs`, in order.
pub open spec fn all_parsed(outs: Seq<ParseOutput>) -> Seq<ParsedRecord>
    decreases outs.len(),
{
    if outs.len() == 0 {
        Seq::empty()
    } else {
        all_parsed(outs.drop_last()) + outs.last().records@
    }
}

/// Every unparsed block of `outs`, in order.
pub open spec fn all_unparsed(outs: Seq<ParseOutput>) -> Seq<UnparsedBlock>
    decreases outs.len(),
{
    if outs.len() == 0 {
        Seq::empty()
    } else {
        all_unparsed(outs.drop_last()) + outs.last().unparsed@
    }
}

/// Wraps one parsed record for the normalized payload.
fn wrap(p: ParsedRecord, exec_count: u64) -> (r: MetricRecord)
    ensures
        wraps(r, p, exec_count),
{
    let ParsedRecord { core, notes, label } = p;
    let mut core = core;
    if core.coverage_delta.exec_n == 0 {
        core.coverage_delta.exec_n = exec_count;
    }
    MetricRecord {
        core,
        counterfactual: CounterfactualLayer { enabled: false, alternatives: Vec::new() },
        expectation: ExpectationFlag { expected: Expectation::NoPrediction, predicted: None },
        parse_notes: notes,
        source_label: label,
    }
}

/// Assembles the parser outputs of one period (one per collected file, in
/// collection order) into normalized records and the separate unparsed bucket.
///
/// Each record carries the exec counter `exec_count` unless its parser already
/// set one, the counterfactual layer off and no prediction. Blocks a parser
/// could not shape stay in the unparsed bucket: never records, never anomalies.
pub fn assemble(outputs: Vec<ParseOutput>, exec_count: u64) -> (r: (
    Vec<MetricRecord>,
    Vec<UnparsedBlock>,
))
    ensures
        r.0@.len() == all_parsed(outputs@).len(),
        forall|k: int|
            0 <= k < r.0@.len() ==> wraps(#[trigger] r.0@[k], all_parsed(outputs@)[k], exec_count),
        r.1@ == all_unparsed(outputs@),
{
    let ghost outs = outputs@;
    let mut records: Vec<MetricRecord> = Vec::new();
    let mut unparsed: Vec<UnparsedBlock> = Vec::new();
    for out in it: outputs.into_iter()
        invariant
            it.seq() == outs,
            records@.len() == all_parsed(outs.take(it.index() as int)).len(),
            forall|k: int|
                0 <= k < records@.len() ==> wraps(
                    #[trigger] records@[k],
                    all_parsed(outs.take(it.index() as int))[k],
                    exec_count,
                ),
            unparsed@ == all_unparsed(outs.take(it.index() as int)),
    {
        let ghost j = it.index() as int;
        proof {
            assert(outs.take(j + 1).drop_last() =~= outs.take(j));
            assert(outs.take(j + 1).last() == outs[j]);
        }
        let ParseOutput { records: rs, unparsed: us } = out;
        let ghost base = records@;
        let ghost prev = all_parsed(outs.take(j));
        for p in it2: rs.into_iter()
            invariant
                it2.seq() == outs[j].records@,
                base.len() == prev.len(),
                records@.len() == prev.len() + it2.index(),
                forall|k: int| 0 <= k < prev.len() ==> #[trigger] records@[k] == base[k],
                forall|k: int| 0 <= k < prev.len() ==> wraps(#[trigger] base[k], prev[k], exec_count),
                forall|k: int|
                    0 <= k < it2.index() ==> wraps(
                        #[trigger] records@[prev.len() + k],
                        outs[j].records@[k],
                        exec_count,
                    ),
        {
            let r = wrap(p, exec_count);
            records.push(r);
        }
        proof {
            let cur = all_parsed(outs.take(j + 1));
            assert(cur =~= prev + outs[j].records@);
            assert forall|k: int| 0 <= k < records@.len() implies wraps(
                #[trigger] records@[k],
                cur[k],
                exec_count,
            ) by {
                if k < prev.len() {
                    assert(records@[k] == base[k]);
                } else {
                    assert(cur[k] == outs[j].records@[k - prev.len()]);
                    assert(records@[prev.len() + (k - prev.len())] == records@[k]);
                }
            }
        }
        let ghost ubase = unparsed@;
        for u in it3: us.into_iter()
            invariant
                it3.seq() == outs[j].unparsed@,
                unparsed@ == ubase + it3.seq().take(it3.index() as int),
        {
            proof {
                assert(it3.seq().take(it3.index() + 1) =~= it3.seq().take(it3.index() as int).push(u));
            }
            unparsed.push(u);
        }
        proof {
            assert(outs[j].unparsed@.take(outs[j].unparsed@.len() as int) =~= outs[j].unparsed@);
            assert(all_unparsed(outs.take(j + 1)) =~= ubase + outs[j].unparsed@);
        }
    }
    proof {
        assert(outs.take(outs.len() as int) =~= outs);
    }
    (records, unparsed)
}

/// Errors from the normalize stage.
#[derive(Debug)]
pub enum NormalizeError {
    /// Filesystem I/O failure (reading a harvested blob).
    Io(std::io::Error),
    /// Writing the normalized-metrics artifact failed.
    Contract(crate::contract::ContractError),
}

} // verus!
