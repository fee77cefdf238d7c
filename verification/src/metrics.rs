//! The observation schema: CORE metrics for one verifier invocation, the opt-in
//! counterfactual layer, and the "did the loop expect this?" flag.
//!
//! CORE is pure, raw operational observation. Text the verifier printed (a
//! register type, a reject reason) is carried verbatim as `String`.
use vstd::prelude::*;

verus! {

/// The verifier's final decision on a program.
#[derive(Debug, Clone, PartialEq, Eq)]
pub enum VerifierDecision {
    /// Program accepted.
    Accept,
    /// Program rejected, with the verifier's reason text (verbatim).
    Reject { reason: String },
}

/// A tnum (tristate number): known bit values plus the unknown-bit mask.
#[derive(Debug, Clone, Copy, PartialEq, Eq, Structural)]
pub struct Tnum {
    /// Known bit values.
    pub value: u64,
    /// Unknown-bit mask (1 = unknown).
    pub mask: u64,
}

impl Default for Tnum {
    fn default() -> (t: Tnum)
        ensures
            t.value == 0 && t.mask == 0,
    {
        Tnum { value: 0, mask: 0 }
    }
}

/// One register's abstract state at a point in verification: the 64-bit view, the
/// optional 32-bit subregister view (`None` = not printed), and for a pointer the
/// constant part of its offset.
#[derive(Debug, Clone, PartialEq, Eq)]
pub struct RegState {
    /// Register number (0..=10).
    pub reg: u8,
    /// Verifier `reg_type`, verbatim (e.g. "scalar", "map_value", "ctx").
    pub reg_type: String,
    /// Known bits and unknown mask.
    pub tnum: Tnum,
    /// Unsigned min bound.
    pub umin: u64,
    /// Unsigned max bound.
    pub umax: u64,
    /// Signed min bound.
    pub smin: i64,
    /// Signed max bound.
    pub smax: i64,
    /// 32-bit unsigned min, when printed.
    pub u32_min: Option<u64>,
    /// 32-bit unsigned max, when printed.
    pub u32_max: Option<u64>,
    /// 32-bit signed min, when printed.
    pub s32_min: Option<i64>,
    /// 32-bit signed max, when printed.
    pub s32_max: Option<i64>,
    /// A pointer's constant offset part (`off=`), when printed.
    pub ptr_off: Option<i64>,
    /// Whether any of umin/umax/smin/smax was read from the log rather than synthesized.
    pub bounds_from_log: bool,
}

impl Default for RegState {
    fn default() -> (r: RegState)
        ensures
            r.reg == 0,
            r.reg_type@ == Seq::<char>::empty(),
            r.tnum == (Tnum { value: 0, mask: 0 }),
            r.umin == 0 && r.umax == 0 && r.smin == 0 && r.smax == 0,
            r.u32_min is None && r.u32_max is None,
            r.s32_min is None && r.s32_max is None,
            r.ptr_off is None,
            !r.bounds_from_log,
    {
        RegState {
            reg: 0,
            reg_type: String::new(),
            tnum: Tnum { value: 0, mask: 0 },
            umin: 0,
            umax: 0,
            smin: 0,
            smax: 0,
            u32_min: None,
            u32_max: None,
            s32_min: None,
            s32_max: None,
            ptr_off: None,
            bounds_from_log: false,
        }
    }
}

/// Registers of interest at one instruction index.
#[derive(Debug, Clone, PartialEq, Eq)]
pub struct RegSnapshot {
    /// Instruction index this snapshot was taken at.
    pub insn_idx: u32,
    /// Register states of interest at this point.
    pub regs: Vec<RegState>,
}

/// Processed-work counters.
#[derive(Debug, Clone, Copy, PartialEq, Eq, Structural)]
pub struct Processed {
    /// `insn_processed` reported by the verifier.
    pub insn_processed: u64,
    /// Number of verifier states processed.
    pub states_processed: u64,
}

impl Default for Processed {
    fn default() -> (p: Processed)
        ensures
            p.insn_processed == 0 && p.states_processed == 0,
    {
        Processed { insn_processed: 0, states_processed: 0 }
    }
}

/// JIT vs interpreter result for one program run.
#[derive(Debug, Clone, Copy, PartialEq, Eq, Structural)]
pub struct JitInterpDiff {
    /// Return value under the JIT.
    pub retval_jit: i64,
    /// Return value under the interpreter.
    pub retval_interp: i64,
    /// Whether the `data_out` buffers matched.
    pub data_out_equal: bool,
}

/// Coverage delta for one exec.
#[derive(Debug, Clone, Copy, PartialEq, Eq, Structural)]
pub struct CoverageDelta {
    /// New basic blocks covered by this exec.
    pub new_bb: u64,
    /// The exec counter N at which this was observed (provenance).
    pub exec_n: u64,
}

impl Default for CoverageDelta {
    fn default() -> (c: CoverageDelta)
        ensures
            c.new_bb == 0 && c.exec_n == 0,
    {
        CoverageDelta { new_bb: 0, exec_n: 0 }
    }
}

/// One helper-call argument observation: the verifier reg-type family seen for it.
#[derive(Debug, Clone, PartialEq, Eq)]
pub struct HelperArgObservation {
    /// Helper name, verbatim.
    pub helper: String,
    /// Argument index (0-based; arg N is register R(N+1)).
    pub arg_index: u8,
    /// Observed verifier reg-type family for this argument.
    pub observed: String,
}

/// A helper argument contract-violation signal carrying its own expected type.
#[derive(Debug, Clone, PartialEq, Eq)]
pub struct HelperArgViolation {
    /// Helper name (or id), verbatim.
    pub helper: String,
    /// Argument index that violated its contract.
    pub arg_index: u8,
    /// Expected `arg_type`, verbatim.
    pub expected: String,
    /// Observed `arg_type`, verbatim.
    pub observed: String,
}

/// Register liveness at each instruction from two independent sources.
#[derive(Debug, Clone, PartialEq, Eq)]
pub struct LivenessGate {
    /// The harness's own analysis, one mask per instruction index.
    pub claim: Option<Vec<u16>>,
    /// The harness's status verbatim (`ok`, `malformed`, `unsupported: <why>`).
    pub claim_status: String,
    /// The kernel's `live_regs_before`, as (insn_idx, mask).
    pub kernel: Vec<(u32, u16)>,
}

/// The store instruction's coordinates, declared by the program generator.
#[derive(Debug, Clone, Copy, PartialEq, Eq, Structural)]
pub struct StoreSite {
    /// Index of the store instruction.
    pub insn_idx: u32,
    /// Base pointer register the store goes through.
    pub base_reg: u8,
    /// The store instruction's own immediate offset.
    pub insn_off: i64,
    /// Store width in bytes.
    pub size: u32,
}

/// One runtime observation of a program run with a chosen input.
#[derive(Debug, Clone, PartialEq, Eq)]
pub struct RuntimeSample {
    /// The attacker-controlled input fed to the program.
    pub input: u64,
    /// The value the program returned (low 32 bits); 0 when not observed.
    pub retval: u64,
    /// Whether a return value was actually observed.
    pub retval_observed: bool,
    /// What this input should produce, when the generator says so.
    pub intended_retval: Option<u64>,
    /// Where a store's sentinel landed, or `Some(-1)` when absent.
    pub store_off: Option<i64>,
    /// Length of the observed sentinel run (multi-byte stores).
    pub store_len: Option<i64>,
    /// The store's width in bytes (multi-byte stores).
    pub store_size: Option<i64>,
    /// Whether this run reached the store (branch-guarded stores only).
    pub executed: Option<bool>,
    /// True if the harness could not execute this sample.
    pub error: bool,
}

/// One pruning-soundness differential: the same program loaded three times.
#[derive(Debug, Clone, PartialEq, Eq)]
pub struct PruneProbe {
    /// The offset shaper on the fall-through path.
    pub fall: String,
    /// The offset shaper on the branch-taken path.
    pub taken: String,
    /// Whether the deciding store is in bounds on the fall-through path.
    pub fall_safe: bool,
    /// Whether the deciding store is in bounds on the taken path.
    pub taken_safe: bool,
    /// Whether the two states differ in a stack slot rather than a register.
    pub stack: bool,
    /// Default load: accepted?
    pub base_accept: bool,
    /// Default load: errno.
    pub base_errno: i64,
    /// Default load: states explored.
    pub base_states: u64,
    /// Default load: reason.
    pub base_reason: String,
    /// State-frequency load: accepted?
    pub freq_accept: bool,
    /// State-frequency load: errno.
    pub freq_errno: i64,
    /// State-frequency load: states explored.
    pub freq_states: u64,
    /// State-frequency load: reason (`verdict`, `too_large`, ...).
    pub freq_reason: String,
    /// Register-invariants load: accepted?
    pub inv_accept: bool,
    /// Register-invariants load: errno.
    pub inv_errno: i64,
    /// Register-invariants load: reason.
    pub inv_reason: String,
}

/// One CORE observation for a single verifier invocation.
#[derive(Debug, Clone, PartialEq, Eq)]
pub struct CoreMetrics {
    /// accept/reject + reason.
    pub verifier_decision: VerifierDecision,
    /// Register-state evolution (per-insn snapshots).
    pub register_evolution: Vec<RegSnapshot>,
    /// insn_processed / states processed.
    pub processed: Processed,
    /// JIT/interpreter comparison (absent if not run).
    pub jit_interp_diff: Option<JitInterpDiff>,
    /// Coverage delta + exec counter N.
    pub coverage_delta: CoverageDelta,
    /// Helper argument violations (synthetic path).
    pub helper_arg_violations: Vec<HelperArgViolation>,
    /// Helper-call argument observations from the verifier log.
    pub helper_arg_observations: Vec<HelperArgObservation>,
    /// Runtime samples from test runs.
    pub runtime_samples: Vec<RuntimeSample>,
    /// What the program is supposed to return, declared by the generator.
    pub intended_retval: Option<u64>,
    /// Whether the program reaches its exit along more than one path.
    pub multi_path: Option<bool>,
    /// Where the program's store instruction is, declared by the generator.
    pub store_site: Option<StoreSite>,
    /// The pruning-soundness differential, when run.
    pub prune_probe: Option<PruneProbe>,
    /// The register-liveness gate, from two sources.
    pub liveness_gate: Option<LivenessGate>,
}

/// Counterfactual layer: opt-in, sits on top of core, never mutates it.
#[derive(Debug, Clone, PartialEq, Eq)]
pub struct CounterfactualLayer {
    /// Whether this layer was produced for the observation (default off).
    pub enabled: bool,
    /// Loop-generated alternatives (opaque text).
    pub alternatives: Vec<String>,
}

impl Default for CounterfactualLayer {
    fn default() -> (c: CounterfactualLayer)
        ensures
            !c.enabled,
            c.alternatives@.len() == 0,
    {
        CounterfactualLayer { enabled: false, alternatives: Vec::new() }
    }
}

/// Whether the loop predicted the observed outcome before seeing it.
#[derive(Debug, Clone, Copy, PartialEq, Eq, Structural)]
pub enum Expectation {
    /// The loop made no prediction (default).
    NoPrediction,
    /// The observation matched the loop's prediction.
    Expected,
    /// The observation contradicted the loop's prediction.
    Unexpected,
}

impl Default for Expectation {
    fn default() -> (e: Expectation)
        ensures
            e == Expectation::NoPrediction,
    {
        Expectation::NoPrediction
    }
}

/// The confirmation-bias probe, kept separate from core observation.
#[derive(Debug, Clone, PartialEq, Eq)]
pub struct ExpectationFlag {
    /// Expected / Unexpected / NoPrediction.
    pub expected: Expectation,
    /// What the loop predicted (if anything).
    pub predicted: Option<String>,
}

impl Default for ExpectationFlag {
    fn default() -> (f: ExpectationFlag)
        ensures
            f.expected == Expectation::NoPrediction,
            f.predicted is None,
    {
        ExpectationFlag { expected: Expectation::NoPrediction, predicted: None }
    }
}

} // verus!
