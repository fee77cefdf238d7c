//! Documented-vs-observed diff: the logical invariants checked straight from CORE
//! observations, and the source-backed checks against an injected ground truth.
//!
//! The stage STATES divergences; it never ranks them. Every finding kind it can emit
//! is registered with the summary counter that says how often its check could have
//! fired (its denominator).
use vstd::prelude::*;
use crate::text::{push_str, push_string, string_from, string_eq_lit, eq_lit, push_chars};
use crate::num::{dec_str, hex_str, push_dec, push_hex, push_sdec, sdec_str};
use crate::metrics::{RegState, RegSnapshot, Tnum, VerifierDecision, CoreMetrics};

pub mod runtime;
pub mod proven;
pub mod sources;
pub mod summary;
pub mod laws;
pub mod period;

verus! {

/// Which ground-truth pillar a divergence was found against.
#[derive(Debug, Clone, Copy, PartialEq, Eq, Structural)]
pub enum GroundTruthSource {
    /// verifier.c state-transition logic.
    VerifierC,
    /// Documentation/bpf/verifier.rst.
    Documentation,
    /// Helper bpf_func_proto / arg_type contracts.
    HelperProto,
    /// Cross-version patch diffs.
    PatchDiff,
    /// Intrinsic logical invariant (no external file).
    LogicalInvariant,
}

/// One documented-vs-observed discrepancy.
#[derive(Debug, Clone, PartialEq, Eq)]
pub struct DivergenceFinding {
    /// Index into the period's records, or `None` for a period-level finding.
    pub record_index: Option<u64>,
    /// Which ground-truth pillar this was found against.
    pub source: GroundTruthSource,
    /// Label for the divergence kind (e.g. "tnum_malformed").
    pub kind: String,
    /// What was compared: "tnum" | "bounds" | "jit_interp" | "helper_arg" | ...
    pub aspect: String,
    /// Documented / expected value.
    pub expected: String,
    /// Observed value.
    pub observed: String,
    /// Explanation for triage.
    pub detail: String,
}

/// Qualified evidence that bears on a possible divergence without being one.
#[derive(Debug, Clone, PartialEq, Eq)]
pub struct EvidenceNote {
    /// Index into the period's records, or `None` for a period-level note.
    pub record_index: Option<u64>,
    /// Which ground-truth pillar the evidence came from.
    pub source: GroundTruthSource,
    /// Label (e.g. "documented_message_drift").
    pub kind: String,
    /// What was compared.
    pub aspect: String,
    /// Documented / expected value.
    pub expected: String,
    /// Observed value.
    pub observed: String,
    /// Explanation for triage.
    pub detail: String,
}

/// The identifying part of a finding: where, against which source, what kind and aspect.
/// What a finding says: record, source, kind, aspect, and its expected,
/// observed and detail texts.
pub type FindingKey = (
    Option<u64>,
    GroundTruthSource,
    Seq<char>,
    Seq<char>,
    Seq<char>,
    Seq<char>,
    Seq<char>,
);

pub open spec fn fkey(f: DivergenceFinding) -> FindingKey {
    (f.record_index, f.source, f.kind@, f.aspect@, f.expected@, f.observed@, f.detail@)
}

pub open spec fn fkeys(s: Seq<DivergenceFinding>) -> Seq<FindingKey> {
    s.map_values(|f: DivergenceFinding| fkey(f))
}

pub open spec fn lkey(
    idx: u64,
    kind: &str,
    aspect: &str,
    expected: Seq<char>,
    observed: Seq<char>,
    detail: Seq<char>,
) -> FindingKey {
    (Some(idx), GroundTruthSource::LogicalInvariant, kind@, aspect@, expected, observed, detail)
}

pub(crate) proof fn lemma_fkeys_push(s: Seq<DivergenceFinding>, f: DivergenceFinding)
    ensures
        fkeys(s.push(f)) == fkeys(s).push(fkey(f)),
{
    assert(fkeys(s.push(f)) =~= fkeys(s).push(fkey(f)));
}

/// Builds a finding.
pub(crate) fn finding(
    idx: Option<u64>,
    source: GroundTruthSource,
    kind: &str,
    aspect: &str,
    expected: String,
    observed: String,
    detail: String,
) -> (f: DivergenceFinding)
    ensures
        fkey(f) == (idx, source, kind@, aspect@, expected@, observed@, detail@),
        f.expected == expected,
        f.observed == observed,
        f.detail == detail,
{
    DivergenceFinding {
        record_index: idx,
        source,
        kind: string_from(kind),
        aspect: string_from(aspect),
        expected,
        observed,
        detail,
    }
}

/// Pushes a finding and keeps the key sequence in step.
pub(crate) fn emit(out: &mut Vec<DivergenceFinding>, f: DivergenceFinding)
    ensures
        final(out)@ == old(out)@.push(f),
        fkeys(final(out)@) == fkeys(old(out)@).push(fkey(f)),
{
    proof {
        lemma_fkeys_push(out@, f);
    }
    out.push(f);
}

/// The keys a per-item check raises over a sequence, concatenated in order.
pub open spec fn flat_keys<T>(s: Seq<T>, f: spec_fn(T) -> Seq<FindingKey>) -> Seq<FindingKey>
    decreases s.len(),
{
    if s.len() == 0 {
        seq![]
    } else {
        flat_keys(s.drop_last(), f) + f(s.last())
    }
}

/// The sum of a per-item count over a sequence.
pub open spec fn sum_count<T>(s: Seq<T>, f: spec_fn(T) -> nat) -> nat
    decreases s.len(),
{
    if s.len() == 0 {
        0
    } else {
        sum_count(s.drop_last(), f) + f(s.last())
    }
}

pub(crate) proof fn lemma_flat_take<T>(s: Seq<T>, f: spec_fn(T) -> Seq<FindingKey>, i: int)
    requires
        0 <= i < s.len(),
    ensures
        flat_keys(s.take(i + 1), f) == flat_keys(s.take(i), f) + f(s[i]),
{
    lemma_take_step(s, i);
}

pub(crate) proof fn lemma_sum_take<T>(s: Seq<T>, f: spec_fn(T) -> nat, i: int)
    requires
        0 <= i < s.len(),
    ensures
        sum_count(s.take(i + 1), f) == sum_count(s.take(i), f) + f(s[i]),
{
    lemma_take_step(s, i);
}

pub(crate) proof fn lemma_sum_bound<T>(s: Seq<T>, f: spec_fn(T) -> nat, k: nat)
    requires
        forall|x: T| #[trigger] f(x) <= k,
    ensures
        sum_count(s, f) <= k * s.len(),
    decreases s.len(),
{
    if s.len() > 0 {
        lemma_sum_bound(s.drop_last(), f, k);
        let n = s.len() as int;
        assert(k * (n - 1) + k == k * n) by (nonlinear_arith);
    }
}

pub(crate) proof fn lemma_take_all<T>(s: Seq<T>)
    ensures
        s.take(s.len() as int) == s,
{
    assert(s.take(s.len() as int) =~= s);
}

// ---------------------------------------------------------------------------
// Per-record bookkeeping
// ---------------------------------------------------------------------------

/// Total register observations across all snapshots.
pub open spec fn nregs(snaps: Seq<RegSnapshot>) -> nat
    decreases snaps.len(),
{
    if snaps.len() == 0 {
        0
    } else {
        nregs(snaps.drop_last()) + snaps.last().regs@.len()
    }
}

pub(crate) proof fn lemma_nregs_prefix(snaps: Seq<RegSnapshot>, i: int)
    requires
        0 <= i <= snaps.len(),
    ensures
        nregs(snaps.take(i)) <= nregs(snaps),
    decreases snaps.len(),
{
    if i < snaps.len() {
        lemma_nregs_prefix(snaps.drop_last(), i);
        assert(snaps.drop_last().take(i) =~= snaps.take(i));
    } else {
        assert(snaps.take(i) =~= snaps);
    }
}

pub(crate) proof fn lemma_take_step<T>(s: Seq<T>, i: int)
    requires
        0 <= i < s.len(),
    ensures
        s.take(i + 1).drop_last() == s.take(i),
        s.take(i + 1).last() == s[i],
{
    assert(s.take(i + 1).drop_last() =~= s.take(i));
}

// ---------------------------------------------------------------------------
// Intrinsic checks on the 64-bit view
// ---------------------------------------------------------------------------

/// The unsigned range a tnum can represent: `[value, value | mask]`.
pub open spec fn tnum_span(t: Tnum) -> (u64, u64) {
    (t.value, t.value | t.mask)
}

/// Whether an ordering comparison on `[lo, hi]` could have reported a violation:
/// both endpoints sit away from their extremes.
pub open spec fn order_checkable_spec(lo: int, hi: int, min: int, max: int) -> bool {
    lo > min && hi < max
}

/// Whether the tnum-vs-bounds check has independent information about `reg`: a
/// scalar with a partially known tnum and narrowed bounds.
pub open spec fn tnum_bounds_checkable_spec(reg: RegState) -> bool {
    &&& reg.reg_type@ == "scalar"@
    &&& reg.tnum.mask != 0
    &&& reg.tnum.mask != u64::MAX
    &&& (reg.umin > 0 || reg.umax < u64::MAX)
}

/// Whether the tnum-vs-bounds consistency check has independent information about
/// this register (partially known tnum, narrowed bounds, a scalar).
pub fn tnum_bounds_checkable(reg: &RegState) -> (b: bool)
    ensures
        b == tnum_bounds_checkable_spec(*reg),
{
    string_eq_lit(&reg.reg_type, "scalar") && reg.tnum.mask != 0 && reg.tnum.mask != u64::MAX
        && (reg.umin > 0 || reg.umax < u64::MAX)
}

/// The constant-tnum pin applies: all bits known, a stated upper bound, bounds read from the log.
pub open spec fn const_pin_applies(reg: RegState) -> bool {
    reg.tnum.mask == 0 && reg.umax != u64::MAX && reg.bounds_from_log
}

/// Where a register finding was observed: `insn <i> r<n> (<type>)`.
pub open spec fn where_spec(insn: u32, reg: RegState) -> Seq<char> {
    "insn "@ + dec_str(insn as nat) + " r"@ + dec_str(reg.reg as nat) + " ("@ + reg.reg_type@
        + ")"@
}

/// Findings the 64-bit intrinsic checks raise on one register, in order.
pub open spec fn reg_logical_keys(idx: u64, insn: u32, reg: RegState) -> Seq<FindingKey> {
    let t = reg.tnum;
    let sval = t.value as i64;
    let w = where_spec(insn, reg);
    let k1 = if t.value & t.mask != 0 {
        seq![
            lkey(
                idx,
                "tnum_malformed",
                "tnum",
                "value & mask == 0"@,
                "value=0x"@ + hex_str(t.value as nat) + " mask=0x"@ + hex_str(t.mask as nat)
                    + " overlap=0x"@ + hex_str((t.value & t.mask) as nat),
                w + ": tnum known/unknown bits overlap"@,
            ),
        ]
    } else {
        seq![]
    };
    let k2 = if reg.umin > reg.umax {
        seq![
            lkey(
                idx,
                "unsigned_bounds_inverted",
                "bounds",
                "umin <= umax"@,
                "umin="@ + dec_str(reg.umin as nat) + " umax="@ + dec_str(reg.umax as nat),
                w + ": inverted unsigned range"@,
            ),
        ]
    } else {
        seq![]
    };
    let k3 = if reg.smin > reg.smax {
        seq![
            lkey(
                idx,
                "signed_bounds_inverted",
                "bounds",
                "smin <= smax"@,
                "smin="@ + sdec_str(reg.smin as int) + " smax="@ + sdec_str(reg.smax as int),
                w + ": inverted signed range"@,
            ),
        ]
    } else {
        seq![]
    };
    let k4 = if const_pin_applies(reg) && reg.smin != i64::MIN && reg.smax != i64::MAX && (reg.smin
        != sval || reg.smax != sval) {
        seq![
            lkey(
                idx,
                "const_tnum_range_mismatch",
                "bounds",
                "a constant tnum pins smin == smax == value"@,
                "var_off=(0x"@ + hex_str(t.value as nat) + "; 0x0) smin="@ + sdec_str(
                    reg.smin as int,
                ) + " smax="@ + sdec_str(reg.smax as int),
                w + ": tnum is constant but the SIGNED bounds are not"@,
            ),
        ]
    } else {
        seq![]
    };
    let k5 = if const_pin_applies(reg) && (reg.umin != t.value || reg.umax != t.value) {
        seq![
            lkey(
                idx,
                "const_tnum_range_mismatch",
                "bounds",
                "a constant tnum pins umin == umax == value"@,
                "var_off=(0x"@ + hex_str(t.value as nat) + "; 0x0) umin="@ + dec_str(
                    reg.umin as nat,
                ) + " umax="@ + dec_str(reg.umax as nat),
                w + ": tnum is constant but the unsigned bounds are not"@,
            ),
        ]
    } else {
        seq![]
    };
    let k6 = if reg.umin <= reg.umax && ((t.value | t.mask) < reg.umin || t.value > reg.umax) {
        seq![
            lkey(
                idx,
                "tnum_bounds_inconsistent",
                "bounds",
                "tnum span [value, value|mask] intersects [umin, umax]"@,
                "tnum_span=["@ + dec_str(t.value as nat) + ","@ + dec_str((t.value | t.mask) as nat)
                    + "] umin="@ + dec_str(reg.umin as nat) + " umax="@ + dec_str(reg.umax as nat),
                w + ": tnum and unsigned bounds disjoint"@,
            ),
        ]
    } else {
        seq![]
    };
    k1 + k2 + k3 + k4 + k5 + k6
}

/// Which counter a per-register count feeds.
pub enum Counter {
    TnumBounds,
    Wellformed,
    Order64,
    Order32,
    Reg32,
}

/// How much one register adds to each register-level counter.
pub open spec fn reg_count(c: Counter, reg: RegState) -> nat {
    match c {
        Counter::TnumBounds => (if tnum_bounds_checkable_spec(reg) {
            1nat
        } else {
            0nat
        }) + (if const_pin_applies(reg) {
            1nat
        } else {
            0nat
        }),
        Counter::Wellformed => if reg.tnum.value != 0 && reg.tnum.mask != 0 {
            1nat
        } else {
            0nat
        },
        Counter::Order64 => (if order_checkable_spec(reg.umin as int, reg.umax as int, 0, u64::MAX as int) {
            1nat
        } else {
            0nat
        }) + (if order_checkable_spec(reg.smin as int, reg.smax as int, i64::MIN as int, i64::MAX as int) {
            1nat
        } else {
            0nat
        }),
        Counter::Order32 => if reg.reg_type@ == "scalar"@ {
            reg32_order_count(reg)
        } else {
            0nat
        },
        Counter::Reg32 => if reg32_checkable_spec(reg) {
            1nat
        } else {
            0nat
        },
    }
}

pub open spec fn regs_count(c: Counter, regs: Seq<RegState>) -> nat
    decreases regs.len(),
{
    if regs.len() == 0 {
        0
    } else {
        regs_count(c, regs.drop_last()) + reg_count(c, regs.last())
    }
}

pub open spec fn snaps_count(c: Counter, snaps: Seq<RegSnapshot>) -> nat
    decreases snaps.len(),
{
    if snaps.len() == 0 {
        0
    } else {
        snaps_count(c, snaps.drop_last()) + regs_count(c, snaps.last().regs@)
    }
}

proof fn lemma_regs_count_bound(c: Counter, regs: Seq<RegState>)
    ensures
        regs_count(c, regs) <= 4 * regs.len(),
    decreases regs.len(),
{
    if regs.len() > 0 {
        lemma_regs_count_bound(c, regs.drop_last());
    }
}

pub(crate) proof fn lemma_snaps_count_bound(c: Counter, snaps: Seq<RegSnapshot>)
    ensures
        snaps_count(c, snaps) <= 4 * nregs(snaps),
    decreases snaps.len(),
{
    if snaps.len() > 0 {
        lemma_snaps_count_bound(c, snaps.drop_last());
        lemma_regs_count_bound(c, snaps.last().regs@);
    }
}

pub open spec fn regs_logical_keys(idx: u64, insn: u32, regs: Seq<RegState>) -> Seq<FindingKey>
    decreases regs.len(),
{
    if regs.len() == 0 {
        seq![]
    } else {
        regs_logical_keys(idx, insn, regs.drop_last()) + reg_logical_keys(idx, insn, regs.last())
    }
}

pub open spec fn snaps_logical_keys(idx: u64, snaps: Seq<RegSnapshot>) -> Seq<FindingKey>
    decreases snaps.len(),
{
    if snaps.len() == 0 {
        seq![]
    } else {
        snaps_logical_keys(idx, snaps.drop_last()) + regs_logical_keys(
            idx,
            snaps.last().insn_idx,
            snaps.last().regs@,
        )
    }
}

/// Findings the intrinsic 64-bit checks raise on a record: per register, then the
/// JIT/interpreter equivalence.
pub open spec fn logical_keys(idx: u64, core: CoreMetrics) -> Seq<FindingKey> {
    snaps_logical_keys(idx, core.register_evolution@) + jit_keys(idx, core)
}

/// The JIT/interpreter equivalence finding of a record, if its recorded run diverged.
pub open spec fn jit_keys(idx: u64, core: CoreMetrics) -> Seq<FindingKey> {
    match core.jit_interp_diff {
        Some(d) => if d.retval_jit != d.retval_interp || !d.data_out_equal {
            seq![
                lkey(
                    idx,
                    "jit_interp_divergence",
                    "jit_interp",
                    "retval_jit == retval_interp && data_out_equal"@,
                    "retval_jit="@ + sdec_str(d.retval_jit as int) + " retval_interp="@ + sdec_str(
                        d.retval_interp as int,
                    ) + " data_out_equal="@ + bool_str(d.data_out_equal),
                    "JIT and interpreter diverged on a verified program"@,
                ),
            ]
        } else {
            seq![]
        },
        None => seq![],
    }
}

/// How `{}` prints a `bool`.
pub open spec fn bool_str(b: bool) -> Seq<char> {
    if b {
        "true"@
    } else {
        "false"@
    }
}

fn where_text(insn_idx: u32, reg: &RegState) -> (s: String)
    ensures
        s@ == where_spec(insn_idx, *reg),
{
    let mut s = string_from("insn ");
    push_dec(&mut s, insn_idx as u64);
    push_str(&mut s, " r");
    push_dec(&mut s, reg.reg as u64);
    push_str(&mut s, " (");
    push_string(&mut s, &reg.reg_type);
    push_str(&mut s, ")");
    s
}

fn with_where(where_: &String, tail: &str) -> (s: String)
    ensures
        s@ == where_@ + tail@,
{
    let mut s = String::new();
    push_string(&mut s, where_);
    push_str(&mut s, tail);
    proof {
        assert(Seq::<char>::empty() + where_@ =~= where_@);
    }
    s
}

/// The 64-bit intrinsic checks on one register.
fn check_reg_logical(
    idx: u64,
    insn_idx: u32,
    reg: &RegState,
    out: &mut Vec<DivergenceFinding>,
    checkable: &mut u64,
    order_checked: &mut u64,
    wellformed_checked: &mut u64,
)
    requires
        *old(checkable) + 4 <= u64::MAX,
        *old(order_checked) + 4 <= u64::MAX,
        *old(wellformed_checked) + 4 <= u64::MAX,
    ensures
        fkeys(final(out)@) == fkeys(old(out)@) + reg_logical_keys(idx, insn_idx, *reg),
        *final(checkable) == *old(checkable) + reg_count(Counter::TnumBounds, *reg),
        *final(wellformed_checked) == *old(wellformed_checked) + reg_count(Counter::Wellformed, *reg),
        *final(order_checked) == *old(order_checked) + reg_count(Counter::Order64, *reg),
{
    let ghost out0 = fkeys(out@);
    let where_ = where_text(insn_idx, reg);
    if tnum_bounds_checkable(reg) {
        *checkable = *checkable + 1;
    }
    let t = reg.tnum;
    if t.value != 0 && t.mask != 0 {
        *wellformed_checked = *wellformed_checked + 1;
    }
    let overlap = t.value & t.mask;
    let ghost k1 = fkeys(out@);
    if overlap != 0 {
        let mut o = string_from("value=0x");
        push_hex(&mut o, t.value);
        push_str(&mut o, " mask=0x");
        push_hex(&mut o, t.mask);
        push_str(&mut o, " overlap=0x");
        push_hex(&mut o, overlap);
        let f = finding(
            Some(idx),
            GroundTruthSource::LogicalInvariant,
            "tnum_malformed",
            "tnum",
            string_from("value & mask == 0"),
            o,
            with_where(&where_, ": tnum known/unknown bits overlap"),
        );
        emit(out, f);
    }
    if reg.umin > 0 && reg.umax < u64::MAX {
        *order_checked = *order_checked + 1;
    }
    if reg.umin > reg.umax {
        let mut o = string_from("umin=");
        push_dec(&mut o, reg.umin);
        push_str(&mut o, " umax=");
        push_dec(&mut o, reg.umax);
        let f = finding(
            Some(idx),
            GroundTruthSource::LogicalInvariant,
            "unsigned_bounds_inverted",
            "bounds",
            string_from("umin <= umax"),
            o,
            with_where(&where_, ": inverted unsigned range"),
        );
        emit(out, f);
    }
    if reg.smin > i64::MIN && reg.smax < i64::MAX {
        *order_checked = *order_checked + 1;
    }
    if reg.smin > reg.smax {
        let mut o = string_from("smin=");
        push_sdec(&mut o, reg.smin);
        push_str(&mut o, " smax=");
        push_sdec(&mut o, reg.smax);
        let f = finding(
            Some(idx),
            GroundTruthSource::LogicalInvariant,
            "signed_bounds_inverted",
            "bounds",
            string_from("smin <= smax"),
            o,
            with_where(&where_, ": inverted signed range"),
        );
        emit(out, f);
    }
    if t.mask == 0 && reg.umax != u64::MAX && reg.bounds_from_log {
        *checkable = *checkable + 1;
        let sval = t.value as i64;
        let signed_printed = reg.smin != i64::MIN && reg.smax != i64::MAX;
        if signed_printed && (reg.smin != sval || reg.smax != sval) {
            let mut o = string_from("var_off=(0x");
            push_hex(&mut o, t.value);
            push_str(&mut o, "; 0x0) smin=");
            push_sdec(&mut o, reg.smin);
            push_str(&mut o, " smax=");
            push_sdec(&mut o, reg.smax);
            let f = finding(
                Some(idx),
                GroundTruthSource::LogicalInvariant,
                "const_tnum_range_mismatch",
                "bounds",
                string_from("a constant tnum pins smin == smax == value"),
                o,
                with_where(&where_, ": tnum is constant but the SIGNED bounds are not"),
            );
            emit(out, f);
        }
        if reg.umin != t.value || reg.umax != t.value {
            let mut o = string_from("var_off=(0x");
            push_hex(&mut o, t.value);
            push_str(&mut o, "; 0x0) umin=");
            push_dec(&mut o, reg.umin);
            push_str(&mut o, " umax=");
            push_dec(&mut o, reg.umax);
            let f = finding(
                Some(idx),
                GroundTruthSource::LogicalInvariant,
                "const_tnum_range_mismatch",
                "bounds",
                string_from("a constant tnum pins umin == umax == value"),
                o,
                with_where(&where_, ": tnum is constant but the unsigned bounds are not"),
            );
            emit(out, f);
        }
    }
    if reg.umin <= reg.umax {
        let lo = t.value;
        let hi = t.value | t.mask;
        if hi < reg.umin || lo > reg.umax {
            let mut o = string_from("tnum_span=[");
            push_dec(&mut o, lo);
            push_str(&mut o, ",");
            push_dec(&mut o, hi);
            push_str(&mut o, "] umin=");
            push_dec(&mut o, reg.umin);
            push_str(&mut o, " umax=");
            push_dec(&mut o, reg.umax);
            let f = finding(
                Some(idx),
                GroundTruthSource::LogicalInvariant,
                "tnum_bounds_inconsistent",
                "bounds",
                string_from("tnum span [value, value|mask] intersects [umin, umax]"),
                o,
                with_where(&where_, ": tnum and unsigned bounds disjoint"),
            );
            emit(out, f);
        }
    }
    proof {
        assert(fkeys(out@) =~= out0 + reg_logical_keys(idx, insn_idx, *reg));
    }
}

// ---------------------------------------------------------------------------
// Intrinsic checks on the 32-bit subregister view
// ---------------------------------------------------------------------------

/// The 32-bit unsigned range, an omitted bound resolved to its extreme.
pub open spec fn reg32_unsigned_spec(reg: RegState) -> (u64, u64) {
    (
        match reg.u32_min {
            Some(v) => v,
            None => 0,
        },
        match reg.u32_max {
            Some(v) => v,
            None => u32::MAX as u64,
        },
    )
}

/// The 32-bit signed range, an omitted bound resolved to its extreme.
pub open spec fn reg32_signed_spec(reg: RegState) -> (i64, i64) {
    (
        match reg.s32_min {
            Some(v) => v,
            None => i32::MIN as i64,
        },
        match reg.s32_max {
            Some(v) => v,
            None => i32::MAX as i64,
        },
    )
}

/// Whether the 32-bit view carries information independent of the 64-bit one.
pub open spec fn reg32_checkable_spec(reg: RegState) -> bool {
    let (lo32, hi32) = reg32_unsigned_spec(reg);
    &&& reg.reg_type@ == "scalar"@
    &&& !(lo32 == 0 && hi32 == u32::MAX as u64)
    &&& (lo32 != (reg.umin & 0xffff_ffff) || hi32 != (reg.umax & 0xffff_ffff) || (reg.umin >> 32u64)
        != (reg.umax >> 32u64))
}

/// How many 32-bit ordering comparisons on a scalar could have fired.
pub open spec fn reg32_order_count(reg: RegState) -> nat {
    let (u32min, u32max) = reg32_unsigned_spec(reg);
    let (s32min, s32max) = reg32_signed_spec(reg);
    (if order_checkable_spec(u32min as int, u32max as int, 0, u32::MAX as int) {
        1nat
    } else {
        0nat
    }) + (if order_checkable_spec(s32min as int, s32max as int, i32::MIN as int, i32::MAX as int) {
        1nat
    } else {
        0nat
    })
}

fn reg32_unsigned(reg: &RegState) -> (r: (u64, u64))
    ensures
        r == reg32_unsigned_spec(*reg),
{
    (
        match reg.u32_min {
            Some(v) => v,
            None => 0,
        },
        match reg.u32_max {
            Some(v) => v,
            None => u32::MAX as u64,
        },
    )
}

/// Whether the 32-bit view of this register is independent information.
pub fn reg32_checkable(reg: &RegState) -> (b: bool)
    ensures
        b == reg32_checkable_spec(*reg),
{
    if !string_eq_lit(&reg.reg_type, "scalar") {
        return false;
    }
    let (lo32, hi32) = reg32_unsigned(reg);
    if lo32 == 0 && hi32 == u32::MAX as u64 {
        return false;
    }
    lo32 != (reg.umin & 0xffff_ffff) || hi32 != (reg.umax & 0xffff_ffff) || (reg.umin >> 32u64)
        != (reg.umax >> 32u64)
}

/// Findings the 32-bit checks raise on one register, in order.
pub open spec fn reg_sub_keys(idx: u64, insn: u32, reg: RegState) -> Seq<FindingKey> {
    let (u32min, u32max) = reg32_unsigned_spec(reg);
    let (s32min, s32max) = reg32_signed_spec(reg);
    let tlo = reg.tnum.value & 0xffff_ffff;
    let thi = (reg.tnum.value | reg.tnum.mask) & 0xffff_ffff;
    let wlo = reg.umin & 0xffff_ffff;
    let whi = reg.umax & 0xffff_ffff;
    let w = where_spec(insn, reg);
    if reg.reg_type@ != "scalar"@ {
        seq![]
    } else {
        (if u32min > u32max {
            seq![
                lkey(
                    idx,
                    "u32_bounds_inverted",
                    "bounds32",
                    "u32_min <= u32_max"@,
                    "u32_min="@ + dec_str(u32min as nat) + " u32_max="@ + dec_str(u32max as nat),
                    w + ": inverted 32-bit unsigned range"@,
                ),
            ]
        } else {
            seq![]
        }) + (if s32min > s32max {
            seq![
                lkey(
                    idx,
                    "s32_bounds_inverted",
                    "bounds32",
                    "s32_min <= s32_max"@,
                    "s32_min="@ + sdec_str(s32min as int) + " s32_max="@ + sdec_str(s32max as int),
                    w + ": inverted 32-bit signed range"@,
                ),
            ]
        } else {
            seq![]
        }) + (if reg32_checkable_spec(reg) && (thi < u32min || tlo > u32max) {
            seq![
                lkey(
                    idx,
                    "tnum32_bounds_inconsistent",
                    "bounds32",
                    "tnum low-32 span intersects [u32_min, u32_max]"@,
                    "tnum32_span=["@ + dec_str(tlo as nat) + ","@ + dec_str(thi as nat) + "] u32=["@
                        + dec_str(u32min as nat) + ","@ + dec_str(u32max as nat) + "]"@,
                    w + ": tnum and 32-bit bounds disjoint"@,
                ),
            ]
        } else {
            seq![]
        }) + (if reg32_checkable_spec(reg) && (reg.umin >> 32u64) == (reg.umax >> 32u64) && (whi
            < u32min || wlo > u32max) {
            seq![
                lkey(
                    idx,
                    "reg32_reg64_inconsistent",
                    "bounds32",
                    "64-bit low-half window intersects [u32_min, u32_max]"@,
                    "low_half_window=["@ + dec_str(wlo as nat) + ","@ + dec_str(whi as nat)
                        + "] u32=["@ + dec_str(u32min as nat) + ","@ + dec_str(u32max as nat)
                        + "] (umin="@ + dec_str(reg.umin as nat) + " umax="@ + dec_str(
                        reg.umax as nat,
                    ) + ")"@,
                    w + ": 32-bit and 64-bit views disagree"@,
                ),
            ]
        } else {
            seq![]
        })
    }
}

/// The 32-bit intrinsic checks on one register.
fn check_reg_sub(
    idx: u64,
    insn_idx: u32,
    reg: &RegState,
    out: &mut Vec<DivergenceFinding>,
    checked: &mut u64,
    order_checked: &mut u64,
)
    requires
        *old(checked) + 4 <= u64::MAX,
        *old(order_checked) + 4 <= u64::MAX,
    ensures
        fkeys(final(out)@) == fkeys(old(out)@) + reg_sub_keys(idx, insn_idx, *reg),
        *final(checked) == *old(checked) + reg_count(Counter::Reg32, *reg),
        *final(order_checked) == *old(order_checked) + reg_count(Counter::Order32, *reg),
{
    let ghost out0 = fkeys(out@);
    if !string_eq_lit(&reg.reg_type, "scalar") {
        return;
    }
    let (u32min, u32max) = reg32_unsigned(reg);
    let where_ = where_text(insn_idx, reg);
    if u32min > 0 && u32max < u32::MAX as u64 {
        *order_checked = *order_checked + 1;
    }
    if u32min > u32max {
        let mut o = string_from("u32_min=");
        push_dec(&mut o, u32min);
        push_str(&mut o, " u32_max=");
        push_dec(&mut o, u32max);
        let f = finding(
            Some(idx),
            GroundTruthSource::LogicalInvariant,
            "u32_bounds_inverted",
            "bounds32",
            string_from("u32_min <= u32_max"),
            o,
            with_where(&where_, ": inverted 32-bit unsigned range"),
        );
        emit(out, f);
    }
    let s32min = match reg.s32_min {
        Some(v) => v,
        None => i32::MIN as i64,
    };
    let s32max = match reg.s32_max {
        Some(v) => v,
        None => i32::MAX as i64,
    };
    if s32min > i32::MIN as i64 && s32max < i32::MAX as i64 {
        *order_checked = *order_checked + 1;
    }
    if s32min > s32max {
        let mut o = string_from("s32_min=");
        push_sdec(&mut o, s32min);
        push_str(&mut o, " s32_max=");
        push_sdec(&mut o, s32max);
        let f = finding(
            Some(idx),
            GroundTruthSource::LogicalInvariant,
            "s32_bounds_inverted",
            "bounds32",
            string_from("s32_min <= s32_max"),
            o,
            with_where(&where_, ": inverted 32-bit signed range"),
        );
        emit(out, f);
    }
    if !reg32_checkable(reg) {
        proof {
            assert(fkeys(out@) =~= out0 + reg_sub_keys(idx, insn_idx, *reg));
        }
        return;
    }
    *checked = *checked + 1;
    let tlo = reg.tnum.value & 0xffff_ffff;
    let thi = (reg.tnum.value | reg.tnum.mask) & 0xffff_ffff;
    if thi < u32min || tlo > u32max {
        let mut o = string_from("tnum32_span=[");
        push_dec(&mut o, tlo);
        push_str(&mut o, ",");
        push_dec(&mut o, thi);
        push_str(&mut o, "] u32=[");
        push_dec(&mut o, u32min);
        push_str(&mut o, ",");
        push_dec(&mut o, u32max);
        push_str(&mut o, "]");
        let f = finding(
            Some(idx),
            GroundTruthSource::LogicalInvariant,
            "tnum32_bounds_inconsistent",
            "bounds32",
            string_from("tnum low-32 span intersects [u32_min, u32_max]"),
            o,
            with_where(&where_, ": tnum and 32-bit bounds disjoint"),
        );
        emit(out, f);
    }
    if (reg.umin >> 32u64) == (reg.umax >> 32u64) {
        let wlo = reg.umin & 0xffff_ffff;
        let whi = reg.umax & 0xffff_ffff;
        if whi < u32min || wlo > u32max {
            let mut o = string_from("low_half_window=[");
            push_dec(&mut o, wlo);
            push_str(&mut o, ",");
            push_dec(&mut o, whi);
            push_str(&mut o, "] u32=[");
            push_dec(&mut o, u32min);
            push_str(&mut o, ",");
            push_dec(&mut o, u32max);
            push_str(&mut o, "] (umin=");
            push_dec(&mut o, reg.umin);
            push_str(&mut o, " umax=");
            push_dec(&mut o, reg.umax);
            push_str(&mut o, ")");
            let f = finding(
                Some(idx),
                GroundTruthSource::LogicalInvariant,
                "reg32_reg64_inconsistent",
                "bounds32",
                string_from("64-bit low-half window intersects [u32_min, u32_max]"),
                o,
                with_where(&where_, ": 32-bit and 64-bit views disagree"),
            );
            emit(out, f);
        }
    }
    proof {
        assert(fkeys(out@) =~= out0 + reg_sub_keys(idx, insn_idx, *reg));
    }
}

// ---------------------------------------------------------------------------
// Record-level passes over the register evolution
// ---------------------------------------------------------------------------

pub open spec fn regs_sub_keys(idx: u64, insn: u32, regs: Seq<RegState>) -> Seq<FindingKey>
    decreases regs.len(),
{
    if regs.len() == 0 {
        seq![]
    } else {
        regs_sub_keys(idx, insn, regs.drop_last()) + reg_sub_keys(idx, insn, regs.last())
    }
}

pub open spec fn snaps_sub_keys(idx: u64, snaps: Seq<RegSnapshot>) -> Seq<FindingKey>
    decreases snaps.len(),
{
    if snaps.len() == 0 {
        seq![]
    } else {
        snaps_sub_keys(idx, snaps.drop_last()) + regs_sub_keys(
            idx,
            snaps.last().insn_idx,
            snaps.last().regs@,
        )
    }
}

/// The jit/interpreter comparisons a record carries (0 or 1).
pub open spec fn jit_count(core: CoreMetrics) -> nat {
    if core.jit_interp_diff is Some {
        1
    } else {
        0
    }
}

/// Intrinsic logical analysis over a record: 64-bit register invariants, then
/// JIT/interpreter equivalence.
pub(crate) fn check_logical_invariants(
    idx: u64,
    core: &CoreMetrics,
    out: &mut Vec<DivergenceFinding>,
    checkable: &mut u64,
    order_checked: &mut u64,
    wellformed_checked: &mut u64,
    jit_checked: &mut u64,
)
    requires
        *old(checkable) + 4 * nregs(core.register_evolution@) + 4 <= u64::MAX,
        *old(order_checked) + 4 * nregs(core.register_evolution@) + 4 <= u64::MAX,
        *old(wellformed_checked) + 4 * nregs(core.register_evolution@) + 4 <= u64::MAX,
        *old(jit_checked) + 1 <= u64::MAX,
    ensures
        fkeys(final(out)@) == fkeys(old(out)@) + logical_keys(idx, *core),
        *final(checkable) == *old(checkable) + snaps_count(
            Counter::TnumBounds,
            core.register_evolution@,
        ),
        *final(order_checked) == *old(order_checked) + snaps_count(
            Counter::Order64,
            core.register_evolution@,
        ),
        *final(wellformed_checked) == *old(wellformed_checked) + snaps_count(
            Counter::Wellformed,
            core.register_evolution@,
        ),
        *final(jit_checked) == *old(jit_checked) + jit_count(*core),
{
    let ghost out0 = fkeys(out@);
    let ghost snaps = core.register_evolution@;
    let ghost c0 = *checkable;
    let ghost o0 = *order_checked;
    let ghost w0 = *wellformed_checked;
    let mut i: usize = 0;
    while i < core.register_evolution.len()
        invariant
            i <= snaps.len(),
            snaps == core.register_evolution@,
            fkeys(out@) == out0 + snaps_logical_keys(idx, snaps.take(i as int)),
            *checkable == c0 + snaps_count(Counter::TnumBounds, snaps.take(i as int)),
            *order_checked == o0 + snaps_count(Counter::Order64, snaps.take(i as int)),
            *wellformed_checked == w0 + snaps_count(Counter::Wellformed, snaps.take(i as int)),
            c0 + 4 * nregs(snaps) + 4 <= u64::MAX,
            o0 + 4 * nregs(snaps) + 4 <= u64::MAX,
            w0 + 4 * nregs(snaps) + 4 <= u64::MAX,
        decreases snaps.len() - i,
    {
        let snap = &core.register_evolution[i];
        let ghost regs = snap.regs@;
        let ghost kbase = fkeys(out@);
        let ghost cb = *checkable;
        let ghost ob = *order_checked;
        let ghost wb = *wellformed_checked;
        proof {
            lemma_take_step(snaps, i as int);
            lemma_nregs_prefix(snaps, i + 1);
            lemma_snaps_count_bound(Counter::TnumBounds, snaps.take(i as int));
            lemma_snaps_count_bound(Counter::Order64, snaps.take(i as int));
            lemma_snaps_count_bound(Counter::Wellformed, snaps.take(i as int));
            assert(nregs(snaps.take(i + 1)) == nregs(snaps.take(i as int)) + regs.len());
        }
        let mut j: usize = 0;
        while j < snap.regs.len()
            invariant
                j <= regs.len(),
                regs == snap.regs@,
                fkeys(out@) == kbase + regs_logical_keys(idx, snap.insn_idx, regs.take(j as int)),
                *checkable == cb + regs_count(Counter::TnumBounds, regs.take(j as int)),
                *order_checked == ob + regs_count(Counter::Order64, regs.take(j as int)),
                *wellformed_checked == wb + regs_count(Counter::Wellformed, regs.take(j as int)),
                cb + 4 * regs.len() + 4 <= u64::MAX,
                ob + 4 * regs.len() + 4 <= u64::MAX,
                wb + 4 * regs.len() + 4 <= u64::MAX,
            decreases regs.len() - j,
        {
            proof {
                lemma_take_step(regs, j as int);
                lemma_regs_count_bound(Counter::TnumBounds, regs.take(j as int));
                lemma_regs_count_bound(Counter::Order64, regs.take(j as int));
                lemma_regs_count_bound(Counter::Wellformed, regs.take(j as int));
            }
            check_reg_logical(
                idx,
                snap.insn_idx,
                &snap.regs[j],
                out,
                checkable,
                order_checked,
                wellformed_checked,
            );
            proof {
                assert(fkeys(out@) =~= kbase + regs_logical_keys(idx, snap.insn_idx, regs.take(j + 1)));
            }
            j = j + 1;
        }
        proof {
            assert(regs.take(regs.len() as int) =~= regs);
            assert(fkeys(out@) =~= out0 + snaps_logical_keys(idx, snaps.take(i + 1)));
        }
        i = i + 1;
    }
    proof {
        assert(snaps.take(snaps.len() as int) =~= snaps);
    }
    let ghost before_jit = fkeys(out@);
    match &core.jit_interp_diff {
        Some(d) => {
            *jit_checked = *jit_checked + 1;
            if d.retval_jit != d.retval_interp || !d.data_out_equal {
                let mut o = string_from("retval_jit=");
                push_sdec(&mut o, d.retval_jit);
                push_str(&mut o, " retval_interp=");
                push_sdec(&mut o, d.retval_interp);
                push_str(&mut o, " data_out_equal=");
                push_str(&mut o, if d.data_out_equal { "true" } else { "false" });
                let f = finding(
                    Some(idx),
                    GroundTruthSource::LogicalInvariant,
                    "jit_interp_divergence",
                    "jit_interp",
                    string_from("retval_jit == retval_interp && data_out_equal"),
                    o,
                    string_from("JIT and interpreter diverged on a verified program"),
                );
                emit(out, f);
            }
        },
        None => {},
    }
    proof {
        assert(fkeys(out@) =~= out0 + logical_keys(idx, *core));
    }
}

/// Intrinsic checks on the 32-bit subregister view of every scalar.
pub(crate) fn check_subregister_invariants(
    idx: u64,
    core: &CoreMetrics,
    out: &mut Vec<DivergenceFinding>,
    checked: &mut u64,
    order_checked: &mut u64,
)
    requires
        *old(checked) + 4 * nregs(core.register_evolution@) + 4 <= u64::MAX,
        *old(order_checked) + 4 * nregs(core.register_evolution@) + 4 <= u64::MAX,
    ensures
        fkeys(final(out)@) == fkeys(old(out)@) + snaps_sub_keys(idx, core.register_evolution@),
        *final(checked) == *old(checked) + snaps_count(Counter::Reg32, core.register_evolution@),
        *final(order_checked) == *old(order_checked) + snaps_count(
            Counter::Order32,
            core.register_evolution@,
        ),
{
    let ghost out0 = fkeys(out@);
    let ghost snaps = core.register_evolution@;
    let ghost c0 = *checked;
    let ghost o0 = *order_checked;
    let mut i: usize = 0;
    while i < core.register_evolution.len()
        invariant
            i <= snaps.len(),
            snaps == core.register_evolution@,
            fkeys(out@) == out0 + snaps_sub_keys(idx, snaps.take(i as int)),
            *checked == c0 + snaps_count(Counter::Reg32, snaps.take(i as int)),
            *order_checked == o0 + snaps_count(Counter::Order32, snaps.take(i as int)),
            c0 + 4 * nregs(snaps) + 4 <= u64::MAX,
            o0 + 4 * nregs(snaps) + 4 <= u64::MAX,
        decreases snaps.len() - i,
    {
        let snap = &core.register_evolution[i];
        let ghost regs = snap.regs@;
        let ghost kbase = fkeys(out@);
        let ghost cb = *checked;
        let ghost ob = *order_checked;
        proof {
            lemma_take_step(snaps, i as int);
            lemma_nregs_prefix(snaps, i + 1);
            lemma_snaps_count_bound(Counter::Reg32, snaps.take(i as int));
            lemma_snaps_count_bound(Counter::Order32, snaps.take(i as int));
            assert(nregs(snaps.take(i + 1)) == nregs(snaps.take(i as int)) + regs.len());
        }
        let mut j: usize = 0;
        while j < snap.regs.len()
            invariant
                j <= regs.len(),
                regs == snap.regs@,
                fkeys(out@) == kbase + regs_sub_keys(idx, snap.insn_idx, regs.take(j as int)),
                *checked == cb + regs_count(Counter::Reg32, regs.take(j as int)),
                *order_checked == ob + regs_count(Counter::Order32, regs.take(j as int)),
                cb + 4 * regs.len() + 4 <= u64::MAX,
                ob + 4 * regs.len() + 4 <= u64::MAX,
            decreases regs.len() - j,
        {
            proof {
                lemma_take_step(regs, j as int);
                lemma_regs_count_bound(Counter::Reg32, regs.take(j as int));
                lemma_regs_count_bound(Counter::Order32, regs.take(j as int));
            }
            check_reg_sub(idx, snap.insn_idx, &snap.regs[j], out, checked, order_checked);
            proof {
                assert(fkeys(out@) =~= kbase + regs_sub_keys(idx, snap.insn_idx, regs.take(j + 1)));
            }
            j = j + 1;
        }
        proof {
            assert(regs.take(regs.len() as int) =~= regs);
            assert(fkeys(out@) =~= out0 + snaps_sub_keys(idx, snaps.take(i + 1)));
        }
        i = i + 1;
    }
    proof {
        assert(snaps.take(snaps.len() as int) =~= snaps);
    }
}

/// Errors from the diff stage.
#[derive(Debug)]
pub enum DiffError {
    /// Writing the diff-findings artifact failed.
    Contract(crate::contract::ContractError),
    /// The period's diff counters, or a declared store site's base, do not fit
    /// their integer range, so the diff cannot be computed.
    Overflow,
}

} // verus!
