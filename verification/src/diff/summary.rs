//! The period-level diff: every check over every record, the per-source tally,
//! the denominators, and the registry that ties each finding kind to the counter
//! saying how often its check could have fired.
use vstd::prelude::*;
use crate::text::{chars_of, eq_lit};
use crate::metrics::CoreMetrics;
use crate::normalize::MetricRecord;
use crate::groundtruth::GroundTruth;
use crate::diff::{
    DivergenceFinding, EvidenceNote, GroundTruthSource, FindingKey, fkeys, fkey, sum_count, nregs,
    snaps_count, Counter, logical_keys, snaps_sub_keys, jit_count, check_logical_invariants,
    check_subregister_invariants, lemma_snaps_count_bound, lemma_take_all, lemma_sum_take,
    flat_keys,
};
use crate::diff::runtime::{
    check_runtime_write_safety, check_runtime_intent, check_liveness_gate,
    check_prune_differential, write_keys, write_count, record_intent_keys, record_intent_count,
    gate_keys, gate_count, gate_rows, prune_keys, prune_count, prune_artifact_count, inv_count,
};
use crate::diff::proven::{
    check_runtime_ground_truth, check_store_location, record_retval_keys, record_retval_count,
    record_store_keys, record_store_count, store_site_sane,
};
use crate::diff::sources::{
    check_helper_proto, check_helper_observations, check_documented_behavior, proto_keys,
    record_obs_keys, record_obs_count, doc_keys, doc_note_keys, doc_outcome, nkeys,
};
use crate::metrics::{RuntimeSample, HelperArgViolation};

verus! {

/// Per-source finding counts.
#[derive(Debug, Clone, Copy, PartialEq, Eq, Structural)]
pub struct BySource {
    /// Findings against verifier.c.
    pub verifier_c: u64,
    /// Findings against the documentation.
    pub documentation: u64,
    /// Findings against helper contracts.
    pub helper_proto: u64,
    /// Findings against patch diffs.
    pub patch_diff: u64,
    /// Findings against the intrinsic logical-invariant pillar.
    pub logical_invariant: u64,
}

/// The number of keys carrying a given source.
pub open spec fn count_source(keys: Seq<FindingKey>, s: GroundTruthSource) -> nat
    decreases keys.len(),
{
    if keys.len() == 0 {
        0
    } else {
        count_source(keys.drop_last(), s) + (if keys.last().1 == s {
            1nat
        } else {
            0nat
        })
    }
}

proof fn lemma_count_source_len(keys: Seq<FindingKey>, s: GroundTruthSource)
    ensures
        count_source(keys, s) <= keys.len(),
    decreases keys.len(),
{
    if keys.len() > 0 {
        lemma_count_source_len(keys.drop_last(), s);
    }
}

/// The per-source tally of a sequence of findings.
pub open spec fn tally(keys: Seq<FindingKey>) -> BySource {
    BySource {
        verifier_c: count_source(keys, GroundTruthSource::VerifierC) as u64,
        documentation: count_source(keys, GroundTruthSource::Documentation) as u64,
        helper_proto: count_source(keys, GroundTruthSource::HelperProto) as u64,
        patch_diff: count_source(keys, GroundTruthSource::PatchDiff) as u64,
        logical_invariant: count_source(keys, GroundTruthSource::LogicalInvariant) as u64,
    }
}

impl BySource {
    /// All counts zero.
    pub fn new() -> (b: Self)
        ensures
            b == (BySource {
                verifier_c: 0,
                documentation: 0,
                helper_proto: 0,
                patch_diff: 0,
                logical_invariant: 0,
            }),
    {
        BySource { verifier_c: 0, documentation: 0, helper_proto: 0, patch_diff: 0, logical_invariant: 0 }
    }

    /// Counts one more finding against `source`.
    pub fn bump(&mut self, source: GroundTruthSource)
        requires
            match source {
                GroundTruthSource::VerifierC => old(self).verifier_c < u64::MAX,
                GroundTruthSource::Documentation => old(self).documentation < u64::MAX,
                GroundTruthSource::HelperProto => old(self).helper_proto < u64::MAX,
                GroundTruthSource::PatchDiff => old(self).patch_diff < u64::MAX,
                GroundTruthSource::LogicalInvariant => old(self).logical_invariant < u64::MAX,
            },
        ensures
            final(self).verifier_c == old(self).verifier_c + (if source
                == GroundTruthSource::VerifierC {
                1int
            } else {
                0int
            }),
            final(self).documentation == old(self).documentation + (if source
                == GroundTruthSource::Documentation {
                1int
            } else {
                0int
            }),
            final(self).helper_proto == old(self).helper_proto + (if source
                == GroundTruthSource::HelperProto {
                1int
            } else {
                0int
            }),
            final(self).patch_diff == old(self).patch_diff + (if source
                == GroundTruthSource::PatchDiff {
                1int
            } else {
                0int
            }),
            final(self).logical_invariant == old(self).logical_invariant + (if source
                == GroundTruthSource::LogicalInvariant {
                1int
            } else {
                0int
            }),
    {
        match source {
            GroundTruthSource::VerifierC => self.verifier_c = self.verifier_c + 1,
            GroundTruthSource::Documentation => self.documentation = self.documentation + 1,
            GroundTruthSource::HelperProto => self.helper_proto = self.helper_proto + 1,
            GroundTruthSource::PatchDiff => self.patch_diff = self.patch_diff + 1,
            GroundTruthSource::LogicalInvariant => self.logical_invariant = self.logical_invariant
                + 1,
        }
    }
}

/// Period-level diff summary.
#[derive(Debug, Clone, Copy, PartialEq, Eq, Structural)]
pub struct DiffSummary {
    /// Records examined.
    pub record_count: u64,
    /// Total findings.
    pub finding_count: u64,
    /// Findings by ground-truth source.
    pub by_source: BySource,
    /// Helper-arg observations seen across all records (any decision).
    pub helper_args_observed: u64,
    /// Documented-behaviour cases compared.
    pub documented_cases_checked: u64,
    /// Helper-arg observations compared against ground truth.
    pub helper_args_checked: u64,
    /// Evidence notes emitted (never folded into `finding_count`).
    pub note_count: u64,
    /// Register observations the tnum-vs-bounds check could evaluate.
    pub tnum_bounds_checked: u64,
    /// Register observations whose 32-bit view was independent information.
    pub reg32_checked: u64,
    /// Bound-ordering comparisons that could have reported a violation.
    pub bounds_order_checked: u64,
    /// tnum well-formedness comparisons that could have failed.
    pub tnum_wellformed_checked: u64,
    /// Invariant loads run against an accepted baseline.
    pub reg_invariants_checked: u64,
    /// Records carrying a JIT-vs-interpreter comparison.
    pub jit_interp_checked: u64,
    /// Runtime samples compared against the generator's stated intent.
    pub runtime_intent_checked: u64,
    /// Runtime samples compared against the verifier's proven r0 bound.
    pub runtime_checked: u64,
    /// Store samples checked for memory safety.
    pub runtime_writes_checked: u64,
    /// Store observations the store-location check could evaluate.
    pub store_locations_checked: u64,
    /// Liveness-gate cells the check could have fired on.
    pub liveness_gate_checked: u64,
    /// Pruning differentials whose flagged run changed the state space.
    pub prune_pairs_checked: u64,
    /// Differentials that flipped in the resource direction.
    pub prune_resource_artifacts: u64,
}

/// A denominator by the summary field name the registry uses.
pub open spec fn denominator_spec(s: DiffSummary, field: Seq<char>) -> Option<u64> {
    if field == "helper_args_checked"@ {
        Some(s.helper_args_checked)
    } else if field == "documented_cases_checked"@ {
        Some(s.documented_cases_checked)
    } else if field == "tnum_bounds_checked"@ {
        Some(s.tnum_bounds_checked)
    } else if field == "reg32_checked"@ {
        Some(s.reg32_checked)
    } else if field == "bounds_order_checked"@ {
        Some(s.bounds_order_checked)
    } else if field == "tnum_wellformed_checked"@ {
        Some(s.tnum_wellformed_checked)
    } else if field == "reg_invariants_checked"@ {
        Some(s.reg_invariants_checked)
    } else if field == "jit_interp_checked"@ {
        Some(s.jit_interp_checked)
    } else if field == "runtime_intent_checked"@ {
        Some(s.runtime_intent_checked)
    } else if field == "runtime_checked"@ {
        Some(s.runtime_checked)
    } else if field == "runtime_writes_checked"@ {
        Some(s.runtime_writes_checked)
    } else if field == "store_locations_checked"@ {
        Some(s.store_locations_checked)
    } else if field == "prune_pairs_checked"@ {
        Some(s.prune_pairs_checked)
    } else if field == "liveness_gate_checked"@ {
        Some(s.liveness_gate_checked)
    } else {
        None
    }
}

/// Every finding kind the diff can emit, with the summary field counting how
/// often its check could have fired.
pub open spec fn registry(kind: Seq<char>) -> Option<Seq<char>> {
    if kind == "const_tnum_range_mismatch"@ {
        Some("tnum_bounds_checked"@)
    } else if kind == "documented_behavior_mismatch"@ {
        Some("documented_cases_checked"@)
    } else if kind == "documented_message_drift"@ {
        Some("documented_cases_checked"@)
    } else if kind == "helper_arg_type_mismatch"@ {
        Some("helper_args_checked"@)
    } else if kind == "jit_interp_divergence"@ {
        Some("jit_interp_checked"@)
    } else if kind == "liveness_gate_overreach"@ {
        Some("liveness_gate_checked"@)
    } else if kind == "prune_soundness_desync"@ {
        Some("prune_pairs_checked"@)
    } else if kind == "prune_verdict_disagreement"@ {
        Some("prune_pairs_checked"@)
    } else if kind == "reg32_reg64_inconsistent"@ {
        Some("reg32_checked"@)
    } else if kind == "reg_invariants_violation"@ {
        Some("reg_invariants_checked"@)
    } else if kind == "runtime_bound_violation"@ {
        Some("runtime_checked"@)
    } else if kind == "runtime_intent_violation"@ {
        Some("runtime_intent_checked"@)
    } else if kind == "runtime_oob_write"@ {
        Some("runtime_writes_checked"@)
    } else if kind == "s32_bounds_inverted"@ {
        Some("bounds_order_checked"@)
    } else if kind == "signed_bounds_inverted"@ {
        Some("bounds_order_checked"@)
    } else if kind == "store_location_desync"@ {
        Some("store_locations_checked"@)
    } else if kind == "tnum32_bounds_inconsistent"@ {
        Some("reg32_checked"@)
    } else if kind == "tnum_bounds_inconsistent"@ {
        Some("tnum_bounds_checked"@)
    } else if kind == "tnum_malformed"@ {
        Some("tnum_wellformed_checked"@)
    } else if kind == "u32_bounds_inverted"@ {
        Some("bounds_order_checked"@)
    } else if kind == "unsigned_bounds_inverted"@ {
        Some("bounds_order_checked"@)
    } else {
        None
    }
}

/// The summary field counting the checks behind a finding kind, if the kind is
/// registered.
pub fn invariant_denominator(kind: &str) -> (r: Option<&'static str>)
    ensures
        match registry(kind@) {
            Some(f) => r matches Some(x) && x@ == f,
            None => r is None,
        },
{
    let k = chars_of(kind);
    if eq_lit(&k, "const_tnum_range_mismatch") {
        Some("tnum_bounds_checked")
    } else if eq_lit(&k, "documented_behavior_mismatch") {
        Some("documented_cases_checked")
    } else if eq_lit(&k, "documented_message_drift") {
        Some("documented_cases_checked")
    } else if eq_lit(&k, "helper_arg_type_mismatch") {
        Some("helper_args_checked")
    } else if eq_lit(&k, "jit_interp_divergence") {
        Some("jit_interp_checked")
    } else if eq_lit(&k, "liveness_gate_overreach") {
        Some("liveness_gate_checked")
    } else if eq_lit(&k, "prune_soundness_desync") {
        Some("prune_pairs_checked")
    } else if eq_lit(&k, "prune_verdict_disagreement") {
        Some("prune_pairs_checked")
    } else if eq_lit(&k, "reg32_reg64_inconsistent") {
        Some("reg32_checked")
    } else if eq_lit(&k, "reg_invariants_violation") {
        Some("reg_invariants_checked")
    } else if eq_lit(&k, "runtime_bound_violation") {
        Some("runtime_checked")
    } else if eq_lit(&k, "runtime_intent_violation") {
        Some("runtime_intent_checked")
    } else if eq_lit(&k, "runtime_oob_write") {
        Some("runtime_writes_checked")
    } else if eq_lit(&k, "s32_bounds_inverted") {
        Some("bounds_order_checked")
    } else if eq_lit(&k, "signed_bounds_inverted") {
        Some("bounds_order_checked")
    } else if eq_lit(&k, "store_location_desync") {
        Some("store_locations_checked")
    } else if eq_lit(&k, "tnum32_bounds_inconsistent") {
        Some("reg32_checked")
    } else if eq_lit(&k, "tnum_bounds_inconsistent") {
        Some("tnum_bounds_checked")
    } else if eq_lit(&k, "tnum_malformed") {
        Some("tnum_wellformed_checked")
    } else if eq_lit(&k, "u32_bounds_inverted") {
        Some("bounds_order_checked")
    } else if eq_lit(&k, "unsigned_bounds_inverted") {
        Some("bounds_order_checked")
    } else {
        None
    }
}

impl DiffSummary {
    /// Reads a denominator by the field name the registry uses; `None` when the
    /// name does not resolve.
    pub fn denominator(&self, field: &str) -> (r: Option<u64>)
        ensures
            r == denominator_spec(*self, field@),
    {
        let f = chars_of(field);
        if eq_lit(&f, "helper_args_checked") {
            Some(self.helper_args_checked)
        } else if eq_lit(&f, "documented_cases_checked") {
            Some(self.documented_cases_checked)
        } else if eq_lit(&f, "tnum_bounds_checked") {
            Some(self.tnum_bounds_checked)
        } else if eq_lit(&f, "reg32_checked") {
            Some(self.reg32_checked)
        } else if eq_lit(&f, "bounds_order_checked") {
            Some(self.bounds_order_checked)
        } else if eq_lit(&f, "tnum_wellformed_checked") {
            Some(self.tnum_wellformed_checked)
        } else if eq_lit(&f, "reg_invariants_checked") {
            Some(self.reg_invariants_checked)
        } else if eq_lit(&f, "jit_interp_checked") {
            Some(self.jit_interp_checked)
        } else if eq_lit(&f, "runtime_intent_checked") {
            Some(self.runtime_intent_checked)
        } else if eq_lit(&f, "runtime_checked") {
            Some(self.runtime_checked)
        } else if eq_lit(&f, "runtime_writes_checked") {
            Some(self.runtime_writes_checked)
        } else if eq_lit(&f, "store_locations_checked") {
            Some(self.store_locations_checked)
        } else if eq_lit(&f, "prune_pairs_checked") {
            Some(self.prune_pairs_checked)
        } else if eq_lit(&f, "liveness_gate_checked") {
            Some(self.liveness_gate_checked)
        } else {
            None
        }
    }

    /// The denominator behind a finding kind, or `None` if the kind is unregistered.
    pub fn denominator_for_kind(&self, kind: &str) -> (r: Option<u64>)
        ensures
            r == (match registry(kind@) {
                Some(f) => denominator_spec(*self, f),
                None => None,
            }),
    {
        match invariant_denominator(kind) {
            Some(f) => self.denominator(f),
            None => None,
        }
    }
}

/// Every registered kind names a field that resolves: the registry cannot point
/// at a denominator nobody can read.
pub proof fn lemma_registry_resolves(kind: Seq<char>, s: DiffSummary)
    ensures
        registry(kind) matches Some(f) ==> denominator_spec(s, f) is Some,
{
}

/// The DIFF_FINDINGS payload for a period.
#[derive(Debug, Clone, PartialEq, Eq)]
pub struct DiffFindings {
    /// Exec count N.
    pub exec_count: u64,
    /// All documented-vs-observed discrepancies.
    pub findings: Vec<DivergenceFinding>,
    /// Qualified evidence that is explicitly not a verdict.
    pub notes: Vec<EvidenceNote>,
    /// Period-level summary.
    pub summary: DiffSummary,
}

// ---------------------------------------------------------------------------
// The whole period
// ---------------------------------------------------------------------------

/// Every finding one record raises, in check order.
pub open spec fn record_keys<G: GroundTruth>(idx: u64, r: MetricRecord, gt: G) -> Seq<FindingKey> {
    let c = r.core;
    logical_keys(idx, c) + snaps_sub_keys(idx, c.register_evolution@) + record_retval_keys(idx, c)
        + record_intent_keys(idx, c) + gate_keys(idx, c) + flat_keys(
        c.runtime_samples@,
        |s: RuntimeSample| write_keys(idx, s),
    ) + record_store_keys(idx, c) + prune_keys(idx, c) + flat_keys(
        c.helper_arg_violations@,
        |v: HelperArgViolation| proto_keys(idx, gt, v),
    ) + record_obs_keys(idx, c, gt) + doc_keys(idx, r.source_label, c, gt)
}

/// Findings over the first `n` records.
pub open spec fn period_keys<G: GroundTruth>(rs: Seq<MetricRecord>, gt: G, n: nat) -> Seq<FindingKey>
    decreases n,
{
    if n == 0 {
        seq![]
    } else {
        period_keys(rs, gt, (n - 1) as nat) + record_keys((n - 1) as u64, rs[n - 1], gt)
    }
}

/// Evidence notes over the first `n` records.
pub open spec fn period_note_keys<G: GroundTruth>(rs: Seq<MetricRecord>, gt: G, n: nat) -> Seq<
    FindingKey,
>
    decreases n,
{
    if n == 0 {
        seq![]
    } else {
        period_note_keys(rs, gt, (n - 1) as nat) + doc_note_keys(
            (n - 1) as u64,
            rs[n - 1].source_label,
            rs[n - 1].core,
            gt,
        )
    }
}

/// The per-record counter budget: an upper bound on what any one counter can
/// gain from the record.
pub open spec fn budget(c: CoreMetrics) -> nat {
    8 * nregs(c.register_evolution@) + 10 * gate_rows(c) + c.runtime_samples@.len()
        + c.helper_arg_observations@.len() + 8
}

/// Store samples checked for memory safety in one record.
pub open spec fn c_writes(c: CoreMetrics) -> nat {
    sum_count(c.runtime_samples@, |s: RuntimeSample| write_count(s))
}

pub open spec fn c_doc<G: GroundTruth>(r: MetricRecord, gt: G) -> nat {
    if doc_outcome(r.source_label, gt) is Some {
        1
    } else {
        0
    }
}

/// The summary a period's records produce.
pub open spec fn summary_of<G: GroundTruth>(rs: Seq<MetricRecord>, gt: G) -> DiffSummary {
    let keys = period_keys(rs, gt, rs.len());
    DiffSummary {
        record_count: rs.len() as u64,
        finding_count: keys.len() as u64,
        by_source: tally(keys),
        helper_args_observed: sum_count(
            rs,
            |r: MetricRecord| r.core.helper_arg_observations@.len(),
        ) as u64,
        documented_cases_checked: sum_count(rs, |r: MetricRecord| c_doc(r, gt)) as u64,
        helper_args_checked: sum_count(rs, |r: MetricRecord| record_obs_count(r.core, gt)) as u64,
        note_count: period_note_keys(rs, gt, rs.len()).len() as u64,
        tnum_bounds_checked: sum_count(
            rs,
            |r: MetricRecord| snaps_count(Counter::TnumBounds, r.core.register_evolution@),
        ) as u64,
        reg32_checked: sum_count(
            rs,
            |r: MetricRecord| snaps_count(Counter::Reg32, r.core.register_evolution@),
        ) as u64,
        bounds_order_checked: sum_count(
            rs,
            |r: MetricRecord|
                snaps_count(Counter::Order64, r.core.register_evolution@) + snaps_count(
                    Counter::Order32,
                    r.core.register_evolution@,
                ),
        ) as u64,
        tnum_wellformed_checked: sum_count(
            rs,
            |r: MetricRecord| snaps_count(Counter::Wellformed, r.core.register_evolution@),
        ) as u64,
        reg_invariants_checked: sum_count(rs, |r: MetricRecord| inv_count(r.core)) as u64,
        jit_interp_checked: sum_count(rs, |r: MetricRecord| jit_count(r.core)) as u64,
        runtime_intent_checked: sum_count(rs, |r: MetricRecord| record_intent_count(r.core)) as u64,
        runtime_checked: sum_count(rs, |r: MetricRecord| record_retval_count(r.core)) as u64,
        runtime_writes_checked: sum_count(
            rs,
            |r: MetricRecord| c_writes(r.core),
        ) as u64,
        store_locations_checked: sum_count(rs, |r: MetricRecord| record_store_count(r.core)) as u64,
        liveness_gate_checked: sum_count(rs, |r: MetricRecord| gate_count(r.core)) as u64,
        prune_pairs_checked: sum_count(rs, |r: MetricRecord| prune_count(r.core)) as u64,
        prune_resource_artifacts: sum_count(rs, |r: MetricRecord| prune_artifact_count(r.core))
            as u64,
    }
}

} // verus!

verus! {

proof fn lemma_sum_mono<T>(s: Seq<T>, f: spec_fn(T) -> nat, g: spec_fn(T) -> nat)
    requires
        forall|x: T| #[trigger] f(x) <= g(x),
    ensures
        sum_count(s, f) <= sum_count(s, g),
    decreases s.len(),
{
    if s.len() > 0 {
        lemma_sum_mono(s.drop_last(), f, g);
    }
}

pub(crate) proof fn lemma_sum_prefix<T>(s: Seq<T>, f: spec_fn(T) -> nat, i: int)
    requires
        0 <= i <= s.len(),
    ensures
        sum_count(s.take(i), f) <= sum_count(s, f),
    decreases s.len() - i,
{
    if i < s.len() {
        lemma_sum_prefix(s, f, i + 1);
        lemma_sum_take(s, f, i);
    } else {
        lemma_take_all(s);
    }
}

/// Every counter gains at most the record's budget.
proof fn lemma_counts_within_budget<G: GroundTruth>(gt: G)
    ensures
        forall|r: MetricRecord| #[trigger]
            snaps_count(Counter::TnumBounds, r.core.register_evolution@) <= budget(r.core),
        forall|r: MetricRecord| #[trigger]
            snaps_count(Counter::Reg32, r.core.register_evolution@) <= budget(r.core),
        forall|r: MetricRecord| #[trigger]
            snaps_count(Counter::Wellformed, r.core.register_evolution@) <= budget(r.core),
        forall|r: MetricRecord|
            #[trigger] snaps_count(Counter::Order64, r.core.register_evolution@) + snaps_count(
                Counter::Order32,
                r.core.register_evolution@,
            ) <= budget(r.core),
        forall|r: MetricRecord| #[trigger] inv_count(r.core) <= budget(r.core),
        forall|r: MetricRecord| #[trigger] jit_count(r.core) <= budget(r.core),
        forall|r: MetricRecord| #[trigger] record_intent_count(r.core) <= budget(r.core),
        forall|r: MetricRecord| #[trigger] record_retval_count(r.core) <= budget(r.core),
        forall|r: MetricRecord| #[trigger]
            c_writes(r.core) <= budget(r.core),
        forall|r: MetricRecord| #[trigger] record_store_count(r.core) <= budget(r.core),
        forall|r: MetricRecord| #[trigger] gate_count(r.core) <= budget(r.core),
        forall|r: MetricRecord| #[trigger] prune_count(r.core) <= budget(r.core),
        forall|r: MetricRecord| #[trigger] prune_artifact_count(r.core) <= budget(r.core),
        forall|r: MetricRecord| #[trigger] record_obs_count(r.core, gt) <= budget(r.core),
        forall|r: MetricRecord| #[trigger] r.core.helper_arg_observations@.len() <= budget(r.core),
        forall|r: MetricRecord| #[trigger] c_doc(r, gt) <= budget(r.core),
{
    assert forall|r: MetricRecord| #[trigger]
        snaps_count(Counter::TnumBounds, r.core.register_evolution@) <= budget(r.core) by {
        lemma_snaps_count_bound(Counter::TnumBounds, r.core.register_evolution@);
    }
    assert forall|r: MetricRecord| #[trigger]
        snaps_count(Counter::Reg32, r.core.register_evolution@) <= budget(r.core) by {
        lemma_snaps_count_bound(Counter::Reg32, r.core.register_evolution@);
    }
    assert forall|r: MetricRecord| #[trigger]
        snaps_count(Counter::Wellformed, r.core.register_evolution@) <= budget(r.core) by {
        lemma_snaps_count_bound(Counter::Wellformed, r.core.register_evolution@);
    }
    assert forall|r: MetricRecord|
        #[trigger] snaps_count(Counter::Order64, r.core.register_evolution@) + snaps_count(
            Counter::Order32,
            r.core.register_evolution@,
        ) <= budget(r.core) by {
        lemma_snaps_count_bound(Counter::Order64, r.core.register_evolution@);
        lemma_snaps_count_bound(Counter::Order32, r.core.register_evolution@);
    }
    assert forall|r: MetricRecord| #[trigger] record_intent_count(r.core) <= budget(r.core) by {
        crate::diff::lemma_sum_bound(
            r.core.runtime_samples@,
            |s: RuntimeSample| crate::diff::runtime::intent_count(r.core.intended_retval, s),
            1,
        );
    }
    assert forall|r: MetricRecord| #[trigger] record_retval_count(r.core) <= budget(r.core) by {
        crate::diff::lemma_sum_bound(
            r.core.runtime_samples@,
            |s: RuntimeSample| crate::diff::proven::retval_count(s),
            1,
        );
    }
    assert forall|r: MetricRecord| #[trigger] c_writes(r.core) <= budget(r.core) by {
        crate::diff::lemma_sum_bound(r.core.runtime_samples@, |s: RuntimeSample| write_count(s), 1);
    }
    assert forall|r: MetricRecord| #[trigger] record_store_count(r.core) <= budget(r.core) by {
        crate::diff::lemma_sum_bound(
            r.core.runtime_samples@,
            |s: RuntimeSample| crate::diff::proven::store_sample_count(s),
            1,
        );
    }
    assert forall|r: MetricRecord| #[trigger] gate_count(r.core) <= budget(r.core) by {
        match r.core.liveness_gate {
            Some(g) => match g.claim {
                Some(c) => {
                    assert forall|row: (u32, u16)| #[trigger]
                        crate::diff::runtime::gate_row_count(c@, row) <= 10 by {
                        if (row.0 as int) < c@.len() {
                            crate::diff::runtime::lemma_live_row_count_bound(c@[row.0 as int], 10);
                        }
                    }
                    crate::diff::lemma_sum_bound(
                        g.kernel@,
                        |row: (u32, u16)| crate::diff::runtime::gate_row_count(c@, row),
                        10,
                    );
                },
                None => {},
            },
            None => {},
        }
    }
    assert forall|r: MetricRecord| #[trigger] record_obs_count(r.core, gt) <= budget(r.core) by {
        crate::diff::lemma_sum_bound(
            r.core.helper_arg_observations@,
            |o: crate::metrics::HelperArgObservation| crate::diff::sources::obs_count(gt, o),
            1,
        );
    }
}

/// Compares a period's records against ground truth: every intrinsic check, the
/// runtime and pruning checks, and the source-backed checks, in that order per
/// record, with every denominator counted.
#[verifier::rlimit(40)]
pub fn diff_metrics<G: GroundTruth>(records: &Vec<MetricRecord>, exec_count: u64, gt: &G) -> (r:
    DiffFindings)
    requires
        sum_count(records@, |r: MetricRecord| budget(r.core)) <= u64::MAX,
        forall|i: int| 0 <= i < records@.len() ==> store_site_sane(#[trigger] records@[i].core),
    ensures
        r.exec_count == exec_count,
        fkeys(r.findings@) == period_keys(records@, *gt, records@.len()),
        nkeys(r.notes@) == period_note_keys(records@, *gt, records@.len()),
        r.summary == summary_of(records@, *gt),
{
    let ghost rs = records@;
    let ghost g = *gt;
    let mut findings: Vec<DivergenceFinding> = Vec::new();
    let mut notes: Vec<EvidenceNote> = Vec::new();
    let mut helper_args_observed: u64 = 0;
    let mut helper_args_checked: u64 = 0;
    let mut documented_cases_checked: u64 = 0;
    let mut tnum_bounds_checked: u64 = 0;
    let mut reg32_checked: u64 = 0;
    let mut bounds_order_checked: u64 = 0;
    let mut tnum_wellformed_checked: u64 = 0;
    let mut reg_invariants_checked: u64 = 0;
    let mut jit_interp_checked: u64 = 0;
    let mut runtime_intent_checked: u64 = 0;
    let mut liveness_gate_checked: u64 = 0;
    let mut runtime_checked: u64 = 0;
    let mut runtime_writes_checked: u64 = 0;
    let mut store_locations_checked: u64 = 0;
    let mut prune_pairs_checked: u64 = 0;
    let mut prune_resource_artifacts: u64 = 0;
    proof {
        lemma_counts_within_budget(g);
        assert(fkeys(findings@) =~= period_keys(rs, g, 0));
        assert(nkeys(notes@) =~= period_note_keys(rs, g, 0));
    }
    let mut i: usize = 0;
    while i < records.len()
        invariant
            i <= rs.len(),
            rs == records@,
            g == *gt,
            sum_count(rs, |r: MetricRecord| budget(r.core)) <= u64::MAX,
            forall|k: int| 0 <= k < rs.len() ==> store_site_sane(#[trigger] rs[k].core),
            fkeys(findings@) == period_keys(rs, g, i as nat),
            nkeys(notes@) == period_note_keys(rs, g, i as nat),
            helper_args_observed == sum_count(
                rs.take(i as int),
                |r: MetricRecord| r.core.helper_arg_observations@.len(),
            ),
            documented_cases_checked == sum_count(rs.take(i as int), |r: MetricRecord| c_doc(r, g)),
            helper_args_checked == sum_count(
                rs.take(i as int),
                |r: MetricRecord| record_obs_count(r.core, g),
            ),
            tnum_bounds_checked == sum_count(
                rs.take(i as int),
                |r: MetricRecord| snaps_count(Counter::TnumBounds, r.core.register_evolution@),
            ),
            reg32_checked == sum_count(
                rs.take(i as int),
                |r: MetricRecord| snaps_count(Counter::Reg32, r.core.register_evolution@),
            ),
            bounds_order_checked == sum_count(
                rs.take(i as int),
                |r: MetricRecord|
                    snaps_count(Counter::Order64, r.core.register_evolution@) + snaps_count(
                        Counter::Order32,
                        r.core.register_evolution@,
                    ),
            ),
            tnum_wellformed_checked == sum_count(
                rs.take(i as int),
                |r: MetricRecord| snaps_count(Counter::Wellformed, r.core.register_evolution@),
            ),
            reg_invariants_checked == sum_count(rs.take(i as int), |r: MetricRecord| inv_count(r.core)),
            jit_interp_checked == sum_count(rs.take(i as int), |r: MetricRecord| jit_count(r.core)),
            runtime_intent_checked == sum_count(
                rs.take(i as int),
                |r: MetricRecord| record_intent_count(r.core),
            ),
            runtime_checked == sum_count(
                rs.take(i as int),
                |r: MetricRecord| record_retval_count(r.core),
            ),
            runtime_writes_checked == sum_count(
                rs.take(i as int),
                |r: MetricRecord|
                    c_writes(r.core),
            ),
            store_locations_checked == sum_count(
                rs.take(i as int),
                |r: MetricRecord| record_store_count(r.core),
            ),
            liveness_gate_checked == sum_count(rs.take(i as int), |r: MetricRecord| gate_count(r.core)),
            prune_pairs_checked == sum_count(rs.take(i as int), |r: MetricRecord| prune_count(r.core)),
            prune_resource_artifacts == sum_count(
                rs.take(i as int),
                |r: MetricRecord| prune_artifact_count(r.core),
            ),
        decreases rs.len() - i,
    {
        let rec = &records[i];
        let core = &rec.core;
        let idx = i as u64;
        let ghost bprev = sum_count(rs.take(i as int), |r: MetricRecord| budget(r.core));
        proof {
            lemma_counts_within_budget(g);
            lemma_sum_prefix(rs, |r: MetricRecord| budget(r.core), i + 1);
            lemma_sum_take(rs, |r: MetricRecord| budget(r.core), i as int);
            let t = rs.take(i as int);
            lemma_sum_mono(
                t,
                |r: MetricRecord| r.core.helper_arg_observations@.len(),
                |r: MetricRecord| budget(r.core),
            );
            lemma_sum_mono(t, |r: MetricRecord| c_doc(r, g), |r: MetricRecord| budget(r.core));
            lemma_sum_mono(
                t,
                |r: MetricRecord| record_obs_count(r.core, g),
                |r: MetricRecord| budget(r.core),
            );
            lemma_sum_mono(
                t,
                |r: MetricRecord| snaps_count(Counter::TnumBounds, r.core.register_evolution@),
                |r: MetricRecord| budget(r.core),
            );
            lemma_sum_mono(
                t,
                |r: MetricRecord| snaps_count(Counter::Reg32, r.core.register_evolution@),
                |r: MetricRecord| budget(r.core),
            );
            lemma_sum_mono(
                t,
                |r: MetricRecord|
                    snaps_count(Counter::Order64, r.core.register_evolution@) + snaps_count(
                        Counter::Order32,
                        r.core.register_evolution@,
                    ),
                |r: MetricRecord| budget(r.core),
            );
            lemma_sum_mono(
                t,
                |r: MetricRecord| snaps_count(Counter::Wellformed, r.core.register_evolution@),
                |r: MetricRecord| budget(r.core),
            );
            lemma_sum_mono(t, |r: MetricRecord| inv_count(r.core), |r: MetricRecord| budget(r.core));
            lemma_sum_mono(t, |r: MetricRecord| jit_count(r.core), |r: MetricRecord| budget(r.core));
            lemma_sum_mono(
                t,
                |r: MetricRecord| record_intent_count(r.core),
                |r: MetricRecord| budget(r.core),
            );
            lemma_sum_mono(
                t,
                |r: MetricRecord| record_retval_count(r.core),
                |r: MetricRecord| budget(r.core),
            );
            lemma_sum_mono(
                t,
                |r: MetricRecord|
                    c_writes(r.core),
                |r: MetricRecord| budget(r.core),
            );
            lemma_sum_mono(
                t,
                |r: MetricRecord| record_store_count(r.core),
                |r: MetricRecord| budget(r.core),
            );
            lemma_sum_mono(t, |r: MetricRecord| gate_count(r.core), |r: MetricRecord| budget(r.core));
            lemma_sum_mono(t, |r: MetricRecord| prune_count(r.core), |r: MetricRecord| budget(r.core));
            lemma_sum_mono(
                t,
                |r: MetricRecord| prune_artifact_count(r.core),
                |r: MetricRecord| budget(r.core),
            );
            lemma_snaps_count_bound(Counter::Order64, core.register_evolution@);
            assert(bprev + budget(*core) <= u64::MAX);
        }
        let ghost k0 = fkeys(findings@);
        let ghost n0 = nkeys(notes@);
        helper_args_observed = helper_args_observed + core.helper_arg_observations.len() as u64;
        check_logical_invariants(
            idx,
            core,
            &mut findings,
            &mut tnum_bounds_checked,
            &mut bounds_order_checked,
            &mut tnum_wellformed_checked,
            &mut jit_interp_checked,
        );
        check_subregister_invariants(
            idx,
            core,
            &mut findings,
            &mut reg32_checked,
            &mut bounds_order_checked,
        );
        check_runtime_ground_truth(idx, core, &mut findings, &mut runtime_checked);
        check_runtime_intent(idx, core, &mut findings, &mut runtime_intent_checked);
        check_liveness_gate(idx, core, &mut findings, &mut liveness_gate_checked);
        check_runtime_write_safety(idx, core, &mut findings, &mut runtime_writes_checked);
        check_store_location(idx, core, &mut findings, &mut store_locations_checked);
        check_prune_differential(
            idx,
            core,
            &mut findings,
            &mut prune_pairs_checked,
            &mut prune_resource_artifacts,
            &mut reg_invariants_checked,
        );
        check_helper_proto(idx, core, gt, &mut findings);
        check_helper_observations(idx, core, gt, &mut findings, &mut helper_args_checked);
        if check_documented_behavior(idx, &rec.source_label, core, gt, &mut findings, &mut notes) {
            documented_cases_checked = documented_cases_checked + 1;
        }
        proof {
            let t = rs.take(i as int);
            lemma_sum_take(rs, |r: MetricRecord| r.core.helper_arg_observations@.len(), i as int);
            lemma_sum_take(rs, |r: MetricRecord| c_doc(r, g), i as int);
            lemma_sum_take(rs, |r: MetricRecord| record_obs_count(r.core, g), i as int);
            lemma_sum_take(
                rs,
                |r: MetricRecord| snaps_count(Counter::TnumBounds, r.core.register_evolution@),
                i as int,
            );
            lemma_sum_take(
                rs,
                |r: MetricRecord| snaps_count(Counter::Reg32, r.core.register_evolution@),
                i as int,
            );
            lemma_sum_take(
                rs,
                |r: MetricRecord|
                    snaps_count(Counter::Order64, r.core.register_evolution@) + snaps_count(
                        Counter::Order32,
                        r.core.register_evolution@,
                    ),
                i as int,
            );
            lemma_sum_take(
                rs,
                |r: MetricRecord| snaps_count(Counter::Wellformed, r.core.register_evolution@),
                i as int,
            );
            lemma_sum_take(rs, |r: MetricRecord| inv_count(r.core), i as int);
            lemma_sum_take(rs, |r: MetricRecord| jit_count(r.core), i as int);
            lemma_sum_take(rs, |r: MetricRecord| record_intent_count(r.core), i as int);
            lemma_sum_take(rs, |r: MetricRecord| record_retval_count(r.core), i as int);
            lemma_sum_take(
                rs,
                |r: MetricRecord|
                    c_writes(r.core),
                i as int,
            );
            lemma_sum_take(rs, |r: MetricRecord| record_store_count(r.core), i as int);
            lemma_sum_take(rs, |r: MetricRecord| gate_count(r.core), i as int);
            lemma_sum_take(rs, |r: MetricRecord| prune_count(r.core), i as int);
            lemma_sum_take(rs, |r: MetricRecord| prune_artifact_count(r.core), i as int);
            assert(rs[i as int] == *rec);
            assert(fkeys(findings@) =~= period_keys(rs, g, (i + 1) as nat));
            assert(nkeys(notes@) =~= period_note_keys(rs, g, (i + 1) as nat));
        }
        i = i + 1;
    }
    proof {
        lemma_take_all(rs);
    }
    let mut by_source = BySource::new();
    let ghost keys = fkeys(findings@);
    let mut j: usize = 0;
    while j < findings.len()
        invariant
            j <= findings@.len(),
            keys == fkeys(findings@),
            by_source.verifier_c == count_source(keys.take(j as int), GroundTruthSource::VerifierC),
            by_source.documentation == count_source(
                keys.take(j as int),
                GroundTruthSource::Documentation,
            ),
            by_source.helper_proto == count_source(keys.take(j as int), GroundTruthSource::HelperProto),
            by_source.patch_diff == count_source(keys.take(j as int), GroundTruthSource::PatchDiff),
            by_source.logical_invariant == count_source(
                keys.take(j as int),
                GroundTruthSource::LogicalInvariant,
            ),
        decreases findings@.len() - j,
    {
        proof {
            let t = keys.take(j as int);
            lemma_count_source_len(t, GroundTruthSource::VerifierC);
            lemma_count_source_len(t, GroundTruthSource::Documentation);
            lemma_count_source_len(t, GroundTruthSource::HelperProto);
            lemma_count_source_len(t, GroundTruthSource::PatchDiff);
            lemma_count_source_len(t, GroundTruthSource::LogicalInvariant);
            assert(keys.take(j + 1).drop_last() =~= t);
            assert(keys.take(j + 1).last() == fkey(findings@[j as int]));
        }
        by_source.bump(findings[j].source);
        j = j + 1;
    }
    proof {
        assert(keys.take(findings@.len() as int) =~= keys);
    }
    let summary = DiffSummary {
        record_count: records.len() as u64,
        finding_count: findings.len() as u64,
        by_source,
        helper_args_observed,
        helper_args_checked,
        documented_cases_checked,
        note_count: notes.len() as u64,
        tnum_bounds_checked,
        reg32_checked,
        bounds_order_checked,
        tnum_wellformed_checked,
        reg_invariants_checked,
        jit_interp_checked,
        runtime_intent_checked,
        runtime_checked,
        runtime_writes_checked,
        store_locations_checked,
        liveness_gate_checked,
        prune_pairs_checked,
        prune_resource_artifacts,
    };
    DiffFindings { exec_count, findings, notes, summary }
}

} // verus!

verus! {

/// Every key in the sequence names a registered kind.
pub open spec fn registered(keys: Seq<FindingKey>) -> bool {
    forall|i: int| 0 <= i < keys.len() ==> #[trigger] registry(keys[i].2) is Some
}

proof fn lemma_registered_add(a: Seq<FindingKey>, b: Seq<FindingKey>)
    requires
        registered(a),
        registered(b),
    ensures
        registered(a + b),
{
    assert forall|i: int| 0 <= i < (a + b).len() implies #[trigger] registry((a + b)[i].2) is Some by {
        if i < a.len() {
            assert((a + b)[i] == a[i]);
        } else {
            assert((a + b)[i] == b[i - a.len()]);
        }
    }
}

proof fn lemma_registered_flat<T>(s: Seq<T>, f: spec_fn(T) -> Seq<FindingKey>)
    requires
        forall|x: T| registered(#[trigger] f(x)),
    ensures
        registered(flat_keys(s, f)),
    decreases s.len(),
{
    if s.len() > 0 {
        lemma_registered_flat(s.drop_last(), f);
        lemma_registered_add(flat_keys(s.drop_last(), f), f(s.last()));
    }
}

proof fn lemma_registered_reg(idx: u64, insn: u32, reg: crate::metrics::RegState)
    ensures
        registered(crate::diff::reg_logical_keys(idx, insn, reg)),
        registered(crate::diff::reg_sub_keys(idx, insn, reg)),
{
    let e: Seq<FindingKey> = seq![];
    assert(registered(e));
    assert(registry("tnum_malformed"@) is Some);
    assert(registry("unsigned_bounds_inverted"@) is Some);
    assert(registry("signed_bounds_inverted"@) is Some);
    assert(registry("const_tnum_range_mismatch"@) is Some);
    assert(registry("tnum_bounds_inconsistent"@) is Some);
    assert(registry("u32_bounds_inverted"@) is Some);
    assert(registry("s32_bounds_inverted"@) is Some);
    assert(registry("tnum32_bounds_inconsistent"@) is Some);
    assert(registry("reg32_reg64_inconsistent"@) is Some);
    assert forall|x: Seq<FindingKey>, y: Seq<FindingKey>|
        registered(x) && registered(y) implies #[trigger] registered(x + y) by {
        lemma_registered_add(x, y);
    }
}

proof fn lemma_registered_regs(idx: u64, insn: u32, regs: Seq<crate::metrics::RegState>)
    ensures
        registered(crate::diff::regs_logical_keys(idx, insn, regs)),
        registered(crate::diff::regs_sub_keys(idx, insn, regs)),
    decreases regs.len(),
{
    if regs.len() > 0 {
        lemma_registered_regs(idx, insn, regs.drop_last());
        let reg = regs.last();
        lemma_registered_reg(idx, insn, reg);
        lemma_registered_add(
            crate::diff::regs_logical_keys(idx, insn, regs.drop_last()),
            crate::diff::reg_logical_keys(idx, insn, reg),
        );
        lemma_registered_add(
            crate::diff::regs_sub_keys(idx, insn, regs.drop_last()),
            crate::diff::reg_sub_keys(idx, insn, reg),
        );
    }
}

proof fn lemma_registered_snaps(idx: u64, snaps: Seq<crate::metrics::RegSnapshot>)
    ensures
        registered(crate::diff::snaps_logical_keys(idx, snaps)),
        registered(snaps_sub_keys(idx, snaps)),
    decreases snaps.len(),
{
    if snaps.len() > 0 {
        lemma_registered_snaps(idx, snaps.drop_last());
        let l = snaps.last();
        lemma_registered_regs(idx, l.insn_idx, l.regs@);
        lemma_registered_add(
            crate::diff::snaps_logical_keys(idx, snaps.drop_last()),
            crate::diff::regs_logical_keys(idx, l.insn_idx, l.regs@),
        );
        lemma_registered_add(
            snaps_sub_keys(idx, snaps.drop_last()),
            crate::diff::regs_sub_keys(idx, l.insn_idx, l.regs@),
        );
    }
}

proof fn lemma_registered_live_row(idx: u64, insn: u32, ours: u16, kmask: u16, n: nat)
    ensures
        registered(crate::diff::runtime::live_row_keys(idx, insn, ours, kmask, n)),
    decreases n,
{
    if n > 0 {
        lemma_registered_live_row(idx, insn, ours, kmask, (n - 1) as nat);
        let r = (n - 1) as u16;
        assert(registry("liveness_gate_overreach"@) is Some);
        lemma_registered_add(
            crate::diff::runtime::live_row_keys(idx, insn, ours, kmask, (n - 1) as nat),
            crate::diff::runtime::live_cell_keys(idx, insn, ours, kmask, r),
        );
    }
}

proof fn lemma_registered_record<G: GroundTruth>(idx: u64, r: MetricRecord, gt: G)
    ensures
        registered(record_keys(idx, r, gt)),
{
    let c = r.core;
    lemma_registered_snaps(idx, c.register_evolution@);
    let lk = logical_keys(idx, c);
    assert(registered(lk)) by {
        assert(registry("jit_interp_divergence"@) is Some);
        assert(registered(crate::diff::jit_keys(idx, c)));
        lemma_registered_add(
            crate::diff::snaps_logical_keys(idx, c.register_evolution@),
            crate::diff::jit_keys(idx, c),
        );
    }
    let a = record_retval_keys(idx, c);
    assert(registered(a)) by {
        let u = crate::diff::proven::r0_union(c.register_evolution@);
        lemma_registered_flat(
            c.runtime_samples@,
            |s: RuntimeSample| crate::diff::proven::retval_keys(idx, u, s),
        );
    }
    assert(registered(record_intent_keys(idx, c))) by {
        lemma_registered_flat(
            c.runtime_samples@,
            |s: RuntimeSample| crate::diff::runtime::intent_keys(idx, c.intended_retval, s),
        );
    }
    assert(registered(gate_keys(idx, c))) by {
        match c.liveness_gate {
            Some(g) => match g.claim {
                Some(cl) => {
                    assert forall|row: (u32, u16)|
                        registered(#[trigger] crate::diff::runtime::gate_row_keys(idx, cl@, row)) by {
                        if (row.0 as int) < cl@.len() {
                            lemma_registered_live_row(idx, row.0, cl@[row.0 as int], row.1, 10);
                        }
                    }
                    lemma_registered_flat(
                        g.kernel@,
                        |row: (u32, u16)| crate::diff::runtime::gate_row_keys(idx, cl@, row),
                    );
                },
                None => {},
            },
            None => {},
        }
    }
    lemma_registered_flat(c.runtime_samples@, |s: RuntimeSample| write_keys(idx, s));
    assert(registered(record_store_keys(idx, c))) by {
        match c.store_site {
            Some(site) => {
                let cl = crate::diff::proven::claims(site, c.register_evolution@);
                lemma_registered_flat(
                    c.runtime_samples@,
                    |s: RuntimeSample|
                        crate::diff::proven::store_sample_keys(idx, site, cl, s),
                );
            },
            None => {},
        }
    }
    assert(registered(prune_keys(idx, c)));
    lemma_registered_flat(c.helper_arg_violations@, |v: HelperArgViolation| proto_keys(idx, gt, v));
    assert(registered(record_obs_keys(idx, c, gt))) by {
        lemma_registered_flat(
            c.helper_arg_observations@,
            |o: crate::metrics::HelperArgObservation| crate::diff::sources::obs_keys(idx, gt, o),
        );
    }
    assert(registered(doc_keys(idx, r.source_label, c, gt)));
    let s1 = lk + snaps_sub_keys(idx, c.register_evolution@);
    lemma_registered_add(lk, snaps_sub_keys(idx, c.register_evolution@));
    lemma_registered_add(s1, a);
    let s2 = s1 + a;
    lemma_registered_add(s2, record_intent_keys(idx, c));
    let s3 = s2 + record_intent_keys(idx, c);
    lemma_registered_add(s3, gate_keys(idx, c));
    let s4 = s3 + gate_keys(idx, c);
    let w = flat_keys(c.runtime_samples@, |s: RuntimeSample| write_keys(idx, s));
    lemma_registered_add(s4, w);
    let s5 = s4 + w;
    lemma_registered_add(s5, record_store_keys(idx, c));
    let s6 = s5 + record_store_keys(idx, c);
    lemma_registered_add(s6, prune_keys(idx, c));
    let s7 = s6 + prune_keys(idx, c);
    let pk = flat_keys(c.helper_arg_violations@, |v: HelperArgViolation| proto_keys(idx, gt, v));
    lemma_registered_add(s7, pk);
    let s8 = s7 + pk;
    lemma_registered_add(s8, record_obs_keys(idx, c, gt));
    let s9 = s8 + record_obs_keys(idx, c, gt);
    lemma_registered_add(s9, doc_keys(idx, r.source_label, c, gt));
}

/// Every finding kind the diff emits over a period is registered, and its
/// registered denominator resolves to a summary field: no invariant can report
/// "zero findings" without a counter saying how often it could have fired.
pub proof fn lemma_every_finding_kind_registered<G: GroundTruth>(
    rs: Seq<MetricRecord>,
    gt: G,
    n: nat,
    s: DiffSummary,
)
    requires
        n <= rs.len(),
    ensures
        forall|i: int|
            0 <= i < period_keys(rs, gt, n).len() ==> (#[trigger] registry(
                period_keys(rs, gt, n)[i].2,
            ) matches Some(f) && denominator_spec(s, f) is Some),
    decreases n,
{
    if n > 0 {
        lemma_every_finding_kind_registered(rs, gt, (n - 1) as nat, s);
        lemma_registered_record((n - 1) as u64, rs[n - 1], gt);
        lemma_registered_add(period_keys(rs, gt, (n - 1) as nat), record_keys((n - 1) as u64, rs[n - 1], gt));
    }
    let keys = period_keys(rs, gt, n);
    assert forall|i: int| 0 <= i < keys.len() implies (#[trigger] registry(keys[i].2) matches Some(f)
        && denominator_spec(s, f) is Some) by {
        if n > 0 {
            assert(registry(keys[i].2) is Some);
        }
        lemma_registry_resolves(keys[i].2, s);
    }
}

} // verus!

verus! {

/// The per-source counts partition the findings: they add up to the total.
pub proof fn lemma_tally_total(keys: Seq<FindingKey>)
    ensures
        count_source(keys, GroundTruthSource::VerifierC) + count_source(
            keys,
            GroundTruthSource::Documentation,
        ) + count_source(keys, GroundTruthSource::HelperProto) + count_source(
            keys,
            GroundTruthSource::PatchDiff,
        ) + count_source(keys, GroundTruthSource::LogicalInvariant) == keys.len(),
    decreases keys.len(),
{
    if keys.len() > 0 {
        lemma_tally_total(keys.drop_last());
    }
}

} // verus!

