//! Laws of the diff stage that relate whole periods of records.
use vstd::prelude::*;
use crate::diff::sum_count;
use crate::diff::summary::{
    c_doc, c_writes, period_keys, period_note_keys, record_keys, summary_of,
};
use crate::diff::Counter;
use crate::diff::proven::{record_retval_count, record_store_count};
use crate::diff::runtime::{gate_count, inv_count, prune_artifact_count, prune_count, record_intent_count};
use crate::diff::sources::record_obs_count;
use crate::diff::{jit_count, snaps_count, reg_count, reg_logical_keys, reg_sub_keys, FindingKey};
use crate::metrics::RegState;
use crate::groundtruth::GroundTruth;
use crate::normalize::MetricRecord;

verus! {

/// Two record sequences that agree on every record's observation and label.
pub open spec fn same_observations(rs1: Seq<MetricRecord>, rs2: Seq<MetricRecord>) -> bool {
    &&& rs1.len() == rs2.len()
    &&& forall|k: int|
        0 <= k < rs1.len() ==> (#[trigger] rs1[k]).core == rs2[k].core && rs1[k].source_label
            == rs2[k].source_label
}

proof fn lemma_sum_congruent<T>(s1: Seq<T>, s2: Seq<T>, f: spec_fn(T) -> nat)
    requires
        s1.len() == s2.len(),
        forall|k: int| 0 <= k < s1.len() ==> f(#[trigger] s1[k]) == f(s2[k]),
    ensures
        sum_count(s1, f) == sum_count(s2, f),
    decreases s1.len(),
{
    if s1.len() > 0 {
        let (t1, t2) = (s1.drop_last(), s2.drop_last());
        assert forall|k: int| 0 <= k < t1.len() implies f(#[trigger] t1[k]) == f(t2[k]) by {
            assert(t1[k] == s1[k] && t2[k] == s2[k]);
        }
        lemma_sum_congruent(t1, t2, f);
        assert(f(s1[s1.len() - 1]) == f(s2[s2.len() - 1]));
    }
}

proof fn lemma_keys_congruent<G: GroundTruth>(
    rs1: Seq<MetricRecord>,
    rs2: Seq<MetricRecord>,
    gt: G,
    n: nat,
)
    requires
        same_observations(rs1, rs2),
        n <= rs1.len(),
    ensures
        period_keys(rs1, gt, n) == period_keys(rs2, gt, n),
        period_note_keys(rs1, gt, n) == period_note_keys(rs2, gt, n),
    decreases n,
{
    if n > 0 {
        lemma_keys_congruent(rs1, rs2, gt, (n - 1) as nat);
        let k = n - 1;
        assert(rs1[k].core == rs2[k].core && rs1[k].source_label == rs2[k].source_label);
        assert(record_keys(k as u64, rs1[k], gt) == record_keys(k as u64, rs2[k], gt));
    }
}

/// The diff reads only each record's observation and its provenance label. The
/// counterfactual layer, the expectation flag and the parse notes never change
/// a finding, an evidence note or any count of the summary, so the loop's own
/// alternatives and predictions cannot steer what the diff reports.
pub proof fn lemma_diff_reads_only_observations<G: GroundTruth>(
    rs1: Seq<MetricRecord>,
    rs2: Seq<MetricRecord>,
    gt: G,
)
    requires
        same_observations(rs1, rs2),
    ensures
        period_keys(rs1, gt, rs1.len()) == period_keys(rs2, gt, rs2.len()),
        period_note_keys(rs1, gt, rs1.len()) == period_note_keys(rs2, gt, rs2.len()),
        summary_of(rs1, gt) == summary_of(rs2, gt),
{
    lemma_keys_congruent(rs1, rs2, gt, rs1.len());
    let s1 = summary_of(rs1, gt);
    let s2 = summary_of(rs2, gt);
    lemma_sum_congruent(rs1, rs2, |r: MetricRecord| r.core.helper_arg_observations@.len());
    lemma_sum_congruent(rs1, rs2, |r: MetricRecord| c_doc(r, gt));
    lemma_sum_congruent(rs1, rs2, |r: MetricRecord| record_obs_count(r.core, gt));
    lemma_sum_congruent(
        rs1,
        rs2,
        |r: MetricRecord| snaps_count(Counter::TnumBounds, r.core.register_evolution@),
    );
    lemma_sum_congruent(
        rs1,
        rs2,
        |r: MetricRecord| snaps_count(Counter::Reg32, r.core.register_evolution@),
    );
    lemma_sum_congruent(
        rs1,
        rs2,
        |r: MetricRecord|
            snaps_count(Counter::Order64, r.core.register_evolution@) + snaps_count(
                Counter::Order32,
                r.core.register_evolution@,
            ),
    );
    lemma_sum_congruent(
        rs1,
        rs2,
        |r: MetricRecord| snaps_count(Counter::Wellformed, r.core.register_evolution@),
    );
    lemma_sum_congruent(rs1, rs2, |r: MetricRecord| inv_count(r.core));
    lemma_sum_congruent(rs1, rs2, |r: MetricRecord| jit_count(r.core));
    lemma_sum_congruent(rs1, rs2, |r: MetricRecord| record_intent_count(r.core));
    lemma_sum_congruent(rs1, rs2, |r: MetricRecord| record_retval_count(r.core));
    lemma_sum_congruent(rs1, rs2, |r: MetricRecord| c_writes(r.core));
    lemma_sum_congruent(rs1, rs2, |r: MetricRecord| record_store_count(r.core));
    lemma_sum_congruent(rs1, rs2, |r: MetricRecord| gate_count(r.core));
    lemma_sum_congruent(rs1, rs2, |r: MetricRecord| prune_count(r.core));
    lemma_sum_congruent(rs1, rs2, |r: MetricRecord| prune_artifact_count(r.core));
}

} // verus!

verus! {

/// How many of `keys` are findings of kind `kind`.
pub open spec fn kind_count(keys: Seq<FindingKey>, kind: Seq<char>) -> nat
    decreases keys.len(),
{
    if keys.len() == 0 {
        0
    } else {
        kind_count(keys.drop_last(), kind) + if keys.last().2 == kind {
            1nat
        } else {
            0nat
        }
    }
}

proof fn lemma_kind_count_add(a: Seq<FindingKey>, b: Seq<FindingKey>, kind: Seq<char>)
    ensures
        kind_count(a + b, kind) == kind_count(a, kind) + kind_count(b, kind),
    decreases b.len(),
{
    if b.len() == 0 {
        assert(a + b =~= a);
    } else {
        lemma_kind_count_add(a, b.drop_last(), kind);
        assert((a + b).drop_last() =~= a + b.drop_last());
    }
}

/// Per register, the 64-bit ordering and tnum well-formedness checks each raise
/// their finding exactly when their condition holds: `unsigned_bounds_inverted`
/// when `umin > umax`, `signed_bounds_inverted` when `smin > smax`,
/// `tnum_malformed` when the tnum's value and mask overlap, and
/// `const_tnum_range_mismatch` once for each of the signed and unsigned ranges
/// that a fully known tnum (mask 0), read with its bounds from the log and a
/// stated upper bound, fails to pin to its value (the signed leg only when both
/// signed bounds are stated), and `tnum_bounds_inconsistent` when a non-inverted `[umin, umax]` shares no value
/// with the tnum's span `[value, value | mask]` (the span lies wholly below or
/// wholly above it). Every ordering and well-formedness finding
/// comes with a count in its denominator for the same register, so the findings
/// never outgrow the comparisons that could have raised them.
pub proof fn lemma_register_findings_track_conditions(idx: u64, insn: u32, reg: RegState)
    ensures
        kind_count(reg_logical_keys(idx, insn, reg), "unsigned_bounds_inverted"@) == (if reg.umin
            > reg.umax {
            1nat
        } else {
            0nat
        }),
        kind_count(reg_logical_keys(idx, insn, reg), "signed_bounds_inverted"@) == (if reg.smin
            > reg.smax {
            1nat
        } else {
            0nat
        }),
        kind_count(reg_logical_keys(idx, insn, reg), "tnum_malformed"@) == (if reg.tnum.value
            & reg.tnum.mask != 0 {
            1nat
        } else {
            0nat
        }),
        kind_count(reg_logical_keys(idx, insn, reg), "const_tnum_range_mismatch"@) == (if reg.tnum.mask
            == 0 && reg.umax != u64::MAX && reg.bounds_from_log && reg.smin != i64::MIN && reg.smax
            != i64::MAX && (reg.smin != reg.tnum.value as i64 || reg.smax != reg.tnum.value as i64) {
            1nat
        } else {
            0nat
        }) + (if reg.tnum.mask == 0 && reg.umax != u64::MAX && reg.bounds_from_log && (reg.umin
            != reg.tnum.value || reg.umax != reg.tnum.value) {
            1nat
        } else {
            0nat
        }),
        kind_count(reg_logical_keys(idx, insn, reg), "tnum_bounds_inconsistent"@) == (if reg.umin
            <= reg.umax && !(reg.tnum.value <= reg.umax && reg.umin <= (reg.tnum.value
            | reg.tnum.mask)) {
            1nat
        } else {
            0nat
        }),
        kind_count(reg_logical_keys(idx, insn, reg), "unsigned_bounds_inverted"@) + kind_count(
            reg_logical_keys(idx, insn, reg),
            "signed_bounds_inverted"@,
        ) <= reg_count(Counter::Order64, reg),
        kind_count(reg_logical_keys(idx, insn, reg), "tnum_malformed"@) <= reg_count(
            Counter::Wellformed,
            reg,
        ),
{
    reveal_strlit("tnum_malformed");
    reveal_strlit("unsigned_bounds_inverted");
    reveal_strlit("signed_bounds_inverted");
    reveal_strlit("const_tnum_range_mismatch");
    reveal_strlit("tnum_bounds_inconsistent");
    assert forall|a: Seq<FindingKey>, b: Seq<FindingKey>, k: Seq<char>|
        #[trigger] kind_count(a + b, k) == kind_count(a, k) + kind_count(b, k) by {
        lemma_kind_count_add(a, b, k);
    }
    assert forall|x: FindingKey, k: Seq<char>|
        #[trigger] kind_count(seq![x], k) == (if x.2 == k {
            1nat
        } else {
            0nat
        }) by {
        assert(seq![x].drop_last() =~= Seq::<FindingKey>::empty());
        assert(kind_count(Seq::<FindingKey>::empty(), k) == 0);
        assert(seq![x].last() == x);
    }
    assert forall|k: Seq<char>| #[trigger] kind_count(Seq::<FindingKey>::empty(), k) == 0 by {}
    assert("unsigned_bounds_inverted"@[0] != "tnum_malformed"@[0]);
    assert("unsigned_bounds_inverted"@[0] != "signed_bounds_inverted"@[0]);
    assert("unsigned_bounds_inverted"@[0] != "const_tnum_range_mismatch"@[0]);
    assert("unsigned_bounds_inverted"@[0] != "tnum_bounds_inconsistent"@[0]);
    assert("signed_bounds_inverted"@[0] != "tnum_malformed"@[0]);
    assert("signed_bounds_inverted"@[0] != "const_tnum_range_mismatch"@[0]);
    assert("signed_bounds_inverted"@[0] != "tnum_bounds_inconsistent"@[0]);
    assert("tnum_malformed"@[0] != "const_tnum_range_mismatch"@[0]);
    assert("tnum_malformed"@[5] != "tnum_bounds_inconsistent"@[5]);
    assert("tnum_bounds_inconsistent"@[0] != "const_tnum_range_mismatch"@[0]);
    let (v, m) = (reg.tnum.value, reg.tnum.mask);
    assert(v & m != 0 ==> v != 0 && m != 0) by (bit_vector);
}

} // verus!

verus! {

/// Per register, the 32-bit checks look only at scalars, and on a scalar they
/// raise `u32_bounds_inverted` exactly when its 32-bit unsigned range is
/// inverted and `s32_bounds_inverted` exactly when its 32-bit signed range is
/// (an omitted bound standing at its extreme). When the 32-bit view is
/// independent information, `tnum32_bounds_inconsistent` is raised exactly when
/// the tnum's low-32 span `[value, value | mask]` (each taken mod 2^32) shares
/// no value with `[u32_min, u32_max]`.
pub proof fn lemma_register32_findings_track_conditions(idx: u64, insn: u32, reg: RegState)
    ensures
        reg.reg_type@ != "scalar"@ ==> reg_sub_keys(idx, insn, reg).len() == 0,
        reg.reg_type@ == "scalar"@ ==> kind_count(reg_sub_keys(idx, insn, reg), "u32_bounds_inverted"@)
            == (if (match reg.u32_min {
            Some(v) => v,
            None => 0,
        }) > (match reg.u32_max {
            Some(v) => v,
            None => u32::MAX as u64,
        }) {
            1nat
        } else {
            0nat
        }),
        reg.reg_type@ == "scalar"@ ==> kind_count(reg_sub_keys(idx, insn, reg), "s32_bounds_inverted"@)
            == (if (match reg.s32_min {
            Some(v) => v,
            None => i32::MIN as i64,
        }) > (match reg.s32_max {
            Some(v) => v,
            None => i32::MAX as i64,
        }) {
            1nat
        } else {
            0nat
        }),
        crate::diff::reg32_checkable_spec(reg) ==> kind_count(
            reg_sub_keys(idx, insn, reg),
            "tnum32_bounds_inconsistent"@,
        ) == (if !((reg.tnum.value & 0xffff_ffff) <= (match reg.u32_max {
            Some(v) => v,
            None => u32::MAX as u64,
        }) && (match reg.u32_min {
            Some(v) => v,
            None => 0,
        }) <= ((reg.tnum.value | reg.tnum.mask) & 0xffff_ffff)) {
            1nat
        } else {
            0nat
        }),
{
    reveal_strlit("u32_bounds_inverted");
    reveal_strlit("s32_bounds_inverted");
    reveal_strlit("tnum32_bounds_inconsistent");
    reveal_strlit("reg32_reg64_inconsistent");
    assert forall|a: Seq<FindingKey>, b: Seq<FindingKey>, k: Seq<char>|
        #[trigger] kind_count(a + b, k) == kind_count(a, k) + kind_count(b, k) by {
        lemma_kind_count_add(a, b, k);
    }
    assert forall|x: FindingKey, k: Seq<char>|
        #[trigger] kind_count(seq![x], k) == (if x.2 == k {
            1nat
        } else {
            0nat
        }) by {
        assert(seq![x].drop_last() =~= Seq::<FindingKey>::empty());
        assert(kind_count(Seq::<FindingKey>::empty(), k) == 0);
        assert(seq![x].last() == x);
    }
    assert forall|k: Seq<char>| #[trigger] kind_count(Seq::<FindingKey>::empty(), k) == 0 by {}
    assert("u32_bounds_inverted"@[0] != "s32_bounds_inverted"@[0]);
    assert("u32_bounds_inverted"@[0] != "tnum32_bounds_inconsistent"@[0]);
    assert("u32_bounds_inverted"@[0] != "reg32_reg64_inconsistent"@[0]);
    assert("s32_bounds_inverted"@[0] != "tnum32_bounds_inconsistent"@[0]);
    assert("s32_bounds_inverted"@[0] != "reg32_reg64_inconsistent"@[0]);
    assert("tnum32_bounds_inconsistent"@[0] != "reg32_reg64_inconsistent"@[0]);
}

} // verus!
