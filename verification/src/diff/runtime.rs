//! Checks whose observations come from running the program or from a second
//! kernel run: runtime writes, runtime return values (against the verifier's
//! proven bound and against the generator's stated intent), the liveness gate,
//! and the state-pruning differential.
use vstd::prelude::*;
use crate::text::{push_str, push_string, string_from, string_eq_lit};
use crate::num::{dec_str, hex_str, push_dec, push_hex, push_sdec, sdec_str};
use crate::metrics::{RuntimeSample, CoreMetrics, PruneProbe};
use crate::diff::{
    DivergenceFinding, GroundTruthSource, FindingKey, fkeys, lkey, finding, emit, flat_keys, bool_str,
    sum_count, lemma_flat_take, lemma_sum_take, lemma_sum_bound, lemma_take_all,
};

verus! {

// ---------------------------------------------------------------------------
// Runtime memory safety
// ---------------------------------------------------------------------------

/// A multi-byte store landed its full run (a family that reports no size passes).
pub open spec fn full_run(s: RuntimeSample) -> bool {
    match (s.store_len, s.store_size) {
        (Some(l), Some(z)) => l == z,
        _ => true,
    }
}

/// A store sample that reached its store and reported where the sentinel landed.
pub open spec fn write_judged(s: RuntimeSample) -> bool {
    s.store_off is Some && !s.error && s.executed != Some(false)
}

pub open spec fn write_count(s: RuntimeSample) -> nat {
    if write_judged(s) {
        1
    } else {
        0
    }
}

/// An accepted store must land entirely inside the map value.
pub open spec fn write_keys(idx: u64, s: RuntimeSample) -> Seq<FindingKey> {
    if write_judged(s) && (s.store_off->0 < 0 || !full_run(s)) {
        seq![
            lkey(
                idx,
                "runtime_oob_write",
                "runtime",
                "an accepted store lands entirely inside the map value"@,
                if s.store_off->0 < 0 {
                    "input=0x"@ + hex_str(s.input as nat)
                        + ": sentinel absent \u{2014} store landed out of bounds"@
                } else {
                    "input=0x"@ + hex_str(s.input as nat) + ": sentinel run "@ + sdec_str(
                        opt_or_zero(s.store_len) as int,
                    ) + " of "@ + sdec_str(opt_or_zero(s.store_size) as int)
                        + " bytes \u{2014} store crossed the value end"@
                },
                "the verifier accepted a program whose runtime store escaped the map value"@,
            ),
        ]
    } else {
        seq![]
    }
}

/// An optional length, zero when absent.
pub open spec fn opt_or_zero(v: Option<i64>) -> i64 {
    match v {
        Some(x) => x,
        None => 0,
    }
}

fn was_skipped(executed: Option<bool>) -> (b: bool)
    ensures
        b == (executed == Some(false)),
{
    match executed {
        Some(e) => !e,
        None => false,
    }
}

/// Runtime memory safety: an accepted store lands inside the map value.
pub(crate) fn check_runtime_write_safety(
    idx: u64,
    core: &CoreMetrics,
    out: &mut Vec<DivergenceFinding>,
    checked: &mut u64,
)
    requires
        *old(checked) + core.runtime_samples@.len() <= u64::MAX,
    ensures
        fkeys(final(out)@) == fkeys(old(out)@) + flat_keys(
            core.runtime_samples@,
            |s: RuntimeSample| write_keys(idx, s),
        ),
        *final(checked) == *old(checked) + sum_count(
            core.runtime_samples@,
            |s: RuntimeSample| write_count(s),
        ),
{
    let ghost out0 = fkeys(out@);
    let ghost c0 = *checked;
    let ghost ss = core.runtime_samples@;
    let mut i: usize = 0;
    while i < core.runtime_samples.len()
        invariant
            i <= ss.len(),
            ss == core.runtime_samples@,
            fkeys(out@) == out0 + flat_keys(ss.take(i as int), |s: RuntimeSample| write_keys(idx, s)),
            *checked == c0 + sum_count(ss.take(i as int), |s: RuntimeSample| write_count(s)),
            c0 + ss.len() <= u64::MAX,
        decreases ss.len() - i,
    {
        let smp = &core.runtime_samples[i];
        proof {
            lemma_flat_take(ss, |s: RuntimeSample| write_keys(idx, s), i as int);
            lemma_sum_take(ss, |s: RuntimeSample| write_count(s), i as int);
            lemma_sum_bound(ss.take(i as int), |s: RuntimeSample| write_count(s), 1);
        }
        let ghost kb = fkeys(out@);
        match smp.store_off {
            Some(off) => {
                if !smp.error && !was_skipped(smp.executed) {
                    *checked = *checked + 1;
                    let full = match (smp.store_len, smp.store_size) {
                        (Some(l), Some(z)) => l == z,
                        _ => true,
                    };
                    if off < 0 || !full {
                        let mut o = string_from("input=0x");
                        push_hex(&mut o, smp.input);
                        if off < 0 {
                            push_str(&mut o, ": sentinel absent \u{2014} store landed out of bounds");
                        } else {
                            push_str(&mut o, ": sentinel run ");
                            push_sdec(
                                &mut o,
                                match smp.store_len {
                                    Some(v) => v,
                                    None => 0,
                                },
                            );
                            push_str(&mut o, " of ");
                            push_sdec(
                                &mut o,
                                match smp.store_size {
                                    Some(v) => v,
                                    None => 0,
                                },
                            );
                            push_str(&mut o, " bytes \u{2014} store crossed the value end");
                        }
                        let f = finding(
                            Some(idx),
                            GroundTruthSource::LogicalInvariant,
                            "runtime_oob_write",
                            "runtime",
                            string_from("an accepted store lands entirely inside the map value"),
                            o,
                            string_from(
                                "the verifier accepted a program whose runtime store escaped the map value",
                            ),
                        );
                        emit(out, f);
                    }
                }
            },
            None => {},
        }
        proof {
            assert(fkeys(out@) =~= kb + write_keys(idx, ss[i as int]));
        }
        i = i + 1;
    }
    proof {
        lemma_take_all(ss);
    }
}

// ---------------------------------------------------------------------------
// Runtime return value against the generator's stated intent
// ---------------------------------------------------------------------------

/// The intended return value for a sample: its own claim wins over the record's.
pub open spec fn intent_of(rec: Option<u64>, s: RuntimeSample) -> Option<u64> {
    match s.intended_retval {
        Some(v) => Some(v),
        None => rec,
    }
}

/// A sample that ran, printed a return value, and has an intended value to meet.
pub open spec fn intent_judged(rec: Option<u64>, s: RuntimeSample) -> bool {
    !s.error && s.executed != Some(false) && s.retval_observed && intent_of(rec, s) is Some
}

pub open spec fn intent_count(rec: Option<u64>, s: RuntimeSample) -> nat {
    if intent_judged(rec, s) {
        1
    } else {
        0
    }
}

pub open spec fn intent_keys(idx: u64, rec: Option<u64>, s: RuntimeSample) -> Seq<FindingKey> {
    if intent_judged(rec, s) && s.retval != intent_of(rec, s)->0 {
        seq![
            lkey(
                idx,
                "runtime_intent_violation",
                "runtime",
                "retval == "@ + dec_str(intent_of(rec, s)->0 as nat)
                    + " (the program's own semantics)"@,
                "retval="@ + dec_str(s.retval as nat) + " on input 0x"@ + hex_str(s.input as nat),
                "an accepted program returned something its source cannot produce"@,
            ),
        ]
    } else {
        seq![]
    }
}

/// A sample's own intended value wins over the record's: a sample that states
/// one is judged against it, whatever (if anything) the record states, so two
/// records that differ only in their own claim judge the sample alike. A sample
/// that ran and printed its return value raises an intent finding exactly when
/// that value differs from its own claim, and the finding names that claim.
pub proof fn lemma_sample_claim_wins(
    idx: u64,
    rec1: Option<u64>,
    rec2: Option<u64>,
    s: RuntimeSample,
)
    requires
        s.intended_retval is Some,
    ensures
        intent_keys(idx, rec1, s) == intent_keys(idx, rec2, s),
        intent_count(rec1, s) == intent_count(rec2, s),
        intent_keys(idx, rec1, s).len() == (if !s.error && s.executed != Some(false)
            && s.retval_observed && s.retval != s.intended_retval->0 {
            1int
        } else {
            0int
        }),
        intent_keys(idx, rec1, s).len() > 0 ==> intent_keys(idx, rec1, s)[0].4 == "retval == "@
            + dec_str(s.intended_retval->0 as nat) + " (the program's own semantics)"@,
{
}

/// A sample that states no intended value of its own is judged against the
/// record's claim: with none either, it is not judged at all; otherwise, having
/// run and printed its return value, it raises an intent finding exactly when
/// that value differs from the record's claim.
pub proof fn lemma_record_claim_fills_in(idx: u64, rec: Option<u64>, s: RuntimeSample)
    requires
        s.intended_retval is None,
    ensures
        rec is None ==> intent_count(rec, s) == 0 && intent_keys(idx, rec, s).len() == 0,
        rec matches Some(v) ==> intent_keys(idx, rec, s).len() == (if !s.error && s.executed
            != Some(false) && s.retval_observed && s.retval != v {
            1int
        } else {
            0int
        }),
        rec matches Some(v) ==> intent_count(rec, s) == (if !s.error && s.executed != Some(false)
            && s.retval_observed {
            1nat
        } else {
            0nat
        }),
{
}

/// Intent findings for a record: only an accepted program ran.
pub open spec fn record_intent_keys(idx: u64, core: CoreMetrics) -> Seq<FindingKey> {
    if core.verifier_decision is Accept {
        flat_keys(
            core.runtime_samples@,
            |s: RuntimeSample| intent_keys(idx, core.intended_retval, s),
        )
    } else {
        seq![]
    }
}

pub open spec fn record_intent_count(core: CoreMetrics) -> nat {
    if core.verifier_decision is Accept {
        sum_count(core.runtime_samples@, |s: RuntimeSample| intent_count(core.intended_retval, s))
    } else {
        0
    }
}

/// Compares each observed return value against the program's own semantics, as
/// stated by the generator.
pub(crate) fn check_runtime_intent(
    idx: u64,
    core: &CoreMetrics,
    out: &mut Vec<DivergenceFinding>,
    checked: &mut u64,
)
    requires
        *old(checked) + core.runtime_samples@.len() <= u64::MAX,
    ensures
        fkeys(final(out)@) == fkeys(old(out)@) + record_intent_keys(idx, *core),
        *final(checked) == *old(checked) + record_intent_count(*core),
{
    let accepted = match &core.verifier_decision {
        crate::metrics::VerifierDecision::Accept => true,
        _ => false,
    };
    if !accepted {
        proof {
            assert(fkeys(out@) =~= fkeys(out@) + record_intent_keys(idx, *core));
        }
        return;
    }
    let ghost out0 = fkeys(out@);
    let ghost c0 = *checked;
    let ghost ss = core.runtime_samples@;
    let ghost rec = core.intended_retval;
    let mut i: usize = 0;
    while i < core.runtime_samples.len()
        invariant
            i <= ss.len(),
            ss == core.runtime_samples@,
            rec == core.intended_retval,
            fkeys(out@) == out0 + flat_keys(
                ss.take(i as int),
                |s: RuntimeSample| intent_keys(idx, rec, s),
            ),
            *checked == c0 + sum_count(ss.take(i as int), |s: RuntimeSample| intent_count(rec, s)),
            c0 + ss.len() <= u64::MAX,
        decreases ss.len() - i,
    {
        let smp = &core.runtime_samples[i];
        proof {
            lemma_flat_take(ss, |s: RuntimeSample| intent_keys(idx, rec, s), i as int);
            lemma_sum_take(ss, |s: RuntimeSample| intent_count(rec, s), i as int);
            lemma_sum_bound(ss.take(i as int), |s: RuntimeSample| intent_count(rec, s), 1);
        }
        let ghost kb = fkeys(out@);
        if !smp.error && !was_skipped(smp.executed) && smp.retval_observed {
            let intended = match smp.intended_retval {
                Some(v) => Some(v),
                None => core.intended_retval,
            };
            match intended {
                Some(want) => {
                    *checked = *checked + 1;
                    if smp.retval != want {
                        let mut e = string_from("retval == ");
                        push_dec(&mut e, want);
                        push_str(&mut e, " (the program's own semantics)");
                        let mut o = string_from("retval=");
                        push_dec(&mut o, smp.retval);
                        push_str(&mut o, " on input 0x");
                        push_hex(&mut o, smp.input);
                        let f = finding(
                            Some(idx),
                            GroundTruthSource::LogicalInvariant,
                            "runtime_intent_violation",
                            "runtime",
                            e,
                            o,
                            string_from(
                                "an accepted program returned something its source cannot produce",
                            ),
                        );
                        emit(out, f);
                    }
                },
                None => {},
            }
        }
        proof {
            assert(fkeys(out@) =~= kb + intent_keys(idx, rec, ss[i as int]));
        }
        i = i + 1;
    }
    proof {
        lemma_take_all(ss);
    }
}

// ---------------------------------------------------------------------------
// Liveness gate
// ---------------------------------------------------------------------------

/// Registers `0..n` that the independent analysis calls live and the kernel drops.
/// The finding one register cell of a liveness row raises: the independent
/// analysis calls `r` live and the kernel's mask leaves it out.
pub open spec fn live_cell_keys(idx: u64, insn: u32, ours: u16, kmask: u16, r: u16) -> Seq<
    FindingKey,
> {
    if ours & (1u16 << r) != 0 && kmask & (1u16 << r) == 0 {
        seq![
            lkey(
                idx,
                "liveness_gate_overreach",
                "pruning",
                "r"@ + dec_str(r as nat) + " is live before insn "@ + dec_str(insn as nat)
                    + ", so state equality must compare it"@,
                "the verifier's live_regs_before at insn "@ + dec_str(insn as nat) + " excludes r"@
                    + dec_str(r as nat) + " (kernel mask 0x"@ + hex3_str(kmask)
                    + ", independent mask 0x"@ + hex3_str(ours) + ")"@,
                "a register dropped from the liveness gate is never compared by func_states_equal, so any prune at this instruction did not have to account for it"@,
            ),
        ]
    } else {
        seq![]
    }
}

/// The findings of registers `0..n` of one liveness row, in register order.
pub open spec fn live_row_keys(idx: u64, insn: u32, ours: u16, kmask: u16, n: nat) -> Seq<
    FindingKey,
>
    decreases n,
{
    if n == 0 {
        seq![]
    } else {
        live_row_keys(idx, insn, ours, kmask, (n - 1) as nat) + live_cell_keys(
            idx,
            insn,
            ours,
            kmask,
            (n - 1) as u16,
        )
    }
}

/// Registers `0..n` the independent analysis calls live: the cells that could fire.
pub open spec fn live_row_count(ours: u16, n: nat) -> nat
    decreases n,
{
    if n == 0 {
        0
    } else {
        let r = (n - 1) as u16;
        live_row_count(ours, (n - 1) as nat) + (if ours & (1u16 << r) != 0 {
            1nat
        } else {
            0nat
        })
    }
}

pub(crate) proof fn lemma_live_row_count_bound(ours: u16, n: nat)
    ensures
        live_row_count(ours, n) <= n,
    decreases n,
{
    if n > 0 {
        lemma_live_row_count_bound(ours, (n - 1) as nat);
    }
}

/// One kernel row against the claim; an instruction past the claim is skipped.
pub open spec fn gate_row_keys(idx: u64, claim: Seq<u16>, row: (u32, u16)) -> Seq<FindingKey> {
    if (row.0 as int) < claim.len() {
        live_row_keys(idx, row.0, claim[row.0 as int], row.1, 10)
    } else {
        seq![]
    }
}

pub open spec fn gate_row_count(claim: Seq<u16>, row: (u32, u16)) -> nat {
    if (row.0 as int) < claim.len() {
        live_row_count(claim[row.0 as int], 10)
    } else {
        0
    }
}

pub open spec fn gate_keys(idx: u64, core: CoreMetrics) -> Seq<FindingKey> {
    match core.liveness_gate {
        Some(g) => match g.claim {
            Some(c) => flat_keys(g.kernel@, |row: (u32, u16)| gate_row_keys(idx, c@, row)),
            None => seq![],
        },
        None => seq![],
    }
}

pub open spec fn gate_count(core: CoreMetrics) -> nat {
    match core.liveness_gate {
        Some(g) => match g.claim {
            Some(c) => sum_count(g.kernel@, |row: (u32, u16)| gate_row_count(c@, row)),
            None => 0,
        },
        None => 0,
    }
}

/// The kernel rows a record's liveness table carries (0 without a table).
pub open spec fn gate_rows(core: CoreMetrics) -> nat {
    match core.liveness_gate {
        Some(g) => g.kernel@.len(),
        None => 0,
    }
}

/// `v` in lowercase hex, zero-padded to at least three digits.
pub open spec fn hex3_str(v: u16) -> Seq<char> {
    (if v < 0x100 {
        "0"@
    } else {
        Seq::empty()
    }) + (if v < 0x10 {
        "0"@
    } else {
        Seq::empty()
    }) + hex_str(v as nat)
}

/// Appends `v` in lowercase hex, zero-padded to at least three digits.
fn push_hex3(s: &mut String, v: u16)
    ensures
        final(s)@ == old(s)@ + hex3_str(v),
{
    let ghost s0 = s@;
    let ghost p1: Seq<char> = if v < 0x100 {
        "0"@
    } else {
        Seq::empty()
    };
    let ghost p2: Seq<char> = if v < 0x10 {
        "0"@
    } else {
        Seq::empty()
    };
    if v < 0x100 {
        push_str(s, "0");
    }
    assert(s@ =~= s0 + p1);
    if v < 0x10 {
        push_str(s, "0");
    }
    assert(s@ =~= s0 + p1 + p2);
    push_hex(s, v as u64);
    assert(s@ =~= s0 + (p1 + p2 + hex_str(v as nat)));
}

fn check_live_row(
    idx: u64,
    insn: u32,
    ours: u16,
    kmask: u16,
    out: &mut Vec<DivergenceFinding>,
    checked: &mut u64,
)
    requires
        *old(checked) + 10 <= u64::MAX,
    ensures
        fkeys(final(out)@) == fkeys(old(out)@) + live_row_keys(idx, insn, ours, kmask, 10),
        *final(checked) == *old(checked) + live_row_count(ours, 10),
{
    let ghost out0 = fkeys(out@);
    let ghost c0 = *checked;
    let mut reg: u16 = 0;
    while reg < 10
        invariant
            reg <= 10,
            fkeys(out@) == out0 + live_row_keys(idx, insn, ours, kmask, reg as nat),
            *checked == c0 + live_row_count(ours, reg as nat),
            c0 + 10 <= u64::MAX,
        decreases 10 - reg,
    {
        proof {
            lemma_live_row_count_bound(ours, reg as nat);
        }
        let ghost kb = fkeys(out@);
        let bit: u16 = 1u16 << reg;
        if ours & bit != 0 {
            *checked = *checked + 1;
            if kmask & bit == 0 {
                let mut e = string_from("r");
                push_dec(&mut e, reg as u64);
                push_str(&mut e, " is live before insn ");
                push_dec(&mut e, insn as u64);
                push_str(&mut e, ", so state equality must compare it");
                let mut o = string_from("the verifier's live_regs_before at insn ");
                push_dec(&mut o, insn as u64);
                push_str(&mut o, " excludes r");
                push_dec(&mut o, reg as u64);
                push_str(&mut o, " (kernel mask 0x");
                push_hex3(&mut o, kmask);
                push_str(&mut o, ", independent mask 0x");
                push_hex3(&mut o, ours);
                push_str(&mut o, ")");
                let f = finding(
                    Some(idx),
                    GroundTruthSource::LogicalInvariant,
                    "liveness_gate_overreach",
                    "pruning",
                    e,
                    o,
                    string_from(
                        "a register dropped from the liveness gate is never compared by func_states_equal, so any prune at this instruction did not have to account for it",
                    ),
                );
                emit(out, f);
            }
        }
        proof {
            assert(fkeys(out@) =~= out0 + live_row_keys(idx, insn, ours, kmask, (reg + 1) as nat));
        }
        reg = reg + 1;
    }
}

/// Checks the liveness gate of every pruning point: each register that the
/// harness's own liveness analysis marks live must be live in the kernel's mask.
pub(crate) fn check_liveness_gate(
    idx: u64,
    core: &CoreMetrics,
    out: &mut Vec<DivergenceFinding>,
    checked: &mut u64,
)
    requires
        *old(checked) + 10 * gate_rows(*core) <= u64::MAX,
    ensures
        fkeys(final(out)@) == fkeys(old(out)@) + gate_keys(idx, *core),
        *final(checked) == *old(checked) + gate_count(*core),
{
    let gate = match &core.liveness_gate {
        Some(g) => g,
        None => {
            proof {
                assert(fkeys(out@) =~= fkeys(out@) + gate_keys(idx, *core));
            }
            return;
        },
    };
    let claim = match &gate.claim {
        Some(c) => c,
        None => {
            proof {
                assert(fkeys(out@) =~= fkeys(out@) + gate_keys(idx, *core));
            }
            return;
        },
    };
    let ghost out0 = fkeys(out@);
    let ghost c0 = *checked;
    let ghost rows = gate.kernel@;
    let ghost cl = claim@;
    let mut i: usize = 0;
    while i < gate.kernel.len()
        invariant
            i <= rows.len(),
            rows == gate.kernel@,
            cl == claim@,
            fkeys(out@) == out0 + flat_keys(
                rows.take(i as int),
                |row: (u32, u16)| gate_row_keys(idx, cl, row),
            ),
            *checked == c0 + sum_count(rows.take(i as int), |row: (u32, u16)| gate_row_count(cl, row)),
            c0 + 10 * rows.len() <= u64::MAX,
        decreases rows.len() - i,
    {
        let (insn, kmask) = gate.kernel[i];
        proof {
            lemma_flat_take(rows, |row: (u32, u16)| gate_row_keys(idx, cl, row), i as int);
            lemma_sum_take(rows, |row: (u32, u16)| gate_row_count(cl, row), i as int);
            assert forall|row: (u32, u16)| #[trigger] gate_row_count(cl, row) <= 10 by {
                if (row.0 as int) < cl.len() {
                    lemma_live_row_count_bound(cl[row.0 as int], 10);
                }
            }
            lemma_sum_bound(rows.take(i as int), |row: (u32, u16)| gate_row_count(cl, row), 10);
            assert(10 * (i as int) + 10 <= 10 * rows.len()) by (nonlinear_arith)
                requires
                    i < rows.len(),
            ;
        }
        let ghost kb = fkeys(out@);
        if (insn as usize) < claim.len() {
            let ours = claim[insn as usize];
            check_live_row(idx, insn, ours, kmask, out, checked);
        }
        proof {
            assert(fkeys(out@) =~= kb + gate_row_keys(idx, cl, rows[i as int]));
        }
        i = i + 1;
    }
    proof {
        lemma_take_all(rows);
    }
}

// ---------------------------------------------------------------------------
// State-pruning differential
// ---------------------------------------------------------------------------

/// A flagged rejection that is a resource limit of the instrument, not a verdict.
pub open spec fn resource_reason(r: Seq<char>) -> bool {
    r == "too_large"@ || r == "too_many_states"@ || r == "log_truncated"@
}

/// Whether the state-frequency flag demonstrably changed the explored state space.
pub open spec fn prune_changed(p: PruneProbe) -> bool {
    p.freq_states > p.base_states
}

pub open spec fn prune_keys(idx: u64, core: CoreMetrics) -> Seq<FindingKey> {
    match core.prune_probe {
        None => seq![],
        Some(p) => (if p.inv_reason@ == "efault"@ && p.base_accept {
            seq![
                lkey(
                    idx,
                    "reg_invariants_violation",
                    "bounds",
                    "a program the verifier accepts also passes its own reg_bounds_sanity_check"@,
                    "accepted by default, -EFAULT under BPF_F_TEST_REG_INVARIANTS (errno="@
                        + sdec_str(p.inv_errno as int) + ")"@,
                    "the kernel's own register-bounds invariant fired on a program it otherwise accepts"@,
                ),
            ]
        } else {
            seq![]
        }) + (if !prune_changed(p) || p.base_accept == p.freq_accept {
            seq![]
        } else if p.freq_accept && !p.base_accept {
            seq![
                lkey(
                    idx,
                    "prune_soundness_desync",
                    "pruning",
                    "a program's verdict does not depend on how often the verifier checkpoints"@,
                    "fall="@ + p.fall@ + " taken="@ + p.taken@ + " (fall_safe="@ + bool_str(
                        p.fall_safe,
                    ) + " taken_safe="@ + bool_str(p.taken_safe) + ", stack="@ + bool_str(p.stack)
                        + "): rejected by default                  ("@ + dec_str(
                        p.base_states as nat,
                    ) + " states) but ACCEPTED with BPF_F_TEST_STATE_FREQ ("@ + dec_str(
                        p.freq_states as nat,
                    ) + " states)"@,
                    "extra checkpoints let the verifier prune away the path that produced the rejection"@,
                ),
            ]
        } else if resource_reason(p.freq_reason@) {
            seq![]
        } else {
            seq![
                lkey(
                    idx,
                    "prune_verdict_disagreement",
                    "pruning",
                    "a program's verdict does not depend on how often the verifier checkpoints"@,
                    "fall="@ + p.fall@ + " taken="@ + p.taken@ + ": accepted by default ("@
                        + dec_str(p.base_states as nat)
                        + " states) but REJECTED with BPF_F_TEST_STATE_FREQ ("@ + dec_str(
                        p.freq_states as nat,
                    ) + " states, reason="@ + p.freq_reason@ + ", errno="@ + sdec_str(
                        p.freq_errno as int,
                    ) + ")"@,
                    "the flagged run rejected for a reason that is not a complexity limit \u{2014} an over-rejection, not the soundness half"@,
                ),
            ]
        }),
    }
}

/// Pairs whose flagged run changed the state space (0 or 1).
pub open spec fn prune_count(core: CoreMetrics) -> nat {
    match core.prune_probe {
        Some(p) => if prune_changed(p) {
            1
        } else {
            0
        },
        None => 0,
    }
}

/// Flips in the resource direction (0 or 1).
pub open spec fn prune_artifact_count(core: CoreMetrics) -> nat {
    match core.prune_probe {
        Some(p) => if prune_changed(p) && p.base_accept && !p.freq_accept && resource_reason(
            p.freq_reason@,
        ) {
            1
        } else {
            0
        },
        None => 0,
    }
}

/// Invariant loads against an accepted baseline (0 or 1).
pub open spec fn inv_count(core: CoreMetrics) -> nat {
    match core.prune_probe {
        Some(p) => if p.base_accept {
            1
        } else {
            0
        },
        None => 0,
    }
}

fn push_bool(s: &mut String, b: bool)
    ensures
        final(s)@ == old(s)@ + bool_str(b),
{
    push_str(s, if b { "true" } else { "false" });
}

/// The same program's verdict with and without forced checkpoints at every
/// instruction, plus the kernel's own register-bounds sanity check.
pub(crate) fn check_prune_differential(
    idx: u64,
    core: &CoreMetrics,
    out: &mut Vec<DivergenceFinding>,
    checked: &mut u64,
    artifacts: &mut u64,
    inv_checked: &mut u64,
)
    requires
        *old(checked) + 1 <= u64::MAX,
        *old(artifacts) + 1 <= u64::MAX,
        *old(inv_checked) + 1 <= u64::MAX,
    ensures
        fkeys(final(out)@) == fkeys(old(out)@) + prune_keys(idx, *core),
        *final(checked) == *old(checked) + prune_count(*core),
        *final(artifacts) == *old(artifacts) + prune_artifact_count(*core),
        *final(inv_checked) == *old(inv_checked) + inv_count(*core),
{
    let ghost out0 = fkeys(out@);
    let p = match &core.prune_probe {
        Some(p) => p,
        None => {
            proof {
                assert(fkeys(out@) =~= out0 + prune_keys(idx, *core));
            }
            return;
        },
    };
    if p.base_accept {
        *inv_checked = *inv_checked + 1;
    }
    if string_eq_lit(&p.inv_reason, "efault") && p.base_accept {
        let mut o = string_from(
            "accepted by default, -EFAULT under BPF_F_TEST_REG_INVARIANTS (errno=",
        );
        push_sdec(&mut o, p.inv_errno);
        push_str(&mut o, ")");
        let f = finding(
            Some(idx),
            GroundTruthSource::LogicalInvariant,
            "reg_invariants_violation",
            "bounds",
            string_from(
                "a program the verifier accepts also passes its own reg_bounds_sanity_check",
            ),
            o,
            string_from(
                "the kernel's own register-bounds invariant fired on a program it otherwise accepts",
            ),
        );
        emit(out, f);
    }
    let ghost mid = fkeys(out@);
    if p.freq_states <= p.base_states {
        proof {
            assert(fkeys(out@) =~= out0 + prune_keys(idx, *core));
        }
        return;
    }
    *checked = *checked + 1;
    if p.base_accept == p.freq_accept {
        proof {
            assert(fkeys(out@) =~= out0 + prune_keys(idx, *core));
        }
        return;
    }
    if p.freq_accept && !p.base_accept {
        let mut o = string_from("fall=");
        push_string(&mut o, &p.fall);
        push_str(&mut o, " taken=");
        push_string(&mut o, &p.taken);
        push_str(&mut o, " (fall_safe=");
        push_bool(&mut o, p.fall_safe);
        push_str(&mut o, " taken_safe=");
        push_bool(&mut o, p.taken_safe);
        push_str(&mut o, ", stack=");
        push_bool(&mut o, p.stack);
        push_str(&mut o, "): rejected by default                  (");
        push_dec(&mut o, p.base_states);
        push_str(&mut o, " states) but ACCEPTED with BPF_F_TEST_STATE_FREQ (");
        push_dec(&mut o, p.freq_states);
        push_str(&mut o, " states)");
        let f = finding(
            Some(idx),
            GroundTruthSource::LogicalInvariant,
            "prune_soundness_desync",
            "pruning",
            string_from(
                "a program's verdict does not depend on how often the verifier checkpoints",
            ),
            o,
            string_from(
                "extra checkpoints let the verifier prune away the path that produced the rejection",
            ),
        );
        emit(out, f);
        proof {
            assert(fkeys(out@) =~= out0 + prune_keys(idx, *core));
        }
        return;
    }
    if string_eq_lit(&p.freq_reason, "too_large") || string_eq_lit(&p.freq_reason, "too_many_states")
        || string_eq_lit(&p.freq_reason, "log_truncated") {
        *artifacts = *artifacts + 1;
        proof {
            assert(fkeys(out@) =~= out0 + prune_keys(idx, *core));
        }
        return;
    }
    let mut o = string_from("fall=");
    push_string(&mut o, &p.fall);
    push_str(&mut o, " taken=");
    push_string(&mut o, &p.taken);
    push_str(&mut o, ": accepted by default (");
    push_dec(&mut o, p.base_states);
    push_str(&mut o, " states) but REJECTED with BPF_F_TEST_STATE_FREQ (");
    push_dec(&mut o, p.freq_states);
    push_str(&mut o, " states, reason=");
    push_string(&mut o, &p.freq_reason);
    push_str(&mut o, ", errno=");
    push_sdec(&mut o, p.freq_errno);
    push_str(&mut o, ")");
    let f = finding(
        Some(idx),
        GroundTruthSource::LogicalInvariant,
        "prune_verdict_disagreement",
        "pruning",
        string_from("a program's verdict does not depend on how often the verifier checkpoints"),
        o,
        string_from(
            "the flagged run rejected for a reason that is not a complexity limit \u{2014} an over-rejection, not the soundness half",
        ),
    );
    emit(out, f);
    proof {
        assert(fkeys(out@) =~= out0 + prune_keys(idx, *core));
    }
}

} // verus!
