//! Source-backed checks: helper argument contracts and documented behaviour,
//! answered by an injected ground-truth oracle.
use vstd::prelude::*;
use crate::text::{push_str, push_string, string_from, string_eq, string_contains, contains};
use crate::num::{push_dec, dec_str};
use crate::metrics::{CoreMetrics, HelperArgViolation, HelperArgObservation, VerifierDecision};
use crate::groundtruth::GroundTruth;
use crate::groundtruth::verifier_rst::DocumentedOutcome;
use crate::diff::{
    DivergenceFinding, EvidenceNote, GroundTruthSource, FindingKey, fkeys, finding, emit,
    flat_keys, sum_count, lemma_flat_take, lemma_sum_take, lemma_sum_bound, lemma_take_all,
};

verus! {

/// The detail of a documentation-drift note, after the program's label.
pub const DRIFT_DETAIL: &'static str = ": rejected as documented, but the verifier's message differs                      from the one Documentation/bpf/verifier.rst prints \u{2014} evidence of                      documentation drift, NOT a verifier divergence";

/// What an evidence note says, in the shape of a finding key.
pub open spec fn nkey(n: EvidenceNote) -> FindingKey {
    (n.record_index, n.source, n.kind@, n.aspect@, n.expected@, n.observed@, n.detail@)
}

pub open spec fn nkeys(s: Seq<EvidenceNote>) -> Seq<FindingKey> {
    s.map_values(|n: EvidenceNote| nkey(n))
}

pub open spec fn helper_key(
    idx: u64,
    expected: Seq<char>,
    observed: Seq<char>,
    detail: Seq<char>,
) -> FindingKey {
    (
        Some(idx),
        GroundTruthSource::HelperProto,
        "helper_arg_type_mismatch"@,
        "helper_arg"@,
        expected,
        observed,
        detail,
    )
}

/// Names the helper argument a finding is about: `<helper>(arg<i>)`.
pub open spec fn helper_arg_text(helper: Seq<char>, arg_index: u8) -> Seq<char> {
    helper + "(arg"@ + dec_str(arg_index as nat)
}

/// A violation is a finding when the oracle documents an arg_type that differs
/// from the observed one.
pub open spec fn proto_keys<G: GroundTruth>(idx: u64, gt: G, v: HelperArgViolation) -> Seq<
    FindingKey,
> {
    match gt.arg_type_of(v.helper@, v.arg_index) {
        Some(e) => if e != v.observed@ {
            seq![
                helper_key(
                    idx,
                    e,
                    v.observed@,
                    helper_arg_text(v.helper@, v.arg_index)
                        + "): observed arg_type disagrees with documented bpf_func_proto"@,
                ),
            ]
        } else {
            seq![]
        },
        None => seq![],
    }
}

/// Helper-contract check on the CORE violation signal.
pub(crate) fn check_helper_proto<G: GroundTruth>(
    idx: u64,
    core: &CoreMetrics,
    gt: &G,
    out: &mut Vec<DivergenceFinding>,
)
    ensures
        fkeys(final(out)@) == fkeys(old(out)@) + flat_keys(
            core.helper_arg_violations@,
            |v: HelperArgViolation| proto_keys(idx, *gt, v),
        ),
{
    let ghost out0 = fkeys(out@);
    let ghost vs = core.helper_arg_violations@;
    let mut i: usize = 0;
    while i < core.helper_arg_violations.len()
        invariant
            i <= vs.len(),
            vs == core.helper_arg_violations@,
            fkeys(out@) == out0 + flat_keys(
                vs.take(i as int),
                |v: HelperArgViolation| proto_keys(idx, *gt, v),
            ),
        decreases vs.len() - i,
    {
        let v = &core.helper_arg_violations[i];
        proof {
            lemma_flat_take(vs, |v: HelperArgViolation| proto_keys(idx, *gt, v), i as int);
        }
        let ghost kb = fkeys(out@);
        match gt.helper_arg_type(v.helper.as_str(), v.arg_index) {
            Some(expected) => {
                if !string_eq(&expected, &v.observed) {
                    let mut d = String::new();
                    push_string(&mut d, &v.helper);
                    proof {
                        assert(Seq::<char>::empty() + v.helper@ =~= v.helper@);
                    }
                    push_str(&mut d, "(arg");
                    push_dec(&mut d, v.arg_index as u64);
                    push_str(
                        &mut d,
                        "): observed arg_type disagrees with documented bpf_func_proto",
                    );
                    let f = finding(
                        Some(idx),
                        GroundTruthSource::HelperProto,
                        "helper_arg_type_mismatch",
                        "helper_arg",
                        expected,
                        v.observed.clone(),
                        d,
                    );
                    emit(out, f);
                }
            },
            None => {},
        }
        proof {
            assert(fkeys(out@) =~= kb + proto_keys(idx, *gt, vs[i as int]));
        }
        i = i + 1;
    }
    proof {
        lemma_take_all(vs);
    }
}

pub open spec fn obs_count<G: GroundTruth>(gt: G, o: HelperArgObservation) -> nat {
    if gt.arg_regtype_of(o.helper@, o.arg_index) is Some {
        1
    } else {
        0
    }
}

pub open spec fn obs_keys<G: GroundTruth>(idx: u64, gt: G, o: HelperArgObservation) -> Seq<
    FindingKey,
> {
    match gt.arg_regtype_of(o.helper@, o.arg_index) {
        Some(e) => if e != o.observed@ {
            seq![
                helper_key(
                    idx,
                    e,
                    o.observed@,
                    helper_arg_text(o.helper@, o.arg_index)
                        + "): observed reg-type disagrees with bpf_func_proto (ground truth)"@,
                ),
            ]
        } else {
            seq![]
        },
        None => seq![],
    }
}

/// Observation findings for a record: accepted programs only.
pub open spec fn record_obs_keys<G: GroundTruth>(idx: u64, core: CoreMetrics, gt: G) -> Seq<
    FindingKey,
> {
    if core.verifier_decision is Accept {
        flat_keys(core.helper_arg_observations@, |o: HelperArgObservation| obs_keys(idx, gt, o))
    } else {
        seq![]
    }
}

pub open spec fn record_obs_count<G: GroundTruth>(core: CoreMetrics, gt: G) -> nat {
    if core.verifier_decision is Accept {
        sum_count(core.helper_arg_observations@, |o: HelperArgObservation| obs_count(gt, o))
    } else {
        0
    }
}

/// Each observed helper-argument reg-type of an ACCEPTED program against the
/// expected family the oracle documents.
pub(crate) fn check_helper_observations<G: GroundTruth>(
    idx: u64,
    core: &CoreMetrics,
    gt: &G,
    out: &mut Vec<DivergenceFinding>,
    checked: &mut u64,
)
    requires
        *old(checked) + core.helper_arg_observations@.len() <= u64::MAX,
    ensures
        fkeys(final(out)@) == fkeys(old(out)@) + record_obs_keys(idx, *core, *gt),
        *final(checked) == *old(checked) + record_obs_count(*core, *gt),
{
    let accepted = match &core.verifier_decision {
        VerifierDecision::Accept => true,
        _ => false,
    };
    if !accepted {
        proof {
            assert(fkeys(out@) =~= fkeys(out@) + record_obs_keys(idx, *core, *gt));
        }
        return;
    }
    let ghost out0 = fkeys(out@);
    let ghost c0 = *checked;
    let ghost os = core.helper_arg_observations@;
    let mut i: usize = 0;
    while i < core.helper_arg_observations.len()
        invariant
            i <= os.len(),
            os == core.helper_arg_observations@,
            fkeys(out@) == out0 + flat_keys(
                os.take(i as int),
                |o: HelperArgObservation| obs_keys(idx, *gt, o),
            ),
            *checked == c0 + sum_count(os.take(i as int), |o: HelperArgObservation| obs_count(*gt, o)),
            c0 + os.len() <= u64::MAX,
        decreases os.len() - i,
    {
        let o = &core.helper_arg_observations[i];
        proof {
            lemma_flat_take(os, |o: HelperArgObservation| obs_keys(idx, *gt, o), i as int);
            lemma_sum_take(os, |o: HelperArgObservation| obs_count(*gt, o), i as int);
            lemma_sum_bound(os.take(i as int), |o: HelperArgObservation| obs_count(*gt, o), 1);
        }
        let ghost kb = fkeys(out@);
        match gt.helper_arg_regtype(o.helper.as_str(), o.arg_index) {
            Some(expected) => {
                *checked = *checked + 1;
                if !string_eq(&expected, &o.observed) {
                    let mut d = String::new();
                    push_string(&mut d, &o.helper);
                    proof {
                        assert(Seq::<char>::empty() + o.helper@ =~= o.helper@);
                    }
                    push_str(&mut d, "(arg");
                    push_dec(&mut d, o.arg_index as u64);
                    push_str(
                        &mut d,
                        "): observed reg-type disagrees with bpf_func_proto (ground truth)",
                    );
                    let f = finding(
                        Some(idx),
                        GroundTruthSource::HelperProto,
                        "helper_arg_type_mismatch",
                        "helper_arg",
                        expected,
                        o.observed.clone(),
                        d,
                    );
                    emit(out, f);
                }
            },
            None => {},
        }
        proof {
            assert(fkeys(out@) =~= kb + obs_keys(idx, *gt, os[i as int]));
        }
        i = i + 1;
    }
    proof {
        lemma_take_all(os);
    }
}

/// What the documentation says of the program a record came from.
pub open spec fn doc_outcome<G: GroundTruth>(label: Option<String>, gt: G) -> Option<
    DocumentedOutcome,
> {
    match label {
        Some(l) => gt.outcome_of(l@),
        None => None,
    }
}

/// Whether the observed decision disagrees with the documented one.
pub open spec fn doc_disagrees<G: GroundTruth>(label: Option<String>, core: CoreMetrics, gt: G) -> bool {
    doc_outcome(label, gt) matches Some(d) && (core.verifier_decision is Accept) != (d
        == DocumentedOutcome::Accept)
}

pub open spec fn doc_keys<G: GroundTruth>(
    idx: u64,
    label: Option<String>,
    core: CoreMetrics,
    gt: G,
) -> Seq<FindingKey> {
    if doc_disagrees(label, core, gt) {
        let doc_accept = doc_outcome(label, gt) == Some(DocumentedOutcome::Accept);
        let base = label->0@ + ": verifier decision disagrees with Documentation/bpf/verifier.rst"@;
        seq![
            (
                Some(idx),
                GroundTruthSource::Documentation,
                "documented_behavior_mismatch"@,
                "decision"@,
                if doc_accept {
                    "accept"@
                } else {
                    "reject"@
                },
                if doc_accept {
                    "reject"@
                } else {
                    "accept"@
                },
                match gt.staleness_of() {
                    Some(ev) => base + " \u{2014} "@ + ev,
                    None => base,
                },
            ),
        ]
    } else {
        seq![]
    }
}

/// A rejection that agrees with the documentation but whose message does not
/// contain the documented error text: evidence of drift, never a finding.
pub open spec fn doc_note_keys<G: GroundTruth>(
    idx: u64,
    label: Option<String>,
    core: CoreMetrics,
    gt: G,
) -> Seq<FindingKey> {
    if doc_outcome(label, gt) is Some && !doc_disagrees(label, core, gt) && (gt.expected_error_of(
        label->0@,
    ) matches Some(e) && (core.verifier_decision matches VerifierDecision::Reject { reason }
        && !contains(reason@, e))) {
        seq![
            (
                Some(idx),
                GroundTruthSource::Documentation,
                "documented_message_drift"@,
                "reject_reason"@,
                gt.expected_error_of(label->0@)->0,
                core.verifier_decision->reason@,
                label->0@ + DRIFT_DETAIL@,
            ),
        ]
    } else {
        seq![]
    }
}

/// The observed decision against what the documentation says about this exact
/// program. Returns whether a comparison was performed (the denominator).
pub(crate) fn check_documented_behavior<G: GroundTruth>(
    idx: u64,
    label: &Option<String>,
    core: &CoreMetrics,
    gt: &G,
    out: &mut Vec<DivergenceFinding>,
    notes: &mut Vec<EvidenceNote>,
) -> (compared: bool)
    ensures
        compared == doc_outcome(*label, *gt) is Some,
        fkeys(final(out)@) == fkeys(old(out)@) + doc_keys(idx, *label, *core, *gt),
        nkeys(final(notes)@) == nkeys(old(notes)@) + doc_note_keys(idx, *label, *core, *gt),
{
    let ghost out0 = fkeys(out@);
    let ghost notes0 = nkeys(notes@);
    let l = match label {
        Some(l) => l,
        None => {
            proof {
                assert(fkeys(out@) =~= out0 + doc_keys(idx, *label, *core, *gt));
                assert(nkeys(notes@) =~= notes0 + doc_note_keys(idx, *label, *core, *gt));
            }
            return false;
        },
    };
    let documented = match gt.documented_outcome(l.as_str()) {
        Some(d) => d,
        None => {
            proof {
                assert(fkeys(out@) =~= out0 + doc_keys(idx, *label, *core, *gt));
                assert(nkeys(notes@) =~= notes0 + doc_note_keys(idx, *label, *core, *gt));
            }
            return false;
        },
    };
    let observed_accept = match &core.verifier_decision {
        VerifierDecision::Accept => true,
        _ => false,
    };
    let documented_accept = match documented {
        DocumentedOutcome::Accept => true,
        DocumentedOutcome::Reject => false,
    };
    if observed_accept != documented_accept {
        let (expected, observed) = if documented_accept {
            (string_from("accept"), string_from("reject"))
        } else {
            (string_from("reject"), string_from("accept"))
        };
        let mut d = String::new();
        push_string(&mut d, l);
        proof {
            assert(Seq::<char>::empty() + l@ =~= l@);
        }
        push_str(&mut d, ": verifier decision disagrees with Documentation/bpf/verifier.rst");
        match gt.doc_staleness_evidence() {
            Some(ev) => {
                push_str(&mut d, " \u{2014} ");
                push_string(&mut d, &ev);
            },
            None => {},
        }
        let f = finding(
            Some(idx),
            GroundTruthSource::Documentation,
            "documented_behavior_mismatch",
            "decision",
            expected,
            observed,
            d,
        );
        emit(out, f);
        proof {
            assert(fkeys(out@) =~= out0 + doc_keys(idx, *label, *core, *gt));
            assert(nkeys(notes@) =~= notes0 + doc_note_keys(idx, *label, *core, *gt));
        }
        return true;
    }
    match gt.documented_expected_error(l.as_str()) {
        Some(expected_error) => match &core.verifier_decision {
            VerifierDecision::Reject { reason } => {
                if !string_contains(reason, &expected_error) {
                    let mut d = String::new();
                    push_string(&mut d, l);
                    proof {
                        assert(Seq::<char>::empty() + l@ =~= l@);
                    }
                    push_str(&mut d, DRIFT_DETAIL);
                    let n = EvidenceNote {
                        record_index: Some(idx),
                        source: GroundTruthSource::Documentation,
                        kind: string_from("documented_message_drift"),
                        aspect: string_from("reject_reason"),
                        expected: expected_error,
                        observed: reason.clone(),
                        detail: d,
                    };
                    let ghost before = notes@;
                    notes.push(n);
                    proof {
                        assert(nkeys(notes@) =~= nkeys(before).push(nkey(n)));
                    }
                }
            },
            _ => {},
        },
        None => {},
    }
    proof {
        assert(fkeys(out@) =~= out0 + doc_keys(idx, *label, *core, *gt));
        assert(nkeys(notes@) =~= notes0 + doc_note_keys(idx, *label, *core, *gt));
    }
    true
}

} // verus!
