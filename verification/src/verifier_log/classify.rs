//! One harness block classified: a trustworthy record, or an unparsed block kept
//! apart (never a default-filled record, never an anomaly).
use vstd::prelude::*;
use crate::text::{
    trim, trim_start, contains, chars_of, slice_chars, starts_with_lit, trim_chars,
    trim_start_chars, string_of_all, string_from, push_chars, push_str, find_chars_from,
};
use crate::num::{dec_str, push_dec};
use crate::metrics::{
    CoreMetrics, VerifierDecision, CoverageDelta, RegState, RegSnapshot, HelperArgObservation,
    RuntimeSample, StoreSite, PruneProbe,
};
use crate::normalize::{ParsedRecord, UnparsedBlock, UnparsedKind};
use crate::groundtruth::helper_proto::{
    chars_lt, lemma_chars_lt_irrefl, lemma_chars_lt_total, lemma_chars_lt_trans,
};
use crate::verifier_log::regs::{base_family_spec, base_family, reg_view};
use crate::verifier_log::evolution::{
    evolution_spec, snap_view, SnapView, processed_from, reject_reason_spec, helper_calls_spec,
    obs_view, parse_register_evolution, parse_processed, parse_reject_reason, parse_helper_calls,
};
use crate::verifier_log::probes::{
    samples_spec, jit_interp_spec, num_tok, multi_path_spec, store_site_spec, tok_after,
    parse_runtime_samples, parse_jit_interp, parse_intended_retval, parse_multi_path,
    parse_store_site, first_tok_exec, line_words,
};
use crate::verifier_log::gates::{
    probe_fold, probe_complete, probe_view, gate_spec, gate_view, parse_prune_probe,
    parse_liveness_gate,
};
use crate::verifier_log::blocks::{
    label_spec, lines_view, repair_spec, block_label, repair_console_interleaving,
};
use crate::text::words;

verus! {

// ---------------------------------------------------------------------------
// Routing a block's lines
// ---------------------------------------------------------------------------

/// Where a block's lines went: the RESULT line, RUNTIME lines, the EXPECT line,
/// JITDIFF lines, the STORE / PRUNE / LIVENESS lines, and the verifier log.
pub struct RouteAcc {
    pub result: Option<Seq<char>>,
    pub runtime: Seq<Seq<char>>,
    pub expect: Option<Seq<char>>,
    pub jitdiff: Seq<Seq<char>>,
    pub store: Option<Seq<char>>,
    pub prune: Option<Seq<char>>,
    pub liveness: Option<Seq<char>>,
    pub in_log: bool,
    pub log: Seq<Seq<char>>,
}

pub open spec fn route_step(a: RouteAcc, l: Seq<char>) -> RouteAcc {
    if "RESULT "@.is_prefix_of(l) {
        RouteAcc { result: Some(l), ..a }
    } else if "RUNTIME "@.is_prefix_of(l) {
        RouteAcc { runtime: a.runtime.push(l), ..a }
    } else if "JITDIFF "@.is_prefix_of(l) {
        RouteAcc { jitdiff: a.jitdiff.push(l), ..a }
    } else if "EXPECT "@.is_prefix_of(l) {
        RouteAcc { expect: Some(l), ..a }
    } else if "STORE "@.is_prefix_of(l) {
        RouteAcc { store: Some(l), ..a }
    } else if "PRUNE "@.is_prefix_of(l) {
        RouteAcc { prune: Some(l), ..a }
    } else if "LIVENESS "@.is_prefix_of(l) {
        RouteAcc { liveness: Some(l), ..a }
    } else if "---LOG---"@.is_prefix_of(l) {
        RouteAcc { in_log: true, ..a }
    } else if "---END---"@.is_prefix_of(l) {
        RouteAcc { in_log: false, ..a }
    } else if a.in_log {
        RouteAcc { log: a.log.push(l), ..a }
    } else {
        a
    }
}

pub open spec fn route_fold(ls: Seq<Seq<char>>) -> RouteAcc
    decreases ls.len(),
{
    if ls.len() == 0 {
        RouteAcc {
            result: None,
            runtime: seq![],
            expect: None,
            jitdiff: seq![],
            store: None,
            prune: None,
            liveness: None,
            in_log: false,
            log: seq![],
        }
    } else {
        route_step(route_fold(ls.drop_last()), ls.last())
    }
}

/// The routing of a block's repaired lines.
pub open spec fn routed(block: Seq<Seq<char>>) -> RouteAcc {
    route_fold(repair_spec(block).0)
}

/// `s` with every leading repetition of `p` removed.
pub open spec fn strip_all(s: Seq<char>, p: Seq<char>) -> Seq<char>
    decreases s.len(),
{
    if p.len() > 0 && p.is_prefix_of(s) {
        strip_all(s.skip(p.len() as int), p)
    } else {
        s
    }
}

/// Whether every log line is blank.
pub open spec fn log_blank(log: Seq<Seq<char>>) -> bool {
    forall|i: int| 0 <= i < log.len() ==> #[trigger] trim(log[i]).len() == 0
}

/// Why a block yields no record, if it does not: no RESULT line; a RESULT that is
/// not a verifier decision; or an empty verifier log.
pub open spec fn unparsed_spec(block: Seq<Seq<char>>) -> Option<(UnparsedKind, Seq<char>)> {
    let a = routed(block);
    match a.result {
        None => Some((UnparsedKind::Unrecognized, "no RESULT line \u{2014} decision unknown"@)),
        Some(res) => if !contains(res, "decision=accept"@) && !contains(res, "decision=reject"@) {
            Some((UnparsedKind::NotObserved, "non-verifier RESULT: "@ + trim(res)))
        } else if log_blank(a.log) {
            Some(
                (
                    UnparsedKind::NotObserved,
                    "empty verifier log ("@ + strip_all(trim(res), "RESULT "@)
                        + ") \u{2014} verifier never ran"@,
                ),
            )
        } else {
            None
        },
    }
}

/// The decision of a recognized block.
pub open spec fn decision_ok(a: RouteAcc, d: VerifierDecision) -> bool {
    if contains(a.result->0, "decision=accept"@) {
        d is Accept
    } else {
        d matches VerifierDecision::Reject { reason } && reason@ == match reject_reason_spec(a.log) {
            Some(t) => t,
            None => "unknown"@,
        }
    }
}

/// The families no known form covers, as a set.
pub open spec fn known_family(f: Seq<char>) -> bool {
    ||| f == "scalar"@
    ||| f == "map_ptr"@
    ||| f == "map_value"@
    ||| f == "map_value_or_null"@
    ||| f == "ctx"@
    ||| f == "fp"@
    ||| f == "pkt"@
    ||| f == "pkt_meta"@
    ||| f == "pkt_end"@
    ||| f == "flow_keys"@
    ||| f == "sock"@
    ||| f == "sock_common"@
    ||| f == "tcp_sock"@
    ||| f == "func"@
    ||| f == "stack"@
    ||| f == "buf"@
    ||| f == "mem"@
    ||| f == "ptr"@
}

/// A family of an unknown form occurs in the evolution.
pub open spec fn unknown_family_in(evo: Seq<SnapView>, f: Seq<char>) -> bool {
    exists|i: int, j: int|
        0 <= i < evo.len() && 0 <= j < evo[i].1.len() && f == base_family_spec(
            #[trigger] evo[i].1[j].reg_type,
        ) && !known_family(f)
}

pub open spec fn fams_view(v: Seq<Vec<char>>) -> Seq<Seq<char>> {
    v.map_values(|w: Vec<char>| w@)
}

/// A strictly increasing list of families.
pub open spec fn strictly_sorted(v: Seq<Seq<char>>) -> bool {
    forall|i: int, j: int| 0 <= i < j < v.len() ==> chars_lt(v[i], v[j])
}

/// The notes a recognized record carries, before the unknown-family notes.
pub open spec fn fixed_notes(block: Seq<Seq<char>>) -> Seq<Seq<char>> {
    let a = routed(block);
    let res = a.result->0;
    let unidentified = !contains(res, "decision=accept"@) && reject_reason_spec(a.log) is None;
    let errno = match tok_after(res, "errno="@) {
        Some(e) => e,
        None => "?"@,
    };
    let n = repair_spec(block).1;
    (if unidentified {
        seq![
            "reject reason not identified in log (errno="@ + errno
                + "; verifier printed no message)"@,
        ]
    } else {
        seq![]
    }) + (if !(exists|i: int|
        0 <= i < a.log.len() && "processed "@.is_prefix_of(#[trigger] trim_start(a.log[i]))) {
        seq!["missing 'processed' counters"@]
    } else {
        seq![]
    }) + (if n > 0 {
        seq![
            "repaired "@ + dec_str(n) + " console-interleaved line(s) (kernel printk spliced into the serial capture)"@,
        ]
    } else {
        seq![]
    })
}

pub open spec fn family_note(f: Seq<char>) -> Seq<char> {
    "unrecognized reg-type form: "@ + f
}

/// The CORE observation of a recognized block, field by field.
pub open spec fn core_ok(a: RouteAcc, c: CoreMetrics) -> bool {
    &&& decision_ok(a, c.verifier_decision)
    &&& c.register_evolution@.map_values(|s: RegSnapshot| snap_view(s)) == evolution_spec(a.log)
    &&& (c.processed.insn_processed, c.processed.states_processed) == processed_from(a.log, 0)
    &&& c.jit_interp_diff == jit_interp_spec(a.runtime, a.jitdiff)
    &&& c.coverage_delta.new_bb == 0 && c.coverage_delta.exec_n == 0
    &&& c.helper_arg_observations@.map_values(|o: HelperArgObservation| obs_view(o))
        == helper_calls_spec(a.log)
    &&& c.helper_arg_violations@.len() == 0
    &&& c.runtime_samples@ == samples_spec(a.runtime)
    &&& c.intended_retval == match a.expect {
        Some(l) => num_tok(l, "intended_retval="@),
        None => None,
    }
    &&& c.multi_path == match a.expect {
        Some(l) => multi_path_spec(l),
        None => None,
    }
    &&& c.store_site == match a.store {
        Some(l) => store_site_spec(l),
        None => None,
    }
    &&& match a.prune {
        Some(l) => if probe_complete(probe_fold(words(l))) {
            c.prune_probe matches Some(p) && probe_view(p) == probe_fold(words(l))
        } else {
            c.prune_probe is None
        },
        None => c.prune_probe is None,
    }
    &&& match gate_spec(a.liveness, a.log) {
        Some(g) => c.liveness_gate matches Some(x) && gate_view(x) == g,
        None => c.liveness_gate is None,
    }
}

/// The record a recognized block yields.
pub open spec fn record_ok(block: Seq<Seq<char>>, p: ParsedRecord) -> bool {
    let evo = evolution_spec(routed(block).log);
    let nv = p.notes@.map_values(|s: String| s@);
    let fixed = fixed_notes(block);
    &&& core_ok(routed(block), p.core)
    &&& p.label matches Some(l) && l@ == label_spec(block)
    &&& nv.len() >= fixed.len()
    &&& nv.take(fixed.len() as int) == fixed
    &&& family_notes_ok(evo, nv.skip(fixed.len() as int))
}

/// The family notes name exactly the unknown families of the evolution, one
/// note per family, in sorted order.
pub open spec fn family_notes_ok(evo: Seq<SnapView>, fams: Seq<Seq<char>>) -> bool {
    exists|fv: Seq<Seq<char>>|
        #[trigger] strictly_sorted(fv) && (forall|g: Seq<char>|
            fv.contains(g) <==> unknown_family_in(evo, g)) && fams == fv.map_values(
            |x: Seq<char>| family_note(x),
        )
}

// ---------------------------------------------------------------------------
// Unknown reg-type families
// ---------------------------------------------------------------------------

fn known_family_exec(f: &Vec<char>) -> (b: bool)
    ensures
        b == known_family(f@),
{
    crate::text::eq_lit(f, "scalar") || crate::text::eq_lit(f, "map_ptr") || crate::text::eq_lit(
        f,
        "map_value",
    ) || crate::text::eq_lit(f, "map_value_or_null") || crate::text::eq_lit(f, "ctx")
        || crate::text::eq_lit(f, "fp") || crate::text::eq_lit(f, "pkt") || crate::text::eq_lit(
        f,
        "pkt_meta",
    ) || crate::text::eq_lit(f, "pkt_end") || crate::text::eq_lit(f, "flow_keys")
        || crate::text::eq_lit(f, "sock") || crate::text::eq_lit(f, "sock_common")
        || crate::text::eq_lit(f, "tcp_sock") || crate::text::eq_lit(f, "func")
        || crate::text::eq_lit(f, "stack") || crate::text::eq_lit(f, "buf") || crate::text::eq_lit(
        f,
        "mem",
    ) || crate::text::eq_lit(f, "ptr")
}

fn chars_less(a: &Vec<char>, b: &Vec<char>) -> (r: bool)
    ensures
        r == chars_lt(a@, b@),
{
    let mut i: usize = 0;
    proof {
        assert(a@.skip(0) =~= a@);
        assert(b@.skip(0) =~= b@);
    }
    while i < a.len() && i < b.len()
        invariant
            i <= a@.len(),
            i <= b@.len(),
            chars_lt(a@, b@) == chars_lt(a@.skip(i as int), b@.skip(i as int)),
        decreases a@.len() - i,
    {
        if a[i] != b[i] {
            proof {
                assert(a@.skip(i as int)[0] == a@[i as int]);
                assert(b@.skip(i as int)[0] == b@[i as int]);
            }
            return a[i] < b[i];
        }
        proof {
            assert(a@.skip(i as int).drop_first() =~= a@.skip(i + 1));
            assert(b@.skip(i as int).drop_first() =~= b@.skip(i + 1));
        }
        i = i + 1;
    }
    proof {
        assert(a@.skip(i as int).len() == a@.len() - i);
        assert(b@.skip(i as int).len() == b@.len() - i);
    }
    a.len() < b.len()
}

/// Inserts `x` into a strictly sorted list of families, if absent.
fn insert_family(v: &mut Vec<Vec<char>>, x: Vec<char>)
    requires
        strictly_sorted(fams_view(old(v)@)),
    ensures
        strictly_sorted(fams_view(final(v)@)),
        forall|f: Seq<char>|
            #[trigger] fams_view(final(v)@).contains(f) <==> (fams_view(old(v)@).contains(f) || f
                == x@),
{
    let ghost vv = fams_view(v@);
    proof {
        assert forall|a: Seq<char>| !#[trigger] chars_lt(a, a) by {
            lemma_chars_lt_irrefl(a);
        }
        assert forall|a: Seq<char>, b: Seq<char>|
            a != b implies #[trigger] chars_lt(a, b) || #[trigger] chars_lt(b, a) by {
            lemma_chars_lt_total(a, b);
        }
        assert forall|a: Seq<char>, b: Seq<char>, c: Seq<char>|
            #[trigger] chars_lt(a, b) && #[trigger] chars_lt(b, c) implies chars_lt(a, c) by {
            lemma_chars_lt_trans(a, b, c);
        }
    }
    let mut p: usize = 0;
    while p < v.len() && chars_less(&v[p], &x)
        invariant
            p <= v@.len(),
            vv == fams_view(v@),
            forall|k: int| 0 <= k < p ==> chars_lt(#[trigger] vv[k], x@),
        decreases v@.len() - p,
    {
        p = p + 1;
    }
    if p < v.len() && crate::text::chars_eq(&v[p], &x) {
        proof {
            assert(vv.contains(x@)) by {
                assert(vv[p as int] == x@);
            }
        }
        return;
    }
    proof {
        if p < vv.len() {
            assert(!chars_lt(vv[p as int], x@));
            assert(vv[p as int] != x@);
            assert(chars_lt(x@, vv[p as int]));
        }
    }
    v.insert(p, x);
    let ghost nv = fams_view(v@);
    proof {
        assert(nv =~= vv.insert(p as int, x@));
        assert forall|i: int, j: int| 0 <= i < j < nv.len() implies chars_lt(nv[i], nv[j]) by {
            if j < p {
            } else if j == p {
            } else if i < p {
                assert(nv[j] == vv[j - 1]);
                if j - 1 > p {
                    assert(chars_lt(vv[p as int], vv[j - 1]));
                }
            } else if i == p {
                assert(nv[j] == vv[j - 1]);
                if j - 1 > p {
                    assert(chars_lt(vv[p as int], vv[j - 1]));
                }
            } else {
                assert(nv[i] == vv[i - 1]);
                assert(nv[j] == vv[j - 1]);
            }
        }
        assert forall|f: Seq<char>| nv.contains(f) <==> (vv.contains(f) || f == x@) by {
            if nv.contains(f) {
                let k = choose|k: int| 0 <= k < nv.len() && nv[k] == f;
                if k < p {
                    assert(vv[k] == f);
                } else if k > p {
                    assert(vv[k - 1] == f);
                }
            }
            if vv.contains(f) {
                let k = choose|k: int| 0 <= k < vv.len() && vv[k] == f;
                if k < p {
                    assert(nv[k] == f);
                } else {
                    assert(nv[k + 1] == f);
                }
            }
            if f == x@ {
                assert(nv[p as int] == f);
            }
        }
    }
}

/// The reg-type families no known form covers, sorted and without repeats.
pub fn unrecognized_reg_families(snaps: &Vec<RegSnapshot>) -> (r: Vec<Vec<char>>)
    ensures
        strictly_sorted(fams_view(r@)),
        forall|f: Seq<char>|
            fams_view(r@).contains(f) <==> unknown_family_in(
                snaps@.map_values(|s: RegSnapshot| snap_view(s)),
                f,
            ),
{
    let ghost evo = snaps@.map_values(|s: RegSnapshot| snap_view(s));
    let mut out: Vec<Vec<char>> = Vec::new();
    proof {
        assert(fams_view(out@) =~= Seq::<Seq<char>>::empty());
    }
    let mut i: usize = 0;
    while i < snaps.len()
        invariant
            i <= snaps@.len(),
            evo == snaps@.map_values(|s: RegSnapshot| snap_view(s)),
            strictly_sorted(fams_view(out@)),
            forall|f: Seq<char>|
                fams_view(out@).contains(f) <==> exists|a: int, b: int|
                    0 <= a < i && 0 <= b < evo[a].1.len() && f == base_family_spec(
                        #[trigger] evo[a].1[b].reg_type,
                    ) && !known_family(f),
        decreases snaps@.len() - i,
    {
        let regs = &snaps[i].regs;
        let ghost rv = evo[i as int].1;
        proof {
            assert(rv == regs@.map_values(|r: RegState| reg_view(r)));
        }
        let mut j: usize = 0;
        while j < regs.len()
            invariant
                j <= regs@.len(),
                i < snaps@.len(),
                regs == snaps@[i as int].regs,
                evo == snaps@.map_values(|s: RegSnapshot| snap_view(s)),
                rv == evo[i as int].1,
                rv == regs@.map_values(|r: RegState| reg_view(r)),
                strictly_sorted(fams_view(out@)),
                forall|f: Seq<char>|
                    fams_view(out@).contains(f) <==> (exists|a: int, b: int|
                        0 <= a < i && 0 <= b < evo[a].1.len() && f == base_family_spec(
                            #[trigger] evo[a].1[b].reg_type,
                        ) && !known_family(f)) || (exists|b: int|
                        0 <= b < j && f == base_family_spec(#[trigger] rv[b].reg_type)
                            && !known_family(f)),
            decreases regs@.len() - j,
        {
            let rt = crate::text::chars_of_string(&regs[j].reg_type);
            let fam = base_family(&rt);
            proof {
                assert(rv[j as int].reg_type == regs@[j as int].reg_type@);
            }
            if !known_family_exec(&fam) {
                insert_family(&mut out, fam);
            }
            proof {
                assert forall|f: Seq<char>|
                    fams_view(out@).contains(f) <==> (exists|a: int, b: int|
                        0 <= a < i && 0 <= b < evo[a].1.len() && f == base_family_spec(
                            #[trigger] evo[a].1[b].reg_type,
                        ) && !known_family(f)) || (exists|b: int|
                        0 <= b < j + 1 && f == base_family_spec(#[trigger] rv[b].reg_type)
                            && !known_family(f)) by {
                    if exists|b: int|
                        0 <= b < j + 1 && f == base_family_spec(#[trigger] rv[b].reg_type)
                            && !known_family(f) {
                        let b = choose|b: int|
                            0 <= b < j + 1 && f == base_family_spec(#[trigger] rv[b].reg_type)
                                && !known_family(f);
                        if b < j {
                        }
                    }
                }
            }
            j = j + 1;
        }
        proof {
            assert forall|f: Seq<char>|
                fams_view(out@).contains(f) <==> exists|a: int, b: int|
                    0 <= a < i + 1 && 0 <= b < evo[a].1.len() && f == base_family_spec(
                        #[trigger] evo[a].1[b].reg_type,
                    ) && !known_family(f) by {
                if exists|a: int, b: int|
                    0 <= a < i + 1 && 0 <= b < evo[a].1.len() && f == base_family_spec(
                        #[trigger] evo[a].1[b].reg_type,
                    ) && !known_family(f) {
                    let (a, b) = choose|a: int, b: int|
                        0 <= a < i + 1 && 0 <= b < evo[a].1.len() && f == base_family_spec(
                            #[trigger] evo[a].1[b].reg_type,
                        ) && !known_family(f);
                    if a == i {
                        assert(f == base_family_spec(rv[b].reg_type));
                    }
                }
                if exists|b: int|
                    0 <= b < regs@.len() && f == base_family_spec(#[trigger] rv[b].reg_type)
                        && !known_family(f) {
                    let b = choose|b: int|
                        0 <= b < regs@.len() && f == base_family_spec(#[trigger] rv[b].reg_type)
                            && !known_family(f);
                    assert(f == base_family_spec(evo[i as int].1[b].reg_type));
                }
            }
        }
        i = i + 1;
    }
    out
}

} // verus!

verus! {

/// The routing being built over a block's lines.
struct RouteBuild {
    result: Option<Vec<char>>,
    runtime: Vec<Vec<char>>,
    expect: Option<Vec<char>>,
    jitdiff: Vec<Vec<char>>,
    store: Option<Vec<char>>,
    prune: Option<Vec<char>>,
    liveness: Option<Vec<char>>,
    in_log: bool,
    log: Vec<Vec<char>>,
}

spec fn ov(o: Option<Vec<char>>) -> Option<Seq<char>> {
    match o {
        Some(v) => Some(v@),
        None => None,
    }
}

spec fn route_view(b: RouteBuild) -> RouteAcc {
    RouteAcc {
        result: ov(b.result),
        runtime: lines_view(b.runtime@),
        expect: ov(b.expect),
        jitdiff: lines_view(b.jitdiff@),
        store: ov(b.store),
        prune: ov(b.prune),
        liveness: ov(b.liveness),
        in_log: b.in_log,
        log: lines_view(b.log@),
    }
}

fn copy_line(l: &Vec<char>) -> (r: Vec<char>)
    ensures
        r@ == l@,
{
    slice_chars(l, 0, l.len())
}

fn route_step_exec(b: &mut RouteBuild, l: &Vec<char>)
    ensures
        route_view(*final(b)) == route_step(route_view(*old(b)), l@),
{
    let ghost b0 = route_view(*b);
    if starts_with_lit(l, "RESULT ") {
        b.result = Some(copy_line(l));
    } else if starts_with_lit(l, "RUNTIME ") {
        b.runtime.push(copy_line(l));
        proof {
            assert(lines_view(b.runtime@) =~= b0.runtime.push(l@));
        }
    } else if starts_with_lit(l, "JITDIFF ") {
        b.jitdiff.push(copy_line(l));
        proof {
            assert(lines_view(b.jitdiff@) =~= b0.jitdiff.push(l@));
        }
    } else if starts_with_lit(l, "EXPECT ") {
        b.expect = Some(copy_line(l));
    } else if starts_with_lit(l, "STORE ") {
        b.store = Some(copy_line(l));
    } else if starts_with_lit(l, "PRUNE ") {
        b.prune = Some(copy_line(l));
    } else if starts_with_lit(l, "LIVENESS ") {
        b.liveness = Some(copy_line(l));
    } else if starts_with_lit(l, "---LOG---") {
        b.in_log = true;
    } else if starts_with_lit(l, "---END---") {
        b.in_log = false;
    } else if b.in_log {
        b.log.push(copy_line(l));
        proof {
            assert(lines_view(b.log@) =~= b0.log.push(l@));
        }
    }
}

fn contains_lit(v: &Vec<char>, lit: &str) -> (b: bool)
    ensures
        b == contains(v@, lit@),
{
    let p = chars_of(lit);
    find_chars_from(v, &p, 0).is_some()
}

fn strip_all_exec(v: &Vec<char>, lit: &str) -> (r: Vec<char>)
    ensures
        r@ == strip_all(v@, lit@),
{
    let p = chars_of(lit);
    let mut t = copy_line(v);
    if p.len() == 0 {
        return t;
    }
    loop
        invariant
            strip_all(t@, lit@) == strip_all(v@, lit@),
            p@ == lit@,
            p@.len() > 0,
        ensures
            strip_all(t@, lit@) == strip_all(v@, lit@),
            t@ == strip_all(t@, lit@),
        decreases t@.len(),
    {
        if !starts_with_lit(&t, lit) {
            break;
        }
        let n = slice_chars(&t, p.len(), t.len());
        proof {
            assert(n@ =~= t@.skip(lit@.len() as int));
        }
        t = n;
    }
    t
}

fn chars_to_string_with(prefix: &str, body: &Vec<char>, suffix: &str) -> (s: String)
    ensures
        s@ == prefix@ + body@ + suffix@,
        suffix@ == ""@ ==> s@ == prefix@ + body@,
{
    proof {
        reveal_strlit("");
        if suffix@ == ""@ {
            assert(prefix@ + body@ + suffix@ =~= prefix@ + body@);
        }
    }
    let mut s = string_from(prefix);
    push_chars(&mut s, body);
    push_str(&mut s, suffix);
    s
}

fn build_core(b: &RouteBuild, accept: bool) -> (r: (CoreMetrics, bool))
    requires
        route_view(*b).result is Some,
        accept == contains(route_view(*b).result->0, "decision=accept"@),
    ensures
        core_ok(route_view(*b), r.0),
        r.1 == (!accept && reject_reason_spec(route_view(*b).log) is None),
{
    let mut reason_unidentified = false;
    let decision = if accept {
        VerifierDecision::Accept
    } else {
        match parse_reject_reason(&b.log) {
            Some(t) => VerifierDecision::Reject { reason: string_of_all(&t) },
            None => {
                reason_unidentified = true;
                VerifierDecision::Reject { reason: string_from("unknown") }
            },
        }
    };
    let evolution = parse_register_evolution(&b.log);
    let intended = match &b.expect {
        Some(l) => parse_intended_retval(l),
        None => None,
    };
    let multi = match &b.expect {
        Some(l) => parse_multi_path(l),
        None => None,
    };
    let store = match &b.store {
        Some(l) => parse_store_site(l),
        None => None,
    };
    let prune = match &b.prune {
        Some(l) => parse_prune_probe(l),
        None => None,
    };
    let core = CoreMetrics {
        verifier_decision: decision,
        register_evolution: evolution,
        processed: parse_processed(&b.log),
        jit_interp_diff: parse_jit_interp(&b.runtime, &b.jitdiff),
        coverage_delta: CoverageDelta { new_bb: 0, exec_n: 0 },
        helper_arg_observations: parse_helper_calls(&b.log),
        helper_arg_violations: Vec::new(),
        runtime_samples: parse_runtime_samples(&b.runtime),
        intended_retval: intended,
        multi_path: multi,
        store_site: store,
        prune_probe: prune,
        liveness_gate: parse_liveness_gate(&b.liveness, &b.log),
    };
    (core, reason_unidentified)
}

/// Classifies one block: a trustworthy record, or an unparsed block.
#[verifier::rlimit(60)]
pub fn classify_block(block: &Vec<Vec<char>>) -> (r: Result<ParsedRecord, UnparsedBlock>)
    ensures
        match unparsed_spec(lines_view(block@)) {
            Some(u) => r matches Err(x) && x.label@ == label_spec(lines_view(block@)) && x.kind
                == u.0 && x.reason@ == u.1,
            None => r matches Ok(p) && record_ok(lines_view(block@), p),
        },
{
    let ghost bv = lines_view(block@);
    let label = block_label(block);
    let (repaired, splices) = repair_console_interleaving(block);
    let ghost rv = repair_spec(bv).0;
    let mut b = RouteBuild {
        result: None,
        runtime: Vec::new(),
        expect: None,
        jitdiff: Vec::new(),
        store: None,
        prune: None,
        liveness: None,
        in_log: false,
        log: Vec::new(),
    };
    proof {
        assert(lines_view(b.runtime@) =~= Seq::<Seq<char>>::empty());
        assert(lines_view(b.jitdiff@) =~= Seq::<Seq<char>>::empty());
        assert(lines_view(b.log@) =~= Seq::<Seq<char>>::empty());
        assert(rv.take(0) =~= Seq::<Seq<char>>::empty());
        assert(route_view(b) == route_fold(rv.take(0)));
    }
    let mut i: usize = 0;
    while i < repaired.len()
        invariant
            i <= repaired@.len(),
            lines_view(repaired@) == rv,
            route_view(b) == route_fold(rv.take(i as int)),
        decreases repaired@.len() - i,
    {
        proof {
            assert(rv.take(i + 1).drop_last() =~= rv.take(i as int));
            assert(rv.take(i + 1).last() == repaired@[i as int]@);
        }
        route_step_exec(&mut b, &repaired[i]);
        i = i + 1;
    }
    proof {
        assert(rv.take(rv.len() as int) =~= rv);
        assert(route_view(b) == routed(bv));
    }
    let ghost a = routed(bv);
    let result = match &b.result {
        Some(r) => r,
        None => {
            return Err(
                UnparsedBlock {
                    label: string_of_all(&label),
                    kind: UnparsedKind::Unrecognized,
                    reason: string_from("no RESULT line \u{2014} decision unknown"),
                },
            );
        },
    };
    let accept = contains_lit(result, "decision=accept");
    let reject = contains_lit(result, "decision=reject");
    if !accept && !reject {
        let t = trim_chars(result);
        return Err(
            UnparsedBlock {
                label: string_of_all(&label),
                kind: UnparsedKind::NotObserved,
                reason: chars_to_string_with("non-verifier RESULT: ", &t, ""),
            },
        );
    }
    let mut blank = true;
    let mut k: usize = 0;
    while k < b.log.len()
        invariant
            k <= b.log@.len(),
            lines_view(b.log@) == a.log,
            blank == (forall|q: int| 0 <= q < k ==> #[trigger] trim(a.log[q]).len() == 0),
        decreases b.log@.len() - k,
    {
        let t = trim_chars(&b.log[k]);
        proof {
            assert(a.log[k as int] == b.log@[k as int]@);
        }
        if t.len() != 0 {
            blank = false;
        }
        k = k + 1;
    }
    if blank {
        let t = trim_chars(result);
        let s = strip_all_exec(&t, "RESULT ");
        return Err(
            UnparsedBlock {
                label: string_of_all(&label),
                kind: UnparsedKind::NotObserved,
                reason: chars_to_string_with(
                    "empty verifier log (",
                    &s,
                    ") \u{2014} verifier never ran",
                ),
            },
        );
    }
    let (core, reason_unidentified) = build_core(&b, accept);
    let mut notes: Vec<String> = Vec::new();
    if reason_unidentified {
        let ws = line_words(result);
        let errno = match first_tok_exec(&ws, "errno=") {
            Some(e) => e,
            None => chars_of("?"),
        };
        notes.push(
            chars_to_string_with(
                "reject reason not identified in log (errno=",
                &errno,
                "; verifier printed no message)",
            ),
        );
    }
    let mut any_processed = false;
    let mut q: usize = 0;
    while q < b.log.len()
        invariant
            q <= b.log@.len(),
            lines_view(b.log@) == a.log,
            any_processed == (exists|z: int|
                0 <= z < q && "processed "@.is_prefix_of(#[trigger] trim_start(a.log[z]))),
        decreases b.log@.len() - q,
    {
        let t = trim_start_chars(&b.log[q]);
        proof {
            assert(a.log[q as int] == b.log@[q as int]@);
        }
        if starts_with_lit(&t, "processed ") {
            any_processed = true;
        }
        q = q + 1;
    }
    if !any_processed {
        notes.push(string_from("missing 'processed' counters"));
    }
    if splices > 0 {
        let mut s = string_from("repaired ");
        push_dec(&mut s, splices as u64);
        push_str(
            &mut s,
            " console-interleaved line(s) (kernel printk spliced into the serial capture)",
        );
        notes.push(s);
    }
    let ghost nfixed = notes@.map_values(|s: String| s@);
    proof {
        assert(nfixed =~= fixed_notes(bv));
    }
    let fams = unrecognized_reg_families(&core.register_evolution);
    let mut f: usize = 0;
    while f < fams.len()
        invariant
            f <= fams@.len(),
            notes@.map_values(|s: String| s@) == nfixed + fams_view(fams@).take(f as int).map_values(
                |x: Seq<char>| family_note(x),
            ),
        decreases fams@.len() - f,
    {
        let ghost before = notes@;
        let note = chars_to_string_with("unrecognized reg-type form: ", &fams[f], "");
        proof {
            reveal_strlit("");
            assert(note@ == family_note(fams@[f as int]@));
        }
        notes.push(note);
        proof {
            let fv = fams_view(fams@);
            assert(fv[f as int] == fams@[f as int]@);
            assert(fv.take(f + 1).map_values(|x: Seq<char>| family_note(x)) =~= fv.take(
                f as int,
            ).map_values(|x: Seq<char>| family_note(x)).push(family_note(fv[f as int])));
            assert(notes@.map_values(|s: String| s@) =~= before.map_values(|s: String| s@).push(
                note@,
            ));
            assert(notes@.map_values(|s: String| s@) =~= nfixed + fams_view(fams@).take(f + 1).map_values(
                |x: Seq<char>| family_note(x),
            ));
        }
        f = f + 1;
    }
    let p = ParsedRecord { core, notes, label: Some(string_of_all(&label)) };
    proof {
        assert(!log_blank(a.log));
        assert(unparsed_spec(bv) is None);
        assert(core_ok(routed(bv), p.core));
        assert(p.label matches Some(l) && l@ == label_spec(bv));
        let evo = evolution_spec(a.log);
        let nv = p.notes@.map_values(|s: String| s@);
        let fv = fams_view(fams@);
        assert(fv.take(fv.len() as int) =~= fv);
        assert(nv.take(nfixed.len() as int) =~= nfixed);
        let tail = nv.skip(nfixed.len() as int);
        assert(tail =~= fv.map_values(|x: Seq<char>| family_note(x)));
        assert(strictly_sorted(fv));
        assert(family_notes_ok(evo, tail));
        assert(nv.len() >= nfixed.len());
        assert(fixed_notes(bv) == nfixed);
        assert(evo == evolution_spec(routed(bv).log));
        assert(record_ok(bv, p));
    }
    Ok(p)
}

} // verus!
