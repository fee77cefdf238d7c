//! What the verifier log itself says: the reject reason, the `processed`
//! counters, the register-state evolution, and the helper-call argument
//! observations.
use vstd::prelude::*;
use crate::text::{
    trim, trim_start, trim_end, is_dec, chars_of, slice_chars, starts_with_lit, eq_lit, trim_chars,
    trim_start_chars, trim_end_chars, string_of_all, find, find_char_from, find_char, find_lit,
    find_from, contains, occurs_at, find_chars_from,
};
use crate::num::{parse_u32, parse_u32_chars};
use crate::metrics::{RegState, RegSnapshot, Processed, HelperArgObservation};
use crate::verifier_log::fields::{
    strip_prefix, digit_run_end, lemma_digit_run, digit_run, num_after_spec, num_after,
    lemma_find_char_bounds, lemma_find_from_bounds,
};
use crate::verifier_log::regs::{
    reg_name_len, reg_token_name_len, reg_tokens, token_views, parse_reg_tokens, reg_view, RegView,
    strip_frame_spec, strip_frame, reg_family_spec, reg_family,
};

verus! {

/// `t` begins with a `<digits>:` head.
pub open spec fn digit_head(t: Seq<char>) -> bool {
    match find_char_from(t, ':', 0) {
        Some(c) => c > 0 && digit_run_end(t, 0) >= c,
        None => false,
    }
}

pub fn has_digit_head(t: &Vec<char>) -> (b: bool)
    ensures
        b == digit_head(t@),
{
    proof {
        lemma_find_char_bounds(t@, ':', 0);
        lemma_digit_run(t@, 0);
    }
    match find_char(t, ':', 0) {
        Some(c) => {
            assert(t@.len() == t.len());
            c > 0 && digit_run(t, 0) >= c
        },
        None => false,
    }
}

/// Analysis scaffolding a verifier log prints around the real failure text.
pub open spec fn analysis_noise(t: Seq<char>) -> bool {
    ||| "("@.is_prefix_of(t)
    ||| "func#"@.is_prefix_of(t)
    ||| "topo_order"@.is_prefix_of(t)
    ||| "subprog#"@.is_prefix_of(t)
    ||| "stack use/def"@.is_prefix_of(t)
    ||| "Live regs"@.is_prefix_of(t)
    ||| "processed "@.is_prefix_of(t)
    ||| "mark_precise:"@.is_prefix_of(t)
    ||| "from "@.is_prefix_of(t)
    ||| "SCC enter"@.is_prefix_of(t)
    ||| "SCC exit"@.is_prefix_of(t)
    ||| "SCC backedge"@.is_prefix_of(t)
    ||| "Verification failed:"@.is_prefix_of(t)
    ||| "Reason:"@.is_prefix_of(t)
    ||| "At:"@.is_prefix_of(t)
    ||| "Suggestion:"@.is_prefix_of(t)
    ||| "Instruction context"@.is_prefix_of(t)
}

pub fn is_analysis_noise(t: &Vec<char>) -> (b: bool)
    ensures
        b == analysis_noise(t@),
{
    starts_with_lit(t, "(") || starts_with_lit(t, "func#") || starts_with_lit(t, "topo_order")
        || starts_with_lit(t, "subprog#") || starts_with_lit(t, "stack use/def") || starts_with_lit(
        t,
        "Live regs",
    ) || starts_with_lit(t, "processed ") || starts_with_lit(t, "mark_precise:")
        || starts_with_lit(t, "from ") || starts_with_lit(t, "SCC enter") || starts_with_lit(
        t,
        "SCC exit",
    ) || starts_with_lit(t, "SCC backedge") || starts_with_lit(t, "Verification failed:")
        || starts_with_lit(t, "Reason:") || starts_with_lit(t, "At:") || starts_with_lit(
        t,
        "Suggestion:",
    ) || starts_with_lit(t, "Instruction context")
}

/// The failure text with a glued-on `processed N insns (limit ...)` summary cut off.
pub open spec fn strip_glued_spec(t: Seq<char>) -> Seq<char> {
    match find(t, "processed "@) {
        Some(i) => if i > 0 && contains(t.skip(i), " insns (limit"@) {
            trim_end(t.take(i))
        } else {
            t
        },
        None => t,
    }
}

pub fn strip_glued_summary(t: &Vec<char>) -> (r: Vec<char>)
    ensures
        r@ == strip_glued_spec(t@),
{
    proof {
        lemma_find_from_bounds(t@, "processed "@, 0);
    }
    match find_lit(t, "processed ") {
        Some(i) => {
            let tail = slice_chars(t, i, t.len());
            let p = chars_of(" insns (limit");
            proof {
                assert(tail@ =~= t@.skip(i as int));
            }
            if i > 0 && find_chars_from(&tail, &p, 0).is_some() {
                let head = slice_chars(t, 0, i);
                proof {
                    assert(head@ =~= t@.take(i as int));
                }
                trim_end_chars(&head)
            } else {
                slice_chars(t, 0, t.len())
            }
        },
        None => slice_chars(t, 0, t.len()),
    }
}

/// The reject reason from line `i` on, `head` holding the first structured
/// headline seen so far.
pub open spec fn reason_from(log: Seq<Seq<char>>, i: int, head: Option<Seq<char>>) -> Option<
    Seq<char>,
>
    decreases log.len() - i,
{
    if i < 0 || i >= log.len() {
        head
    } else {
        let line = log[i];
        if " "@.is_prefix_of(line) {
            reason_from(log, i + 1, head)
        } else {
            let t = trim(line);
            if t.len() == 0 || digit_head(t) {
                reason_from(log, i + 1, head)
            } else if "Verification failed:"@.is_prefix_of(t) {
                reason_from(
                    log,
                    i + 1,
                    match head {
                        Some(h) => Some(h),
                        None => Some(t),
                    },
                )
            } else if analysis_noise(t) {
                reason_from(log, i + 1, head)
            } else {
                Some(strip_glued_spec(t))
            }
        }
    }
}

/// The verifier's failure text, verbatim, or `None` when it cannot be identified.
pub open spec fn reject_reason_spec(log: Seq<Seq<char>>) -> Option<Seq<char>> {
    reason_from(log, 0, None)
}

pub fn parse_reject_reason(log: &Vec<Vec<char>>) -> (r: Option<Vec<char>>)
    ensures
        match reject_reason_spec(log@.map_values(|l: Vec<char>| l@)) {
            Some(t) => r matches Some(x) && x@ == t,
            None => r is None,
        },
{
    let ghost lv = log@.map_values(|l: Vec<char>| l@);
    let mut headline: Option<Vec<char>> = None;
    let mut i: usize = 0;
    while i < log.len()
        invariant
            i <= log@.len(),
            lv == log@.map_values(|l: Vec<char>| l@),
            reject_reason_spec(lv) == reason_from(
                lv,
                i as int,
                match headline {
                    Some(h) => Some(h@),
                    None => None,
                },
            ),
        decreases log@.len() - i,
    {
        let line = &log[i];
        proof {
            assert(lv[i as int] == line@);
        }
        if starts_with_lit(line, " ") {
            i = i + 1;
            continue;
        }
        let t = trim_chars(line);
        if t.len() == 0 || has_digit_head(&t) {
            i = i + 1;
            continue;
        }
        if starts_with_lit(&t, "Verification failed:") {
            if headline.is_none() {
                headline = Some(t);
            }
            i = i + 1;
            continue;
        }
        if is_analysis_noise(&t) {
            i = i + 1;
            continue;
        }
        return Some(strip_glued_summary(&t));
    }
    headline
}

/// The `processed` counters of the first summary line.
pub open spec fn processed_from(log: Seq<Seq<char>>, i: int) -> (u64, u64)
    decreases log.len() - i,
{
    if i < 0 || i >= log.len() {
        (0, 0)
    } else {
        let t = trim_start(log[i]);
        if "processed "@.is_prefix_of(t) {
            (
                match num_after_spec(t, "processed "@) {
                    Some(n) => n,
                    None => 0,
                },
                match num_after_spec(t, "total_states "@) {
                    Some(n) => n,
                    None => 0,
                },
            )
        } else {
            processed_from(log, i + 1)
        }
    }
}

pub fn parse_processed(log: &Vec<Vec<char>>) -> (p: Processed)
    ensures
        (p.insn_processed, p.states_processed) == processed_from(
            log@.map_values(|l: Vec<char>| l@),
            0,
        ),
{
    let ghost lv = log@.map_values(|l: Vec<char>| l@);
    let mut i: usize = 0;
    while i < log.len()
        invariant
            i <= log@.len(),
            lv == log@.map_values(|l: Vec<char>| l@),
            processed_from(lv, 0) == processed_from(lv, i as int),
        decreases log@.len() - i,
    {
        let t = trim_start_chars(&log[i]);
        proof {
            assert(lv[i as int] == log@[i as int]@);
        }
        if starts_with_lit(&t, "processed ") {
            let a = match num_after(&t, "processed ") {
                Some(n) => n,
                None => 0,
            };
            let b = match num_after(&t, "total_states ") {
                Some(n) => n,
                None => 0,
            };
            return Processed { insn_processed: a, states_processed: b };
        }
        i = i + 1;
    }
    Processed { insn_processed: 0, states_processed: 0 }
}

/// A `from <prev> to <idx>[ (speculative execution)]: <state>` dump: the
/// destination index and the state with any `frameN:` prefix removed.
pub open spec fn from_to_spec(t: Seq<char>) -> Option<(u32, Seq<char>)> {
    match strip_prefix(t, "from "@) {
        None => None,
        Some(rest) => match find(rest, " to "@) {
            None => None,
            Some(k) => {
                let rest2 = rest.skip(k + 4);
                match find_char_from(rest2, ':', 0) {
                    None => None,
                    Some(colon) => {
                        let head = rest2.take(colon);
                        let d = digit_run_end(head, 0);
                        let tail = trim(head.skip(d));
                        if d == 0 || (tail.len() > 0 && tail != "(speculative execution)"@) {
                            None
                        } else {
                            match parse_u32(head.take(d)) {
                                None => None,
                                Some(idx) => Some(
                                    (idx, strip_frame_spec(trim_start(rest2.skip(colon + 1)))),
                                ),
                            }
                        }
                    },
                }
            },
        },
    }
}

pub fn parse_from_to(t: &Vec<char>) -> (r: Option<(u32, Vec<char>)>)
    ensures
        match from_to_spec(t@) {
            Some(p) => r matches Some(x) && x.0 == p.0 && x.1@ == p.1,
            None => r is None,
        },
{
    proof {
        reveal_strlit("from ");
        reveal_strlit(" to ");
    }
    if !starts_with_lit(t, "from ") {
        return None;
    }
    let rest = slice_chars(t, 5, t.len());
    proof {
        assert(rest@ =~= t@.skip(5));
        lemma_find_from_bounds(rest@, " to "@, 0);
    }
    let k = match find_lit(&rest, " to ") {
        Some(k) => k,
        None => return None,
    };
    assert(occurs_at(rest@, " to "@, k as int));
    assert(rest@.len() == rest.len());
    let rest2 = slice_chars(&rest, k + 4, rest.len());
    proof {
        assert(rest2@ =~= rest@.skip(k + 4));
        lemma_find_char_bounds(rest2@, ':', 0);
    }
    let colon = match find_char(&rest2, ':', 0) {
        Some(c) => c,
        None => return None,
    };
    let head = slice_chars(&rest2, 0, colon);
    proof {
        assert(head@ =~= rest2@.take(colon as int));
        lemma_digit_run(head@, 0);
    }
    let d = digit_run(&head, 0);
    let after = slice_chars(&head, d, head.len());
    let tail = trim_chars(&after);
    proof {
        assert(after@ =~= head@.skip(d as int));
    }
    if d == 0 || (tail.len() > 0 && !eq_lit(&tail, "(speculative execution)")) {
        return None;
    }
    let digits = slice_chars(&head, 0, d);
    proof {
        assert(digits@ =~= head@.take(d as int));
    }
    let idx = match parse_u32_chars(&digits) {
        Some(n) => n,
        None => return None,
    };
    let st = slice_chars(&rest2, colon + 1, rest2.len());
    proof {
        assert(st@ =~= rest2@.skip(colon + 1));
    }
    let st2 = trim_start_chars(&st);
    Some((idx, strip_frame(&st2)))
}

/// A snapshot as the spec sees it.
pub type SnapView = (u32, Seq<RegView>);

pub open spec fn snap_view(s: RegSnapshot) -> SnapView {
    (s.insn_idx, s.regs@.map_values(|r: RegState| reg_view(r)))
}

/// The register states a state string carries.
pub open spec fn states_of(s: Seq<char>) -> Seq<RegView> {
    token_views(reg_tokens(s))
}

/// `acc` with a snapshot appended when the state carries any register.
pub open spec fn push_nonempty(acc: Seq<SnapView>, idx: u32, regs: Seq<RegView>) -> Seq<SnapView> {
    if regs.len() > 0 {
        acc.push((idx, regs))
    } else {
        acc
    }
}

/// The instruction-line state: a full state, or the part after `;`.
pub open spec fn insn_state(rest: Seq<char>) -> Option<Seq<char>> {
    if reg_name_len(rest) is Some {
        Some(rest)
    } else {
        match find_char_from(rest, ';', 0) {
            Some(s) => Some(strip_frame_spec(trim(rest.skip(s + 1)))),
            None => None,
        }
    }
}

/// A `to caller at N:` header: the index the next indented dump belongs to.
pub open spec fn caller_header(t: Seq<char>) -> Option<Option<u32>> {
    match strip_prefix(t, "to caller at "@) {
        None => None,
        Some(rest) => Some(
            if rest.len() > 0 && rest.last() == ':' {
                parse_u32(rest.drop_last())
            } else {
                None
            },
        ),
    }
}

/// One log line folded into the evolution: (snapshots, pending caller index).
pub open spec fn evo_step(acc: (Seq<SnapView>, Option<u32>), line: Seq<char>) -> (
    Seq<SnapView>,
    Option<u32>,
) {
    if " "@.is_prefix_of(line) {
        match acc.1 {
            Some(idx) => {
                let t = strip_frame_spec(trim_start(line));
                if reg_name_len(t) is Some {
                    (push_nonempty(acc.0, idx, states_of(t)), None)
                } else {
                    (acc.0, None)
                }
            },
            None => (acc.0, None),
        }
    } else {
        let t = trim(line);
        match caller_header(t) {
            Some(p) => (acc.0, p),
            None => match from_to_spec(t) {
                Some(ft) => (push_nonempty(acc.0, ft.0, states_of(ft.1)), None),
                None => match find_char_from(t, ':', 0) {
                    None => (acc.0, None),
                    Some(colon) => if colon == 0 || digit_run_end(t, 0) < colon {
                        (acc.0, None)
                    } else {
                        match parse_u32(t.take(colon)) {
                            None => (acc.0, None),
                            Some(idx) => {
                                let rest = strip_frame_spec(trim_start(t.skip(colon + 1)));
                                match insn_state(rest) {
                                    Some(ss) => (push_nonempty(acc.0, idx, states_of(ss)), None),
                                    None => (acc.0, None),
                                }
                            },
                        }
                    },
                },
            },
        }
    }
}

pub open spec fn evo_fold(log: Seq<Seq<char>>) -> (Seq<SnapView>, Option<u32>)
    decreases log.len(),
{
    if log.len() == 0 {
        (seq![], None)
    } else {
        evo_step(evo_fold(log.drop_last()), log.last())
    }
}

/// The per-instruction register-state snapshots of a verifier log.
pub open spec fn evolution_spec(log: Seq<Seq<char>>) -> Seq<SnapView> {
    evo_fold(log).0
}

fn push_snap(snaps: &mut Vec<RegSnapshot>, idx: u32, state: &Vec<char>)
    ensures
        final(snaps)@.map_values(|s: RegSnapshot| snap_view(s)) == push_nonempty(
            old(snaps)@.map_values(|s: RegSnapshot| snap_view(s)),
            idx,
            states_of(state@),
        ),
{
    let regs = parse_reg_tokens(state);
    let ghost before = snaps@;
    if regs.len() > 0 {
        let s = RegSnapshot { insn_idx: idx, regs };
        snaps.push(s);
        proof {
            assert(snaps@.map_values(|s: RegSnapshot| snap_view(s)) =~= before.map_values(
                |s: RegSnapshot| snap_view(s),
            ).push(snap_view(s)));
        }
    } else {
        proof {
            assert(regs@.map_values(|x: RegState| reg_view(x)).len() == 0);
        }
    }
}

fn caller_header_exec(t: &Vec<char>) -> (r: Option<Option<u32>>)
    ensures
        r == caller_header(t@),
{
    proof {
        reveal_strlit("to caller at ");
    }
    if !starts_with_lit(t, "to caller at ") {
        return None;
    }
    let rest = slice_chars(t, 13, t.len());
    proof {
        assert(rest@ =~= t@.skip(13));
    }
    if rest.len() > 0 && rest[rest.len() - 1] == ':' {
        let d = slice_chars(&rest, 0, rest.len() - 1);
        proof {
            assert(d@ =~= rest@.drop_last());
        }
        Some(parse_u32_chars(&d))
    } else {
        Some(None)
    }
}

fn insn_state_exec(rest: &Vec<char>) -> (r: Option<Vec<char>>)
    ensures
        match insn_state(rest@) {
            Some(s) => r matches Some(x) && x@ == s,
            None => r is None,
        },
{
    proof {
        assert(rest@.skip(0) =~= rest@);
    }
    if reg_token_name_len(rest, 0).is_some() {
        return Some(slice_chars(rest, 0, rest.len()));
    }
    proof {
        lemma_find_char_bounds(rest@, ';', 0);
    }
    match find_char(rest, ';', 0) {
        Some(s) => {
            assert(rest@.len() == rest.len());
            let tail = slice_chars(rest, s + 1, rest.len());
            proof {
                assert(tail@ =~= rest@.skip(s + 1));
            }
            let tt = trim_chars(&tail);
            Some(strip_frame(&tt))
        },
        None => None,
    }
}

/// Builds the per-instruction register-state snapshots from the verifier log.
pub fn parse_register_evolution(log: &Vec<Vec<char>>) -> (r: Vec<RegSnapshot>)
    ensures
        r@.map_values(|s: RegSnapshot| snap_view(s)) == evolution_spec(
            log@.map_values(|l: Vec<char>| l@),
        ),
{
    let ghost lv = log@.map_values(|l: Vec<char>| l@);
    let mut snaps: Vec<RegSnapshot> = Vec::new();
    let mut pending: Option<u32> = None;
    let mut i: usize = 0;
    proof {
        assert(lv.take(0) =~= Seq::<Seq<char>>::empty());
        assert(snaps@.map_values(|s: RegSnapshot| snap_view(s)) =~= Seq::<SnapView>::empty());
    }
    while i < log.len()
        invariant
            i <= log@.len(),
            lv == log@.map_values(|l: Vec<char>| l@),
            (snaps@.map_values(|s: RegSnapshot| snap_view(s)), pending) == evo_fold(
                lv.take(i as int),
            ),
        decreases log@.len() - i,
    {
        let line = &log[i];
        proof {
            assert(lv.take(i + 1).drop_last() =~= lv.take(i as int));
            assert(lv.take(i + 1).last() == line@);
        }
        let ghost acc = evo_fold(lv.take(i as int));
        if starts_with_lit(line, " ") {
            match pending {
                Some(idx) => {
                    let ts = trim_start_chars(line);
                    let t = strip_frame(&ts);
                    proof {
                        assert(t@.skip(0) =~= t@);
                    }
                    if reg_token_name_len(&t, 0).is_some() {
                        push_snap(&mut snaps, idx, &t);
                    }
                },
                None => {},
            }
            pending = None;
        } else {
            let t = trim_chars(line);
            match caller_header_exec(&t) {
                Some(p) => {
                    pending = p;
                },
                None => {
                    pending = None;
                    match parse_from_to(&t) {
                        Some((idx, state)) => {
                            push_snap(&mut snaps, idx, &state);
                        },
                        None => {
                            proof {
                                lemma_find_char_bounds(t@, ':', 0);
                                lemma_digit_run(t@, 0);
                            }
                            match find_char(&t, ':', 0) {
                                None => {},
                                Some(colon) => {
                                    if colon > 0 && digit_run(&t, 0) >= colon {
                                        let head = slice_chars(&t, 0, colon);
                                        proof {
                                            assert(head@ =~= t@.take(colon as int));
                                        }
                                        match parse_u32_chars(&head) {
                                            None => {},
                                            Some(idx) => {
                                                let tail = slice_chars(&t, colon + 1, t.len());
                                                proof {
                                                    assert(tail@ =~= t@.skip(colon + 1));
                                                }
                                                let ts = trim_start_chars(&tail);
                                                let rest = strip_frame(&ts);
                                                match insn_state_exec(&rest) {
                                                    Some(ss) => {
                                                        push_snap(&mut snaps, idx, &ss);
                                                    },
                                                    None => {},
                                                }
                                            },
                                        }
                                    }
                                },
                            }
                        },
                    }
                },
            }
        }
        i = i + 1;
    }
    proof {
        assert(lv.take(lv.len() as int) =~= lv);
    }
    snaps
}

// ---------------------------------------------------------------------------
// Helper-call argument observations
// ---------------------------------------------------------------------------

/// An observation as the spec sees it: helper, argument index, observed family.
pub type ObsView = (Seq<char>, u8, Seq<char>);

pub open spec fn obs_view(o: HelperArgObservation) -> ObsView {
    (o.helper@, o.arg_index, o.observed@)
}

/// Each listed register's family recorded (256 slots, one per register number).
pub open spec fn apply_states(cur: Seq<Option<Seq<char>>>, regs: Seq<RegView>) -> Seq<
    Option<Seq<char>>,
>
    decreases regs.len(),
{
    if regs.len() == 0 {
        cur
    } else {
        let c = apply_states(cur, regs.drop_last());
        let r = regs.last();
        c.update(r.reg as int, Some(reg_family_spec(r.reg_type)))
    }
}

/// Observations for arguments `1..=n` of a call (arg N is R(N+1)... R1 is arg 0).
pub open spec fn call_obs(helper: Seq<char>, cur: Seq<Option<Seq<char>>>, n: int) -> Seq<ObsView>
    decreases n,
{
    if n <= 0 {
        seq![]
    } else {
        call_obs(helper, cur, n - 1) + match cur[n] {
            Some(f) => seq![(helper, (n - 1) as u8, f)],
            None => seq![],
        }
    }
}

/// The helper name in a call's disassembly: up to the first `#` or space.
pub open spec fn helper_name_end(h: Seq<char>, i: int) -> int
    decreases h.len() - i,
{
    if 0 <= i < h.len() && h[i] != '#' && h[i] != ' ' {
        helper_name_end(h, i + 1)
    } else {
        i
    }
}

pub open spec fn hc_step(acc: (Seq<Option<Seq<char>>>, Seq<ObsView>), line: Seq<char>) -> (
    Seq<Option<Seq<char>>>,
    Seq<ObsView>,
) {
    if " "@.is_prefix_of(line) {
        acc
    } else {
        let t = trim(line);
        match find_char_from(t, ':', 0) {
            None => acc,
            Some(colon) => if colon == 0 || digit_run_end(t, 0) < colon {
                acc
            } else {
                let rest = trim_start(t.skip(colon + 1));
                if reg_name_len(rest) is Some {
                    (apply_states(acc.0, states_of(rest)), acc.1)
                } else {
                    let (disasm, state) = match find_char_from(rest, ';', 0) {
                        Some(k) => (trim(rest.take(k)), trim(rest.skip(k + 1))),
                        None => (rest, Seq::<char>::empty()),
                    };
                    let obs = match strip_prefix(disasm, "(85) call "@) {
                        Some(h) => acc.1 + call_obs(h.take(helper_name_end(h, 0)), acc.0, 5),
                        None => acc.1,
                    };
                    let cur = if state.len() > 0 {
                        apply_states(acc.0, states_of(state))
                    } else {
                        acc.0
                    };
                    (cur, obs)
                }
            },
        }
    }
}

pub open spec fn hc_fold(log: Seq<Seq<char>>) -> (Seq<Option<Seq<char>>>, Seq<ObsView>)
    decreases log.len(),
{
    if log.len() == 0 {
        (Seq::new(256, |i: int| None), seq![])
    } else {
        hc_step(hc_fold(log.drop_last()), log.last())
    }
}

/// Helper-call argument observations of a verifier log, in order.
pub open spec fn helper_calls_spec(log: Seq<Seq<char>>) -> Seq<ObsView> {
    hc_fold(log).1
}

proof fn lemma_apply_len(cur: Seq<Option<Seq<char>>>, regs: Seq<RegView>)
    requires
        cur.len() == 256,
    ensures
        apply_states(cur, regs).len() == 256,
    decreases regs.len(),
{
    if regs.len() > 0 {
        lemma_apply_len(cur, regs.drop_last());
    }
}

pub open spec fn cur_view(cur: Seq<Option<Vec<char>>>) -> Seq<Option<Seq<char>>> {
    cur.map_values(
        |o: Option<Vec<char>>|
            match o {
                Some(v) => Some(v@),
                None => None,
            },
    )
}

fn apply_exec(cur: &mut Vec<Option<Vec<char>>>, state: &Vec<char>)
    requires
        old(cur)@.len() == 256,
    ensures
        final(cur)@.len() == 256,
        cur_view(final(cur)@) == apply_states(cur_view(old(cur)@), states_of(state@)),
{
    let regs = parse_reg_tokens(state);
    let ghost rv = regs@.map_values(|x: RegState| reg_view(x));
    let ghost c0 = cur_view(cur@);
    let mut k: usize = 0;
    while k < regs.len()
        invariant
            k <= regs@.len(),
            cur@.len() == 256,
            rv == regs@.map_values(|x: RegState| reg_view(x)),
            rv == states_of(state@),
            cur_view(cur@) == apply_states(c0, rv.take(k as int)),
        decreases regs@.len() - k,
    {
        proof {
            assert(rv.take(k + 1).drop_last() =~= rv.take(k as int));
            assert(rv.take(k + 1).last() == reg_view(regs@[k as int]));
        }
        let fam = reg_family(&crate::text::chars_of_string(&regs[k].reg_type));
        let r = regs[k].reg as usize;
        let ghost before = cur@;
        cur.set(r, Some(fam));
        proof {
            assert(cur_view(cur@) =~= cur_view(before).update(r as int, Some(fam@)));
        }
        k = k + 1;
    }
    proof {
        assert(rv.take(rv.len() as int) =~= rv);
    }
}

/// Extracts helper-call argument observations from the verifier log.
pub fn parse_helper_calls(log: &Vec<Vec<char>>) -> (r: Vec<HelperArgObservation>)
    ensures
        r@.map_values(|o: HelperArgObservation| obs_view(o)) == helper_calls_spec(
            log@.map_values(|l: Vec<char>| l@),
        ),
{
    let ghost lv = log@.map_values(|l: Vec<char>| l@);
    let mut cur: Vec<Option<Vec<char>>> = Vec::new();
    let mut z: usize = 0;
    while z < 256
        invariant
            z <= 256,
            cur@.len() == z,
            forall|q: int| 0 <= q < z ==> cur@[q] is None,
        decreases 256 - z,
    {
        cur.push(None);
        z = z + 1;
    }
    let mut obs: Vec<HelperArgObservation> = Vec::new();
    proof {
        assert(cur_view(cur@) =~= Seq::new(256, |i: int| None::<Seq<char>>));
        assert(obs@.map_values(|o: HelperArgObservation| obs_view(o)) =~= Seq::<ObsView>::empty());
    }
    let mut i: usize = 0;
    while i < log.len()
        invariant
            i <= log@.len(),
            lv == log@.map_values(|l: Vec<char>| l@),
            cur@.len() == 256,
            (cur_view(cur@), obs@.map_values(|o: HelperArgObservation| obs_view(o))) == hc_fold(
                lv.take(i as int),
            ),
        decreases log@.len() - i,
    {
        let line = &log[i];
        proof {
            assert(lv.take(i + 1).drop_last() =~= lv.take(i as int));
            assert(lv.take(i + 1).last() == line@);
        }
        if !starts_with_lit(line, " ") {
            let t = trim_chars(line);
            proof {
                lemma_find_char_bounds(t@, ':', 0);
                lemma_digit_run(t@, 0);
            }
            match find_char(&t, ':', 0) {
                None => {},
                Some(colon) => {
                    if colon > 0 && digit_run(&t, 0) >= colon {
                        assert(t@.len() == t.len());
                        let tail = slice_chars(&t, colon + 1, t.len());
                        proof {
                            assert(tail@ =~= t@.skip(colon + 1));
                        }
                        let rest = trim_start_chars(&tail);
                        proof {
                            assert(rest@.skip(0) =~= rest@);
                        }
                        if reg_token_name_len(&rest, 0).is_some() {
                            apply_exec(&mut cur, &rest);
                        } else {
                            proof {
                                lemma_find_char_bounds(rest@, ';', 0);
                            }
                            let (disasm, state) = match find_char(&rest, ';', 0) {
                                Some(k) => {
                                    let a = slice_chars(&rest, 0, k);
                                    let b = slice_chars(&rest, k + 1, rest.len());
                                    proof {
                                        assert(a@ =~= rest@.take(k as int));
                                        assert(b@ =~= rest@.skip(k + 1));
                                    }
                                    (trim_chars(&a), trim_chars(&b))
                                },
                                None => (slice_chars(&rest, 0, rest.len()), Vec::new()),
                            };
                            proof {
                                assert(rest@.subrange(0, rest@.len() as int) =~= rest@);
                                reveal_strlit("(85) call ");
                            }
                            if starts_with_lit(&disasm, "(85) call ") {
                                let h = slice_chars(&disasm, 10, disasm.len());
                                proof {
                                    assert(h@ =~= disasm@.skip(10));
                                }
                                let mut e: usize = 0;
                                while e < h.len() && h[e] != '#' && h[e] != ' '
                                    invariant
                                        e <= h@.len(),
                                        helper_name_end(h@, e as int) == helper_name_end(h@, 0),
                                    decreases h@.len() - e,
                                {
                                    e = e + 1;
                                }
                                let name = slice_chars(&h, 0, e);
                                proof {
                                    assert(name@ =~= h@.take(e as int));
                                }
                                let ghost obs0 = obs@.map_values(|o: HelperArgObservation| obs_view(o));
                                let mut reg: usize = 1;
                                while reg <= 5
                                    invariant
                                        1 <= reg <= 6,
                                        cur@.len() == 256,
                                        obs@.map_values(|o: HelperArgObservation| obs_view(o))
                                            == obs0 + call_obs(name@, cur_view(cur@), reg - 1),
                                    decreases 6 - reg,
                                {
                                    let ghost before = obs@;
                                    match &cur[reg] {
                                        Some(fam) => {
                                            let o = HelperArgObservation {
                                                helper: string_of_all(&name),
                                                arg_index: (reg - 1) as u8,
                                                observed: string_of_all(fam),
                                            };
                                            obs.push(o);
                                            proof {
                                                assert(obs@.map_values(
                                                    |o: HelperArgObservation| obs_view(o),
                                                ) =~= before.map_values(
                                                    |o: HelperArgObservation| obs_view(o),
                                                ).push(obs_view(o)));
                                            }
                                        },
                                        None => {},
                                    }
                                    proof {
                                        assert(obs@.map_values(|o: HelperArgObservation| obs_view(o))
                                            =~= obs0 + call_obs(name@, cur_view(cur@), reg as int));
                                    }
                                    reg = reg + 1;
                                }
                            }
                            if state.len() > 0 {
                                apply_exec(&mut cur, &state);
                            }
                        }
                    }
                },
            }
        }
        i = i + 1;
    }
    proof {
        assert(lv.take(lv.len() as int) =~= lv);
    }
    obs
}

} // verus!
