//! Runtime observations held against the verifier's OWN printed claims: the
//! return value against the union of r0's proven bounds, and a store's landing
//! site against the pointer state proven at the store instruction.
use vstd::prelude::*;
use crate::text::{push_str, push_string, string_from, string_eq_lit};
use crate::num::{push_dec, push_hex, push_sdec, dec_str, hex_str, sdec_str};
use crate::metrics::{RuntimeSample, CoreMetrics, RegState, RegSnapshot, StoreSite, Tnum};
use crate::diff::{
    DivergenceFinding, GroundTruthSource, FindingKey, fkeys, lkey, finding, emit, flat_keys,
    sum_count, lemma_flat_take, lemma_sum_take, lemma_sum_bound, lemma_take_all, lemma_take_step,
};

verus! {

// ---------------------------------------------------------------------------
// Return value against the union of r0's proven bounds
// ---------------------------------------------------------------------------

/// The running union over r0 scalar states: (seen any, last instruction, umin,
/// umax, low end of the 32-bit view, high end of the 32-bit view).
pub type R0Acc = (bool, u32, u64, u64, u64, u64);

pub open spec fn r0_init() -> R0Acc {
    (false, 0, u64::MAX, 0, u64::MAX, 0)
}

/// One register folded into the union. An omitted 32-bit bound is at its
/// extreme, so a path without a printed 32-bit view widens the union to the full
/// 32-bit range.
pub open spec fn r0_step(a: R0Acc, insn: u32, reg: RegState) -> R0Acc {
    if reg.reg != 0 || reg.reg_type@ != "scalar"@ {
        a
    } else {
        let last = if insn > a.1 {
            insn
        } else {
            a.1
        };
        let umin = if reg.umin < a.2 {
            reg.umin
        } else {
            a.2
        };
        let umax = if reg.umax > a.3 {
            reg.umax
        } else {
            a.3
        };
        match (reg.u32_min, reg.u32_max) {
            (Some(lo), Some(hi)) => (
                true,
                last,
                umin,
                umax,
                if lo < a.4 {
                    lo
                } else {
                    a.4
                },
                if hi > a.5 {
                    hi
                } else {
                    a.5
                },
            ),
            _ => (true, last, umin, umax, 0, u32::MAX as u64),
        }
    }
}

pub open spec fn r0_regs(a: R0Acc, insn: u32, regs: Seq<RegState>) -> R0Acc
    decreases regs.len(),
{
    if regs.len() == 0 {
        a
    } else {
        r0_step(r0_regs(a, insn, regs.drop_last()), insn, regs.last())
    }
}

/// The union over every printed r0 scalar state, in log order.
pub open spec fn r0_union(snaps: Seq<RegSnapshot>) -> R0Acc
    decreases snaps.len(),
{
    if snaps.len() == 0 {
        r0_init()
    } else {
        r0_regs(r0_union(snaps.drop_last()), snaps.last().insn_idx, snaps.last().regs@)
    }
}

/// A return-value sample (not an errored run, not a store sample).
pub open spec fn retval_judged(s: RuntimeSample) -> bool {
    !s.error && s.store_off is None
}

pub open spec fn retval_count(s: RuntimeSample) -> nat {
    if retval_judged(s) {
        1
    } else {
        0
    }
}

/// The 64-bit leg applies only when the union fits in 32 bits; the 32-bit leg
/// always applies once r0 was seen.
pub open spec fn retval_violates(a: R0Acc, s: RuntimeSample) -> bool {
    let rv = s.retval & 0xffff_ffff;
    let viol64 = a.0 && a.3 <= u32::MAX as u64 && (rv < a.2 || rv > a.3);
    let viol32 = a.0 && (rv < a.4 || rv > a.5);
    viol64 || viol32
}

/// The bound a violating return value is reported against: the 32-bit view when
/// that leg fired, else the 64-bit range.
pub open spec fn retval_bound(a: R0Acc, s: RuntimeSample) -> (u64, u64) {
    let rv = s.retval & 0xffff_ffff;
    if a.0 && (rv < a.4 || rv > a.5) {
        (a.4, a.5)
    } else {
        (a.2, a.3)
    }
}

pub open spec fn retval_keys(idx: u64, a: R0Acc, s: RuntimeSample) -> Seq<FindingKey> {
    let rv = s.retval & 0xffff_ffff;
    let (elo, ehi) = retval_bound(a, s);
    if retval_judged(s) && retval_violates(a, s) {
        seq![
            lkey(
                idx,
                "runtime_bound_violation",
                "runtime",
                "retval in ["@ + dec_str(elo as nat) + ","@ + dec_str(ehi as nat)
                    + "] (verifier's proven r0 bound)"@,
                "input=0x"@ + hex_str(s.input as nat) + " retval="@ + dec_str(rv as nat)
                    + " (0x"@ + hex_str(rv as nat) + ")"@,
                "r0 up to insn "@ + dec_str(a.1 as nat)
                    + ": runtime return value escaped the verifier's proven bound"@,
            ),
        ]
    } else {
        seq![]
    }
}

/// Whether the runtime ground-truth check applies to a record: a single-path
/// program with samples, whose log printed an r0 scalar state.
pub open spec fn retval_applies(core: CoreMetrics) -> bool {
    core.multi_path != Some(true) && core.runtime_samples@.len() > 0 && r0_union(
        core.register_evolution@,
    ).0
}

pub open spec fn record_retval_keys(idx: u64, core: CoreMetrics) -> Seq<FindingKey> {
    if retval_applies(core) {
        let a = r0_union(core.register_evolution@);
        flat_keys(core.runtime_samples@, |s: RuntimeSample| retval_keys(idx, a, s))
    } else {
        seq![]
    }
}

pub open spec fn record_retval_count(core: CoreMetrics) -> nat {
    if retval_applies(core) {
        sum_count(core.runtime_samples@, |s: RuntimeSample| retval_count(s))
    } else {
        0
    }
}

fn r0_fold_regs(
    a: (bool, u32, u64, u64, u64, u64),
    insn: u32,
    regs: &Vec<RegState>,
) -> (r: (bool, u32, u64, u64, u64, u64))
    ensures
        r == r0_regs(a, insn, regs@),
{
    let (mut any, mut last, mut umin, mut umax, mut lo32, mut hi32) = a;
    let mut j: usize = 0;
    while j < regs.len()
        invariant
            j <= regs@.len(),
            (any, last, umin, umax, lo32, hi32) == r0_regs(a, insn, regs@.take(j as int)),
        decreases regs@.len() - j,
    {
        proof {
            lemma_take_step(regs@, j as int);
        }
        let reg = &regs[j];
        if reg.reg == 0 && string_eq_lit(&reg.reg_type, "scalar") {
            any = true;
            if insn > last {
                last = insn;
            }
            if reg.umin < umin {
                umin = reg.umin;
            }
            if reg.umax > umax {
                umax = reg.umax;
            }
            match (reg.u32_min, reg.u32_max) {
                (Some(x), Some(y)) => {
                    if x < lo32 {
                        lo32 = x;
                    }
                    if y > hi32 {
                        hi32 = y;
                    }
                },
                _ => {
                    lo32 = 0;
                    hi32 = u32::MAX as u64;
                },
            }
        }
        j = j + 1;
    }
    proof {
        lemma_take_all(regs@);
    }
    (any, last, umin, umax, lo32, hi32)
}

fn r0_fold(snaps: &Vec<RegSnapshot>) -> (r: (bool, u32, u64, u64, u64, u64))
    ensures
        r == r0_union(snaps@),
{
    let mut acc: (bool, u32, u64, u64, u64, u64) = (false, 0, u64::MAX, 0, u64::MAX, 0);
    let mut i: usize = 0;
    while i < snaps.len()
        invariant
            i <= snaps@.len(),
            acc == r0_union(snaps@.take(i as int)),
        decreases snaps@.len() - i,
    {
        proof {
            lemma_take_step(snaps@, i as int);
        }
        acc = r0_fold_regs(acc, snaps[i].insn_idx, &snaps[i].regs);
        i = i + 1;
    }
    proof {
        lemma_take_all(snaps@);
    }
    acc
}

/// Runtime ground truth: each sample's actual return value against the union of
/// the verifier's proven bounds on r0.
pub(crate) fn check_runtime_ground_truth(
    idx: u64,
    core: &CoreMetrics,
    out: &mut Vec<DivergenceFinding>,
    checked: &mut u64,
)
    requires
        *old(checked) + core.runtime_samples@.len() <= u64::MAX,
    ensures
        fkeys(final(out)@) == fkeys(old(out)@) + record_retval_keys(idx, *core),
        *final(checked) == *old(checked) + record_retval_count(*core),
{
    let ghost out0 = fkeys(out@);
    let multi = match core.multi_path {
        Some(m) => m,
        None => false,
    };
    if multi || core.runtime_samples.len() == 0 {
        proof {
            assert(fkeys(out@) =~= out0 + record_retval_keys(idx, *core));
        }
        return;
    }
    let a = r0_fold(&core.register_evolution);
    let (any, last_insn, umin, umax, u32lo, u32hi) = a;
    let check64 = any && umax <= u32::MAX as u64;
    let have32 = any;
    if !check64 && !have32 {
        proof {
            assert(fkeys(out@) =~= out0 + record_retval_keys(idx, *core));
        }
        return;
    }
    let ghost c0 = *checked;
    let ghost ss = core.runtime_samples@;
    let mut i: usize = 0;
    while i < core.runtime_samples.len()
        invariant
            i <= ss.len(),
            ss == core.runtime_samples@,
            a == r0_union(core.register_evolution@),
            a == (any, last_insn, umin, umax, u32lo, u32hi),
            check64 == (any && umax <= u32::MAX as u64),
            have32 == any,
            fkeys(out@) == out0 + flat_keys(ss.take(i as int), |s: RuntimeSample| retval_keys(idx, a, s)),
            *checked == c0 + sum_count(ss.take(i as int), |s: RuntimeSample| retval_count(s)),
            c0 + ss.len() <= u64::MAX,
        decreases ss.len() - i,
    {
        let smp = &core.runtime_samples[i];
        proof {
            lemma_flat_take(ss, |s: RuntimeSample| retval_keys(idx, a, s), i as int);
            lemma_sum_take(ss, |s: RuntimeSample| retval_count(s), i as int);
            lemma_sum_bound(ss.take(i as int), |s: RuntimeSample| retval_count(s), 1);
        }
        let ghost kb = fkeys(out@);
        if !smp.error && smp.store_off.is_none() {
            *checked = *checked + 1;
            let rv = smp.retval & 0xffff_ffff;
            let viol64 = check64 && (rv < umin || rv > umax);
            let viol32 = have32 && (rv < u32lo || rv > u32hi);
            if viol64 || viol32 {
                let (elo, ehi) = if viol32 {
                    (u32lo, u32hi)
                } else {
                    (umin, umax)
                };
                let mut e = string_from("retval in [");
                push_dec(&mut e, elo);
                push_str(&mut e, ",");
                push_dec(&mut e, ehi);
                push_str(&mut e, "] (verifier's proven r0 bound)");
                let mut o = string_from("input=0x");
                push_hex(&mut o, smp.input);
                push_str(&mut o, " retval=");
                push_dec(&mut o, rv);
                push_str(&mut o, " (0x");
                push_hex(&mut o, rv);
                push_str(&mut o, ")");
                let mut d = string_from("r0 up to insn ");
                push_dec(&mut d, last_insn as u64);
                push_str(&mut d, ": runtime return value escaped the verifier's proven bound");
                let f = finding(
                    Some(idx),
                    GroundTruthSource::LogicalInvariant,
                    "runtime_bound_violation",
                    "runtime",
                    e,
                    o,
                    d,
                );
                emit(out, f);
            }
        }
        proof {
            assert(fkeys(out@) =~= kb + retval_keys(idx, a, ss[i as int]));
        }
        i = i + 1;
    }
    proof {
        lemma_take_all(ss);
    }
}

// ---------------------------------------------------------------------------
// Store location against the proven pointer state
// ---------------------------------------------------------------------------

/// The first register in a snapshot with the given number.
pub open spec fn first_reg(regs: Seq<RegState>, r: u8) -> Option<RegState>
    decreases regs.len(),
{
    if regs.len() == 0 {
        None
    } else {
        match first_reg(regs.drop_last(), r) {
            Some(x) => Some(x),
            None => if regs.last().reg == r {
                Some(regs.last())
            } else {
                None
            },
        }
    }
}

/// A pointer claim that states a window: not a scalar, not unknown bits without an
/// upper bound, and a non-inverted interval.
pub open spec fn usable_claim(p: RegState) -> bool {
    &&& p.reg_type@ != "scalar"@
    &&& !(p.tnum.mask != 0 && p.umax == u64::MAX)
    &&& p.umin <= p.umax
}

/// The claim one snapshot makes about the store's base register.
pub open spec fn snap_claims(site: StoreSite, snap: RegSnapshot) -> Seq<RegState> {
    if snap.insn_idx == site.insn_idx {
        match first_reg(snap.regs@, site.base_reg) {
            Some(p) => if usable_claim(p) {
                seq![p]
            } else {
                seq![]
            },
            None => seq![],
        }
    } else {
        seq![]
    }
}

/// Every usable claim at the store instruction, in log order (one per path).
pub open spec fn claims(site: StoreSite, snaps: Seq<RegSnapshot>) -> Seq<RegState>
    decreases snaps.len(),
{
    if snaps.len() == 0 {
        seq![]
    } else {
        claims(site, snaps.drop_last()) + snap_claims(site, snaps.last())
    }
}

/// The base a claim's variable part is measured from.
pub open spec fn claim_base(p: RegState, insn_off: i64) -> int {
    (match p.ptr_off {
        Some(o) => o,
        None => 0,
    }) + insn_off
}

/// Whether a claim admits a store landing at absolute offset `off`: the variable
/// part `off - base` is non-negative, fits the tnum, and lies in `[umin, umax]`
/// (an unstated upper bound constrains nothing).
pub open spec fn admits(p: RegState, insn_off: i64, off: i64) -> bool {
    let v = off - claim_base(p, insn_off);
    if v < 0 || v > i64::MAX {
        false
    } else {
        let vv = v as u64;
        &&& (vv & !p.tnum.mask) == p.tnum.value
        &&& vv >= p.umin
        &&& (p.umax == u64::MAX || vv <= p.umax)
    }
}

/// A store sample whose sentinel was found inside the object.
pub open spec fn store_judged(s: RuntimeSample) -> bool {
    s.store_off is Some && !s.error && s.store_off->0 >= 0
}

pub open spec fn store_sample_count(s: RuntimeSample) -> nat {
    if store_judged(s) {
        1
    } else {
        0
    }
}

/// Saturating `i64` addition.
pub open spec fn sat_i64(a: int, b: int) -> int {
    if a + b > i64::MAX {
        i64::MAX as int
    } else if a + b < i64::MIN {
        i64::MIN as int
    } else {
        a + b
    }
}

/// Where the first claim's window starts and ends: its base plus `umin` and plus
/// `umax` (each read as `i64`), saturating.
pub open spec fn claim_window(p: RegState, insn_off: i64) -> (int, int) {
    let base = claim_base(p, insn_off);
    (sat_i64(base, (p.umin as i64) as int), sat_i64(base, (p.umax as i64) as int))
}

/// Why a store at `off` escapes the first claim: below its base, outside its
/// window, or inside the window but off the tnum.
pub open spec fn store_escape_text(p: RegState, insn_off: i64, off: i64) -> Seq<char> {
    let (lo, hi) = claim_window(p, insn_off);
    let in_window = off >= lo && (p.umax == u64::MAX || off <= hi);
    if !in_window {
        if p.umax == u64::MAX {
            "below the proven base "@ + sdec_str(lo)
        } else {
            "outside the proven window ["@ + sdec_str(lo) + ", "@ + sdec_str(hi) + "]"@
        }
    } else {
        "inside ["@ + sdec_str(lo) + ", "@ + sdec_str(hi) + "] but impossible under var_off=(0x"@
            + hex_str(p.tnum.value as nat) + "; 0x"@ + hex_str(p.tnum.mask as nat) + ")"@
    }
}

/// The observed text of a store-location finding.
pub open spec fn store_observed_text(
    insn_off: i64,
    cl: Seq<RegState>,
    s: RuntimeSample,
) -> Seq<char> {
    let off = s.store_off->0;
    "input=0x"@ + hex_str(s.input as nat) + ": the store landed at "@ + sdec_str(off as int)
        + " \u{2014} "@ + store_escape_text(cl[0], insn_off, off) + if cl.len() > 1 {
        " (and outside all "@ + dec_str(cl.len()) + " claims at this insn)"@
    } else {
        seq![]
    }
}

/// The expected text of a store-location finding: the first claim's window.
pub open spec fn store_expected_text(site: StoreSite, p: RegState) -> Seq<char> {
    "a store through R"@ + dec_str(site.base_reg as nat) + " at insn "@ + dec_str(
        site.insn_idx as nat,
    ) + " lands in "@ + sdec_str(claim_base(p, site.insn_off)) + " + ["@ + dec_str(p.umin as nat)
        + ", "@ + dec_str(p.umax as nat) + "] with var_off=(0x"@ + hex_str(p.tnum.value as nat)
        + "; 0x"@ + hex_str(p.tnum.mask as nat) + ")"@
}

pub open spec fn store_sample_keys(
    idx: u64,
    site: StoreSite,
    cl: Seq<RegState>,
    s: RuntimeSample,
) -> Seq<FindingKey> {
    if store_judged(s) && !(exists|j: int|
        0 <= j < cl.len() && #[trigger] admits(cl[j], site.insn_off, s.store_off->0)) {
        seq![
            lkey(
                idx,
                "store_location_desync",
                "runtime",
                store_expected_text(site, cl[0]),
                store_observed_text(site.insn_off, cl, s),
                "the verifier accepted a store that landed where its own proven pointer state says it could not"@,
            ),
        ]
    } else {
        seq![]
    }
}

pub open spec fn record_store_keys(idx: u64, core: CoreMetrics) -> Seq<FindingKey> {
    match core.store_site {
        None => seq![],
        Some(site) => {
            let cl = claims(site, core.register_evolution@);
            if cl.len() == 0 {
                seq![]
            } else {
                flat_keys(
                    core.runtime_samples@,
                    |s: RuntimeSample| store_sample_keys(idx, site, cl, s),
                )
            }
        },
    }
}

pub open spec fn record_store_count(core: CoreMetrics) -> nat {
    match core.store_site {
        None => 0,
        Some(site) => if claims(site, core.register_evolution@).len() == 0 {
            0
        } else {
            sum_count(core.runtime_samples@, |s: RuntimeSample| store_sample_count(s))
        },
    }
}

/// The store-site arithmetic stays inside `i64`: every claim's base plus the
/// instruction offset is representable.
pub open spec fn store_site_sane(core: CoreMetrics) -> bool {
    match core.store_site {
        None => true,
        Some(site) => {
            let cl = claims(site, core.register_evolution@);
            forall|j: int|
                0 <= j < cl.len() ==> i64::MIN <= #[trigger] claim_base(cl[j], site.insn_off)
                    <= i64::MAX
        },
    }
}

fn copy_reg(r: &RegState) -> (c: RegState)
    ensures
        c == *r,
{
    RegState {
        reg: r.reg,
        reg_type: r.reg_type.clone(),
        tnum: Tnum { value: r.tnum.value, mask: r.tnum.mask },
        umin: r.umin,
        umax: r.umax,
        smin: r.smin,
        smax: r.smax,
        u32_min: r.u32_min,
        u32_max: r.u32_max,
        s32_min: r.s32_min,
        s32_max: r.s32_max,
        ptr_off: r.ptr_off,
        bounds_from_log: r.bounds_from_log,
    }
}

fn find_reg(regs: &Vec<RegState>, r: u8) -> (j: Option<usize>)
    ensures
        match j {
            Some(k) => k < regs@.len() && first_reg(regs@, r) == Some(regs@[k as int]),
            None => first_reg(regs@, r) is None,
        },
{
    let mut k: usize = 0;
    while k < regs.len()
        invariant
            k <= regs@.len(),
            first_reg(regs@.take(k as int), r) is None,
        decreases regs@.len() - k,
    {
        proof {
            lemma_take_step(regs@, k as int);
        }
        if regs[k].reg == r {
            proof {
                lemma_first_reg_prefix(regs@, k + 1);
            }
            return Some(k);
        }
        k = k + 1;
    }
    proof {
        lemma_take_all(regs@);
    }
    None
}

/// A match found in a prefix is the match of the whole sequence.
proof fn lemma_first_reg_prefix(regs: Seq<RegState>, i: int)
    requires
        0 <= i <= regs.len(),
        first_reg(regs.take(i), regs[i - 1].reg) is Some || i == 0,
    ensures
        i > 0 ==> first_reg(regs, regs[i - 1].reg) == first_reg(regs.take(i), regs[i - 1].reg),
    decreases regs.len(),
{
    if i > 0 && i < regs.len() {
        lemma_first_reg_prefix(regs.drop_last(), i);
        assert(regs.drop_last().take(i) =~= regs.take(i));
    } else if i > 0 {
        assert(regs.take(i) =~= regs);
    }
}

/// The usable claims at the store instruction, copied out in log order.
fn collect_claims(site: &StoreSite, snaps: &Vec<RegSnapshot>) -> (cl: Vec<RegState>)
    ensures
        cl@ == claims(*site, snaps@),
{
    let mut cl: Vec<RegState> = Vec::new();
    let mut i: usize = 0;
    while i < snaps.len()
        invariant
            i <= snaps@.len(),
            cl@ == claims(*site, snaps@.take(i as int)),
        decreases snaps@.len() - i,
    {
        proof {
            lemma_take_step(snaps@, i as int);
        }
        let snap = &snaps[i];
        if snap.insn_idx == site.insn_idx {
            match find_reg(&snap.regs, site.base_reg) {
                Some(k) => {
                    let p = &snap.regs[k];
                    if !string_eq_lit(&p.reg_type, "scalar") && !(p.tnum.mask != 0 && p.umax
                        == u64::MAX) && p.umin <= p.umax {
                        cl.push(copy_reg(p));
                    }
                },
                None => {},
            }
        }
        proof {
            assert(cl@ =~= claims(*site, snaps@.take(i as int)) + snap_claims(*site, snaps@[i as int]));
        }
        i = i + 1;
    }
    proof {
        lemma_take_all(snaps@);
    }
    cl
}

fn ptr_base(p: &RegState, insn_off: i64) -> (b: i64)
    requires
        i64::MIN <= claim_base(*p, insn_off) <= i64::MAX,
    ensures
        b == claim_base(*p, insn_off),
{
    (match p.ptr_off {
        Some(o) => o,
        None => 0,
    }) + insn_off
}

/// Does one printed pointer claim admit a store landing at absolute offset `off`?
fn admits_exec(p: &RegState, insn_off: i64, off: i64) -> (b: bool)
    requires
        i64::MIN <= claim_base(*p, insn_off) <= i64::MAX,
    ensures
        b == admits(*p, insn_off, off),
{
    let base = ptr_base(p, insn_off);
    let v: u64 = match off.checked_sub(base) {
        Some(v) => {
            if v >= 0 {
                v as u64
            } else {
                return false;
            }
        },
        None => return false,
    };
    let fits_tnum = (v & !p.tnum.mask) == p.tnum.value;
    let in_interval = v >= p.umin && (p.umax == u64::MAX || v <= p.umax);
    fits_tnum && in_interval
}

/// Saturating `i64` addition.
fn sat_add(a: i64, b: i64) -> (r: i64)
    ensures
        r == sat_i64(a as int, b as int),
{
    match a.checked_add(b) {
        Some(v) => v,
        None => if b > 0 {
            i64::MAX
        } else {
            i64::MIN
        },
    }
}

fn any_admits(cl: &Vec<RegState>, insn_off: i64, off: i64) -> (b: bool)
    requires
        forall|j: int|
            0 <= j < cl@.len() ==> i64::MIN <= #[trigger] claim_base(cl@[j], insn_off)
                <= i64::MAX,
    ensures
        b == (exists|j: int| 0 <= j < cl@.len() && #[trigger] admits(cl@[j], insn_off, off)),
{
    let mut j: usize = 0;
    while j < cl.len()
        invariant
            j <= cl@.len(),
            forall|k: int| 0 <= k < j ==> !#[trigger] admits(cl@[k], insn_off, off),
            forall|k: int|
                0 <= k < cl@.len() ==> i64::MIN <= #[trigger] claim_base(cl@[k], insn_off)
                    <= i64::MAX,
        decreases cl@.len() - j,
    {
        if admits_exec(&cl[j], insn_off, off) {
            return true;
        }
        j = j + 1;
    }
    false
}

/// Store-location desync: a store landed where the verifier's own proven pointer
/// state (interval and tnum) at the store instruction says it could not.
pub(crate) fn check_store_location(
    idx: u64,
    core: &CoreMetrics,
    out: &mut Vec<DivergenceFinding>,
    checked: &mut u64,
)
    requires
        *old(checked) + core.runtime_samples@.len() <= u64::MAX,
        store_site_sane(*core),
    ensures
        fkeys(final(out)@) == fkeys(old(out)@) + record_store_keys(idx, *core),
        *final(checked) == *old(checked) + record_store_count(*core),
{
    let ghost out0 = fkeys(out@);
    let site = match &core.store_site {
        Some(s) => s,
        None => {
            proof {
                assert(fkeys(out@) =~= out0 + record_store_keys(idx, *core));
            }
            return;
        },
    };
    let cl = collect_claims(site, &core.register_evolution);
    if cl.len() == 0 {
        proof {
            assert(fkeys(out@) =~= out0 + record_store_keys(idx, *core));
        }
        return;
    }
    let ptr = &cl[0];
    let base = ptr_base(ptr, site.insn_off);
    let lo = sat_add(base, ptr.umin as i64);
    let hi = sat_add(base, ptr.umax as i64);
    let ghost c0 = *checked;
    let ghost ss = core.runtime_samples@;
    let ghost cls = cl@;
    let insn_off = site.insn_off;
    let mut i: usize = 0;
    while i < core.runtime_samples.len()
        invariant
            i <= ss.len(),
            ss == core.runtime_samples@,
            cls == cl@,
            cls == claims(*site, core.register_evolution@),
            cls.len() > 0,
            *ptr == cls[0],
            base == claim_base(cls[0], insn_off),
            (lo as int, hi as int) == claim_window(cls[0], insn_off),
            insn_off == site.insn_off,
            forall|j: int|
                0 <= j < cls.len() ==> i64::MIN <= #[trigger] claim_base(cls[j], insn_off)
                    <= i64::MAX,
            fkeys(out@) == out0 + flat_keys(
                ss.take(i as int),
                |s: RuntimeSample| store_sample_keys(idx, *site, cls, s),
            ),
            *checked == c0 + sum_count(ss.take(i as int), |s: RuntimeSample| store_sample_count(s)),
            c0 + ss.len() <= u64::MAX,
        decreases ss.len() - i,
    {
        let smp = &core.runtime_samples[i];
        proof {
            lemma_flat_take(
                ss,
                |s: RuntimeSample| store_sample_keys(idx, *site, cls, s),
                i as int,
            );
            lemma_sum_take(ss, |s: RuntimeSample| store_sample_count(s), i as int);
            lemma_sum_bound(ss.take(i as int), |s: RuntimeSample| store_sample_count(s), 1);
        }
        let ghost kb = fkeys(out@);
        match smp.store_off {
            Some(off) => {
                if !smp.error && off >= 0 {
                    *checked = *checked + 1;
                    if !any_admits(&cl, insn_off, off) {
                        let in_window = off >= lo && (ptr.umax == u64::MAX || off <= hi);
                        let mut m = String::new();
                        if !in_window {
                            if ptr.umax == u64::MAX {
                                push_str(&mut m, "below the proven base ");
                                push_sdec(&mut m, lo);
                            } else {
                                push_str(&mut m, "outside the proven window [");
                                push_sdec(&mut m, lo);
                                push_str(&mut m, ", ");
                                push_sdec(&mut m, hi);
                                push_str(&mut m, "]");
                            }
                        } else {
                            push_str(&mut m, "inside [");
                            push_sdec(&mut m, lo);
                            push_str(&mut m, ", ");
                            push_sdec(&mut m, hi);
                            push_str(&mut m, "] but impossible under var_off=(0x");
                            push_hex(&mut m, ptr.tnum.value);
                            push_str(&mut m, "; 0x");
                            push_hex(&mut m, ptr.tnum.mask);
                            push_str(&mut m, ")");
                        }
                        proof {
                            assert(Seq::<char>::empty() + "below the proven base "@
                                =~= "below the proven base "@);
                            assert(Seq::<char>::empty() + "outside the proven window ["@
                                =~= "outside the proven window ["@);
                            assert(Seq::<char>::empty() + "inside ["@ =~= "inside ["@);
                            assert(m@ == store_escape_text(cls[0], insn_off, off));
                        }
                        let mut suf = String::new();
                        if cl.len() > 1 {
                            push_str(&mut suf, " (and outside all ");
                            push_dec(&mut suf, cl.len() as u64);
                            push_str(&mut suf, " claims at this insn)");
                            proof {
                                assert(Seq::<char>::empty() + " (and outside all "@
                                    =~= " (and outside all "@);
                            }
                        }
                        let mut o = string_from("input=0x");
                        push_hex(&mut o, smp.input);
                        push_str(&mut o, ": the store landed at ");
                        push_sdec(&mut o, off);
                        push_str(&mut o, " \u{2014} ");
                        push_string(&mut o, &m);
                        push_string(&mut o, &suf);
                        proof {
                            assert(o@ == store_observed_text(insn_off, cls, *smp));
                        }
                        let mut e = string_from("a store through R");
                        push_dec(&mut e, site.base_reg as u64);
                        push_str(&mut e, " at insn ");
                        push_dec(&mut e, site.insn_idx as u64);
                        push_str(&mut e, " lands in ");
                        push_sdec(&mut e, base);
                        push_str(&mut e, " + [");
                        push_dec(&mut e, ptr.umin);
                        push_str(&mut e, ", ");
                        push_dec(&mut e, ptr.umax);
                        push_str(&mut e, "] with var_off=(0x");
                        push_hex(&mut e, ptr.tnum.value);
                        push_str(&mut e, "; 0x");
                        push_hex(&mut e, ptr.tnum.mask);
                        push_str(&mut e, ")");
                        let f = finding(
                            Some(idx),
                            GroundTruthSource::LogicalInvariant,
                            "store_location_desync",
                            "runtime",
                            e,
                            o,
                            string_from(
                                "the verifier accepted a store that landed where its own proven pointer state says it could not",
                            ),
                        );
                        emit(out, f);
                    }
                }
            },
            None => {},
        }
        proof {
            assert(fkeys(out@) =~= kb + store_sample_keys(idx, *site, cls, ss[i as int]));
        }
        i = i + 1;
    }
    proof {
        lemma_take_all(ss);
    }
}

/// Whether every pointer claim at the record's declared store site has a base
/// (its constant offset plus the store instruction's offset) that an `i64`
/// holds: the condition under which the store-location check can compute.
pub fn store_site_checkable(core: &CoreMetrics) -> (b: bool)
    ensures
        b == store_site_sane(*core),
{
    let site = match &core.store_site {
        Some(s) => s,
        None => {
            return true;
        },
    };
    let cl = collect_claims(site, &core.register_evolution);
    let mut j: usize = 0;
    while j < cl.len()
        invariant
            j <= cl@.len(),
            cl@ == claims(*site, core.register_evolution@),
            core.store_site == Some(*site),
            forall|t: int|
                0 <= t < j ==> i64::MIN <= #[trigger] claim_base(cl@[t], site.insn_off) <= i64::MAX,
        decreases cl.len() - j,
    {
        let o: i128 = match cl[j].ptr_off {
            Some(o) => o as i128,
            None => 0,
        };
        let b: i128 = o + site.insn_off as i128;
        if b < i64::MIN as i128 || b > i64::MAX as i128 {
            proof {
                let cls = claims(*site, core.register_evolution@);
                assert(claim_base(cls[j as int], site.insn_off) == b);
                assert(!(i64::MIN <= claim_base(cls[j as int], site.insn_off) <= i64::MAX));
                let s2 = core.store_site->0;
                assert(s2 == *site);
                assert(0 <= j < cls.len());
                assert(!store_site_sane(*core)) by {
                    let cl2 = claims(s2, core.register_evolution@);
                    assert(cl2 == cls);
                    assert(!(i64::MIN <= claim_base(cl2[j as int], s2.insn_off) <= i64::MAX));
                }
            }
            return false;
        }
        j = j + 1;
    }
    true
}

} // verus!
