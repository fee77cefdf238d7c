//! The pruning probe (`PRUNE` line) and the liveness gate (`LIVENESS` claim plus
//! the kernel's `Live regs before insn:` table).
use vstd::prelude::*;
use crate::text::{
    words, trim, is_dec, chars_of, slice_chars, starts_with_lit, eq_lit, trim_chars, contains,
    find_chars_from, string_of_all, string_from, push_chars, push_str, find_char_from, find_char,
};
use crate::num::{parse_u64, parse_i64, parse_u32, parse_usize, parse_u64_chars, parse_i64_chars,
    parse_u32_chars, parse_usize_chars};
use crate::metrics::{PruneProbe, LivenessGate};
use crate::verifier_log::fields::{strip_prefix, lemma_find_char_bounds};
use crate::verifier_log::probes::{
    tok_after, first_tok_exec, line_words, words_view, strip_lit, first_tok,
};

verus! {

// ---------------------------------------------------------------------------
// Pruning probe
// ---------------------------------------------------------------------------

/// What a `PRUNE` line has declared so far.
pub struct ProbeAcc {
    pub fall: Option<Seq<char>>,
    pub taken: Option<Seq<char>>,
    pub fall_safe: Option<bool>,
    pub taken_safe: Option<bool>,
    pub stack: bool,
    pub base_accept: Option<bool>,
    pub base_errno: i64,
    pub base_states: u64,
    pub base_reason: Seq<char>,
    pub freq_accept: Option<bool>,
    pub freq_errno: i64,
    pub freq_states: u64,
    pub freq_reason: Seq<char>,
    pub inv_accept: Option<bool>,
    pub inv_errno: i64,
    pub inv_reason: Seq<char>,
}

/// `accept` / `reject`.
pub open spec fn verdict(v: Seq<char>) -> Option<bool> {
    if v == "accept"@ {
        Some(true)
    } else if v == "reject"@ {
        Some(false)
    } else {
        None
    }
}

pub open spec fn flag_of(v: Seq<char>) -> Option<bool> {
    match parse_i64(v, 10) {
        Some(n) => Some(n != 0),
        None => None,
    }
}

pub open spec fn i64_or0(v: Seq<char>) -> i64 {
    match parse_i64(v, 10) {
        Some(n) => n,
        None => 0,
    }
}

pub open spec fn u64_or0(v: Seq<char>) -> u64 {
    match parse_u64(v, 10) {
        Some(n) => n,
        None => 0,
    }
}

/// One token of a `PRUNE` line applied; a later token overrides an earlier one.
pub open spec fn probe_tok(a: ProbeAcc, t: Seq<char>) -> ProbeAcc {
    if strip_prefix(t, "fall="@) is Some {
        ProbeAcc { fall: Some(t.skip(5)), ..a }
    } else if strip_prefix(t, "taken="@) is Some {
        ProbeAcc { taken: Some(t.skip(6)), ..a }
    } else if strip_prefix(t, "fall_safe="@) is Some {
        ProbeAcc { fall_safe: flag_of(t.skip(10)), ..a }
    } else if strip_prefix(t, "taken_safe="@) is Some {
        ProbeAcc { taken_safe: flag_of(t.skip(11)), ..a }
    } else if strip_prefix(t, "stack="@) is Some {
        ProbeAcc { stack: flag_of(t.skip(6)) == Some(true), ..a }
    } else if strip_prefix(t, "base_verdict="@) is Some {
        ProbeAcc { base_accept: verdict(t.skip(13)), ..a }
    } else if strip_prefix(t, "base_errno="@) is Some {
        ProbeAcc { base_errno: i64_or0(t.skip(11)), ..a }
    } else if strip_prefix(t, "base_states="@) is Some {
        ProbeAcc { base_states: u64_or0(t.skip(12)), ..a }
    } else if strip_prefix(t, "base_reason="@) is Some {
        ProbeAcc { base_reason: t.skip(12), ..a }
    } else if strip_prefix(t, "freq_verdict="@) is Some {
        ProbeAcc { freq_accept: verdict(t.skip(13)), ..a }
    } else if strip_prefix(t, "freq_errno="@) is Some {
        ProbeAcc { freq_errno: i64_or0(t.skip(11)), ..a }
    } else if strip_prefix(t, "freq_states="@) is Some {
        ProbeAcc { freq_states: u64_or0(t.skip(12)), ..a }
    } else if strip_prefix(t, "freq_reason="@) is Some {
        ProbeAcc { freq_reason: t.skip(12), ..a }
    } else if strip_prefix(t, "inv_verdict="@) is Some {
        ProbeAcc { inv_accept: verdict(t.skip(12)), ..a }
    } else if strip_prefix(t, "inv_errno="@) is Some {
        ProbeAcc { inv_errno: i64_or0(t.skip(10)), ..a }
    } else if strip_prefix(t, "inv_reason="@) is Some {
        ProbeAcc { inv_reason: t.skip(11), ..a }
    } else {
        a
    }
}

pub open spec fn probe_init() -> ProbeAcc {
    ProbeAcc {
        fall: None,
        taken: None,
        fall_safe: None,
        taken_safe: None,
        stack: false,
        base_accept: None,
        base_errno: 0,
        base_states: 0,
        base_reason: seq![],
        freq_accept: None,
        freq_errno: 0,
        freq_states: 0,
        freq_reason: seq![],
        inv_accept: None,
        inv_errno: 0,
        inv_reason: seq![],
    }
}

pub open spec fn probe_fold(ws: Seq<Seq<char>>) -> ProbeAcc
    decreases ws.len(),
{
    if ws.len() == 0 {
        probe_init()
    } else {
        probe_tok(probe_fold(ws.drop_last()), ws.last())
    }
}

/// The probe a `PRUNE` line declares: every verdict and both branch labels and
/// safety flags must be present.
pub open spec fn probe_complete(a: ProbeAcc) -> bool {
    &&& a.fall is Some
    &&& a.taken is Some
    &&& a.fall_safe is Some
    &&& a.taken_safe is Some
    &&& a.base_accept is Some
    &&& a.freq_accept is Some
    &&& a.inv_accept is Some
}

/// The probe as the spec sees it.
pub open spec fn probe_view(p: PruneProbe) -> ProbeAcc {
    ProbeAcc {
        fall: Some(p.fall@),
        taken: Some(p.taken@),
        fall_safe: Some(p.fall_safe),
        taken_safe: Some(p.taken_safe),
        stack: p.stack,
        base_accept: Some(p.base_accept),
        base_errno: p.base_errno,
        base_states: p.base_states,
        base_reason: p.base_reason@,
        freq_accept: Some(p.freq_accept),
        freq_errno: p.freq_errno,
        freq_states: p.freq_states,
        freq_reason: p.freq_reason@,
        inv_accept: Some(p.inv_accept),
        inv_errno: p.inv_errno,
        inv_reason: p.inv_reason@,
    }
}

/// The probe being read from a `PRUNE` line.
struct ProbeBuild {
    fall: Option<Vec<char>>,
    taken: Option<Vec<char>>,
    fall_safe: Option<bool>,
    taken_safe: Option<bool>,
    stack: bool,
    base_accept: Option<bool>,
    base_errno: i64,
    base_states: u64,
    base_reason: Vec<char>,
    freq_accept: Option<bool>,
    freq_errno: i64,
    freq_states: u64,
    freq_reason: Vec<char>,
    inv_accept: Option<bool>,
    inv_errno: i64,
    inv_reason: Vec<char>,
}

spec fn opt_chars_of(o: Option<Vec<char>>) -> Option<Seq<char>> {
    match o {
        Some(v) => Some(v@),
        None => None,
    }
}

spec fn build_view(b: ProbeBuild) -> ProbeAcc {
    ProbeAcc {
        fall: opt_chars_of(b.fall),
        taken: opt_chars_of(b.taken),
        fall_safe: b.fall_safe,
        taken_safe: b.taken_safe,
        stack: b.stack,
        base_accept: b.base_accept,
        base_errno: b.base_errno,
        base_states: b.base_states,
        base_reason: b.base_reason@,
        freq_accept: b.freq_accept,
        freq_errno: b.freq_errno,
        freq_states: b.freq_states,
        freq_reason: b.freq_reason@,
        inv_accept: b.inv_accept,
        inv_errno: b.inv_errno,
        inv_reason: b.inv_reason@,
    }
}

fn verdict_exec(v: &Vec<char>) -> (r: Option<bool>)
    ensures
        r == verdict(v@),
{
    if eq_lit(v, "accept") {
        Some(true)
    } else if eq_lit(v, "reject") {
        Some(false)
    } else {
        None
    }
}

fn flag_exec(v: &Vec<char>) -> (r: Option<bool>)
    ensures
        r == flag_of(v@),
{
    match parse_i64_chars(v, 10) {
        Some(n) => Some(n != 0),
        None => None,
    }
}

fn i64_or0_exec(v: &Vec<char>) -> (r: i64)
    ensures
        r == i64_or0(v@),
{
    match parse_i64_chars(v, 10) {
        Some(n) => n,
        None => 0,
    }
}

fn u64_or0_exec(v: &Vec<char>) -> (r: u64)
    ensures
        r == u64_or0(v@),
{
    match parse_u64_chars(v, 10) {
        Some(n) => n,
        None => 0,
    }
}

fn probe_tok_exec(b: &mut ProbeBuild, t: &Vec<char>)
    ensures
        build_view(*final(b)) == probe_tok(build_view(*old(b)), t@),
{
    proof {
        reveal_strlit("fall=");
        reveal_strlit("taken=");
        reveal_strlit("fall_safe=");
        reveal_strlit("taken_safe=");
        reveal_strlit("stack=");
        reveal_strlit("base_verdict=");
        reveal_strlit("base_errno=");
        reveal_strlit("base_states=");
        reveal_strlit("base_reason=");
        reveal_strlit("freq_verdict=");
        reveal_strlit("freq_errno=");
        reveal_strlit("freq_states=");
        reveal_strlit("freq_reason=");
        reveal_strlit("inv_verdict=");
        reveal_strlit("inv_errno=");
        reveal_strlit("inv_reason=");
    }
    match strip_lit(t, "fall=") {
        Some(v) => {
            b.fall = Some(v);
            return;
        },
        None => {},
    }
    match strip_lit(t, "taken=") {
        Some(v) => {
            b.taken = Some(v);
            return;
        },
        None => {},
    }
    match strip_lit(t, "fall_safe=") {
        Some(v) => {
            b.fall_safe = flag_exec(&v);
            return;
        },
        None => {},
    }
    match strip_lit(t, "taken_safe=") {
        Some(v) => {
            b.taken_safe = flag_exec(&v);
            return;
        },
        None => {},
    }
    match strip_lit(t, "stack=") {
        Some(v) => {
            b.stack = match flag_exec(&v) {
                Some(x) => x,
                None => false,
            };
            return;
        },
        None => {},
    }
    match strip_lit(t, "base_verdict=") {
        Some(v) => {
            b.base_accept = verdict_exec(&v);
            return;
        },
        None => {},
    }
    match strip_lit(t, "base_errno=") {
        Some(v) => {
            b.base_errno = i64_or0_exec(&v);
            return;
        },
        None => {},
    }
    match strip_lit(t, "base_states=") {
        Some(v) => {
            b.base_states = u64_or0_exec(&v);
            return;
        },
        None => {},
    }
    match strip_lit(t, "base_reason=") {
        Some(v) => {
            b.base_reason = v;
            return;
        },
        None => {},
    }
    match strip_lit(t, "freq_verdict=") {
        Some(v) => {
            b.freq_accept = verdict_exec(&v);
            return;
        },
        None => {},
    }
    match strip_lit(t, "freq_errno=") {
        Some(v) => {
            b.freq_errno = i64_or0_exec(&v);
            return;
        },
        None => {},
    }
    match strip_lit(t, "freq_states=") {
        Some(v) => {
            b.freq_states = u64_or0_exec(&v);
            return;
        },
        None => {},
    }
    match strip_lit(t, "freq_reason=") {
        Some(v) => {
            b.freq_reason = v;
            return;
        },
        None => {},
    }
    match strip_lit(t, "inv_verdict=") {
        Some(v) => {
            b.inv_accept = verdict_exec(&v);
            return;
        },
        None => {},
    }
    match strip_lit(t, "inv_errno=") {
        Some(v) => {
            b.inv_errno = i64_or0_exec(&v);
            return;
        },
        None => {},
    }
    match strip_lit(t, "inv_reason=") {
        Some(v) => {
            b.inv_reason = v;
            return;
        },
        None => {},
    }
}

/// Parses the `PRUNE` line: the same program's verdict under three load flag
/// settings, declared by the generator that ran them.
pub fn parse_prune_probe(line: &Vec<char>) -> (r: Option<PruneProbe>)
    ensures
        probe_complete(probe_fold(words(line@))) ==> (r matches Some(p) && probe_view(p)
            == probe_fold(words(line@))),
        !probe_complete(probe_fold(words(line@))) ==> r is None,
{
    let ws = line_words(line);
    let ghost wv = words_view(ws@);
    let mut b = ProbeBuild {
        fall: None,
        taken: None,
        fall_safe: None,
        taken_safe: None,
        stack: false,
        base_accept: None,
        base_errno: 0,
        base_states: 0,
        base_reason: Vec::new(),
        freq_accept: None,
        freq_errno: 0,
        freq_states: 0,
        freq_reason: Vec::new(),
        inv_accept: None,
        inv_errno: 0,
        inv_reason: Vec::new(),
    };
    proof {
        assert(build_view(b) =~= probe_fold(wv.take(0)));
    }
    let mut i: usize = 0;
    while i < ws.len()
        invariant
            i <= ws@.len(),
            wv == words_view(ws@),
            build_view(b) == probe_fold(wv.take(i as int)),
        decreases ws@.len() - i,
    {
        proof {
            assert(wv.take(i + 1).drop_last() =~= wv.take(i as int));
            assert(wv.take(i + 1).last() == ws@[i as int]@);
        }
        probe_tok_exec(&mut b, &ws[i]);
        i = i + 1;
    }
    proof {
        assert(wv.take(wv.len() as int) =~= wv);
    }
    let fall = match b.fall {
        Some(v) => v,
        None => return None,
    };
    let taken = match b.taken {
        Some(v) => v,
        None => return None,
    };
    let fall_safe = match b.fall_safe {
        Some(v) => v,
        None => return None,
    };
    let taken_safe = match b.taken_safe {
        Some(v) => v,
        None => return None,
    };
    let base_accept = match b.base_accept {
        Some(v) => v,
        None => return None,
    };
    let freq_accept = match b.freq_accept {
        Some(v) => v,
        None => return None,
    };
    let inv_accept = match b.inv_accept {
        Some(v) => v,
        None => return None,
    };
    let p = PruneProbe {
        fall: string_of_all(&fall),
        taken: string_of_all(&taken),
        fall_safe,
        taken_safe,
        stack: b.stack,
        base_accept,
        base_errno: b.base_errno,
        base_states: b.base_states,
        base_reason: string_of_all(&b.base_reason),
        freq_accept,
        freq_errno: b.freq_errno,
        freq_states: b.freq_states,
        freq_reason: string_of_all(&b.freq_reason),
        inv_accept,
        inv_errno: b.inv_errno,
        inv_reason: string_of_all(&b.inv_reason),
    };
    proof {
        assert(probe_view(p) =~= probe_fold(words(line@)));
    }
    Some(p)
}

// ---------------------------------------------------------------------------
// Liveness gate
// ---------------------------------------------------------------------------

/// The live-register mask of the first `n` columns: a column is live unless `.`.
pub open spec fn col_mask(cols: Seq<char>, n: nat) -> u16
    decreases n,
{
    if n == 0 {
        0
    } else {
        col_mask(cols, (n - 1) as nat) | (if cols[n - 1] != '.' {
            (1u16 << ((n - 1) as u16))
        } else {
            0u16
        })
    }
}

/// One row of the kernel's `Live regs before insn:` table: an indented
/// `<idx>: <10 columns>` line.
pub open spec fn row_spec(line: Seq<char>) -> Option<(u32, u16)> {
    if !" "@.is_prefix_of(line) {
        None
    } else {
        match find_char_from(line, ':', 0) {
            None => None,
            Some(c) => {
                let ws = words(line.take(c));
                let rest = line.skip(c + 1);
                if ws.len() == 0 {
                    None
                } else {
                    match parse_u32(ws.last()) {
                        None => None,
                        Some(idx) => if rest.len() < 11 || rest[0] != ' ' {
                            None
                        } else {
                            let cols = rest.subrange(1, 11);
                            if forall|j: int| 0 <= j < 10 ==> #[trigger] cols[j] == '.' || is_dec(cols[j]) {
                                Some((idx, col_mask(cols, 10)))
                            } else {
                                None
                            }
                        },
                    }
                }
            },
        }
    }
}

/// Parses one row of the kernel's liveness table.
pub fn parse_liveness_row(line: &Vec<char>) -> (r: Option<(u32, u16)>)
    ensures
        r == row_spec(line@),
{
    proof {
        reveal_strlit(" ");
    }
    if !starts_with_lit(line, " ") {
        return None;
    }
    proof {
        lemma_find_char_bounds(line@, ':', 0);
    }
    let c = match find_char(line, ':', 0) {
        Some(c) => c,
        None => return None,
    };
    assert(line@.len() == line.len());
    let head = slice_chars(line, 0, c);
    let rest = slice_chars(line, c + 1, line.len());
    proof {
        assert(head@ =~= line@.take(c as int));
        assert(rest@ =~= line@.skip(c + 1));
    }
    let ws = line_words(&head);
    if ws.len() == 0 {
        return None;
    }
    proof {
        assert(words(head@).last() == ws@[ws@.len() - 1]@);
    }
    let idx = match parse_u32_chars(&ws[ws.len() - 1]) {
        Some(n) => n,
        None => return None,
    };
    if rest.len() < 11 || rest[0] != ' ' {
        return None;
    }
    let cols = slice_chars(&rest, 1, 11);
    proof {
        assert(row_spec(line@) == (if forall|q: int| 0 <= q < 10 ==> #[trigger] cols@[q] == '.'
            || is_dec(cols@[q]) {
            Some((idx, col_mask(cols@, 10)))
        } else {
            None
        }));
    }
    let mut mask: u16 = 0;
    let mut j: usize = 0;
    while j < 10
        invariant
            j <= 10,
            cols@.len() == 10,
            row_spec(line@) == (if forall|q: int| 0 <= q < 10 ==> #[trigger] cols@[q] == '.'
                || is_dec(cols@[q]) {
                Some((idx, col_mask(cols@, 10)))
            } else {
                None
            }),
            mask == col_mask(cols@, j as nat),
            forall|q: int| 0 <= q < j ==> #[trigger] cols@[q] == '.' || is_dec(cols@[q]),
        decreases 10 - j,
    {
        let ch = cols[j];
        if !(ch == '.' || ('0' <= ch && ch <= '9')) {
            proof {
                assert(!(cols@[j as int] == '.' || is_dec(cols@[j as int])));
            }
            return None;
        }
        if ch != '.' {
            mask = mask | (1u16 << (j as u16));
        } else {
            mask = mask | 0u16;
        }
        j = j + 1;
    }
    Some((idx, mask))
}

/// The kernel table rows: from the `Live regs before insn:` header, the rows that
/// parse; the first row that does not ends the table.
pub open spec fn table_step(acc: (Seq<(u32, u16)>, bool), line: Seq<char>) -> (Seq<(u32, u16)>, bool) {
    if trim(line) == "Live regs before insn:"@ {
        (acc.0, true)
    } else if !acc.1 {
        acc
    } else {
        match row_spec(line) {
            Some(r) => (acc.0.push(r), true),
            None => (acc.0, false),
        }
    }
}

pub open spec fn table_fold(log: Seq<Seq<char>>) -> (Seq<(u32, u16)>, bool)
    decreases log.len(),
{
    if log.len() == 0 {
        (seq![], false)
    } else {
        table_step(table_fold(log.drop_last()), log.last())
    }
}

/// The first `k` three-hex-digit chunks of a mask string, each limited to ten bits.
pub open spec fn mask_chunks(hex: Seq<char>, k: nat) -> Option<Seq<u16>>
    decreases k,
{
    if k == 0 {
        Some(seq![])
    } else {
        match (
            mask_chunks(hex, (k - 1) as nat),
            parse_u64(hex.subrange(3 * (k - 1), (3 * k) as int), 16),
        ) {
            (Some(v), Some(m)) => Some(v.push((m as u16) & 0x03ff)),
            _ => None,
        }
    }
}

/// The independent liveness claim and its status text.
pub open spec fn claim_spec(line: Seq<char>) -> (Option<Seq<u16>>, Seq<char>) {
    if contains(line, "status=ok"@) {
        let claim = match tok_after(line, "mask="@) {
            None => None,
            Some(hex) => {
                let n: nat = match tok_after(line, "n="@) {
                    Some(v) => match parse_usize(v) {
                        Some(x) => x as nat,
                        None => 0,
                    },
                    None => 0,
                };
                if n > 0 && hex.len() == n * 3 {
                    mask_chunks(hex, n)
                } else {
                    None
                }
            },
        };
        match claim {
            Some(v) => (Some(v), "ok"@),
            None => (None, "malformed"@),
        }
    } else if contains(line, "status=unsupported"@) {
        (
            None,
            "unsupported: "@ + match tok_after(line, "why="@) {
                Some(w) => w,
                None => "unstated"@,
            },
        )
    } else {
        (None, "absent"@)
    }
}

pub open spec fn gate_view(g: LivenessGate) -> (Option<Seq<u16>>, Seq<char>, Seq<(u32, u16)>) {
    (
        match g.claim {
            Some(v) => Some(v@),
            None => None,
        },
        g.claim_status@,
        g.kernel@,
    )
}

/// The liveness gate of a block: present exactly when the harness printed a claim.
pub open spec fn gate_spec(claim_line: Option<Seq<char>>, log: Seq<Seq<char>>) -> Option<
    (Option<Seq<u16>>, Seq<char>, Seq<(u32, u16)>),
> {
    match claim_line {
        None => None,
        Some(l) => {
            let (c, s) = claim_spec(l);
            Some((c, s, table_fold(log).0))
        },
    }
}

fn contains_lit(v: &Vec<char>, lit: &str) -> (b: bool)
    ensures
        b == contains(v@, lit@),
{
    let p = chars_of(lit);
    find_chars_from(v, &p, 0).is_some()
}

fn parse_chunks(hex: &Vec<char>, n: usize) -> (r: Option<Vec<u16>>)
    requires
        hex@.len() == n * 3,
    ensures
        match mask_chunks(hex@, n as nat) {
            Some(v) => r matches Some(x) && x@ == v,
            None => r is None,
        },
{
    let mut v: Vec<u16> = Vec::new();
    let mut k: usize = 0;
    while k < n
        invariant
            k <= n,
            hex@.len() == n * 3,
            mask_chunks(hex@, k as nat) == Some(v@),
        decreases n - k,
    {
        assert(hex@.len() == hex.len());
        proof {
            assert(3 * k + 3 <= 3 * n) by (nonlinear_arith)
                requires
                    k < n,
            ;
        }
        match crate::num::parse_u64_range(hex, 3 * k, 3 * k + 3, 16) {
            Some(m) => {
                proof {
                    assert(3 * (k + 1) == 3 * k + 3);
                }
                v.push((m as u16) & 0x03ff);
            },
            None => {
                proof {
                    assert(mask_chunks(hex@, (k + 1) as nat) is None) by {
                        assert(3 * ((k + 1) as nat - 1) == 3 * k);
                    }
                    lemma_chunks_none(hex@, (k + 1) as nat, n as nat);
                }
                return None;
            },
        }
        k = k + 1;
    }
    Some(v)
}

proof fn lemma_chunks_none(hex: Seq<char>, k: nat, n: nat)
    requires
        k <= n,
        mask_chunks(hex, k) is None,
    ensures
        mask_chunks(hex, n) is None,
    decreases n - k,
{
    if k < n {
        lemma_chunks_none(hex, k + 1, n);
    }
}

/// Parses the liveness claim line and the kernel table.
pub fn parse_liveness_gate(claim_line: &Option<Vec<char>>, log: &Vec<Vec<char>>) -> (r: Option<
    LivenessGate,
>)
    ensures
        match gate_spec(
            match claim_line {
                Some(l) => Some(l@),
                None => None,
            },
            log@.map_values(|l: Vec<char>| l@),
        ) {
            Some(g) => r matches Some(x) && gate_view(x) == g,
            None => r is None,
        },
{
    let line = match claim_line {
        Some(l) => l,
        None => return None,
    };
    let ws = line_words(line);
    let (claim, status): (Option<Vec<u16>>, Vec<char>) = if contains_lit(line, "status=ok") {
        let claim: Option<Vec<u16>> = match first_tok_exec(&ws, "mask=") {
            None => None,
            Some(hex) => {
                let n: usize = match first_tok_exec(&ws, "n=") {
                    Some(v) => match parse_usize_chars(&v) {
                        Some(x) => x,
                        None => 0,
                    },
                    None => 0,
                };
                if n > 0 && n <= hex.len() / 3 && hex.len() == n * 3 {
                    parse_chunks(&hex, n)
                } else {
                    proof {
                        if n > 0 && hex@.len() == n * 3 {
                            assert(n <= hex@.len() / 3) by (nonlinear_arith)
                                requires
                                    hex@.len() == n * 3,
                            ;
                        }
                    }
                    None
                }
            },
        };
        match claim {
            Some(v) => (Some(v), chars_of("ok")),
            None => (None, chars_of("malformed")),
        }
    } else if contains_lit(line, "status=unsupported") {
        let mut s = chars_of("unsupported: ");
        let why = match first_tok_exec(&ws, "why=") {
            Some(w) => w,
            None => chars_of("unstated"),
        };
        let mut k: usize = 0;
        let ghost s0 = s@;
        while k < why.len()
            invariant
                k <= why@.len(),
                s@ == s0 + why@.take(k as int),
            decreases why@.len() - k,
        {
            s.push(why[k]);
            proof {
                assert(s@ =~= s0 + why@.take(k + 1));
            }
            k = k + 1;
        }
        proof {
            assert(why@.take(why@.len() as int) =~= why@);
        }
        (None, s)
    } else {
        (None, chars_of("absent"))
    };
    let ghost lv = log@.map_values(|l: Vec<char>| l@);
    let mut kernel: Vec<(u32, u16)> = Vec::new();
    let mut in_table = false;
    let mut i: usize = 0;
    while i < log.len()
        invariant
            i <= log@.len(),
            lv == log@.map_values(|l: Vec<char>| l@),
            (kernel@, in_table) == table_fold(lv.take(i as int)),
        decreases log@.len() - i,
    {
        proof {
            assert(lv.take(i + 1).drop_last() =~= lv.take(i as int));
            assert(lv.take(i + 1).last() == log@[i as int]@);
        }
        let t = trim_chars(&log[i]);
        if eq_lit(&t, "Live regs before insn:") {
            in_table = true;
        } else if in_table {
            match parse_liveness_row(&log[i]) {
                Some(row) => kernel.push(row),
                None => in_table = false,
            }
        }
        i = i + 1;
    }
    proof {
        assert(lv.take(lv.len() as int) =~= lv);
    }
    Some(LivenessGate { claim, claim_status: string_of_all(&status), kernel })
}

} // verus!
