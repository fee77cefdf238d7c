//! The harness's own declarations inside a block: runtime samples, the
//! JIT-vs-interpreter pair, the generator's intent, the store site, the pruning
//! probe, and the liveness claim with the kernel's liveness table.
use vstd::prelude::*;
use crate::text::{
    words, words_of, trim, chars_of, slice_chars, starts_with_lit, eq_lit, trim_chars, contains,
    find_chars_from, string_of_all, string_from, push_chars, push_str,
};
use crate::num::{parse_u64, parse_i64, parse_u32, parse_u8, parse_usize, parse_u64_chars,
    parse_i64_chars, parse_u32_chars, parse_u8_chars, parse_usize_chars};
use crate::metrics::{RuntimeSample, JitInterpDiff, StoreSite, PruneProbe, LivenessGate};
use crate::verifier_log::fields::{strip_prefix, uint_spec, parse_uint};

verus! {

// ---------------------------------------------------------------------------
// Tokens
// ---------------------------------------------------------------------------

/// The rest of the first whitespace token from `i` on that starts with `key`.
pub open spec fn first_tok(ws: Seq<Seq<char>>, key: Seq<char>, i: int) -> Option<Seq<char>>
    decreases ws.len() - i,
{
    if i < 0 || i >= ws.len() {
        None
    } else {
        match strip_prefix(ws[i], key) {
            Some(v) => Some(v),
            None => first_tok(ws, key, i + 1),
        }
    }
}

/// The value of the first `key...` token of a line.
pub open spec fn tok_after(line: Seq<char>, key: Seq<char>) -> Option<Seq<char>> {
    first_tok(words(line), key, 0)
}

pub open spec fn words_view(ws: Seq<Vec<char>>) -> Seq<Seq<char>> {
    ws.map_values(|w: Vec<char>| w@)
}

/// `w` without the prefix `key`, if it has it.
pub fn strip_lit(w: &Vec<char>, key: &str) -> (r: Option<Vec<char>>)
    ensures
        match strip_prefix(w@, key@) {
            Some(v) => r matches Some(x) && x@ == v,
            None => r is None,
        },
{
    if starts_with_lit(w, key) {
        let k = chars_of(key);
        let rest = slice_chars(w, k.len(), w.len());
        proof {
            assert(rest@ =~= w@.skip(key@.len() as int));
        }
        Some(rest)
    } else {
        None
    }
}

/// The value of the first `key...` token among `ws`.
pub fn first_tok_exec(ws: &Vec<Vec<char>>, key: &str) -> (r: Option<Vec<char>>)
    ensures
        match first_tok(words_view(ws@), key@, 0) {
            Some(v) => r matches Some(x) && x@ == v,
            None => r is None,
        },
{
    let ghost wv = words_view(ws@);
    let mut i: usize = 0;
    while i < ws.len()
        invariant
            i <= ws@.len(),
            wv == words_view(ws@),
            first_tok(wv, key@, 0) == first_tok(wv, key@, i as int),
        decreases ws@.len() - i,
    {
        proof {
            assert(wv[i as int] == ws@[i as int]@);
        }
        match strip_lit(&ws[i], key) {
            Some(v) => return Some(v),
            None => {},
        }
        i = i + 1;
    }
    None
}

/// The words of a line, as the spec sees them.
pub fn line_words(line: &Vec<char>) -> (r: Vec<Vec<char>>)
    ensures
        words_view(r@) == words(line@),
{
    let r = words_of(line);
    proof {
        assert(words_view(r@) =~= words(line@));
    }
    r
}

/// A `0x`-prefixed hex or a decimal unsigned value (no trimming, lowercase prefix).
pub open spec fn hexdec(v: Seq<char>) -> Option<u64> {
    if "0x"@.is_prefix_of(v) {
        parse_u64(v.skip(2), 16)
    } else {
        parse_u64(v, 10)
    }
}

fn hexdec_exec(v: &Vec<char>) -> (r: Option<u64>)
    ensures
        r == hexdec(v@),
{
    match strip_lit(v, "0x") {
        Some(h) => {
            proof {
                reveal_strlit("0x");
            }
            parse_u64_chars(&h, 16)
        },
        None => parse_u64_chars(v, 10),
    }
}

/// `key` token of a line read as `hexdec`.
pub open spec fn num_tok(line: Seq<char>, key: Seq<char>) -> Option<u64> {
    match tok_after(line, key) {
        Some(v) => hexdec(v),
        None => None,
    }
}

fn num_tok_exec(line: &Vec<char>, key: &str) -> (r: Option<u64>)
    ensures
        r == num_tok(line@, key@),
{
    let ws = line_words(line);
    match first_tok_exec(&ws, key) {
        Some(v) => hexdec_exec(&v),
        None => None,
    }
}

// ---------------------------------------------------------------------------
// Runtime samples
// ---------------------------------------------------------------------------

/// The fields a `RUNTIME` line has set so far: input, retval, store_off,
/// store_len, store_size, executed, intended retval, error.
pub type SampleAcc = (
    Option<u64>,
    Option<u64>,
    Option<i64>,
    Option<i64>,
    Option<i64>,
    Option<bool>,
    Option<u64>,
    bool,
);

/// One token of a `RUNTIME` line applied; a later token overrides an earlier one.
pub open spec fn sample_tok(a: SampleAcc, t: Seq<char>) -> SampleAcc {
    if strip_prefix(t, "input="@) is Some {
        (uint_spec(t.skip(6)), a.1, a.2, a.3, a.4, a.5, a.6, a.7)
    } else if strip_prefix(t, "retval="@) is Some {
        (a.0, uint_spec(t.skip(7)), a.2, a.3, a.4, a.5, a.6, a.7)
    } else if strip_prefix(t, "store_off="@) is Some {
        let v = trim(t.skip(10));
        (
            a.0,
            a.1,
            Some(
                if v == "none"@ {
                    -1i64
                } else {
                    match parse_i64(v, 10) {
                        Some(x) => x,
                        None => -1i64,
                    }
                },
            ),
            a.3,
            a.4,
            a.5,
            a.6,
            a.7,
        )
    } else if strip_prefix(t, "store_len="@) is Some {
        (a.0, a.1, a.2, parse_i64(trim(t.skip(10)), 10), a.4, a.5, a.6, a.7)
    } else if strip_prefix(t, "store_size="@) is Some {
        (a.0, a.1, a.2, a.3, parse_i64(trim(t.skip(11)), 10), a.5, a.6, a.7)
    } else if strip_prefix(t, "executed="@) is Some {
        (
            a.0,
            a.1,
            a.2,
            a.3,
            a.4,
            match parse_i64(trim(t.skip(9)), 10) {
                Some(n) => Some(n != 0),
                None => None,
            },
            a.6,
            a.7,
        )
    } else if strip_prefix(t, "intended_retval="@) is Some {
        (a.0, a.1, a.2, a.3, a.4, a.5, uint_spec(t.skip(16)), a.7)
    } else if "error="@.is_prefix_of(t) {
        (a.0, a.1, a.2, a.3, a.4, a.5, a.6, true)
    } else {
        a
    }
}

pub open spec fn sample_fold(ws: Seq<Seq<char>>) -> SampleAcc
    decreases ws.len(),
{
    if ws.len() == 0 {
        (None, None, None, None, None, None, None, false)
    } else {
        sample_tok(sample_fold(ws.drop_last()), ws.last())
    }
}

/// The sample a `RUNTIME` line declares, if it names an input. A sample that
/// observed neither channel is flagged as an error.
pub open spec fn sample_spec(line: Seq<char>) -> Option<RuntimeSample> {
    let a = sample_fold(words(line));
    match a.0 {
        None => None,
        Some(i) => Some(
            RuntimeSample {
                input: i,
                retval: match a.1 {
                    Some(r) => r,
                    None => 0,
                },
                retval_observed: a.1 is Some,
                intended_retval: a.6,
                store_off: a.2,
                store_len: a.3,
                store_size: a.4,
                executed: a.5,
                error: a.7 || !(a.1 is Some || a.2 is Some),
            },
        ),
    }
}

pub open spec fn samples_spec(lines: Seq<Seq<char>>) -> Seq<RuntimeSample>
    decreases lines.len(),
{
    if lines.len() == 0 {
        seq![]
    } else {
        samples_spec(lines.drop_last()) + match sample_spec(lines.last()) {
            Some(s) => seq![s],
            None => seq![],
        }
    }
}

fn trimmed_i64(v: &Vec<char>) -> (r: Option<i64>)
    ensures
        r == parse_i64(trim(v@), 10),
{
    let t = trim_chars(v);
    parse_i64_chars(&t, 10)
}

fn sample_tok_exec(
    a: (Option<u64>, Option<u64>, Option<i64>, Option<i64>, Option<i64>, Option<bool>, Option<u64>, bool),
    tok: &Vec<char>,
) -> (r: (Option<u64>, Option<u64>, Option<i64>, Option<i64>, Option<i64>, Option<bool>, Option<u64>, bool))
    ensures
        r == sample_tok(a, tok@),
{
    proof {
        reveal_strlit("input=");
        reveal_strlit("retval=");
        reveal_strlit("store_off=");
        reveal_strlit("store_len=");
        reveal_strlit("store_size=");
        reveal_strlit("executed=");
        reveal_strlit("intended_retval=");
    }
    let (a0, a1, a2, a3, a4, a5, a6, a7) = a;
    match strip_lit(tok, "input=") {
        Some(v) => return (parse_uint(&v), a1, a2, a3, a4, a5, a6, a7),
        None => {},
    }
    match strip_lit(tok, "retval=") {
        Some(v) => return (a0, parse_uint(&v), a2, a3, a4, a5, a6, a7),
        None => {},
    }
    match strip_lit(tok, "store_off=") {
        Some(v) => {
            let t = trim_chars(&v);
            let off: i64 = if eq_lit(&t, "none") {
                -1
            } else {
                match parse_i64_chars(&t, 10) {
                    Some(x) => x,
                    None => -1,
                }
            };
            return (a0, a1, Some(off), a3, a4, a5, a6, a7);
        },
        None => {},
    }
    match strip_lit(tok, "store_len=") {
        Some(v) => return (a0, a1, a2, trimmed_i64(&v), a4, a5, a6, a7),
        None => {},
    }
    match strip_lit(tok, "store_size=") {
        Some(v) => return (a0, a1, a2, a3, trimmed_i64(&v), a5, a6, a7),
        None => {},
    }
    match strip_lit(tok, "executed=") {
        Some(v) => {
            let e = match trimmed_i64(&v) {
                Some(n) => Some(n != 0),
                None => None,
            };
            return (a0, a1, a2, a3, a4, e, a6, a7);
        },
        None => {},
    }
    match strip_lit(tok, "intended_retval=") {
        Some(v) => return (a0, a1, a2, a3, a4, a5, parse_uint(&v), a7),
        None => {},
    }
    if starts_with_lit(tok, "error=") {
        return (a0, a1, a2, a3, a4, a5, a6, true);
    }
    a
}

fn parse_sample(line: &Vec<char>) -> (r: Option<RuntimeSample>)
    ensures
        r == sample_spec(line@),
{
    proof {
        reveal_strlit("input=");
        reveal_strlit("retval=");
        reveal_strlit("store_off=");
        reveal_strlit("store_len=");
        reveal_strlit("store_size=");
        reveal_strlit("executed=");
        reveal_strlit("intended_retval=");
    }
    let ws = line_words(line);
    let ghost wv = words_view(ws@);
    let mut input: Option<u64> = None;
    let mut retval: Option<u64> = None;
    let mut store_off: Option<i64> = None;
    let mut store_len: Option<i64> = None;
    let mut store_size: Option<i64> = None;
    let mut executed: Option<bool> = None;
    let mut intended: Option<u64> = None;
    let mut error = false;
    let mut i: usize = 0;
    while i < ws.len()
        invariant
            i <= ws@.len(),
            wv == words_view(ws@),
            (input, retval, store_off, store_len, store_size, executed, intended, error)
                == sample_fold(wv.take(i as int)),
        decreases ws@.len() - i,
    {
        proof {
            assert(wv.take(i + 1).drop_last() =~= wv.take(i as int));
            assert(wv.take(i + 1).last() == ws@[i as int]@);
        }
        let (a0, a1, a2, a3, a4, a5, a6, a7) = sample_tok_exec(
            (input, retval, store_off, store_len, store_size, executed, intended, error),
            &ws[i],
        );
        input = a0;
        retval = a1;
        store_off = a2;
        store_len = a3;
        store_size = a4;
        executed = a5;
        intended = a6;
        error = a7;
        i = i + 1;
    }
    proof {
        assert(wv.take(wv.len() as int) =~= wv);
    }
    match input {
        Some(i) => {
            let observed = retval.is_some() || store_off.is_some();
            Some(
                RuntimeSample {
                    input: i,
                    retval: match retval {
                        Some(r) => r,
                        None => 0,
                    },
                    retval_observed: retval.is_some(),
                    intended_retval: intended,
                    store_off,
                    store_len,
                    store_size,
                    executed,
                    error: error || !observed,
                },
            )
        },
        None => None,
    }
}

/// Parses the harness's `RUNTIME` lines into ground-truth samples.
pub fn parse_runtime_samples(lines: &Vec<Vec<char>>) -> (r: Vec<RuntimeSample>)
    ensures
        r@ == samples_spec(lines@.map_values(|l: Vec<char>| l@)),
{
    let ghost lv = lines@.map_values(|l: Vec<char>| l@);
    let mut out: Vec<RuntimeSample> = Vec::new();
    let mut i: usize = 0;
    while i < lines.len()
        invariant
            i <= lines@.len(),
            lv == lines@.map_values(|l: Vec<char>| l@),
            out@ == samples_spec(lv.take(i as int)),
        decreases lines@.len() - i,
    {
        proof {
            assert(lv.take(i + 1).drop_last() =~= lv.take(i as int));
            assert(lv.take(i + 1).last() == lines@[i as int]@);
        }
        match parse_sample(&lines[i]) {
            Some(s) => out.push(s),
            None => {},
        }
        proof {
            assert(out@ =~= samples_spec(lv.take(i + 1)));
        }
        i = i + 1;
    }
    proof {
        assert(lv.take(lv.len() as int) =~= lv);
    }
    out
}

// ---------------------------------------------------------------------------
// JIT vs interpreter
// ---------------------------------------------------------------------------

/// The JITted return value for `input`: the `retval=` of the first `RUNTIME`
/// line with that input.
pub open spec fn jit_retval(runtime: Seq<Seq<char>>, input: u64, k: int) -> Option<u64>
    decreases runtime.len() - k,
{
    if k < 0 || k >= runtime.len() {
        None
    } else if num_tok(runtime[k], "input="@) == Some(input) {
        num_tok(runtime[k], "retval="@)
    } else {
        jit_retval(runtime, input, k + 1)
    }
}

/// Pairs `JITDIFF` lines from `j` on with the JITted samples: the first pair that
/// differs, else the first common pair (`first`); a malformed line ends it all.
pub open spec fn jit_from(
    runtime: Seq<Seq<char>>,
    jd: Seq<Seq<char>>,
    j: int,
    first: Option<(u64, u64)>,
) -> Option<(u64, u64)>
    decreases jd.len() - j,
{
    if j < 0 || j >= jd.len() {
        first
    } else {
        match (num_tok(jd[j], "input="@), num_tok(jd[j], "retval_interp="@)) {
            (Some(input), Some(interp)) => match jit_retval(runtime, input, 0) {
                None => jit_from(runtime, jd, j + 1, first),
                Some(jit) => if jit != interp {
                    Some((jit, interp))
                } else {
                    jit_from(
                        runtime,
                        jd,
                        j + 1,
                        match first {
                            Some(f) => Some(f),
                            None => Some((jit, interp)),
                        },
                    )
                },
            },
            _ => None,
        }
    }
}

pub open spec fn jit_interp_spec(runtime: Seq<Seq<char>>, jd: Seq<Seq<char>>) -> Option<
    JitInterpDiff,
> {
    if jd.len() == 0 {
        None
    } else {
        match jit_from(runtime, jd, 0, None) {
            Some(p) => Some(
                JitInterpDiff { retval_jit: p.0 as i64, retval_interp: p.1 as i64, data_out_equal: true },
            ),
            None => None,
        }
    }
}

fn jit_retval_exec(runtime: &Vec<Vec<char>>, input: u64) -> (r: Option<u64>)
    ensures
        r == jit_retval(runtime@.map_values(|l: Vec<char>| l@), input, 0),
{
    let ghost rv = runtime@.map_values(|l: Vec<char>| l@);
    let mut k: usize = 0;
    while k < runtime.len()
        invariant
            k <= runtime@.len(),
            rv == runtime@.map_values(|l: Vec<char>| l@),
            jit_retval(rv, input, 0) == jit_retval(rv, input, k as int),
        decreases runtime@.len() - k,
    {
        proof {
            assert(rv[k as int] == runtime@[k as int]@);
        }
        if num_tok_exec(&runtime[k], "input=") == Some(input) {
            return num_tok_exec(&runtime[k], "retval=");
        }
        k = k + 1;
    }
    None
}

/// Whether a `JITDIFF` line carries both its input and its interpreter result.
pub open spec fn jd_line_ok(l: Seq<char>) -> bool {
    num_tok(l, "input="@) is Some && num_tok(l, "retval_interp="@) is Some
}

/// The (JIT, interpreter) return values a well-formed `JITDIFF` line pairs,
/// when a `RUNTIME` sample ran the same input.
pub open spec fn jd_pair(runtime: Seq<Seq<char>>, l: Seq<char>) -> Option<(u64, u64)> {
    if jd_line_ok(l) {
        match jit_retval(runtime, num_tok(l, "input="@)->0, 0) {
            Some(jit) => Some((jit, num_tok(l, "retval_interp="@)->0)),
            None => None,
        }
    } else {
        None
    }
}

proof fn lemma_jit_from_reaches(
    runtime: Seq<Seq<char>>,
    jd: Seq<Seq<char>>,
    j: int,
    k: int,
    first: Option<(u64, u64)>,
)
    requires
        0 <= j <= k < jd.len(),
        forall|i: int|
            j <= i < k ==> jd_line_ok(#[trigger] jd[i]) && (jd_pair(runtime, jd[i]) matches Some(
                p,
            ) ==> p.0 == p.1),
        jd_pair(runtime, jd[k]) matches Some(p) && p.0 != p.1,
    ensures
        jit_from(runtime, jd, j, first) == jd_pair(runtime, jd[k]),
    decreases k - j,
{
    if j < k {
        assert(jd_line_ok(jd[j]));
        let nf = match jit_retval(runtime, num_tok(jd[j], "input="@)->0, 0) {
            None => first,
            Some(jit) => match first {
                Some(f) => Some(f),
                None => Some((jit, num_tok(jd[j], "retval_interp="@)->0)),
            },
        };
        lemma_jit_from_reaches(runtime, jd, j + 1, k, nf);
    }
}

/// A disagreement between JIT and interpreter on any input is reported, and the
/// pair reported is the first that differs: if every `JITDIFF` line before line
/// `k` is well formed and agrees wherever it pairs, and line `k` pairs a JIT
/// return value that differs from the interpreter's, the record's
/// JIT/interpreter pair is exactly line `k`'s, with `retval_jit != retval_interp`.
pub proof fn lemma_first_disagreement_is_reported(
    runtime: Seq<Seq<char>>,
    jd: Seq<Seq<char>>,
    k: int,
)
    requires
        0 <= k < jd.len(),
        forall|i: int|
            0 <= i < k ==> jd_line_ok(#[trigger] jd[i]) && (jd_pair(runtime, jd[i]) matches Some(
                p,
            ) ==> p.0 == p.1),
        jd_pair(runtime, jd[k]) matches Some(p) && p.0 != p.1,
    ensures
        jit_interp_spec(runtime, jd) == Some(
            JitInterpDiff {
                retval_jit: (jd_pair(runtime, jd[k])->0).0 as i64,
                retval_interp: (jd_pair(runtime, jd[k])->0).1 as i64,
                data_out_equal: true,
            },
        ),
        jit_interp_spec(runtime, jd)->0.retval_jit != jit_interp_spec(runtime, jd)->0.retval_interp,
{
    lemma_jit_from_reaches(runtime, jd, 0, k, None);
    let (a, b) = jd_pair(runtime, jd[k])->0;
    assert(a != b ==> a as i64 != b as i64) by (bit_vector);
}

proof fn lemma_jit_from_agreeing(
    runtime: Seq<Seq<char>>,
    jd: Seq<Seq<char>>,
    j: int,
    first: Option<(u64, u64)>,
)
    requires
        0 <= j <= jd.len(),
        forall|i: int|
            j <= i < jd.len() ==> jd_line_ok(#[trigger] jd[i]) && (jd_pair(runtime, jd[i]) matches Some(
                p,
            ) ==> p.0 == p.1),
    ensures
        jit_from(runtime, jd, j, first) == (match first {
            Some(f) => Some(f),
            None => first_pair_from(runtime, jd, j),
        }),
    decreases jd.len() - j,
{
    if j < jd.len() {
        assert(jd_line_ok(jd[j]));
        let nf = match jit_retval(runtime, num_tok(jd[j], "input="@)->0, 0) {
            None => first,
            Some(jit) => match first {
                Some(f) => Some(f),
                None => Some((jit, num_tok(jd[j], "retval_interp="@)->0)),
            },
        };
        lemma_jit_from_agreeing(runtime, jd, j + 1, nf);
    }
}

/// The pair of the first `JITDIFF` line from `j` on that pairs with a sample.
pub open spec fn first_pair_from(runtime: Seq<Seq<char>>, jd: Seq<Seq<char>>, j: int) -> Option<
    (u64, u64),
>
    decreases jd.len() - j,
{
    if j < 0 || j >= jd.len() {
        None
    } else {
        match jd_pair(runtime, jd[j]) {
            Some(p) => Some(p),
            None => first_pair_from(runtime, jd, j + 1),
        }
    }
}

/// With no disagreement, the record still carries a pair: when every `JITDIFF`
/// line is well formed and every one that pairs with a sample agrees, the
/// record's JIT/interpreter pair is the first line that pairs (so it counts
/// toward the denominator), and there is none when no line pairs.
pub proof fn lemma_agreement_carries_first_pair(runtime: Seq<Seq<char>>, jd: Seq<Seq<char>>)
    requires
        forall|i: int|
            0 <= i < jd.len() ==> jd_line_ok(#[trigger] jd[i]) && (jd_pair(runtime, jd[i]) matches Some(
                p,
            ) ==> p.0 == p.1),
    ensures
        jit_interp_spec(runtime, jd) == (match first_pair_from(runtime, jd, 0) {
            Some(p) => Some(
                JitInterpDiff { retval_jit: p.0 as i64, retval_interp: p.1 as i64, data_out_equal: true },
            ),
            None => None,
        }),
        jit_interp_spec(runtime, jd) matches Some(d) ==> d.retval_jit == d.retval_interp,
{
    lemma_jit_from_agreeing(runtime, jd, 0, None);
    lemma_first_pair_agrees(runtime, jd, 0);
}

proof fn lemma_first_pair_agrees(runtime: Seq<Seq<char>>, jd: Seq<Seq<char>>, j: int)
    requires
        0 <= j,
        forall|i: int|
            0 <= i < jd.len() ==> jd_line_ok(#[trigger] jd[i]) && (jd_pair(runtime, jd[i]) matches Some(
                p,
            ) ==> p.0 == p.1),
    ensures
        first_pair_from(runtime, jd, j) matches Some(p) ==> p.0 == p.1,
    decreases jd.len() - j,
{
    if j < jd.len() {
        assert(jd_line_ok(jd[j]));
        lemma_first_pair_agrees(runtime, jd, j + 1);
    }
}

proof fn lemma_jit_from_malformed(
    runtime: Seq<Seq<char>>,
    jd: Seq<Seq<char>>,
    j: int,
    m: int,
    first: Option<(u64, u64)>,
)
    requires
        0 <= j <= m < jd.len(),
        forall|i: int|
            j <= i < m ==> jd_line_ok(#[trigger] jd[i]) && (jd_pair(runtime, jd[i]) matches Some(
                p,
            ) ==> p.0 == p.1),
        !jd_line_ok(jd[m]),
    ensures
        jit_from(runtime, jd, j, first) is None,
    decreases m - j,
{
    if j < m {
        assert(jd_line_ok(jd[j]));
        let nf = match jit_retval(runtime, num_tok(jd[j], "input="@)->0, 0) {
            None => first,
            Some(jit) => match first {
                Some(f) => Some(f),
                None => Some((jit, num_tok(jd[j], "retval_interp="@)->0)),
            },
        };
        lemma_jit_from_malformed(runtime, jd, j + 1, m, nf);
    }
}

/// A malformed `JITDIFF` line reached before any disagreement voids the
/// record's JIT/interpreter pair: nothing is carried.
pub proof fn lemma_malformed_line_voids_the_pair(
    runtime: Seq<Seq<char>>,
    jd: Seq<Seq<char>>,
    m: int,
)
    requires
        0 <= m < jd.len(),
        forall|i: int|
            0 <= i < m ==> jd_line_ok(#[trigger] jd[i]) && (jd_pair(runtime, jd[i]) matches Some(
                p,
            ) ==> p.0 == p.1),
        !jd_line_ok(jd[m]),
    ensures
        jit_interp_spec(runtime, jd) is None,
{
    lemma_jit_from_malformed(runtime, jd, 0, m, None);
}

/// Pairs each `JITDIFF` line with the JITted `RUNTIME` sample for the same input.
pub fn parse_jit_interp(runtime: &Vec<Vec<char>>, jitdiff: &Vec<Vec<char>>) -> (r: Option<
    JitInterpDiff,
>)
    ensures
        r == jit_interp_spec(
            runtime@.map_values(|l: Vec<char>| l@),
            jitdiff@.map_values(|l: Vec<char>| l@),
        ),
{
    let ghost rv = runtime@.map_values(|l: Vec<char>| l@);
    let ghost jv = jitdiff@.map_values(|l: Vec<char>| l@);
    if jitdiff.len() == 0 {
        return None;
    }
    let mut first: Option<(u64, u64)> = None;
    let mut j: usize = 0;
    while j < jitdiff.len()
        invariant
            j <= jitdiff@.len(),
            jitdiff@.len() > 0,
            rv == runtime@.map_values(|l: Vec<char>| l@),
            jv == jitdiff@.map_values(|l: Vec<char>| l@),
            jit_from(rv, jv, 0, None) == jit_from(rv, jv, j as int, first),
        decreases jitdiff@.len() - j,
    {
        proof {
            assert(jv[j as int] == jitdiff@[j as int]@);
        }
        let input = match num_tok_exec(&jitdiff[j], "input=") {
            Some(v) => v,
            None => return None,
        };
        let interp = match num_tok_exec(&jitdiff[j], "retval_interp=") {
            Some(v) => v,
            None => return None,
        };
        match jit_retval_exec(runtime, input) {
            None => {},
            Some(jit) => {
                if jit != interp {
                    return Some(
                        JitInterpDiff {
                            retval_jit: jit as i64,
                            retval_interp: interp as i64,
                            data_out_equal: true,
                        },
                    );
                }
                if first.is_none() {
                    first = Some((jit, interp));
                }
            },
        }
        j = j + 1;
    }
    match first {
        Some((jit, interp)) => Some(
            JitInterpDiff { retval_jit: jit as i64, retval_interp: interp as i64, data_out_equal: true },
        ),
        None => None,
    }
}

/// `EXPECT intended_retval=<n>`: the generator's own statement of the return value.
pub fn parse_intended_retval(line: &Vec<char>) -> (r: Option<u64>)
    ensures
        r == num_tok(line@, "intended_retval="@),
{
    num_tok_exec(line, "intended_retval=")
}

/// `paths=multi` on the `EXPECT` line.
pub open spec fn multi_path_spec(line: Seq<char>) -> Option<bool> {
    match tok_after(line, "paths="@) {
        Some(v) => Some(trim(v) == "multi"@),
        None => None,
    }
}

pub fn parse_multi_path(line: &Vec<char>) -> (r: Option<bool>)
    ensures
        r == multi_path_spec(line@),
{
    let ws = line_words(line);
    match first_tok_exec(&ws, "paths=") {
        Some(v) => {
            let t = trim_chars(&v);
            Some(eq_lit(&t, "multi"))
        },
        None => None,
    }
}

// ---------------------------------------------------------------------------
// Store site
// ---------------------------------------------------------------------------

pub type StoreAcc = (Option<u32>, Option<u8>, Option<i64>, Option<u32>);

pub open spec fn store_tok(a: StoreAcc, t: Seq<char>) -> StoreAcc {
    if strip_prefix(t, "insn="@) is Some {
        (parse_u32(t.skip(5)), a.1, a.2, a.3)
    } else if strip_prefix(t, "reg="@) is Some {
        (a.0, parse_u8(t.skip(4)), a.2, a.3)
    } else if strip_prefix(t, "off="@) is Some {
        (a.0, a.1, parse_i64(t.skip(4), 10), a.3)
    } else if strip_prefix(t, "size="@) is Some {
        (a.0, a.1, a.2, parse_u32(t.skip(5)))
    } else {
        a
    }
}

pub open spec fn store_fold(ws: Seq<Seq<char>>) -> StoreAcc
    decreases ws.len(),
{
    if ws.len() == 0 {
        (None, None, None, None)
    } else {
        store_tok(store_fold(ws.drop_last()), ws.last())
    }
}

/// The generator's `STORE insn=<i> reg=<r> off=<o> size=<w>` declaration.
pub open spec fn store_site_spec(line: Seq<char>) -> Option<StoreSite> {
    let a = store_fold(words(line));
    match (a.0, a.1, a.2, a.3) {
        (Some(i), Some(r), Some(o), Some(z)) => Some(
            StoreSite { insn_idx: i, base_reg: r, insn_off: o, size: z },
        ),
        _ => None,
    }
}

fn store_tok_exec(acc: (Option<u32>, Option<u8>, Option<i64>, Option<u32>), tok: &Vec<char>) -> (r: (
    Option<u32>,
    Option<u8>,
    Option<i64>,
    Option<u32>,
))
    ensures
        r == store_tok(acc, tok@),
{
    proof {
        reveal_strlit("insn=");
        reveal_strlit("reg=");
        reveal_strlit("off=");
        reveal_strlit("size=");
    }
    let (a, b, c, d) = acc;
    match strip_lit(tok, "insn=") {
        Some(v) => return (parse_u32_chars(&v), b, c, d),
        None => {},
    }
    match strip_lit(tok, "reg=") {
        Some(v) => return (a, parse_u8_chars(&v), c, d),
        None => {},
    }
    match strip_lit(tok, "off=") {
        Some(v) => return (a, b, parse_i64_chars(&v, 10), d),
        None => {},
    }
    match strip_lit(tok, "size=") {
        Some(v) => return (a, b, c, parse_u32_chars(&v)),
        None => {},
    }
    acc
}

pub fn parse_store_site(line: &Vec<char>) -> (r: Option<StoreSite>)
    ensures
        r == store_site_spec(line@),
{
    proof {
        reveal_strlit("insn=");
        reveal_strlit("reg=");
        reveal_strlit("off=");
        reveal_strlit("size=");
    }
    let ws = line_words(line);
    let ghost wv = words_view(ws@);
    let mut a: Option<u32> = None;
    let mut b: Option<u8> = None;
    let mut c: Option<i64> = None;
    let mut d: Option<u32> = None;
    let mut i: usize = 0;
    while i < ws.len()
        invariant
            i <= ws@.len(),
            wv == words_view(ws@),
            (a, b, c, d) == store_fold(wv.take(i as int)),
        decreases ws@.len() - i,
    {
        proof {
            assert(wv.take(i + 1).drop_last() =~= wv.take(i as int));
            assert(wv.take(i + 1).last() == ws@[i as int]@);
        }
        let (x0, x1, x2, x3) = store_tok_exec((a, b, c, d), &ws[i]);
        a = x0;
        b = x1;
        c = x2;
        d = x3;
        i = i + 1;
    }
    proof {
        assert(wv.take(wv.len() as int) =~= wv);
    }
    match (a, b, c, d) {
        (Some(i), Some(r), Some(o), Some(z)) => Some(
            StoreSite { insn_idx: i, base_reg: r, insn_off: o, size: z },
        ),
        _ => None,
    }
}

} // verus!
