//! Register tokens of a printed verifier state: `R<n>=<expr>` (or `R<n>_w=`),
//! split robustly around spaces inside parentheses, and interpreted into a
//! `RegState` without ever fabricating a malformed tnum.
use vstd::prelude::*;
use crate::text::{
    contains, find, find_from, occurs_at, trim, trim_start, trim_end, is_dec, chars_of, slice_chars, starts_with_lit, eq_lit, trim_chars,
    trim_start_chars, trim_end_chars, string_of_all, string_from,
};
use crate::num::{parse_u8, parse_u8_chars};
use crate::metrics::{RegState, Tnum};
use crate::verifier_log::fields::{
    strip_prefix, digit_run_end, lemma_digit_run, digit_run, const_int_spec, parse_const_int,
    var_off_spec, parse_var_off, field_u64_spec, field_u64, field_i64_spec, field_i64,
    field_s32_spec, field_s32, value_after_key_spec, value_after_key, legacy_bound_key_spec,
    ptr_field_from, parse_ptr_field, lemma_find_from_bounds,
};

verus! {

/// Length of a `R<n>` / `R<n>_w` register name at the start of `s`, when it is
/// followed by `=`.
pub open spec fn reg_name_len(s: Seq<char>) -> Option<int> {
    if s.len() == 0 || s[0] != 'R' {
        None
    } else {
        let d = digit_run_end(s, 1);
        if d == 1 {
            None
        } else {
            let i = if "_w"@.is_prefix_of(s.skip(d)) {
                d + 2
            } else {
                d
            };
            if i < s.len() && s[i] == '=' {
                Some(i)
            } else {
                None
            }
        }
    }
}

/// Length of a register name at `v[lo..]`.
pub fn reg_token_name_len(v: &Vec<char>, lo: usize) -> (r: Option<usize>)
    requires
        lo <= v@.len(),
    ensures
        match reg_name_len(v@.skip(lo as int)) {
            Some(i) => r == Some((lo + i) as usize),
            None => r is None,
        },
{
    let ghost s = v@.skip(lo as int);
    if lo >= v.len() || v[lo] != 'R' {
        return None;
    }
    proof {
        lemma_digit_run(v@, lo + 1);
        lemma_digit_run_shift(v@, lo as int, lo + 1);
    }
    let d = digit_run(v, lo + 1);
    if d == lo + 1 {
        return None;
    }
    assert(v@.len() == v.len());
    let mut i = d;
    if d < v.len() && v[d] == '_' && d + 1 < v.len() && v[d + 1] == 'w' {
        i = d + 2;
    }
    proof {
        reveal_strlit("_w");
        let sd = s.skip(d - lo);
        assert(sd =~= v@.skip(d as int));
        if d + 1 < v@.len() && v@[d as int] == '_' && v@[d + 1] == 'w' {
            assert("_w"@.is_prefix_of(sd));
        } else {
            if "_w"@.is_prefix_of(sd) {
                assert(sd.subrange(0, 2)[0] == sd[0]);
                assert(sd.subrange(0, 2)[1] == sd[1]);
                assert(sd[0] == v@[d as int]);
                assert(sd[1] == v@[d + 1]);
                assert(false);
            }
        }
    }
    if i < v.len() && v[i] == '=' {
        Some(i)
    } else {
        None
    }
}

/// A digit run measured in `s[base..]` is the run in `s`, shifted.
pub(crate) proof fn lemma_digit_run_shift(s: Seq<char>, base: int, i: int)
    requires
        0 <= base <= i <= s.len(),
    ensures
        digit_run_end(s.skip(base), i - base) == digit_run_end(s, i) - base,
    decreases s.len() - i,
{
    if i < s.len() {
        assert(s.skip(base)[i - base] == s[i]);
        lemma_digit_run_shift(s, base, i + 1);
    }
}

/// Whether a register token starts at `i`: an `R` at the start or after a space,
/// with a well-formed name.
pub open spec fn token_start(s: Seq<char>, i: int) -> bool {
    &&& 0 <= i < s.len()
    &&& s[i] == 'R'
    &&& (i == 0 || s[i - 1] == ' ')
    &&& reg_name_len(s.skip(i)) is Some
}

/// The token starts among the first `n` positions, in order.
pub open spec fn token_starts(s: Seq<char>, n: int) -> Seq<int>
    decreases n,
{
    if n <= 0 {
        seq![]
    } else {
        token_starts(s, n - 1) + (if token_start(s, n - 1) {
            seq![n - 1]
        } else {
            seq![]
        })
    }
}

/// The register tokens of a state string: each runs from its start to the next
/// start (or the end), trimmed.
pub open spec fn reg_tokens(s: Seq<char>) -> Seq<Seq<char>> {
    let st = token_starts(s, s.len() as int);
    Seq::new(
        st.len(),
        |k: int|
            trim(
                s.subrange(
                    st[k],
                    if k + 1 < st.len() {
                        st[k + 1]
                    } else {
                        s.len() as int
                    },
                ),
            ),
    )
}

proof fn lemma_token_starts(s: Seq<char>, n: int)
    requires
        0 <= n <= s.len(),
    ensures
        forall|k: int| 0 <= k < token_starts(s, n).len() ==> 0 <= #[trigger] token_starts(s, n)[k] < n,
        forall|a: int, b: int|
            0 <= a < b < token_starts(s, n).len() ==> token_starts(s, n)[a] < token_starts(s, n)[b],
    decreases n,
{
    if n > 0 {
        lemma_token_starts(s, n - 1);
        let prev = token_starts(s, n - 1);
        let tail = if token_start(s, n - 1) {
            seq![n - 1]
        } else {
            seq![]
        };
        assert(token_starts(s, n) == prev + tail);
        assert forall|k: int| 0 <= k < (prev + tail).len() implies 0 <= #[trigger] (prev + tail)[k]
            < n by {
            if k < prev.len() {
                assert((prev + tail)[k] == prev[k]);
            }
        }
        assert forall|a: int, b: int| 0 <= a < b < (prev + tail).len() implies (prev + tail)[a] < (
        prev + tail)[b] by {
            if b < prev.len() {
                assert((prev + tail)[a] == prev[a]);
                assert((prev + tail)[b] == prev[b]);
            } else {
                assert((prev + tail)[a] == prev[a]);
            }
        }
    }
}

/// Splits a state string into its register tokens.
pub fn split_reg_tokens(v: &Vec<char>) -> (r: Vec<Vec<char>>)
    ensures
        r@.len() == reg_tokens(v@).len(),
        forall|k: int| 0 <= k < r@.len() ==> #[trigger] r@[k]@ == reg_tokens(v@)[k],
{
    let mut starts: Vec<usize> = Vec::new();
    let mut i: usize = 0;
    while i < v.len()
        invariant
            i <= v@.len(),
            starts@.len() == token_starts(v@, i as int).len(),
            forall|k: int| 0 <= k < starts@.len() ==> starts@[k] == token_starts(v@, i as int)[k],
        decreases v@.len() - i,
    {
        let is_start = v[i] == 'R' && (i == 0 || v[i - 1] == ' ') && reg_token_name_len(
            v,
            i,
        ).is_some();
        if is_start {
            starts.push(i);
        }
        proof {
            assert(token_start(v@, i as int) == is_start);
        }
        i = i + 1;
    }
    proof {
        lemma_token_starts(v@, v@.len() as int);
    }
    let ghost st = token_starts(v@, v@.len() as int);
    let mut out: Vec<Vec<char>> = Vec::new();
    let mut k: usize = 0;
    while k < starts.len()
        invariant
            k <= starts@.len(),
            starts@.len() == st.len(),
            st == token_starts(v@, v@.len() as int),
            forall|q: int| 0 <= q < starts@.len() ==> starts@[q] == st[q],
            forall|q: int| 0 <= q < st.len() ==> 0 <= #[trigger] st[q] < v@.len(),
            forall|a: int, b: int| 0 <= a < b < st.len() ==> st[a] < st[b],
            out@.len() == k,
            forall|q: int| 0 <= q < k ==> #[trigger] out@[q]@ == reg_tokens(v@)[q],
        decreases starts@.len() - k,
    {
        assert(starts@[k as int] == st[k as int]);
        if k + 1 < starts.len() {
            assert(starts@[k + 1] == st[k + 1]);
            assert(st[k as int] < st[k + 1]);
        }
        let a = starts[k];
        let e = if k + 1 < starts.len() {
            starts[k + 1]
        } else {
            v.len()
        };
        let piece = slice_chars(v, a, e);
        let t = trim_chars(&piece);
        out.push(t);
        k = k + 1;
    }
    out
}

/// The depth of parentheses over `s[..i]`.
pub open spec fn paren_depth(s: Seq<char>, i: int) -> int
    decreases i,
{
    if i <= 0 {
        0
    } else {
        paren_depth(s, i - 1) + (if s[i - 1] == '(' {
            1int
        } else if s[i - 1] == ')' {
            -1int
        } else {
            0int
        })
    }
}

/// The first space at depth zero or below at or after `i` (or the length).
pub open spec fn head_end(s: Seq<char>, i: int) -> int
    decreases s.len() - i,
{
    if i < 0 || i >= s.len() {
        s.len() as int
    } else if s[i] == ' ' && paren_depth(s, i) <= 0 {
        i
    } else {
        head_end(s, i + 1)
    }
}

/// The value part of a register token: up to the first space outside parentheses.
pub open spec fn value_head_spec(e: Seq<char>) -> Seq<char> {
    let h = head_end(e, 0);
    if h < e.len() {
        trim_end(e.take(h))
    } else {
        e
    }
}

/// The value part of a register token.
pub fn value_head(v: &Vec<char>) -> (r: Vec<char>)
    ensures
        r@ == value_head_spec(v@),
{
    let mut opens: usize = 0;
    let mut closes: usize = 0;
    let mut i: usize = 0;
    while i < v.len()
        invariant
            i <= v@.len(),
            opens <= i,
            closes <= i,
            opens - closes == paren_depth(v@, i as int),
            head_end(v@, 0) == head_end(v@, i as int),
        decreases v@.len() - i,
    {
        let c = v[i];
        if c == ' ' && opens <= closes {
            let h = slice_chars(v, 0, i);
            proof {
                assert(h@ =~= v@.take(i as int));
            }
            return trim_end_chars(&h);
        }
        if c == '(' {
            opens = opens + 1;
        } else if c == ')' {
            closes = closes + 1;
        }
        i = i + 1;
    }
    slice_chars(v, 0, v.len())
}

/// A pre-2022 scalar spelling (`invP`, `inv`), returning what follows it.
pub open spec fn legacy_scalar_rest(expr: Seq<char>, p: Seq<char>) -> Option<Seq<char>> {
    match strip_prefix(expr, p) {
        None => None,
        Some(rest) => {
            let ok = rest.len() == 0 || rest[0] == '(' || rest[0] == '-' || is_dec(rest[0]);
            if !ok {
                None
            } else {
                let d = sign_digit_run_end(rest, 0);
                if d > 0 && d < rest.len() && rest[d] == '(' {
                    Some(rest.skip(d))
                } else {
                    Some(rest)
                }
            }
        },
    }
}

pub open spec fn strip_legacy_scalar_spec(expr: Seq<char>) -> Option<Seq<char>> {
    match legacy_scalar_rest(expr, "invP"@) {
        Some(r) => Some(r),
        None => legacy_scalar_rest(expr, "inv"@),
    }
}

/// The run of digits and `-` starting at `i`.
pub open spec fn sign_digit_run_end(s: Seq<char>, i: int) -> int
    decreases s.len() - i,
{
    if 0 <= i < s.len() && (is_dec(s[i]) || s[i] == '-') {
        sign_digit_run_end(s, i + 1)
    } else {
        i
    }
}

proof fn lemma_sign_digit_run(s: Seq<char>, i: int)
    requires
        0 <= i <= s.len(),
    ensures
        i <= sign_digit_run_end(s, i) <= s.len(),
    decreases s.len() - i,
{
    if i < s.len() {
        lemma_sign_digit_run(s, i + 1);
    }
}

fn legacy_rest(v: &Vec<char>, p: &str) -> (r: Option<Vec<char>>)
    ensures
        match legacy_scalar_rest(v@, p@) {
            Some(t) => r matches Some(x) && x@ == t,
            None => r is None,
        },
{
    let pv = chars_of(p);
    if !starts_with_lit(v, p) {
        return None;
    }
    let rest = slice_chars(v, pv.len(), v.len());
    proof {
        assert(rest@ =~= v@.skip(p@.len() as int));
    }
    let ok = rest.len() == 0 || rest[0] == '(' || rest[0] == '-' || ('0' <= rest[0] && rest[0]
        <= '9');
    if !ok {
        return None;
    }
    let mut d: usize = 0;
    proof {
        lemma_sign_digit_run(rest@, 0);
    }
    while d < rest.len() && (('0' <= rest[d] && rest[d] <= '9') || rest[d] == '-')
        invariant
            d <= rest@.len(),
            sign_digit_run_end(rest@, d as int) == sign_digit_run_end(rest@, 0),
        decreases rest@.len() - d,
    {
        d = d + 1;
    }
    if d > 0 && d < rest.len() && rest[d] == '(' {
        let tail = slice_chars(&rest, d, rest.len());
        proof {
            assert(tail@ =~= rest@.skip(d as int));
        }
        Some(tail)
    } else {
        Some(rest)
    }
}

/// Strips a pre-2022 SCALAR_VALUE type prefix, returning what follows it.
pub fn strip_legacy_scalar_prefix(v: &Vec<char>) -> (r: Option<Vec<char>>)
    ensures
        match strip_legacy_scalar_spec(v@) {
            Some(t) => r matches Some(x) && x@ == t,
            None => r is None,
        },
{
    match legacy_rest(v, "invP") {
        Some(r) => Some(r),
        None => legacy_rest(v, "inv"),
    }
}

/// What a register's printed state denotes.
pub struct RegView {
    pub reg: u8,
    pub reg_type: Seq<char>,
    pub tnum: Tnum,
    pub umin: u64,
    pub umax: u64,
    pub smin: i64,
    pub smax: i64,
    pub u32_min: Option<u64>,
    pub u32_max: Option<u64>,
    pub s32_min: Option<i64>,
    pub s32_max: Option<i64>,
    pub ptr_off: Option<i64>,
    pub bounds_from_log: bool,
}

pub open spec fn reg_view(r: RegState) -> RegView {
    RegView {
        reg: r.reg,
        reg_type: r.reg_type@,
        tnum: r.tnum,
        umin: r.umin,
        umax: r.umax,
        smin: r.smin,
        smax: r.smax,
        u32_min: r.u32_min,
        u32_max: r.u32_max,
        s32_min: r.s32_min,
        s32_max: r.s32_max,
        ptr_off: r.ptr_off,
        bounds_from_log: r.bounds_from_log,
    }
}

/// The type prefix of a pointer expression: up to the first `(` or space.
pub open spec fn type_prefix_end(s: Seq<char>, i: int) -> int
    decreases s.len() - i,
{
    if 0 <= i < s.len() && s[i] != '(' && s[i] != ' ' {
        type_prefix_end(s, i + 1)
    } else {
        i
    }
}

/// Whether an expression is a scalar's (empty after a legacy prefix, `scalar`,
/// `scalar(...)` or `(...)`).
pub open spec fn scalar_form(e: Seq<char>) -> bool {
    e.len() == 0 || e == "scalar"@ || "scalar("@.is_prefix_of(e) || "("@.is_prefix_of(e)
}

/// Whether any of the four 64-bit bounds was printed (modern or legacy name).
pub open spec fn bounds_printed(e: Seq<char>) -> bool {
    ||| value_after_key_spec(e, "umin="@) is Some || value_after_key_spec(e, "umin_value="@) is Some
    ||| value_after_key_spec(e, "umax="@) is Some || value_after_key_spec(e, "umax_value="@) is Some
    ||| value_after_key_spec(e, "smin="@) is Some || value_after_key_spec(e, "smin_value="@) is Some
    ||| value_after_key_spec(e, "smax="@) is Some || value_after_key_spec(e, "smax_value="@) is Some
}

pub open spec fn unwrap_u64(o: Option<u64>, d: u64) -> u64 {
    match o {
        Some(v) => v,
        None => d,
    }
}

pub open spec fn unwrap_i64(o: Option<i64>, d: i64) -> i64 {
    match o {
        Some(v) => v,
        None => d,
    }
}

/// What `build_regstate` makes of register `reg` printed as `expr`.
#[verifier::opaque]
pub open spec fn regstate_spec(reg: u8, expr0: Seq<char>) -> RegView {
    let e = match strip_legacy_scalar_spec(expr0) {
        Some(r) => r,
        None => expr0,
    };
    match const_int_spec(e) {
        Some(p) => RegView {
            reg,
            reg_type: "scalar"@,
            tnum: Tnum { value: p.0, mask: 0 },
            umin: p.0,
            umax: p.0,
            smin: p.1,
            smax: p.1,
            u32_min: None,
            u32_max: None,
            s32_min: None,
            s32_max: None,
            ptr_off: None,
            bounds_from_log: false,
        },
        None => if scalar_form(e) {
            let vm = match var_off_spec(e) {
                Some(x) => x,
                None => (0u64, u64::MAX),
            };
            RegView {
                reg,
                reg_type: "scalar"@,
                tnum: Tnum { value: vm.0, mask: vm.1 },
                umin: unwrap_u64(field_u64_spec(e, "umin="@), 0),
                umax: unwrap_u64(field_u64_spec(e, "umax="@), u64::MAX),
                smin: unwrap_i64(field_i64_spec(e, "smin="@), i64::MIN),
                smax: unwrap_i64(field_i64_spec(e, "smax="@), i64::MAX),
                u32_min: field_u64_spec(e, "umin32="@),
                u32_max: field_u64_spec(e, "umax32="@),
                s32_min: field_s32_spec(e, "smin32="@),
                s32_max: field_s32_spec(e, "smax32="@),
                ptr_off: None,
                bounds_from_log: bounds_printed(e),
            }
        } else {
            let ty = e.take(type_prefix_end(e, 0));
            let vm = match var_off_spec(e) {
                Some(x) => x,
                None => (unwrap_i64(ptr_field_from(e, "imm="@, 0), 0) as u64, 0u64),
            };
            RegView {
                reg,
                reg_type: if ty.len() == 0 {
                    e
                } else {
                    ty
                },
                tnum: Tnum { value: vm.0, mask: vm.1 },
                umin: unwrap_u64(field_u64_spec(e, "umin="@), 0),
                umax: unwrap_u64(field_u64_spec(e, "umax="@), u64::MAX),
                smin: unwrap_i64(field_i64_spec(e, "smin="@), i64::MIN),
                smax: unwrap_i64(field_i64_spec(e, "smax="@), i64::MAX),
                u32_min: None,
                u32_max: None,
                s32_min: None,
                s32_max: None,
                ptr_off: ptr_field_from(e, "off="@, 0),
                bounds_from_log: false,
            }
        },
    }
}

fn bound_printed(e: &Vec<char>, key: &str, legacy: &str) -> (b: bool)
    ensures
        b == (value_after_key_spec(e@, key@) is Some || value_after_key_spec(e@, legacy@) is Some),
{
    value_after_key(e, key).is_some() || value_after_key(e, legacy).is_some()
}

proof fn lemma_find_from_some(s: Seq<char>, p: Seq<char>, from: int, j: int)
    requires
        0 <= from <= j,
        occurs_at(s, p, j),
    ensures
        find_from(s, p, from) is Some,
    decreases j - from,
{
    if !occurs_at(s, p, from) {
        lemma_find_from_some(s, p, from + 1, j);
    }
}

/// A pattern absent from a text is absent from each of its suffixes.
proof fn lemma_absent_in_suffix(s: Seq<char>, p: Seq<char>, k: int)
    requires
        0 <= k <= s.len(),
        !contains(s, p),
    ensures
        !contains(s.skip(k), p),
{
    if contains(s.skip(k), p) {
        let t = s.skip(k);
        let i = find(t, p)->0;
        lemma_find_from_bounds(t, p, 0);
        assert(s.subrange(i + k, i + k + p.len()) =~= t.subrange(i, i + p.len()));
        lemma_find_from_some(s, p, 0, i + k);
    }
}

/// The expression `build_regstate` interprets once a pre-2022 scalar spelling
/// (`invP`, `inv`) is stripped.
pub open spec fn unlegacy(expr: Seq<char>) -> Seq<char> {
    match strip_legacy_scalar_spec(expr) {
        Some(r) => r,
        None => expr,
    }
}

proof fn lemma_trim_keeps_head(s: Seq<char>)
    requires
        s.len() > 0,
        !crate::text::is_ws(s[0]),
    ensures
        trim(s).len() > 0,
        trim(s)[0] == s[0],
    decreases s.len(),
{
    assert(trim_start(s) == s);
    lemma_trim_end_keeps_head(s);
}

proof fn lemma_trim_end_keeps_head(s: Seq<char>)
    requires
        s.len() > 0,
        !crate::text::is_ws(s[0]),
    ensures
        trim_end(s).len() > 0,
        trim_end(s)[0] == s[0],
    decreases s.len(),
{
    if crate::text::is_ws(s.last()) {
        assert(s.len() > 1);
        let t = s.drop_last();
        assert(t[0] == s[0]);
        lemma_trim_end_keeps_head(t);
    }
}

proof fn lemma_digits_head(s: Seq<char>, radix: nat)
    requires
        s.len() > 0,
        crate::num::digits_val(s, radix) is Some,
    ensures
        crate::text::digit_val(s[0], radix) is Some,
    decreases s.len(),
{
    let t = s.drop_last();
    if t.len() > 0 {
        assert(t[0] == s[0]);
        lemma_digits_head(t, radix);
    }
}

/// An expression in a legacy `inv` spelling is never an integer constant, so
/// stripping that spelling never changes what a constant denotes.
proof fn lemma_constant_is_not_legacy(expr: Seq<char>)
    requires
        const_int_spec(expr) is Some,
    ensures
        unlegacy(expr) == expr,
{
    reveal_strlit("invP");
    reveal_strlit("inv");
    reveal_strlit("0x");
    reveal_strlit("0X");
    reveal_strlit("-0x");
    reveal_strlit("-0X");
    if strip_legacy_scalar_spec(expr) is Some {
        if "invP"@.is_prefix_of(expr) {
            assert(expr.subrange(0, 4)[0] == expr[0]);
        } else {
            assert("inv"@.is_prefix_of(expr));
            assert(expr.subrange(0, 3)[0] == expr[0]);
        }
        assert(expr[0] == 'i');
        lemma_trim_keeps_head(expr);
        let t = trim(expr);
        assert(t[0] == 'i');
        if t.len() >= 2 {
            assert(t.subrange(0, 2)[0] == t[0]);
        }
        if t.len() >= 3 {
            assert(t.subrange(0, 3)[0] == t[0]);
        }
        assert(!"0x"@.is_prefix_of(t) && !"0X"@.is_prefix_of(t));
        assert(!"-0x"@.is_prefix_of(t) && !"-0X"@.is_prefix_of(t));
        assert(crate::text::digit_val('i', 10) is None);
        if crate::num::digits_val(t, 10) is Some {
            lemma_digits_head(t, 10);
        }
        assert(crate::num::parse_i64(t, 10) is None);
        assert(crate::num::parse_u64(t, 10) is None);
        assert(false);
    }
}

/// Parsing never fabricates a malformed tnum: a register printed without a
/// `var_off=(` field gets a tnum whose known and unknown bits are disjoint, and
/// the state is always that of the register it was printed for. An expression
/// that is an integer constant denotes a scalar pinned to that constant, with
/// no 32-bit bounds.
pub proof fn lemma_regstate_never_malformed(reg: u8, expr: Seq<char>)
    ensures
        regstate_spec(reg, expr).reg == reg,
        !contains(expr, "var_off=("@) ==> regstate_spec(reg, expr).tnum.value & regstate_spec(
            reg,
            expr,
        ).tnum.mask == 0,
        const_int_spec(expr) matches Some(p) ==> {
            let r = regstate_spec(reg, expr);
            &&& r.reg_type == "scalar"@
            &&& r.tnum == (Tnum { value: p.0, mask: 0 })
            &&& r.umin == p.0 && r.umax == p.0
            &&& r.smin == p.1 && r.smax == p.1
            &&& r.u32_min is None && r.u32_max is None
            &&& r.s32_min is None && r.s32_max is None
        },
{
    let e = unlegacy(expr);
    let pat = "var_off=("@;
    if const_int_spec(expr) is Some {
        lemma_constant_is_not_legacy(expr);
    }
    assert(regstate_spec(reg, expr).reg == reg) by {
        reveal(regstate_spec);
    }
    if const_int_spec(e) is Some {
        let p = const_int_spec(e)->0;
        let r = regstate_spec(reg, expr);
        assert({
            &&& r.reg_type == "scalar"@
            &&& r.tnum == (Tnum { value: p.0, mask: 0 })
            &&& r.umin == p.0 && r.umax == p.0
            &&& r.smin == p.1 && r.smax == p.1
            &&& r.u32_min is None && r.u32_max is None
            &&& r.s32_min is None && r.s32_max is None
        }) by {
            reveal(regstate_spec);
        }
    }
    if !contains(expr, pat) {
        reveal_strlit("invP");
        reveal_strlit("inv");
        match legacy_scalar_rest(expr, "invP"@) {
            Some(r) => {
                let rest = expr.skip(4);
                lemma_absent_in_suffix(expr, pat, 4);
                if r != rest {
                    lemma_sign_digit_run(rest, 0);
                    lemma_absent_in_suffix(rest, pat, sign_digit_run_end(rest, 0));
                    assert(rest.skip(sign_digit_run_end(rest, 0)) == r);
                }
            },
            None => match legacy_scalar_rest(expr, "inv"@) {
                Some(r) => {
                    let rest = expr.skip(3);
                    lemma_absent_in_suffix(expr, pat, 3);
                    if r != rest {
                        lemma_sign_digit_run(rest, 0);
                        lemma_absent_in_suffix(rest, pat, sign_digit_run_end(rest, 0));
                        assert(rest.skip(sign_digit_run_end(rest, 0)) == r);
                    }
                },
                None => {},
            },
        }
        assert(!contains(e, pat));
        assert(var_off_spec(e) is None);
        assert(forall|x: u64| #[trigger] (x & 0u64) == 0u64) by (bit_vector);
        assert(0u64 & 0xffff_ffff_ffff_ffffu64 == 0u64) by (bit_vector);
        let t = regstate_spec(reg, expr).tnum;
        assert(t.mask == 0 || (t.value == 0 && t.mask == u64::MAX)) by {
            reveal(regstate_spec);
        }
    }
}

/// Interprets a register value expression into a `RegState`.
pub fn build_regstate(reg: u8, expr: &Vec<char>) -> (r: RegState)
    ensures
        reg_view(r) == regstate_spec(reg, expr@),
{
    reveal(regstate_spec);
    let e = match strip_legacy_scalar_prefix(expr) {
        Some(r) => r,
        None => slice_chars(expr, 0, expr.len()),
    };
    proof {
        assert(expr@.subrange(0, expr@.len() as int) =~= expr@);
    }
    match parse_const_int(&e) {
        Some((u, i)) => {
            return RegState {
                reg,
                reg_type: string_from("scalar"),
                tnum: Tnum { value: u, mask: 0 },
                umin: u,
                umax: u,
                smin: i,
                smax: i,
                u32_min: None,
                u32_max: None,
                s32_min: None,
                s32_max: None,
                ptr_off: None,
                bounds_from_log: false,
            };
        },
        None => {},
    }
    let umin = match field_u64(&e, "umin=") {
        Some(v) => v,
        None => 0,
    };
    let umax = match field_u64(&e, "umax=") {
        Some(v) => v,
        None => u64::MAX,
    };
    let smin = match field_i64(&e, "smin=") {
        Some(v) => v,
        None => i64::MIN,
    };
    let smax = match field_i64(&e, "smax=") {
        Some(v) => v,
        None => i64::MAX,
    };
    if e.len() == 0 || eq_lit(&e, "scalar") || starts_with_lit(&e, "scalar(") || starts_with_lit(
        &e,
        "(",
    ) {
        let (value, mask) = match parse_var_off(&e) {
            Some(x) => x,
            None => (0, u64::MAX),
        };
        let from_log = bound_printed(&e, "umin=", "umin_value=") || bound_printed(
            &e,
            "umax=",
            "umax_value=",
        ) || bound_printed(&e, "smin=", "smin_value=") || bound_printed(
            &e,
            "smax=",
            "smax_value=",
        );
        return RegState {
            reg,
            reg_type: string_from("scalar"),
            tnum: Tnum { value, mask },
            umin,
            umax,
            smin,
            smax,
            u32_min: field_u64(&e, "umin32="),
            u32_max: field_u64(&e, "umax32="),
            s32_min: field_s32(&e, "smin32="),
            s32_max: field_s32(&e, "smax32="),
            ptr_off: None,
            bounds_from_log: from_log,
        };
    }
    let mut t: usize = 0;
    while t < e.len() && e[t] != '(' && e[t] != ' '
        invariant
            t <= e@.len(),
            type_prefix_end(e@, t as int) == type_prefix_end(e@, 0),
        decreases e@.len() - t,
    {
        t = t + 1;
    }
    let ty = if t == 0 {
        slice_chars(&e, 0, e.len())
    } else {
        slice_chars(&e, 0, t)
    };
    proof {
        assert(e@.subrange(0, e@.len() as int) =~= e@);
        assert(e@.subrange(0, t as int) =~= e@.take(t as int));
    }
    let (value, mask) = match parse_var_off(&e) {
        Some(x) => x,
        None => {
            let imm = match parse_ptr_field(&e, "imm=") {
                Some(v) => v,
                None => 0,
            };
            (imm as u64, 0)
        },
    };
    RegState {
        reg,
        reg_type: string_of_all(&ty),
        tnum: Tnum { value, mask },
        umin,
        umax,
        smin,
        smax,
        u32_min: None,
        u32_max: None,
        s32_min: None,
        s32_max: None,
        ptr_off: parse_ptr_field(&e, "off="),
        bounds_from_log: false,
    }
}

/// One `R<k>=<expr>` token, or `None` when the name is malformed or the register
/// number does not fit a `u8`.
pub open spec fn reg_token_spec(tok: Seq<char>) -> Option<RegView> {
    match reg_name_len(tok) {
        None => None,
        Some(eq) => match parse_u8(tok.subrange(1, digit_run_end(tok, 1))) {
            None => None,
            Some(reg) => Some(regstate_spec(reg, value_head_spec(trim(tok.skip(eq + 1))))),
        },
    }
}

/// Parses one `R<k>=<expr>` token.
pub fn parse_reg_token(tok: &Vec<char>) -> (r: Option<RegState>)
    ensures
        match reg_token_spec(tok@) {
            Some(w) => r matches Some(x) && reg_view(x) == w,
            None => r is None,
        },
{
    let eq = match reg_token_name_len(tok, 0) {
        Some(e) => e,
        None => {
            proof {
                assert(tok@.skip(0) =~= tok@);
            }
            return None;
        },
    };
    proof {
        assert(tok@.skip(0) =~= tok@);
        lemma_digit_run(tok@, 1);
    }
    let d = digit_run(tok, 1);
    assert(tok@.len() == tok.len());
    let digits = slice_chars(tok, 1, d);
    let reg = match parse_u8_chars(&digits) {
        Some(r) => r,
        None => return None,
    };
    let rest = slice_chars(tok, eq + 1, tok.len());
    proof {
        assert(rest@ =~= tok@.skip(eq + 1));
    }
    let rt = trim_chars(&rest);
    let head = value_head(&rt);
    Some(build_regstate(reg, &head))
}

/// The register states a token list carries, in order.
pub open spec fn token_views(ts: Seq<Seq<char>>) -> Seq<RegView>
    decreases ts.len(),
{
    if ts.len() == 0 {
        seq![]
    } else {
        token_views(ts.drop_last()) + match reg_token_spec(ts.last()) {
            Some(w) => seq![w],
            None => seq![],
        }
    }
}

/// Parses every well-formed register token of a state string.
pub fn parse_reg_tokens(v: &Vec<char>) -> (r: Vec<RegState>)
    ensures
        r@.map_values(|x: RegState| reg_view(x)) == token_views(reg_tokens(v@)),
{
    let toks = split_reg_tokens(v);
    let ghost ts = reg_tokens(v@);
    let mut out: Vec<RegState> = Vec::new();
    let mut i: usize = 0;
    while i < toks.len()
        invariant
            i <= toks@.len(),
            toks@.len() == ts.len(),
            ts == reg_tokens(v@),
            forall|k: int| 0 <= k < toks@.len() ==> #[trigger] toks@[k]@ == ts[k],
            out@.map_values(|x: RegState| reg_view(x)) == token_views(ts.take(i as int)),
        decreases toks@.len() - i,
    {
        proof {
            assert(ts.take(i + 1).drop_last() =~= ts.take(i as int));
            assert(ts.take(i + 1).last() == toks@[i as int]@);
        }
        let ghost before = out@;
        match parse_reg_token(&toks[i]) {
            Some(r) => {
                out.push(r);
                proof {
                    assert(out@.map_values(|x: RegState| reg_view(x)) =~= before.map_values(
                        |x: RegState| reg_view(x),
                    ).push(reg_view(r)));
                }
            },
            None => {},
        }
        proof {
            assert(out@.map_values(|x: RegState| reg_view(x)) =~= token_views(ts.take(i + 1)));
        }
        i = i + 1;
    }
    proof {
        assert(ts.take(ts.len() as int) =~= ts);
    }
    out
}

/// A `frameN:` call-depth prefix removed (with the whitespace after it).
pub open spec fn strip_frame_spec(st: Seq<char>) -> Seq<char> {
    match strip_prefix(st, "frame"@) {
        None => st,
        Some(after) => {
            let d = digit_run_end(after, 0);
            if d == 0 || !(d < after.len() && after[d] == ':') {
                st
            } else {
                trim_start(after.skip(d + 1))
            }
        },
    }
}

/// Strips a `frameN:` call-depth prefix from a state string.
pub fn strip_frame(v: &Vec<char>) -> (r: Vec<char>)
    ensures
        r@ == strip_frame_spec(v@),
{
    proof {
        reveal_strlit("frame");
    }
    if !starts_with_lit(v, "frame") {
        return slice_chars(v, 0, v.len());
    }
    let after = slice_chars(v, 5, v.len());
    proof {
        assert(after@ =~= v@.skip(5));
        lemma_digit_run(after@, 0);
    }
    let d = digit_run(&after, 0);
    if d == 0 || !(d < after.len() && after[d] == ':') {
        proof {
            assert(v@.subrange(0, v@.len() as int) =~= v@);
        }
        return slice_chars(v, 0, v.len());
    }
    let tail = slice_chars(&after, d + 1, after.len());
    proof {
        assert(tail@ =~= after@.skip(d + 1));
    }
    trim_start_chars(&tail)
}

/// The length of the flag prefix (`rdonly_`, `ringbuf_`, `user_`, `percpu_`,
/// `rcu_`, `untrusted_`, `trusted_`) `t` starts with, first match in that order.
pub open spec fn flag_len(t: Seq<char>) -> nat {
    if "rdonly_"@.is_prefix_of(t) {
        7
    } else if "ringbuf_"@.is_prefix_of(t) {
        8
    } else if "user_"@.is_prefix_of(t) {
        5
    } else if "percpu_"@.is_prefix_of(t) {
        7
    } else if "rcu_"@.is_prefix_of(t) {
        4
    } else if "untrusted_"@.is_prefix_of(t) {
        10
    } else if "trusted_"@.is_prefix_of(t) {
        8
    } else {
        0
    }
}

/// Every flag prefix removed, repeatedly.
pub open spec fn strip_flags(t: Seq<char>) -> Seq<char>
    decreases t.len(),
{
    let n = flag_len(t);
    if 0 < n <= t.len() {
        strip_flags(t.skip(n as int))
    } else {
        t
    }
}

/// A reg-type collapsed to its base family.
pub open spec fn base_family_spec(rt: Seq<char>) -> Seq<char> {
    if "fp"@.is_prefix_of(rt) {
        "fp"@
    } else {
        let t = strip_flags(rt);
        if "ptr_"@.is_prefix_of(t) {
            "ptr"@
        } else if "_or_null"@.is_suffix_of(t) {
            t.take(t.len() - 8)
        } else {
            t
        }
    }
}

fn first_flag_exec(t: &Vec<char>) -> (r: usize)
    ensures
        r == flag_len(t@),
        r <= t@.len(),
{
    proof {
        reveal_strlit("rdonly_");
        reveal_strlit("ringbuf_");
        reveal_strlit("user_");
        reveal_strlit("percpu_");
        reveal_strlit("rcu_");
        reveal_strlit("untrusted_");
        reveal_strlit("trusted_");
    }
    if starts_with_lit(t, "rdonly_") {
        7
    } else if starts_with_lit(t, "ringbuf_") {
        8
    } else if starts_with_lit(t, "user_") {
        5
    } else if starts_with_lit(t, "percpu_") {
        7
    } else if starts_with_lit(t, "rcu_") {
        4
    } else if starts_with_lit(t, "untrusted_") {
        10
    } else if starts_with_lit(t, "trusted_") {
        8
    } else {
        0
    }
}

fn ends_with_lit(v: &Vec<char>, lit: &str) -> (b: bool)
    ensures
        b == lit@.is_suffix_of(v@),
{
    let p = chars_of(lit);
    if p.len() > v.len() {
        return false;
    }
    let tail = slice_chars(v, v.len() - p.len(), v.len());
    let b = crate::text::chars_eq(&tail, &p);
    proof {
        if b {
            assert forall|k: int| 0 <= k < p@.len() implies p@[k] == v@[v@.len() - p@.len() + k] by {
                assert(tail@[k] == v@[v@.len() - p@.len() + k]);
            }
        } else if lit@.is_suffix_of(v@) {
            assert(tail@ =~= p@);
        }
    }
    b
}

/// Collapses a verifier reg-type to its base family.
pub fn base_family(rt: &Vec<char>) -> (r: Vec<char>)
    ensures
        r@ == base_family_spec(rt@),
{
    if starts_with_lit(rt, "fp") {
        return chars_of("fp");
    }
    let mut t = slice_chars(rt, 0, rt.len());
    proof {
        assert(rt@.subrange(0, rt@.len() as int) =~= rt@);
    }
    loop
        invariant
            strip_flags(t@) == strip_flags(rt@),
        ensures
            strip_flags(t@) == strip_flags(rt@),
            strip_flags(t@) == t@,
        decreases t@.len(),
    {
        let n = first_flag_exec(&t);
        if n == 0 {
            break;
        }
        let next = slice_chars(&t, n, t.len());
        proof {
            assert(next@ =~= t@.skip(n as int));
        }
        t = next;
    }

    if starts_with_lit(&t, "ptr_") {
        return chars_of("ptr");
    }
    if ends_with_lit(&t, "_or_null") {
        proof {
            reveal_strlit("_or_null");
        }
        let r = slice_chars(&t, 0, t.len() - 8);
        proof {
            assert(r@ =~= t@.take(t@.len() - 8));
        }
        return r;
    }
    t
}

/// A reg-type's family for helper-argument comparison: stack pointers collapse to `fp`.
pub open spec fn reg_family_spec(rt: Seq<char>) -> Seq<char> {
    if "fp"@.is_prefix_of(rt) {
        "fp"@
    } else {
        rt
    }
}

pub fn reg_family(rt: &Vec<char>) -> (r: Vec<char>)
    ensures
        r@ == reg_family_spec(rt@),
{
    if starts_with_lit(rt, "fp") {
        chars_of("fp")
    } else {
        slice_chars(rt, 0, rt.len())
    }
}

} // verus!
