//! Numeric fields inside a printed register state: integers in the log's
//! spellings, `key=` lookups (with chained `a=b=5` assignments and the pre-2022
//! bound names), `var_off=(v; m)`, and boundary-aware pointer fields.
use vstd::prelude::*;
use crate::text::{
    trim, find, find_from, find_char_from, occurs_at, chars_of, find_chars_from, find_lit,
    find_char, trim_range, slice_chars, starts_with_lit, is_dec,
};
use crate::num::{parse_u64, parse_i64, parse_u64_range, parse_i64_range, parse_u64_chars};

verus! {

/// `s` without the prefix `p`, if it has it.
pub open spec fn strip_prefix(s: Seq<char>, p: Seq<char>) -> Option<Seq<char>> {
    if p.is_prefix_of(s) {
        Some(s.skip(p.len() as int))
    } else {
        None
    }
}

/// An unsigned integer, decimal or `0x`/`0X` hex, surrounding whitespace ignored.
pub open spec fn uint_spec(s0: Seq<char>) -> Option<u64> {
    let s = trim(s0);
    if "0x"@.is_prefix_of(s) || "0X"@.is_prefix_of(s) {
        parse_u64(s.skip(2), 16)
    } else {
        parse_u64(s, 10)
    }
}

/// Two's-complement negation, `i64::MIN` mapping to itself.
pub open spec fn neg_wrap(x: i64) -> i64 {
    if x == i64::MIN {
        x
    } else {
        (-x) as i64
    }
}

/// A bare integer constant: `13`, `-1`, `0xff`, `-0x10`, as (bit pattern, signed value).
pub open spec fn const_int_spec(s0: Seq<char>) -> Option<(u64, i64)> {
    let s = trim(s0);
    if s.len() == 0 {
        None
    } else if "0x"@.is_prefix_of(s) || "0X"@.is_prefix_of(s) {
        match parse_u64(s.skip(2), 16) {
            Some(v) => Some((v, v as i64)),
            None => None,
        }
    } else if "-0x"@.is_prefix_of(s) || "-0X"@.is_prefix_of(s) {
        match parse_i64(s.skip(3), 16) {
            Some(x) => Some((neg_wrap(x) as u64, neg_wrap(x))),
            None => None,
        }
    } else {
        match parse_i64(s, 10) {
            Some(v) => Some((v as u64, v)),
            None => match parse_u64(s, 10) {
                Some(v) => Some((v, v as i64)),
                None => None,
            },
        }
    }
}

fn has_prefix_at(v: &Vec<char>, lo: usize, hi: usize, lit: &str) -> (b: bool)
    requires
        lo <= hi <= v@.len(),
    ensures
        b == lit@.is_prefix_of(v@.subrange(lo as int, hi as int)),
{
    let s = slice_chars(v, lo, hi);
    starts_with_lit(&s, lit)
}

/// Parses an unsigned integer in the log's spellings.
pub fn parse_uint(v: &Vec<char>) -> (r: Option<u64>)
    ensures
        r == uint_spec(v@),
{
    let (a, b) = trim_range(v, 0, v.len());
    proof {
        assert(v@.subrange(0, v@.len() as int) =~= v@);
    }
    let ghost s = v@.subrange(a as int, b as int);
    if has_prefix_at(v, a, b, "0x") || has_prefix_at(v, a, b, "0X") {
        proof {
            reveal_strlit("0x");
            reveal_strlit("0X");
            assert(v@.subrange(a + 2, b as int) =~= s.skip(2));
        }
        parse_u64_range(v, a + 2, b, 16)
    } else {
        parse_u64_range(v, a, b, 10)
    }
}

/// Parses a bare integer constant as (bit pattern, signed value).
pub fn parse_const_int(v: &Vec<char>) -> (r: Option<(u64, i64)>)
    ensures
        r == const_int_spec(v@),
{
    let (a, b) = trim_range(v, 0, v.len());
    proof {
        assert(v@.subrange(0, v@.len() as int) =~= v@);
        reveal_strlit("0x");
        reveal_strlit("0X");
        reveal_strlit("-0x");
        reveal_strlit("-0X");
    }
    let ghost s = v@.subrange(a as int, b as int);
    if a == b {
        return None;
    }
    if has_prefix_at(v, a, b, "0x") || has_prefix_at(v, a, b, "0X") {
        proof {
            assert(v@.subrange(a + 2, b as int) =~= s.skip(2));
        }
        return match parse_u64_range(v, a + 2, b, 16) {
            Some(u) => Some((u, u as i64)),
            None => None,
        };
    }
    if has_prefix_at(v, a, b, "-0x") || has_prefix_at(v, a, b, "-0X") {
        proof {
            assert(v@.subrange(a + 3, b as int) =~= s.skip(3));
        }
        return match parse_i64_range(v, a + 3, b, 16) {
            Some(x) => {
                let n: i64 = if x == i64::MIN {
                    x
                } else {
                    -x
                };
                Some((n as u64, n))
            },
            None => None,
        };
    }
    match parse_i64_range(v, a, b, 10) {
        Some(x) => Some((x as u64, x)),
        None => match parse_u64_range(v, a, b, 10) {
            Some(u) => Some((u, u as i64)),
            None => None,
        },
    }
}

pub open spec fn is_hexish(c: char) -> bool {
    is_dec(c) || ('a' <= c && c <= 'f') || ('A' <= c && c <= 'F') || c == 'x' || c == 'X'
}

pub open spec fn is_wordish(c: char) -> bool {
    is_dec(c) || ('a' <= c && c <= 'z') || ('A' <= c && c <= 'Z') || c == '_'
}

/// The end of the run of `is_hexish` characters starting at `i`.
pub open spec fn hex_run_end(s: Seq<char>, i: int) -> int
    decreases s.len() - i,
{
    if 0 <= i < s.len() && is_hexish(s[i]) {
        hex_run_end(s, i + 1)
    } else {
        i
    }
}

/// The end of the run of `is_wordish` characters starting at `i`.
pub open spec fn word_run_end(s: Seq<char>, i: int) -> int
    decreases s.len() - i,
{
    if 0 <= i < s.len() && is_wordish(s[i]) {
        word_run_end(s, i + 1)
    } else {
        i
    }
}

pub(crate) proof fn lemma_run_ends(s: Seq<char>, i: int)
    requires
        0 <= i <= s.len(),
    ensures
        i <= hex_run_end(s, i) <= s.len(),
        i <= word_run_end(s, i) <= s.len(),
    decreases s.len() - i,
{
    if i < s.len() {
        lemma_run_ends(s, i + 1);
    }
}

/// The numeric token at `pos`, skipping chained `word=` assignments.
pub open spec fn vak_from(s: Seq<char>, pos: int) -> Option<Seq<char>>
    decreases s.len() - pos,
{
    if pos < 0 || pos > s.len() {
        None
    } else if pos < s.len() && (is_dec(s[pos]) || s[pos] == '-') {
        let e0 = if s[pos] == '-' {
            pos + 1
        } else {
            pos
        };
        Some(s.subrange(pos, hex_run_end(s, e0)))
    } else {
        let p2 = word_run_end(s, pos);
        if pos < p2 && p2 < s.len() && s[p2] == '=' {
            vak_from(s, p2 + 1)
        } else {
            None
        }
    }
}

/// The numeric token `key` equals in `s` (first occurrence of `key`).
pub open spec fn value_after_key_spec(s: Seq<char>, key: Seq<char>) -> Option<Seq<char>> {
    match find(s, key) {
        Some(i) => vak_from(s, i + key.len()),
        None => None,
    }
}

fn is_hexish_exec(c: char) -> (b: bool)
    ensures
        b == is_hexish(c),
{
    ('0' <= c && c <= '9') || ('a' <= c && c <= 'f') || ('A' <= c && c <= 'F') || c == 'x' || c
        == 'X'
}

fn is_wordish_exec(c: char) -> (b: bool)
    ensures
        b == is_wordish(c),
{
    ('0' <= c && c <= '9') || ('a' <= c && c <= 'z') || ('A' <= c && c <= 'Z') || c == '_'
}

/// A match found searching from `from` lies at or after `from` and is an occurrence.
pub proof fn lemma_find_from_bounds(s: Seq<char>, p: Seq<char>, from: int)
    ensures
        find_from(s, p, from) matches Some(i) ==> from <= i && occurs_at(s, p, i),
    decreases s.len() + 1 - from,
{
    if 0 <= from <= s.len() && !occurs_at(s, p, from) {
        lemma_find_from_bounds(s, p, from + 1);
    }
}

/// The numeric token `key` equals in `v`.
pub fn value_after_key(v: &Vec<char>, key: &str) -> (r: Option<Vec<char>>)
    ensures
        match value_after_key_spec(v@, key@) {
            Some(t) => r matches Some(x) && x@ == t,
            None => r is None,
        },
{
    let k = chars_of(key);
    proof {
        lemma_find_from_bounds(v@, key@, 0);
    }
    let i = match find_chars_from(v, &k, 0) {
        Some(i) => i,
        None => return None,
    };
    assert(occurs_at(v@, k@, i as int));
    assert(v@.len() == v.len());
    let mut pos = i + k.len();
    loop
        invariant
            i + key@.len() <= pos <= v@.len(),
            value_after_key_spec(v@, key@) == vak_from(v@, pos as int),
        decreases v@.len() - pos,
    {
        proof {
            lemma_run_ends(v@, pos as int);
        }
        if pos < v.len() && (('0' <= v[pos] && v[pos] <= '9') || v[pos] == '-') {
            let start = pos;
            let mut end = pos;
            if v[end] == '-' {
                end = end + 1;
            }
            proof {
                lemma_run_ends(v@, end as int);
            }
            while end < v.len() && is_hexish_exec(v[end])
                invariant
                    start <= end <= v@.len(),
                    hex_run_end(v@, end as int) == hex_run_end(
                        v@,
                        if v@[start as int] == '-' {
                            start + 1
                        } else {
                            start as int
                        },
                    ),
                decreases v@.len() - end,
            {
                end = end + 1;
            }
            return Some(slice_chars(v, start, end));
        }
        let start = pos;
        while pos < v.len() && is_wordish_exec(v[pos])
            invariant
                start <= pos <= v@.len(),
                word_run_end(v@, pos as int) == word_run_end(v@, start as int),
            decreases v@.len() - pos,
        {
            pos = pos + 1;
        }
        if pos > start && pos < v.len() && v[pos] == '=' {
            pos = pos + 1;
        } else {
            return None;
        }
    }
}

/// The pre-2022 spelling of a bound field name.
pub open spec fn legacy_bound_key_spec(key: Seq<char>) -> Option<Seq<char>> {
    if key == "umin="@ {
        Some("umin_value="@)
    } else if key == "umax="@ {
        Some("umax_value="@)
    } else if key == "smin="@ {
        Some("smin_value="@)
    } else if key == "smax="@ {
        Some("smax_value="@)
    } else if key == "umin32="@ {
        Some("u32_min_value="@)
    } else if key == "umax32="@ {
        Some("u32_max_value="@)
    } else if key == "smin32="@ {
        Some("s32_min_value="@)
    } else if key == "smax32="@ {
        Some("s32_max_value="@)
    } else {
        None
    }
}

/// The pre-2022 spelling of a bound field, if `key` has one.
pub fn legacy_bound_key(key: &str) -> (r: Option<&'static str>)
    ensures
        match legacy_bound_key_spec(key@) {
            Some(l) => r matches Some(x) && x@ == l,
            None => r is None,
        },
{
    let k = chars_of(key);
    if crate::text::eq_lit(&k, "umin=") {
        Some("umin_value=")
    } else if crate::text::eq_lit(&k, "umax=") {
        Some("umax_value=")
    } else if crate::text::eq_lit(&k, "smin=") {
        Some("smin_value=")
    } else if crate::text::eq_lit(&k, "smax=") {
        Some("smax_value=")
    } else if crate::text::eq_lit(&k, "umin32=") {
        Some("u32_min_value=")
    } else if crate::text::eq_lit(&k, "umax32=") {
        Some("u32_max_value=")
    } else if crate::text::eq_lit(&k, "smin32=") {
        Some("s32_min_value=")
    } else if crate::text::eq_lit(&k, "smax32=") {
        Some("s32_max_value=")
    } else {
        None
    }
}

/// The token a bound field equals, under the modern or the pre-2022 spelling.
pub open spec fn bound_token_spec(s: Seq<char>, key: Seq<char>) -> Option<Seq<char>> {
    match value_after_key_spec(s, key) {
        Some(t) => Some(t),
        None => match legacy_bound_key_spec(key) {
            Some(l) => value_after_key_spec(s, l),
            None => None,
        },
    }
}

pub fn bound_token(v: &Vec<char>, key: &str) -> (r: Option<Vec<char>>)
    ensures
        match bound_token_spec(v@, key@) {
            Some(t) => r matches Some(x) && x@ == t,
            None => r is None,
        },
{
    match value_after_key(v, key) {
        Some(t) => Some(t),
        None => match legacy_bound_key(key) {
            Some(l) => value_after_key(v, l),
            None => None,
        },
    }
}

pub open spec fn field_u64_spec(s: Seq<char>, key: Seq<char>) -> Option<u64> {
    match bound_token_spec(s, key) {
        Some(t) => uint_spec(t),
        None => None,
    }
}

pub open spec fn field_i64_spec(s: Seq<char>, key: Seq<char>) -> Option<i64> {
    match bound_token_spec(s, key) {
        Some(t) => match const_int_spec(t) {
            Some(p) => Some(p.1),
            None => None,
        },
        None => None,
    }
}

/// A 32-bit signed bound: a hex spelling is the raw 32-bit pattern of the value.
pub open spec fn field_s32_spec(s: Seq<char>, key: Seq<char>) -> Option<i64> {
    match bound_token_spec(s, key) {
        Some(t) => {
            let is_hex = "0x"@.is_prefix_of(t) || "0X"@.is_prefix_of(t) || "-0x"@.is_prefix_of(t);
            match const_int_spec(t) {
                Some(p) => if is_hex {
                    Some(((p.0 as u32) as i32) as i64)
                } else {
                    Some(p.1)
                },
                None => None,
            }
        },
        None => None,
    }
}

pub fn field_u64(v: &Vec<char>, key: &str) -> (r: Option<u64>)
    ensures
        r == field_u64_spec(v@, key@),
{
    match bound_token(v, key) {
        Some(t) => parse_uint(&t),
        None => None,
    }
}

pub fn field_i64(v: &Vec<char>, key: &str) -> (r: Option<i64>)
    ensures
        r == field_i64_spec(v@, key@),
{
    match bound_token(v, key) {
        Some(t) => match parse_const_int(&t) {
            Some((_, i)) => Some(i),
            None => None,
        },
        None => None,
    }
}

pub fn field_s32(v: &Vec<char>, key: &str) -> (r: Option<i64>)
    ensures
        r == field_s32_spec(v@, key@),
{
    match bound_token(v, key) {
        Some(t) => {
            let is_hex = starts_with_lit(&t, "0x") || starts_with_lit(&t, "0X") || starts_with_lit(
                &t,
                "-0x",
            );
            match parse_const_int(&t) {
                Some((u, i)) => if is_hex {
                    Some(((u as u32) as i32) as i64)
                } else {
                    Some(i)
                },
                None => None,
            }
        },
        None => None,
    }
}

/// `var_off=(<value>; <mask>)` -> (value, mask).
pub open spec fn var_off_spec(s: Seq<char>) -> Option<(u64, u64)> {
    match find(s, "var_off=("@) {
        None => None,
        Some(i) => {
            let rest = s.skip(i + 9);
            match find_char_from(rest, ')', 0) {
                None => None,
                Some(c) => {
                    let inner = rest.take(c);
                    match find_char_from(inner, ';', 0) {
                        None => None,
                        Some(k) => {
                            let second = inner.skip(k + 1);
                            let second_part = match find_char_from(second, ';', 0) {
                                Some(q) => second.take(q),
                                None => second,
                            };
                            match (uint_spec(inner.take(k)), uint_spec(second_part)) {
                                (Some(v), Some(m)) => Some((v, m)),
                                _ => None,
                            }
                        },
                    }
                },
            }
        },
    }
}

pub(crate) proof fn lemma_find_char_bounds(s: Seq<char>, c: char, from: int)
    ensures
        find_char_from(s, c, from) matches Some(i) ==> from <= i < s.len() && s[i] == c,
    decreases s.len() - from,
{
    if 0 <= from < s.len() && s[from] != c {
        lemma_find_char_bounds(s, c, from + 1);
    }
}

/// A search from 0 in `s[base..]` is a search from `base` in `s`, shifted.
pub(crate) proof fn lemma_find_char_shift(s: Seq<char>, c: char, base: int, from: int)
    requires
        0 <= base <= from <= s.len(),
    ensures
        find_char_from(s.skip(base), c, from - base) == (match find_char_from(s, c, from) {
            Some(j) => Some(j - base),
            None => None,
        }),
    decreases s.len() - from,
{
    let t = s.skip(base);
    if from < s.len() {
        assert(t[from - base] == s[from]);
        lemma_find_char_shift(s, c, base, from + 1);
    }
}

/// The first index of `c` in `v[lo..hi]`, relative to `lo`, if any.
fn find_char_in(v: &Vec<char>, c: char, lo: usize, hi: usize) -> (r: Option<usize>)
    requires
        lo <= hi <= v@.len(),
    ensures
        r == (match find_char_from(v@.subrange(lo as int, hi as int), c, 0) {
            Some(j) => Some(j as usize),
            None => None::<usize>,
        }),
{
    let s = slice_chars(v, lo, hi);
    proof {
        lemma_find_char_bounds(s@, c, 0);
    }
    find_char(&s, c, 0)
}

/// Parses `var_off=(<value>; <mask>)`.
pub fn parse_var_off(v: &Vec<char>) -> (r: Option<(u64, u64)>)
    ensures
        r == var_off_spec(v@),
{
    proof {
        reveal_strlit("var_off=(");
        lemma_find_from_bounds(v@, "var_off=("@, 0);
    }
    let i = match find_lit(v, "var_off=(") {
        Some(i) => i,
        None => return None,
    };
    assert(occurs_at(v@, "var_off=("@, i as int));
    assert(v@.len() == v.len());
    let start = i + 9;
    let rest = slice_chars(v, start, v.len());
    proof {
        assert(rest@ =~= v@.skip(i + 9));
        lemma_find_char_bounds(rest@, ')', 0);
    }
    let c = match find_char(&rest, ')', 0) {
        Some(c) => c,
        None => return None,
    };
    let inner = slice_chars(&rest, 0, c);
    proof {
        assert(inner@ =~= rest@.take(c as int));
        lemma_find_char_bounds(inner@, ';', 0);
    }
    let k = match find_char(&inner, ';', 0) {
        Some(k) => k,
        None => return None,
    };
    let first = slice_chars(&inner, 0, k);
    let second = slice_chars(&inner, k + 1, inner.len());
    proof {
        assert(first@ =~= inner@.take(k as int));
        assert(second@ =~= inner@.skip(k + 1));
        lemma_find_char_bounds(second@, ';', 0);
    }
    let second_part = match find_char(&second, ';', 0) {
        Some(q) => {
            let p = slice_chars(&second, 0, q);
            proof {
                assert(p@ =~= second@.take(q as int));
            }
            p
        },
        None => second,
    };
    match (parse_uint(&first), parse_uint(&second_part)) {
        (Some(a), Some(b)) => Some((a, b)),
        _ => None,
    }
}

/// Whether `c` ends a pointer field's value.
pub open spec fn is_field_end(c: char) -> bool {
    c == ',' || c == ')' || c == ' '
}

/// The first index at or after `i` holding a field terminator (or the length).
pub open spec fn field_end(s: Seq<char>, i: int) -> int
    decreases s.len() - i,
{
    if 0 <= i < s.len() && !is_field_end(s[i]) {
        field_end(s, i + 1)
    } else {
        i
    }
}

/// A `key=<int>` pointer field, where the key must start the expression or follow
/// `(` or `,` (so `off=` never matches inside `var_off=`).
pub open spec fn ptr_field_from(s: Seq<char>, key: Seq<char>, from: int) -> Option<i64>
    decreases s.len() + 1 - from,
{
    if from < 0 || from > s.len() || key.len() == 0 {
        None
    } else {
        match find_from(s, key, from) {
            None => None,
            Some(at) => if at == 0 || s[at - 1] == '(' || s[at - 1] == ',' {
                let rest = s.skip(at + key.len());
                let end = field_end(rest, 0);
                match const_int_spec(rest.take(end)) {
                    Some(p) => Some(p.1),
                    None => None,
                }
            } else {
                proof {
                    lemma_find_from_bounds(s, key, from);
                }
                ptr_field_from(s, key, at + key.len())
            },
        }
    }
}

pub(crate) proof fn lemma_field_end(s: Seq<char>, i: int)
    requires
        0 <= i <= s.len(),
    ensures
        i <= field_end(s, i) <= s.len(),
    decreases s.len() - i,
{
    if i < s.len() {
        lemma_field_end(s, i + 1);
    }
}

/// Reads one `key=<int>` field out of a pointer's printed state, boundary-aware.
pub fn parse_ptr_field(v: &Vec<char>, key: &str) -> (r: Option<i64>)
    ensures
        r == ptr_field_from(v@, key@, 0),
{
    let k = chars_of(key);
    if k.len() == 0 {
        return None;
    }
    let mut from: usize = 0;
    loop
        invariant
            from <= v@.len(),
            k@ == key@,
            k@.len() > 0,
            ptr_field_from(v@, key@, 0) == ptr_field_from(v@, key@, from as int),
        decreases v@.len() - from,
    {
        proof {
            lemma_find_from_bounds(v@, key@, from as int);
        }
        let at = match find_chars_from(v, &k, from) {
            Some(at) => at,
            None => return None,
        };
        assert(occurs_at(v@, k@, at as int));
        assert(v@.len() == v.len());
        if at == 0 || v[at - 1] == '(' || v[at - 1] == ',' {
            let rest = slice_chars(v, at + k.len(), v.len());
            proof {
                assert(rest@ =~= v@.skip(at + key@.len()));
                lemma_field_end(rest@, 0);
            }
            let mut end: usize = 0;
            while end < rest.len() && !(rest[end] == ',' || rest[end] == ')' || rest[end] == ' ')
                invariant
                    end <= rest@.len(),
                    field_end(rest@, end as int) == field_end(rest@, 0),
                decreases rest@.len() - end,
            {
                end = end + 1;
            }
            let head = slice_chars(&rest, 0, end);
            proof {
                assert(head@ =~= rest@.take(end as int));
            }
            return match parse_const_int(&head) {
                Some((_, i)) => Some(i),
                None => None,
            };
        }
        if at + k.len() > v.len() {
            return None;
        }
        from = at + k.len();
    }
}

/// The run of ASCII digits starting at `i`.
pub open spec fn digit_run_end(s: Seq<char>, i: int) -> int
    decreases s.len() - i,
{
    if 0 <= i < s.len() && is_dec(s[i]) {
        digit_run_end(s, i + 1)
    } else {
        i
    }
}

pub(crate) proof fn lemma_digit_run(s: Seq<char>, i: int)
    requires
        0 <= i <= s.len(),
    ensures
        i <= digit_run_end(s, i) <= s.len(),
        forall|k: int| i <= k < digit_run_end(s, i) ==> is_dec(#[trigger] s[k]),
        digit_run_end(s, i) < s.len() ==> !is_dec(s[digit_run_end(s, i)]),
    decreases s.len() - i,
{
    if i < s.len() && is_dec(s[i]) {
        lemma_digit_run(s, i + 1);
    }
}

/// The unsigned decimal number immediately after the first `key` in `s`.
pub open spec fn num_after_spec(s: Seq<char>, key: Seq<char>) -> Option<u64> {
    match find(s, key) {
        Some(i) => {
            let start = i + key.len();
            parse_u64(s.subrange(start, digit_run_end(s, start)), 10)
        },
        None => None,
    }
}

pub fn digit_run(v: &Vec<char>, i: usize) -> (e: usize)
    requires
        i <= v@.len(),
    ensures
        e == digit_run_end(v@, i as int),
{
    let mut e = i;
    proof {
        lemma_digit_run(v@, i as int);
    }
    while e < v.len() && '0' <= v[e] && v[e] <= '9'
        invariant
            i <= e <= v@.len(),
            digit_run_end(v@, e as int) == digit_run_end(v@, i as int),
        decreases v@.len() - e,
    {
        e = e + 1;
    }
    e
}

/// Parses the leading unsigned integer immediately after `key`.
pub fn num_after(v: &Vec<char>, key: &str) -> (r: Option<u64>)
    ensures
        r == num_after_spec(v@, key@),
{
    let k = chars_of(key);
    proof {
        lemma_find_from_bounds(v@, key@, 0);
    }
    match find_chars_from(v, &k, 0) {
        Some(i) => {
            assert(occurs_at(v@, k@, i as int));
            assert(v@.len() == v.len());
            let start = i + k.len();
            let e = digit_run(v, start);
            proof {
                lemma_digit_run(v@, start as int);
            }
            parse_u64_range(v, start, e, 10)
        },
        None => None,
    }
}

} // verus!
