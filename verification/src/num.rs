//! Integer parsing and formatting with the standard library's textual rules.
//!
//! `parse_u64` / `parse_i64` state what `str::parse` and `from_str_radix` accept:
//! an optional sign (`+` for unsigned, `+` or `-` for signed), then at least one
//! digit of the radix, and a value inside the type's range. `dec_str` / `hex_str`
//! state what `{}` and `{:x}` print.
use vstd::prelude::*;
use crate::text::{digit_val, digit_val_exec, is_dec, push_chars};

verus! {

fn string_push_char(s: &mut String, c: char)
    ensures
        final(s)@ == old(s)@.push(c),
{
    let mut v: Vec<char> = Vec::new();
    v.push(c);
    push_chars(s, &v);
    proof {
        assert(v@ =~= seq![c]);
        assert(old(s)@ + seq![c] =~= old(s)@.push(c));
    }
}

/// Value of a sequence made only of digits of `radix` (`None` if any is not one).
pub open spec fn digits_val(s: Seq<char>, radix: nat) -> Option<nat>
    decreases s.len(),
{
    if s.len() == 0 {
        Some(0)
    } else {
        match (digits_val(s.drop_last(), radix), digit_val(s.last(), radix)) {
            (Some(v), Some(d)) => Some(v * radix + d),
            _ => None,
        }
    }
}

/// The unsigned text rule: an optional `+`, then at least one digit.
pub open spec fn parse_unsigned_int(s: Seq<char>, radix: nat) -> Option<nat> {
    let body = if s.len() > 0 && s[0] == '+' {
        s.drop_first()
    } else {
        s
    };
    if body.len() == 0 {
        None
    } else {
        digits_val(body, radix)
    }
}

/// The signed text rule: an optional `+` or `-`, then at least one digit.
pub open spec fn parse_signed_int(s: Seq<char>, radix: nat) -> Option<int> {
    if s.len() > 0 && s[0] == '-' {
        let body = s.drop_first();
        if body.len() == 0 {
            None
        } else {
            match digits_val(body, radix) {
                Some(v) => Some(-(v as int)),
                None => None,
            }
        }
    } else {
        match parse_unsigned_int(s, radix) {
            Some(v) => Some(v as int),
            None => None,
        }
    }
}

/// `u64::from_str_radix(s, radix)` (and `s.parse::<u64>()` for radix 10).
pub open spec fn parse_u64(s: Seq<char>, radix: nat) -> Option<u64> {
    match parse_unsigned_int(s, radix) {
        Some(v) => if v <= u64::MAX {
            Some(v as u64)
        } else {
            None
        },
        None => None,
    }
}

/// `i64::from_str_radix(s, radix)` (and `s.parse::<i64>()` for radix 10).
pub open spec fn parse_i64(s: Seq<char>, radix: nat) -> Option<i64> {
    match parse_signed_int(s, radix) {
        Some(v) => if i64::MIN <= v <= i64::MAX {
            Some(v as i64)
        } else {
            None
        },
        None => None,
    }
}

/// `s.parse::<u32>()`.
pub open spec fn parse_u32(s: Seq<char>) -> Option<u32> {
    match parse_unsigned_int(s, 10) {
        Some(v) => if v <= u32::MAX {
            Some(v as u32)
        } else {
            None
        },
        None => None,
    }
}

/// `s.parse::<u8>()`.
pub open spec fn parse_u8(s: Seq<char>) -> Option<u8> {
    match parse_unsigned_int(s, 10) {
        Some(v) => if v <= u8::MAX {
            Some(v as u8)
        } else {
            None
        },
        None => None,
    }
}

/// `s.parse::<usize>()`.
pub open spec fn parse_usize(s: Seq<char>) -> Option<usize> {
    match parse_unsigned_int(s, 10) {
        Some(v) => if v <= usize::MAX {
            Some(v as usize)
        } else {
            None
        },
        None => None,
    }
}

proof fn lemma_digits_prefix(s: Seq<char>, radix: nat, i: int)
    requires
        0 <= i <= s.len(),
        radix >= 1,
        digits_val(s, radix) is Some,
    ensures
        digits_val(s.take(i), radix) is Some,
        digits_val(s.take(i), radix)->0 <= digits_val(s, radix)->0,
    decreases s.len(),
{
    if i == s.len() {
        assert(s.take(i) =~= s);
    } else {
        let v = digits_val(s.drop_last(), radix)->0;
        let d = digit_val(s.last(), radix)->0;
        assert(v * radix + d >= v) by (nonlinear_arith)
            requires
                radix >= 1,
        ;
        lemma_digits_prefix(s.drop_last(), radix, i);
        assert(s.drop_last().take(i) =~= s.take(i));
    }
}

/// The value of the all-digit sequence `v[lo..hi]`, when it fits in a `u64`.
fn digits_u64(v: &Vec<char>, lo: usize, hi: usize, radix: u32) -> (r: Option<u64>)
    requires
        lo <= hi <= v@.len(),
        radix == 10 || radix == 16,
    ensures
        r == (match digits_val(v@.subrange(lo as int, hi as int), radix as nat) {
            Some(x) => if x <= u64::MAX {
                Some(x as u64)
            } else {
                None
            },
            None => None,
        }),
{
    let ghost s = v@.subrange(lo as int, hi as int);
    let mut acc: u64 = 0;
    let mut i: usize = lo;
    proof {
        assert(s.take(0) =~= Seq::<char>::empty());
    }
    while i < hi
        invariant
            lo <= i <= hi <= v@.len(),
            s == v@.subrange(lo as int, hi as int),
            radix == 10 || radix == 16,
            digits_val(s.take(i - lo), radix as nat) == Some(acc as nat),
        decreases hi - i,
    {
        proof {
            assert(s.take(i - lo + 1).drop_last() =~= s.take(i - lo));
            assert(s.take(i - lo + 1).last() == v@[i as int]);
        }
        let d = match digit_val_exec(v[i], radix) {
            Some(d) => d,
            None => {
                proof {
                    assert(digits_val(s.take(i - lo + 1), radix as nat) is None);
                    if digits_val(s, radix as nat) is Some {
                        lemma_digits_prefix(s, radix as nat, i - lo + 1);
                    }
                }
                return None;
            },
        };
        let wide: u128 = (acc as u128) * (radix as u128) + (d as u128);
        assert(wide == (acc as nat) * (radix as nat) + (d as nat)) by (nonlinear_arith)
            requires
                wide == (acc as u128) * (radix as u128) + (d as u128),
        ;
        if wide > u64::MAX as u128 {
            proof {
                if digits_val(s, radix as nat) is Some {
                    lemma_digits_prefix(s, radix as nat, i - lo + 1);
                }
            }
            return None;
        }
        acc = wide as u64;
        i = i + 1;
    }
    proof {
        assert(s.take(hi - lo) =~= s);
    }
    Some(acc)
}

/// `u64::from_str_radix` on `v[lo..hi]`.
pub fn parse_u64_range(v: &Vec<char>, lo: usize, hi: usize, radix: u32) -> (r: Option<u64>)
    requires
        lo <= hi <= v@.len(),
        radix == 10 || radix == 16,
    ensures
        r == parse_u64(v@.subrange(lo as int, hi as int), radix as nat),
{
    let ghost s = v@.subrange(lo as int, hi as int);
    let mut a = lo;
    if a < hi && v[a] == '+' {
        a = a + 1;
        proof {
            assert(s.drop_first() =~= v@.subrange(a as int, hi as int));
        }
    } else {
        proof {
            assert(s =~= v@.subrange(a as int, hi as int));
        }
    }
    if a == hi {
        return None;
    }
    digits_u64(v, a, hi, radix)
}

/// `u64::from_str_radix` on all of `v`.
pub fn parse_u64_chars(v: &Vec<char>, radix: u32) -> (r: Option<u64>)
    requires
        radix == 10 || radix == 16,
    ensures
        r == parse_u64(v@, radix as nat),
{
    proof {
        assert(v@.subrange(0, v@.len() as int) =~= v@);
    }
    parse_u64_range(v, 0, v.len(), radix)
}

/// `i64::from_str_radix` on `v[lo..hi]`.
pub fn parse_i64_range(v: &Vec<char>, lo: usize, hi: usize, radix: u32) -> (r: Option<i64>)
    requires
        lo <= hi <= v@.len(),
        radix == 10 || radix == 16,
    ensures
        r == parse_i64(v@.subrange(lo as int, hi as int), radix as nat),
{
    let ghost s = v@.subrange(lo as int, hi as int);
    if lo < hi && v[lo] == '-' {
        proof {
            assert(s.drop_first() =~= v@.subrange(lo + 1, hi as int));
        }
        if lo + 1 == hi {
            return None;
        }
        match digits_u64(v, lo + 1, hi, radix) {
            Some(m) => {
                if m <= 0x8000_0000_0000_0000u64 {
                    let r: i64 = if m == 0x8000_0000_0000_0000u64 {
                        i64::MIN
                    } else {
                        -(m as i64)
                    };
                    Some(r)
                } else {
                    None
                }
            },
            None => None,
        }
    } else {
        match parse_u64_range(v, lo, hi, radix) {
            Some(m) => {
                if m <= 0x7fff_ffff_ffff_ffffu64 {
                    Some(m as i64)
                } else {
                    None
                }
            },
            None => None,
        }
    }
}

/// `i64::from_str_radix` on all of `v`.
pub fn parse_i64_chars(v: &Vec<char>, radix: u32) -> (r: Option<i64>)
    requires
        radix == 10 || radix == 16,
    ensures
        r == parse_i64(v@, radix as nat),
{
    proof {
        assert(v@.subrange(0, v@.len() as int) =~= v@);
    }
    parse_i64_range(v, 0, v.len(), radix)
}

/// `s.parse::<u32>()` on all of `v`.
pub fn parse_u32_chars(v: &Vec<char>) -> (r: Option<u32>)
    ensures
        r == parse_u32(v@),
{
    match parse_u64_chars(v, 10) {
        Some(x) => if x <= u32::MAX as u64 {
            Some(x as u32)
        } else {
            None
        },
        None => {
            proof {
                if parse_unsigned_int(v@, 10) is Some {
                    assert(parse_unsigned_int(v@, 10)->0 > u64::MAX);
                }
            }
            None
        },
    }
}

/// `s.parse::<u8>()` on all of `v`.
pub fn parse_u8_chars(v: &Vec<char>) -> (r: Option<u8>)
    ensures
        r == parse_u8(v@),
{
    match parse_u64_chars(v, 10) {
        Some(x) => if x <= u8::MAX as u64 {
            Some(x as u8)
        } else {
            None
        },
        None => None,
    }
}

/// `s.parse::<usize>()` on all of `v`.
pub fn parse_usize_chars(v: &Vec<char>) -> (r: Option<usize>)
    ensures
        r == parse_usize(v@),
{
    match parse_u64_chars(v, 10) {
        Some(x) => if x as u128 <= usize::MAX as u128 {
            Some(x as usize)
        } else {
            None
        },
        None => None,
    }
}

// ---------------------------------------------------------------------------
// Formatting
// ---------------------------------------------------------------------------

pub open spec fn digit_char(d: nat, radix: nat) -> char {
    if d < 10 {
        (('0' as nat) + d) as char
    } else {
        (('a' as nat) + d - 10) as char
    }
}

/// The digits of `n` in `radix`, most significant first, no leading zeros.
pub open spec fn radix_str(n: nat, radix: nat) -> Seq<char>
    decreases n,
{
    if radix < 2 || n < radix {
        seq![digit_char(n, radix)]
    } else {
        proof {
            assert(n / radix < n) by (nonlinear_arith)
                requires
                    radix >= 2,
                    n >= radix,
            ;
        }
        radix_str(n / radix, radix).push(digit_char(n % radix, radix))
    }
}

/// What `{}` prints for an unsigned integer.
pub open spec fn dec_str(n: nat) -> Seq<char> {
    radix_str(n, 10)
}

/// What `{:x}` prints for an unsigned integer.
pub open spec fn hex_str(n: nat) -> Seq<char> {
    radix_str(n, 16)
}

/// What `{}` prints for a signed integer.
pub open spec fn sdec_str(n: int) -> Seq<char> {
    if n < 0 {
        seq!['-'] + dec_str((-n) as nat)
    } else {
        dec_str(n as nat)
    }
}

pub(crate) fn digit_char_exec(d: u64, radix: u64) -> (c: char)
    requires
        d < radix,
        radix == 10 || radix == 16,
    ensures
        c == digit_char(d as nat, radix as nat),
{
    if d < 10 {
        ((('0' as u8) + (d as u8)) as char)
    } else {
        ((('a' as u8) + (d as u8) - 10) as char)
    }
}

/// Appends the `radix` digits of `n`.
pub fn push_radix(s: &mut String, n: u64, radix: u64)
    requires
        radix == 10 || radix == 16,
    ensures
        final(s)@ == old(s)@ + radix_str(n as nat, radix as nat),
    decreases n,
{
    if n >= radix {
        push_radix(s, n / radix, radix);
        let c = digit_char_exec(n % radix, radix);
        string_push_char(s, c);
        proof {
            assert(old(s)@ + radix_str(n as nat, radix as nat) =~= (old(s)@ + radix_str(
                (n / radix) as nat,
                radix as nat,
            )).push(c));
        }
    } else {
        let c = digit_char_exec(n, radix);
        string_push_char(s, c);
        proof {
            assert(old(s)@ + radix_str(n as nat, radix as nat) =~= old(s)@.push(c));
        }
    }
}

/// Appends `n` in decimal.
pub fn push_dec(s: &mut String, n: u64)
    ensures
        final(s)@ == old(s)@ + dec_str(n as nat),
{
    push_radix(s, n, 10);
}

/// Appends `n` in lower-case hexadecimal.
pub fn push_hex(s: &mut String, n: u64)
    ensures
        final(s)@ == old(s)@ + hex_str(n as nat),
{
    push_radix(s, n, 16);
}

/// Appends a signed `n` in decimal.
pub fn push_sdec(s: &mut String, n: i64)
    ensures
        final(s)@ == old(s)@ + sdec_str(n as int),
{
    if n < 0 {
        string_push_char(s, '-');
        let m: u64 = if n == i64::MIN {
            0x8000_0000_0000_0000u64
        } else {
            (-n) as u64
        };
        push_dec(s, m);
        proof {
            assert(old(s)@ + sdec_str(n as int) =~= old(s)@.push('-') + dec_str(m as nat));
        }
    } else {
        push_dec(s, n as u64);
    }
}

/// The decimal text of `n` is non-empty, all digits, and reads back as `n`.
pub(crate) proof fn lemma_dec_digits(n: nat)
    ensures
        digits_val(dec_str(n), 10) == Some(n),
        dec_str(n).len() > 0,
        forall|i: int| 0 <= i < dec_str(n).len() ==> is_dec(#[trigger] dec_str(n)[i]),
    decreases n,
{
    let c = digit_char(n % 10, 10);
    assert(is_dec(c) && digit_val(c, 10) == Some(n % 10));
    if n < 10 {
        assert(dec_str(n) == seq![digit_char(n, 10)]);
        assert(dec_str(n).drop_last() =~= Seq::<char>::empty());
        assert(n % 10 == n);
        assert(digits_val(Seq::<char>::empty(), 10) == Some(0nat));
        assert(digits_val(dec_str(n), 10) == Some(0nat * 10 + n % 10));
    } else {
        lemma_dec_digits(n / 10);
        assert(dec_str(n) == dec_str(n / 10).push(c));
        assert(dec_str(n).drop_last() =~= dec_str(n / 10));
        assert((n / 10) * 10 + n % 10 == n) by (nonlinear_arith);
        assert(digits_val(dec_str(n), 10) == Some((n / 10) * 10 + n % 10));
    }
}

} // verus!
