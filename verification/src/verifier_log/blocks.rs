//! Block structure of the harness output: per-program blocks, their labels, and
//! the repair of kernel console lines spliced into the serial capture.
use vstd::prelude::*;
use crate::text::{
    lines, strip_cr, words, chars_of, slice_chars, starts_with_lit, lines_of, is_dec, words_of,
};
use crate::verifier_log::fields::{strip_prefix, digit_run_end, lemma_digit_run, digit_run};

verus! {

// ---------------------------------------------------------------------------
// Blocks
// ---------------------------------------------------------------------------

/// Folds the text's lines into blocks: a `===PROG ` line opens a new block, and
/// lines before the first one belong to none.
pub open spec fn blocks_acc(ls: Seq<Seq<char>>) -> (Seq<Seq<Seq<char>>>, Option<Seq<Seq<char>>>)
    decreases ls.len(),
{
    if ls.len() == 0 {
        (seq![], None)
    } else {
        let (bs, cur) = blocks_acc(ls.drop_last());
        let line = ls.last();
        if "===PROG "@.is_prefix_of(line) {
            (
                match cur {
                    Some(b) => bs.push(b),
                    None => bs,
                },
                Some(seq![strip_cr(line)]),
            )
        } else {
            match cur {
                Some(b) => (bs, Some(b.push(strip_cr(line)))),
                None => (bs, None),
            }
        }
    }
}

/// The per-program blocks of the harness output, each as its lines.
pub open spec fn blocks_spec(text: Seq<char>) -> Seq<Seq<Seq<char>>> {
    let (bs, cur) = blocks_acc(lines(text));
    match cur {
        Some(b) => bs.push(b),
        None => bs,
    }
}

pub open spec fn lines_view(ls: Seq<Vec<char>>) -> Seq<Seq<char>> {
    ls.map_values(|l: Vec<char>| l@)
}

pub open spec fn blocks_view(bs: Seq<Vec<Vec<char>>>) -> Seq<Seq<Seq<char>>> {
    bs.map_values(|b: Vec<Vec<char>>| lines_view(b@))
}

fn strip_cr_exec(l: &Vec<char>) -> (r: Vec<char>)
    ensures
        r@ == strip_cr(l@),
{
    if l.len() > 0 && l[l.len() - 1] == '\r' {
        let r = slice_chars(l, 0, l.len() - 1);
        proof {
            assert(r@ =~= l@.drop_last());
        }
        r
    } else {
        slice_chars(l, 0, l.len())
    }
}

/// Splits the harness output into per-program blocks.
pub fn split_blocks(text: &Vec<char>) -> (r: Vec<Vec<Vec<char>>>)
    ensures
        blocks_view(r@) == blocks_spec(text@),
{
    let ls = lines_of(text);
    let ghost lv = lines(text@);
    proof {
        assert(lines_view(ls@) =~= lv);
    }
    let mut blocks: Vec<Vec<Vec<char>>> = Vec::new();
    let mut cur: Option<Vec<Vec<char>>> = None;
    let mut i: usize = 0;
    while i < ls.len()
        invariant
            i <= ls@.len(),
            lines_view(ls@) == lv,
            (blocks_view(blocks@), match cur {
                Some(b) => Some(lines_view(b@)),
                None => None,
            }) == blocks_acc(lv.take(i as int)),
        decreases ls@.len() - i,
    {
        proof {
            assert(lv.take(i + 1).drop_last() =~= lv.take(i as int));
            assert(lv.take(i + 1).last() == ls@[i as int]@);
        }
        let line = &ls[i];
        let ghost before = blocks@;
        if starts_with_lit(line, "===PROG ") {
            match cur {
                Some(b) => {
                    blocks.push(b);
                    proof {
                        assert(blocks_view(blocks@) =~= blocks_view(before).push(lines_view(b@)));
                    }
                },
                None => {},
            }
            let mut nb: Vec<Vec<char>> = Vec::new();
            nb.push(strip_cr_exec(line));
            proof {
                assert(lines_view(nb@) =~= seq![strip_cr(line@)]);
            }
            cur = Some(nb);
        } else {
            match cur {
                Some(mut b) => {
                    let ghost bb = b@;
                    b.push(strip_cr_exec(line));
                    proof {
                        assert(lines_view(b@) =~= lines_view(bb).push(strip_cr(line@)));
                    }
                    cur = Some(b);
                },
                None => {
                    cur = None;
                },
            }
        }
        i = i + 1;
    }
    proof {
        assert(lv.take(lv.len() as int) =~= lv);
    }
    let ghost before = blocks@;
    match cur {
        Some(b) => {
            blocks.push(b);
            proof {
                assert(blocks_view(blocks@) =~= blocks_view(before).push(lines_view(b@)));
            }
        },
        None => {},
    }
    blocks
}

/// The `===PROG <name> ...` label of a block, `?` without a name, `block` when the
/// first line is not a program header.
pub open spec fn label_spec(block: Seq<Seq<char>>) -> Seq<char> {
    if block.len() == 0 {
        "block"@
    } else {
        match strip_prefix(block[0], "===PROG "@) {
            Some(r) => if words(r).len() > 0 {
                words(r)[0]
            } else {
                "?"@
            },
            None => "block"@,
        }
    }
}

pub fn block_label(block: &Vec<Vec<char>>) -> (r: Vec<char>)
    ensures
        r@ == label_spec(lines_view(block@)),
{
    if block.len() == 0 {
        return chars_of("block");
    }
    proof {
        assert(lines_view(block@)[0] == block@[0]@);
        reveal_strlit("===PROG ");
    }
    if !starts_with_lit(&block[0], "===PROG ") {
        return chars_of("block");
    }
    let rest = slice_chars(&block[0], 8, block[0].len());
    proof {
        assert(rest@ =~= block@[0]@.skip(8));
    }
    let ws = words_of(&rest);
    if ws.len() > 0 {
        slice_chars(&ws[0], 0, ws[0].len())
    } else {
        chars_of("?")
    }
}

// ---------------------------------------------------------------------------
// Console interleaving
// ---------------------------------------------------------------------------

/// The end of the run of spaces starting at `i`.
pub open spec fn space_run_end(s: Seq<char>, i: int) -> int
    decreases s.len() - i,
{
    if 0 <= i < s.len() && s[i] == ' ' {
        space_run_end(s, i + 1)
    } else {
        i
    }
}

proof fn lemma_space_run(s: Seq<char>, i: int)
    requires
        0 <= i <= s.len(),
    ensures
        i <= space_run_end(s, i) <= s.len(),
    decreases s.len() - i,
{
    if i < s.len() {
        lemma_space_run(s, i + 1);
    }
}

/// A console timestamp `[<spaces><secs>.<6 digits>]` starts at `i`.
pub open spec fn ts_at(s: Seq<char>, i: int) -> bool {
    &&& 0 <= i < s.len()
    &&& s[i] == '['
    &&& {
        let j1 = space_run_end(s, i + 1);
        let j2 = digit_run_end(s, j1);
        &&& j2 > j1
        &&& j2 < s.len()
        &&& s[j2] == '.'
        &&& {
            let j3 = digit_run_end(s, j2 + 1);
            j3 - (j2 + 1) == 6 && j3 < s.len() && s[j3] == ']'
        }
    }
}

/// The first console timestamp at or after `i`.
pub open spec fn ts_from(s: Seq<char>, i: int) -> Option<int>
    decreases s.len() - i,
{
    if i < 0 || i >= s.len() {
        None
    } else if ts_at(s, i) {
        Some(i)
    } else {
        ts_from(s, i + 1)
    }
}

pub open spec fn console_ts(s: Seq<char>) -> Option<int> {
    ts_from(s, 0)
}

proof fn lemma_ts_from(s: Seq<char>, i: int)
    ensures
        ts_from(s, i) matches Some(k) ==> i <= k < s.len(),
    decreases s.len() - i,
{
    if 0 <= i < s.len() && !ts_at(s, i) {
        lemma_ts_from(s, i + 1);
    }
}

fn ts_at_exec(v: &Vec<char>, i: usize) -> (b: bool)
    requires
        i < v@.len(),
    ensures
        b == ts_at(v@, i as int),
{
    if v[i] != '[' {
        return false;
    }
    assert(v@.len() == v.len());
    let mut j = i + 1;
    proof {
        lemma_space_run(v@, i + 1);
    }
    while j < v.len() && v[j] == ' '
        invariant
            i + 1 <= j <= v@.len(),
            space_run_end(v@, j as int) == space_run_end(v@, i + 1),
        decreases v@.len() - j,
    {
        j = j + 1;
    }
    let j1 = j;
    proof {
        lemma_digit_run(v@, j1 as int);
    }
    let j2 = digit_run(v, j1);
    if !(j2 > j1 && j2 < v.len() && v[j2] == '.') {
        return false;
    }
    proof {
        lemma_digit_run(v@, j2 + 1);
    }
    let j3 = digit_run(v, j2 + 1);
    j3 - (j2 + 1) == 6 && j3 < v.len() && v[j3] == ']'
}

/// Index of a kernel console timestamp in `line`, if any.
pub fn console_timestamp_at(v: &Vec<char>) -> (r: Option<usize>)
    ensures
        match console_ts(v@) {
            Some(k) => r == Some(k as usize) && 0 <= k < v@.len(),
            None => r is None,
        },
{
    proof {
        lemma_ts_from(v@, 0);
    }
    let mut i: usize = 0;
    while i < v.len()
        invariant
            i <= v@.len(),
            console_ts(v@) == ts_from(v@, i as int),
        decreases v@.len() - i,
    {
        if ts_at_exec(v, i) {
            return Some(i);
        }
        i = i + 1;
    }
    None
}

/// Gathers the continuation of a split line from `j` on: whole console lines are
/// skipped, a further split contributes its prefix, the first clean line ends it.
/// Returns the joined text and the next unread index.
pub open spec fn join_from(ls: Seq<Seq<char>>, j: int, acc: Seq<char>) -> (Seq<char>, int)
    decreases ls.len() - j,
{
    if j < 0 || j >= ls.len() {
        (acc, j)
    } else {
        match console_ts(ls[j]) {
            Some(c) => if c == 0 {
                join_from(ls, j + 1, acc)
            } else {
                join_from(ls, j + 1, acc + ls[j].take(c))
            },
            None => (acc + ls[j], j + 1),
        }
    }
}

/// Joining never moves backwards and never reads past the last line.
pub proof fn lemma_join_from(ls: Seq<Seq<char>>, j: int, acc: Seq<char>)
    requires
        0 <= j,
    ensures
        join_from(ls, j, acc).1 >= j,
        j <= ls.len() ==> join_from(ls, j, acc).1 <= ls.len(),
    decreases ls.len() - j,
{
    if j < ls.len() {
        match console_ts(ls[j]) {
            Some(c) => if c == 0 {
                lemma_join_from(ls, j + 1, acc);
            } else {
                lemma_join_from(ls, j + 1, acc + ls[j].take(c));
            },
            None => {},
        }
    }
}

/// Lines from `i` on with console splices mended: (repaired lines, splices).
pub open spec fn repair_from(ls: Seq<Seq<char>>, i: int) -> (Seq<Seq<char>>, nat)
    decreases ls.len() - i,
{
    if i < 0 || i >= ls.len() {
        (seq![], 0)
    } else {
        match console_ts(ls[i]) {
            Some(cut) => if cut == 0 {
                repair_from(ls, i + 1)
            } else {
                let (joined, j) = join_from(ls, i + 1, ls[i].take(cut));
                proof {
                    lemma_join_from(ls, i + 1, ls[i].take(cut));
                }
                let (rest, n) = repair_from(ls, j);
                (seq![joined] + rest, n + 1)
            },
            None => {
                let (rest, n) = repair_from(ls, i + 1);
                (seq![ls[i]] + rest, n)
            },
        }
    }
}

/// The block's lines with console lines dropped and spliced lines rejoined.
pub open spec fn repair_spec(ls: Seq<Seq<char>>) -> (Seq<Seq<char>>, nat) {
    repair_from(ls, 0)
}

fn push_all(dst: &mut Vec<char>, src: &Vec<char>, n: usize)
    requires
        n <= src@.len(),
    ensures
        final(dst)@ == old(dst)@ + src@.take(n as int),
{
    let ghost d0 = dst@;
    let mut k: usize = 0;
    while k < n
        invariant
            k <= n,
            n <= src@.len(),
            dst@ == d0 + src@.take(k as int),
        decreases n - k,
    {
        dst.push(src[k]);
        proof {
            assert(dst@ =~= d0 + src@.take(k + 1));
        }
        k = k + 1;
    }
}

/// Rejoins console-split lines and drops whole console lines; returns the repaired
/// lines and how many splices were mended.
pub fn repair_console_interleaving(ls: &Vec<Vec<char>>) -> (r: (Vec<Vec<char>>, usize))
    ensures
        lines_view(r.0@) == repair_spec(lines_view(ls@)).0,
        r.1 == repair_spec(lines_view(ls@)).1,
{
    let ghost lv = lines_view(ls@);
    let mut out: Vec<Vec<char>> = Vec::new();
    let mut repairs: usize = 0;
    let mut i: usize = 0;
    proof {
        assert(lines_view(out@) =~= Seq::<Seq<char>>::empty());
    }
    while i < ls.len()
        invariant
            i <= ls@.len(),
            lv == lines_view(ls@),
            lines_view(out@) + repair_from(lv, i as int).0 == repair_spec(lv).0,
            repairs + repair_from(lv, i as int).1 == repair_spec(lv).1,
            repairs <= i,
        decreases ls@.len() - i,
    {
        let line = &ls[i];
        proof {
            assert(lv[i as int] == line@);
        }
        match console_timestamp_at(line) {
            Some(cut) => {
                assert(line@.len() == line.len());
                if cut == 0 {
                    i = i + 1;
                } else {
                    let mut joined = slice_chars(line, 0, cut);
                    proof {
                        assert(joined@ =~= line@.take(cut as int));
                    }
                    let mut j = i + 1;
                    loop
                        invariant_except_break
                            join_from(lv, i + 1, lv[i as int].take(cut as int)) == join_from(
                                lv,
                                j as int,
                                joined@,
                            ),
                        invariant
                            i + 1 <= j <= ls@.len(),
                            lv == lines_view(ls@),
                        ensures
                            join_from(lv, i + 1, lv[i as int].take(cut as int)) == (
                                joined@,
                                j as int,
                            ),
                            i + 1 <= j <= ls@.len(),
                        decreases ls@.len() - j,
                    {
                        if j >= ls.len() {
                            break;
                        }
                        let next = &ls[j];
                        proof {
                            assert(lv[j as int] == next@);
                        }
                        assert(next@.len() == next.len());
                        match console_timestamp_at(next) {
                            Some(c) => {
                                if c == 0 {
                                    j = j + 1;
                                } else {
                                    push_all(&mut joined, next, c);
                                    j = j + 1;
                                }
                            },
                            None => {
                                let n = next.len();
                                push_all(&mut joined, next, n);
                                proof {
                                    assert(next@.take(n as int) =~= next@);
                                }
                                j = j + 1;
                                break;
                            },
                        }
                    }
                    let ghost before = out@;
                    out.push(joined);
                    proof {
                        assert(lines_view(out@) =~= lines_view(before).push(joined@));
                        assert(lines_view(out@) + repair_from(lv, j as int).0 =~= lines_view(before)
                            + repair_from(lv, i as int).0);
                    }
                    repairs = repairs + 1;
                    i = j;
                }
            },
            None => {
                let ghost before = out@;
                out.push(slice_chars(line, 0, line.len()));
                proof {
                    assert(line@.subrange(0, line@.len() as int) =~= line@);
                    assert(lines_view(out@) =~= lines_view(before).push(line@));
                    assert(lines_view(out@) + repair_from(lv, i + 1).0 =~= lines_view(before)
                        + repair_from(lv, i as int).0);
                }
                i = i + 1;
            },
        }
    }
    proof {
        assert(lines_view(out@) =~= repair_spec(lv).0);
    }
    (out, repairs)
}

} // verus!
