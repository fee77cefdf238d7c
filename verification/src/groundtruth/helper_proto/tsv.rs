//! The committed TSV slice of helper contracts, so that checks need no kernel
//! tree: one `helper <TAB> arg_index <TAB> arg_type <TAB> expected_regtype` line
//! per contract; `#` lines and blank lines are ignored.
use vstd::prelude::*;
use crate::groundtruth::helper_proto::{
    ekey, key_lt, lemma_key_order, lemma_table_at, sorted, table, tsv_lines, Entry, HelperProtoModel,
};
use crate::groundtruth::helper_proto::extract::{apply_regtypes, apply_types};
use crate::num::{dec_str, lemma_dec_digits, parse_u8, parse_u8_chars};
use crate::text::{
    chars_of, digit_val, is_dec, is_ws, lines, lines_acc, lines_of, slice_chars, string_of_all, trim,
    trim_chars,
};

verus! {

/// Left-to-right splitting on `c`: the finished pieces and the piece in progress.
pub open spec fn split_acc(s: Seq<char>, c: char) -> (Seq<Seq<char>>, Seq<char>)
    decreases s.len(),
{
    if s.len() == 0 {
        (Seq::empty(), Seq::empty())
    } else {
        let (ps, cur) = split_acc(s.drop_last(), c);
        if s.last() == c {
            (ps.push(cur), Seq::empty())
        } else {
            (ps, cur.push(s.last()))
        }
    }
}

/// The pieces of `s` between occurrences of `c` (what `str::split(c)` yields).
pub open spec fn split_on(s: Seq<char>, c: char) -> Seq<Seq<char>> {
    split_acc(s, c).0.push(split_acc(s, c).1)
}

/// The contract one TSV line declares: `(helper, arg_index, arg_type, regtype)`,
/// or nothing for a blank line, a `#` comment, fewer than four columns or an
/// argument index that is not a `u8`. Every column is trimmed.
pub open spec fn tsv_row(line: Seq<char>) -> Option<(Seq<char>, u8, Seq<char>, Seq<char>)> {
    let t = trim(line);
    if t.len() == 0 || t[0] == '#' {
        None
    } else {
        let cols = split_on(t, '\t');
        if cols.len() < 4 {
            None
        } else {
            match parse_u8(trim(cols[1])) {
                Some(i) => Some((trim(cols[0]), i, trim(cols[2]), trim(cols[3]))),
                None => None,
            }
        }
    }
}

/// The contracts of the lines `ls`, in order.
pub open spec fn tsv_rows(ls: Seq<Seq<char>>) -> Seq<(Seq<char>, u8, Seq<char>, Seq<char>)>
    decreases ls.len(),
{
    if ls.len() == 0 {
        Seq::empty()
    } else {
        match tsv_row(ls.last()) {
            Some(r) => tsv_rows(ls.drop_last()).push(r),
            None => tsv_rows(ls.drop_last()),
        }
    }
}

/// `str::split(c)` of `v`.
fn split_chars(v: &Vec<char>, c: char) -> (r: Vec<Vec<char>>)
    ensures
        r@.len() == split_on(v@, c).len(),
        forall|k: int| 0 <= k < r@.len() ==> #[trigger] r@[k]@ == split_on(v@, c)[k],
{
    let mut ps: Vec<Vec<char>> = Vec::new();
    let mut cur: Vec<char> = Vec::new();
    let mut i: usize = 0;
    while i < v.len()
        invariant
            i <= v@.len(),
            ps@.len() == split_acc(v@.take(i as int), c).0.len(),
            forall|k: int| 0 <= k < ps@.len() ==> #[trigger] ps@[k]@ == split_acc(
                v@.take(i as int),
                c,
            ).0[k],
            cur@ == split_acc(v@.take(i as int), c).1,
        decreases v.len() - i,
    {
        proof {
            assert(v@.take(i + 1).drop_last() =~= v@.take(i as int));
            assert(v@.take(i + 1).last() == v@[i as int]);
        }
        if v[i] == c {
            ps.push(cur);
            cur = Vec::new();
        } else {
            cur.push(v[i]);
        }
        i = i + 1;
    }
    proof {
        assert(v@.take(v@.len() as int) =~= v@);
    }
    ps.push(cur);
    ps
}

fn tsv_row_exec(line: &Vec<char>) -> (r: Option<(Vec<char>, u8, Vec<char>, Vec<char>)>)
    ensures
        match r {
            Some(x) => tsv_row(line@) == Some((x.0@, x.1, x.2@, x.3@)),
            None => tsv_row(line@) is None,
        },
{
    let t = trim_chars(line);
    if t.len() == 0 || t[0] == '#' {
        return None;
    }
    let cols = split_chars(&t, '\t');
    if cols.len() < 4 {
        return None;
    }
    let idx_col = trim_chars(&cols[1]);
    match parse_u8_chars(&idx_col) {
        Some(i) => Some((trim_chars(&cols[0]), i, trim_chars(&cols[2]), trim_chars(&cols[3]))),
        None => None,
    }
}

impl HelperProtoModel {
    /// Loads the contracts of a TSV slice: each well-formed line sets its
    /// argument's arg_type and expected reg-type family, later lines overriding
    /// earlier ones. The expected values come from the text, never the caller.
    pub fn from_tsv(text: &str) -> (m: Self)
        ensures
            m.contracts_map() == apply_types(Map::empty(), tsv_rows(lines(text@))),
            m.regtypes_map() == apply_regtypes(Map::empty(), tsv_rows(lines(text@))),
    {
        let v = chars_of(text);
        let ls = lines_of(&v);
        let ghost all = lines(text@);
        let mut m = HelperProtoModel::new();
        let mut i: usize = 0;
        while i < ls.len()
            invariant
                i <= ls@.len(),
                ls@.len() == all.len(),
                forall|k: int| 0 <= k < ls@.len() ==> #[trigger] ls@[k]@ == all[k],
                m.contracts_map() == apply_types(Map::empty(), tsv_rows(all.take(i as int))),
                m.regtypes_map() == apply_regtypes(Map::empty(), tsv_rows(all.take(i as int))),
            decreases ls.len() - i,
        {
            proof {
                assert(all.take(i + 1).drop_last() =~= all.take(i as int));
                assert(all.take(i + 1).last() == all[i as int]);
            }
            match tsv_row_exec(&ls[i]) {
                Some(x) => {
                    let h = string_of_all(&x.0);
                    let a = string_of_all(&x.2);
                    let r = string_of_all(&x.3);
                    m.insert_both(h.as_str(), x.1, a.as_str(), r.as_str());
                    proof {
                        let prev = tsv_rows(all.take(i as int));
                        let next = tsv_rows(all.take(i + 1));
                        assert(next == prev.push((x.0@, x.1, x.2@, x.3@)));
                        assert(next.drop_last() =~= prev);
                    }
                },
                None => {},
            }
            i = i + 1;
        }
        proof {
            assert(all.take(all.len() as int) =~= all);
        }
        m
    }
}

/// The model as the committed TSV slice: one line per contract that also has a
/// reg-type family, in key order (see [`HelperProtoModel::tsv`]).
pub fn to_tsv(model: &HelperProtoModel) -> (s: String)
    ensures
        s@ == tsv_lines(model.contract_list(), model.regtypes_map()),
        sorted(model.contract_list()),
        table(model.contract_list()) == model.contracts_map(),
{
    model.tsv()
}

// ---------------------------------------------------------------------------
// Writing the slice and reading it back
// ---------------------------------------------------------------------------

/// A field that survives a TSV line unchanged: non-empty, no surrounding
/// whitespace, and no tab or line break inside.
pub open spec fn clean_field(s: Seq<char>) -> bool {
    &&& s.len() > 0
    &&& !is_ws(s[0])
    &&& !is_ws(s.last())
    &&& forall|i: int| 0 <= i < s.len() ==> (#[trigger] s[i]) != '\t' && s[i] != '\n'
}

proof fn lemma_clean_trim(s: Seq<char>)
    requires
        s.len() > 0,
        !is_ws(s[0]),
        !is_ws(s.last()),
    ensures
        trim(s) == s,
{
}

proof fn lemma_split_plain(s: Seq<char>, u: Seq<char>, c: char)
    requires
        forall|i: int| 0 <= i < u.len() ==> (#[trigger] u[i]) != c,
    ensures
        split_acc(s + u, c) == (split_acc(s, c).0, split_acc(s, c).1 + u),
    decreases u.len(),
{
    if u.len() == 0 {
        assert(s + u =~= s);
        assert(split_acc(s, c).1 + u =~= split_acc(s, c).1);
    } else {
        let w = u.drop_last();
        lemma_split_plain(s, w, c);
        assert((s + u).drop_last() =~= s + w);
        assert((s + u).last() == u.last());
        assert(split_acc(s, c).1 + u =~= (split_acc(s, c).1 + w).push(u.last()));
    }
}

proof fn lemma_lines_plain(s: Seq<char>, u: Seq<char>)
    requires
        forall|i: int| 0 <= i < u.len() ==> (#[trigger] u[i]) != '\n',
    ensures
        lines_acc(s + u) == (lines_acc(s).0, lines_acc(s).1 + u),
    decreases u.len(),
{
    if u.len() == 0 {
        assert(s + u =~= s);
        assert(lines_acc(s).1 + u =~= lines_acc(s).1);
    } else {
        let w = u.drop_last();
        lemma_lines_plain(s, w);
        assert((s + u).drop_last() =~= s + w);
        assert((s + u).last() == u.last());
        assert(lines_acc(s).1 + u =~= (lines_acc(s).1 + w).push(u.last()));
    }
}


/// The TSV line of one contract: `helper \t arg_index \t arg_type \t regtype`.
pub open spec fn row_line(h: Seq<char>, d: u8, a: Seq<char>, r: Seq<char>) -> Seq<char> {
    h + "\t"@ + dec_str(d as nat) + "\t"@ + a + "\t"@ + r
}

proof fn lemma_row_line(h: Seq<char>, d: u8, a: Seq<char>, r: Seq<char>)
    requires
        clean_field(h),
        clean_field(a),
        clean_field(r),
        h[0] != '#',
    ensures
        tsv_row(row_line(h, d, a, r)) == Some((h, d, a, r)),
        forall|i: int|
            0 <= i < row_line(h, d, a, r).len() ==> (#[trigger] row_line(h, d, a, r)[i]) != '\n',
        !is_ws(row_line(h, d, a, r).last()),
{
    reveal_strlit("\t");
    let t = seq!['\t'];
    assert("\t"@ == t);
    let ds = dec_str(d as nat);
    lemma_dec_digits(d as nat);
    let l1 = h + t;
    let l2 = l1 + ds;
    let l3 = l2 + t;
    let l4 = l3 + a;
    let l5 = l4 + t;
    let l = l5 + r;
    assert(row_line(h, d, a, r) == l);
    // No line break anywhere.
    assert forall|i: int| 0 <= i < l.len() implies (#[trigger] l[i]) != '\n' by {
        if i < h.len() {
            assert(l[i] == h[i]);
        } else if i < l1.len() {
            assert(l[i] == '\t');
        } else if i < l2.len() {
            assert(l[i] == ds[i - l1.len()]);
            assert(is_dec(ds[i - l1.len()]));
        } else if i < l3.len() {
            assert(l[i] == '\t');
        } else if i < l4.len() {
            assert(l[i] == a[i - l3.len()]);
        } else if i < l5.len() {
            assert(l[i] == '\t');
        } else {
            assert(l[i] == r[i - l5.len()]);
        }
    }
    // The line is its own trim.
    assert(l[0] == h[0]);
    assert(l.last() == r.last());
    lemma_clean_trim(l);
    lemma_clean_trim(h);
    lemma_clean_trim(a);
    lemma_clean_trim(r);
    // The four columns.
    let e = Seq::<char>::empty();
    assert forall|i: int| 0 <= i < ds.len() implies (#[trigger] ds[i]) != '\t' by {
        assert(is_dec(ds[i]));
    }
    lemma_split_plain(e, h, '\t');
    assert(e + h =~= h);
    assert(split_acc(e, '\t') == (Seq::<Seq<char>>::empty(), e));
    assert(e + h =~= h);
    assert(split_acc(h, '\t') == (Seq::<Seq<char>>::empty(), h));
    assert(l1 == h.push('\t'));
    assert(l1.drop_last() =~= h);
    assert(split_acc(l1, '\t') == (seq![h], e));
    lemma_split_plain(l1, ds, '\t');
    assert(split_acc(l2, '\t') == (seq![h], e + ds));
    assert(e + ds =~= ds);
    assert(l3.drop_last() =~= l2);
    assert(split_acc(l3, '\t') == (seq![h, ds], e));
    lemma_split_plain(l3, a, '\t');
    assert(e + a =~= a);
    assert(split_acc(l4, '\t') == (seq![h, ds], a));
    assert(l5.drop_last() =~= l4);
    assert(split_acc(l5, '\t') == (seq![h, ds, a], e));
    lemma_split_plain(l5, r, '\t');
    assert(e + r =~= r);
    assert(split_acc(l, '\t') == (seq![h, ds, a], r));
    let cols = split_on(l, '\t');
    assert(cols =~= seq![h, ds, a, r]);
    // The argument index.
    assert(!is_ws(ds[0]) && !is_ws(ds.last()));
    lemma_clean_trim(ds);
    assert(ds[0] != '+');
    assert(parse_u8(ds) == Some(d));
}

/// The rows a slice of table `v` holds: one per entry that has a reg-type
/// family in `rt`, in table order.
pub open spec fn slice_rows(v: Seq<Entry>, rt: Map<(Seq<char>, u8), Seq<char>>) -> Seq<
    (Seq<char>, u8, Seq<char>, Seq<char>),
>
    decreases v.len(),
{
    if v.len() == 0 {
        Seq::empty()
    } else {
        let e = v.last();
        if rt.contains_key(ekey(e)) {
            slice_rows(v.drop_last(), rt).push((e.0@, e.1, e.2@, rt[ekey(e)]))
        } else {
            slice_rows(v.drop_last(), rt)
        }
    }
}

/// Every field the slice of `v` writes survives a TSV line.
pub open spec fn slice_writable(v: Seq<Entry>, rt: Map<(Seq<char>, u8), Seq<char>>) -> bool {
    forall|i: int|
        0 <= i < v.len() ==> {
            &&& clean_field((#[trigger] v[i]).0@)
            &&& v[i].0@[0] != '#'
            &&& clean_field(v[i].2@)
            &&& rt.contains_key(ekey(v[i])) ==> clean_field(rt[ekey(v[i])])
        }
}

proof fn lemma_slice_lines(v: Seq<Entry>, rt: Map<(Seq<char>, u8), Seq<char>>)
    requires
        slice_writable(v, rt),
    ensures
        lines_acc(tsv_lines(v, rt)).1.len() == 0,
        tsv_rows(lines(tsv_lines(v, rt))) == slice_rows(v, rt),
    decreases v.len(),
{
    if v.len() > 0 {
        let w = v.drop_last();
        assert forall|i: int| 0 <= i < w.len() implies {
            &&& clean_field((#[trigger] w[i]).0@)
            &&& w[i].0@[0] != '#'
            &&& clean_field(w[i].2@)
            &&& rt.contains_key(ekey(w[i])) ==> clean_field(rt[ekey(w[i])])
        } by {
            assert(w[i] == v[i]);
        }
        lemma_slice_lines(w, rt);
        let e = v.last();
        assert(e == v[v.len() - 1]);
        let tw = tsv_lines(w, rt);
        if rt.contains_key(ekey(e)) {
            let h = e.0@;
            let a = e.2@;
            let r = rt[ekey(e)];
            lemma_row_line(h, e.1, a, r);
            let l = row_line(h, e.1, a, r);
            reveal_strlit("\n");
            assert("\n"@ == seq!['\n']);
            assert(tsv_lines(v, rt) == tw + (l + "\n"@));
            assert(tw + (l + "\n"@) =~= (tw + l).push('\n'));
            lemma_lines_plain(tw, l);
            assert(lines_acc(tw).1 + l =~= l);
            assert((tw + l).push('\n').drop_last() =~= tw + l);
            assert(lines_acc(tsv_lines(v, rt)) == (lines_acc(tw).0.push(l), Seq::<char>::empty()));
            assert(lines(tsv_lines(v, rt)) == lines(tw).push(l));
            assert(lines(tw).push(l).drop_last() =~= lines(tw));
        } else {
            assert(tsv_lines(v, rt) =~= tw);
        }
    }
}

proof fn lemma_table_push(v: Seq<Entry>)
    requires
        sorted(v),
        v.len() > 0,
    ensures
        table(v) == table(v.drop_last()).insert(ekey(v.last()), v.last().2@),
        !table(v.drop_last()).contains_key(ekey(v.last())),
{
    lemma_key_order();
    let w = v.drop_last();
    let n = v.len() - 1;
    let kl = ekey(v[n]);
    assert(sorted(w));
    lemma_table_at(v, n);
    assert forall|k: (Seq<char>, u8)| #[trigger] table(w).contains_key(k) implies k != kl && table(
        v,
    ).contains_key(k) && table(v)[k] == table(w)[k] by {
        let i = choose|i: int| 0 <= i < w.len() && ekey(w[i]) == k;
        assert(w[i] == v[i]);
        assert(key_lt(ekey(v[i]), ekey(v[n])));
        lemma_table_at(w, i);
        lemma_table_at(v, i);
    }
    assert forall|k: (Seq<char>, u8)| #[trigger] table(v).contains_key(k) implies k == kl || table(
        w,
    ).contains_key(k) by {
        let i = choose|i: int| 0 <= i < v.len() && ekey(v[i]) == k;
        if i < n {
            assert(w[i] == v[i]);
        }
    }
    assert(table(v) =~= table(w).insert(kl, v[n].2@));
}

proof fn lemma_slice_maps(v: Seq<Entry>, rt: Map<(Seq<char>, u8), Seq<char>>)
    requires
        sorted(v),
    ensures
        apply_types(Map::empty(), slice_rows(v, rt)) == table(v).restrict(rt.dom()),
        apply_regtypes(Map::empty(), slice_rows(v, rt)) == rt.restrict(table(v).dom()),
    decreases v.len(),
{
    if v.len() == 0 {
        assert(table(v) =~= Map::empty());
        assert(table(v).restrict(rt.dom()) =~= Map::empty());
        assert(rt.restrict(table(v).dom()) =~= Map::empty());
    } else {
        let w = v.drop_last();
        let e = v.last();
        let k = ekey(e);
        lemma_table_push(v);
        lemma_key_order();
        assert(sorted(w));
        lemma_slice_maps(w, rt);
        if rt.contains_key(k) {
            let rows = slice_rows(v, rt);
            assert(rows.drop_last() =~= slice_rows(w, rt));
            assert(table(v).restrict(rt.dom()) =~= table(w).restrict(rt.dom()).insert(k, e.2@));
            assert(rt.restrict(table(v).dom()) =~= rt.restrict(table(w).dom()).insert(k, rt[k]));
        } else {
            assert(table(v).restrict(rt.dom()) =~= table(w).restrict(rt.dom()));
            assert(rt.restrict(table(v).dom()) =~= rt.restrict(table(w).dom()));
        }
    }
}

/// Writing a contract table as the TSV slice and reading the slice back gives
/// the table back: every argument with both an arg_type and a reg-type family
/// returns with both, and nothing else returns. (The slice carries only
/// arguments that have both, and its fields must survive a TSV line: no tab or
/// line break inside, no surrounding whitespace, no helper starting with `#`.)
pub proof fn lemma_tsv_round_trip(v: Seq<Entry>, rt: Map<(Seq<char>, u8), Seq<char>>)
    requires
        sorted(v),
        slice_writable(v, rt),
    ensures
        apply_types(Map::empty(), tsv_rows(lines(tsv_lines(v, rt)))) == table(v).restrict(
            rt.dom(),
        ),
        apply_regtypes(Map::empty(), tsv_rows(lines(tsv_lines(v, rt)))) == rt.restrict(
            table(v).dom(),
        ),
{
    lemma_slice_lines(v, rt);
    lemma_slice_maps(v, rt);
}

} // verus!
