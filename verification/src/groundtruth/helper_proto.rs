//! Helper `bpf_func_proto` / `arg_type` contracts: the reference table the
//! helper-argument checks compare observations against.
//!
//! A table is a sequence of `(helper, arg_index, value)` entries kept strictly
//! sorted by `(helper, arg_index)` (helper names compared character by character),
//! which makes it a finite map with a fixed iteration order.
use vstd::prelude::*;
use crate::text::{chars_of_string, chars_eq, opt_chars, string_from, push_string, push_str};
use crate::num::push_dec;

pub mod extract;
pub mod tsv;

pub use self::extract::{arg_type_to_regtype, extract_text};
pub use self::tsv::to_tsv;

verus! {

/// One table entry: helper name, 0-based argument index, value.
pub type Entry = (String, u8, String);

/// Lexicographic order on character sequences (the order `String` sorts in).
pub open spec fn chars_lt(a: Seq<char>, b: Seq<char>) -> bool
    decreases a.len(),
{
    if a.len() == 0 {
        b.len() > 0
    } else if b.len() == 0 {
        false
    } else if a[0] != b[0] {
        a[0] < b[0]
    } else {
        chars_lt(a.drop_first(), b.drop_first())
    }
}

pub open spec fn ekey(e: Entry) -> (Seq<char>, u8) {
    (e.0@, e.1)
}

pub open spec fn key_lt(a: (Seq<char>, u8), b: (Seq<char>, u8)) -> bool {
    chars_lt(a.0, b.0) || (a.0 == b.0 && a.1 < b.1)
}

/// Entries strictly increasing by key.
pub open spec fn sorted(v: Seq<Entry>) -> bool {
    forall|i: int, j: int| 0 <= i < j < v.len() ==> key_lt(ekey(v[i]), ekey(v[j]))
}

/// The map a table denotes.
pub open spec fn table(v: Seq<Entry>) -> Map<(Seq<char>, u8), Seq<char>> {
    Map::new(
        |k: (Seq<char>, u8)| exists|i: int| 0 <= i < v.len() && ekey(v[i]) == k,
        |k: (Seq<char>, u8)| v[choose|i: int| 0 <= i < v.len() && ekey(v[i]) == k].2@,
    )
}

/// Lookup in the denoted map.
pub open spec fn table_get(v: Seq<Entry>, k: (Seq<char>, u8)) -> Option<Seq<char>> {
    if table(v).contains_key(k) {
        Some(table(v)[k])
    } else {
        None
    }
}

pub(crate) proof fn lemma_chars_lt_irrefl(a: Seq<char>)
    ensures
        !chars_lt(a, a),
    decreases a.len(),
{
    if a.len() > 0 {
        lemma_chars_lt_irrefl(a.drop_first());
    }
}

pub(crate) proof fn lemma_chars_lt_total(a: Seq<char>, b: Seq<char>)
    ensures
        a != b ==> chars_lt(a, b) || chars_lt(b, a),
        chars_lt(a, b) ==> !chars_lt(b, a),
    decreases a.len(),
{
    if a.len() > 0 && b.len() > 0 {
        lemma_chars_lt_total(a.drop_first(), b.drop_first());
        if a[0] == b[0] && a != b {
            assert(a =~= seq![a[0]] + a.drop_first());
            assert(b =~= seq![b[0]] + b.drop_first());
        }
    } else if a.len() == 0 && b.len() == 0 {
        assert(a =~= b);
    }
}

pub(crate) proof fn lemma_chars_lt_trans(a: Seq<char>, b: Seq<char>, c: Seq<char>)
    requires
        chars_lt(a, b),
        chars_lt(b, c),
    ensures
        chars_lt(a, c),
    decreases a.len(),
{
    if a.len() > 0 && b.len() > 0 && c.len() > 0 && a[0] == b[0] && b[0] == c[0] {
        lemma_chars_lt_trans(a.drop_first(), b.drop_first(), c.drop_first());
    }
}

pub(crate) proof fn lemma_key_order()
    ensures
        forall|a: (Seq<char>, u8)| !#[trigger] key_lt(a, a),
        forall|a: (Seq<char>, u8), b: (Seq<char>, u8)|
            a != b ==> #[trigger] key_lt(a, b) || #[trigger] key_lt(b, a),
        forall|a: (Seq<char>, u8), b: (Seq<char>, u8), c: (Seq<char>, u8)|
            #[trigger] key_lt(a, b) && #[trigger] key_lt(b, c) ==> key_lt(a, c),
{
    assert forall|a: (Seq<char>, u8)| !#[trigger] key_lt(a, a) by {
        lemma_chars_lt_irrefl(a.0);
    }
    assert forall|a: (Seq<char>, u8), b: (Seq<char>, u8)|
        a != b implies #[trigger] key_lt(a, b) || #[trigger] key_lt(b, a) by {
        lemma_chars_lt_total(a.0, b.0);
    }
    assert forall|a: (Seq<char>, u8), b: (Seq<char>, u8), c: (Seq<char>, u8)|
        #[trigger] key_lt(a, b) && #[trigger] key_lt(b, c) implies key_lt(a, c) by {
        if chars_lt(a.0, b.0) && chars_lt(b.0, c.0) {
            lemma_chars_lt_trans(a.0, b.0, c.0);
        }
    }
}

/// In a sorted table, the entry at `i` is what the map holds at its key.
pub(crate) proof fn lemma_table_at(v: Seq<Entry>, i: int)
    requires
        sorted(v),
        0 <= i < v.len(),
    ensures
        table(v).contains_key(ekey(v[i])),
        table(v)[ekey(v[i])] == v[i].2@,
{
    lemma_key_order();
    let k = ekey(v[i]);
    assert(exists|j: int| 0 <= j < v.len() && ekey(v[j]) == k);
    let j = choose|j: int| 0 <= j < v.len() && ekey(v[j]) == k;
    if j != i {
        if j < i {
            assert(key_lt(ekey(v[j]), ekey(v[i])));
        } else {
            assert(key_lt(ekey(v[i]), ekey(v[j])));
        }
    }
}

/// Keys compare by helper name first, then argument index.
fn key_less(a: &Vec<char>, ai: u8, b: &Vec<char>, bi: u8) -> (r: bool)
    ensures
        r == key_lt((a@, ai), (b@, bi)),
{
    let mut i: usize = 0;
    proof {
        assert(a@.skip(0) =~= a@);
        assert(b@.skip(0) =~= b@);
        assert(a@.take(0) =~= b@.take(0));
    }
    while i < a.len() && i < b.len()
        invariant
            i <= a@.len(),
            i <= b@.len(),
            a@.take(i as int) == b@.take(i as int),
            chars_lt(a@, b@) == chars_lt(a@.skip(i as int), b@.skip(i as int)),
        decreases a@.len() - i,
    {
        if a[i] != b[i] {
            proof {
                assert(a@.skip(i as int)[0] == a@[i as int]);
                assert(b@.skip(i as int)[0] == b@[i as int]);
                if a@ == b@ {
                    assert(a@[i as int] == b@[i as int]);
                }
            }
            return a[i] < b[i];
        }
        proof {
            assert(a@.skip(i as int).drop_first() =~= a@.skip(i + 1));
            assert(b@.skip(i as int).drop_first() =~= b@.skip(i + 1));
            assert(a@.take(i + 1) =~= a@.take(i as int).push(a@[i as int]));
            assert(b@.take(i + 1) =~= b@.take(i as int).push(b@[i as int]));
        }
        i = i + 1;
    }
    proof {
        if i == a@.len() && i == b@.len() {
            assert(a@ =~= a@.take(i as int));
            assert(b@ =~= b@.take(i as int));
        }
        if i == a@.len() && i < b@.len() {
            assert(a@.skip(i as int).len() == 0);
            assert(a@ != b@) by {
                assert(a@.len() != b@.len());
            }
        }
        if i == b@.len() && i < a@.len() {
            assert(b@.skip(i as int).len() == 0);
            assert(a@.len() != b@.len());
        }
    }
    if a.len() == b.len() {
        ai < bi
    } else {
        a.len() < b.len()
    }
}

/// The table with `(helper, idx) -> val` set, kept sorted.
fn insert_sorted(v: &Vec<Entry>, helper: String, idx: u8, val: String) -> (r: Vec<Entry>)
    requires
        sorted(v@),
    ensures
        sorted(r@),
        table(r@) == table(v@).insert((helper@, idx), val@),
{
    proof {
        lemma_key_order();
    }
    let hk = chars_of_string(&helper);
    let ghost k = (helper@, idx);
    let mut out: Vec<Entry> = Vec::new();
    let mut i: usize = 0;
    let mut done = false;
    // Copy every entry strictly below the new key.
    while !done && i < v.len()
        invariant
            i <= v@.len(),
            sorted(v@),
            hk@ == helper@,
            k == (helper@, idx),
            out@ == v@.take(i as int),
            forall|j: int| 0 <= j < i ==> key_lt(#[trigger] ekey(v@[j]), k),
            done ==> i < v@.len() && !key_lt(ekey(v@[i as int]), k),
        decreases v@.len() - i, (if done { 0int } else { 1int }),
    {
        let ek = chars_of_string(&v[i].0);
        if !key_less(&ek, v[i].1, &hk, idx) {
            done = true;
        } else {
            let e = (v[i].0.clone(), v[i].1, v[i].2.clone());
            out.push(e);
            proof {
                assert(out@ =~= v@.take(i + 1));
            }
            i = i + 1;
        }
    }
    let p = i;
    // Skip an entry with the same key: it is replaced.
    let mut rest = p;
    if p < v.len() {
        let ek = chars_of_string(&v[p].0);
        if chars_eq(&ek, &hk) && v[p].1 == idx {
            rest = p + 1;
        }
    }
    proof {
        if p < v@.len() {
            assert(!key_lt(ekey(v@[p as int]), k));
            if rest == p {
                assert(ekey(v@[p as int]) != k);
                assert(key_lt(k, ekey(v@[p as int])));
            } else {
                assert(ekey(v@[p as int]) == k);
            }
        }
    }
    out.push((helper, idx, val));
    let mut j: usize = rest;
    while j < v.len()
        invariant
            p <= rest <= j <= v@.len(),
            rest <= p + 1,
            sorted(v@),
            k == (ekey(out@[p as int])),
            out@[p as int].2@ == val@,
            out@.len() == p + 1 + (j - rest),
            out@.take(p as int) == v@.take(p as int),
            forall|t: int| p < t < out@.len() ==> out@[t] == v@[t - p - 1 + rest],
            forall|t: int| 0 <= t < p ==> key_lt(#[trigger] ekey(v@[t]), k),
            rest < v@.len() ==> key_lt(k, ekey(v@[rest as int])),
            rest == p + 1 ==> ekey(v@[p as int]) == k,
        decreases v@.len() - j,
    {
        let e = (v[j].0.clone(), v[j].1, v[j].2.clone());
        let ghost before = out@;
        out.push(e);
        proof {
            assert(out@.take(p as int) =~= before.take(p as int));
        }
        j = j + 1;
    }
    proof {
        let r = out@;
        assert forall|t: int| 0 <= t < p implies r[t] == v@[t] by {
            assert(r.take(p as int)[t] == r[t]);
            assert(v@.take(p as int)[t] == v@[t]);
        }
        // Sortedness of the result.
        assert forall|a: int, b: int| 0 <= a < b < r.len() implies key_lt(
            ekey(r[a]),
            ekey(r[b]),
        ) by {
            if b < p {
            } else if b == p {
            } else if a < p {
                let vb = b - p - 1 + rest;
                assert(r[b] == v@[vb]);
                if rest == p + 1 {
                    assert(key_lt(ekey(v@[a]), ekey(v@[vb])));
                } else {
                    assert(key_lt(ekey(v@[a]), ekey(v@[vb])));
                }
            } else if a == p {
                let vb = b - p - 1 + rest;
                assert(r[b] == v@[vb]);
                if vb > rest {
                    assert(key_lt(ekey(v@[rest as int]), ekey(v@[vb])));
                }
            } else {
                assert(r[a] == v@[a - p - 1 + rest]);
                assert(r[b] == v@[b - p - 1 + rest]);
            }
        }
        // The denoted map.
        assert forall|k2: (Seq<char>, u8)|
            #![trigger table(r).contains_key(k2)]
            #![trigger table(v@).contains_key(k2)]
            table(r).contains_key(k2) == (k2 == k || table(v@).contains_key(k2)) by {
            if table(v@).contains_key(k2) && k2 != k {
                let t = choose|t: int| 0 <= t < v@.len() && ekey(v@[t]) == k2;
                if t < p {
                    assert(ekey(r[t]) == k2);
                } else if t == p && rest == p + 1 {
                    assert(false);
                } else {
                    let rt = t - rest + p + 1;
                    assert(r[rt] == v@[rt - p - 1 + rest]);
                    assert(ekey(r[rt]) == k2);
                }
            }
            if k2 == k {
                assert(ekey(r[p as int]) == k2);
            }
            if table(r).contains_key(k2) && k2 != k {
                let t = choose|t: int| 0 <= t < r.len() && ekey(r[t]) == k2;
                if t < p {
                    assert(ekey(v@[t]) == k2);
                } else if t > p {
                    assert(ekey(v@[t - p - 1 + rest]) == k2);
                }
            }
        }
        assert forall|k2: (Seq<char>, u8)| #[trigger]
            table(r).contains_key(k2) implies table(r)[k2] == table(v@).insert(k, val@)[k2] by {
            let t = choose|t: int| 0 <= t < r.len() && ekey(r[t]) == k2;
            lemma_table_at(r, t);
            if t < p {
                lemma_table_at(v@, t);
            } else if t > p {
                let vt = t - p - 1 + rest;
                assert(r[t] == v@[vt]);
                lemma_table_at(v@, vt);
            }
        }
        assert(table(r) =~= table(v@).insert(k, val@));
    }
    out
}

/// The value stored under `(helper, idx)`, if any.
fn lookup(v: &Vec<Entry>, helper: &str, idx: u8) -> (r: Option<String>)
    requires
        sorted(v@),
    ensures
        opt_chars(r) == table_get(v@, (helper@, idx)),
{
    let hs = string_from(helper);
    let hk = chars_of_string(&hs);
    let mut i: usize = 0;
    while i < v.len()
        invariant
            i <= v@.len(),
            sorted(v@),
            hk@ == helper@,
            forall|j: int| 0 <= j < i ==> #[trigger] ekey(v@[j]) != (helper@, idx),
        decreases v@.len() - i,
    {
        let ek = chars_of_string(&v[i].0);
        if chars_eq(&ek, &hk) && v[i].1 == idx {
            proof {
                lemma_table_at(v@, i as int);
            }
            return Some(v[i].2.clone());
        }
        i = i + 1;
    }
    None
}

/// Reference view of helper argument contracts: `(helper, arg_index) -> arg_type`
/// and `(helper, arg_index) -> expected reg-type family`.
#[derive(Debug)]
pub struct HelperProtoModel {
    contracts: Vec<Entry>,
    regtypes: Vec<Entry>,
}

impl HelperProtoModel {
    #[verifier::type_invariant]
    spec fn inv(self) -> bool {
        sorted(self.contracts@) && sorted(self.regtypes@)
    }

    /// `(helper, arg_index) -> documented arg_type`.
    pub closed spec fn contracts_map(self) -> Map<(Seq<char>, u8), Seq<char>> {
        table(self.contracts@)
    }

    /// `(helper, arg_index) -> expected reg-type family`.
    pub closed spec fn regtypes_map(self) -> Map<(Seq<char>, u8), Seq<char>> {
        table(self.regtypes@)
    }

    /// The contracts as a list in key order.
    pub closed spec fn contract_list(self) -> Seq<Entry> {
        self.contracts@
    }

    /// An empty model.
    pub fn new() -> (m: Self)
        ensures
            m.contracts_map() == Map::<(Seq<char>, u8), Seq<char>>::empty(),
            m.regtypes_map() == Map::<(Seq<char>, u8), Seq<char>>::empty(),
    {
        let m = HelperProtoModel { contracts: Vec::new(), regtypes: Vec::new() };
        proof {
            assert(table(m.contracts@) =~= Map::empty());
            assert(table(m.regtypes@) =~= Map::empty());
        }
        m
    }

    /// Adds one documented `(helper, arg_index) -> arg_type` contract.
    pub fn with_contract(self, helper: &str, arg_index: u8, arg_type: &str) -> (m: Self)
        ensures
            m.contracts_map() == self.contracts_map().insert((helper@, arg_index), arg_type@),
            m.regtypes_map() == self.regtypes_map(),
    {
        proof {
            use_type_invariant(&self);
        }
        let contracts = insert_sorted(
            &self.contracts,
            string_from(helper),
            arg_index,
            string_from(arg_type),
        );
        HelperProtoModel { contracts, regtypes: self.regtypes }
    }

    /// Adds one expected reg-type family contract.
    pub fn with_regtype(self, helper: &str, arg_index: u8, regtype: &str) -> (m: Self)
        ensures
            m.regtypes_map() == self.regtypes_map().insert((helper@, arg_index), regtype@),
            m.contracts_map() == self.contracts_map(),
    {
        proof {
            use_type_invariant(&self);
        }
        let regtypes = insert_sorted(
            &self.regtypes,
            string_from(helper),
            arg_index,
            string_from(regtype),
        );
        HelperProtoModel { contracts: self.contracts, regtypes }
    }

    /// Sets both the arg_type and the reg-type family of one argument.
    pub fn insert_both(&mut self, helper: &str, arg_index: u8, arg_type: &str, regtype: &str)
        ensures
            final(self).contracts_map() == old(self).contracts_map().insert(
                (helper@, arg_index),
                arg_type@,
            ),
            final(self).regtypes_map() == old(self).regtypes_map().insert(
                (helper@, arg_index),
                regtype@,
            ),
    {
        proof {
            use_type_invariant(&*self);
        }
        let contracts = insert_sorted(
            &self.contracts,
            string_from(helper),
            arg_index,
            string_from(arg_type),
        );
        let regtypes = insert_sorted(
            &self.regtypes,
            string_from(helper),
            arg_index,
            string_from(regtype),
        );
        *self = HelperProtoModel { contracts, regtypes };
    }

    /// Documented `arg_type` for `(helper, arg_index)`, if this source knows it.
    pub fn arg_type(&self, helper: &str, arg_index: u8) -> (r: Option<String>)
        ensures
            opt_chars(r) == (if self.contracts_map().contains_key((helper@, arg_index)) {
                Some(self.contracts_map()[(helper@, arg_index)])
            } else {
                None
            }),
    {
        proof {
            use_type_invariant(self);
        }
        lookup(&self.contracts, helper, arg_index)
    }

    /// Expected verifier reg-type family for `(helper, arg_index)`, if loaded.
    pub fn arg_regtype(&self, helper: &str, arg_index: u8) -> (r: Option<String>)
        ensures
            opt_chars(r) == (if self.regtypes_map().contains_key((helper@, arg_index)) {
                Some(self.regtypes_map()[(helper@, arg_index)])
            } else {
                None
            }),
    {
        proof {
            use_type_invariant(self);
        }
        lookup(&self.regtypes, helper, arg_index)
    }

    /// Number of loaded contracts.
    pub fn len(&self) -> (n: usize)
        ensures
            n == self.contracts_map().len(),
    {
        proof {
            use_type_invariant(self);
            lemma_table_len(self.contracts@);
        }
        self.contracts.len()
    }

    /// Whether no contracts are loaded.
    pub fn is_empty(&self) -> (b: bool)
        ensures
            b == (self.contracts_map().len() == 0),
    {
        self.len() == 0
    }

    /// The TSV slice: one `helper \t idx \t arg_type \t regtype` line per contract
    /// that also has a reg-type, in key order.
    pub fn tsv(&self) -> (s: String)
        ensures
            s@ == tsv_lines(self.contract_list(), self.regtypes_map()),
            sorted(self.contract_list()),
            table(self.contract_list()) == self.contracts_map(),
    {
        proof {
            use_type_invariant(self);
        }
        let mut out = String::new();
        let mut i: usize = 0;
        while i < self.contracts.len()
            invariant
                i <= self.contracts@.len(),
                sorted(self.regtypes@),
                out@ == tsv_lines(self.contracts@.take(i as int), self.regtypes_map()),
            decreases self.contracts@.len() - i,
        {
            proof {
                assert(self.contracts@.take(i + 1).drop_last() =~= self.contracts@.take(i as int));
            }
            let e = &self.contracts[i];
            match lookup(&self.regtypes, e.0.as_str(), e.1) {
                Some(rt) => {
                    push_string(&mut out, &e.0);
                    push_str(&mut out, "\t");
                    push_dec(&mut out, e.1 as u64);
                    push_str(&mut out, "\t");
                    push_string(&mut out, &e.2);
                    push_str(&mut out, "\t");
                    push_string(&mut out, &rt);
                    push_str(&mut out, "\n");
                },
                None => {},
            }
            i = i + 1;
        }
        proof {
            assert(self.contracts@.take(self.contracts@.len() as int) =~= self.contracts@);
        }
        out
    }
}

fn copy_entries(v: &Vec<Entry>) -> (r: Vec<Entry>)
    ensures
        r@ == v@,
{
    let mut r: Vec<Entry> = Vec::new();
    let mut i: usize = 0;
    while i < v.len()
        invariant
            i <= v@.len(),
            r@ == v@.take(i as int),
        decreases v@.len() - i,
    {
        r.push((v[i].0.clone(), v[i].1, v[i].2.clone()));
        proof {
            assert(r@ =~= v@.take(i + 1));
        }
        i = i + 1;
    }
    proof {
        assert(v@.take(v@.len() as int) =~= v@);
    }
    r
}

impl Clone for HelperProtoModel {
    fn clone(&self) -> (m: Self)
        ensures
            m.contracts_map() == self.contracts_map(),
            m.regtypes_map() == self.regtypes_map(),
    {
        proof {
            use_type_invariant(self);
        }
        HelperProtoModel {
            contracts: copy_entries(&self.contracts),
            regtypes: copy_entries(&self.regtypes),
        }
    }
}

impl Default for HelperProtoModel {
    fn default() -> (m: Self)
        ensures
            m.contracts_map() == Map::<(Seq<char>, u8), Seq<char>>::empty(),
            m.regtypes_map() == Map::<(Seq<char>, u8), Seq<char>>::empty(),
    {
        HelperProtoModel::new()
    }
}

/// The TSV text of a contract table, looking each reg-type up in `rt`.
pub open spec fn tsv_lines(v: Seq<Entry>, rt: Map<(Seq<char>, u8), Seq<char>>) -> Seq<char>
    decreases v.len(),
{
    if v.len() == 0 {
        seq![]
    } else {
        let e = v.last();
        tsv_lines(v.drop_last(), rt) + (if rt.contains_key(ekey(e)) {
            e.0@ + "\t"@ + crate::num::dec_str(e.1 as nat) + "\t"@ + e.2@ + "\t"@ + rt[ekey(e)]
                + "\n"@
        } else {
            seq![]
        })
    }
}

/// A sorted table has as many map entries as it has entries.
proof fn lemma_table_len(v: Seq<Entry>)
    requires
        sorted(v),
    ensures
        table(v).len() == v.len(),
        table(v).dom().finite(),
    decreases v.len(),
{
    lemma_key_order();
    if v.len() == 0 {
        assert(table(v).dom() =~= Set::empty());
    } else {
        let w = v.drop_last();
        assert(sorted(w));
        lemma_table_len(w);
        let k = ekey(v.last());
        assert(table(v).dom() =~= table(w).dom().insert(k)) by {
            assert forall|k2: (Seq<char>, u8)| #[trigger]
                table(v).dom().contains(k2) implies table(w).dom().contains(k2) || k2 == k by {
                let t = choose|t: int| 0 <= t < v.len() && ekey(v[t]) == k2;
                if t < w.len() {
                    assert(ekey(w[t]) == k2);
                }
            }
            assert forall|k2: (Seq<char>, u8)| #[trigger]
                table(w).dom().contains(k2) implies table(v).dom().contains(k2) by {
                let t = choose|t: int| 0 <= t < w.len() && ekey(w[t]) == k2;
                assert(ekey(v[t]) == k2);
            }
            assert(ekey(v[v.len() - 1]) == k);
        }
        assert(!table(w).dom().contains(k)) by {
            if table(w).dom().contains(k) {
                let t = choose|t: int| 0 <= t < w.len() && ekey(w[t]) == k;
                assert(key_lt(ekey(v[t]), ekey(v[v.len() - 1])));
            }
        }
    }
}

} // verus!
