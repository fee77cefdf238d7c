//! The period report: the diff findings joined per record for triage, and the
//! parse-health accounting, kept apart from the divergence count so a parser's
//! blind spots are never read as verifier signal.
//!
//! The report invents no ranking of its own: records are ordered by the anomaly
//! score the analyzer assigned, which is done where the scores are read.
use vstd::prelude::*;
use crate::contract::ContractError;
use crate::diff::DivergenceFinding;
use crate::normalize::{MetricRecord, UnparsedBlock, UnparsedKind};

verus! {

/// Parse-health accounting for one period.
#[derive(Debug, Clone, Copy, PartialEq, Eq, Structural)]
pub struct ParseHealth {
    /// Native blocks seen: `records + unparsed_blocks`.
    pub blocks: u64,
    /// Records the parser produced.
    pub records: u64,
    /// Records parsed with caveats (non-empty parse notes): lower confidence.
    pub records_with_notes: u64,
    /// Blocks that produced no record (`unparsed_not_observed + unrecognized`).
    pub unparsed_blocks: u64,
    /// Of those: nothing to observe (the tool emitted no verifier output).
    pub unparsed_not_observed: u64,
    /// Of those: the parser was given verifier output and failed on it. This is
    /// the blind-spot number that must stay near zero.
    pub unrecognized: u64,
}

impl Default for ParseHealth {
    fn default() -> (h: Self)
        ensures
            h == (ParseHealth {
                blocks: 0,
                records: 0,
                records_with_notes: 0,
                unparsed_blocks: 0,
                unparsed_not_observed: 0,
                unrecognized: 0,
            }),
    {
        ParseHealth {
            blocks: 0,
            records: 0,
            records_with_notes: 0,
            unparsed_blocks: 0,
            unparsed_not_observed: 0,
            unrecognized: 0,
        }
    }
}

/// How many of `rs` carry parse notes.
pub open spec fn with_notes(rs: Seq<MetricRecord>) -> nat
    decreases rs.len(),
{
    if rs.len() == 0 {
        0
    } else {
        with_notes(rs.drop_last()) + if rs.last().parse_notes@.len() > 0 {
            1nat
        } else {
            0nat
        }
    }
}

/// `records_with_notes` counts exactly the records that carry a parse note:
/// it is the length of the records filtered to those with a non-empty
/// `parse_notes`. In particular it is zero when no record has a note and the
/// number of records when every record has one.
pub proof fn lemma_noted_records_counted(rs: Seq<MetricRecord>)
    ensures
        with_notes(rs) == rs.filter(|r: MetricRecord| r.parse_notes@.len() > 0).len(),
        (forall|i: int| 0 <= i < rs.len() ==> (#[trigger] rs[i]).parse_notes@.len() == 0)
            ==> with_notes(rs) == 0,
        (forall|i: int| 0 <= i < rs.len() ==> (#[trigger] rs[i]).parse_notes@.len() > 0)
            ==> with_notes(rs) == rs.len(),
    decreases rs.len(),
{
    reveal(Seq::filter);
    if rs.len() > 0 {
        let t = rs.drop_last();
        lemma_noted_records_counted(t);
        assert forall|i: int| 0 <= i < t.len() implies #[trigger] t[i] == rs[i] by {}
        if forall|i: int| 0 <= i < rs.len() ==> (#[trigger] rs[i]).parse_notes@.len() == 0 {
            assert(rs[rs.len() - 1].parse_notes@.len() == 0);
            assert forall|i: int| 0 <= i < t.len() implies (#[trigger] t[i]).parse_notes@.len() == 0 by {
                assert(t[i] == rs[i]);
            }
        }
        if forall|i: int| 0 <= i < rs.len() ==> (#[trigger] rs[i]).parse_notes@.len() > 0 {
            assert(rs[rs.len() - 1].parse_notes@.len() > 0);
            assert forall|i: int| 0 <= i < t.len() implies (#[trigger] t[i]).parse_notes@.len() > 0 by {
                assert(t[i] == rs[i]);
            }
        }
    }
}

/// How many of `us` are parser failures on real verifier output.
pub open spec fn unrecognized_count(us: Seq<UnparsedBlock>) -> nat
    decreases us.len(),
{
    if us.len() == 0 {
        0
    } else {
        unrecognized_count(us.drop_last()) + if us.last().kind == UnparsedKind::Unrecognized {
            1nat
        } else {
            0nat
        }
    }
}

/// `unrecognized` counts exactly the unparsed blocks the parser was given
/// verifier output for and failed on: the length of the unparsed blocks
/// filtered to kind `Unrecognized`.
pub proof fn lemma_unrecognized_counted(us: Seq<UnparsedBlock>)
    ensures
        unrecognized_count(us) == us.filter(|u: UnparsedBlock| u.kind == UnparsedKind::Unrecognized).len(),
    decreases us.len(),
{
    reveal(Seq::filter);
    if us.len() > 0 {
        lemma_unrecognized_counted(us.drop_last());
    }
}

proof fn lemma_with_notes_bound(rs: Seq<MetricRecord>)
    ensures
        with_notes(rs) <= rs.len(),
    decreases rs.len(),
{
    if rs.len() > 0 {
        lemma_with_notes_bound(rs.drop_last());
    }
}

proof fn lemma_unrecognized_bound(us: Seq<UnparsedBlock>)
    ensures
        unrecognized_count(us) <= us.len(),
    decreases us.len(),
{
    if us.len() > 0 {
        lemma_unrecognized_bound(us.drop_last());
    }
}

impl ParseHealth {
    /// The parse health of a period's normalized records and unparsed blocks.
    /// The counts reconcile: every block is a record or an unparsed block, and
    /// every unparsed block is either "nothing to observe" or "unrecognized".
    pub fn of(records: &Vec<MetricRecord>, unparsed: &Vec<UnparsedBlock>) -> (h: Self)
        requires
            records@.len() + unparsed@.len() <= u64::MAX,
        ensures
            h.records == records@.len(),
            h.unparsed_blocks == unparsed@.len(),
            h.blocks == h.records + h.unparsed_blocks,
            h.records_with_notes == with_notes(records@),
            h.unrecognized == unrecognized_count(unparsed@),
            h.unparsed_not_observed + h.unrecognized == h.unparsed_blocks,
            h.records_with_notes <= h.records,
    {
        let mut noted: u64 = 0;
        let mut i: usize = 0;
        while i < records.len()
            invariant
                i <= records@.len(),
                records@.len() <= u64::MAX,
                noted == with_notes(records@.take(i as int)),
            decreases records.len() - i,
        {
            proof {
                assert(records@.take(i + 1).drop_last() =~= records@.take(i as int));
                lemma_with_notes_bound(records@.take(i as int));
            }
            if records[i].parse_notes.len() > 0 {
                noted = noted + 1;
            }
            i = i + 1;
        }
        let mut unrec: u64 = 0;
        let mut j: usize = 0;
        while j < unparsed.len()
            invariant
                j <= unparsed@.len(),
                unparsed@.len() <= u64::MAX,
                unrec == unrecognized_count(unparsed@.take(j as int)),
            decreases unparsed.len() - j,
        {
            proof {
                assert(unparsed@.take(j + 1).drop_last() =~= unparsed@.take(j as int));
                lemma_unrecognized_bound(unparsed@.take(j as int));
            }
            match unparsed[j].kind {
                UnparsedKind::Unrecognized => {
                    unrec = unrec + 1;
                },
                UnparsedKind::NotObserved => {},
            }
            j = j + 1;
        }
        proof {
            assert(records@.take(records@.len() as int) =~= records@);
            assert(unparsed@.take(unparsed@.len() as int) =~= unparsed@);
            lemma_with_notes_bound(records@);
            lemma_unrecognized_bound(unparsed@);
        }
        let nr = records.len() as u64;
        let nu = unparsed.len() as u64;
        ParseHealth {
            blocks: nr + nu,
            records: nr,
            records_with_notes: noted,
            unparsed_blocks: nu,
            unparsed_not_observed: nu - unrec,
            unrecognized: unrec,
        }
    }
}

/// Errors from the report stage.
#[derive(Debug)]
pub enum ReportError {
    /// Reading an upstream artifact or writing the period report failed.
    Contract(ContractError),
}

/// Whether `v` is strictly increasing.
pub open spec fn strictly_sorted(v: Seq<u64>) -> bool {
    forall|a: int, b: int| 0 <= a < b < v.len() ==> v[a] < v[b]
}

/// The findings of `fs` whose record index is `o`, in their original order.
pub open spec fn select(fs: Seq<DivergenceFinding>, o: Option<u64>) -> Seq<DivergenceFinding>
    decreases fs.len(),
{
    if fs.len() == 0 {
        Seq::empty()
    } else if fs.last().record_index == o {
        select(fs.drop_last(), o).push(fs.last())
    } else {
        select(fs.drop_last(), o)
    }
}

/// Whether some finding of `fs` belongs to record `i`.
pub open spec fn indexed(fs: Seq<DivergenceFinding>, i: u64) -> bool {
    exists|k: int| 0 <= k < fs.len() && (#[trigger] fs[k]).record_index == Some(i)
}

proof fn lemma_insert_contains(s: Seq<u64>, p: int, x: u64)
    requires
        0 <= p <= s.len(),
    ensures
        forall|y: u64| s.insert(p, x).contains(y) <==> (s.contains(y) || y == x),
{
    let t = s.insert(p, x);
    assert forall|y: u64| t.contains(y) <==> (s.contains(y) || y == x) by {
        if t.contains(y) {
            let k = choose|k: int| 0 <= k < t.len() && t[k] == y;
            if k < p {
                assert(s[k] == y);
            } else if k > p {
                assert(s[k - 1] == y);
            }
        }
        if s.contains(y) {
            let k = choose|k: int| 0 <= k < s.len() && s[k] == y;
            if k < p {
                assert(t[k] == y);
            } else {
                assert(t[k + 1] == y);
            }
        }
        if y == x {
            assert(t[p] == x);
        }
    }
}

/// Adds `x` to a strictly increasing key list, keeping it strictly increasing.
fn insert_key(v: &mut Vec<u64>, x: u64)
    requires
        strictly_sorted(old(v)@),
    ensures
        strictly_sorted(final(v)@),
        forall|y: u64| final(v)@.contains(y) <==> (old(v)@.contains(y) || y == x),
{
    let mut p: usize = 0;
    while p < v.len() && v[p] < x
        invariant
            p <= v@.len(),
            forall|k: int| 0 <= k < p ==> v@[k] < x,
        decreases v.len() - p,
    {
        p = p + 1;
    }
    if p < v.len() && v[p] == x {
        proof {
            assert(v@[p as int] == x);
            assert(v@.contains(x));
        }
        return;
    }
    proof {
        lemma_insert_contains(v@, p as int, x);
    }
    v.insert(p, x);
}

fn find_key(v: &Vec<u64>, x: u64) -> (r: Option<usize>)
    ensures
        r matches Some(p) ==> p < v@.len() && v@[p as int] == x,
        r is None ==> !v@.contains(x),
{
    let mut p: usize = 0;
    while p < v.len()
        invariant
            p <= v@.len(),
            forall|k: int| 0 <= k < p ==> v@[k] != x,
        decreases v.len() - p,
    {
        if v[p] == x {
            return Some(p);
        }
        p = p + 1;
    }
    None
}

/// Splits a period's findings for triage: the distinct record indices in
/// increasing order, the findings of each of those records (in their original
/// order), and the period-level findings that belong to no single record.
pub fn partition_findings(findings: Vec<DivergenceFinding>) -> (r: (
    Vec<u64>,
    Vec<Vec<DivergenceFinding>>,
    Vec<DivergenceFinding>,
))
    ensures
        strictly_sorted(r.0@),
        forall|i: u64| r.0@.contains(i) <==> indexed(findings@, i),
        r.1@.len() == r.0@.len(),
        forall|j: int| 0 <= j < r.1@.len() ==> (#[trigger] r.1@[j])@ == select(findings@, Some(r.0@[j])),
        r.2@ == select(findings@, None),
{
    let ghost fs = findings@;
    let mut keys: Vec<u64> = Vec::new();
    let mut n: usize = 0;
    while n < findings.len()
        invariant
            n <= fs.len(),
            findings@ == fs,
            strictly_sorted(keys@),
            forall|i: u64| keys@.contains(i) <==> indexed(fs.take(n as int), i),
        decreases findings.len() - n,
    {
        let ghost pre = fs.take(n as int);
        let ghost nxt = fs.take(n + 1);
        proof {
            assert(nxt =~= pre.push(fs[n as int]));
        }
        match findings[n].record_index {
            Some(i) => {
                insert_key(&mut keys, i);
                proof {
                    assert forall|y: u64| keys@.contains(y) <==> indexed(nxt, y) by {
                        if indexed(nxt, y) {
                            let k = choose|k: int| 0 <= k < nxt.len() && (#[trigger] nxt[k]).record_index == Some(y);
                            if k < pre.len() {
                                assert(pre[k] == nxt[k]);
                            }
                        }
                        if indexed(pre, y) {
                            let k = choose|k: int| 0 <= k < pre.len() && (#[trigger] pre[k]).record_index == Some(y);
                            assert(nxt[k] == pre[k]);
                        }
                        if y == i {
                            assert(nxt[n as int].record_index == Some(i));
                        }
                    }
                }
            },
            None => {
                proof {
                    assert forall|y: u64| keys@.contains(y) <==> indexed(nxt, y) by {
                        if indexed(nxt, y) {
                            let k = choose|k: int| 0 <= k < nxt.len() && (#[trigger] nxt[k]).record_index == Some(y);
                            if k < pre.len() {
                                assert(pre[k] == nxt[k]);
                            }
                        }
                        if indexed(pre, y) {
                            let k = choose|k: int| 0 <= k < pre.len() && (#[trigger] pre[k]).record_index == Some(y);
                            assert(nxt[k] == pre[k]);
                        }
                    }
                }
            },
        }
        n = n + 1;
    }
    proof {
        assert(fs.take(fs.len() as int) =~= fs);
    }
    let mut groups: Vec<Vec<DivergenceFinding>> = Vec::new();
    let mut j: usize = 0;
    while j < keys.len()
        invariant
            j <= keys@.len(),
            groups@.len() == j,
            forall|t: int| 0 <= t < j ==> (#[trigger] groups@[t])@ == select(fs.take(0), Some(keys@[t])),
        decreases keys.len() - j,
    {
        groups.push(Vec::new());
        j = j + 1;
    }
    let mut period: Vec<DivergenceFinding> = Vec::new();
    for f in it: findings.into_iter()
        invariant
            it.seq() == fs,
            strictly_sorted(keys@),
            forall|i: u64| keys@.contains(i) <==> indexed(fs, i),
            groups@.len() == keys@.len(),
            forall|t: int|
                0 <= t < groups@.len() ==> (#[trigger] groups@[t])@ == select(
                    fs.take(it.index() as int),
                    Some(keys@[t]),
                ),
            period@ == select(fs.take(it.index() as int), None),
    {
        let ghost n = it.index() as int;
        let ghost pre = fs.take(n);
        let ghost nxt = fs.take(n + 1);
        proof {
            assert(nxt.drop_last() =~= pre);
            assert(nxt.last() == fs[n]);
            assert(f == fs[n]);
        }
        match f.record_index {
            Some(i) => {
                proof {
                    assert(indexed(fs, i));
                }
                match find_key(&keys, i) {
                    Some(p) => {
                        let ghost old_groups = groups@;
                        let mut g = groups.remove(p);
                        g.push(f);
                        groups.insert(p, g);
                        proof {
                            assert forall|t: int| 0 <= t < groups@.len() implies (
                            #[trigger] groups@[t])@ == select(nxt, Some(keys@[t])) by {
                                if t == p {
                                    assert(groups@[t] == g);
                                } else {
                                    assert(groups@[t] == old_groups[t]);
                                    assert(keys@[t] != keys@[p as int]);
                                }
                            }
                        }
                    },
                    None => {
                        proof {
                            assert(false);
                        }
                    },
                }
            },
            None => {
                period.push(f);
                proof {
                    assert forall|t: int| 0 <= t < groups@.len() implies (
                    #[trigger] groups@[t])@ == select(nxt, Some(keys@[t])) by {
                        assert(select(nxt, Some(keys@[t])) == select(pre, Some(keys@[t])));
                    }
                }
            },
        }
    }
    proof {
        assert(fs.take(fs.len() as int) =~= fs);
    }
    (keys, groups, period)
}

/// The records a period's triage covers: every record index that was scored
/// or has findings, each once, in increasing order.
pub fn triage_indices(scored: &Vec<u64>, with_findings: &Vec<u64>) -> (r: Vec<u64>)
    ensures
        strictly_sorted(r@),
        forall|i: u64| r@.contains(i) <==> (scored@.contains(i) || with_findings@.contains(i)),
{
    let mut r: Vec<u64> = Vec::new();
    let mut a: usize = 0;
    while a < scored.len()
        invariant
            a <= scored@.len(),
            strictly_sorted(r@),
            forall|i: u64| r@.contains(i) <==> scored@.take(a as int).contains(i),
        decreases scored.len() - a,
    {
        insert_key(&mut r, scored[a]);
        proof {
            assert(scored@.take(a + 1) =~= scored@.take(a as int).push(scored@[a as int]));
            assert forall|i: u64| r@.contains(i) <==> scored@.take(a + 1).contains(i) by {
                let t = scored@.take(a + 1);
                if t.contains(i) {
                    let k = choose|k: int| 0 <= k < t.len() && t[k] == i;
                    if k < a {
                        assert(scored@.take(a as int)[k] == i);
                    }
                }
                if scored@.take(a as int).contains(i) {
                    let k = choose|k: int| 0 <= k < a && scored@.take(a as int)[k] == i;
                    assert(t[k] == i);
                }
                if i == scored@[a as int] {
                    assert(t[a as int] == i);
                }
            }
        }
        a = a + 1;
    }
    proof {
        assert(scored@.take(scored@.len() as int) =~= scored@);
    }
    let mut b: usize = 0;
    while b < with_findings.len()
        invariant
            b <= with_findings@.len(),
            strictly_sorted(r@),
            forall|i: u64| r@.contains(i) <==> (scored@.contains(i) || with_findings@.take(b as int).contains(i)),
        decreases with_findings.len() - b,
    {
        insert_key(&mut r, with_findings[b]);
        proof {
            let t = with_findings@.take(b + 1);
            let s = with_findings@.take(b as int);
            assert forall|i: u64| r@.contains(i) <==> (scored@.contains(i) || t.contains(i)) by {
                if t.contains(i) {
                    let k = choose|k: int| 0 <= k < t.len() && t[k] == i;
                    if k < b {
                        assert(s[k] == i);
                    }
                }
                if s.contains(i) {
                    let k = choose|k: int| 0 <= k < b && s[k] == i;
                    assert(t[k] == i);
                }
                if i == with_findings@[b as int] {
                    assert(t[b as int] == i);
                }
            }
        }
        b = b + 1;
    }
    proof {
        assert(with_findings@.take(with_findings@.len() as int) =~= with_findings@);
    }
    r
}

} // verus!
