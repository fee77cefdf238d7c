//! The diff of a whole period, with its machine-limit preconditions tested at
//! run time instead of demanded of the caller.
use vstd::prelude::*;
use crate::diff::{fkeys, nregs, sum_count, lemma_nregs_prefix};
use crate::diff::proven::{store_site_checkable, store_site_sane};
use crate::diff::runtime::gate_rows;
use crate::diff::sources::nkeys;
use crate::diff::summary::{
    budget, diff_metrics, lemma_sum_prefix, period_keys, period_note_keys, summary_of,
    DiffFindings,
};
use crate::groundtruth::GroundTruth;
use crate::metrics::CoreMetrics;
use crate::normalize::MetricRecord;

verus! {

fn count_regs(c: &CoreMetrics) -> (r: Option<u64>)
    ensures
        r matches Some(n) ==> n == nregs(c.register_evolution@),
        r is None ==> nregs(c.register_evolution@) > u64::MAX,
{
    let snaps = &c.register_evolution;
    let mut total: u64 = 0;
    let mut i: usize = 0;
    while i < snaps.len()
        invariant
            i <= snaps@.len(),
            snaps@ == c.register_evolution@,
            total == nregs(snaps@.take(i as int)),
        decreases snaps.len() - i,
    {
        proof {
            assert(snaps@.take(i + 1).drop_last() =~= snaps@.take(i as int));
        }
        match total.checked_add(snaps[i].regs.len() as u64) {
            Some(t) => {
                total = t;
            },
            None => {
                proof {
                    lemma_nregs_prefix(snaps@, i + 1);
                }
                return None;
            },
        }
        i = i + 1;
    }
    proof {
        assert(snaps@.take(snaps@.len() as int) =~= snaps@);
    }
    Some(total)
}

fn record_budget(c: &CoreMetrics) -> (r: Option<u64>)
    ensures
        r matches Some(b) ==> b == budget(*c),
        r is None ==> budget(*c) > u64::MAX,
{
    let n = match count_regs(c) {
        Some(n) => n,
        None => {
            return None;
        },
    };
    let rows: u64 = match &c.liveness_gate {
        Some(g) => g.kernel.len() as u64,
        None => 0,
    };
    assert(rows == gate_rows(*c));
    let a = match n.checked_mul(8) {
        Some(a) => a,
        None => {
            return None;
        },
    };
    let b = match rows.checked_mul(10) {
        Some(b) => b,
        None => {
            return None;
        },
    };
    let t1 = match a.checked_add(b) {
        Some(t) => t,
        None => {
            return None;
        },
    };
    let t2 = match t1.checked_add(c.runtime_samples.len() as u64) {
        Some(t) => t,
        None => {
            return None;
        },
    };
    let t3 = match t2.checked_add(c.helper_arg_observations.len() as u64) {
        Some(t) => t,
        None => {
            return None;
        },
    };
    t3.checked_add(8)
}

/// Whether the per-record counter budgets of `records` add up to at most
/// `u64::MAX`, so that no counter of the diff can overflow.
pub fn budget_fits(records: &Vec<MetricRecord>) -> (b: bool)
    ensures
        b == (sum_count(records@, |r: MetricRecord| budget(r.core)) <= u64::MAX),
{
    let ghost f = |r: MetricRecord| budget(r.core);
    let mut total: u64 = 0;
    let mut i: usize = 0;
    while i < records.len()
        invariant
            i <= records@.len(),
            f == (|r: MetricRecord| budget(r.core)),
            total == sum_count(records@.take(i as int), f),
        decreases records.len() - i,
    {
        proof {
            assert(records@.take(i + 1).drop_last() =~= records@.take(i as int));
            assert(records@.take(i + 1).last() == records@[i as int]);
        }
        match record_budget(&records[i].core) {
            Some(b) => match total.checked_add(b) {
                Some(t) => {
                    total = t;
                },
                None => {
                    proof {
                        lemma_sum_prefix(records@, f, i + 1);
                    }
                    return false;
                },
            },
            None => {
                proof {
                    lemma_sum_prefix(records@, f, i + 1);
                }
                return false;
            },
        }
        i = i + 1;
    }
    proof {
        assert(records@.take(records@.len() as int) =~= records@);
    }
    true
}

/// Compares a period's records against ground truth, as [`diff_metrics`] does,
/// when the diff's counters fit a `u64` and every declared store site has a
/// representable base; `None` when either limit is exceeded.
pub fn diff_period<G: GroundTruth>(records: &Vec<MetricRecord>, exec_count: u64, gt: &G) -> (r:
    Option<DiffFindings>)
    ensures
        r is Some <==> (sum_count(records@, |r: MetricRecord| budget(r.core)) <= u64::MAX
            && forall|i: int|
            0 <= i < records@.len() ==> store_site_sane(#[trigger] records@[i].core)),
        r matches Some(d) ==> {
            &&& d.exec_count == exec_count
            &&& fkeys(d.findings@) == period_keys(records@, *gt, records@.len())
            &&& nkeys(d.notes@) == period_note_keys(records@, *gt, records@.len())
            &&& d.summary == summary_of(records@, *gt)
        },
{
    if !budget_fits(records) {
        return None;
    }
    let mut i: usize = 0;
    while i < records.len()
        invariant
            i <= records@.len(),
            forall|k: int| 0 <= k < i ==> store_site_sane(#[trigger] records@[k].core),
        decreases records.len() - i,
    {
        if !store_site_checkable(&records[i].core) {
            return None;
        }
        i = i + 1;
    }
    Some(diff_metrics(records, exec_count, gt))
}

} // verus!
