//! Period bookkeeping. A period boundary is an exec-count threshold, not a timer.
//!
//! `exec_count` is the cumulative number of fuzzing execs (the counter N). A
//! period runs from `exec_start` until it has accrued `exec_threshold` execs.
//! Wall-clock time appears only as `harvest_unix`, a label stamped at harvest.
use vstd::prelude::*;

verus! {

/// Tracks one period's progress by cumulative exec count N.
#[derive(Debug, Clone)]
pub struct Period {
    /// Monotonic period id (0, 1, 2, ...).
    pub id: u64,
    /// Cumulative exec count N at which this period began.
    pub exec_start: u64,
    /// Current cumulative exec count N.
    pub exec_count: u64,
    /// Execs this period must accrue past `exec_start` before its boundary.
    pub exec_threshold: u64,
    /// Harvest timestamp (Unix seconds): a label only, set at harvest.
    pub harvest_unix: Option<u64>,
}

impl Period {
    /// Execs accrued since the period began (zero if the counter is behind the start).
    pub open spec fn execs_spec(self) -> nat {
        if self.exec_count >= self.exec_start {
            (self.exec_count - self.exec_start) as nat
        } else {
            0
        }
    }

    /// Whether the period has reached its exec-count boundary.
    pub open spec fn complete_spec(self) -> bool {
        self.execs_spec() >= self.exec_threshold
    }

    /// A new period starting at cumulative count `exec_start`.
    pub fn new(id: u64, exec_start: u64, exec_threshold: u64) -> (p: Self)
        ensures
            p.id == id,
            p.exec_start == exec_start,
            p.exec_count == exec_start,
            p.exec_threshold == exec_threshold,
            p.harvest_unix is None,
            p.execs_spec() == 0,
            p.complete_spec() <==> exec_threshold == 0,
    {
        Period { id, exec_start, exec_count: exec_start, exec_threshold, harvest_unix: None }
    }

    /// Execs accrued within this period so far (saturating at zero).
    pub fn execs_this_period(&self) -> (n: u64)
        ensures
            n == self.execs_spec(),
    {
        self.exec_count.saturating_sub(self.exec_start)
    }

    /// Whether this period has reached its exec-count boundary.
    pub fn is_complete(&self) -> (b: bool)
        ensures
            b == self.complete_spec(),
    {
        self.execs_this_period() >= self.exec_threshold
    }
}

/// Completion depends on the exec counter alone: the harvest timestamp, whatever
/// it holds, never decides whether a period is over.
pub proof fn lemma_completion_ignores_time(p: Period, label: Option<u64>)
    ensures
        (Period { harvest_unix: label, ..p }).complete_spec() == p.complete_spec(),
{
}

/// The boundary falls exactly `exec_threshold` execs after the period's start.
pub proof fn lemma_boundary_at_threshold(p: Period)
    requires
        p.exec_start <= p.exec_count,
    ensures
        p.complete_spec() <==> p.exec_count >= p.exec_start + p.exec_threshold,
{
}

/// Once complete, a period stays complete as the cumulative counter grows.
pub proof fn lemma_completion_is_monotone(p: Period, n: u64)
    requires
        p.complete_spec(),
        p.exec_count <= n,
    ensures
        (Period { exec_count: n, ..p }).complete_spec(),
{
}

/// A period with a zero threshold is complete from the start.
pub proof fn lemma_zero_threshold_completes(p: Period)
    requires
        p.exec_threshold == 0,
    ensures
        p.complete_spec(),
{
}

/// Periods run back to back, each starting where the previous one ended and
/// each run to its boundary: after `k` periods of threshold `n`, the cumulative
/// exec count has advanced by at least `k * n`. Each period starts at the count
/// the previous one actually ended on, so a pump that overshoots a boundary
/// carries its overshoot forward: boundaries fall at `N, 2N, 3N, ...` past the
/// first start exactly when no pump overshoots, and later otherwise.
pub proof fn lemma_chained_boundaries(ps: Seq<Period>, n: u64)
    requires
        ps.len() > 0,
        forall|k: int| 0 <= k < ps.len() ==> (#[trigger] ps[k]).exec_threshold == n,
        forall|k: int| 0 <= k < ps.len() ==> (#[trigger] ps[k]).complete_spec(),
        forall|k: int| 0 <= k < ps.len() ==> (#[trigger] ps[k]).exec_start <= ps[k].exec_count,
        forall|k: int| 0 < k < ps.len() ==> (#[trigger] ps[k]).exec_start == ps[k - 1].exec_count,
    ensures
        ps.last().exec_count >= ps[0].exec_start + ps.len() * n,
    decreases ps.len(),
{
    if ps.len() > 1 {
        let qs = ps.drop_last();
        assert forall|k: int| 0 < k < qs.len() implies (#[trigger] qs[k]).exec_start == qs[k
            - 1].exec_count by {
            assert(qs[k] == ps[k] && qs[k - 1] == ps[k - 1]);
        }
        lemma_chained_boundaries(qs, n);
        assert(qs.last() == ps[ps.len() - 2] && qs[0] == ps[0]);
        let last = ps[ps.len() - 1];
        assert(last.exec_start == ps[ps.len() - 2].exec_count);
        assert(last.exec_count >= last.exec_start + n);
        assert(qs.len() * n + n == ps.len() * n) by (nonlinear_arith)
            requires
                qs.len() + 1 == ps.len(),
        ;
    } else {
        assert(ps[0].complete_spec());
        assert(ps.len() * n == n) by (nonlinear_arith)
            requires
                ps.len() == 1,
        ;
    }
}

} // verus!
