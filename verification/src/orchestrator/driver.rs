//! The fuzzer-driver abstraction.
//!
//! The loop advances a period by exec count and, at the boundary, ingests the
//! native output the fuzzers wrote. A [`FuzzDriver`] hides how execs are produced
//! so that the loop's control flow does not depend on a real VM.
use vstd::prelude::*;
use crate::contract::{path_join, join_path};
use crate::ingest::Source;
use crate::text::{chars_of, lines, lines_of, starts_with_lit, string_from};

verus! {

/// Errors from a fuzzer driver.
#[derive(Debug)]
pub enum DriverError {
    /// Filesystem or process I/O failure.
    Io(std::io::Error),
}

/// Drives the fuzzers and reports progress by cumulative exec count.
pub trait FuzzDriver {
    /// The cumulative exec count this driver has observed.
    spec fn count(&self) -> u64;

    /// The cumulative exec count before the last successful pump.
    spec fn prev_count(&self) -> u64;

    /// Total fuzzing execs observed so far. This is the only quantity that
    /// advances a period, never wall-clock time.
    fn exec_count(&self) -> (n: u64)
        ensures
            n == self.count(),
    ;

    /// Advances the fuzzers and returns the new cumulative exec count, which is
    /// strictly greater than before, so that a period always terminates. A
    /// successful pump remembers the count it started from.
    fn pump(&mut self) -> (r: Result<u64, DriverError>)
        requires
            old(self).count() < u64::MAX,
        ensures
            r matches Ok(n) ==> n > old(self).count() && n == final(self).count()
                && final(self).prev_count() == old(self).count(),
    ;

    /// Where each tool has written its native output, for ingest to collect.
    fn sources(&self) -> Vec<Source>;
}

/// Produces the harness's native output on demand (a heavy, VM-backed run),
/// so the driver does not depend on booting a VM.
pub trait HarnessRunner {
    /// The destinations of every harness run so far, in order.
    spec fn runs_log(&self) -> Vec<String>;

    /// The program count the last run reported, or `None` if that run failed.
    spec fn last_batch(&self) -> Option<u64>;

    /// Runs the harness once and writes its native output to `dest`, creating
    /// `dest`'s directory first if it does not exist. Returns the number of
    /// programs (execs) produced in this batch. The run is logged with its
    /// destination, and its reported count (or its failure) is remembered.
    fn run(&mut self, dest: &String) -> (r: Result<u64, DriverError>)
        ensures
            final(self).runs_log()@ == old(self).runs_log()@.push(*dest),
            r matches Ok(n) ==> final(self).last_batch() == Some(n),
            r is Err ==> final(self).last_batch() is None,
    ;
}

/// Whether a harness output line opens a program block.
pub open spec fn is_prog_line(l: Seq<char>) -> bool {
    "===PROG "@.is_prefix_of(l)
}

/// The number of lines among `ls` that open a program block.
pub open spec fn prog_count(ls: Seq<Seq<char>>) -> nat
    decreases ls.len(),
{
    if ls.len() == 0 {
        0
    } else {
        prog_count(ls.drop_last()) + if is_prog_line(ls.last()) {
            1nat
        } else {
            0nat
        }
    }
}

proof fn lemma_prog_count_bound(ls: Seq<Seq<char>>)
    ensures
        prog_count(ls) <= ls.len(),
    decreases ls.len(),
{
    if ls.len() > 0 {
        lemma_prog_count_bound(ls.drop_last());
    }
}

/// Counts the `===PROG ` blocks in harness native output: the batch's exec count.
pub fn count_programs(text: &str) -> (n: u64)
    ensures
        n == prog_count(lines(text@)),
{
    let v = chars_of(text);
    let ls = lines_of(&v);
    let ghost all = lines(text@);
    let mut n: u64 = 0;
    let mut i: usize = 0;
    while i < ls.len()
        invariant
            i <= ls@.len(),
            ls@.len() == all.len(),
            forall|k: int| 0 <= k < ls@.len() ==> #[trigger] ls@[k]@ == all[k],
            n == prog_count(all.take(i as int)),
        decreases ls.len() - i,
    {
        proof {
            assert(all.take(i + 1).drop_last() =~= all.take(i as int));
            assert(all.take(i + 1).last() == all[i as int]);
            lemma_prog_count_bound(all.take(i as int));
        }
        if starts_with_lit(&ls[i], "===PROG ") {
            n = n + 1;
        }
        i = i + 1;
    }
    proof {
        assert(all.take(all.len() as int) =~= all);
    }
    n
}

/// The cumulative count after a harness batch that reported `batch` programs:
/// the batch counts at least one exec, and the sum saturates at `u64::MAX`.
pub open spec fn count_after(execs: u64, batch: u64) -> u64 {
    let step: int = if batch == 0 {
        1
    } else {
        batch as int
    };
    if execs + step > u64::MAX {
        u64::MAX
    } else {
        (execs + step) as u64
    }
}

/// Advances a cumulative exec count by one harness batch of `batch` programs.
pub fn advance_count(execs: u64, batch: u64) -> (n: u64)
    ensures
        n == count_after(execs, batch),
{
    let step: u64 = if batch == 0 {
        1
    } else {
        batch
    };
    execs.saturating_add(step)
}

/// Real driver: each pump runs the differential / verifier-log harness through
/// a [`HarnessRunner`] and points ingest at its captured native output. The exec
/// count is the cumulative number of programs the verifier processed.
pub struct VmHarnessDriver<R: HarnessRunner> {
    execs: u64,
    prev_execs: u64,
    runner: R,
    out_dir: String,
}

impl<R: HarnessRunner> VmHarnessDriver<R> {
    /// The directory that holds the collected native output.
    pub closed spec fn out_dir_spec(&self) -> Seq<char> {
        self.out_dir@
    }

    /// The harness runner this driver pumps.
    pub closed spec fn runner_spec(&self) -> R {
        self.runner
    }

    /// The harness runner this driver pumps.
    pub fn runner(&self) -> (r: &R)
        ensures
            *r == self.runner_spec(),
    {
        &self.runner
    }

    /// A driver that has seen no execs; its output goes under `out_dir`.
    pub fn new(out_dir: &str, runner: R) -> (d: Self)
        ensures
            d.count() == 0,
            d.prev_count() == 0,
            d.out_dir_spec() == out_dir@,
            d.runner_spec() == runner,
    {
        VmHarnessDriver { execs: 0, prev_execs: 0, runner, out_dir: string_from(out_dir) }
    }

    /// Where the harness output is captured: `<out_dir>/diffharness.log`.
    pub fn dest(&self) -> (p: String)
        ensures
            p@ == path_join(self.out_dir_spec(), "diffharness.log"@),
    {
        join_path(&self.out_dir, "diffharness.log")
    }
}

impl<R: HarnessRunner> FuzzDriver for VmHarnessDriver<R> {
    closed spec fn count(&self) -> u64 {
        self.execs
    }

    closed spec fn prev_count(&self) -> u64 {
        self.prev_execs
    }

    fn exec_count(&self) -> (n: u64) {
        self.execs
    }

    /// Runs one harness batch into `<out_dir>/diffharness.log`: the runner is
    /// run exactly once, with that destination. The count grows by the batch's
    /// program count as the runner reported it, and by at least one so that a
    /// period can always terminate (it saturates at `u64::MAX`). A failed run
    /// is returned as an error and leaves the counts unchanged.
    fn pump(&mut self) -> (r: Result<u64, DriverError>)
        ensures
            final(self).runner_spec().runs_log()@.len() == old(self).runner_spec().runs_log()@.len()
                + 1,
            final(self).runner_spec().runs_log()@.drop_last() == old(self).runner_spec().runs_log()@,
            final(self).runner_spec().runs_log()@.last()@ == path_join(
                old(self).out_dir_spec(),
                "diffharness.log"@,
            ),
            r is Err <==> final(self).runner_spec().last_batch() is None,
            r matches Ok(m) ==> final(self).runner_spec().last_batch() matches Some(n) && m
                == count_after(old(self).count(), n),
            r is Err ==> final(self).count() == old(self).count() && final(self).prev_count()
                == old(self).prev_count(),
            final(self).out_dir_spec() == old(self).out_dir_spec(),
    {
        let dest = self.dest();
        let n = match self.runner.run(&dest) {
            Ok(n) => n,
            Err(e) => return Err(e),
        };
        self.prev_execs = self.execs;
        self.execs = advance_count(self.execs, n);
        Ok(self.execs)
    }

    /// The one source: the captured harness output, under the tool name `diffharness`.
    fn sources(&self) -> (s: Vec<Source>)
        ensures
            s@.len() == 1,
            s@[0].tool@ == "diffharness"@,
            s@[0].path@ == path_join(self.out_dir_spec(), "diffharness.log"@),
    {
        let dest = self.dest();
        let mut v: Vec<Source> = Vec::new();
        v.push(Source { tool: string_from("diffharness"), path: dest });
        v
    }
}

} // verus!
