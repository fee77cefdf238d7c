//! The period loop that drives one hunting cycle up to its harvest boundary.
//!
//! The loop records what it observed; it never steers fuzzing toward its own
//! expectations. It stops at the harvest boundary so that a person triages each
//! batch: the period ends when the cumulative exec count reaches the boundary,
//! and wall-clock time is only a label stamped on the harvest.
use vstd::prelude::*;
use crate::ingest::IngestError;
use crate::orchestrator::driver::{DriverError, FuzzDriver};
use crate::orchestrator::period::Period;
use crate::contract::{path_join, PeriodPaths};

verus! {

/// Configuration for a loop run.
#[derive(Debug, Clone)]
pub struct LoopConfig {
    /// Root under which per-period artifacts are written (`<root>/periods/<N>/...`).
    pub data_root: String,
    /// Execs each period must accrue before its boundary (the harvest point).
    pub exec_threshold: u64,
}

/// What one period produced at its harvest boundary: the raw, unchanged batch
/// handed to the human in the loop.
#[derive(Debug, Clone)]
pub struct Harvest {
    /// Period id N.
    pub period_id: u64,
    /// Cumulative exec count at harvest.
    pub exec_count: u64,
    /// Path to the raw-index artifact for this period.
    pub raw_index: String,
    /// Number of native-output files collected.
    pub collected_files: usize,
}

impl Harvest {
    /// What a period harvested: its id and cumulative count, the path of its
    /// raw index under `paths`, and how many native-output files were collected.
    pub fn of(period: &Period, paths: &PeriodPaths, collected_files: usize) -> (h: Harvest)
        ensures
            h.period_id == period.id,
            h.exec_count == period.exec_count,
            h.raw_index@ == path_join(paths.root@, crate::contract::filenames::RAW_INDEX@),
            h.collected_files == collected_files,
    {
        Harvest {
            period_id: period.id,
            exec_count: period.exec_count,
            raw_index: paths.raw_index(),
            collected_files,
        }
    }
}

/// The next period of a chain: it starts where the driver's cumulative count
/// stands, so after a period run to its boundary the next one begins exactly
/// where the previous one ended.
pub fn next_period<D: FuzzDriver>(id: u64, driver: &D, exec_threshold: u64) -> (p: Period)
    ensures
        p.id == id,
        p.exec_start == driver.count(),
        p.exec_count == driver.count(),
        p.exec_threshold == exec_threshold,
        p.harvest_unix is None,
{
    Period::new(id, driver.exec_count(), exec_threshold)
}

/// Errors from running the loop.
#[derive(Debug)]
pub enum LoopError {
    /// The fuzzer driver failed.
    Driver(DriverError),
    /// The ingest stage failed.
    Ingest(IngestError),
    /// The period's boundary, `exec_start + exec_threshold`, does not fit the
    /// exec counter, so no count could ever reach it.
    BoundaryOverflow,
}

/// Drives the fuzzers until `period` reaches its exec-count boundary.
///
/// The period's counter is first synchronized with the driver, then the driver
/// is pumped until the boundary is reached; nothing but the exec count decides
/// when to stop: a period already complete at synchronization pumps nothing,
/// and otherwise the run stops at the first pumped count that reaches the
/// boundary (the count before the last pump had not).
/// A driver error ends the run and is returned as is. The boundary `exec_start + exec_threshold` must be representable as a `u64`.
pub fn run_to_boundary<D: FuzzDriver>(period: &mut Period, driver: &mut D) -> (r: Result<
    (),
    DriverError,
>)
    requires
        old(period).exec_start + old(period).exec_threshold <= u64::MAX,
    ensures
        final(period).id == old(period).id,
        final(period).exec_start == old(period).exec_start,
        final(period).exec_threshold == old(period).exec_threshold,
        final(period).harvest_unix == old(period).harvest_unix,
        r is Ok ==> final(period).complete_spec(),
        r is Ok ==> final(period).exec_count == final(driver).count(),
        r is Ok && old(period).exec_start <= old(driver).count() ==> final(period).exec_count
            >= old(period).exec_start + old(period).exec_threshold,
        (Period { exec_count: old(driver).count(), ..*old(period) }).complete_spec() ==> r is Ok
            && *final(driver) == *old(driver),
        r is Ok && !(Period { exec_count: old(driver).count(), ..*old(period) }).complete_spec()
            ==> !(Period { exec_count: final(driver).prev_count(), ..*old(period) }).complete_spec(),
{
    let ghost mut pumped = false;
    period.exec_count = driver.exec_count();
    while !period.is_complete()
        invariant
            !pumped ==> *driver == *old(driver) && period.exec_count == old(driver).count(),
            pumped ==> !(Period { exec_count: driver.prev_count(), ..*old(period) }).complete_spec(),
            (Period { exec_count: old(driver).count(), ..*old(period) }).complete_spec() ==> !pumped,
            period.id == old(period).id,
            period.exec_start == old(period).exec_start,
            period.exec_threshold == old(period).exec_threshold,
            period.harvest_unix == old(period).harvest_unix,
            period.exec_start + period.exec_threshold <= u64::MAX,
            period.exec_count == driver.count(),
            period.exec_count >= old(driver).count(),
        decreases u64::MAX - period.exec_count,
    {
        let ghost before = *period;
        match driver.pump() {
            Ok(n) => {
                period.exec_count = n;
                proof {
                    pumped = true;
                    assert((Period { exec_count: driver.prev_count(), ..*old(period) }) == before);
                }
            },
            Err(e) => {
                return Err(e);
            },
        }
    }
    Ok(())
}

} // verus!
