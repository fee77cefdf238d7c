//! Canonical file names inside a period directory. Each side writes its own
//! files and never renames or rewrites the other side's.
use vstd::prelude::*;

verus! {

/// Raw, unchanged native tool output index (written by ingest).
pub const RAW_INDEX: &'static str = "raw/index.json";

/// Normalized metrics (normalize -> analyzer).
pub const NORMALIZED: &'static str = "normalized_metrics.json";

/// Anomaly scores (analyzer -> pipeline).
pub const ANOMALY_SCORES: &'static str = "anomaly_scores.json";

/// Documented-vs-observed diff findings.
pub const DIFF_FINDINGS: &'static str = "diff_findings.json";

/// The human-facing triaged period report.
pub const PERIOD_REPORT: &'static str = "period_report.json";

} // verus!
