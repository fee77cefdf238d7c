use verifierloop::contract::{check_version, join_path, ContractError, PeriodPaths, CONTRACT_VERSION};
use verifierloop::diff::period::diff_period;
use verifierloop::diff::summary::diff_metrics;
use verifierloop::diff::GroundTruthSource;
use verifierloop::groundtruth::helper_proto::HelperProtoModel;
use verifierloop::groundtruth::{NoGroundTruth, StaticGroundTruth};
use verifierloop::ingest::{fnv1a64_hex, RawEntry, Source};
use verifierloop::metrics::{
    CoreMetrics, CounterfactualLayer, CoverageDelta, Expectation, ExpectationFlag,
    HelperArgViolation, JitInterpDiff, Processed, RegSnapshot, RegState, RuntimeSample, StoreSite, Tnum,
    VerifierDecision,
};
use verifierloop::normalize::{
    assemble, MetricRecord, ParseOutput, ParsedRecord, RecordParser, ReferenceParser,
    UnimplementedParser, UnparsedBlock, UnparsedKind,
};
use verifierloop::orchestrator::driver::{
    count_programs, DriverError, FuzzDriver, HarnessRunner, VmHarnessDriver,
};
use verifierloop::orchestrator::loop_runtime::run_to_boundary;
use verifierloop::orchestrator::period::Period;
use verifierloop::diff::DivergenceFinding;
use verifierloop::report::{partition_findings, triage_indices, ParseHealth};
use verifierloop::score::PythonAnalyzer;

// ---------------------------------------------------------------------------
// contract
// ---------------------------------------------------------------------------

#[test]
fn period_paths_layout() {
    let p = PeriodPaths::new(&"/data".to_string(), 7);
    assert_eq!(p.root, "/data/periods/7");
    assert_eq!(p.period_id, 7);
    assert_eq!(p.normalized(), "/data/periods/7/normalized_metrics.json");
    assert_eq!(p.raw_index(), "/data/periods/7/raw/index.json");
}

#[test]
fn every_artifact_lives_under_its_period() {
    let p = PeriodPaths::new(&"base/".to_string(), 12);
    assert_eq!(p.root, "base/periods/12");
    assert_eq!(p.anomaly_scores(), "base/periods/12/anomaly_scores.json");
    assert_eq!(p.diff_findings(), "base/periods/12/diff_findings.json");
    assert_eq!(p.period_report(), "base/periods/12/period_report.json");
    assert_eq!(p.artifact("raw"), "base/periods/12/raw");
}

#[test]
fn path_joining_follows_path_join() {
    assert_eq!(join_path(&"a".to_string(), "b"), "a/b");
    assert_eq!(join_path(&"a/".to_string(), "b"), "a/b");
    assert_eq!(join_path(&"".to_string(), "b"), "b");
    assert_eq!(join_path(&"a".to_string(), "/abs"), "/abs");
}

#[test]
fn version_mismatch_detected() {
    assert!(check_version(CONTRACT_VERSION).is_ok());
    match check_version(9999) {
        Err(ContractError::VersionMismatch { found, expected }) => {
            assert_eq!(found, 9999);
            assert_eq!(expected, CONTRACT_VERSION);
        }
        other => panic!("expected a version mismatch, got {other:?}"),
    }
}

// ---------------------------------------------------------------------------
// ingest
// ---------------------------------------------------------------------------

#[test]
fn fingerprint_is_deterministic_and_content_sensitive() {
    assert_eq!(fnv1a64_hex(b"abc"), fnv1a64_hex(b"abc"));
    assert_ne!(fnv1a64_hex(b"abc"), fnv1a64_hex(b"abd"));
    assert_eq!(fnv1a64_hex(b""), "cbf29ce484222325");
}

#[test]
fn fingerprint_matches_known_fnv1a_vectors() {
    assert_eq!(fnv1a64_hex(b"a"), "af63dc4c8601ec8c");
    assert_eq!(fnv1a64_hex(b"foobar"), "85944171f73967e8");
}

#[test]
fn raw_entry_catalogues_a_blob_unchanged() {
    let e = RawEntry::of_blob("trinity", "/tmp/t.log", "t.log", b"hello", Some(17));
    assert_eq!(e.tool, "trinity");
    assert_eq!(e.source_path, "/tmp/t.log");
    assert_eq!(e.stored_path, "trinity/t.log");
    assert_eq!(e.bytes, 5);
    assert_eq!(e.mtime_unix, Some(17));
    assert_eq!(e.fingerprint, fnv1a64_hex(b"hello"));
    let nested = RawEntry::of_blob("syzkaller", "/x/crashes/report0", "crashes/report0", b"", None);
    assert_eq!(nested.stored_path, "syzkaller/crashes/report0");
    assert_eq!(nested.fingerprint, "cbf29ce484222325");
}

#[test]
fn source_keeps_tool_and_path() {
    let s = Source::new("syzkaller", "/out/syz");
    assert_eq!(s.tool, "syzkaller");
    assert_eq!(s.path, "/out/syz");
}

// ---------------------------------------------------------------------------
// orchestrator
// ---------------------------------------------------------------------------

#[test]
fn boundary_is_exec_count_not_time() {
    let mut p = Period::new(1, 100, 50);
    assert_eq!(p.execs_this_period(), 0);
    p.exec_count = 120;
    assert!(!p.is_complete(), "only 20 execs into a 50-exec period");
    p.exec_count = 150;
    assert!(p.is_complete(), "reached +50 exec boundary");
    assert_eq!(p.execs_this_period(), 50);
}

#[test]
fn zero_threshold_completes_immediately() {
    let p = Period::new(0, 0, 0);
    assert!(p.is_complete());
}

#[test]
fn a_harvest_label_never_completes_a_period() {
    let mut p = Period::new(2, 10, 5);
    p.harvest_unix = Some(1_700_000_000);
    assert!(!p.is_complete());
    p.exec_count = 3; // a counter behind the start accrues nothing
    assert_eq!(p.execs_this_period(), 0);
}

const HARNESS_SAMPLE: &str = "\
===PROG a type=socket_filter ===
RESULT decision=accept fd=3 errno=0 load_ns=1
---LOG---
processed 2 insns (limit 1000000) total_states 0 peak_states 0
---END---
===PROG b type=socket_filter ===
RESULT decision=reject fd=-1 errno=13 load_ns=1
---LOG---
R0 !read_ok
processed 1 insns (limit 1000000) total_states 0 peak_states 0
---END---
";

#[test]
fn count_programs_counts_prog_blocks() {
    assert_eq!(count_programs(HARNESS_SAMPLE), 2);
    assert_eq!(count_programs(""), 0);
    assert_eq!(count_programs(" ===PROG indented ===\n===PROGX\n"), 0);
}

struct CannedRunner {
    sample: &'static str,
    dests: Vec<String>,
    fail: bool,
    last: Option<u64>,
}

fn canned(sample: &'static str, fail: bool) -> CannedRunner {
    CannedRunner { sample, dests: Vec::new(), fail, last: None }
}

impl HarnessRunner for CannedRunner {
    fn runs_log(&self) -> Vec<String> {
        self.dests.clone()
    }

    fn last_batch(&self) -> Option<u64> {
        self.last
    }

    fn run(&mut self, dest: &String) -> Result<u64, DriverError> {
        self.dests.push(dest.clone());
        if self.fail {
            self.last = None;
            return Err(DriverError::Io(std::io::Error::new(std::io::ErrorKind::Other, "down")));
        }
        self.last = Some(count_programs(self.sample));
        Ok(count_programs(self.sample))
    }
}

#[test]
fn pump_advances_exec_count_by_the_batch() {
    let runner = canned(HARNESS_SAMPLE, false);
    let mut d = VmHarnessDriver::new("/out", runner);
    assert_eq!(d.exec_count(), 0);
    assert_eq!(d.pump().unwrap(), 2, "two programs per batch");
    assert_eq!(d.exec_count(), 2);
    assert_eq!(d.pump().unwrap(), 4);
    assert_eq!(d.dest(), "/out/diffharness.log");
    assert_eq!(d.runner().dests, vec!["/out/diffharness.log".to_string(); 2], "one run per pump");
    assert_eq!(d.runner().last, Some(2));
    let srcs = d.sources();
    assert_eq!(srcs.len(), 1);
    assert_eq!(srcs[0].tool, "diffharness");
    assert_eq!(srcs[0].path, "/out/diffharness.log");
}

#[test]
fn an_empty_batch_still_makes_progress() {
    let runner = canned("", false);
    let mut d = VmHarnessDriver::new("/out", runner);
    assert_eq!(d.pump().unwrap(), 1);
    assert_eq!(d.pump().unwrap(), 2);
}

#[test]
fn a_failed_run_leaves_the_count_alone() {
    let runner = canned(HARNESS_SAMPLE, true);
    let mut d = VmHarnessDriver::new("/out", runner);
    assert!(d.pump().is_err());
    assert_eq!(d.exec_count(), 0);
    assert_eq!(d.runner().dests, vec!["/out/diffharness.log".to_string()]);
}

#[test]
fn a_period_runs_to_its_exec_boundary() {
    let runner = canned(HARNESS_SAMPLE, false);
    let mut d = VmHarnessDriver::new("/out", runner);
    let mut p = Period::new(0, 0, 5);
    run_to_boundary(&mut p, &mut d).unwrap();
    assert!(p.is_complete());
    assert_eq!(p.exec_count, 6, "three batches of two");
    assert_eq!(d.exec_count(), 6);
    assert_eq!(p.harvest_unix, None);

    // The next period starts where this one ended.
    let mut next = Period::new(1, d.exec_count(), 5);
    run_to_boundary(&mut next, &mut d).unwrap();
    assert_eq!(next.exec_count, 12);
}

#[test]
fn a_driver_error_ends_the_period_run() {
    let runner = canned(HARNESS_SAMPLE, true);
    let mut d = VmHarnessDriver::new("/out", runner);
    let mut p = Period::new(0, 0, 5);
    assert!(run_to_boundary(&mut p, &mut d).is_err());
    assert!(!p.is_complete());
}

// ---------------------------------------------------------------------------
// normalize
// ---------------------------------------------------------------------------

fn empty_core(decision: VerifierDecision) -> CoreMetrics {
    CoreMetrics {
        verifier_decision: decision,
        register_evolution: Vec::new(),
        processed: Processed::default(),
        jit_interp_diff: None,
        coverage_delta: CoverageDelta::default(),
        helper_arg_violations: Vec::new(),
        helper_arg_observations: Vec::new(),
        runtime_samples: Vec::new(),
        intended_retval: None,
        multi_path: None,
        store_site: None,
        prune_probe: None,
        liveness_gate: None,
    }
}

#[test]
fn assembles_records_stamps_provenance() {
    let mut stamped = empty_core(VerifierDecision::Accept);
    stamped.coverage_delta.exec_n = 7;
    let out = ParseOutput {
        records: vec![
            ParsedRecord {
                core: empty_core(VerifierDecision::Accept),
                notes: Vec::new(),
                label: Some("p0".to_string()),
            },
            ParsedRecord {
                core: empty_core(VerifierDecision::Reject { reason: "bad_ptr".into() }),
                notes: vec!["partial".to_string()],
                label: None,
            },
        ],
        unparsed: vec![UnparsedBlock {
            label: "p2".to_string(),
            kind: UnparsedKind::NotObserved,
            reason: "no verifier output".to_string(),
        }],
    };
    let second = ParseOutput {
        records: vec![ParsedRecord { core: stamped, notes: Vec::new(), label: None }],
        unparsed: Vec::new(),
    };
    let (records, unparsed) = assemble(vec![out, second], 99);
    assert_eq!(records.len(), 3);
    assert_eq!(records[0].core.coverage_delta.exec_n, 99);
    assert_eq!(records[1].core.coverage_delta.exec_n, 99);
    assert_eq!(records[2].core.coverage_delta.exec_n, 7, "a parser's own counter is kept");
    assert_eq!(records[0].core.verifier_decision, VerifierDecision::Accept);
    assert_eq!(
        records[1].core.verifier_decision,
        VerifierDecision::Reject { reason: "bad_ptr".into() }
    );
    assert_eq!(records[0].source_label.as_deref(), Some("p0"));
    assert_eq!(records[1].parse_notes, vec!["partial".to_string()]);
    assert!(!records[0].counterfactual.enabled);
    assert_eq!(records[0].expectation.expected, Expectation::NoPrediction);
    assert_eq!(unparsed.len(), 1);
    assert_eq!(unparsed[0].label, "p2");
}

#[test]
fn unimplemented_parser_yields_no_records() {
    let out = UnimplementedParser.parse("trinity", b"whatever native bytes");
    assert!(out.records.is_empty());
    assert!(out.unparsed.is_empty());
    let (records, unparsed) = assemble(vec![out], 3);
    assert!(records.is_empty());
    assert!(unparsed.is_empty());
}

#[test]
fn reference_parser_maps_each_line_to_a_record() {
    let out = ReferenceParser.parse("golden", b"ok\n\n   \nbuggy\n  buggy  \nother\n");
    assert!(out.unparsed.is_empty());
    assert_eq!(out.records.len(), 4);
    let clean = &out.records[0].core;
    assert_eq!(clean.verifier_decision, VerifierDecision::Accept);
    assert_eq!(clean.register_evolution.len(), 1);
    assert_eq!(clean.register_evolution[0].regs[0].tnum, Tnum { value: 0, mask: 0xff });
    assert_eq!(clean.processed, Processed { insn_processed: 12, states_processed: 3 });
    assert_eq!(
        clean.jit_interp_diff,
        Some(JitInterpDiff { retval_jit: 0, retval_interp: 0, data_out_equal: true })
    );
    assert!(clean.helper_arg_violations.is_empty());

    for buggy in [&out.records[1].core, &out.records[2].core] {
        assert_eq!(buggy.register_evolution[0].regs[0].tnum, Tnum { value: 1, mask: 0xff });
        assert_eq!(buggy.jit_interp_diff.unwrap().retval_jit, 1);
        assert_eq!(
            buggy.helper_arg_violations,
            vec![HelperArgViolation {
                helper: "bpf_map_lookup_elem".to_string(),
                arg_index: 1,
                expected: "PTR_TO_MAP_KEY".to_string(),
                observed: "SCALAR_VALUE".to_string(),
            }]
        );
    }
    assert!(out.records[3].core.helper_arg_violations.is_empty());
}

// ---------------------------------------------------------------------------
// diff
// ---------------------------------------------------------------------------

fn record_with_reg(reg: RegState) -> MetricRecord {
    let mut core = empty_core(VerifierDecision::Accept);
    core.register_evolution = vec![RegSnapshot { insn_idx: 0, regs: vec![reg] }];
    MetricRecord {
        core,
        counterfactual: CounterfactualLayer::default(),
        expectation: ExpectationFlag::default(),
        parse_notes: Vec::new(),
        source_label: None,
    }
}

fn well_formed_reg() -> RegState {
    RegState {
        reg: 0,
        reg_type: "scalar".to_string(),
        tnum: Tnum { value: 0, mask: 0xff },
        umin: 0,
        umax: 255,
        smin: 0,
        smax: 255,
        ..Default::default()
    }
}

#[test]
fn clean_observation_yields_no_findings() {
    let out = diff_metrics(&vec![record_with_reg(well_formed_reg())], 100, &NoGroundTruth);
    assert_eq!(out.findings.len(), 0);
    assert_eq!(out.summary.record_count, 1);
    assert_eq!(out.summary.finding_count, 0);
    assert_eq!(out.exec_count, 100);
}

#[test]
fn detects_malformed_tnum() {
    let mut reg = well_formed_reg();
    reg.tnum = Tnum { value: 1, mask: 0xff };
    let out = diff_metrics(&vec![record_with_reg(reg)], 100, &NoGroundTruth);
    assert!(out
        .findings
        .iter()
        .any(|f| f.kind == "tnum_malformed" && f.source == GroundTruthSource::LogicalInvariant));
    assert_eq!(out.summary.by_source.logical_invariant, out.summary.finding_count);
}

#[test]
fn detects_inverted_bounds() {
    let mut reg = well_formed_reg();
    reg.umin = 10;
    reg.umax = 5;
    let out = diff_metrics(&vec![record_with_reg(reg)], 100, &NoGroundTruth);
    assert!(out.findings.iter().any(|f| f.kind == "unsigned_bounds_inverted"));
}

#[test]
fn detects_jit_interp_divergence() {
    let mut rec = record_with_reg(well_formed_reg());
    rec.core.jit_interp_diff =
        Some(JitInterpDiff { retval_jit: 1, retval_interp: 0, data_out_equal: true });
    let out = diff_metrics(&vec![rec], 100, &NoGroundTruth);
    assert!(out.findings.iter().any(|f| f.kind == "jit_interp_divergence"));
}

#[test]
fn helper_proto_finding_needs_the_oracle() {
    let mut rec = record_with_reg(well_formed_reg());
    rec.core.helper_arg_violations = vec![HelperArgViolation {
        helper: "bpf_map_lookup_elem".to_string(),
        arg_index: 1,
        expected: "PTR_TO_MAP_KEY".to_string(),
        observed: "SCALAR_VALUE".to_string(),
    }];
    let records = vec![rec];

    let out_none = diff_metrics(&records, 100, &NoGroundTruth);
    assert!(!out_none.findings.iter().any(|f| f.source == GroundTruthSource::HelperProto));

    let gt = StaticGroundTruth::with_helper_proto(
        HelperProtoModel::new().with_contract("bpf_map_lookup_elem", 1, "PTR_TO_MAP_KEY"),
    );
    let out_gt = diff_metrics(&records, 100, &gt);
    let hit = out_gt
        .findings
        .iter()
        .find(|f| f.source == GroundTruthSource::HelperProto)
        .expect("helper_proto finding");
    assert_eq!(hit.kind, "helper_arg_type_mismatch");
    assert_eq!(hit.expected, "PTR_TO_MAP_KEY");
    assert_eq!(hit.observed, "SCALAR_VALUE");
    assert_eq!(out_gt.summary.by_source.helper_proto, 1);
}

#[test]
fn the_reference_fixture_trips_every_signal() {
    let out = ReferenceParser.parse("golden", b"clean\nbuggy\n");
    let (records, _) = assemble(vec![out], 10);
    let gt = StaticGroundTruth::with_helper_proto(
        HelperProtoModel::new().with_contract("bpf_map_lookup_elem", 1, "PTR_TO_MAP_KEY"),
    );
    let diff = diff_metrics(&records, 10, &gt);
    assert!(diff.findings.iter().all(|f| f.record_index == Some(1)), "{:?}", diff.findings);
    assert!(diff.findings.iter().any(|f| f.kind == "tnum_malformed"));
    assert!(diff.findings.iter().any(|f| f.kind == "jit_interp_divergence"));
    assert!(diff.findings.iter().any(|f| f.source == GroundTruthSource::HelperProto));
    assert_eq!(diff.summary.finding_count as usize, diff.findings.len());
}

// ---------------------------------------------------------------------------
// report and score
// ---------------------------------------------------------------------------

#[test]
fn parse_health_reconciles_blocks() {
    let mut noted = record_with_reg(well_formed_reg());
    noted.parse_notes = vec!["reject reason not identified".to_string()];
    let records = vec![record_with_reg(well_formed_reg()), noted];
    let block = |kind| UnparsedBlock { label: "x".into(), kind, reason: "r".into() };
    let unparsed = vec![
        block(UnparsedKind::NotObserved),
        block(UnparsedKind::Unrecognized),
        block(UnparsedKind::NotObserved),
    ];
    let h = ParseHealth::of(&records, &unparsed);
    assert_eq!(
        h,
        ParseHealth {
            blocks: 5,
            records: 2,
            records_with_notes: 1,
            unparsed_blocks: 3,
            unparsed_not_observed: 2,
            unrecognized: 1,
        }
    );
    assert_eq!(ParseHealth::of(&Vec::new(), &Vec::new()), ParseHealth::default());
}

#[test]
fn python_analyzer_defaults_and_pythonpath() {
    let a = PythonAnalyzer::new();
    assert_eq!(a.program, "python3");
    assert_eq!(a.module_args, vec!["-m".to_string(), "verifierloop_analysis".to_string()]);
    assert_eq!(a.pythonpath, None);
    assert_eq!(a.pythonpath_env("/x"), None);
    let b = a.with_pythonpath("/repo/python/src");
    assert_eq!(b.pythonpath.as_deref(), Some("/repo/python/src"));
    assert_eq!(b.pythonpath_env("").as_deref(), Some("/repo/python/src"));
    assert_eq!(b.pythonpath_env("/site").as_deref(), Some("/repo/python/src:/site"));
}

fn finding(record_index: Option<u64>, kind: &str) -> DivergenceFinding {
    DivergenceFinding {
        record_index,
        source: GroundTruthSource::LogicalInvariant,
        kind: kind.to_string(),
        aspect: "tnum".to_string(),
        expected: "e".to_string(),
        observed: "o".to_string(),
        detail: "d".to_string(),
    }
}

#[test]
fn findings_are_split_per_record_and_period() {
    let (keys, groups, period) = partition_findings(vec![
        finding(Some(4), "a"),
        finding(None, "period_level_thing"),
        finding(Some(1), "b"),
        finding(Some(4), "c"),
    ]);
    assert_eq!(keys, vec![1, 4]);
    let kinds = |g: &Vec<DivergenceFinding>| g.iter().map(|f| f.kind.clone()).collect::<Vec<_>>();
    assert_eq!(kinds(&groups[0]), vec!["b"]);
    assert_eq!(kinds(&groups[1]), vec!["a", "c"]);
    assert_eq!(kinds(&period), vec!["period_level_thing"]);
}

#[test]
fn triage_covers_scored_and_diverging_records_once() {
    assert_eq!(triage_indices(&vec![3, 0, 3], &vec![5, 0]), vec![0, 3, 5]);
    assert!(triage_indices(&Vec::new(), &Vec::new()).is_empty());
}

#[test]
fn diff_period_refuses_an_unrepresentable_store_base() {
    let ok = diff_period(&vec![record_with_reg(well_formed_reg())], 5, &NoGroundTruth)
        .expect("an ordinary period diffs");
    assert_eq!(ok.summary.record_count, 1);
    assert_eq!(ok.exec_count, 5);

    let ptr = RegState {
        reg: 1,
        reg_type: "map_value".to_string(),
        ptr_off: Some(1),
        ..Default::default()
    };
    let mut rec = record_with_reg(ptr);
    rec.core.store_site = Some(StoreSite { insn_idx: 0, base_reg: 1, insn_off: i64::MAX, size: 1 });
    assert!(diff_period(&vec![rec], 5, &NoGroundTruth).is_none());
}

#[test]
fn distinct_periods_never_share_a_path() {
    let root = "/data".to_string();
    let one = PeriodPaths::new(&root, 1);
    let ten = PeriodPaths::new(&root, 10);
    let eleven = PeriodPaths::new(&root, 11);
    assert_ne!(one.raw_index(), ten.raw_index());
    assert_ne!(one.root, eleven.root);
    assert_ne!(ten.period_report(), eleven.period_report());
}

#[test]
fn the_loop_layers_never_change_the_diff() {
    let plain = vec![record_with_reg(well_formed_reg())];
    let mut layered = plain.clone();
    layered[0].counterfactual = CounterfactualLayer {
        enabled: true,
        alternatives: vec!["what if r0 were 1".to_string()],
    };
    layered[0].expectation =
        ExpectationFlag { expected: Expectation::Unexpected, predicted: Some("reject".into()) };
    layered[0].parse_notes = vec!["partial".to_string()];
    let a = diff_metrics(&plain, 9, &NoGroundTruth);
    let b = diff_metrics(&layered, 9, &NoGroundTruth);
    assert_eq!(a, b);

    let mut bad = well_formed_reg();
    bad.umin = 9;
    bad.umax = 1;
    let plain = vec![record_with_reg(bad)];
    let mut layered = plain.clone();
    layered[0].counterfactual.enabled = true;
    assert_eq!(diff_metrics(&plain, 9, &NoGroundTruth), diff_metrics(&layered, 9, &NoGroundTruth));
}

#[test]
fn reference_parser_decodes_invalid_utf8_lossily() {
    // An invalid byte becomes U+FFFD, so the line is no longer the sentinel.
    let out = ReferenceParser.parse("golden", b"buggy\xff\nbuggy\n");
    assert_eq!(out.records.len(), 2);
    assert!(out.records[0].core.helper_arg_violations.is_empty());
    assert_eq!(out.records[1].core.helper_arg_violations.len(), 1);
}

fn scalar_r0(insn: u32, umax: u64) -> RegSnapshot {
    RegSnapshot {
        insn_idx: insn,
        regs: vec![RegState {
            reg: 0,
            reg_type: "scalar".to_string(),
            tnum: Tnum { value: 0, mask: 0xff },
            umin: 0,
            umax,
            smin: 0,
            smax: umax as i64,
            u32_min: Some(0),
            u32_max: Some(umax),
            ..Default::default()
        }],
    }
}

fn sample(input: u64, retval: u64, store_off: Option<i64>) -> RuntimeSample {
    RuntimeSample {
        input,
        retval,
        retval_observed: true,
        intended_retval: None,
        store_off,
        store_len: None,
        store_size: None,
        executed: None,
        error: false,
    }
}

#[test]
fn malformed_tnum_finding_reads_like_the_log() {
    let mut reg = well_formed_reg();
    reg.tnum = Tnum { value: 1, mask: 0xff };
    let out = diff_metrics(&vec![record_with_reg(reg)], 100, &NoGroundTruth);
    let f = out.findings.iter().find(|f| f.kind == "tnum_malformed").unwrap();
    assert_eq!(f.aspect, "tnum");
    assert_eq!(f.expected, "value & mask == 0");
    assert_eq!(f.observed, "value=0x1 mask=0xff overlap=0x1");
    assert_eq!(f.detail, "insn 0 r0 (scalar): tnum known/unknown bits overlap");
}

#[test]
fn jit_divergence_finding_reports_both_values() {
    let mut rec = record_with_reg(well_formed_reg());
    rec.core.jit_interp_diff =
        Some(JitInterpDiff { retval_jit: -1, retval_interp: 0, data_out_equal: false });
    let out = diff_metrics(&vec![rec], 100, &NoGroundTruth);
    let f = out.findings.iter().find(|f| f.kind == "jit_interp_divergence").unwrap();
    assert_eq!(f.expected, "retval_jit == retval_interp && data_out_equal");
    assert_eq!(f.observed, "retval_jit=-1 retval_interp=0 data_out_equal=false");
    assert_eq!(f.detail, "JIT and interpreter diverged on a verified program");
}

#[test]
fn runtime_bound_violation_names_the_bound_and_the_value() {
    let mut rec = record_with_reg(well_formed_reg());
    rec.core.register_evolution = vec![scalar_r0(3, 10)];
    rec.core.runtime_samples = vec![sample(5, 20, None), sample(6, 7, None)];
    let out = diff_metrics(&vec![rec], 100, &NoGroundTruth);
    let hits: Vec<&DivergenceFinding> =
        out.findings.iter().filter(|f| f.kind == "runtime_bound_violation").collect();
    assert_eq!(hits.len(), 1);
    assert_eq!(hits[0].expected, "retval in [0,10] (verifier's proven r0 bound)");
    assert_eq!(hits[0].observed, "input=0x5 retval=20 (0x14)");
    assert_eq!(
        hits[0].detail,
        "r0 up to insn 3: runtime return value escaped the verifier's proven bound"
    );
}

#[test]
fn store_location_desync_reports_the_proven_window() {
    let mut rec = record_with_reg(well_formed_reg());
    rec.core.store_site = Some(StoreSite { insn_idx: 2, base_reg: 1, insn_off: 0, size: 1 });
    rec.core.register_evolution = vec![RegSnapshot {
        insn_idx: 2,
        regs: vec![RegState {
            reg: 1,
            reg_type: "map_value".to_string(),
            tnum: Tnum { value: 0, mask: 0 },
            umin: 0,
            umax: 0,
            ptr_off: Some(8),
            ..Default::default()
        }],
    }];
    rec.core.runtime_samples = vec![sample(0, 0, Some(8)), sample(0x2a, 0, Some(20))];
    let out = diff_metrics(&vec![rec], 100, &NoGroundTruth);
    let hits: Vec<&DivergenceFinding> =
        out.findings.iter().filter(|f| f.kind == "store_location_desync").collect();
    assert_eq!(hits.len(), 1);
    assert_eq!(hits[0].expected, "a store through R1 at insn 2 lands in 8 + [0, 0] with var_off=(0x0; 0x0)");
    assert_eq!(
        hits[0].observed,
        "input=0x2a: the store landed at 20 \u{2014} outside the proven window [8, 8]"
    );
    assert_eq!(
        hits[0].detail,
        "the verifier accepted a store that landed where its own proven pointer state says it could not"
    );
}

#[test]
fn a_period_complete_at_the_start_pumps_nothing() {
    let runner = canned(HARNESS_SAMPLE, true);
    let mut d = VmHarnessDriver::new("/out", runner);
    let mut p = Period::new(0, 0, 0);
    assert!(run_to_boundary(&mut p, &mut d).is_ok(), "a failing runner is never called");
    assert_eq!(p.exec_count, 0);
}

#[test]
fn inverted_bounds_raise_one_finding_each_within_their_denominator() {
    let mut reg = well_formed_reg();
    reg.umin = 10;
    reg.umax = 5;
    reg.smin = 10;
    reg.smax = 5;
    let out = diff_metrics(&vec![record_with_reg(reg)], 100, &NoGroundTruth);
    let count = |k: &str| out.findings.iter().filter(|f| f.kind == k).count() as u64;
    assert_eq!(count("unsigned_bounds_inverted"), 1);
    assert_eq!(count("signed_bounds_inverted"), 1);
    assert_eq!(count("tnum_malformed"), 0);
    assert!(count("unsigned_bounds_inverted") + count("signed_bounds_inverted") <= out.summary.bounds_order_checked);
}
