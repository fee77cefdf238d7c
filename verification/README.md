# verifierloop

A differential-testing loop for the Linux eBPF verifier: fuzz, observe, parse
the verifier's native output, diff the observations against ground truth
(documentation, helper contracts, git history and logical invariants), and hand
a triaged batch to a person at every period boundary. A period ends when the
fuzzers' cumulative exec count reaches its threshold, never on a timer.

The library under `src/` is written in Verus: every function of its own
carries a contract, and the laws that relate functions are proved as public
proof functions. The traits its users implement (`FuzzDriver`,
`HarnessRunner`, `RecordParser`, `GroundTruth`) state what an implementation
must meet where that can be said in general; `FuzzDriver::sources` and
`RecordParser::parse` leave it to each implementation, whose own contracts in
`src/` state it.

## Layout

- `src/text.rs`, `src/num.rs` — character-sequence and integer text primitives,
  each tied to a spec of the corresponding `str` operation.
- `src/metrics.rs` — the observation schema (CORE metrics, the opt-in
  counterfactual layer, the expectation flag).
- `src/verifier_log/` — the parser for the harness's verifier-log output:
  blocks, register states, bounds, runtime probes, liveness and pruning gates.
- `src/normalize.rs` — parser outputs assembled into normalized records, the
  reference parser behind the golden fixture.
- `src/diff/` — the documented-vs-observed diff: logical invariants, runtime
  and pruning checks, source-backed checks, the summary and its denominators.
- `src/groundtruth/` — the oracles: helper prototypes (extraction from C
  source and the TSV slice), documented behaviour, git staleness evidence.
- `src/contract.rs`, `src/ingest.rs`, `src/report.rs`, `src/score.rs` — the
  artifact layout and version check, raw-output cataloguing and fingerprints,
  parse health and the triage join, the analyzer's configuration.
- `src/orchestrator/` — periods, the fuzzer-driver abstraction, and the loop
  that drives a period to its exec-count boundary.
- `app/` — the program around the library: file and process I/O, JSON
  (de)serialization of the artifacts, the drivers that shell out, and the
  harvest at each period boundary.
- `tests/` — executable tests of the library.
