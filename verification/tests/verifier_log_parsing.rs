use verifierloop::metrics::{CoreMetrics, RegSnapshot, RegState, Tnum, VerifierDecision};
use verifierloop::normalize::{ParseOutput, RecordParser};
use verifierloop::verifier_log::blocks::console_timestamp_at;
use verifierloop::verifier_log::evolution::parse_register_evolution;
use verifierloop::verifier_log::gates::{parse_liveness_gate, parse_liveness_row};
use verifierloop::verifier_log::regs::{base_family, build_regstate, parse_reg_token, split_reg_tokens};
use verifierloop::verifier_log::VerifierLogParser;

// Real diffharness output (host kernel 6.18), trimmed to three blocks.
const SAMPLE: &str = "\
===PROG return0 type=socket_filter ===
RESULT decision=accept fd=3 errno=0 load_ns=68595
---LOG---
func#0 @0
Live regs before insn:
      0: .......... (b7) r0 = 0
      1: 0......... (95) exit
0: R1=ctx() R10=fp0
0: (b7) r0 = 0                        ; R0=0
1: (95) exit
processed 2 insns (limit 1000000) max_states_per_insn 0 total_states 0 peak_states 0 mark_read 0

---END---
===PROG alu_state type=socket_filter ===
RESULT decision=accept fd=3 errno=0 load_ns=30275
---LOG---
0: R1=ctx() R10=fp0
0: (b7) r0 = 1                        ; R0=1
1: (67) r0 <<= 3                      ; R0=8
2: (57) r0 &= 255                     ; R0=8
3: (07) r0 += 5                       ; R0=13
4: (95) exit
processed 5 insns (limit 1000000) max_states_per_insn 0 total_states 0 peak_states 0 mark_read 0
---END---
===PROG uninit_r0 type=socket_filter ===
RESULT decision=reject fd=-1 errno=13 load_ns=14182
---LOG---
0: R1=ctx() R10=fp0
0: (95) exit
R0 !read_ok
processed 1 insns (limit 1000000) max_states_per_insn 0 total_states 0 peak_states 0 mark_read 0
---END---
";

fn cv(s: &str) -> Vec<char> {
    s.chars().collect()
}

fn lv(ls: &[&str]) -> Vec<Vec<char>> {
    ls.iter().map(|l| cv(l)).collect()
}

fn st(v: &[char]) -> String {
    v.iter().collect()
}

fn parse(tool: &str, text: &str) -> ParseOutput {
    VerifierLogParser.parse(tool, text.as_bytes())
}

fn reg(tok: &str) -> Option<RegState> {
    parse_reg_token(&cv(tok))
}

fn evolution(ls: &[&str]) -> Vec<RegSnapshot> {
    parse_register_evolution(&lv(ls))
}

fn row(line: &str) -> Option<(u32, u16)> {
    parse_liveness_row(&cv(line))
}

fn parse_all() -> Vec<CoreMetrics> {
    parse("diffharness", SAMPLE).records.into_iter().map(|r| r.core).collect()
}

fn reg_in(snaps: &[RegSnapshot], reg: u8) -> Option<RegState> {
    snaps.iter().flat_map(|s| s.regs.iter()).find(|r| r.reg == reg).cloned()
}

fn reject(reason: &str) -> VerifierDecision {
    VerifierDecision::Reject { reason: reason.to_string() }
}

#[test]
fn parses_three_programs() {
    assert_eq!(parse_all().len(), 3);
}

#[test]
fn return0_is_accept_with_counters_and_const_r0() {
    let c = &parse_all()[0];
    assert_eq!(c.verifier_decision, VerifierDecision::Accept);
    assert_eq!(c.processed.insn_processed, 2);
    assert_eq!(c.processed.states_processed, 0);
    assert!(c.jit_interp_diff.is_none());
    let r0 = reg_in(&c.register_evolution, 0).expect("R0 present");
    assert_eq!(r0.reg_type, "scalar");
    assert_eq!(r0.tnum, Tnum { value: 0, mask: 0 });
    assert_eq!((r0.umin, r0.umax, r0.smin, r0.smax), (0, 0, 0, 0));
    let r1 = reg_in(&c.register_evolution, 1).expect("R1 present");
    assert_eq!(r1.reg_type, "ctx");
    let r10 = reg_in(&c.register_evolution, 10).expect("R10 present");
    assert_eq!(r10.reg_type, "fp0");
}

#[test]
fn alu_state_tracks_r0_evolution() {
    let c = &parse_all()[1];
    assert_eq!(c.verifier_decision, VerifierDecision::Accept);
    assert_eq!(c.processed.insn_processed, 5);
    let r0_vals: Vec<u64> = c
        .register_evolution
        .iter()
        .flat_map(|s| s.regs.iter())
        .filter(|r| r.reg == 0)
        .map(|r| r.tnum.value)
        .collect();
    assert_eq!(r0_vals, vec![1, 8, 8, 13]);
    for snap in &c.register_evolution {
        for r in &snap.regs {
            assert_eq!(r.tnum.value & r.tnum.mask, 0, "malformed tnum from parser");
        }
    }
}

#[test]
fn uninit_r0_is_reject_with_verbatim_reason() {
    let c = &parse_all()[2];
    assert_eq!(c.verifier_decision, reject("R0 !read_ok"));
    assert_eq!(c.processed.insn_processed, 1);
}

#[test]
fn extracts_the_32_bit_subregister_view() {
    let r = reg("R0=scalar(umin=256,umax=511,umin32=1000,umax32=2000)").expect("reg parses");
    assert_eq!((r.umin, r.umax), (256, 511));
    assert_eq!((r.u32_min, r.u32_max), (Some(1000), Some(2000)));
    assert_eq!((r.s32_min, r.s32_max), (None, None));
}

#[test]
fn a_hex_printed_s32_is_read_as_a_32_bit_signed_value() {
    let r = reg(
        "R0=scalar(smin=umin=256,smax=umax=0x1000000ff,smin32=0x80000010,var_off=(0x10; 0x1ffffffef))",
    )
    .expect("reg parses");
    assert_eq!(r.s32_min, Some(-2_147_483_632));
    assert_eq!(r.smax, 0x1_000_000_ff);
}

#[test]
fn a_prune_point_state_dump_is_attributed_to_the_instruction_it_names() {
    let snaps = evolution(&["from 33 to 15: R0=scalar(umin=1,umax=7) R10=fp0"]);
    assert_eq!(snaps.len(), 1);
    assert_eq!(snaps[0].insn_idx, 15, "the DESTINATION index, not the source");
    assert_eq!(snaps[0].regs.len(), 2);
    assert_eq!((snaps[0].regs[0].umin, snaps[0].regs[0].umax), (1, 7));

    let spec = evolution(&["from 8 to 10 (speculative execution): R1=ctx() R10=fp0"]);
    assert_eq!(spec.len(), 1);
    assert_eq!(spec[0].insn_idx, 10);

    let framed = evolution(&["from 21 to 32: frame1: R10=fp0"]);
    assert_eq!(framed.len(), 1);
    assert_eq!(framed[0].insn_idx, 32);

    assert!(evolution(&["from 33 to 15: safe"]).is_empty());
}

#[test]
fn the_scc_prefix_is_not_part_of_the_instruction_index() {
    assert_eq!(row("      0: .1........ (7b) *(u64 *)(r10 -16) = r1"), Some((0, 0b0000000010)));
    assert_eq!(row("  2  20: .......7.. (72) *(u8 *)(r7 +0) = -1"), Some((20, 0b0010000000)));
    assert_eq!(row("     13: ..2.4..7.. (04) w2 += 1073741824"), Some((13, 0b0010010100)));
    assert_eq!(row("     16: .......... (05) goto pc+6"), Some((16, 0)));
    assert!(row("Live regs before insn:").is_none());
    assert!(row("      R0=scalar() R10=fp0").is_none());
    assert!(row("     16: ......... (05) goto pc+6").is_none());
}

#[test]
fn a_liveness_claim_without_a_matching_length_is_refused_not_padded() {
    let table = lv(&["Live regs before insn:", "      0: 0......... (95) exit"]);
    let g = parse_liveness_gate(&Some(cv("LIVENESS status=ok n=2 mask=001000")), &table).unwrap();
    assert_eq!(g.claim_status, "ok");
    assert_eq!(g.claim.unwrap(), vec![0x001, 0x000]);
    assert_eq!(g.kernel, vec![(0, 1)]);

    let g = parse_liveness_gate(&Some(cv("LIVENESS status=ok n=3 mask=001000")), &table).unwrap();
    assert!(g.claim.is_none());
    assert_eq!(g.claim_status, "malformed");

    let g = parse_liveness_gate(
        &Some(cv("LIVENESS status=unsupported n=9 at=4 why=opcode_outside_the_model")),
        &table,
    )
    .unwrap();
    assert!(g.claim.is_none());
    assert!(g.claim_status.starts_with("unsupported: "));

    assert!(parse_liveness_gate(&None, &table).is_none());
}

#[test]
fn the_caller_state_at_a_subprogram_return_is_read_from_its_indented_dump() {
    let snaps = evolution(&[
        "33: (95) exit",
        "returning from callee:",
        " frame1: R0=0 R10=fp0",
        "to caller at 15:",
        " R0=0 R10=fp0",
    ]);
    let taken: Vec<_> = snaps.iter().filter(|s| s.insn_idx == 15).collect();
    assert_eq!(taken.len(), 1, "{snaps:?}");
    assert_eq!(taken[0].regs.len(), 2);
    assert_eq!(taken[0].regs[0].reg, 0);
    assert_eq!(taken[0].regs[0].umax, 0);
    assert!(
        snaps.iter().all(|s| s.insn_idx == 15 || s.insn_idx == 33),
        "no snapshot may be invented for an unindexed dump: {snaps:?}"
    );
}

#[test]
fn indented_liveness_lines_are_still_discarded() {
    let snaps = evolution(&[
        "Live regs before insn:",
        "      0: .......... (85) call bpf_get_prandom_u32#7",
        "      1: 0......... (57) r0 &= 1",
    ]);
    assert!(snaps.is_empty(), "{snaps:?}");
}

#[test]
fn flag_prefixed_and_btf_id_pointer_types_are_known_families() {
    let fam = |s: &str| st(&base_family(&cv(s)));
    assert_eq!(fam("rdonly_mem"), "mem");
    assert_eq!(fam("ringbuf_mem"), "mem");
    assert_eq!(fam("rcu_untrusted_mem"), "mem");
    assert_eq!(fam("ptr_sk_buff"), "ptr");
    assert_eq!(fam("trusted_ptr_task_struct"), "ptr");
    assert_eq!(fam("ptr_or_null_sk_buff"), "ptr");
    assert_eq!(fam("map_value_or_null"), "map_value");
    assert_eq!(fam("fp-16"), "fp");
    assert_eq!(fam("something_new"), "something_new");
}

#[test]
fn the_pre_2022_scalar_spelling_is_recognised_as_a_scalar() {
    let c = reg("R0_w=inv1337").expect("const");
    assert_eq!(c.reg_type, "scalar");
    assert_eq!((c.umin, c.umax, c.tnum.value, c.tnum.mask), (1337, 1337, 1337, 0));

    let neg = reg("R1=inv-5").expect("negative const");
    assert_eq!(neg.reg_type, "scalar");
    assert_eq!(neg.smin, -5);

    let unknown = reg("R2=inv").expect("fully unknown");
    assert_eq!(unknown.reg_type, "scalar");
    assert_eq!(unknown.tnum.mask, u64::MAX);

    let precise = reg(
        "R3_w=invP(id=0,umin_value=1,umax_value=255,var_off=(0x1; 0xfe),u32_min_value=1,u32_max_value=255)",
    )
    .expect("precise tracked scalar");
    assert_eq!(precise.reg_type, "scalar");
    assert_eq!((precise.umin, precise.umax), (1, 255));
    assert_eq!((precise.u32_min, precise.u32_max), (Some(1), Some(255)));
    assert_eq!((precise.tnum.value, precise.tnum.mask), (1, 0xfe));
}

#[test]
fn a_type_that_merely_starts_with_inv_is_not_relabelled_a_scalar() {
    let r = reg("R4=invalid(off=0)").expect("token");
    assert_eq!(r.reg_type, "invalid");
}

#[test]
fn the_pre_2022_bound_field_names_are_read() {
    let r = reg(
        "R2_w=inv(id=0,smin_value=-9223372036854775807 (0x8000000000000001),umin_value=1,umax_value=0xffffffff00000001,var_off=(0x1; 0xffffffff00000000),s32_min_value=1,s32_max_value=1,u32_min_value=1,u32_max_value=1)",
    )
    .expect("token");
    assert_eq!((r.umin, r.umax), (1, 0xffffffff00000001));
    assert_eq!(r.smin, -9223372036854775807);
    assert_eq!((r.u32_min, r.u32_max), (Some(1), Some(1)));
    assert_eq!((r.s32_min, r.s32_max), (Some(1), Some(1)));
    assert_eq!(r.tnum.mask, 0xffffffff00000000);
}

#[test]
fn a_decimal_negative_s32_passes_through_unchanged() {
    let r = reg("R0=scalar(umin=0,umax=100,smin32=-5,smax32=-4)").expect("reg parses");
    assert_eq!((r.s32_min, r.s32_max), (Some(-5), Some(-4)));
}

#[test]
fn tokenizer_handles_spaces_inside_var_off() {
    let toks: Vec<String> = split_reg_tokens(&cv(
        "R0=scalar(umin=0,umax=255,var_off=(0x0; 0xff)) R6=ctx()",
    ))
    .iter()
    .map(|t| st(t))
    .collect();
    assert_eq!(toks, vec!["R0=scalar(umin=0,umax=255,var_off=(0x0; 0xff))", "R6=ctx()"]);
    let r0 = reg(&toks[0]).unwrap();
    assert_eq!(r0.reg_type, "scalar");
    assert_eq!(r0.tnum, Tnum { value: 0, mask: 0xff });
    assert_eq!((r0.umin, r0.umax), (0, 255));
    assert_eq!(r0.tnum.value & r0.tnum.mask, 0);
}

#[test]
fn volume_discovered_forms_parse_correctly() {
    const VOL: &str = "\
===PROG syz#0 type=3 ===
RESULT decision=accept fd=3 errno=0 load_ns=1
---LOG---
0: R1=ctx() R10=fp0
7: (bf) r9 = r0                       ; R0=ringbuf_mem_or_null(id=2,ref_obj_id=2,sz=20) R9=ringbuf_mem_or_null(id=2,ref_obj_id=2,sz=20) refs=2
11: (b7) r2 = 1                       ; R2=1 refs=2
12: (95) exit
processed 13 insns (limit 1000000) total_states 0 peak_states 0
---END---
";
    let out = parse("syzreplay", VOL);
    assert_eq!(out.records.len(), 1);
    assert!(out.unparsed.is_empty());
    let rec = &out.records[0];
    assert!(rec.notes.is_empty(), "no blind-spot notes expected for these forms: {:?}", rec.notes);
    let regs: Vec<(u8, String, u64)> = rec
        .core
        .register_evolution
        .iter()
        .flat_map(|s| s.regs.iter())
        .map(|r| (r.reg, r.reg_type.clone(), r.tnum.value))
        .collect();
    assert!(
        regs.iter().any(|(reg, ty, v)| *reg == 2 && ty == "scalar" && *v == 1),
        "R2 should be const scalar 1: {regs:?}"
    );
    assert!(
        regs.iter().any(|(reg, ty, _)| *reg == 0 && ty == "ringbuf_mem_or_null"),
        "R0 keeps its verbatim reg-type: {regs:?}"
    );
}

#[test]
fn empty_verifier_log_is_unparsed_not_a_reject_record() {
    const EMPTY: &str = "\
===PROG syz#1 type=3 ===
RESULT decision=reject fd=-1 errno=7 load_ns=2357
---LOG---

---END---
";
    let out = parse("syzreplay", EMPTY);
    assert!(out.records.is_empty(), "no record invented from an empty log");
    assert_eq!(out.unparsed.len(), 1);
    assert!(out.unparsed[0].reason.contains("empty verifier log"), "{:?}", out.unparsed[0]);
}

#[test]
fn reject_reason_without_any_state_section() {
    const R: &str = "\
===PROG syz#0 type=3 ===
RESULT decision=reject fd=-1 errno=22 load_ns=1
---LOG---
func#0 @0
last insn is not an exit or jmp
Verification failed: Program Structure: Subprogram can fall through
Reason:
  Subprogram 0 reaches its last instruction 117 without an exit or jump.
At:
  insn 117
Suggestion:
  End each subprogram with an exit.
processed 0 insns (limit 1000000) total_states 0 peak_states 0
---END---
";
    let out = parse("syzreplay", R);
    assert_eq!(out.records.len(), 1);
    assert_eq!(
        out.records[0].core.verifier_decision,
        reject("last insn is not an exit or jmp"),
        "the concise verifier token, not the structured headline or 'unknown'"
    );
    assert!(out.records[0].notes.is_empty());
}

#[test]
fn glued_processed_summary_is_stripped_from_the_reason() {
    const R: &str = "\
===PROG syz#1 type=3 ===
RESULT decision=reject fd=-1 errno=22 load_ns=1
---LOG---
func#0 @0
invalid type id 1 in func infoprocessed 0 insns (limit 1000000) total_states 0 peak_states 0
---END---
";
    let out = parse("syzreplay", R);
    assert_eq!(out.records[0].core.verifier_decision, reject("invalid type id 1 in func info"));
}

#[test]
fn unidentifiable_reject_reason_is_noted_not_invented() {
    const R: &str = "\
===PROG syz#2 type=3 ===
RESULT decision=reject fd=-1 errno=22 load_ns=1
---LOG---
processed 0 insns (limit 1000000) total_states 0 peak_states 0
---END---
";
    let out = parse("syzreplay", R);
    assert_eq!(out.records.len(), 1, "still an observation (decision is known)");
    assert!(
        out.records[0].notes.iter().any(|n| n.contains("reject reason not identified")),
        "the gap is surfaced as a parse note: {:?}",
        out.records[0].notes
    );
}

#[test]
fn mark_precise_lines_are_not_mistaken_for_a_reason() {
    const R: &str = "\
===PROG syz#3 type=3 ===
RESULT decision=reject fd=-1 errno=22 load_ns=1
---LOG---
0: R1=ctx() R10=fp0
0: (b7) r0 = 1                        ; R0=1
R0 !read_ok
mark_precise: frame0: last_idx 9 first_idx 0 subseq_idx -1
processed 2 insns (limit 1000000) total_states 0 peak_states 0
---END---
";
    let out = parse("syzreplay", R);
    assert_eq!(out.records[0].core.verifier_decision, reject("R0 !read_ok"));
}

#[test]
fn scc_markers_are_not_mistaken_for_the_reject_reason() {
    const R: &str = "\
===PROG syz#0 type=3 ===
RESULT decision=reject fd=-1 errno=22 load_ns=1
---LOG---
func#0 @0
11: (18) r3 = 0xffff888005af5d20      ; R3=map_value(ks=4,vs=8)
13: (b7) r5 = 8
SCC enter (1)
14:
14: (85) call bpf_for_each_map_elem#164
R1 type=fp expected=map_ptr
Verification failed: Call Type Safety: Invalid call argument
Reason:
Suggestion:
processed 13 insns (limit 1000000) total_states 1 peak_states 1
---END---
";
    let out = parse("syzreplay", R);
    assert_eq!(
        out.records[0].core.verifier_decision,
        reject("R1 type=fp expected=map_ptr"),
        "the real verifier message, not the SCC scaffolding that precedes it"
    );
}

#[test]
fn console_interleaving_is_repaired_and_recorded() {
    const SPLIT_SUMMARY: &str = "\
===PROG p type=socket_filter ===
RESULT decision=accept fd=3 errno=0 load_ns=100
---LOG---
0: R1=ctx() R10=fp0
0: (b7) r0 = 0                        ; R0=0
1: (95) exit
processed 10 insns (limit 1000000) max_states_per_i[    2.301324] clocksource: Watchdog remote CPU 1 read timed out
nsn 0 total_states 1 peak_states 1 mark_read 0
---END---
";
    let out = parse("diffharness", SPLIT_SUMMARY);
    assert_eq!(out.records.len(), 1);
    assert!(out.unparsed.is_empty());
    let rec = &out.records[0];
    assert_eq!(rec.core.processed.insn_processed, 10);
    assert_eq!(
        rec.core.processed.states_processed, 1,
        "total_states must survive the splice"
    );
    assert!(
        rec.notes.iter().any(|n| n.contains("console-interleaved")),
        "a repair that is not recorded is just quieter corruption: {:?}",
        rec.notes
    );

    const SPLIT_TAIL: &str = "\
===PROG p type=socket_filter ===
RESULT decision=accept fd=3 errno=0 load_ns=100
---LOG---
0: R1=ctx() R10=fp0
0: (61) r0 = *(u32 *)(r1 +0)          ; R0=scalar(smin=0,smax=umax=0xffffffff,var_off=(0x0; 0xffffffff)) R1=ctx()[   16.053446] random: crng init done

1: (95) exit
processed 2 insns (limit 1000000) total_states 0 peak_states 0
---END---
";
    const CLEAN_TAIL: &str = "\
===PROG p type=socket_filter ===
RESULT decision=accept fd=3 errno=0 load_ns=100
---LOG---
0: R1=ctx() R10=fp0
0: (61) r0 = *(u32 *)(r1 +0)          ; R0=scalar(smin=0,smax=umax=0xffffffff,var_off=(0x0; 0xffffffff)) R1=ctx()
1: (95) exit
processed 2 insns (limit 1000000) total_states 0 peak_states 0
---END---
";
    let dirty = parse("diffharness", SPLIT_TAIL);
    let clean = parse("diffharness", CLEAN_TAIL);
    assert_eq!(
        dirty.records[0].core.register_evolution, clean.records[0].core.register_evolution,
        "repaired capture must yield the SAME register states as an uninterrupted one"
    );
    assert!(dirty.records[0].notes.iter().any(|n| n.contains("console-interleaved")));
    assert!(clean.records[0].notes.is_empty(), "clean input must not be annotated");
}

#[test]
fn whole_console_line_is_dropped_not_spliced() {
    const C: &str = "\
===PROG p type=socket_filter ===
RESULT decision=accept fd=3 errno=0 load_ns=100
---LOG---
0: R1=ctx() R10=fp0
[    2.301324] clocksource: Watchdog remote CPU 1 read timed out
0: (b7) r0 = 0                        ; R0=0
1: (95) exit
processed 2 insns (limit 1000000) total_states 3 peak_states 0
---END---
";
    let out = parse("diffharness", C);
    assert_eq!(out.records[0].core.processed.states_processed, 3);
    assert_eq!(out.records[0].core.register_evolution.len(), 2);
    assert!(out.records[0].notes.is_empty());
}

#[test]
fn console_timestamp_does_not_match_verifier_text() {
    let ts = |s: &str| console_timestamp_at(&cv(s));
    assert_eq!(ts("0: (b7) r0 = 0     ; R0=0"), None);
    assert_eq!(ts("R2=map_value(map=m,ks=4,vs=8)"), None);
    assert_eq!(ts("value [0.5] and [12.34] and [1.23456789]"), None);
    assert_eq!(ts("[    2.301324] real"), Some(0));
    assert_eq!(ts("tail[12345.000001] real"), Some(4));
}

#[test]
fn labels_follow_the_prog_header() {
    let out = parse("diffharness", SAMPLE);
    let labels: Vec<Option<String>> = out.records.iter().map(|r| r.label.clone()).collect();
    assert_eq!(
        labels,
        vec![Some("return0".to_string()), Some("alu_state".to_string()), Some("uninit_r0".to_string())]
    );
}

#[test]
fn every_block_becomes_a_record_or_an_unparsed_entry() {
    const MIXED: &str = "\
===PROG ok type=socket_filter ===
RESULT decision=accept fd=3 errno=0 load_ns=1
---LOG---
0: (b7) r0 = 0                        ; R0=0
1: (95) exit
processed 2 insns (limit 1000000) total_states 0 peak_states 0
---END---
===PROG empty type=socket_filter ===
RESULT decision=reject fd=-1 errno=7 load_ns=1
---LOG---

---END---
";
    let out = parse("diffharness", MIXED);
    assert_eq!(out.records.len() + out.unparsed.len(), 2);
    assert_eq!(out.records.len(), 1);
    assert_eq!(out.unparsed[0].label, "empty");
}

#[test]
fn a_constant_register_is_a_pinned_scalar() {
    let r = build_regstate(3, &"0x10".chars().collect());
    assert_eq!(r.reg, 3);
    assert_eq!(r.reg_type, "scalar");
    assert_eq!(r.tnum, Tnum { value: 16, mask: 0 });
    assert_eq!((r.umin, r.umax, r.smin, r.smax), (16, 16, 16, 16));
    assert_eq!((r.u32_min, r.u32_max, r.s32_min, r.s32_max), (None, None, None, None));
}

#[test]
fn a_register_without_var_off_never_gets_a_malformed_tnum() {
    for expr in ["scalar(umin=1,umax=5)", "scalar()", "map_value(imm=7)", "invP(id=1)", "ctx()"] {
        let r = build_regstate(2, &expr.chars().collect());
        assert_eq!(r.reg, 2);
        assert_eq!(r.tnum.value & r.tnum.mask, 0, "{expr}");
    }
}
