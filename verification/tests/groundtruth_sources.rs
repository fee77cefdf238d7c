use verifierloop::groundtruth::helper_proto::{
    arg_type_to_regtype, extract_text, to_tsv, HelperProtoModel,
};
use verifierloop::groundtruth::patch_diff::{parse_commit_line, CommitInfo, PatchDiffModel};
use verifierloop::groundtruth::verifier_rst::{
    documented_cases, from_sources, from_text, DocumentedOutcome,
};

// ---------------------------------------------------------------------------
// helper prototypes
// ---------------------------------------------------------------------------

#[test]
fn extracts_single_family_args_and_drops_the_rest() {
    let src = r#"
const struct bpf_func_proto bpf_example_proto = {
	.func		= bpf_example,
	.gpl_only	= false,
	.ret_type	= RET_INTEGER,
	.arg1_type	= ARG_CONST_MAP_PTR,
	.arg2_type	= ARG_PTR_TO_MEM | MEM_RDONLY,
	.arg3_type	= ARG_MEM_SIZE_OR_ZERO,
	.arg4_type	= ARG_ANYTHING,
};
"#;
    let mut m = HelperProtoModel::new();
    extract_text(src, &mut m);
    assert_eq!(m.arg_regtype("bpf_example", 0).as_deref(), Some("map_ptr"));
    assert_eq!(m.arg_regtype("bpf_example", 2).as_deref(), Some("scalar"));
    assert_eq!(m.arg_regtype("bpf_example", 1), None, "ARG_PTR_TO_MEM is multi-family");
    assert_eq!(m.arg_regtype("bpf_example", 3), None, "ARG_ANYTHING pins nothing");
    assert_eq!(m.len(), 2);
}

#[test]
fn declarations_before_a_definition_do_not_swallow_it() {
    let src = r#"
const struct bpf_func_proto bpf_map_lookup_elem_proto __weak;
const struct bpf_func_proto bpf_map_update_elem_proto __weak;
const struct bpf_func_proto bpf_spin_lock_proto __weak;

const struct bpf_func_proto bpf_tail_call_proto = {
	/* func is unused for tail_call, we set it to pass the
	 * get_helper_proto check
	 */
	.func		= BPF_PTR_POISON,
	.gpl_only	= false,
	.ret_type	= RET_VOID,
	.arg1_type	= ARG_PTR_TO_CTX,
	.arg2_type	= ARG_CONST_MAP_PTR,
	.arg3_type	= ARG_ANYTHING,
};
"#;
    let mut m = HelperProtoModel::new();
    extract_text(src, &mut m);
    assert_eq!(m.arg_regtype("bpf_tail_call", 0).as_deref(), Some("ctx"));
    assert_eq!(m.arg_regtype("bpf_tail_call", 1).as_deref(), Some("map_ptr"));
    assert_eq!(m.arg_regtype("bpf_map_lookup_elem", 0), None);
}

#[test]
fn flags_after_the_base_type_are_modifiers_not_families() {
    assert_eq!(arg_type_to_regtype("ARG_PTR_TO_RINGBUF_MEM | OBJ_RELEASE"), Some("ringbuf_mem"));
    assert_eq!(arg_type_to_regtype("ARG_PTR_TO_CTX"), Some("ctx"));
    assert_eq!(arg_type_to_regtype("ARG_PTR_TO_MEM | MEM_RDONLY"), None);
    assert_eq!(arg_type_to_regtype("ARG_ANYTHING"), None);
}

#[test]
fn extracted_arg_types_are_kept_verbatim() {
    let src = "const struct bpf_func_proto bpf_ringbuf_submit_proto = {\n\t.arg1_type\t= ARG_PTR_TO_RINGBUF_MEM | OBJ_RELEASE,\n\t.arg2_type\t= ARG_ANYTHING,\n};\n";
    let mut m = HelperProtoModel::new();
    extract_text(src, &mut m);
    assert_eq!(
        m.arg_type("bpf_ringbuf_submit", 0).as_deref(),
        Some("ARG_PTR_TO_RINGBUF_MEM | OBJ_RELEASE")
    );
    assert_eq!(m.arg_regtype("bpf_ringbuf_submit", 0).as_deref(), Some("ringbuf_mem"));
    assert_eq!(m.len(), 1);
}

#[test]
fn a_name_without_the_proto_suffix_contributes_nothing() {
    let src = "const struct bpf_func_proto bpf_helper_ops = {\n\t.arg1_type = ARG_PTR_TO_CTX,\n};\n";
    let mut m = HelperProtoModel::new();
    extract_text(src, &mut m);
    assert!(m.is_empty());
}

#[test]
fn tsv_slice_round_trips_through_the_loader() {
    let m = HelperProtoModel::new()
        .with_contract("bpf_tail_call", 0, "ARG_PTR_TO_CTX")
        .with_regtype("bpf_tail_call", 0, "ctx")
        .with_contract("bpf_map_lookup_elem", 0, "ARG_CONST_MAP_PTR")
        .with_regtype("bpf_map_lookup_elem", 0, "map_ptr")
        .with_contract("bpf_no_family", 3, "ARG_ANYTHING");
    let tsv = to_tsv(&m);
    assert_eq!(
        tsv,
        "bpf_map_lookup_elem\t0\tARG_CONST_MAP_PTR\tmap_ptr\nbpf_tail_call\t0\tARG_PTR_TO_CTX\tctx\n"
    );
    let back = HelperProtoModel::from_tsv(&tsv);
    assert_eq!(back.len(), 2);
    assert_eq!(back.arg_type("bpf_tail_call", 0).as_deref(), Some("ARG_PTR_TO_CTX"));
    assert_eq!(back.arg_regtype("bpf_map_lookup_elem", 0).as_deref(), Some("map_ptr"));
    assert_eq!(back.arg_type("bpf_no_family", 3), None);
}

#[test]
fn tsv_loader_skips_comments_blanks_and_short_or_bad_rows() {
    let text = "# helper\targ\ttype\tregtype\n\n  bpf_a\t1\tARG_CONST_SIZE\tscalar  \nbpf_b\t2\tARG_PTR_TO_CTX\nbpf_c\tx\tARG_PTR_TO_CTX\tctx\nbpf_d\t300\tARG_PTR_TO_CTX\tctx\n";
    let m = HelperProtoModel::from_tsv(text);
    assert_eq!(m.len(), 1);
    assert_eq!(m.arg_regtype("bpf_a", 1).as_deref(), Some("scalar"));
    assert_eq!(m.arg_type("bpf_a", 1).as_deref(), Some("ARG_CONST_SIZE"));
}

// ---------------------------------------------------------------------------
// patch history
// ---------------------------------------------------------------------------

#[test]
fn parses_a_commit_line() {
    let c = parse_commit_line("107e16979905\t2025-09-18\tbpf: disable liveness").unwrap();
    assert_eq!(c.sha, "107e16979905");
    assert_eq!(c.date, "2025-09-18");
    assert_eq!(c.subject, "bpf: disable liveness");
}

#[test]
fn malformed_lines_yield_nothing_rather_than_a_guess() {
    assert!(parse_commit_line("").is_none());
    assert!(parse_commit_line("onlysha").is_none());
}

#[test]
fn staleness_note_states_the_fact_not_a_verdict() {
    let m = PatchDiffModel {
        doc_last: Some(CommitInfo {
            sha: "aaa".into(),
            date: "2025-09-18".into(),
            subject: "doc".into(),
        }),
        code_last: Some(CommitInfo {
            sha: "bbb".into(),
            date: "2026-08-18".into(),
            subject: "code".into(),
        }),
        code_commits_since_doc: 351,
    };
    let note = m.staleness_note().unwrap();
    assert!(note.contains("2025-09-18") && note.contains("2026-08-18"));
    assert!(note.contains("351 verifier.c commits since"));
    for verdict in ["stale", "bug", "likely", "probably"] {
        assert!(!note.contains(verdict), "note must not editorialise: {note}");
    }
}

#[test]
fn missing_history_degrades_to_silence() {
    // What git yields for a tree without history: nothing at all.
    let m = PatchDiffModel::from_git(None, None, None);
    assert!(m.is_empty());
    assert!(m.staleness_note().is_none(), "no evidence -> no claim");
}

#[test]
fn git_output_is_read_into_the_model() {
    let m = PatchDiffModel::from_git(
        Some("aaa\t2025-09-18\tdoc"),
        Some("bbb\t2026-08-18\tcode"),
        Some("351"),
    );
    assert!(!m.is_empty());
    assert_eq!(m.code_commits_since_doc, 351);
    assert_eq!(m.doc_last.as_ref().unwrap().sha, "aaa");
    // Without the documentation's commit the count is never read.
    let m = PatchDiffModel::from_git(None, Some("bbb\t2026-08-18\tcode"), Some("351"));
    assert_eq!(m.code_commits_since_doc, 0);
    // An unreadable count degrades to zero.
    let m = PatchDiffModel::from_git(Some("aaa\t2025-09-18\tdoc"), None, Some("many"));
    assert_eq!(m.code_commits_since_doc, 0);
}

// ---------------------------------------------------------------------------
// documented behaviour
// ---------------------------------------------------------------------------

const DOC: &str = "\
If register was never written to, it's not readable::

  bpf_mov R0 = R2
  bpf_exit

will be rejected, since R2 is unreadable at the start of the program.

::

  bpf_mov R6 = 1
  bpf_call foo
  bpf_mov R0 = R6
  bpf_exit

is a correct program. If there was R1 instead of R6, it would have
been rejected.

For example::

 bpf_mov R1 = 1
 bpf_xadd *(u32 *)(R1 + 3) += R2
 bpf_exit

will be rejected, since R1 doesn't have a valid pointer type at the time of
execution of instruction bpf_xadd.

Understanding eBPF verifier messages
====================================

Program with unreachable instructions::

Error::

  unreachable insn 1

Program that reads uninitialized register::

Error::

  R2 !read_ok

Program that doesn't initialize R0 before exiting::

Error::

  R0 !read_ok

Program that accesses stack out of bounds::

Error::

  invalid stack off=8 size=8

Program that doesn't initialize stack before passing its address into function::

Error::

  invalid indirect read from stack off -8+0 size 8

Program that uses invalid map_fd=0 while calling to map_lookup_elem() function::

Error::

  fd 0 is not pointing to valid bpf_map

Program that doesn't check return value of map_lookup_elem() before accessing
map element::

Error::

  R0 invalid mem access 'map_value_or_null'

Program that correctly checks map_lookup_elem() returned value for NULL, but
accesses the memory with incorrect alignment::

Error::

  misaligned access off 4 size 8

Program that correctly checks map_lookup_elem() returned value for NULL and
accesses memory with correct alignment in one side of 'if' branch, but fails
to do so in the other side of 'if' branch::

Error::

  R0 invalid mem access 'imm'

Program that performs a socket lookup then sets the pointer to NULL without
checking it::

Error::

  Unreleased reference id=1, alloc_insn=7

Program that performs a socket lookup but does not NULL-check the returned
value::

Error::

  Unreleased reference id=1, alloc_insn=7
";

fn sources_with_uninit_stack_relaxation() -> Vec<(String, String)> {
    vec![(
        "kernel/bpf/verifier.c".to_string(),
        "\tenv->allow_uninit_stack = bpf_allow_uninit_stack(env->prog->aux->token);\n".to_string(),
    )]
}

#[test]
fn admits_cases_whose_quote_is_present() {
    let m = from_text(DOC);
    assert_eq!(m.len(), documented_cases().len(), "every documented claim anchors");
    assert!(m.stale().is_empty());
    assert!(m.drifted_error_text().is_empty());
    assert_eq!(m.outcome("doc_unreadable_reg"), Some(DocumentedOutcome::Reject));
    assert_eq!(m.outcome("doc_callee_saved_r6"), Some(DocumentedOutcome::Accept));
    assert_eq!(m.outcome("doc_bad_ptr_xadd"), Some(DocumentedOutcome::Reject));
}

#[test]
fn message_vein_carries_exact_error_text() {
    let m = from_text(DOC);
    assert_eq!(m.expected_error("doc_msg_unreachable_insn").as_deref(), Some("unreachable insn 1"));
    assert_eq!(
        m.expected_error("doc_msg_branch_imm_deref").as_deref(),
        Some("R0 invalid mem access 'imm'")
    );
    for case in documented_cases().iter().filter(|c| c.id.starts_with("doc_msg_")) {
        assert_eq!(case.outcome, DocumentedOutcome::Reject, "{}", case.id);
        assert!(case.expected_error.is_some(), "{}", case.id);
    }
}

#[test]
fn quotes_match_across_the_documents_hard_wrapping() {
    assert!(DOC.contains(
        "will be rejected, since R1 doesn't have a valid pointer type at the time of\nexecution"
    ));
    assert_eq!(from_text(DOC).outcome("doc_bad_ptr_xadd"), Some(DocumentedOutcome::Reject));
}

#[test]
fn drift_is_reported_not_silently_trusted() {
    let reworded = DOC.replace(
        "will be rejected, since R2 is unreadable at the start of the program",
        "is refused because R2 holds no value yet",
    );
    let m = from_text(&reworded);
    assert_eq!(m.outcome("doc_unreadable_reg"), None, "stale case must not be usable");
    assert!(m.stale().contains(&"doc_unreadable_reg".to_string()));
    assert_eq!(m.len(), documented_cases().len() - 1, "the others still anchor");
}

#[test]
fn error_text_drift_costs_the_message_not_the_decision() {
    let reworded = DOC.replace("unreachable insn 1", "unreachable instruction at 1");
    let m = from_text(&reworded);
    assert_eq!(
        m.outcome("doc_msg_unreachable_insn"),
        Some(DocumentedOutcome::Reject),
        "decision check must survive message drift"
    );
    assert_eq!(m.expected_error("doc_msg_unreachable_insn"), None);
    assert!(m.drifted_error_text().contains(&"doc_msg_unreachable_insn".to_string()));
}

#[test]
fn a_verified_source_precondition_supersedes_a_documented_claim() {
    let m = from_sources(DOC, &sources_with_uninit_stack_relaxation());
    assert_eq!(m.outcome("doc_msg_uninit_stack_arg"), None);
    let (id, why) = &m.superseded()[0];
    assert_eq!(id, "doc_msg_uninit_stack_arg");
    assert!(why.contains("CAP_PERFMON"));
    assert_eq!(m.len(), documented_cases().len() - 1);
}

#[test]
fn silencing_needs_positive_evidence_and_reverses_itself() {
    assert_eq!(
        from_text(DOC).outcome("doc_msg_uninit_stack_arg"),
        Some(DocumentedOutcome::Reject),
        "a case must never be silenced without the citation being checked"
    );
    let without = vec![(
        "kernel/bpf/verifier.c".to_string(),
        "\tenv->allow_ptr_leaks = bpf_allow_ptr_leaks(env->prog->aux->token);\n".to_string(),
    )];
    let m = from_sources(DOC, &without);
    assert_eq!(
        m.outcome("doc_msg_uninit_stack_arg"),
        Some(DocumentedOutcome::Reject),
        "removing the precondition must revive the documented claim"
    );
    assert!(m.superseded().is_empty());
}

#[test]
fn helper_names_follow_unicode_alphanumerics() {
    let src = "const struct bpf_func_proto bpf_\u{fc}ber_proto = {\n\t.arg1_type = ARG_PTR_TO_CTX,\n};\nconst struct bpf_func_proto bpf-dash_proto = {\n\t.arg1_type = ARG_PTR_TO_CTX,\n};\n";
    let mut m = HelperProtoModel::new();
    extract_text(src, &mut m);
    assert_eq!(m.arg_regtype("bpf_\u{fc}ber", 0).as_deref(), Some("ctx"));
    assert_eq!(m.arg_regtype("bpf-dash", 0), None);
    assert_eq!(m.len(), 1);
}
