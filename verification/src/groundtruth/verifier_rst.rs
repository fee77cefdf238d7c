//! Documented behaviour: the explicit claims of `Documentation/bpf/verifier.rst`,
//! each anchored to the sentence that makes it.
//!
//! A case is usable only while its verbatim quote is still in the document (else
//! it is reported STALE); it is silenced only by a source precondition whose anchor
//! is still in the kernel tree; a documented error text that drifted out of the
//! document costs the message expectation, never the decision.
use vstd::prelude::*;
use crate::text::{words, chars_of, words_of, find_chars_from, contains, opt_chars, string_from, string_of_all};

verus! {

/// What the documentation says the verifier does with a program.
#[derive(Debug, Clone, Copy, PartialEq, Eq, Structural)]
pub enum DocumentedOutcome {
    /// The document calls it a correct program.
    Accept,
    /// The document says it is rejected.
    Reject,
}

/// A precondition the kernel source states and the documentation omits.
#[derive(Debug, Clone, Copy, PartialEq, Eq)]
pub struct SourcePrecondition {
    /// Path inside the kernel tree.
    pub file: &'static str,
    /// Line the code was read at (for triage).
    pub line: u32,
    /// The verbatim source line the precondition rests on.
    pub anchor: &'static str,
    /// Why this makes the documented claim inapplicable to the harness's load path.
    pub why: &'static str,
}

/// One documented behavioural claim, anchored to the sentence that makes it.
#[derive(Debug, Clone)]
pub struct DocumentedCase {
    /// Stable id; the harness emits a program with this exact label.
    pub id: &'static str,
    /// Line in the document the claim is made on (for triage).
    pub doc_line: u32,
    /// The document's own words, verbatim.
    pub quote: &'static str,
    /// What the document says happens.
    pub outcome: DocumentedOutcome,
    /// The exact error string the document prints for this program, if any.
    pub expected_error: Option<&'static str>,
    /// A verified source precondition that makes the claim inapplicable.
    pub superseded_by: Option<SourcePrecondition>,
}

/// What a case contributes to the model: id, quote, outcome, error text, and the
/// precondition's file, anchor and reason.
pub type CaseSpec = (
    Seq<char>,
    Seq<char>,
    DocumentedOutcome,
    Option<Seq<char>>,
    Option<(Seq<char>, Seq<char>, Seq<char>)>,
);

pub open spec fn case_view(c: DocumentedCase) -> CaseSpec {
    (
        c.id@,
        c.quote@,
        c.outcome,
        match c.expected_error {
            Some(e) => Some(e@),
            None => None,
        },
        match c.superseded_by {
            Some(p) => Some((p.file@, p.anchor@, p.why@)),
            None => None,
        },
    )
}

/// The documented cases, in order.
pub open spec fn case_table() -> Seq<CaseSpec> {
    seq![
        ("doc_unreadable_reg"@, "will be rejected, since R2 is unreadable at the start of the program"@, DocumentedOutcome::Reject, Some("R2 !read_ok"@), None),
        ("doc_callee_saved_r6"@, "is a correct program"@, DocumentedOutcome::Accept, None, None),
        ("doc_bad_ptr_xadd"@, "will be rejected, since R1 doesn't have a valid pointer type"@, DocumentedOutcome::Reject, None, None),
        ("doc_msg_unreachable_insn"@, "Program with unreachable instructions"@, DocumentedOutcome::Reject, Some("unreachable insn 1"@), None),
        ("doc_msg_uninit_r0_exit"@, "Program that doesn't initialize R0 before exiting"@, DocumentedOutcome::Reject, Some("R0 !read_ok"@), None),
        ("doc_msg_stack_oob"@, "Program that accesses stack out of bounds"@, DocumentedOutcome::Reject, Some("invalid stack off=8 size=8"@), None),
        ("doc_msg_uninit_stack_arg"@, "Program that doesn't initialize stack before passing its address into function"@, DocumentedOutcome::Reject, Some("invalid indirect read from stack off -8+0 size 8"@), Some(("kernel/bpf/verifier.c"@, "env->allow_uninit_stack = bpf_allow_uninit_stack(env->prog->aux->token);"@, "the documented rejection is unprivileged-only: bpf_allow_uninit_stack() is bpf_token_capable(token, CAP_PERFMON), so a privileged load — which is how this harness loads — may read an uninitialized stack slot and the documented error cannot occur"@))),
        ("doc_msg_invalid_map_fd"@, "Program that uses invalid map_fd=0 while calling to map_lookup_elem() function"@, DocumentedOutcome::Reject, Some("fd 0 is not pointing to valid bpf_map"@), None),
        ("doc_msg_unchecked_map_value"@, "Program that doesn't check return value of map_lookup_elem() before accessing map element"@, DocumentedOutcome::Reject, Some("R0 invalid mem access 'map_value_or_null'"@), None),
        ("doc_msg_misaligned_value"@, "accesses the memory with incorrect alignment"@, DocumentedOutcome::Reject, Some("misaligned access off 4 size 8"@), None),
        ("doc_msg_branch_imm_deref"@, "accesses memory with correct alignment in one side of 'if' branch, but fails to do so in the other side of 'if' branch"@, DocumentedOutcome::Reject, Some("R0 invalid mem access 'imm'"@), None),
        ("doc_msg_unreleased_ref_null"@, "Program that performs a socket lookup then sets the pointer to NULL without checking it"@, DocumentedOutcome::Reject, Some("Unreleased reference id=1, alloc_insn=7"@), None),
        ("doc_msg_unreleased_ref_nocheck"@, "Program that performs a socket lookup but does not NULL-check the returned value"@, DocumentedOutcome::Reject, Some("Unreleased reference id=1, alloc_insn=7"@), None),
    ]
}

/// The documented cases this loader checks, each an explicit claim of the document.
pub fn documented_cases() -> (r: Vec<DocumentedCase>)
    ensures
        r@.len() == case_table().len(),
        forall|i: int| 0 <= i < r@.len() ==> #[trigger] case_view(r@[i]) == case_table()[i],
{
    let r = vec![
        DocumentedCase {
            id: "doc_unreadable_reg",
            doc_line: 30,
            quote: "will be rejected, since R2 is unreadable at the start of the program",
            outcome: DocumentedOutcome::Reject,
            expected_error: Some("R2 !read_ok"),
            superseded_by: None,
        },
        DocumentedCase {
            id: "doc_callee_saved_r6",
            doc_line: 45,
            quote: "is a correct program",
            outcome: DocumentedOutcome::Accept,
            expected_error: None,
            superseded_by: None,
        },
        DocumentedCase {
            id: "doc_bad_ptr_xadd",
            doc_line: 56,
            quote: "will be rejected, since R1 doesn't have a valid pointer type",
            outcome: DocumentedOutcome::Reject,
            expected_error: None,
            superseded_by: None,
        },
        DocumentedCase {
            id: "doc_msg_unreachable_insn",
            doc_line: 356,
            quote: "Program with unreachable instructions",
            outcome: DocumentedOutcome::Reject,
            expected_error: Some("unreachable insn 1"),
            superseded_by: None,
        },
        DocumentedCase {
            id: "doc_msg_uninit_r0_exit",
            doc_line: 377,
            quote: "Program that doesn't initialize R0 before exiting",
            outcome: DocumentedOutcome::Reject,
            expected_error: Some("R0 !read_ok"),
            superseded_by: None,
        },
        DocumentedCase {
            id: "doc_msg_stack_oob",
            doc_line: 388,
            quote: "Program that accesses stack out of bounds",
            outcome: DocumentedOutcome::Reject,
            expected_error: Some("invalid stack off=8 size=8"),
            superseded_by: None,
        },
        DocumentedCase {
            id: "doc_msg_uninit_stack_arg",
            doc_line: 398,
            quote: "Program that doesn't initialize stack before passing its address into function",
            outcome: DocumentedOutcome::Reject,
            expected_error: Some("invalid indirect read from stack off -8+0 size 8"),
            superseded_by: Some(SourcePrecondition {
                file: "kernel/bpf/verifier.c",
                line: 21141,
                anchor: "env->allow_uninit_stack = bpf_allow_uninit_stack(env->prog->aux->token);",
                why: "the documented rejection is unprivileged-only: bpf_allow_uninit_stack() is bpf_token_capable(token, CAP_PERFMON), so a privileged load — which is how this harness loads — may read an uninitialized stack slot and the documented error cannot occur",
            }),
        },
        DocumentedCase {
            id: "doc_msg_invalid_map_fd",
            doc_line: 414,
            quote: "Program that uses invalid map_fd=0 while calling to map_lookup_elem() function",
            outcome: DocumentedOutcome::Reject,
            expected_error: Some("fd 0 is not pointing to valid bpf_map"),
            superseded_by: None,
        },
        DocumentedCase {
            id: "doc_msg_unchecked_map_value",
            doc_line: 432,
            quote: "Program that doesn't check return value of map_lookup_elem() before accessing map element",
            outcome: DocumentedOutcome::Reject,
            expected_error: Some("R0 invalid mem access 'map_value_or_null'"),
            superseded_by: None,
        },
        DocumentedCase {
            id: "doc_msg_misaligned_value",
            doc_line: 453,
            quote: "accesses the memory with incorrect alignment",
            outcome: DocumentedOutcome::Reject,
            expected_error: Some("misaligned access off 4 size 8"),
            superseded_by: None,
        },
        DocumentedCase {
            id: "doc_msg_branch_imm_deref",
            doc_line: 477,
            quote: "accesses memory with correct alignment in one side of 'if' branch, but fails to do so in the other side of 'if' branch",
            outcome: DocumentedOutcome::Reject,
            expected_error: Some("R0 invalid mem access 'imm'"),
            superseded_by: None,
        },
        DocumentedCase {
            id: "doc_msg_unreleased_ref_null",
            doc_line: 508,
            quote: "Program that performs a socket lookup then sets the pointer to NULL without checking it",
            outcome: DocumentedOutcome::Reject,
            expected_error: Some("Unreleased reference id=1, alloc_insn=7"),
            superseded_by: None,
        },
        DocumentedCase {
            id: "doc_msg_unreleased_ref_nocheck",
            doc_line: 536,
            quote: "Program that performs a socket lookup but does not NULL-check the returned value",
            outcome: DocumentedOutcome::Reject,
            expected_error: Some("Unreleased reference id=1, alloc_insn=7"),
            superseded_by: None,
        },
    ];
    proof {
        assert forall|i: int| 0 <= i < r@.len() implies #[trigger] case_view(r@[i])
            == case_table()[i] by {}
    }
    r
}

/// Words joined by single spaces.
pub open spec fn join_words(ws: Seq<Seq<char>>) -> Seq<char>
    decreases ws.len(),
{
    if ws.len() == 0 {
        seq![]
    } else if ws.len() == 1 {
        ws[0]
    } else {
        join_words(ws.drop_last()) + seq![' '] + ws.last()
    }
}

/// Whitespace-normalised text, so hard wrapping never hides a match.
pub open spec fn flatten(s: Seq<char>) -> Seq<char> {
    join_words(words(s))
}

fn flatten_chars(v: &Vec<char>) -> (r: Vec<char>)
    ensures
        r@ == flatten(v@),
{
    let ws = words_of(v);
    let ghost w = words(v@);
    let mut r: Vec<char> = Vec::new();
    let mut i: usize = 0;
    while i < ws.len()
        invariant
            i <= ws@.len(),
            ws@.len() == w.len(),
            w == words(v@),
            forall|k: int| 0 <= k < ws@.len() ==> #[trigger] ws@[k]@ == w[k],
            r@ == join_words(w.take(i as int)),
        decreases ws@.len() - i,
    {
        proof {
            assert(w.take(i + 1).drop_last() =~= w.take(i as int));
        }
        if i > 0 {
            r.push(' ');
        }
        let word = &ws[i];
        let mut j: usize = 0;
        let ghost base = r@;
        while j < word.len()
            invariant
                j <= word@.len(),
                r@ == base + word@.take(j as int),
            decreases word@.len() - j,
        {
            r.push(word[j]);
            proof {
                assert(r@ =~= base + word@.take(j + 1));
            }
            j = j + 1;
        }
        proof {
            assert(word@.take(word@.len() as int) =~= word@);
            assert(w.take(i + 1).last() == w[i as int]);
            if i == 0 {
                assert(r@ =~= join_words(w.take(1)));
            } else {
                assert(r@ =~= join_words(w.take(i + 1)));
            }
        }
        i = i + 1;
    }
    proof {
        assert(w.take(w.len() as int) =~= w);
    }
    r
}

/// Whether the flattened `hay` contains the flattened `needle`.
fn flat_contains(hay_flat: &Vec<char>, needle: &str) -> (b: bool)
    ensures
        b == contains(hay_flat@, flatten(needle@)),
{
    let n = chars_of(needle);
    let nf = flatten_chars(&n);
    find_chars_from(hay_flat, &nf, 0).is_some()
}

/// The text registered for a kernel source file, first entry wins.
pub open spec fn source_text(srcs: Seq<(String, String)>, file: Seq<char>) -> Option<Seq<char>>
    decreases srcs.len(),
{
    if srcs.len() == 0 {
        None
    } else if srcs[0].0@ == file {
        Some(srcs[0].1@)
    } else {
        source_text(srcs.drop_first(), file)
    }
}

/// The model's contents: verified `(id, outcome, expected error)`, stale ids,
/// superseded `(id, reason)`, ids whose error text drifted.
pub type RstView = (
    Seq<(Seq<char>, DocumentedOutcome, Option<Seq<char>>)>,
    Seq<Seq<char>>,
    Seq<(Seq<char>, Seq<char>)>,
    Seq<Seq<char>>,
);

/// One documented case folded into the model.
pub open spec fn rst_step(
    m: RstView,
    doc_flat: Seq<char>,
    srcs: Seq<(String, String)>,
    c: CaseSpec,
) -> RstView {
    let (id, quote, outcome, err, pre) = c;
    if !contains(doc_flat, flatten(quote)) {
        (m.0, m.1.push(id), m.2, m.3)
    } else if pre matches Some(p) && (source_text(srcs, p.0) matches Some(t) && contains(
        flatten(t),
        flatten(p.1),
    )) {
        (m.0, m.1, m.2.push((id, (pre->0).2)), m.3)
    } else {
        match err {
            Some(e) => if !contains(doc_flat, flatten(e)) {
                (m.0.push((id, outcome, None)), m.1, m.2, m.3.push(id))
            } else {
                (m.0.push((id, outcome, Some(e))), m.1, m.2, m.3)
            },
            None => (m.0.push((id, outcome, None)), m.1, m.2, m.3),
        }
    }
}

pub open spec fn rst_fold(doc_flat: Seq<char>, srcs: Seq<(String, String)>, cs: Seq<CaseSpec>) -> RstView
    decreases cs.len(),
{
    if cs.len() == 0 {
        (seq![], seq![], seq![], seq![])
    } else {
        rst_step(rst_fold(doc_flat, srcs, cs.drop_last()), doc_flat, srcs, cs.last())
    }
}

/// The model built from a document and the kernel sources its preconditions cite.
pub open spec fn rst_model(doc: Seq<char>, srcs: Seq<(String, String)>) -> RstView {
    rst_fold(flatten(doc), srcs, case_table())
}

/// The first verified entry for `id`.
pub open spec fn verified_get(
    v: Seq<(Seq<char>, DocumentedOutcome, Option<Seq<char>>)>,
    id: Seq<char>,
) -> Option<(Seq<char>, DocumentedOutcome, Option<Seq<char>>)>
    decreases v.len(),
{
    if v.len() == 0 {
        None
    } else if v[0].0 == id {
        Some(v[0])
    } else {
        verified_get(v.drop_first(), id)
    }
}

/// Documented behaviour loaded from the tree, with drift accounted for.
#[derive(Debug, Clone)]
pub struct VerifierRstModel {
    verified: Vec<(String, DocumentedOutcome, Option<String>)>,
    stale: Vec<String>,
    superseded: Vec<(String, String)>,
    drifted_error_text: Vec<String>,
}

pub open spec fn verified_view(
    v: Seq<(String, DocumentedOutcome, Option<String>)>,
) -> Seq<(Seq<char>, DocumentedOutcome, Option<Seq<char>>)> {
    v.map_values(|e: (String, DocumentedOutcome, Option<String>)| (e.0@, e.1, opt_chars(e.2)))
}

pub open spec fn strings_view(v: Seq<String>) -> Seq<Seq<char>> {
    v.map_values(|s: String| s@)
}

pub open spec fn pairs_view(v: Seq<(String, String)>) -> Seq<(Seq<char>, Seq<char>)> {
    v.map_values(|p: (String, String)| (p.0@, p.1@))
}

impl VerifierRstModel {
    /// The model's contents.
    pub closed spec fn view(self) -> RstView {
        (
            verified_view(self.verified@),
            strings_view(self.stale@),
            pairs_view(self.superseded@),
            strings_view(self.drifted_error_text@),
        )
    }

    /// An empty model.
    pub fn new() -> (m: Self)
        ensures
            m.view() == (
                Seq::<(Seq<char>, DocumentedOutcome, Option<Seq<char>>)>::empty(),
                Seq::<Seq<char>>::empty(),
                Seq::<(Seq<char>, Seq<char>)>::empty(),
                Seq::<Seq<char>>::empty(),
            ),
    {
        let m = VerifierRstModel {
            verified: Vec::new(),
            stale: Vec::new(),
            superseded: Vec::new(),
            drifted_error_text: Vec::new(),
        };
        proof {
            assert(m.view().0 =~= Seq::empty());
            assert(m.view().1 =~= Seq::empty());
            assert(m.view().2 =~= Seq::empty());
            assert(m.view().3 =~= Seq::empty());
        }
        m
    }

    fn find(&self, case_id: &str) -> (r: Option<usize>)
        ensures
            match verified_get(self.view().0, case_id@) {
                Some(e) => r matches Some(i) && i < self.verified@.len() && verified_view(
                    self.verified@,
                )[i as int] == e,
                None => r is None,
            },
    {
        let want = chars_of(case_id);
        let ghost vv = verified_view(self.verified@);
        let mut i: usize = 0;
        proof {
            assert(vv.skip(0) =~= vv);
        }
        while i < self.verified.len()
            invariant
                i <= self.verified@.len(),
                vv == verified_view(self.verified@),
                want@ == case_id@,
                verified_get(vv, case_id@) == verified_get(vv.skip(i as int), case_id@),
            decreases self.verified@.len() - i,
        {
            let id = crate::text::chars_of_string(&self.verified[i].0);
            proof {
                assert(vv.skip(i as int)[0] == vv[i as int]);
                assert(vv.skip(i as int).drop_first() =~= vv.skip(i + 1));
            }
            if crate::text::chars_eq(&id, &want) {
                return Some(i);
            }
            i = i + 1;
        }
        None
    }

    /// The documented outcome for `case_id`, if its anchor was verified.
    pub fn outcome(&self, case_id: &str) -> (r: Option<DocumentedOutcome>)
        ensures
            r == (match verified_get(self.view().0, case_id@) {
                Some(e) => Some(e.1),
                None => None,
            }),
    {
        match self.find(case_id) {
            Some(i) => Some(self.verified[i].1),
            None => None,
        }
    }

    /// The exact error string the document prints for `case_id`, if any survived.
    pub fn expected_error(&self, case_id: &str) -> (r: Option<String>)
        ensures
            opt_chars(r) == (match verified_get(self.view().0, case_id@) {
                Some(e) => e.2,
                None => None,
            }),
    {
        match self.find(case_id) {
            Some(i) => match &self.verified[i].2 {
                Some(e) => Some(e.clone()),
                None => None,
            },
            None => None,
        }
    }

    /// Number of usable (anchor-verified) cases.
    pub fn len(&self) -> (n: usize)
        ensures
            n == self.view().0.len(),
    {
        self.verified.len()
    }

    /// Whether nothing usable was loaded.
    pub fn is_empty(&self) -> (b: bool)
        ensures
            b == (self.view().0.len() == 0),
    {
        self.verified.len() == 0
    }

    /// Case ids whose documented sentence is no longer in the document.
    pub fn stale(&self) -> (r: &[String])
        ensures
            strings_view(r@) == self.view().1,
    {
        self.stale.as_slice()
    }

    /// Cases silenced by a verified source precondition, with the reason.
    pub fn superseded(&self) -> (r: &[(String, String)])
        ensures
            pairs_view(r@) == self.view().2,
    {
        self.superseded.as_slice()
    }

    /// Cases whose documented error text drifted out of the document.
    pub fn drifted_error_text(&self) -> (r: &[String])
        ensures
            strings_view(r@) == self.view().3,
    {
        self.drifted_error_text.as_slice()
    }
}

fn source_lookup(srcs: &Vec<(String, String)>, file: &str) -> (r: Option<usize>)
    ensures
        match source_text(srcs@, file@) {
            Some(t) => r matches Some(i) && i < srcs@.len() && srcs@[i as int].1@ == t,
            None => r is None,
        },
{
    let want = chars_of(file);
    let mut i: usize = 0;
    proof {
        assert(srcs@.skip(0) =~= srcs@);
    }
    while i < srcs.len()
        invariant
            i <= srcs@.len(),
            want@ == file@,
            source_text(srcs@, file@) == source_text(srcs@.skip(i as int), file@),
        decreases srcs@.len() - i,
    {
        let f = crate::text::chars_of_string(&srcs[i].0);
        proof {
            assert(srcs@.skip(i as int)[0] == srcs@[i as int]);
            assert(srcs@.skip(i as int).drop_first() =~= srcs@.skip(i + 1));
        }
        if crate::text::chars_eq(&f, &want) {
            return Some(i);
        }
        i = i + 1;
    }
    None
}

/// Builds the model from the document's text alone: nothing can be superseded.
pub fn from_text(text: &str) -> (m: VerifierRstModel)
    ensures
        m.view() == rst_model(text@, Seq::<(String, String)>::empty()),
{
    let none: Vec<(String, String)> = Vec::new();
    from_sources(text, &none)
}

/// Builds the model from the document plus the kernel sources (`(file, text)`
/// pairs) that the preconditions cite.
pub fn from_sources(doc: &str, kernel_sources: &Vec<(String, String)>) -> (m: VerifierRstModel)
    ensures
        m.view() == rst_model(doc@, kernel_sources@),
{
    let dv = chars_of(doc);
    let flat = flatten_chars(&dv);
    let cases = documented_cases();
    let mut m = VerifierRstModel::new();
    let ghost srcs = kernel_sources@;
    let mut i: usize = 0;
    while i < cases.len()
        invariant
            i <= cases@.len(),
            cases@.len() == case_table().len(),
            forall|k: int| 0 <= k < cases@.len() ==> #[trigger] case_view(cases@[k]) == case_table()[k],
            flat@ == flatten(doc@),
            srcs == kernel_sources@,
            m.view() == rst_fold(flat@, srcs, case_table().take(i as int)),
        decreases cases@.len() - i,
    {
        let case = &cases[i];
        proof {
            assert(case_table().take(i + 1).drop_last() =~= case_table().take(i as int));
            assert(case_table().take(i + 1).last() == case_view(*case));
        }
        let ghost before = m.view();
        if !flat_contains(&flat, case.quote) {
            m.stale.push(string_from(case.id));
            proof {
                assert(m.view().1 =~= before.1.push(case.id@));
                assert(m.view() == rst_step(before, flat@, srcs, case_view(*case)));
            }
        } else {
            let silenced = match case.superseded_by {
                Some(pre) => match source_lookup(kernel_sources, pre.file) {
                    Some(k) => {
                        let tv = crate::text::chars_of_string(&kernel_sources[k].1);
                        let tf = flatten_chars(&tv);
                        flat_contains(&tf, pre.anchor)
                    },
                    None => false,
                },
                None => false,
            };
            if silenced {
                let pre = case.superseded_by.unwrap();
                m.superseded.push((string_from(case.id), string_from(pre.why)));
                proof {
                    assert(m.view().2 =~= before.2.push((case.id@, pre.why@)));
                    assert(m.view() == rst_step(before, flat@, srcs, case_view(*case)));
                }
            } else {
                let expected_error = match case.expected_error {
                    Some(err) => {
                        if !flat_contains(&flat, err) {
                            m.drifted_error_text.push(string_from(case.id));
                            None
                        } else {
                            Some(string_from(err))
                        }
                    },
                    None => None,
                };
                let ghost mid = m.view();
                m.verified.push((string_from(case.id), case.outcome, expected_error));
                proof {
                    assert(m.view().0 =~= mid.0.push((case.id@, case.outcome, opt_chars(expected_error))));
                    assert(m.view().3 =~= mid.3);
                    if case.expected_error is Some && !contains(flat@, flatten(case.expected_error->0@)) {
                        assert(mid.3 =~= before.3.push(case.id@));
                    }
                    assert(m.view() == rst_step(before, flat@, srcs, case_view(*case)));
                }
            }
        }
        i = i + 1;
    }
    proof {
        assert(case_table().take(case_table().len() as int) =~= case_table());
    }
    m
}

/// Whether `id` is verified in `v` with no expected error text.
pub open spec fn verified_without_error(
    v: Seq<(Seq<char>, DocumentedOutcome, Option<Seq<char>>)>,
    id: Seq<char>,
) -> bool {
    exists|j: int| 0 <= j < v.len() && (#[trigger] v[j]).0 == id && v[j].2 is None
}

proof fn lemma_fold_accounts(doc_flat: Seq<char>, srcs: Seq<(String, String)>, cs: Seq<CaseSpec>)
    ensures
        ({
            let m = rst_fold(doc_flat, srcs, cs);
            &&& m.0.len() + m.1.len() + m.2.len() == cs.len()
            &&& srcs.len() == 0 ==> m.2.len() == 0
            &&& forall|i: int|
                0 <= i < m.3.len() ==> verified_without_error(m.0, #[trigger] m.3[i])
        }),
    decreases cs.len(),
{
    if cs.len() > 0 {
        lemma_fold_accounts(doc_flat, srcs, cs.drop_last());
        let p = rst_fold(doc_flat, srcs, cs.drop_last());
        let m = rst_fold(doc_flat, srcs, cs);
        assert forall|i: int| 0 <= i < m.3.len() implies verified_without_error(
            m.0,
            #[trigger] m.3[i],
        ) by {
            if i < p.3.len() && m.3[i] == p.3[i] && m.0.len() >= p.0.len() && (forall|j: int|
                0 <= j < p.0.len() ==> m.0[j] == p.0[j]) {
                assert(verified_without_error(p.0, p.3[i]));
                let j = choose|j: int| 0 <= j < p.0.len() && (#[trigger] p.0[j]).0 == p.3[i]
                    && p.0[j].2 is None;
                assert(m.0[j] == p.0[j]);
            } else {
                let j = m.0.len() - 1;
                assert(m.0[j].0 == m.3[i] && m.0[j].2 is None);
            }
        }
    }
}

/// Every documented case is accounted for exactly once: it is verified (its
/// quote anchors in the document), stale (the quote no longer anchors) or
/// superseded (a cited source precondition removes the claim). None is dropped.
pub proof fn lemma_every_case_accounted(doc: Seq<char>, srcs: Seq<(String, String)>)
    ensures
        rst_model(doc, srcs).0.len() + rst_model(doc, srcs).1.len() + rst_model(doc, srcs).2.len()
            == case_table().len(),
{
    lemma_fold_accounts(flatten(doc), srcs, case_table());
}

/// Silencing needs positive evidence: with no kernel sources to check a cited
/// precondition against, no documented case is superseded.
pub proof fn lemma_no_sources_supersede_nothing(doc: Seq<char>)
    ensures
        rst_model(doc, Seq::empty()).2.len() == 0,
{
    lemma_fold_accounts(flatten(doc), Seq::empty(), case_table());
}

/// Error-text drift costs the message, not the decision: every case whose
/// expected error no longer anchors is still verified, with no expected error.
pub proof fn lemma_drift_keeps_the_decision(doc: Seq<char>, srcs: Seq<(String, String)>)
    ensures
        forall|i: int|
            0 <= i < rst_model(doc, srcs).3.len() ==> verified_without_error(
                rst_model(doc, srcs).0,
                #[trigger] rst_model(doc, srcs).3[i],
            ),
{
    lemma_fold_accounts(flatten(doc), srcs, case_table());
}

} // verus!

verus! {

/// A case is stale when its quote no longer appears in the (whitespace-
/// flattened) document.
pub open spec fn case_stale(doc_flat: Seq<char>, c: CaseSpec) -> bool {
    !contains(doc_flat, flatten(c.1))
}

/// A case is superseded when its quote still appears and the kernel source it
/// cites holds the precondition's anchor.
pub open spec fn case_superseded(doc_flat: Seq<char>, srcs: Seq<(String, String)>, c: CaseSpec) -> bool {
    !case_stale(doc_flat, c) && (c.4 matches Some(p) && (source_text(srcs, p.0) matches Some(t)
        && contains(flatten(t), flatten(p.1))))
}

/// A case is verified when it is neither stale nor superseded.
pub open spec fn case_verified(doc_flat: Seq<char>, srcs: Seq<(String, String)>, c: CaseSpec) -> bool {
    !case_stale(doc_flat, c) && !case_superseded(doc_flat, srcs, c)
}

/// The ids of the cases in `cs` that satisfy `fate`, in order.
pub open spec fn ids_where(cs: Seq<CaseSpec>, fate: spec_fn(CaseSpec) -> bool) -> Seq<Seq<char>>
    decreases cs.len(),
{
    if cs.len() == 0 {
        seq![]
    } else {
        ids_where(cs.drop_last(), fate) + if fate(cs.last()) {
            seq![cs.last().0]
        } else {
            seq![]
        }
    }
}

proof fn lemma_fold_sorts(doc_flat: Seq<char>, srcs: Seq<(String, String)>, cs: Seq<CaseSpec>)
    ensures
        rst_fold(doc_flat, srcs, cs).1 == ids_where(cs, |c: CaseSpec| case_stale(doc_flat, c)),
        rst_fold(doc_flat, srcs, cs).2.map_values(|e: (Seq<char>, Seq<char>)| e.0) == ids_where(
            cs,
            |c: CaseSpec| case_superseded(doc_flat, srcs, c),
        ),
        rst_fold(doc_flat, srcs, cs).0.map_values(
            |e: (Seq<char>, DocumentedOutcome, Option<Seq<char>>)| e.0,
        ) == ids_where(cs, |c: CaseSpec| case_verified(doc_flat, srcs, c)),
    decreases cs.len(),
{
    if cs.len() > 0 {
        lemma_fold_sorts(doc_flat, srcs, cs.drop_last());
        let p = rst_fold(doc_flat, srcs, cs.drop_last());
        let m = rst_fold(doc_flat, srcs, cs);
        assert(m.2.map_values(|e: (Seq<char>, Seq<char>)| e.0) =~= ids_where(
            cs,
            |c: CaseSpec| case_superseded(doc_flat, srcs, c),
        ));
        assert(m.0.map_values(|e: (Seq<char>, DocumentedOutcome, Option<Seq<char>>)| e.0)
            =~= ids_where(cs, |c: CaseSpec| case_verified(doc_flat, srcs, c)));
        assert(m.1 =~= ids_where(cs, |c: CaseSpec| case_stale(doc_flat, c)));
    }
}

/// Each documented case lands in exactly one list, by a rule stated per case: it
/// is stale exactly when its quote is missing from the document, superseded
/// exactly when its quote is present and the kernel source it cites holds its
/// anchor, and verified otherwise. The stale ids, the superseded ids and the
/// verified ids are exactly the table's cases of each kind, in table order.
pub proof fn lemma_each_case_sorted(doc: Seq<char>, srcs: Seq<(String, String)>)
    ensures
        rst_model(doc, srcs).1 == ids_where(case_table(), |c: CaseSpec| case_stale(flatten(doc), c)),
        rst_model(doc, srcs).2.map_values(|e: (Seq<char>, Seq<char>)| e.0) == ids_where(
            case_table(),
            |c: CaseSpec| case_superseded(flatten(doc), srcs, c),
        ),
        rst_model(doc, srcs).0.map_values(
            |e: (Seq<char>, DocumentedOutcome, Option<Seq<char>>)| e.0,
        ) == ids_where(case_table(), |c: CaseSpec| case_verified(flatten(doc), srcs, c)),
        forall|c: CaseSpec|
            #![trigger case_stale(flatten(doc), c)]
            {
                &&& case_stale(flatten(doc), c) || case_superseded(flatten(doc), srcs, c)
                    || case_verified(flatten(doc), srcs, c)
                &&& !(case_stale(flatten(doc), c) && case_superseded(flatten(doc), srcs, c))
                &&& !(case_stale(flatten(doc), c) && case_verified(flatten(doc), srcs, c))
                &&& !(case_superseded(flatten(doc), srcs, c) && case_verified(flatten(doc), srcs, c))
            },
{
    lemma_fold_sorts(flatten(doc), srcs, case_table());
}

} // verus!
