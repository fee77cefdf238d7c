//! Ground-truth oracles for the documented-vs-observed diff.
//!
//! The ground truth is documentation, helper contracts and git history, not a
//! formal model. Each query answers `None` when its source has nothing loaded, so
//! "source absent" stays distinct from "no divergence".
use vstd::prelude::*;
use crate::text::opt_chars;

pub mod helper_proto;
pub mod verifier_rst;
pub mod patch_diff;
pub mod verifier_c;


use self::helper_proto::HelperProtoModel;
use self::verifier_rst::{DocumentedOutcome, VerifierRstModel, verified_get};
use self::patch_diff::{PatchDiffModel, staleness_text};


verus! {

/// The oracle the diff stage consults for source-backed checks.
pub trait GroundTruth {
    /// What this oracle knows of the documented `arg_type` of a helper argument.
    spec fn arg_type_of(&self, helper: Seq<char>, arg_index: u8) -> Option<Seq<char>>;

    /// What this oracle knows of the expected reg-type family of a helper argument.
    spec fn arg_regtype_of(&self, helper: Seq<char>, arg_index: u8) -> Option<Seq<char>>;

    /// What the documentation says happens to the program labelled `case_id`.
    spec fn outcome_of(&self, case_id: Seq<char>) -> Option<DocumentedOutcome>;

    /// The error text the documentation prints for `case_id`.
    spec fn expected_error_of(&self, case_id: Seq<char>) -> Option<Seq<char>>;

    /// Evidence of how far the documentation has fallen behind the code.
    spec fn staleness_of(&self) -> Option<Seq<char>>;

    /// Documented `arg_type` for helper argument `(helper, arg_index)`.
    fn helper_arg_type(&self, helper: &str, arg_index: u8) -> (r: Option<String>)
        ensures
            opt_chars(r) == self.arg_type_of(helper@, arg_index),
    ;

    /// Expected verifier reg-type family for a helper argument.
    fn helper_arg_regtype(&self, helper: &str, arg_index: u8) -> (r: Option<String>)
        ensures
            opt_chars(r) == self.arg_regtype_of(helper@, arg_index),
    ;

    /// What the documentation says the verifier does with the program `case_id`.
    fn documented_outcome(&self, case_id: &str) -> (r: Option<DocumentedOutcome>)
        ensures
            r == self.outcome_of(case_id@),
    ;

    /// The exact error string the documentation prints for `case_id`.
    fn documented_expected_error(&self, case_id: &str) -> (r: Option<String>)
        ensures
            opt_chars(r) == self.expected_error_of(case_id@),
    ;

    /// Git-derived evidence qualifying a documentation finding.
    fn doc_staleness_evidence(&self) -> (r: Option<String>)
        ensures
            opt_chars(r) == self.staleness_of(),
    ;
}

/// The empty oracle: knows nothing, corroborates nothing.
#[derive(Debug, Default, Clone, Copy)]
pub struct NoGroundTruth;

impl GroundTruth for NoGroundTruth {
    open spec fn arg_type_of(&self, helper: Seq<char>, arg_index: u8) -> Option<Seq<char>> {
        None
    }

    open spec fn arg_regtype_of(&self, helper: Seq<char>, arg_index: u8) -> Option<Seq<char>> {
        None
    }

    open spec fn outcome_of(&self, case_id: Seq<char>) -> Option<DocumentedOutcome> {
        None
    }

    open spec fn expected_error_of(&self, case_id: Seq<char>) -> Option<Seq<char>> {
        None
    }

    open spec fn staleness_of(&self) -> Option<Seq<char>> {
        None
    }

    fn helper_arg_type(&self, helper: &str, arg_index: u8) -> (r: Option<String>) {
        None
    }

    fn helper_arg_regtype(&self, helper: &str, arg_index: u8) -> (r: Option<String>) {
        None
    }

    fn documented_outcome(&self, case_id: &str) -> (r: Option<DocumentedOutcome>) {
        None
    }

    fn documented_expected_error(&self, case_id: &str) -> (r: Option<String>) {
        None
    }

    fn doc_staleness_evidence(&self) -> (r: Option<String>) {
        None
    }
}

/// An in-memory oracle: real for whatever it has been populated with, silent
/// elsewhere.
#[derive(Debug, Clone)]
pub struct StaticGroundTruth {
    /// Helper arg_type contracts.
    pub helper_proto: HelperProtoModel,
    /// Documented behaviour (anchor-verified cases).
    pub verifier_rst: VerifierRstModel,
    /// Git-derived doc-vs-code staleness evidence.
    pub patch_diff: PatchDiffModel,
}

impl Default for StaticGroundTruth {
    fn default() -> (g: Self)
        ensures
            g.helper_proto.contracts_map() == Map::<(Seq<char>, u8), Seq<char>>::empty(),
            g.helper_proto.regtypes_map() == Map::<(Seq<char>, u8), Seq<char>>::empty(),
            g.verifier_rst.view().0.len() == 0,
            g.patch_diff.doc_last is None,
            g.patch_diff.code_last is None,
            g.patch_diff.code_commits_since_doc == 0,
    {
        StaticGroundTruth {
            helper_proto: HelperProtoModel::new(),
            verifier_rst: VerifierRstModel::new(),
            patch_diff: PatchDiffModel { doc_last: None, code_last: None, code_commits_since_doc: 0 },
        }
    }
}

impl StaticGroundTruth {
    /// An oracle holding only a helper-proto table.
    pub fn with_helper_proto(helper_proto: HelperProtoModel) -> (g: Self)
        ensures
            g.helper_proto == helper_proto,
            g.verifier_rst.view().0.len() == 0,
            g.patch_diff.doc_last is None,
            g.patch_diff.code_last is None,
    {
        StaticGroundTruth {
            helper_proto,
            verifier_rst: VerifierRstModel::new(),
            patch_diff: PatchDiffModel { doc_last: None, code_last: None, code_commits_since_doc: 0 },
        }
    }

    /// Attaches documented-behaviour cases.
    pub fn with_verifier_rst(self, verifier_rst: VerifierRstModel) -> (g: Self)
        ensures
            g.helper_proto == self.helper_proto,
            g.verifier_rst == verifier_rst,
            g.patch_diff == self.patch_diff,
    {
        StaticGroundTruth { helper_proto: self.helper_proto, verifier_rst, patch_diff: self.patch_diff }
    }

    /// Attaches git-derived staleness evidence.
    pub fn with_patch_diff(self, patch_diff: PatchDiffModel) -> (g: Self)
        ensures
            g.helper_proto == self.helper_proto,
            g.verifier_rst == self.verifier_rst,
            g.patch_diff == patch_diff,
    {
        StaticGroundTruth { helper_proto: self.helper_proto, verifier_rst: self.verifier_rst, patch_diff }
    }
}

impl GroundTruth for StaticGroundTruth {
    open spec fn arg_type_of(&self, helper: Seq<char>, arg_index: u8) -> Option<Seq<char>> {
        if self.helper_proto.contracts_map().contains_key((helper, arg_index)) {
            Some(self.helper_proto.contracts_map()[(helper, arg_index)])
        } else {
            None
        }
    }

    open spec fn arg_regtype_of(&self, helper: Seq<char>, arg_index: u8) -> Option<Seq<char>> {
        if self.helper_proto.regtypes_map().contains_key((helper, arg_index)) {
            Some(self.helper_proto.regtypes_map()[(helper, arg_index)])
        } else {
            None
        }
    }

    open spec fn outcome_of(&self, case_id: Seq<char>) -> Option<DocumentedOutcome> {
        match verified_get(self.verifier_rst.view().0, case_id) {
            Some(e) => Some(e.1),
            None => None,
        }
    }

    open spec fn expected_error_of(&self, case_id: Seq<char>) -> Option<Seq<char>> {
        match verified_get(self.verifier_rst.view().0, case_id) {
            Some(e) => e.2,
            None => None,
        }
    }

    open spec fn staleness_of(&self) -> Option<Seq<char>> {
        match (self.patch_diff.doc_last, self.patch_diff.code_last) {
            (Some(d), Some(c)) => Some(
                staleness_text(d, c, self.patch_diff.code_commits_since_doc),
            ),
            _ => None,
        }
    }

    fn helper_arg_type(&self, helper: &str, arg_index: u8) -> (r: Option<String>) {
        self.helper_proto.arg_type(helper, arg_index)
    }

    fn helper_arg_regtype(&self, helper: &str, arg_index: u8) -> (r: Option<String>) {
        self.helper_proto.arg_regtype(helper, arg_index)
    }

    fn documented_outcome(&self, case_id: &str) -> (r: Option<DocumentedOutcome>) {
        self.verifier_rst.outcome(case_id)
    }

    fn documented_expected_error(&self, case_id: &str) -> (r: Option<String>) {
        self.verifier_rst.expected_error(case_id)
    }

    fn doc_staleness_evidence(&self) -> (r: Option<String>) {
        self.patch_diff.staleness_note()
    }
}

} // verus!
