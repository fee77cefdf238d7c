//! The file-based artifact contract between the pipeline stages and the analysis
//! side: the envelope's schema version, which stage produced an artifact, and
//! where each artifact of a period lives on disk.
//!
//! Paths are held as strings and joined with the rules of `Path::join` on a
//! Unix host: an absolute component replaces what came before, otherwise a single
//! `/` separates the parts (none is added after a trailing `/` or to an empty
//! base).
use vstd::prelude::*;
use crate::num::{dec_str, lemma_dec_digits, push_dec};
use crate::text::is_dec;
use crate::text::{chars_of, chars_of_string, push_chars, push_str};

pub mod filenames;

verus! {

/// On-disk envelope schema version. Checked on every read.
pub const CONTRACT_VERSION: u32 = 1;

/// `std::io::Error`, carried through unchanged inside the error types.
#[verifier::external_type_specification]
#[verifier::external_body]
pub struct ExIoError(std::io::Error);

/// `serde_json::Error`, carried through unchanged inside [`ContractError`].
#[verifier::external_type_specification]
#[verifier::external_body]
pub struct ExJsonError(serde_json::Error);

/// Which pipeline stage (or language side) produced an artifact.
#[derive(Debug, Clone, Copy, PartialEq, Eq, Structural)]
pub enum Producer {
    /// The ingest stage: the raw native-output index.
    Ingest,
    /// The normalize stage: normalized metrics.
    Normalize,
    /// The analyzer: anomaly scores.
    Score,
    /// The diff stage: documented-vs-observed findings.
    Diff,
    /// The report stage: the triaged period report.
    Report,
}

/// `base` joined with `rel`, as `Path::join` does on Unix.
pub open spec fn path_join(base: Seq<char>, rel: Seq<char>) -> Seq<char> {
    if rel.len() > 0 && rel[0] == '/' {
        rel
    } else if base.len() == 0 {
        rel
    } else if base.last() == '/' {
        base + rel
    } else {
        base + seq!['/'] + rel
    }
}

/// Joins two paths held as strings.
pub fn join_path(base: &String, rel: &str) -> (p: String)
    ensures
        p@ == path_join(base@, rel@),
{
    let b = chars_of_string(base);
    let r = chars_of(rel);
    if r.len() > 0 && r[0] == '/' {
        let mut p = String::new();
        push_chars(&mut p, &r);
        proof {
            assert(Seq::<char>::empty() + r@ =~= r@);
        }
        return p;
    }
    let mut p = String::new();
    push_chars(&mut p, &b);
    if b.len() > 0 && b[b.len() - 1] != '/' {
        push_str(&mut p, "/");
        proof {
            reveal_strlit("/");
        }
    }
    push_chars(&mut p, &r);
    proof {
        assert(Seq::<char>::empty() + b@ =~= b@);
        if b@.len() > 0 && b@.last() != '/' {
            assert(b@ + seq!['/'] + r@ =~= b@ + "/"@ + r@);
        }
    }
    p
}

/// The directory of period `id` under `data_root`: `<data_root>/periods/<id>`.
pub open spec fn period_root(data_root: Seq<char>, id: u64) -> Seq<char> {
    path_join(path_join(data_root, "periods"@), dec_str(id as nat))
}

/// Resolves the on-disk paths of one period's artifacts.
#[derive(Debug, Clone)]
pub struct PeriodPaths {
    /// Root dir for this period: `<data_root>/periods/<period_id>`.
    pub root: String,
    /// The period id (N), stamped into each artifact's envelope.
    pub period_id: u64,
}

impl PeriodPaths {
    /// The paths of period `period_id` under `data_root`.
    pub fn new(data_root: &String, period_id: u64) -> (p: Self)
        ensures
            p.root@ == period_root(data_root@, period_id),
            p.period_id == period_id,
    {
        let periods = join_path(data_root, "periods");
        let mut id = String::new();
        push_dec(&mut id, period_id);
        proof {
            assert(Seq::<char>::empty() + dec_str(period_id as nat) =~= dec_str(period_id as nat));
        }
        let root = join_path(&periods, id.as_str());
        PeriodPaths { root, period_id }
    }

    /// Path of a named artifact within this period.
    pub fn artifact(&self, name: &str) -> (p: String)
        ensures
            p@ == path_join(self.root@, name@),
    {
        join_path(&self.root, name)
    }

    /// Path of the raw native-output index.
    pub fn raw_index(&self) -> (p: String)
        ensures
            p@ == path_join(self.root@, filenames::RAW_INDEX@),
    {
        self.artifact(filenames::RAW_INDEX)
    }

    /// Path of the normalized-metrics artifact.
    pub fn normalized(&self) -> (p: String)
        ensures
            p@ == path_join(self.root@, filenames::NORMALIZED@),
    {
        self.artifact(filenames::NORMALIZED)
    }

    /// Path of the anomaly-scores artifact.
    pub fn anomaly_scores(&self) -> (p: String)
        ensures
            p@ == path_join(self.root@, filenames::ANOMALY_SCORES@),
    {
        self.artifact(filenames::ANOMALY_SCORES)
    }

    /// Path of the diff-findings artifact.
    pub fn diff_findings(&self) -> (p: String)
        ensures
            p@ == path_join(self.root@, filenames::DIFF_FINDINGS@),
    {
        self.artifact(filenames::DIFF_FINDINGS)
    }

    /// Path of the period-report artifact.
    pub fn period_report(&self) -> (p: String)
        ensures
            p@ == path_join(self.root@, filenames::PERIOD_REPORT@),
    {
        self.artifact(filenames::PERIOD_REPORT)
    }
}

/// Errors from reading or writing artifacts.
#[derive(Debug)]
pub enum ContractError {
    /// Filesystem I/O failure.
    Io(std::io::Error),
    /// JSON (de)serialization failure.
    Json(serde_json::Error),
    /// The on-disk `contract_version` did not match [`CONTRACT_VERSION`].
    VersionMismatch {
        /// Version found in the file.
        found: u32,
        /// Version this build expects.
        expected: u32,
    },
}

/// Accepts an artifact header's `contract_version` only if it is the one this
/// build writes; otherwise reports both versions.
pub fn check_version(found: u32) -> (r: Result<(), ContractError>)
    ensures
        r is Ok <==> found == CONTRACT_VERSION,
        r matches Err(ContractError::VersionMismatch { found: f, expected: e })
            ==> f == found && e == CONTRACT_VERSION,
        r is Err ==> r->Err_0 is VersionMismatch,
{
    if found != CONTRACT_VERSION {
        Err(ContractError::VersionMismatch { found, expected: CONTRACT_VERSION })
    } else {
        Ok(())
    }
}

proof fn lemma_join_relative(base: Seq<char>, rel: Seq<char>)
    requires
        base.len() > 0,
        base.last() != '/',
        rel.len() == 0 || rel[0] != '/',
    ensures
        path_join(base, rel) == base + seq!['/'] + rel,
{
}

proof fn lemma_cancel_suffix(a: Seq<char>, b: Seq<char>, x: Seq<char>)
    requires
        a + x == b + x,
    ensures
        a == b,
{
    assert((a + x).len() == (b + x).len());
    assert((a + x).len() == a.len() + x.len());
    assert((b + x).len() == b.len() + x.len());
    assert(a.len() == b.len());
    assert forall|i: int| 0 <= i < a.len() implies a[i] == b[i] by {
        assert((a + x)[i] == a[i]);
        assert((b + x)[i] == b[i]);
    }
    assert(a =~= b);
}

proof fn lemma_cancel_prefix(p: Seq<char>, a: Seq<char>, b: Seq<char>)
    requires
        p + a == p + b,
    ensures
        a == b,
{
    assert((p + a).len() == (p + b).len());
    assert((p + a).len() == p.len() + a.len());
    assert((p + b).len() == p.len() + b.len());
    assert(a.len() == b.len());
    assert forall|i: int| 0 <= i < a.len() implies a[i] == b[i] by {
        assert((p + a)[p.len() + i] == a[i]);
        assert((p + b)[p.len() + i] == b[i]);
    }
    assert(a =~= b);
}

/// Distinct periods never share an artifact path: for any artifact name that
/// is relative (does not start with `/`), the paths of two different period ids
/// under one data root differ.
pub proof fn lemma_periods_are_disjoint(data_root: Seq<char>, i: u64, j: u64, name: Seq<char>)
    requires
        i != j,
        name.len() == 0 || name[0] != '/',
    ensures
        path_join(period_root(data_root, i), name) != path_join(period_root(data_root, j), name),
{
    reveal_strlit("periods");
    let p = path_join(data_root, "periods"@);
    assert(p.len() > 0 && p.last() == 's');
    lemma_dec_digits(i as nat);
    lemma_dec_digits(j as nat);
    let di = dec_str(i as nat);
    let dj = dec_str(j as nat);
    assert(is_dec(di[0]) && is_dec(dj[0]));
    lemma_join_relative(p, di);
    lemma_join_relative(p, dj);
    let ri = period_root(data_root, i);
    let rj = period_root(data_root, j);
    assert(ri == p + seq!['/'] + di);
    assert(rj == p + seq!['/'] + dj);
    assert(ri.last() == di.last());
    assert(rj.last() == dj.last());
    assert(is_dec(di[di.len() - 1]) && is_dec(dj[dj.len() - 1]));
    lemma_join_relative(ri, name);
    lemma_join_relative(rj, name);
    if path_join(ri, name) == path_join(rj, name) {
        assert(ri + seq!['/'] + name == rj + seq!['/'] + name);
        assert(ri + seq!['/'] + name =~= ri + (seq!['/'] + name));
        assert(rj + seq!['/'] + name =~= rj + (seq!['/'] + name));
        lemma_cancel_suffix(ri, rj, seq!['/'] + name);
        assert(p + seq!['/'] + di =~= p + (seq!['/'] + di));
        assert(p + seq!['/'] + dj =~= p + (seq!['/'] + dj));
        lemma_cancel_prefix(p, seq!['/'] + di, seq!['/'] + dj);
        lemma_cancel_prefix(seq!['/'], di, dj);
        assert(false);
    }
}

} // verus!
