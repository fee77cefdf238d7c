//! Git history over the verifier: how far the documentation has fallen behind the
//! code it describes. This source qualifies documentation findings; it never
//! raises one on its own.
use vstd::prelude::*;
use crate::text::{
    chars_of, find_char, find_char_from, trim, string_of, trim_range, string_from, push_string,
    push_str,
};
use crate::num::{push_dec, dec_str, parse_u64, parse_u64_chars};

verus! {

/// A commit touching one of the verifier paths.
#[derive(Debug, Clone, PartialEq, Eq)]
pub struct CommitInfo {
    /// Abbreviated sha.
    pub sha: String,
    /// Author date, `YYYY-MM-DD`.
    pub date: String,
    /// Subject line.
    pub subject: String,
}

/// Git-derived view of how documentation and verifier code moved relative to each
/// other.
#[derive(Debug, Default, Clone)]
pub struct PatchDiffModel {
    /// Last commit touching the verifier documentation.
    pub doc_last: Option<CommitInfo>,
    /// Last commit touching the verifier implementation.
    pub code_last: Option<CommitInfo>,
    /// Implementation commits since the documentation last moved.
    pub code_commits_since_doc: u64,
}

/// The one-line staleness evidence for two commits and a commit count.
pub open spec fn staleness_text(doc: CommitInfo, code: CommitInfo, n: u64) -> Seq<char> {
    "documentation last changed "@ + doc.date@ + " ("@ + doc.sha@ + "), verifier.c last changed "@
        + code.date@ + " ("@ + code.sha@ + "), "@ + dec_str(n as nat) + " verifier.c commits since"@
}

/// Each side's history is attributed to its own side: the note opens with
/// "documentation last changed ", the documentation commit's date and, in
/// parentheses, its sha; then ", verifier.c last changed ", the code commit's
/// date and its sha; and it ends with the count of verifier.c commits since.
pub proof fn lemma_staleness_attributes_each_side(doc: CommitInfo, code: CommitInfo, n: u64)
    ensures
        ("documentation last changed "@ + doc.date@ + " ("@ + doc.sha@ + "), verifier.c last changed "@
            + code.date@ + " ("@ + code.sha@ + "), "@).is_prefix_of(staleness_text(doc, code, n)),
        (dec_str(n as nat) + " verifier.c commits since"@).is_suffix_of(
            staleness_text(doc, code, n),
        ),
{
    let pre = "documentation last changed "@ + doc.date@ + " ("@ + doc.sha@
        + "), verifier.c last changed "@ + code.date@ + " ("@ + code.sha@ + "), "@;
    let suf = dec_str(n as nat) + " verifier.c commits since"@;
    let t = staleness_text(doc, code, n);
    assert(t =~= pre + suf);
    assert(t.subrange(0, pre.len() as int) =~= pre);
    assert(t.subrange(t.len() - suf.len(), t.len() as int) =~= suf);
}

impl PatchDiffModel {
    /// One-line evidence for triage: states the distance between documentation and
    /// code, never a verdict. `None` when either side's history is missing.
    pub fn staleness_note(&self) -> (r: Option<String>)
        ensures
            r matches Some(s) ==> self.doc_last is Some && self.code_last is Some && s@
                == staleness_text(
                self.doc_last->0,
                self.code_last->0,
                self.code_commits_since_doc,
            ),
            r is None ==> self.doc_last is None || self.code_last is None,
    {
        let doc = match &self.doc_last {
            Some(d) => d,
            None => return None,
        };
        let code = match &self.code_last {
            Some(c) => c,
            None => return None,
        };
        let mut s = string_from("documentation last changed ");
        push_string(&mut s, &doc.date);
        push_str(&mut s, " (");
        push_string(&mut s, &doc.sha);
        push_str(&mut s, "), verifier.c last changed ");
        push_string(&mut s, &code.date);
        push_str(&mut s, " (");
        push_string(&mut s, &code.sha);
        push_str(&mut s, "), ");
        push_dec(&mut s, self.code_commits_since_doc);
        push_str(&mut s, " verifier.c commits since");
        Some(s)
    }

    /// Whether any git history was resolved at all.
    pub fn is_empty(&self) -> (b: bool)
        ensures
            b == (self.doc_last is None && self.code_last is None),
    {
        self.doc_last.is_none() && self.code_last.is_none()
    }
}

/// `<sha>\t<date>\t<subject>`, fields trimmed; the subject may be missing, the sha
/// and date may not be empty. Only the first two tabs separate fields.
pub open spec fn commit_line(line: Seq<char>) -> Option<(Seq<char>, Seq<char>, Seq<char>)> {
    match find_char_from(line, '\t', 0) {
        None => None,
        Some(i) => {
            let sha = trim(line.subrange(0, i));
            let rest = line.subrange(i + 1, line.len() as int);
            let (date, subject) = match find_char_from(rest, '\t', 0) {
                Some(j) => (trim(rest.subrange(0, j)), trim(rest.subrange(j + 1, rest.len() as int))),
                None => (trim(rest), Seq::<char>::empty()),
            };
            if sha.len() == 0 || date.len() == 0 {
                None
            } else {
                Some((sha, date, subject))
            }
        },
    }
}

/// Parses one `git log --format=%h%x09%ad%x09%s` line.
pub fn parse_commit_line(line: &str) -> (r: Option<CommitInfo>)
    ensures
        match commit_line(line@) {
            Some(t) => r matches Some(c) && c.sha@ == t.0 && c.date@ == t.1 && c.subject@ == t.2,
            None => r is None,
        },
{
    let v = chars_of(line);
    proof {
        lemma_find_char_range(v@, '\t', 0);
    }
    let i = match find_char(&v, '\t', 0) {
        Some(i) => i,
        None => return None,
    };
    let (a, b) = trim_range(&v, 0, i);
    let sha = string_of(&v, a, b);
    let ghost rest = v@.subrange(i + 1, v@.len() as int);
    assert(i < v@.len());
    assert(v@.len() == v.len());
    proof {
        lemma_find_char_range(v@, '\t', i + 1);
    }
    let (date, subject, date_empty) = match find_char(&v, '\t', i + 1) {
        Some(j) => {
            proof {
                lemma_find_char_shift(v@, '\t', i + 1, j as int);
            }
            let (c, d) = trim_range(&v, i + 1, j);
            let (e, f) = trim_range(&v, j + 1, v.len());
            proof {
                assert(rest.subrange(0, j - i - 1) =~= v@.subrange(i + 1, j as int));
                assert(rest.subrange(j - i, rest.len() as int) =~= v@.subrange(
                    j + 1,
                    v@.len() as int,
                ));
            }
            (string_of(&v, c, d), string_of(&v, e, f), c == d)
        },
        None => {
            proof {
                lemma_find_char_shift_none(v@, '\t', i + 1);
            }
            let (c, d) = trim_range(&v, i + 1, v.len());
            (string_of(&v, c, d), String::new(), c == d)
        },
    };
    if a == b || date_empty {
        return None;
    }
    Some(CommitInfo { sha, date, subject })
}

proof fn lemma_find_char_range(s: Seq<char>, c: char, from: int)
    ensures
        find_char_from(s, c, from) matches Some(x) ==> from <= x < s.len() && s[x] == c,
    decreases s.len() - from,
{
    if 0 <= from < s.len() && s[from] != c {
        lemma_find_char_range(s, c, from + 1);
    }
}

/// A search from `from` in `s` is a search from 0 in `s[from..]`, shifted.
proof fn lemma_find_char_shift(s: Seq<char>, c: char, from: int, j: int)
    requires
        0 <= from <= s.len(),
        find_char_from(s, c, from) == Some(j),
    ensures
        find_char_from(s.subrange(from, s.len() as int), c, 0) == Some(j - from),
    decreases j - from,
{
    lemma_find_char_shift_gen(s, c, from, from);
}

proof fn lemma_find_char_shift_gen(s: Seq<char>, c: char, base: int, from: int)
    requires
        0 <= base <= from <= s.len(),
    ensures
        find_char_from(s.subrange(base, s.len() as int), c, from - base) == (match find_char_from(
            s,
            c,
            from,
        ) {
            Some(j) => Some(j - base),
            None => None,
        }),
    decreases s.len() - from,
{
    let t = s.subrange(base, s.len() as int);
    if from < s.len() {
        assert(t[from - base] == s[from]);
        lemma_find_char_shift_gen(s, c, base, from + 1);
    }
}

proof fn lemma_find_char_shift_none(s: Seq<char>, c: char, from: int)
    requires
        0 <= from <= s.len(),
        find_char_from(s, c, from) is None,
    ensures
        find_char_from(s.subrange(from, s.len() as int), c, 0) is None,
{
    lemma_find_char_shift_gen(s, c, from, from);
}

/// The commit a `git log` line names, if it is well-formed.
pub open spec fn commit_of(line: Option<Seq<char>>) -> Option<(Seq<char>, Seq<char>, Seq<char>)> {
    match line {
        Some(l) => commit_line(l),
        None => None,
    }
}

/// `c` records the commit `t = (sha, date, subject)`.
pub open spec fn is_commit(c: Option<CommitInfo>, t: Option<(Seq<char>, Seq<char>, Seq<char>)>) -> bool {
    match t {
        Some(t) => c matches Some(ci) && ci.sha@ == t.0 && ci.date@ == t.1 && ci.subject@ == t.2,
        None => c is None,
    }
}

fn commit_of_exec(line: Option<&str>) -> (r: Option<CommitInfo>)
    ensures
        is_commit(r, commit_of(match line { Some(l) => Some(l@), None => None })),
{
    match line {
        Some(l) => parse_commit_line(l),
        None => None,
    }
}

impl PatchDiffModel {
    /// The staleness evidence from what `git` printed: the last commit lines for
    /// the documentation and for the verifier code (`None` when git gave
    /// nothing), and the count of code commits since the documentation last
    /// moved. The count is only read when the documentation's commit is known;
    /// missing or unreadable history degrades to zero and to `None`, never to a
    /// made-up claim.
    pub fn from_git(doc_line: Option<&str>, code_line: Option<&str>, count_out: Option<&str>) -> (m: Self)
        ensures
            is_commit(m.doc_last, commit_of(match doc_line { Some(l) => Some(l@), None => None })),
            is_commit(m.code_last, commit_of(match code_line { Some(l) => Some(l@), None => None })),
            m.code_commits_since_doc == (if m.doc_last is Some {
                match count_out {
                    Some(c) => match parse_u64(c@, 10) {
                        Some(n) => n,
                        None => 0,
                    },
                    None => 0,
                }
            } else {
                0
            }),
    {
        let doc_last = commit_of_exec(doc_line);
        let code_last = commit_of_exec(code_line);
        let mut n: u64 = 0;
        if doc_last.is_some() {
            match count_out {
                Some(c) => {
                    let v = chars_of(c);
                    match parse_u64_chars(&v, 10) {
                        Some(k) => {
                            n = k;
                        },
                        None => {},
                    }
                },
                None => {},
            }
        }
        PatchDiffModel { doc_last, code_last, code_commits_since_doc: n }
    }
}

} // verus!
