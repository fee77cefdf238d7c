//! The Rust side of anomaly scoring: statistics are owned by the Python
//! analyzer, which this side invokes over the file contract. Scores rank records
//! for human triage only; they never feed back into fuzzer input selection.
use vstd::prelude::*;
use crate::contract::ContractError;
use crate::text::{chars_of, push_str, push_string, string_from};

verus! {

/// The real analyzer: the Python package run as
/// `<program> <module_args...> --period-dir <dir>`.
#[derive(Debug, Clone)]
pub struct PythonAnalyzer {
    /// Python interpreter program (e.g. `python3`).
    pub program: String,
    /// Arguments before `--period-dir` (e.g. `["-m", "verifierloop_analysis"]`).
    pub module_args: Vec<String>,
    /// Optional path prepended to `PYTHONPATH`.
    pub pythonpath: Option<String>,
}

impl Default for PythonAnalyzer {
    fn default() -> (a: Self)
        ensures
            a.program@ == "python3"@,
            a.module_args@.len() == 2,
            a.module_args@[0]@ == "-m"@,
            a.module_args@[1]@ == "verifierloop_analysis"@,
            a.pythonpath is None,
    {
        let mut module_args: Vec<String> = Vec::new();
        module_args.push(string_from("-m"));
        module_args.push(string_from("verifierloop_analysis"));
        PythonAnalyzer { program: string_from("python3"), module_args, pythonpath: None }
    }
}

/// The `PYTHONPATH` value an analyzer run uses: `prefix` alone when nothing was
/// set before, otherwise `prefix:existing`.
pub open spec fn pythonpath_value(prefix: Seq<char>, existing: Seq<char>) -> Seq<char> {
    if existing.len() == 0 {
        prefix
    } else {
        prefix + ":"@ + existing
    }
}

impl PythonAnalyzer {
    /// The analyzer `python3 -m verifierloop_analysis`.
    pub fn new() -> (a: Self)
        ensures
            a.program@ == "python3"@,
            a.module_args@.len() == 2,
            a.module_args@[0]@ == "-m"@,
            a.module_args@[1]@ == "verifierloop_analysis"@,
            a.pythonpath is None,
    {
        PythonAnalyzer::default()
    }

    /// The same analyzer with `path` prepended to `PYTHONPATH` (to run against an
    /// in-repo package before it is installed).
    pub fn with_pythonpath(self, path: &str) -> (a: Self)
        ensures
            a.program == self.program,
            a.module_args == self.module_args,
            a.pythonpath matches Some(p) && p@ == path@,
    {
        PythonAnalyzer { pythonpath: Some(string_from(path)), ..self }
    }

    /// The `PYTHONPATH` to run with, given the one already in the environment;
    /// `None` when this analyzer prepends nothing (the environment is left alone).
    pub fn pythonpath_env(&self, existing: &str) -> (r: Option<String>)
        ensures
            match self.pythonpath {
                Some(p) => r matches Some(v) && v@ == pythonpath_value(p@, existing@),
                None => r is None,
            },
    {
        match &self.pythonpath {
            Some(p) => {
                let mut v = String::new();
                push_string(&mut v, p);
                if chars_of(existing).len() > 0 {
                    push_str(&mut v, ":");
                    push_str(&mut v, existing);
                    proof {
                        reveal_strlit(":");
                        assert(Seq::<char>::empty() + p@ + ":"@ + existing@ =~= p@ + ":"@
                            + existing@);
                    }
                } else {
                    proof {
                        assert(existing@.len() == 0);
                        assert(Seq::<char>::empty() + p@ =~= p@);
                    }
                }
                Some(v)
            },
            None => None,
        }
    }
}

/// Errors from an analyzer.
#[derive(Debug)]
pub enum AnalyzerError {
    /// Failed to spawn or wait on the analyzer process.
    Io(std::io::Error),
    /// The analyzer process exited non-zero (with its exit code, if any).
    NonZeroExit(Option<i32>),
    /// Contract read/write failure inside the analyzer.
    Contract(ContractError),
}

/// Errors from the score stage.
#[derive(Debug)]
pub enum ScoreError {
    /// The analyzer failed.
    Analyzer(AnalyzerError),
    /// Reading the anomaly-scores artifact failed.
    Contract(ContractError),
}

} // verus!
