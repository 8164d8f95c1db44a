//! Running tests and reading what the test runners print.
use vstd::prelude::*;
use vstd::string::StringSliceAdditionalSpecFns;

use crate::errors::FztError;
use crate::runtime::engine::{add_covering, CaptureOutput, EngineOutput, all_failed, coverage_of, merged_stdout};
use crate::test_sets::{distinct_keys, keyed_map, lemma_key_index, lemma_push_entry, lemma_update_entry, position_of, str_views};
use crate::external::{ansi_stripped, string_from_utf8, strip_ansi};

pub mod cargo;
pub mod engine;
pub mod gradle;
pub mod nextest;
pub mod pytest;
pub mod pytest_report;

verus! {

/// Debuggers for Python tests.
#[derive(Debug, Clone, Copy, PartialEq, Eq)]
pub enum PythonDebugger {
    Pdb,
    Ipdb,
    IPython,
    Pudb,
    WebPdb,
}

/// A debugger choice, or a request to let the user pick one.
/// Only Python tests have debuggers; there is no debugger for Rust or Java tests.
#[derive(Debug, Clone, Copy, PartialEq, Eq)]
pub enum Debugger {
    Python(PythonDebugger),
    Select,
}

/// A test that failed, with what the runner reported about it.
#[derive(Debug, Clone, PartialEq, Eq, Hash, PartialOrd)]
pub struct FailedTest {
    pub name: String,
    pub error_msg: String,
}

impl View for FailedTest {
    type V = (Seq<char>, Seq<char>);

    open spec fn view(&self) -> (Seq<char>, Seq<char>) {
        (self.name@, self.error_msg@)
    }
}

impl FailedTest {
    pub fn new(name: &str, error_msg: &str) -> (r: FailedTest)
        ensures
            r@ == (name@, error_msg@),
    {
        FailedTest { name: name.to_owned(), error_msg: error_msg.to_owned() }
    }

    /// A copy of this failed test.
    pub fn copy(&self) -> (r: FailedTest)
        ensures
            r@ == self@,
    {
        FailedTest { name: self.name.clone(), error_msg: self.error_msg.clone() }
    }
}

/// The views of a list of failed tests.
pub open spec fn failed_views(v: Seq<FailedTest>) -> Seq<(Seq<char>, Seq<char>)> {
    v.map_values(|t: FailedTest| t@)
}

/// Whether `v` holds a failed test equal to `t`.
pub fn contains_failed(v: &Vec<FailedTest>, t: &FailedTest) -> (r: bool)
    ensures
        r == failed_views(v@).contains(t@),
{
    let mut i: usize = 0;
    while i < v.len()
        invariant
            i <= v@.len(),
            forall|j: int| 0 <= j < i ==> v@[j]@ != t@,
        decreases v@.len() - i,
    {
        if v[i].name == t.name && v[i].error_msg == t.error_msg {
            assert(failed_views(v@)[i as int] == t@);
            return true;
        }
        i = i + 1;
    }
    assert(!failed_views(v@).contains(t@));
    false
}

/// Adds `t` to a list used as a set of failed tests.
pub fn insert_failed(v: &mut Vec<FailedTest>, t: FailedTest)
    requires
        failed_views(old(v)@).no_duplicates(),
    ensures
        failed_views(final(v)@).no_duplicates(),
        failed_views(final(v)@).to_set() == failed_views(old(v)@).to_set().insert(t@),
{
    if !contains_failed(v, &t) {
        let ghost before = v@;
        v.push(t);
        proof {
            assert(failed_views(v@) =~= failed_views(before).push(t@));
            failed_views(before).lemma_push_to_set_commute(t@);
        }
    } else {
        assert(failed_views(v@).to_set() =~= failed_views(v@).to_set().insert(t@));
    }
}

/// The characters of `line` with ANSI escape sequences removed, when what remains is valid UTF-8.
pub open spec fn plain_text(line: Seq<char>) -> Option<Seq<char>> {
    let bytes = ansi_stripped(vstd::utf8::encode_utf8(line));
    if vstd::utf8::valid_utf8(bytes) {
        Some(vstd::utf8::decode_utf8(bytes))
    } else {
        None
    }
}

/// `line` without ANSI escape sequences; an error when what remains is not valid UTF-8.
pub fn plain_line(line: &str) -> (r: Result<String, FztError>)
    ensures
        match r {
            Ok(s) => plain_text(line@) == Some(s@),
            Err(e) => plain_text(line@) is None && e is StringFromUtf8,
        },
{
    let bytes = strip_ansi(line);
    match string_from_utf8(bytes) {
        Ok(s) => Ok(s),
        Err(e) => Err(FztError::StringFromUtf8(e)),
    }
}

/// For each covered file, the tests that cover it, in order.
pub struct CoverageMap {
    entries: Vec<(String, Vec<String>)>,
}

impl CoverageMap {
    #[verifier::type_invariant]
    spec fn well_formed(self) -> bool {
        distinct_keys(self.entries@)
    }
}

/// The names of a list of strings, in order.
pub open spec fn name_seq(v: Vec<String>) -> Seq<Seq<char>> {
    str_views(v@)
}

impl View for CoverageMap {
    type V = Map<Seq<char>, Seq<Seq<char>>>;

    closed spec fn view(&self) -> Map<Seq<char>, Seq<Seq<char>>> {
        keyed_map(self.entries@, |v: Vec<String>| name_seq(v))
    }
}

impl CoverageMap {
    pub fn new() -> (r: CoverageMap)
        ensures
            r@ == Map::<Seq<char>, Seq<Seq<char>>>::empty(),
    {
        let r = CoverageMap { entries: Vec::new() };
        assert(r@ =~= Map::<Seq<char>, Seq<Seq<char>>>::empty());
        r
    }

    /// Records that `test` covers `path`.
    pub fn add(&mut self, path: &String, test: &String)
        ensures
            final(self)@ == add_covering(old(self)@, path@, test@),
    {
        proof {
            use_type_invariant(&*self);
        }
        let mut e: Vec<(String, Vec<String>)> = Vec::new();
        std::mem::swap(&mut e, &mut self.entries);
        let ghost e0 = e@;
        match position_of(&e, path) {
            Some(i) => {
                proof {
                    lemma_key_index(e0, i as int);
                }
                let (k, mut tests) = e.remove(i);
                let ghost old_tests = tests@;
                tests.push(test.clone());
                assert(name_seq(tests) =~= name_seq(e0[i as int].1).push(test@));
                e.insert(i, (k, tests));
                proof {
                    assert(e@ =~= e0.update(i as int, (k, tests)));
                    lemma_update_entry(e0, i as int, (k, tests), |v: Vec<String>| name_seq(v));
                }
            },
            None => {
                let mut tests: Vec<String> = Vec::new();
                tests.push(test.clone());
                assert(name_seq(tests) =~= seq![test@]);
                let key = path.clone();
                proof {
                    lemma_push_entry(e0, (key, tests), |v: Vec<String>| name_seq(v));
                }
                e.push((key, tests));
            },
        }
        self.entries = e;
    }

    /// The tests that cover `path`.
    pub fn get(&self, path: &String) -> (r: Option<&Vec<String>>)
        ensures
            match r {
                Some(v) => self@.dom().contains(path@) && self@[path@] == str_views(v@),
                None => !self@.dom().contains(path@),
            },
    {
        proof {
            use_type_invariant(self);
        }
        match position_of(&self.entries, path) {
            Some(i) => {
                proof {
                    lemma_key_index(self.entries@, i as int);
                }
                Some(&self.entries[i].1)
            },
            None => None,
        }
    }

    /// The covered files with their tests, in the order the files were first recorded.
    pub fn entries(&self) -> (r: &Vec<(String, Vec<String>)>)
        ensures
            distinct_keys(r@),
            self@ == keyed_map(r@, |v: Vec<String>| name_seq(v)),
    {
        proof {
            use_type_invariant(self);
        }
        &self.entries
    }
}

/// What a runtime reports after running tests: the failed tests, what the runs printed, and
/// the covered files.
pub struct RuntimeOutput {
    pub failed_tests: Vec<FailedTest>,
    pub output: Option<String>,
    pub coverage: CoverageMap,
}

impl RuntimeOutput {
    /// A report of nothing.
    pub fn new_empty() -> (r: RuntimeOutput)
        ensures
            r.failed_tests@.len() == 0,
            r.output is None,
            r.coverage@ == Map::<Seq<char>, Seq<Seq<char>>>::empty(),
    {
        RuntimeOutput { failed_tests: Vec::new(), output: None, coverage: CoverageMap::new() }
    }

    /// The report of a batch of runs.
    pub fn from_engine_output(engine_output: &EngineOutput) -> (r: RuntimeOutput)
        ensures
            failed_views(r.failed_tests@) == all_failed(engine_output.outputs()),
            r.output matches Some(s) && s@ == merged_stdout(engine_output.outputs()),
            r.coverage@ == coverage_of(engine_output.outputs()),
    {
        RuntimeOutput {
            failed_tests: engine_output.failed_tests(),
            output: Some(engine_output.merge_stdout()),
            coverage: engine_output.coverage(),
        }
    }

    /// The report of a batch of runs that may have been stopped: nothing when one was stopped,
    /// else what `from_engine_output` gives.
    pub fn from_runs(engine_output: &EngineOutput) -> (r: RuntimeOutput)
        ensures
            (exists|i: int| 0 <= i < engine_output.outputs().len() && #[trigger] engine_output.outputs()[i].output.stopped) ==> (
                r.failed_tests@.len() == 0 && r.output is None && r.coverage@ == Map::<Seq<char>, Seq<Seq<char>>>::empty()),
            !(exists|i: int| 0 <= i < engine_output.outputs().len() && #[trigger] engine_output.outputs()[i].output.stopped) ==> (
                failed_views(r.failed_tests@) == all_failed(engine_output.outputs())
                && (r.output matches Some(s) && s@ == merged_stdout(engine_output.outputs()))
                && r.coverage@ == coverage_of(engine_output.outputs())),
    {
        if engine_output.stopped() {
            RuntimeOutput::new_empty()
        } else {
            RuntimeOutput::from_engine_output(engine_output)
        }
    }

    /// The report of one command that ran the whole batch: nothing when it was stopped, else the
    /// failed tests its output showed and what it printed, with no coverage.
    pub fn from_batch(captured: CaptureOutput, failed_tests: Vec<FailedTest>) -> (r: RuntimeOutput)
        ensures
            captured.stopped ==> r.failed_tests@.len() == 0 && r.output is None
                && r.coverage@ == Map::<Seq<char>, Seq<Seq<char>>>::empty(),
            !captured.stopped ==> r.failed_tests@ == failed_tests@ && (r.output matches Some(s) && s@ == captured.stdout@)
                && r.coverage@ == Map::<Seq<char>, Seq<Seq<char>>>::empty(),
    {
        if captured.stopped {
            RuntimeOutput::new_empty()
        } else {
            RuntimeOutput { failed_tests, output: Some(captured.stdout), coverage: CoverageMap::new() }
        }
    }
}

} // verus!
