//! cargo-nextest: the command line, and the failed tests in its libtest-json output.
use vstd::prelude::*;

use crate::errors::FztError;
use crate::runtime::engine::{strs_views, thread_count, with_pairs, Engine};
use crate::test_sets::str_views;
use crate::runtime::{failed_views, insert_failed, plain_line, plain_text, FailedTest};
use crate::text::{find, find_chars, from_chars, slice_chars, starts_with, starts_with_chars, to_chars};

verus! {

/// An event of nextest's libtest-json output, as far as this library reads it.
#[derive(Debug)]
pub struct TestReport {
    pub event: String,
    pub name: String,
    pub stdout: Option<String>,
}

/// What to do with a line of nextest's output.
#[derive(Debug)]
pub enum NextestLine {
    /// A test event: the line, without escape sequences, holds a JSON `TestReport` to read and
    /// pass to `record_report`. Not printed.
    Report(String),
    /// A line to print as it came.
    Print,
    /// Another JSON event: neither read nor printed.
    Silent,
}

/// How a line without escape sequences is handled.
pub open spec fn nextest_line_kind(plain: Seq<char>) -> int {
    if starts_with(plain, "{\"type\":\"test\""@) {
        0
    } else if !starts_with(plain, "{\"type\""@) {
        1
    } else {
        2
    }
}

/// The test a nextest test name `<binary>$<test>` names: the part after the first `$`, or the
/// whole name when it holds none.
pub open spec fn nextest_test_name(name: Seq<char>) -> Seq<char> {
    match find(name, seq!['$']) {
        Some(k) => name.subrange(k + 1, name.len() as int),
        None => name,
    }
}

/// The failed test that a report stands for, if it reports a failure.
pub open spec fn reported_failure(event: Seq<char>, name: Seq<char>, stdout: Option<Seq<char>>) -> Option<(Seq<char>, Seq<char>)> {
    if event == "failed"@ {
        Some(
            (
                nextest_test_name(name),
                match stdout {
                    Some(o) => o,
                    None => "No output captured."@,
                },
            ),
        )
    } else {
        None
    }
}

/// Collects the failed tests that cargo-nextest reports.
pub struct NextestFormatter {
    failed_tests: Vec<FailedTest>,
}

impl NextestFormatter {
    #[verifier::type_invariant]
    spec fn well_formed(self) -> bool {
        failed_views(self.failed_tests@).no_duplicates()
    }

    /// The failed tests found so far.
    pub closed spec fn failed_set(&self) -> Set<(Seq<char>, Seq<char>)> {
        failed_views(self.failed_tests@).to_set()
    }

    pub fn new() -> (r: NextestFormatter)
        ensures
            r.failed_set() == Set::<(Seq<char>, Seq<char>)>::empty(),
    {
        let r = NextestFormatter { failed_tests: Vec::new() };
        assert(r.failed_set() =~= Set::<(Seq<char>, Seq<char>)>::empty());
        r
    }

    /// Sorts a line of standard output: a test event to read, a line to print, or neither.
    pub fn line(&self, line: &str) -> (r: Result<NextestLine, FztError>)
        ensures
            match r {
                Ok(NextestLine::Report(p)) => plain_text(line@) == Some(p@) && nextest_line_kind(p@) == 0,
                Ok(NextestLine::Print) => plain_text(line@) matches Some(p) && nextest_line_kind(p) == 1,
                Ok(NextestLine::Silent) => plain_text(line@) matches Some(p) && nextest_line_kind(p) == 2,
                Err(e) => plain_text(line@) is None && e is StringFromUtf8,
            },
    {
        let plain = plain_line(line)?;
        let chars = to_chars(plain.as_str());
        if starts_with_chars(&chars, &to_chars("{\"type\":\"test\"")) {
            Ok(NextestLine::Report(plain))
        } else if !starts_with_chars(&chars, &to_chars("{\"type\"")) {
            Ok(NextestLine::Print)
        } else {
            Ok(NextestLine::Silent)
        }
    }

    /// Sorts a line of standard error: printed unless it is a JSON event.
    pub fn err_line(&self, line: &str) -> (r: Result<bool, FztError>)
        ensures
            match r {
                Ok(print) => plain_text(line@) matches Some(p) && print == !starts_with(p, "{\"type\""@),
                Err(e) => plain_text(line@) is None && e is StringFromUtf8,
            },
    {
        let plain = plain_line(line)?;
        let chars = to_chars(plain.as_str());
        Ok(!starts_with_chars(&chars, &to_chars("{\"type\"")))
    }

    /// Reads a test event: a failure adds the failed test with its captured output.
    pub fn record_report(&mut self, report: &TestReport)
        ensures
            final(self).failed_set() == match reported_failure(
                report.event@,
                report.name@,
                match report.stdout {
                    Some(o) => Some(o@),
                    None => None,
                },
            ) {
                Some(f) => old(self).failed_set().insert(f),
                None => old(self).failed_set(),
            },
    {
        proof {
            use_type_invariant(&*self);
        }
        let event = to_chars(report.event.as_str());
        if !crate::runtime::cargo::chars_eq(&event, &to_chars("failed")) {
            return;
        }
        let name = to_chars(report.name.as_str());
        let n = name.len();
        let dollar: [char; 1] = ['$'];
        assert(dollar@ =~= seq!['$']);
        proof {
            crate::text::lemma_find(name@, seq!['$']);
        }
        let test_name = match find_chars(&name, &dollar) {
            Some(k) => slice_chars(&name, k + 1, name.len()),
            None => name,
        };
        let msg = match &report.stdout {
            Some(o) => o.clone(),
            None => "No output captured.".to_owned(),
        };
        let t = FailedTest { name: from_chars(&test_name), error_msg: msg };
        let mut failed: Vec<FailedTest> = Vec::new();
        std::mem::swap(&mut failed, &mut self.failed_tests);
        insert_failed(&mut failed, t);
        self.failed_tests = failed;
    }

    /// Merges the failed tests of `other` into this formatter's.
    pub fn add(&mut self, other: &NextestFormatter)
        ensures
            final(self).failed_set() == old(self).failed_set() + other.failed_set(),
    {
        proof {
            use_type_invariant(&*self);
        }
        let mut failed: Vec<FailedTest> = Vec::new();
        std::mem::swap(&mut failed, &mut self.failed_tests);
        let ghost start = failed_views(failed@).to_set();
        let mut i: usize = 0;
        while i < other.failed_tests.len()
            invariant
                i <= other.failed_tests@.len(),
                failed_views(failed@).no_duplicates(),
                failed_views(failed@).to_set() == start + failed_views(other.failed_tests@).subrange(0, i as int).to_set(),
            decreases other.failed_tests@.len() - i,
        {
            insert_failed(&mut failed, other.failed_tests[i].copy());
            proof {
                let s = failed_views(other.failed_tests@);
                assert(s.subrange(0, i + 1) =~= s.subrange(0, i as int).push(s[i as int]));
                s.subrange(0, i as int).lemma_push_to_set_commute(s[i as int]);
                assert(failed_views(failed@).to_set() =~= start + s.subrange(0, i + 1).to_set());
            }
            i = i + 1;
        }
        assert(failed_views(other.failed_tests@).subrange(0, i as int) =~= failed_views(other.failed_tests@));
        self.failed_tests = failed;
    }

    /// The failed tests found so far.
    pub fn failed_tests(&self) -> (r: Vec<FailedTest>)
        ensures
            failed_views(r@).to_set() == self.failed_set(),
            failed_views(r@).no_duplicates(),
    {
        proof {
            use_type_invariant(self);
        }
        let mut r: Vec<FailedTest> = Vec::new();
        let mut i: usize = 0;
        while i < self.failed_tests.len()
            invariant
                i <= self.failed_tests@.len(),
                failed_views(r@) == failed_views(self.failed_tests@).subrange(0, i as int),
            decreases self.failed_tests@.len() - i,
        {
            let ghost before = r@;
            r.push(self.failed_tests[i].copy());
            assert(failed_views(r@) =~= failed_views(before).push(self.failed_tests@[i as int]@));
            assert(failed_views(r@) =~= failed_views(self.failed_tests@).subrange(0, i + 1));
            i = i + 1;
        }
        assert(failed_views(r@) =~= failed_views(self.failed_tests@));
        r
    }

    /// nextest reports no coverage.
    pub fn coverage(&self) -> (r: Vec<String>)
        ensures
            r@.len() == 0,
    {
        Vec::new()
    }
}

/// Runs Rust tests with cargo-nextest, reading its libtest-json output.
pub struct NextestRuntime {}

/// The program and first arguments.
pub open spec fn nextest_base() -> Seq<Seq<char>> {
    seq![
        "unbuffer"@,
        "cargo-nextest"@,
        "nextest"@,
        "run"@,
        "--message-format"@,
        "libtest-json"@,
        "--show-progress"@,
        "counter"@,
    ]
}

impl NextestRuntime {
    pub fn name(&self) -> (r: String)
        ensures
            r@ == "nextest"@,
    {
        "nextest".to_owned()
    }

    /// The engine for one run of all tests; none when coverage is asked for, which nextest
    /// does not measure. `env_threads` is the value of `FZT_NUMBER_THREADS`, if set.
    pub fn plan(&self, runtime_args: &[String], run_coverage: bool, env_threads: Option<&str>) -> (r: Option<Engine>)
        ensures
            run_coverage ==> r is None,
            !run_coverage ==> (r matches Some(e) && {
                &&& e@.base == nextest_base()
                &&& e@.runtime == str_views(runtime_args@)
                &&& e@.separator == Some("--"@)
                &&& e@.threads == thread_count(None, match env_threads { Some(v) => Some(v@), None => None })
                &&& e@.envs == Map::<Seq<char>, Seq<char>>::empty().insert("NEXTEST_EXPERIMENTAL_LIBTEST_JSON"@, "1"@)
            }),
    {
        if run_coverage {
            return None;
        }
        let mut e = Engine::new(Some("--".to_owned()), None, env_threads);
        let pairs: Vec<(&str, &str)> = vec![("NEXTEST_EXPERIMENTAL_LIBTEST_JSON", "1")];
        e.envs(pairs.as_slice());
        proof {
            let ps = pairs@;
            assert(ps.drop_last() =~= Seq::<(&str, &str)>::empty());
            assert(with_pairs(Map::empty(), ps) == with_pairs(Map::empty(), ps.drop_last()).insert(ps.last().0@, ps.last().1@));
        }
        let base: Vec<&str> = vec![
            "unbuffer",
            "cargo-nextest",
            "nextest",
            "run",
            "--message-format",
            "libtest-json",
            "--show-progress",
            "counter",
        ];
        e.base_args(base.as_slice());
        assert(Seq::<Seq<char>>::empty() + strs_views(base@) =~= nextest_base());
        e.runtime_args(runtime_args);
        assert(Seq::<Seq<char>>::empty() + str_views(runtime_args@) =~= str_views(runtime_args@));
        Some(e)
    }
}


/// Only a `failed` event reports a failed test: every other event (a test started, passed or was
/// ignored) reports none; a failure is reported under the test's own name, with its captured
/// output or a note that there was none.
pub proof fn law_only_failed_events_report_failures(event: Seq<char>, name: Seq<char>, stdout: Option<Seq<char>>)
    ensures
        event != "failed"@ ==> reported_failure(event, name, stdout) is None,
        event == "failed"@ ==> (reported_failure(event, name, stdout) matches Some(f) && f.0 == nextest_test_name(name)
            && f.1 == match stdout {
                Some(o) => o,
                None => "No output captured."@,
            }),
{
}

/// A test name holding no `$` is taken whole, and one holding a `$` loses all up to the first `$`.
pub proof fn law_test_name_follows_the_binary(binary: Seq<char>, test: Seq<char>)
    requires
        !binary.contains('$'),
    ensures
        nextest_test_name(binary + seq!['$'] + test) == test,
        nextest_test_name(binary) == binary,
{
    let n = binary + seq!['$'] + test;
    crate::text::lemma_find(n, seq!['$']);
    crate::text::lemma_find(binary, seq!['$']);
    assert(crate::text::occurs_at(n, seq!['$'], binary.len() as int)) by {
        assert(n.subrange(binary.len() as int, binary.len() + 1int) =~= seq!['$']);
    }
    assert forall|j: int| 0 <= j < binary.len() implies !crate::text::occurs_at(n, seq!['$'], j) by {
        if crate::text::occurs_at(n, seq!['$'], j) {
            assert(n.subrange(j, j + 1)[0] == n[j]);
            assert(binary[j] == '$');
        }
    }
    assert forall|j: int| 0 <= j implies !crate::text::occurs_at(binary, seq!['$'], j) by {
        if crate::text::occurs_at(binary, seq!['$'], j) {
            assert(binary.subrange(j, j + 1)[0] == binary[j]);
        }
    }
    assert(n.subrange(binary.len() + 1int, n.len() as int) =~= test);
}

} // verus!
