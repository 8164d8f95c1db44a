//! Gradle: the command line for JUnit tests, and the failed tests in its output.
use vstd::prelude::*;

use crate::errors::FztError;
use crate::runtime::engine::{strs_views, thread_count, Engine};
use crate::runtime::{failed_views, insert_failed, plain_line, plain_text, FailedTest};
use crate::text::{
    ends_with, ends_with_chars, from_chars, split, split_two, starts_with, starts_with_chars, to_chars, trim,
    trim_chars, trim_start_matches, trim_start_matches_chars,
};
use crate::test_sets::str_views;

verus! {

/// The state while reading Gradle's output: inside the report of a failed test or not, the last
/// stack-trace line seen, and the failed tests found so far.
pub struct GradleScan {
    pub in_test: bool,
    pub last: Seq<char>,
    pub failed: Set<(Seq<char>, Seq<char>)>,
}

/// The test method named by a stack-trace line such as `at app//org.p.ParserTest.boo(ParserTest.java:113)`:
/// the text before its only `(`, without leading `at ` and `app//` and surrounding whitespace.
pub open spec fn gradle_method_name(last: Seq<char>) -> Option<Seq<char>> {
    let parts = split(last, seq!['(']);
    if parts.len() == 2 {
        Some(
            trim(
                trim_start_matches(
                    trim_start_matches(parts[0], seq!['a', 't', ' ']),
                    seq!['a', 'p', 'p', '/', '/'],
                ),
            ),
        )
    } else {
        None
    }
}

/// One line of Gradle's output read in state `st`: a line ending in `FAILED` opens a failed test's
/// report; an empty line closes it and records the method of the last stack-trace line when that
/// line names one; inside a report, a line starting with `at ` (after trimming) is remembered.
pub open spec fn gradle_step(st: GradleScan, line: Seq<char>) -> GradleScan {
    if ends_with(line, seq!['F', 'A', 'I', 'L', 'E', 'D']) {
        GradleScan { in_test: true, ..st }
    } else if line.len() == 0 && st.in_test && gradle_method_name(st.last) is Some {
        GradleScan {
            in_test: false,
            failed: st.failed.insert((gradle_method_name(st.last)->0, Seq::empty())),
            ..st
        }
    } else if st.in_test && starts_with(trim(line), seq!['a', 't', ' ']) {
        GradleScan { last: trim(line), ..st }
    } else {
        st
    }
}

/// The state after reading `lines` from a fresh start.
pub open spec fn gradle_scan(lines: Seq<Seq<char>>) -> GradleScan
    decreases lines.len(),
{
    if lines.len() == 0 {
        GradleScan { in_test: false, last: Seq::empty(), failed: Set::empty() }
    } else {
        gradle_step(gradle_scan(lines.drop_last()), lines.last())
    }
}

/// Collects the failed JUnit tests from Gradle's output.
pub struct GradleFormatter {
    failed_tests: Vec<FailedTest>,
    output_lines: Vec<String>,
}

impl GradleFormatter {
    #[verifier::type_invariant]
    spec fn well_formed(self) -> bool {
        failed_views(self.failed_tests@).no_duplicates()
    }

    /// The failed tests found so far.
    pub closed spec fn failed_set(&self) -> Set<(Seq<char>, Seq<char>)> {
        failed_views(self.failed_tests@).to_set()
    }

    /// The output lines recorded so far, without ANSI escape sequences.
    pub closed spec fn lines(&self) -> Seq<Seq<char>> {
        str_views(self.output_lines@)
    }

    pub fn new() -> (r: GradleFormatter)
        ensures
            r.failed_set() == Set::<(Seq<char>, Seq<char>)>::empty(),
            r.lines() == Seq::<Seq<char>>::empty(),
    {
        let r = GradleFormatter { failed_tests: Vec::new(), output_lines: Vec::new() };
        assert(r.failed_set() =~= Set::<(Seq<char>, Seq<char>)>::empty());
        assert(r.lines() =~= Seq::<Seq<char>>::empty());
        r
    }

    /// Records a line of standard output (printing it is the caller's part).
    pub fn line(&mut self, line: &str) -> (r: Result<(), FztError>)
        ensures
            final(self).failed_set() == old(self).failed_set(),
            match r {
                Ok(()) => plain_text(line@) is Some && final(self).lines() == old(self).lines().push(
                    plain_text(line@)->0,
                ),
                Err(e) => plain_text(line@) is None && e is StringFromUtf8 && final(self).lines()
                    == old(self).lines(),
            },
    {
        proof {
            use_type_invariant(&*self);
        }
        let plain = plain_line(line)?;
        let mut lines: Vec<String> = Vec::new();
        std::mem::swap(&mut lines, &mut self.output_lines);
        let ghost before = lines@;
        lines.push(plain);
        assert(str_views(lines@) =~= str_views(before).push(plain_text(line@)->0));
        self.output_lines = lines;
        Ok(())
    }

    /// Records a line of standard error, as a line of standard output.
    pub fn err_line(&mut self, line: &str) -> (r: Result<(), FztError>)
        ensures
            final(self).failed_set() == old(self).failed_set(),
            match r {
                Ok(()) => plain_text(line@) is Some && final(self).lines() == old(self).lines().push(
                    plain_text(line@)->0,
                ),
                Err(e) => plain_text(line@) is None && e is StringFromUtf8 && final(self).lines()
                    == old(self).lines(),
            },
    {
        self.line(line)
    }

    /// Gradle reports no coverage.
    pub fn coverage(&self) -> (r: Vec<String>)
        ensures
            r@.len() == 0,
    {
        Vec::new()
    }

    /// Gradle never skips the report.
    pub fn skipped(&self) -> (r: bool)
        ensures
            !r,
    {
        false
    }

    /// The failed tests found so far.
    pub fn failed_tests(&self) -> (r: Vec<FailedTest>)
        ensures
            failed_views(r@).to_set() == self.failed_set(),
            failed_views(r@).no_duplicates(),
    {
        proof {
            use_type_invariant(self);
        }
        let mut r: Vec<FailedTest> = Vec::new();
        let mut i: usize = 0;
        while i < self.failed_tests.len()
            invariant
                i <= self.failed_tests@.len(),
                failed_views(r@) == failed_views(self.failed_tests@).subrange(0, i as int),
            decreases self.failed_tests@.len() - i,
        {
            let t = self.failed_tests[i].copy();
            let ghost before = r@;
            r.push(t);
            assert(failed_views(r@) =~= failed_views(before).push(self.failed_tests@[i as int]@));
            assert(failed_views(r@) =~= failed_views(self.failed_tests@).subrange(0, i + 1));
            i = i + 1;
        }
        assert(failed_views(r@) =~= failed_views(self.failed_tests@));
        r
    }

    /// Reads the recorded output and adds the failed tests it reports.
    pub fn update(&mut self) -> (r: Result<(), FztError>)
        ensures
            r is Ok,
            final(self).lines() == old(self).lines(),
            final(self).failed_set() == old(self).failed_set() + gradle_scan(old(self).lines()).failed,
    {
        proof {
            use_type_invariant(&*self);
        }
        let mut failed: Vec<FailedTest> = Vec::new();
        std::mem::swap(&mut failed, &mut self.failed_tests);
        let ghost failed0 = failed_views(failed@).to_set();
        let ghost lines = str_views(self.output_lines@);
        let mut in_test = false;
        let mut last: Vec<char> = Vec::new();
        let mut i: usize = 0;
        while i < self.output_lines.len()
            invariant
                i <= self.output_lines@.len(),
                lines == str_views(self.output_lines@),
                failed_views(failed@).no_duplicates(),
                ({
                    let st = gradle_scan(lines.subrange(0, i as int));
                    st.in_test == in_test && st.last == last@ && failed_views(failed@).to_set()
                        == failed0 + st.failed
                }),
            decreases self.output_lines@.len() - i,
        {
            let line = to_chars(self.output_lines[i].as_str());
            let ghost st = gradle_scan(lines.subrange(0, i as int));
            assert(lines.subrange(0, i + 1).drop_last() =~= lines.subrange(0, i as int));
            assert(line@ == lines[i as int]);
            let failed_suffix: [char; 6] = ['F', 'A', 'I', 'L', 'E', 'D'];
            let at: [char; 3] = ['a', 't', ' '];
            assert(failed_suffix@ =~= seq!['F', 'A', 'I', 'L', 'E', 'D']);
            assert(at@ =~= seq!['a', 't', ' ']);
            if ends_with_chars(&line, &failed_suffix) {
                in_test = true;
            } else {
                let mut recorded = false;
                if line.len() == 0 && in_test {
                    match method_name(&last) {
                        Some(name) => {
                            let t = FailedTest { name: from_chars(&name), error_msg: String::new() };
                            let ghost f1 = failed_views(failed@).to_set();
                            insert_failed(&mut failed, t);
                            assert(failed_views(failed@).to_set() =~= failed0 + st.failed.insert(
                                (name@, Seq::empty()),
                            ));
                            in_test = false;
                            recorded = true;
                        },
                        None => {},
                    }
                }
                if !recorded && in_test {
                    let trimmed = trim_chars(&line);
                    if starts_with_chars(&trimmed, &at) {
                        last = trimmed;
                    }
                }
            }
            i = i + 1;
        }
        assert(lines.subrange(0, i as int) =~= lines);
        self.failed_tests = failed;
        Ok(())
    }
}

/// The test method named by a stack-trace line, as `gradle_method_name` states it.
fn method_name(last: &Vec<char>) -> (r: Option<Vec<char>>)
    ensures
        match r {
            Some(n) => gradle_method_name(last@) == Some(n@),
            None => gradle_method_name(last@) is None,
        },
{
    let open: [char; 1] = ['('];
    assert(open@ =~= seq!['(']);
    match split_two(last.as_slice(), &open) {
        Some((before, _after)) => {
            let at: [char; 3] = ['a', 't', ' '];
            let app: [char; 5] = ['a', 'p', 'p', '/', '/'];
            assert(at@ =~= seq!['a', 't', ' ']);
            assert(app@ =~= seq!['a', 'p', 'p', '/', '/']);
            let a = trim_start_matches_chars(&before, &at);
            let b = trim_start_matches_chars(&a, &app);
            Some(trim_chars(&b))
        },
        None => None,
    }
}

/// Runs JUnit tests with Gradle.
pub struct GradleRuntime {}

/// Each test after a `--tests` flag.
pub open spec fn gradle_test_flags(tests: Seq<Seq<char>>) -> Seq<Seq<char>>
    decreases tests.len(),
{
    if tests.len() == 0 {
        Seq::empty()
    } else {
        gradle_test_flags(tests.drop_last()) + seq!["--tests"@, tests.last()]
    }
}

impl GradleRuntime {
    pub fn name(&self) -> (r: String)
        ensures
            r@ == "gradle"@,
    {
        "gradle".to_owned()
    }

    /// The engine for one run of all tests, with the arguments that name the tests: the
    /// runtime arguments go to Gradle itself, before the `test` task.
    /// `env_threads` is the value of `FZT_NUMBER_THREADS`, if set.
    pub fn plan(&self, tests: &[String], runtime_args: &[String], env_threads: Option<&str>) -> (r: (Engine, Vec<String>))
        ensures
            r.0@.base == seq!["unbuffer"@, "./gradlew"@, "-i"@] + str_views(runtime_args@) + seq!["test"@],
            r.0@.runtime == Seq::<Seq<char>>::empty(),
            r.0@.separator is None,
            r.0@.threads == thread_count(None, match env_threads { Some(v) => Some(v@), None => None }),
            r.0@.envs == Map::<Seq<char>, Seq<char>>::empty(),
            str_views(r.1@) == gradle_test_flags(str_views(tests@)),
    {
        let mut e = Engine::new(None, None, env_threads);
        let base: Vec<&str> = vec!["unbuffer", "./gradlew", "-i"];
        e.base_args(base.as_slice());
        e.base_args_string(runtime_args);
        e.base_arg("test");
        assert(Seq::<Seq<char>>::empty() + strs_views(base@) + str_views(runtime_args@)
            =~= seq!["unbuffer"@, "./gradlew"@, "-i"@] + str_views(runtime_args@));
        let mut flags: Vec<String> = Vec::new();
        let mut i: usize = 0;
        while i < tests.len()
            invariant
                i <= tests@.len(),
                str_views(flags@) == gradle_test_flags(str_views(tests@.subrange(0, i as int))),
            decreases tests@.len() - i,
        {
            let ghost before = flags@;
            flags.push("--tests".to_owned());
            flags.push(tests[i].clone());
            assert(str_views(tests@.subrange(0, i + 1)).drop_last() =~= str_views(tests@.subrange(0, i as int)));
            assert(str_views(flags@) =~= str_views(before) + seq!["--tests"@, tests@[i as int]@]);
            i = i + 1;
        }
        assert(tests@.subrange(0, i as int) =~= tests@);
        (e, flags)
    }
}


/// Outside a failed test's block, a line that does not open one records no failed test and keeps
/// the scan outside.
pub proof fn law_lines_outside_a_block_record_nothing(st: GradleScan, line: Seq<char>)
    requires
        !st.in_test,
        !ends_with(line, seq!['F', 'A', 'I', 'L', 'E', 'D']),
    ensures
        gradle_step(st, line).failed == st.failed,
        !gradle_step(st, line).in_test,
{
}

/// The empty line that closes a failed test's block records the method of its last stack-trace
/// line, and leaves the block.
pub proof fn law_empty_line_closes_the_block(st: GradleScan)
    requires
        st.in_test,
        gradle_method_name(st.last) is Some,
    ensures
        !gradle_step(st, Seq::empty()).in_test,
        gradle_step(st, Seq::empty()).failed == st.failed.insert((gradle_method_name(st.last)->0, Seq::<char>::empty())),
{
    assert(!ends_with(Seq::<char>::empty(), seq!['F', 'A', 'I', 'L', 'E', 'D']));
}

/// Once a scan is outside a failed test's block, lines none of which ends with `FAILED` record no
/// further failed test, whatever stack traces they hold.
pub proof fn law_no_failed_marker_no_new_failure(lines: Seq<Seq<char>>, k: int)
    requires
        0 <= k <= lines.len(),
        !gradle_scan(lines.take(k)).in_test,
        forall|i: int| k <= i < lines.len() ==> !ends_with(#[trigger] lines[i], seq!['F', 'A', 'I', 'L', 'E', 'D']),
    ensures
        gradle_scan(lines).failed == gradle_scan(lines.take(k)).failed,
        !gradle_scan(lines).in_test,
    decreases lines.len() - k,
{
    if k < lines.len() {
        let t = lines.take(k + 1);
        assert(t.drop_last() =~= lines.take(k));
        assert(t.last() == lines[k]);
        law_lines_outside_a_block_record_nothing(gradle_scan(lines.take(k)), lines[k]);
        law_no_failed_marker_no_new_failure(lines, k + 1);
    } else {
        assert(lines.take(k) =~= lines);
    }
}

} // verus!
