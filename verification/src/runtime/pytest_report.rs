//! The JSON test report of pytest-json-report, and the formatters that read it.
use vstd::prelude::*;

use crate::external::{green_bold, painted, red_bold, yellow_bold};
use crate::runtime::{failed_views, insert_failed, FailedTest};
use crate::test_sets::{contains_name, str_views};
use crate::text::{append_str, decimal, usize_text};

verus! {

/// The counts of a report; pytest leaves out those that are zero.
pub struct TestSummary {
    pub failed: Option<usize>,
    pub passed: Option<usize>,
    pub skipped: Option<usize>,
    pub total: usize,
    pub collected: usize,
}

/// A collector of the report.
pub struct TestCollector {
    pub nodeid: String,
    pub outcome: String,
    pub result: Vec<CollectorResult>,
}

/// What a collector collected.
pub struct CollectorResult {
    pub nodeid: String,
    pub result_type: String,
    pub lineno: usize,
}

/// A phase of a test (setup or teardown); its duration is read where it is printed.
pub struct TestPhase {
    pub outcome: String,
}

/// The call phase of a test; its duration is read where it is printed.
pub struct TestCall {
    pub outcome: String,
    pub crash: Option<CrashInfo>,
    pub traceback: Option<Vec<TracebackEntry>>,
    pub longrepr: Option<String>,
}

/// Where and why a test crashed.
pub struct CrashInfo {
    pub path: String,
    pub lineno: usize,
    pub message: String,
}

/// One entry of a traceback.
pub struct TracebackEntry {
    pub path: String,
    pub lineno: usize,
    pub message: String,
}

/// One test of the report.
pub struct Test {
    pub nodeid: String,
    pub lineno: usize,
    pub outcome: String,
    pub keywords: Vec<String>,
    pub setup: TestPhase,
    pub call: Option<TestCall>,
    pub teardown: TestPhase,
}

/// A pytest JSON report, without its timings.
pub struct TestReport {
    pub exitcode: i32,
    pub root: String,
    pub summary: TestSummary,
    pub collectors: Vec<TestCollector>,
    pub tests: Vec<Test>,
}

/// The message of a test's crash, or nothing.
pub open spec fn crash_message(t: Test) -> Seq<char> {
    match t.call {
        Some(c) => match c.crash {
            Some(cr) => cr.message@,
            None => Seq::empty(),
        },
        None => Seq::empty(),
    }
}

/// The failed test that a test of the report stands for.
pub open spec fn failed_entry(t: Test) -> (Seq<char>, Seq<char>) {
    (t.nodeid@, crash_message(t))
}

/// The failed tests of a report.
pub open spec fn report_failures(tests: Seq<Test>) -> Set<(Seq<char>, Seq<char>)> {
    Set::new(
        |x: (Seq<char>, Seq<char>)|
            exists|i: int| 0 <= i < tests.len() && tests[i].outcome@ == "failed"@ && x == failed_entry(#[trigger] tests[i]),
    )
}

/// The ids of the tests of a report with the given outcome.
pub open spec fn ids_with_outcome(tests: Seq<Test>, outcome: Seq<char>) -> Set<Seq<char>> {
    Set::new(|x: Seq<char>| exists|i: int| 0 <= i < tests.len() && (#[trigger] tests[i]).outcome@ == outcome && x == tests[i].nodeid@)
}

/// The coloured labels of the outcomes.
pub struct ReportLabels {
    pub failed: String,
    pub skipped: String,
    pub passed: String,
}

/// The labels that `colored` gives: each the plain word, or the word in bold red, yellow or
/// green.
pub open spec fn labels_painted(l: ReportLabels) -> bool {
    &&& painted("FAILED"@, seq!['1', ';', '3', '1'], l.failed@)
    &&& painted("SKIPPED"@, seq!['1', ';', '3', '3'], l.skipped@)
    &&& painted("PASSED"@, seq!['1', ';', '3', '2'], l.passed@)
}

/// The line printed for a test: its id, and the label of its outcome.
pub open spec fn test_line(t: Test, l: ReportLabels) -> Seq<char> {
    t.nodeid@ + seq![' '] + (if t.outcome@ == "failed"@ {
        l.failed@
    } else if t.outcome@ == "skipped"@ {
        l.skipped@
    } else if t.outcome@ == "passed"@ {
        l.passed@
    } else {
        Seq::empty()
    }) + seq!['\n']
}

/// The lines of all tests.
pub open spec fn test_lines(tests: Seq<Test>, l: ReportLabels) -> Seq<char>
    decreases tests.len(),
{
    if tests.len() == 0 {
        Seq::empty()
    } else {
        test_lines(tests.drop_last(), l) + test_line(tests.last(), l)
    }
}

/// What is printed about a failed test: its id, then its long report, or else where and why it
/// crashed.
pub open spec fn failure_entry(t: Test) -> Seq<char> {
    seq!['\n'] + t.nodeid@ + seq!['\n'] + match t.call {
        Some(c) => match c.longrepr {
            Some(lr) => seq!['\n'] + lr@ + seq!['\n'],
            None => match c.crash {
                Some(cr) => seq!['\n'] + cr.path@ + seq![':'] + decimal(cr.lineno as nat) + seq![':', ' ']
                    + cr.message@ + seq!['\n'],
                None => Seq::empty(),
            },
        },
        None => Seq::empty(),
    }
}

/// The entries of the failed tests.
pub open spec fn failure_entries(tests: Seq<Test>) -> Seq<char>
    decreases tests.len(),
{
    if tests.len() == 0 {
        Seq::empty()
    } else {
        failure_entries(tests.drop_last()) + if tests.last().outcome@ == "failed"@ {
            failure_entry(tests.last())
        } else {
            Seq::empty()
        }
    }
}

/// Some test of the report failed.
pub open spec fn any_failed(tests: Seq<Test>) -> bool {
    exists|i: int| 0 <= i < tests.len() && (#[trigger] tests[i]).outcome@ == "failed"@
}

/// The failures section: a heading and the entries, when a test failed.
pub open spec fn failures_section(tests: Seq<Test>) -> Seq<char> {
    if any_failed(tests) {
        "\nFAILURES\n"@ + failure_entries(tests)
    } else {
        Seq::empty()
    }
}

/// The outcome words are different strings.
proof fn lemma_outcome_words_differ()
    ensures
        "failed"@ != "skipped"@,
        "failed"@ != "passed"@,
        "skipped"@ != "passed"@,
{
    reveal_strlit("failed");
    reveal_strlit("skipped");
    reveal_strlit("passed");
    assert("failed"@[0] != "skipped"@[0]);
    assert("failed"@[0] != "passed"@[0]);
    assert("skipped"@[0] != "passed"@[0]);
}

/// `v` with `n` added, used as a set.
pub fn insert_name(v: &mut Vec<String>, n: String)
    requires
        str_views(old(v)@).no_duplicates(),
    ensures
        str_views(final(v)@).no_duplicates(),
        str_views(final(v)@).to_set() == str_views(old(v)@).to_set().insert(n@),
{
    if !contains_name(v.as_slice(), &n) {
        let ghost before = v@;
        v.push(n);
        proof {
            assert(str_views(v@) =~= str_views(before).push(n@));
            str_views(before).lemma_push_to_set_commute(n@);
        }
    } else {
        assert(str_views(v@).to_set() =~= str_views(v@).to_set().insert(n@));
    }
}

/// What a [`PytestTempFileFormatter`] holds.
pub struct PytestFileView {
    pub failed_tests: Set<(Seq<char>, Seq<char>)>,
    pub skipped_tests: Set<Seq<char>>,
    pub passed_tests: Set<Seq<char>>,
    pub output: Seq<char>,
    pub cov_path: Seq<char>,
    pub report_path: Seq<char>,
    pub passed: nat,
    pub failed: nat,
    pub skipped: nat,
    pub coverage: Set<Seq<char>>,
}

/// Reads the JSON test report and coverage report that one pytest run wrote to files of its
/// own. The durations that the report holds are summed where they are printed.
pub struct PytestTempFileFormatter {
    failed_tests: Vec<FailedTest>,
    skipped_test: Vec<String>,
    passed_tests: Vec<String>,
    output: String,
    temp_cov_path: String,
    temp_report_log_path: String,
    passed: usize,
    failed: usize,
    skipped: usize,
    coverage: Vec<String>,
}

impl PytestTempFileFormatter {
    #[verifier::type_invariant]
    spec fn well_formed(self) -> bool {
        &&& failed_views(self.failed_tests@).no_duplicates()
        &&& str_views(self.skipped_test@).no_duplicates()
        &&& str_views(self.passed_tests@).no_duplicates()
        &&& str_views(self.coverage@).no_duplicates()
    }
}

impl View for PytestTempFileFormatter {
    type V = PytestFileView;

    closed spec fn view(&self) -> PytestFileView {
        PytestFileView {
            failed_tests: failed_views(self.failed_tests@).to_set(),
            skipped_tests: str_views(self.skipped_test@).to_set(),
            passed_tests: str_views(self.passed_tests@).to_set(),
            output: self.output@,
            cov_path: self.temp_cov_path@,
            report_path: self.temp_report_log_path@,
            passed: self.passed as nat,
            failed: self.failed as nat,
            skipped: self.skipped as nat,
            coverage: str_views(self.coverage@).to_set(),
        }
    }
}

/// The number a summary count adds: the count, or nothing when pytest left it out.
pub open spec fn count_of(c: Option<usize>) -> nat {
    match c {
        Some(n) => n as nat,
        None => 0,
    }
}

/// The formatter after reading a report with the given labels.
pub open spec fn after_report(v: PytestFileView, report: TestReport, l: ReportLabels) -> PytestFileView {
    PytestFileView {
        failed_tests: v.failed_tests + report_failures(report.tests@),
        skipped_tests: v.skipped_tests + ids_with_outcome(report.tests@, "skipped"@),
        passed_tests: v.passed_tests + ids_with_outcome(report.tests@, "passed"@),
        output: v.output + test_lines(report.tests@, l) + failures_section(report.tests@),
        passed: v.passed + count_of(report.summary.passed),
        failed: v.failed + count_of(report.summary.failed),
        skipped: v.skipped + count_of(report.summary.skipped),
        ..v
    }
}

/// The counts of the report can be added without overflow.
pub open spec fn counts_fit(v: PytestFileView, s: TestSummary) -> bool {
    &&& v.passed + count_of(s.passed) <= usize::MAX
    &&& v.failed + count_of(s.failed) <= usize::MAX
    &&& v.skipped + count_of(s.skipped) <= usize::MAX
}

/// Adds an optional count.
fn add_count(a: usize, b: Option<usize>) -> (r: usize)
    requires
        a + count_of(b) <= usize::MAX,
    ensures
        r == a + count_of(b),
{
    match b {
        Some(n) => a + n,
        None => a,
    }
}

/// The failed test a test of the report stands for.
fn failed_test_of(t: &Test) -> (r: FailedTest)
    ensures
        r@ == failed_entry(*t),
{
    let msg = match &t.call {
        Some(c) => match &c.crash {
            Some(cr) => cr.message.clone(),
            None => String::new(),
        },
        None => String::new(),
    };
    FailedTest { name: t.nodeid.clone(), error_msg: msg }
}

/// What is printed about a failed test.
fn failure_entry_text(t: &Test) -> (r: String)
    ensures
        r@ == failure_entry(*t),
{
    proof {
        reveal_strlit("\n");
        reveal_strlit(":");
        reveal_strlit(": ");
    }
    let mut out = String::new();
    append_str(&mut out, "\n");
    append_str(&mut out, t.nodeid.as_str());
    append_str(&mut out, "\n");
    match &t.call {
        Some(c) => match &c.longrepr {
            Some(lr) => {
                append_str(&mut out, "\n");
                append_str(&mut out, lr.as_str());
                append_str(&mut out, "\n");
            },
            None => match &c.crash {
                Some(cr) => {
                    append_str(&mut out, "\n");
                    append_str(&mut out, cr.path.as_str());
                    append_str(&mut out, ":");
                    let line = usize_text(cr.lineno);
                    append_str(&mut out, line.as_str());
                    append_str(&mut out, ": ");
                    append_str(&mut out, cr.message.as_str());
                    append_str(&mut out, "\n");
                },
                None => {},
            },
        },
        None => {},
    }
    assert(out@ =~= failure_entry(*t));
    out
}

impl PytestTempFileFormatter {
    /// A formatter for the files at `temp_cov_path` and `temp_report_log_path`.
    pub fn new(temp_cov_path: String, temp_report_log_path: String) -> (r: PytestTempFileFormatter)
        ensures
            r@ == (PytestFileView {
                failed_tests: Set::empty(),
                skipped_tests: Set::empty(),
                passed_tests: Set::empty(),
                output: Seq::empty(),
                cov_path: temp_cov_path@,
                report_path: temp_report_log_path@,
                passed: 0,
                failed: 0,
                skipped: 0,
                coverage: Set::empty(),
            }),
    {
        let r = PytestTempFileFormatter {
            failed_tests: Vec::new(),
            skipped_test: Vec::new(),
            passed_tests: Vec::new(),
            output: String::new(),
            temp_cov_path,
            temp_report_log_path,
            passed: 0,
            failed: 0,
            skipped: 0,
            coverage: Vec::new(),
        };
        assert(failed_views(r.failed_tests@).to_set() =~= Set::empty());
        assert(str_views(r.skipped_test@).to_set() =~= Set::empty());
        assert(str_views(r.passed_tests@).to_set() =~= Set::empty());
        assert(str_views(r.coverage@).to_set() =~= Set::empty());
        r
    }

    /// The path of the coverage report.
    pub fn cov_path(&self) -> (r: &String)
        ensures
            r@ == self@.cov_path,
    {
        &self.temp_cov_path
    }

    /// The path of the test report.
    pub fn report_path(&self) -> (r: &String)
        ensures
            r@ == self@.report_path,
    {
        &self.temp_report_log_path
    }

    /// Reads a test report, with the labels printed for the outcomes.
    pub fn process_test_report_with(&mut self, report: &TestReport, labels: &ReportLabels)
        requires
            counts_fit(old(self)@, report.summary),
        ensures
            final(self)@ == after_report(old(self)@, *report, *labels),
    {
        proof {
            use_type_invariant(&*self);
        }
        let ghost v0 = self@;
        let mut failed_tests: Vec<FailedTest> = Vec::new();
        let mut skipped_test: Vec<String> = Vec::new();
        let mut passed_tests: Vec<String> = Vec::new();
        let mut output = String::new();
        std::mem::swap(&mut failed_tests, &mut self.failed_tests);
        std::mem::swap(&mut skipped_test, &mut self.skipped_test);
        std::mem::swap(&mut passed_tests, &mut self.passed_tests);
        std::mem::swap(&mut output, &mut self.output);
        self.failed = add_count(self.failed, report.summary.failed);
        self.passed = add_count(self.passed, report.summary.passed);
        self.skipped = add_count(self.skipped, report.summary.skipped);
        let failed_word = "failed".to_owned();
        let skipped_word = "skipped".to_owned();
        let passed_word = "passed".to_owned();
        let tests = &report.tests;
        let mut i: usize = 0;
        let mut saw_failure = false;
        while i < tests.len()
            invariant
                i <= tests@.len(),
                failed_word@ == "failed"@,
                skipped_word@ == "skipped"@,
                passed_word@ == "passed"@,
                failed_views(failed_tests@).no_duplicates(),
                str_views(skipped_test@).no_duplicates(),
                str_views(passed_tests@).no_duplicates(),
                failed_views(failed_tests@).to_set() == v0.failed_tests + report_failures(tests@.subrange(0, i as int)),
                str_views(skipped_test@).to_set() == v0.skipped_tests + ids_with_outcome(tests@.subrange(0, i as int), "skipped"@),
                str_views(passed_tests@).to_set() == v0.passed_tests + ids_with_outcome(tests@.subrange(0, i as int), "passed"@),
                output@ == v0.output + test_lines(tests@.subrange(0, i as int), *labels),
                saw_failure == any_failed(tests@.subrange(0, i as int)),
            decreases tests@.len() - i,
        {
            let t = &tests[i];
            let ghost pre = tests@.subrange(0, i as int);
            let ghost post = tests@.subrange(0, i + 1);
            assert(post.drop_last() =~= pre);
            assert(post.last() == *t);
            append_str(&mut output, t.nodeid.as_str());
            append_str(&mut output, " ");
            if t.outcome == failed_word {
                insert_failed(&mut failed_tests, failed_test_of(t));
                append_str(&mut output, labels.failed.as_str());
                saw_failure = true;
            } else if t.outcome == skipped_word {
                insert_name(&mut skipped_test, t.nodeid.clone());
                append_str(&mut output, labels.skipped.as_str());
            } else if t.outcome == passed_word {
                insert_name(&mut passed_tests, t.nodeid.clone());
                append_str(&mut output, labels.passed.as_str());
            }
            append_str(&mut output, "\n");
            proof {
                reveal_strlit(" ");
                reveal_strlit("\n");
                reveal_strlit("failed");
                reveal_strlit("skipped");
                reveal_strlit("passed");
                assert(output@ =~= v0.output + test_lines(post, *labels));
                assert(report_failures(post) =~= report_failures(pre) + if t.outcome@ == "failed"@ {
                    set![failed_entry(*t)]
                } else {
                    Set::empty()
                }) by {
                    assert forall|x: (Seq<char>, Seq<char>)| report_failures(post).contains(x) implies (report_failures(pre) + if t.outcome@ == "failed"@ {
                        set![failed_entry(*t)]
                    } else {
                        Set::empty()
                    }).contains(x) by {
                        let k = choose|k: int| 0 <= k < post.len() && post[k].outcome@ == "failed"@ && x == failed_entry(#[trigger] post[k]);
                        if k < pre.len() {
                            assert(pre[k] == post[k]);
                        }
                    }
                    assert forall|x: (Seq<char>, Seq<char>)| report_failures(pre).contains(x) implies report_failures(post).contains(x) by {
                        let k = choose|k: int| 0 <= k < pre.len() && pre[k].outcome@ == "failed"@ && x == failed_entry(#[trigger] pre[k]);
                        assert(post[k] == pre[k]);
                    }
                    if t.outcome@ == "failed"@ {
                        assert(post[i as int] == *t);
                    }
                }
                assert forall|w: Seq<char>| #[trigger] ids_with_outcome(post, w) =~= ids_with_outcome(pre, w) + if t.outcome@ == w {
                    set![t.nodeid@]
                } else {
                    Set::empty()
                } by {
                    assert forall|x: Seq<char>| ids_with_outcome(post, w).contains(x) implies (ids_with_outcome(pre, w) + if t.outcome@ == w {
                        set![t.nodeid@]
                    } else {
                        Set::empty()
                    }).contains(x) by {
                        let k = choose|k: int| 0 <= k < post.len() && (#[trigger] post[k]).outcome@ == w && x == post[k].nodeid@;
                        if k < pre.len() {
                            assert(pre[k] == post[k]);
                        }
                    }
                    assert forall|x: Seq<char>| ids_with_outcome(pre, w).contains(x) implies ids_with_outcome(post, w).contains(x) by {
                        let k = choose|k: int| 0 <= k < pre.len() && (#[trigger] pre[k]).outcome@ == w && x == pre[k].nodeid@;
                        assert(post[k] == pre[k]);
                    }
                    if t.outcome@ == w {
                        assert(post[i as int] == *t);
                    }
                }
                assert(ids_with_outcome(post, "skipped"@) =~= ids_with_outcome(pre, "skipped"@) + if t.outcome@ == "skipped"@ {
                    set![t.nodeid@]
                } else {
                    Set::empty()
                });
                assert(ids_with_outcome(post, "passed"@) =~= ids_with_outcome(pre, "passed"@) + if t.outcome@ == "passed"@ {
                    set![t.nodeid@]
                } else {
                    Set::empty()
                });
                if any_failed(post) {
                    let k = choose|k: int| 0 <= k < post.len() && (#[trigger] post[k]).outcome@ == "failed"@;
                    if k < pre.len() {
                        assert(pre[k] == post[k]);
                    }
                }
                if any_failed(pre) {
                    let k = choose|k: int| 0 <= k < pre.len() && (#[trigger] pre[k]).outcome@ == "failed"@;
                    assert(post[k] == pre[k]);
                }
                if t.outcome@ == "failed"@ {
                    assert(post[i as int] == *t);
                }
                lemma_outcome_words_differ();
                assert(str_views(skipped_test@).to_set() =~= v0.skipped_tests + ids_with_outcome(post, "skipped"@));
                assert(str_views(passed_tests@).to_set() =~= v0.passed_tests + ids_with_outcome(post, "passed"@));
                assert(failed_views(failed_tests@).to_set() =~= v0.failed_tests + report_failures(post));
            }
            i = i + 1;
        }
        assert(tests@.subrange(0, i as int) =~= tests@);
        let ghost lines_out = output@;
        if saw_failure {
            append_str(&mut output, "\nFAILURES\n");
            let ghost start = output@;
            let mut j: usize = 0;
            while j < tests.len()
                invariant
                    j <= tests@.len(),
                    failed_word@ == "failed"@,
                    output@ == start + failure_entries(tests@.subrange(0, j as int)),
                decreases tests@.len() - j,
            {
                let t = &tests[j];
                assert(tests@.subrange(0, j + 1).drop_last() =~= tests@.subrange(0, j as int));
                if t.outcome == failed_word {
                    let e = failure_entry_text(t);
                    append_str(&mut output, e.as_str());
                }
                j = j + 1;
            }
            assert(tests@.subrange(0, j as int) =~= tests@);
            proof {
                reveal_strlit("\nFAILURES\n");
            }
            assert(output@ =~= lines_out + failures_section(tests@));
        } else {
            assert(output@ =~= lines_out + failures_section(tests@));
        }
        self.failed_tests = failed_tests;
        self.skipped_test = skipped_test;
        self.passed_tests = passed_tests;
        self.output = output;
        assert(self@.output =~= after_report(v0, *report, *labels).output);
    }

    /// Reads a test report; the outcome labels are coloured as `colored` decides for this
    /// process.
    pub fn process_test_report(&mut self, report: &TestReport)
        requires
            counts_fit(old(self)@, report.summary),
        ensures
            exists|l: ReportLabels| labels_painted(l) && final(self)@ == after_report(old(self)@, *report, l),
    {
        let labels = ReportLabels {
            failed: red_bold("FAILED"),
            skipped: yellow_bold("SKIPPED"),
            passed: green_bold("PASSED"),
        };
        proof {
            reveal_strlit("FAILED");
            reveal_strlit("SKIPPED");
            reveal_strlit("PASSED");
            assert(!crate::text::contains("FAILED"@, crate::external::ansi_reset())) by {
                crate::text::lemma_find("FAILED"@, crate::external::ansi_reset());
            }
            assert(!crate::text::contains("SKIPPED"@, crate::external::ansi_reset())) by {
                crate::text::lemma_find("SKIPPED"@, crate::external::ansi_reset());
            }
            assert(!crate::text::contains("PASSED"@, crate::external::ansi_reset())) by {
                crate::text::lemma_find("PASSED"@, crate::external::ansi_reset());
            }
        }
        assert(labels_painted(labels));
        self.process_test_report_with(report, &labels);
        assert(labels_painted(labels) && self@ == after_report(old(self)@, *report, labels));
    }

    /// Reads the coverage report: the files whose covered share is above zero. Each file comes
    /// with that comparison already made.
    pub fn process_coverage_report(&mut self, files: &[(String, bool)])
        ensures
            final(self)@ == (PytestFileView {
                coverage: Set::new(|p: Seq<char>| exists|i: int| 0 <= i < files@.len() && (#[trigger] files@[i]).1 && files@[i].0@ == p),
                ..old(self)@
            }),
    {
        proof {
            use_type_invariant(&*self);
        }
        let mut cov: Vec<String> = Vec::new();
        let mut i: usize = 0;
        while i < files.len()
            invariant
                i <= files@.len(),
                str_views(cov@).no_duplicates(),
                str_views(cov@).to_set() == Set::new(|p: Seq<char>| exists|k: int| 0 <= k < i && (#[trigger] files@[k]).1 && files@[k].0@ == p),
            decreases files@.len() - i,
        {
            let ghost before = str_views(cov@).to_set();
            if files[i].1 {
                insert_name(&mut cov, files[i].0.clone());
            }
            assert(str_views(cov@).to_set() =~= Set::new(|p: Seq<char>| exists|k: int| 0 <= k < i + 1 && (#[trigger] files@[k]).1 && files@[k].0@ == p)) by {
                assert forall|p: Seq<char>| (exists|k: int| 0 <= k < i + 1 && (#[trigger] files@[k]).1 && files@[k].0@ == p) implies str_views(cov@).to_set().contains(p) by {
                    let k = choose|k: int| 0 <= k < i + 1 && (#[trigger] files@[k]).1 && files@[k].0@ == p;
                    if k < i {
                        assert(before.contains(p));
                    }
                }
            }
            i = i + 1;
        }
        self.coverage = cov;
    }

    /// Adds the failed and skipped tests and the counts of another formatter.
    pub fn add(&mut self, other: &PytestTempFileFormatter)
        requires
            old(self)@.passed + other@.passed <= usize::MAX,
            old(self)@.failed + other@.failed <= usize::MAX,
            old(self)@.skipped + other@.skipped <= usize::MAX,
        ensures
            final(self)@ == (PytestFileView {
                failed_tests: old(self)@.failed_tests + other@.failed_tests,
                skipped_tests: old(self)@.skipped_tests + other@.skipped_tests,
                passed: old(self)@.passed + other@.passed,
                failed: old(self)@.failed + other@.failed,
                skipped: old(self)@.skipped + other@.skipped,
                ..old(self)@
            }),
    {
        proof {
            use_type_invariant(&*self);
            use_type_invariant(other);
        }
        let mut failed_tests: Vec<FailedTest> = Vec::new();
        let mut skipped_test: Vec<String> = Vec::new();
        std::mem::swap(&mut failed_tests, &mut self.failed_tests);
        std::mem::swap(&mut skipped_test, &mut self.skipped_test);
        let ghost f0 = failed_views(failed_tests@).to_set();
        let ghost s0 = str_views(skipped_test@).to_set();
        let mut i: usize = 0;
        while i < other.failed_tests.len()
            invariant
                i <= other.failed_tests@.len(),
                failed_views(failed_tests@).no_duplicates(),
                failed_views(failed_tests@).to_set() == f0 + failed_views(other.failed_tests@.subrange(0, i as int)).to_set(),
            decreases other.failed_tests@.len() - i,
        {
            insert_failed(&mut failed_tests, other.failed_tests[i].copy());
            assert(failed_views(other.failed_tests@.subrange(0, i + 1)) =~= failed_views(other.failed_tests@.subrange(0, i as int)).push(other.failed_tests@[i as int]@));
            proof {
                failed_views(other.failed_tests@.subrange(0, i as int)).lemma_push_to_set_commute(other.failed_tests@[i as int]@);
            }
            i = i + 1;
        }
        assert(other.failed_tests@.subrange(0, i as int) =~= other.failed_tests@);
        let mut j: usize = 0;
        while j < other.skipped_test.len()
            invariant
                j <= other.skipped_test@.len(),
                str_views(skipped_test@).no_duplicates(),
                str_views(skipped_test@).to_set() == s0 + str_views(other.skipped_test@.subrange(0, j as int)).to_set(),
            decreases other.skipped_test@.len() - j,
        {
            insert_name(&mut skipped_test, other.skipped_test[j].clone());
            assert(str_views(other.skipped_test@.subrange(0, j + 1)) =~= str_views(other.skipped_test@.subrange(0, j as int)).push(other.skipped_test@[j as int]@));
            proof {
                str_views(other.skipped_test@.subrange(0, j as int)).lemma_push_to_set_commute(other.skipped_test@[j as int]@);
            }
            j = j + 1;
        }
        assert(other.skipped_test@.subrange(0, j as int) =~= other.skipped_test@);
        self.failed_tests = failed_tests;
        self.skipped_test = skipped_test;
        self.passed = self.passed + other.passed;
        self.failed = self.failed + other.failed;
        self.skipped = self.skipped + other.skipped;
    }

    /// The covered files.
    pub fn coverage(&self) -> (r: Vec<String>)
        ensures
            str_views(r@).to_set() == self@.coverage,
            str_views(r@).no_duplicates(),
    {
        proof {
            use_type_invariant(self);
        }
        let r = crate::cache::manager::copy_strings(self.coverage.as_slice());
        r
    }

    /// Forgets the covered files.
    pub fn reset_coverage(&mut self)
        ensures
            final(self)@ == (PytestFileView { coverage: Set::empty(), ..old(self)@ }),
    {
        proof {
            use_type_invariant(&*self);
        }
        self.coverage = Vec::new();
        assert(str_views(self.coverage@).to_set() =~= Set::empty());
    }

    /// The failed tests.
    pub fn failed_tests(&self) -> (r: Vec<FailedTest>)
        ensures
            failed_views(r@).to_set() == self@.failed_tests,
            failed_views(r@).no_duplicates(),
    {
        proof {
            use_type_invariant(self);
        }
        let mut r: Vec<FailedTest> = Vec::new();
        let mut i: usize = 0;
        while i < self.failed_tests.len()
            invariant
                i <= self.failed_tests@.len(),
                failed_views(r@) == failed_views(self.failed_tests@.subrange(0, i as int)),
            decreases self.failed_tests@.len() - i,
        {
            let ghost before = r@;
            r.push(self.failed_tests[i].copy());
            assert(failed_views(r@) =~= failed_views(before).push(self.failed_tests@[i as int]@));
            assert(failed_views(self.failed_tests@.subrange(0, i + 1)) =~= failed_views(self.failed_tests@.subrange(0, i as int)).push(self.failed_tests@[i as int]@));
            i = i + 1;
        }
        assert(self.failed_tests@.subrange(0, i as int) =~= self.failed_tests@);
        r
    }

    /// What the reports printed so far.
    pub fn output(&self) -> (r: &String)
        ensures
            r@ == self@.output,
    {
        &self.output
    }

    /// The counts of passed, failed and skipped tests.
    pub fn counts(&self) -> (r: (usize, usize, usize))
        ensures
            r.0 == self@.passed,
            r.1 == self@.failed,
            r.2 == self@.skipped,
    {
        (self.passed, self.failed, self.skipped)
    }
}

/// Reads the JSON report of a pytest run that printed its own output.
pub struct PytestFormatter {
    failed_tests: Vec<FailedTest>,
    temp_report_log_path: String,
}

impl PytestFormatter {
    #[verifier::type_invariant]
    spec fn well_formed(self) -> bool {
        failed_views(self.failed_tests@).no_duplicates()
    }

    /// The failed tests read so far.
    pub closed spec fn failed_set(&self) -> Set<(Seq<char>, Seq<char>)> {
        failed_views(self.failed_tests@).to_set()
    }

    /// The path of the report.
    pub closed spec fn report_path(&self) -> Seq<char> {
        self.temp_report_log_path@
    }

    pub fn new(temp_report_log_path: String) -> (r: PytestFormatter)
        ensures
            r.failed_set() == Set::<(Seq<char>, Seq<char>)>::empty(),
            r.report_path() == temp_report_log_path@,
    {
        let r = PytestFormatter { failed_tests: Vec::new(), temp_report_log_path };
        assert(r.failed_set() =~= Set::<(Seq<char>, Seq<char>)>::empty());
        r
    }

    /// The path of the report.
    pub fn path(&self) -> (r: &String)
        ensures
            r@ == self.report_path(),
    {
        &self.temp_report_log_path
    }

    /// Reads a report: the failed tests with their crash messages.
    pub fn update(&mut self, report: &TestReport)
        ensures
            final(self).failed_set() == old(self).failed_set() + report_failures(report.tests@),
            final(self).report_path() == old(self).report_path(),
    {
        proof {
            use_type_invariant(&*self);
        }
        let mut failed_tests: Vec<FailedTest> = Vec::new();
        std::mem::swap(&mut failed_tests, &mut self.failed_tests);
        let ghost f0 = failed_views(failed_tests@).to_set();
        let failed_word = "failed".to_owned();
        let tests = &report.tests;
        let mut i: usize = 0;
        while i < tests.len()
            invariant
                i <= tests@.len(),
                failed_word@ == "failed"@,
                failed_views(failed_tests@).no_duplicates(),
                failed_views(failed_tests@).to_set() == f0 + report_failures(tests@.subrange(0, i as int)),
            decreases tests@.len() - i,
        {
            let t = &tests[i];
            let ghost pre = tests@.subrange(0, i as int);
            let ghost post = tests@.subrange(0, i + 1);
            if t.outcome == failed_word {
                insert_failed(&mut failed_tests, failed_test_of(t));
            }
            assert(report_failures(post) =~= report_failures(pre) + if t.outcome@ == "failed"@ {
                set![failed_entry(*t)]
            } else {
                Set::empty()
            }) by {
                assert forall|x: (Seq<char>, Seq<char>)| report_failures(post).contains(x) implies (report_failures(pre) + if t.outcome@ == "failed"@ {
                    set![failed_entry(*t)]
                } else {
                    Set::empty()
                }).contains(x) by {
                    let k = choose|k: int| 0 <= k < post.len() && post[k].outcome@ == "failed"@ && x == failed_entry(#[trigger] post[k]);
                    if k < pre.len() {
                        assert(pre[k] == post[k]);
                    }
                }
                assert forall|x: (Seq<char>, Seq<char>)| report_failures(pre).contains(x) implies report_failures(post).contains(x) by {
                    let k = choose|k: int| 0 <= k < pre.len() && pre[k].outcome@ == "failed"@ && x == failed_entry(#[trigger] pre[k]);
                    assert(post[k] == pre[k]);
                }
                if t.outcome@ == "failed"@ {
                    assert(post[i as int] == *t);
                }
            }
            i = i + 1;
        }
        assert(tests@.subrange(0, i as int) =~= tests@);
        self.failed_tests = failed_tests;
    }

    /// The failed tests this formatter hands on: none, the run having printed them itself.
    pub fn failed_tests(&self) -> (r: Vec<FailedTest>)
        ensures
            r@.len() == 0,
    {
        Vec::new()
    }

    /// The covered files: none.
    pub fn coverage(&self) -> (r: Vec<String>)
        ensures
            r@.len() == 0,
    {
        Vec::new()
    }

    /// Whether the run was skipped: never.
    pub fn skipped(&self) -> (r: bool)
        ensures
            !r,
    {
        false
    }
}

} // verus!
