use std::collections::HashSet;

use fzt::runtime::pytest_report::{
    CrashInfo, PytestFormatter, PytestTempFileFormatter, ReportLabels, Test, TestCall, TestPhase, TestReport,
    TestSummary,
};
use fzt::runtime::FailedTest;

fn phase() -> TestPhase {
    TestPhase { outcome: "passed".to_string() }
}

fn test(nodeid: &str, outcome: &str, call: Option<TestCall>) -> Test {
    Test {
        nodeid: nodeid.to_string(),
        lineno: 1,
        outcome: outcome.to_string(),
        keywords: vec![],
        setup: phase(),
        call,
        teardown: phase(),
    }
}

fn crash_call(message: &str, longrepr: Option<&str>) -> TestCall {
    TestCall {
        outcome: "failed".to_string(),
        crash: Some(CrashInfo { path: "tests/test_a.py".to_string(), lineno: 12, message: message.to_string() }),
        traceback: None,
        longrepr: longrepr.map(|s| s.to_string()),
    }
}

fn report(tests: Vec<Test>, failed: Option<usize>, passed: Option<usize>, skipped: Option<usize>) -> TestReport {
    TestReport {
        exitcode: 1,
        root: "/project".to_string(),
        summary: TestSummary { failed, passed, skipped, total: tests.len(), collected: tests.len() },
        collectors: vec![],
        tests,
    }
}

fn plain_labels() -> ReportLabels {
    ReportLabels { failed: "FAILED".to_string(), skipped: "SKIPPED".to_string(), passed: "PASSED".to_string() }
}

#[test]
fn parse_no_coverage() {
    let mut formatter = PytestTempFileFormatter::new("/tmp/cov.json".to_string(), "/tmp/report.json".to_string());
    let r = report(
        vec![
            test("tests/test_a.py::test_ok", "passed", None),
            test("tests/test_a.py::test_bad", "failed", Some(crash_call("assert 1 == 2", None))),
            test("tests/test_a.py::test_skip", "skipped", None),
        ],
        Some(1),
        Some(1),
        Some(1),
    );
    formatter.process_test_report_with(&r, &plain_labels());
    assert_eq!(formatter.counts(), (1, 1, 1));
    assert_eq!(formatter.failed_tests(), vec![FailedTest::new("tests/test_a.py::test_bad", "assert 1 == 2")]);
    assert!(formatter.coverage().is_empty());
    assert_eq!(
        formatter.output(),
        "tests/test_a.py::test_ok PASSED\n\
         tests/test_a.py::test_bad FAILED\n\
         tests/test_a.py::test_skip SKIPPED\n\
         \nFAILURES\n\
         \ntests/test_a.py::test_bad\n\
         \ntests/test_a.py:12: assert 1 == 2\n"
    );
}

#[test]
fn parse_with_coverage() {
    let mut formatter = PytestTempFileFormatter::new("/tmp/cov.json".to_string(), "/tmp/report.json".to_string());
    let r = report(vec![test("tests/test_b.py::test_one", "passed", None)], None, Some(1), None);
    formatter.process_test_report_with(&r, &plain_labels());
    formatter.process_coverage_report(&[
        ("app/a.py".to_string(), true),
        ("app/b.py".to_string(), false),
        ("app/c.py".to_string(), true),
    ]);
    let covered: HashSet<String> = formatter.coverage().into_iter().collect();
    assert_eq!(covered, HashSet::from(["app/a.py".to_string(), "app/c.py".to_string()]));
    assert_eq!(formatter.counts(), (1, 0, 0));
    assert!(formatter.failed_tests().is_empty());
    assert_eq!(formatter.output(), "tests/test_b.py::test_one PASSED\n");
    formatter.reset_coverage();
    assert!(formatter.coverage().is_empty());
}

#[test]
fn collect_failed_shiny_pytest() {
    let mut formatter = PytestFormatter::new("/tmp/report.json".to_string());
    let r = report(
        vec![
            test("tests/test_c.py::test_crash", "failed", Some(crash_call("boom", None))),
            test("tests/test_c.py::test_nocall", "failed", None),
            test("tests/test_c.py::test_fine", "passed", None),
        ],
        Some(2),
        Some(1),
        None,
    );
    formatter.update(&r);
    // The run prints its own output, so the formatter hands on no failed tests.
    assert!(formatter.failed_tests().is_empty());
    assert!(formatter.coverage().is_empty());
    assert!(!formatter.skipped());
    assert_eq!(formatter.path(), "/tmp/report.json");
}

#[test]
fn long_report_is_preferred_over_crash_location() {
    let mut formatter = PytestTempFileFormatter::new(String::new(), String::new());
    let r = report(
        vec![test("t.py::test_x", "failed", Some(crash_call("msg", Some("Traceback ...\nAssertionError"))))],
        Some(1),
        None,
        None,
    );
    formatter.process_test_report_with(&r, &plain_labels());
    assert_eq!(
        formatter.output(),
        "t.py::test_x FAILED\n\nFAILURES\n\nt.py::test_x\n\nTraceback ...\nAssertionError\n"
    );
}

#[test]
fn coloured_labels_wrap_the_plain_words() {
    let mut formatter = PytestTempFileFormatter::new(String::new(), String::new());
    let r = report(vec![test("t.py::test_y", "passed", None)], None, Some(1), None);
    formatter.process_test_report(&r);
    let out = formatter.output().clone();
    assert!(out == "t.py::test_y PASSED\n" || out == "t.py::test_y \u{1b}[1;32mPASSED\u{1b}[0m\n");
}

#[test]
fn adding_formatters_sums_counts_and_merges_failures() {
    let mut a = PytestTempFileFormatter::new(String::new(), String::new());
    let mut b = PytestTempFileFormatter::new(String::new(), String::new());
    a.process_test_report_with(
        &report(vec![test("a::x", "failed", Some(crash_call("e", None)))], Some(1), Some(2), None),
        &plain_labels(),
    );
    b.process_test_report_with(
        &report(vec![test("a::x", "failed", Some(crash_call("e", None))), test("b::y", "skipped", None)], Some(1), None, Some(1)),
        &plain_labels(),
    );
    a.add(&b);
    assert_eq!(a.counts(), (2, 2, 1));
    assert_eq!(a.failed_tests(), vec![FailedTest::new("a::x", "e")]);
}
