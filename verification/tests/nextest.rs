use fzt::runtime::nextest::{NextestFormatter, NextestLine, NextestRuntime, TestReport};
use fzt::runtime::FailedTest;

fn feed(formatter: &mut NextestFormatter, text: &str) {
    for line in text.lines() {
        if let NextestLine::Report(json) = formatter.line(line).unwrap() {
            let value: serde_json::Value = serde_json::from_str(json.as_str()).unwrap();
            let report = TestReport {
                event: value["event"].as_str().unwrap().to_string(),
                name: value["name"].as_str().unwrap().to_string(),
                stdout: value.get("stdout").and_then(|s| s.as_str()).map(|s| s.to_string()),
            };
            formatter.record_report(&report);
        }
    }
}

#[test]
fn test_nextest_formatter_error_line_parsing() {
    let test_line = r#"
 Nextest run ID a09c7739-fde2-489e-abb8-86cf0bee9aea with nextest profile: default
    Starting 23 tests across 2 binaries
        PASS [   1.513s] (23/23) FzT tests::java::java_test::tests::collect_tests
{"type":"test","name":"Foo::Boo$tests::example_test::test_case_1","event":"failed","stdout":"panicked at"}
        "#;
    let expected = vec![FailedTest::new("tests::example_test::test_case_1", "panicked at")];

    let mut formatter = NextestFormatter::new();
    feed(&mut formatter, test_line);

    let failed_tests = formatter.failed_tests();
    assert_eq!(failed_tests, expected);
}

#[test]
fn test_nextest_formatter_no_error_line_parsing() {
    let test_line = r#"
 Nextest run ID a09c7739-fde2-489e-abb8-86cf0bee9aea with nextest profile: default
    Starting 23 tests across 2 binaries
        PASS [   1.513s] (23/23) FzT tests::java::java_test::tests::collect_tests
{"type":"status"}
        "#;

    let mut formatter = NextestFormatter::new();
    feed(&mut formatter, test_line);
    let failed_tests = formatter.failed_tests();
    assert!(failed_tests.is_empty());
}

#[test]
fn lines_are_sorted_into_reports_prints_and_silent_events() {
    let formatter = NextestFormatter::new();
    assert!(matches!(formatter.line("plain output").unwrap(), NextestLine::Print));
    assert!(matches!(formatter.line("{\"type\":\"suite\"}").unwrap(), NextestLine::Silent));
    assert!(matches!(formatter.line("{\"type\":\"test\",\"event\":\"ok\"}").unwrap(), NextestLine::Report(_)));
    assert!(formatter.err_line("warning").unwrap());
    assert!(!formatter.err_line("{\"type\":\"x\"}").unwrap());
}

#[test]
fn failure_without_output_gets_a_placeholder_message() {
    let mut formatter = NextestFormatter::new();
    formatter.record_report(&TestReport {
        event: "failed".to_string(),
        name: "plain_name".to_string(),
        stdout: None,
    });
    formatter.record_report(&TestReport {
        event: "ok".to_string(),
        name: "b$other".to_string(),
        stdout: None,
    });
    assert_eq!(formatter.failed_tests(), vec![FailedTest::new("plain_name", "No output captured.")]);
}

#[test]
fn nextest_engine_sets_json_output() {
    let runtime = NextestRuntime {};
    assert!(runtime.plan(&[], true, None).is_none());
    let engine = runtime.plan(&["--nocapture".to_string()], false, Some("4")).unwrap();
    assert_eq!(engine.number_threads(), 4);
    assert_eq!(
        engine.command_envs().get("NEXTEST_EXPERIMENTAL_LIBTEST_JSON"),
        Some(&"1".to_string())
    );
    let argv = engine.command_args(&[], &["t1".to_string()], &[]);
    assert_eq!(
        argv,
        vec![
            "unbuffer", "cargo-nextest", "nextest", "run", "--message-format", "libtest-json",
            "--show-progress", "counter", "t1", "--", "--nocapture"
        ]
    );
    assert_eq!(runtime.name(), "nextest");
}
