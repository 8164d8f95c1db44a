use std::collections::HashSet;

use fzt::runtime::gradle::{GradleFormatter, GradleRuntime};
use fzt::runtime::FailedTest;

#[test]
fn collect_failed_tests() {
    let output = "
ParserTest > boo() FAILED
    org.opentest4j.AssertionFailedError: expected: <true> but was: <false>
        at app//org.junit.jupiter.api.AssertionFailureBuilder.build(AssertionFailureBuilder.java:151)
        at app//org.junit.jupiter.api.AssertionFailureBuilder.buildAndThrow(AssertionFailureBuilder.java:132)
        at app//org.junit.jupiter.api.AssertTrue.failNotTrue(AssertTrue.java:63)
        at app//org.junit.jupiter.api.AssertTrue.assertTrue(AssertTrue.java:36)
        at app//org.junit.jupiter.api.AssertTrue.assertTrue(AssertTrue.java:31)
        at app//org.junit.jupiter.api.Assertions.assertTrue(Assertions.java:183)
        at app//org.parser.ParserTest.boo(ParserTest.java:113)

ParserTest > foo() FAILED
    org.opentest4j.AssertionFailedError: expected: <true> but was: <false>
        at app//org.junit.jupiter.api.AssertionFailureBuilder.build(AssertionFailureBuilder.java:151)
        at app//org.junit.jupiter.api.AssertionFailureBuilder.buildAndThrow(AssertionFailureBuilder.java:132)
        at app//org.junit.jupiter.api.AssertTrue.failNotTrue(AssertTrue.java:63)
        at app//org.junit.jupiter.api.AssertTrue.assertTrue(AssertTrue.java:36)
        at app//org.junit.jupiter.api.AssertTrue.assertTrue(AssertTrue.java:31)
        at app//org.junit.jupiter.api.Assertions.assertTrue(Assertions.java:183)
        at app//org.parser.ParserTest.foo(ParserTest.java:79)

ParserTest > parseNew() STANDARD_ERROR
    Sep 06, 2025 9:27:07 AM org.parser.JavaTests$1 visitFile
    INFO: Tests updated: java/a/testOne.java : [org.parser.JavaTest@55d9b8f0]
    Sep 06, 2025 9:27:07 AM org.parser.JavaTests$1 visitFile
    INFO: Tests updated: java/a/testTwo.java : [org.parser.JavaTest@1b5c3e5f, org.parser.JavaTest@13741d5a]
    Sep 06, 2025 9:27:07 AM org.parser.JavaTests$1 visitFile
    INFO: Tests updated: java/b/testThree.java : [org.parser.JavaTest@48840594]

ParserTest > parseCache() FAILED
    java.lang.ArithmeticException: / by zero
        at org.parser.Parser.parse(Parser.java:20)
        at org.parser.SomeParserTest.parseCache(ParserTest.java:53)
        ";

    let mut formatter = GradleFormatter::new();
    let expected: HashSet<FailedTest> = HashSet::from([
        FailedTest {
            name: "org.parser.ParserTest.boo".to_string(),
            error_msg: String::from(""),
        },
        FailedTest {
            name: "org.parser.ParserTest.foo".to_string(),
            error_msg: String::from(""),
        },
    ]);

    for line in output.lines() {
        formatter.line(line).unwrap();
    }
    formatter.update().unwrap();
    let found: HashSet<FailedTest> = formatter.failed_tests().into_iter().collect();
    assert_eq!(found, expected);
}

#[test]
fn escape_sequences_are_removed_before_reading() {
    let mut formatter = GradleFormatter::new();
    formatter.line("\u{1b}[31mParserTest > bar() FAILED\u{1b}[0m").unwrap();
    formatter.line("        at app//org.parser.ParserTest.bar(ParserTest.java:1)").unwrap();
    formatter.line("").unwrap();
    formatter.update().unwrap();
    let found: Vec<FailedTest> = formatter.failed_tests();
    assert_eq!(found, vec![FailedTest::new("org.parser.ParserTest.bar", "")]);
}

#[test]
fn gradle_command_line_puts_runtime_args_before_the_task() {
    let runtime = GradleRuntime {};
    let tests = vec!["a.B.c".to_string(), "d.E.f".to_string()];
    let runtime_args = vec!["--info".to_string()];
    let (engine, flags) = runtime.plan(&tests, &runtime_args, None);
    assert_eq!(flags, vec!["--tests", "a.B.c", "--tests", "d.E.f"]);
    let argv = engine.command_args(&[], &flags, &[]);
    assert_eq!(argv, vec!["unbuffer", "./gradlew", "-i", "--info", "test", "--tests", "a.B.c", "--tests", "d.E.f"]);
    assert_eq!(runtime.name(), "gradle");
}
