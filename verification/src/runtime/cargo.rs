//! Cargo: the command line for `cargo test`, and what its output says of each test.
use vstd::prelude::*;

use crate::errors::FztError;
use crate::runtime::engine::{strs_views, thread_count, Engine, TestItem};
use crate::runtime::{failed_views, plain_line, plain_text, FailedTest};
use crate::test_sets::str_views;
use crate::text::{
    append_chars, ends_with, ends_with_chars, find, find_chars, from_chars, index_of_from,
    parse_usize, parse_usize_spec, slice_chars, starts_with, starts_with_chars, take_until,
    take_until_chars, to_chars, trim, trim_chars, trim_start_matches, trim_start_matches_chars,
};

verus! {

/// The unit of a time that `cargo test` reports.
#[derive(Debug, Clone, Copy, PartialEq, Eq)]
pub enum TimeUnit {
    Seconds,
    Milliseconds,
    Microseconds,
}

/// A time that `cargo test` reported: a decimal number (digits and at most one `.`) and its unit.
#[derive(Debug)]
pub struct CargoTime {
    pub value: String,
    pub unit: TimeUnit,
}

/// The name of a failed test in a line `test <name> ... FAILED`: the trimmed text between the
/// first `test ` and the first ` ... FAILED`, when both occur.
pub open spec fn extracted_name(l: Seq<char>) -> Option<Seq<char>> {
    match (find(l, "test "@), find(l, " ... FAILED"@)) {
        (Some(a), Some(b)) => Some(trim(l.subrange(a + "test "@.len(), b))),
        _ => None,
    }
}

/// A line in which a `test ` that ends after the first ` ... FAILED` starts would make the
/// extraction slice backwards, which panics.
pub open spec fn extractable(l: Seq<char>) -> bool {
    match (find(l, "test "@), find(l, " ... FAILED"@)) {
        (Some(a), Some(b)) => a + "test "@.len() <= b,
        _ => true,
    }
}

/// The name of the failed test in `line`.
pub fn extract_test_name(line: &str) -> (r: Option<String>)
    requires
        extractable(line@),
    ensures
        match r {
            Some(n) => extracted_name(line@) == Some(n@),
            None => extracted_name(line@) is None,
        },
{
    let l = to_chars(line);
    let prefix = to_chars("test ");
    let suffix = to_chars(" ... FAILED");
    proof {
        crate::text::lemma_find(l@, prefix@);
        crate::text::lemma_find(l@, suffix@);
    }
    match find_chars(&l, &prefix) {
        Some(a) => match find_chars(&l, &suffix) {
            Some(b) => {
                let name = slice_chars(&l, a + prefix.len(), b);
                Some(from_chars(&trim_chars(&name)))
            },
            None => None,
        },
        None => None,
    }
}

/// Whether the name of a failed test can be extracted from `line` without panicking.
pub fn is_extractable(line: &str) -> (r: bool)
    ensures
        r == extractable(line@),
{
    let l = to_chars(line);
    let prefix = to_chars("test ");
    let suffix = to_chars(" ... FAILED");
    match find_chars(&l, &prefix) {
        Some(a) => match find_chars(&l, &suffix) {
            Some(b) => {
                proof {
                    crate::text::lemma_find(l@, prefix@);
                }
                a <= b && b - a >= prefix.len()
            },
            None => true,
        },
        None => true,
    }
}

/// Whether every character of `s` is an ASCII digit or `.`.
pub open spec fn digits_and_dots(s: Seq<char>) -> bool {
    forall|i: int| 0 <= i < s.len() ==> crate::text::is_digit(#[trigger] s[i]) || s[i] == '.'
}

/// Whether `str::parse::<f64>` accepts a string of digits and dots: at least one digit and at
/// most one `.`.
pub open spec fn decimal_number(s: Seq<char>) -> bool {
    digits_and_dots(s) && (exists|i: int| 0 <= i < s.len() && crate::text::is_digit(#[trigger] s[i]))
        && forall|i: int, j: int| 0 <= i < j < s.len() && s[i] == '.' ==> s[j] != '.'
}

/// The index of the first character of `s` at or after `i` that is neither a digit nor `.`.
pub open spec fn number_end_from(s: Seq<char>, i: int) -> Option<int>
    decreases s.len() - i,
{
    if i < 0 || i >= s.len() {
        None
    } else if !(crate::text::is_digit(s[i]) || s[i] == '.') {
        Some(i)
    } else {
        number_end_from(s, i + 1)
    }
}

/// The time in a line holding `finished in <number><unit>`: the number runs up to the first
/// character that is neither digit nor `.` (the number is empty when there is no such character),
/// the unit is the trimmed rest and must be `s`, `ms` or `µs`.
pub open spec fn cargo_time(l: Seq<char>) -> Option<(Seq<char>, TimeUnit)> {
    match find(l, "finished in "@) {
        None => None,
        Some(k) => {
            let t = l.subrange(k + "finished in "@.len(), l.len() as int);
            let end = match number_end_from(t, 0) {
                Some(e) => e,
                None => 0,
            };
            let value = t.subrange(0, end);
            let unit = trim(t.subrange(end, t.len() as int));
            if !decimal_number(value) {
                None
            } else if unit == "s"@ {
                Some((value, TimeUnit::Seconds))
            } else if unit == "ms"@ {
                Some((value, TimeUnit::Milliseconds))
            } else if unit == "µs"@ {
                Some((value, TimeUnit::Microseconds))
            } else {
                None
            }
        },
    }
}

fn is_decimal_number(s: &Vec<char>) -> (r: bool)
    requires
        digits_and_dots(s@),
    ensures
        r == decimal_number(s@),
{
    let mut digits = false;
    let mut dot: Option<usize> = None;
    let mut i: usize = 0;
    while i < s.len()
        invariant
            i <= s@.len(),
            digits_and_dots(s@),
            digits == (exists|j: int| 0 <= j < i && crate::text::is_digit(#[trigger] s@[j])),
            match dot {
                Some(d) => d < i && s@[d as int] == '.' && forall|j: int|
                    0 <= j < i && j != d ==> s@[j] != '.',
                None => forall|j: int| 0 <= j < i ==> s@[j] != '.',
            },
        decreases s@.len() - i,
    {
        if s[i] == '.' {
            if dot.is_some() {
                let d = dot.unwrap();
                assert(s@[d as int] == '.' && s@[i as int] == '.');
                return false;
            }
            dot = Some(i);
        } else {
            digits = true;
        }
        i = i + 1;
    }
    digits
}

/// The time that `line` reports, as `cargo_time` states it.
pub fn parse_cargo_time(line: &Vec<char>) -> (r: Option<CargoTime>)
    ensures
        match r {
            Some(t) => cargo_time(line@) == Some((t.value@, t.unit)),
            None => cargo_time(line@) is None,
        },
{
    let marker = to_chars("finished in ");
    let n = line.len();
    match find_chars(line, &marker) {
        None => None,
        Some(k) => {
            proof {
                crate::text::lemma_find(line@, marker@);
            }
            let t = slice_chars(line, k + marker.len(), line.len());
            let mut i: usize = 0;
            while i < t.len() && (('0' <= t[i] && t[i] <= '9') || t[i] == '.')
                invariant
                    i <= t@.len(),
                    number_end_from(t@, 0) == number_end_from(t@, i as int),
                decreases t@.len() - i,
            {
                i = i + 1;
            }
            let end: usize = if i < t.len() { i } else { 0 };
            let ghost e = match number_end_from(t@, 0) { Some(e) => e, None => 0 };
            assert(end == e);
            assert(digits_and_dots(t@.subrange(0, end as int))) by {
                assert forall|j: int| 0 <= j < end implies crate::text::is_digit(#[trigger] t@.subrange(0, end as int)[j]) || t@.subrange(0, end as int)[j] == '.' by {
                    lemma_number_end(t@, 0, j);
                }
            }
            let value = slice_chars(&t, 0, end);
            let unit = trim_chars(&slice_chars(&t, end, t.len()));
            if !is_decimal_number(&value) {
                return None;
            }
            let u = if chars_eq(&unit, &to_chars("s")) {
                TimeUnit::Seconds
            } else if chars_eq(&unit, &to_chars("ms")) {
                TimeUnit::Milliseconds
            } else if chars_eq(&unit, &to_chars("µs")) {
                TimeUnit::Microseconds
            } else {
                return None;
            };
            Some(CargoTime { value: from_chars(&value), unit: u })
        },
    }
}

/// Every character before the end of a number that starts at `i` is a digit or a dot.
proof fn lemma_number_end(t: Seq<char>, i: int, j: int)
    requires
        0 <= i <= j < t.len(),
        match number_end_from(t, i) {
            Some(e) => j < e,
            None => false,
        },
    ensures
        crate::text::is_digit(t[j]) || t[j] == '.',
    decreases j - i,
{
    if i < j {
        lemma_number_end(t, i + 1, j);
    }
}

/// Whether two character sequences are equal.
pub fn chars_eq(a: &Vec<char>, b: &Vec<char>) -> (r: bool)
    ensures
        r == (a@ == b@),
{
    if a.len() != b.len() {
        return false;
    }
    let mut i: usize = 0;
    while i < a.len()
        invariant
            a@.len() == b@.len(),
            i <= a@.len(),
            forall|j: int| 0 <= j < i ==> a@[j] == b@[j],
        decreases a@.len() - i,
    {
        if a[i] != b[i] {
            return false;
        }
        i = i + 1;
    }
    assert(a@ =~= b@);
    true
}

} // verus!

verus! {

/// The source file of a coverage line `|| <path>: <covered>/<total>` when `<covered>` is a
/// positive number. The `||` is removed from the untrimmed line, before trimming.
pub open spec fn coverage_path(plain: Seq<char>) -> Option<Seq<char>> {
    if starts_with(trim(plain), "|| "@) {
        let l = trim(trim_start_matches(plain, "||"@));
        match find(l, seq![':']) {
            None => None,
            Some(k) => {
                let numbers = trim(l.subrange(k + 1, l.len() as int));
                match parse_usize_spec(trim(take_until(numbers, '/'))) {
                    Some(v) => if v > 0 {
                        Some(trim(l.subrange(0, k)))
                    } else {
                        None
                    },
                    None => None,
                }
            },
        }
    } else {
        None
    }
}

/// What a `CargoFormatter` has gathered.
pub struct CargoView {
    pub failed_tests: Seq<(Seq<char>, Seq<char>)>,
    pub passed: nat,
    pub failed: nat,
    pub ignored: nat,
    pub measured: nat,
    pub currently_failed: bool,
    pub running: bool,
    pub times: Seq<(Seq<char>, TimeUnit)>,
    pub coverage: Seq<Seq<char>>,
    pub print_output: Seq<char>,
}

/// `line` with a newline, appended to what is printed at the end.
pub open spec fn printed(st: CargoView, line: Seq<char>) -> Seq<char> {
    st.print_output + line + seq!['\n']
}

/// One line of `cargo test` output (`line` as printed, `plain` without escape sequences) read
/// in state `st`.
pub open spec fn cargo_step(st: CargoView, line: Seq<char>, plain: Seq<char>) -> CargoView {
    if plain == "running 1 test"@ && !st.running {
        CargoView { running: true, ..st }
    } else {
        let st1 = match coverage_path(plain) {
            Some(p) => CargoView { coverage: st.coverage.push(p), ..st },
            None => st,
        };
        if ends_with(plain, "... ok"@) {
            CargoView { print_output: printed(st1, line), passed: st1.passed + 1, ..st1 }
        } else if ends_with(plain, "... ignored"@) {
            CargoView { print_output: printed(st1, line), ignored: st1.ignored + 1, ..st1 }
        } else if ends_with(plain, "... measured"@) {
            CargoView { print_output: printed(st1, line), measured: st1.measured + 1, ..st1 }
        } else if ends_with(plain, " ... FAILED"@) {
            let name = match extracted_name(plain) {
                Some(n) => n,
                None => trim(plain),
            };
            CargoView {
                print_output: printed(st1, line),
                failed: st1.failed + 1,
                failed_tests: st1.failed_tests.push((name, Seq::empty())),
                ..st1
            }
        } else if starts_with(plain, "failures:"@) {
            CargoView { currently_failed: !st1.currently_failed, ..st1 }
        } else if st1.currently_failed {
            if st1.failed_tests.len() > 0 {
                let last = st1.failed_tests.last();
                let msg = if last.1.len() == 0 { line } else { last.1 + seq!['\n'] + line };
                CargoView {
                    failed_tests: st1.failed_tests.update(
                        st1.failed_tests.len() - 1,
                        (last.0, msg),
                    ),
                    ..st1
                }
            } else {
                st1
            }
        } else {
            match cargo_time(plain) {
                Some(t) => CargoView { times: st1.times.push(t), ..st1 },
                None => st1,
            }
        }
    }
}

/// Follows the output of `cargo test` for one test: counts, failed tests with their messages,
/// covered files, reported times and the lines to print.
pub struct CargoFormatter {
    failed_tests: Vec<FailedTest>,
    passed: usize,
    failed: usize,
    ignored: usize,
    measured: usize,
    currently_failed: bool,
    running: bool,
    times: Vec<CargoTime>,
    coverage: Vec<String>,
    print_output: String,
}

pub open spec fn time_views(v: Seq<CargoTime>) -> Seq<(Seq<char>, TimeUnit)> {
    v.map_values(|t: CargoTime| (t.value@, t.unit))
}

impl View for CargoFormatter {
    type V = CargoView;

    closed spec fn view(&self) -> CargoView {
        CargoView {
            failed_tests: failed_views(self.failed_tests@),
            passed: self.passed as nat,
            failed: self.failed as nat,
            ignored: self.ignored as nat,
            measured: self.measured as nat,
            currently_failed: self.currently_failed,
            running: self.running,
            times: time_views(self.times@),
            coverage: str_views(self.coverage@),
            print_output: self.print_output@,
        }
    }
}

/// The line can be read without a counter overflowing or the test-name extraction of a failed
/// test's line panicking.
pub open spec fn cargo_line_ok(st: CargoView, line: Seq<char>) -> bool {
    &&& st.passed < usize::MAX
    &&& st.failed < usize::MAX
    &&& st.ignored < usize::MAX
    &&& st.measured < usize::MAX
    &&& plain_text(line) matches Some(p) ==> (ends_with(p, " ... FAILED"@) ==> extractable(p))
}

impl CargoFormatter {
    pub fn new() -> (r: CargoFormatter)
        ensures
            r@ == (CargoView {
                failed_tests: Seq::empty(),
                passed: 0,
                failed: 0,
                ignored: 0,
                measured: 0,
                currently_failed: false,
                running: false,
                times: Seq::empty(),
                coverage: Seq::empty(),
                print_output: Seq::empty(),
            }),
    {
        let r = CargoFormatter {
            failed_tests: Vec::new(),
            passed: 0,
            failed: 0,
            ignored: 0,
            measured: 0,
            currently_failed: false,
            running: false,
            times: Vec::new(),
            coverage: Vec::new(),
            print_output: String::new(),
        };
        assert(failed_views(r.failed_tests@) =~= Seq::empty());
        assert(time_views(r.times@) =~= Seq::empty());
        assert(str_views(r.coverage@) =~= Seq::empty());
        r
    }

    /// The counts of passed, failed, ignored and measured tests.
    pub fn counts(&self) -> (r: (usize, usize, usize, usize))
        ensures
            r.0 == self@.passed,
            r.1 == self@.failed,
            r.2 == self@.ignored,
            r.3 == self@.measured,
    {
        (self.passed, self.failed, self.ignored, self.measured)
    }

    /// Whether the next line can be read without a counter overflowing.
    pub fn counters_below_max(&self) -> (r: bool)
        ensures
            r == (self@.passed < usize::MAX && self@.failed < usize::MAX && self@.ignored
                < usize::MAX && self@.measured < usize::MAX),
    {
        self.passed < usize::MAX && self.failed < usize::MAX && self.ignored < usize::MAX
            && self.measured < usize::MAX
    }

    /// Reads one line of standard output when that is safe: `None`, with nothing read, when a
    /// counter is at its maximum or the line names a failed test in a way whose extraction would
    /// panic.
    pub fn try_line(&mut self, line: &str) -> (r: Option<Result<(), FztError>>)
        ensures
            match r {
                None => !cargo_line_ok(old(self)@, line@) && final(self)@ == old(self)@,
                Some(Ok(())) => cargo_line_ok(old(self)@, line@) && plain_text(line@) is Some && final(self)@
                    == cargo_step(old(self)@, line@, plain_text(line@)->0),
                Some(Err(e)) => cargo_line_ok(old(self)@, line@) && plain_text(line@) is None && e is StringFromUtf8
                    && final(self)@ == old(self)@,
            },
    {
        if !self.counters_below_max() {
            return None;
        }
        match plain_line(line) {
            Err(_) => Some(self.line(line)),
            Ok(p) => {
                let chars = to_chars(p.as_str());
                if !ends_with_chars(chars.as_slice(), to_chars(" ... FAILED").as_slice()) || is_extractable(p.as_str()) {
                    Some(self.line(line))
                } else {
                    None
                }
            },
        }
    }

    /// Reads one line of standard output.
    pub fn line(&mut self, line: &str) -> (r: Result<(), FztError>)
        requires
            cargo_line_ok(old(self)@, line@),
        ensures
            match r {
                Ok(()) => plain_text(line@) is Some && final(self)@ == cargo_step(
                    old(self)@,
                    line@,
                    plain_text(line@)->0,
                ),
                Err(e) => plain_text(line@) is None && e is StringFromUtf8 && final(self)@ == old(
                    self,
                )@,
            },
    {
        let plain_s = plain_line(line)?;
        let plain = to_chars(plain_s.as_str());
        let raw = to_chars(line);
        let ghost st = self@;
        if chars_eq(&plain, &to_chars("running 1 test")) && !self.running {
            self.running = true;
            return Ok(());
        }
        match coverage_of(&plain) {
            Some(p) => {
                let ghost before = self.coverage@;
                self.coverage.push(from_chars(&p));
                assert(str_views(self.coverage@) =~= str_views(before).push(p@));
            },
            None => {},
        }
        let ghost st1 = self@;
        if ends_with_chars(&plain, &to_chars("... ok")) {
            self.push_print(&raw);
            self.passed = self.passed + 1;
            return Ok(());
        }
        if ends_with_chars(&plain, &to_chars("... ignored")) {
            self.push_print(&raw);
            self.ignored = self.ignored + 1;
            return Ok(());
        }
        if ends_with_chars(&plain, &to_chars("... measured")) {
            self.push_print(&raw);
            self.measured = self.measured + 1;
            return Ok(());
        }
        if ends_with_chars(&plain, &to_chars(" ... FAILED")) {
            self.push_print(&raw);
            self.failed = self.failed + 1;
            let name = match extract_test_name(plain_s.as_str()) {
                Some(n) => n,
                None => from_chars(&trim_chars(&plain)),
            };
            let t = FailedTest { name, error_msg: String::new() };
            let ghost before = self.failed_tests@;
            self.failed_tests.push(t);
            assert(failed_views(self.failed_tests@) =~= failed_views(before).push(
                (t.name@, Seq::empty()),
            ));
            return Ok(());
        }
        if starts_with_chars(&plain, &to_chars("failures:")) {
            self.currently_failed = !self.currently_failed;
            return Ok(());
        }
        if self.currently_failed {
            let n = self.failed_tests.len();
            if n > 0 {
                let mut msg = to_chars(self.failed_tests[n - 1].error_msg.as_str());
                if msg.len() > 0 {
                    msg.push('\n');
                }
                append_chars(&mut msg, &raw);
                let ghost before = self.failed_tests@;
                let ghost last = failed_views(before).last();
                assert(msg@ =~= if last.1.len() == 0 { raw@ } else { last.1 + seq!['\n'] + raw@ });
                let name = self.failed_tests[n - 1].name.clone();
                let t = FailedTest { name, error_msg: from_chars(&msg) };
                self.failed_tests.set(n - 1, t);
                assert(failed_views(self.failed_tests@) =~= failed_views(before).update(
                    n - 1,
                    (before[n - 1].name@, msg@),
                ));
            }
            return Ok(());
        }
        match parse_cargo_time(&plain) {
            Some(t) => {
                let ghost before = self.times@;
                self.times.push(t);
                assert(time_views(self.times@) =~= time_views(before).push((t.value@, t.unit)));
            },
            None => {},
        }
        Ok(())
    }

    fn push_print(&mut self, raw: &Vec<char>)
        ensures
            final(self)@ == (CargoView { print_output: printed(old(self)@, raw@), ..old(self)@ }),
    {
        let mut out = to_chars(self.print_output.as_str());
        append_chars(&mut out, raw);
        out.push('\n');
        assert(out@ =~= printed(old(self)@, raw@));
        self.print_output = from_chars(&out);
        assert(self@.print_output =~= printed(old(self)@, raw@));
    }

    /// Standard error carries nothing to read.
    pub fn err_line(&mut self, line: &str) -> (r: Result<(), FztError>)
        ensures
            r is Ok,
            final(self)@ == old(self)@,
    {
        Ok(())
    }

    /// The files with covered lines.
    pub fn coverage(&self) -> (r: Vec<String>)
        ensures
            str_views(r@) == self@.coverage,
    {
        let mut r: Vec<String> = Vec::new();
        let mut i: usize = 0;
        while i < self.coverage.len()
            invariant
                i <= self.coverage@.len(),
                str_views(r@) == str_views(self.coverage@).subrange(0, i as int),
            decreases self.coverage@.len() - i,
        {
            let ghost before = r@;
            r.push(self.coverage[i].clone());
            assert(str_views(r@) =~= str_views(before).push(self.coverage@[i as int]@));
            assert(str_views(r@) =~= str_views(self.coverage@).subrange(0, i + 1));
            i = i + 1;
        }
        assert(str_views(self.coverage@).subrange(0, i as int) =~= str_views(self.coverage@));
        r
    }

    /// Forgets the covered files.
    pub fn reset_coverage(&mut self)
        ensures
            final(self)@ == (CargoView { coverage: Seq::empty(), ..old(self)@ }),
    {
        self.coverage = Vec::new();
        assert(str_views(self.coverage@) =~= Seq::empty());
    }

    /// The failed tests, in the order they failed.
    pub fn failed_tests(&self) -> (r: Vec<FailedTest>)
        ensures
            failed_views(r@) == self@.failed_tests,
    {
        let mut r: Vec<FailedTest> = Vec::new();
        let mut i: usize = 0;
        while i < self.failed_tests.len()
            invariant
                i <= self.failed_tests@.len(),
                failed_views(r@) == failed_views(self.failed_tests@).subrange(0, i as int),
            decreases self.failed_tests@.len() - i,
        {
            let ghost before = r@;
            r.push(self.failed_tests[i].copy());
            assert(failed_views(r@) =~= failed_views(before).push(self.failed_tests@[i as int]@));
            assert(failed_views(r@) =~= failed_views(self.failed_tests@).subrange(0, i + 1));
            i = i + 1;
        }
        assert(failed_views(self.failed_tests@).subrange(0, i as int) =~= failed_views(self.failed_tests@));
        r
    }

    /// The lines to print: the passed, ignored, measured and failed test lines.
    pub fn print_output(&self) -> (r: &String)
        ensures
            r@ == self@.print_output,
    {
        &self.print_output
    }

    /// The reported times, in order.
    pub fn times(&self) -> (r: &Vec<CargoTime>)
        ensures
            time_views(r@) == self@.times,
    {
        &self.times
    }

    /// Nothing is left to read after the run.
    pub fn update(&mut self) -> (r: Result<(), FztError>)
        ensures
            r is Ok,
            final(self)@ == old(self)@,
    {
        Ok(())
    }
}

/// The covered file named by a coverage line, as `coverage_path` states it.
fn coverage_of(plain: &Vec<char>) -> (r: Option<Vec<char>>)
    ensures
        match r {
            Some(p) => coverage_path(plain@) == Some(p@),
            None => coverage_path(plain@) is None,
        },
{
    let t = trim_chars(plain);
    if !starts_with_chars(&t, &to_chars("|| ")) {
        return None;
    }
    let l = trim_chars(&trim_start_matches_chars(plain, &to_chars("||")));
    let colon: [char; 1] = [':'];
    assert(colon@ =~= seq![':']);
    proof {
        crate::text::lemma_find(l@, seq![':']);
    }
    match find_chars(&l, &colon) {
        None => None,
        Some(k) => {
            let numbers = trim_chars(&slice_chars(&l, k + 1, l.len()));
            let covered = trim_chars(&take_until_chars(&numbers, '/'));
            match parse_usize(&covered) {
                Some(v) => if v > 0 {
                    Some(trim_chars(&slice_chars(&l, 0, k)))
                } else {
                    None
                },
                None => None,
            }
        },
    }
}

} // verus!

verus! {

impl CargoFormatter {
    /// Adds the counts, failed tests and times of `other` to this formatter's.
    pub fn add(&mut self, other: &CargoFormatter)
        requires
            old(self)@.passed + other@.passed <= usize::MAX,
            old(self)@.failed + other@.failed <= usize::MAX,
            old(self)@.ignored + other@.ignored <= usize::MAX,
            old(self)@.measured + other@.measured <= usize::MAX,
        ensures
            final(self)@ == (CargoView {
                failed_tests: old(self)@.failed_tests + other@.failed_tests,
                passed: old(self)@.passed + other@.passed,
                failed: old(self)@.failed + other@.failed,
                ignored: old(self)@.ignored + other@.ignored,
                measured: old(self)@.measured + other@.measured,
                times: old(self)@.times + other@.times,
                ..old(self)@
            }),
    {
        let mut i: usize = 0;
        while i < other.failed_tests.len()
            invariant
                i <= other.failed_tests@.len(),
                failed_views(self.failed_tests@) == failed_views(old(self).failed_tests@)
                    + failed_views(other.failed_tests@).subrange(0, i as int),
                self.passed == old(self).passed,
                self.failed == old(self).failed,
                self.ignored == old(self).ignored,
                self.measured == old(self).measured,
                self.times == old(self).times,
                self.coverage == old(self).coverage,
                self.print_output == old(self).print_output,
                self.running == old(self).running,
                self.currently_failed == old(self).currently_failed,
            decreases other.failed_tests@.len() - i,
        {
            let ghost before = self.failed_tests@;
            self.failed_tests.push(other.failed_tests[i].copy());
            assert(failed_views(self.failed_tests@) =~= failed_views(before).push(other.failed_tests@[i as int]@));
            assert(failed_views(other.failed_tests@).subrange(0, i + 1) =~= failed_views(other.failed_tests@).subrange(0, i as int).push(other.failed_tests@[i as int]@));
            i = i + 1;
        }
        assert(failed_views(other.failed_tests@).subrange(0, i as int) =~= failed_views(other.failed_tests@));
        let mut j: usize = 0;
        while j < other.times.len()
            invariant
                j <= other.times@.len(),
                time_views(self.times@) == time_views(old(self).times@) + time_views(other.times@).subrange(0, j as int),
                failed_views(self.failed_tests@) == failed_views(old(self).failed_tests@)
                    + failed_views(other.failed_tests@),
                self.passed == old(self).passed,
                self.failed == old(self).failed,
                self.ignored == old(self).ignored,
                self.measured == old(self).measured,
                self.coverage == old(self).coverage,
                self.print_output == old(self).print_output,
                self.running == old(self).running,
                self.currently_failed == old(self).currently_failed,
            decreases other.times@.len() - j,
        {
            let ghost before = self.times@;
            let t = CargoTime { value: other.times[j].value.clone(), unit: other.times[j].unit };
            self.times.push(t);
            assert(time_views(self.times@) =~= time_views(before).push(time_views(other.times@)[j as int]));
            assert(time_views(other.times@).subrange(0, j + 1) =~= time_views(other.times@).subrange(0, j as int).push(time_views(other.times@)[j as int]));
            j = j + 1;
        }
        assert(time_views(other.times@).subrange(0, j as int) =~= time_views(other.times@));
        self.passed = self.passed + other.passed;
        self.failed = self.failed + other.failed;
        self.ignored = self.ignored + other.ignored;
        self.measured = self.measured + other.measured;
    }
}

/// The view of a formatter that has read nothing.
pub open spec fn fresh_cargo_view() -> CargoView {
    CargoView {
        failed_tests: Seq::empty(),
        passed: 0,
        failed: 0,
        ignored: 0,
        measured: 0,
        currently_failed: false,
        running: false,
        times: Seq::empty(),
        coverage: Seq::empty(),
        print_output: Seq::empty(),
    }
}

/// Runs Rust tests with `cargo test`, or with `cargo tarpaulin` when measuring coverage.
pub struct CargoRuntime {}

/// The program and first arguments; `unbuffer` merges standard output and error.
pub open spec fn cargo_base(run_coverage: bool) -> Seq<Seq<char>> {
    if run_coverage {
        seq!["unbuffer"@, "cargo"@, "tarpaulin"@, "--skip-clean"@, "--"@]
    } else {
        seq!["unbuffer"@, "cargo"@, "test"@]
    }
}

impl CargoRuntime {
    pub fn name(&self) -> (r: String)
        ensures
            r@ == "cargo"@,
    {
        "cargo".to_owned()
    }

    /// The engine and one run per test. Coverage is measured one run at a time;
    /// `env_threads` is the value of `FZT_NUMBER_THREADS`, if set.
    pub fn plan(
        &self,
        tests: Vec<String>,
        runtime_args: &[String],
        run_coverage: bool,
        env_threads: Option<&str>,
    ) -> (r: (Engine, Vec<TestItem<CargoFormatter>>))
        ensures
            r.0@.base == cargo_base(run_coverage),
            r.0@.runtime == str_views(runtime_args@),
            r.0@.separator == Some("--"@),
            r.0@.threads == if run_coverage {
                1
            } else {
                thread_count(None, match env_threads { Some(v) => Some(v@), None => None })
            },
            r.0@.envs == Map::<Seq<char>, Seq<char>>::empty(),
            r.1@.len() == tests@.len(),
            forall|i: int|
                0 <= i < tests@.len() ==> {
                    &&& (#[trigger] r.1@[i]).test_name@ == tests@[i]@
                    &&& r.1@[i].formatter@ == fresh_cargo_view()
                    &&& r.1@[i].additional_base_args@.len() == 0
                    &&& r.1@[i].additional_runtime_args@.len() == 0
                },
    {
        let mut items: Vec<TestItem<CargoFormatter>> = Vec::new();
        let mut rest = tests;
        let ghost s = rest@;
        let mut i: usize = 0;
        let n = rest.len();
        while i < n
            invariant
                n == s.len(),
                i <= n,
                rest@ == s.subrange(i as int, n as int),
                items@.len() == i,
                forall|j: int|
                    0 <= j < i ==> {
                        &&& (#[trigger] items@[j]).test_name@ == s[j]@
                        &&& items@[j].formatter@ == fresh_cargo_view()
                        &&& items@[j].additional_base_args@.len() == 0
                        &&& items@[j].additional_runtime_args@.len() == 0
                    },
            decreases n - i,
        {
            let t = rest.remove(0);
            assert(rest@ =~= s.subrange(i + 1, n as int));
            items.push(TestItem {
                test_name: t,
                formatter: CargoFormatter::new(),
                additional_base_args: Vec::new(),
                additional_runtime_args: Vec::new(),
            });
            i = i + 1;
        }
        let mut engine = if run_coverage {
            let mut e = Engine::new(Some("--".to_owned()), Some(1), env_threads);
            let base: Vec<&str> = vec!["unbuffer", "cargo", "tarpaulin", "--skip-clean", "--"];
            e.base_args(base.as_slice());
            assert(Seq::<Seq<char>>::empty() + strs_views(base@) =~= cargo_base(true));
            e
        } else {
            let mut e = Engine::new(Some("--".to_owned()), None, env_threads);
            let base: Vec<&str> = vec!["unbuffer", "cargo", "test"];
            e.base_args(base.as_slice());
            assert(Seq::<Seq<char>>::empty() + strs_views(base@) =~= cargo_base(false));
            e
        };
        engine.runtime_args(runtime_args);
        assert(Seq::<Seq<char>>::empty() + str_views(runtime_args@) =~= str_views(runtime_args@));
        (engine, items)
    }
}


/// A test's result line counts in exactly one counter: a line ending in `... ok` counts one more
/// passed test, one ending in `... ignored` one more ignored test, one ending in `... measured`
/// one more measured test, and the other counters stay as they were.
pub proof fn law_result_lines_count_once(st: CargoView, line: Seq<char>, plain: Seq<char>)
    ensures
        ends_with(plain, "... ok"@) ==> {
            let next = cargo_step(st, line, plain);
            &&& next.passed == st.passed + 1
            &&& next.ignored == st.ignored
            &&& next.measured == st.measured
            &&& next.failed == st.failed
        },
        ends_with(plain, "... ignored"@) ==> {
            let next = cargo_step(st, line, plain);
            &&& next.passed == st.passed
            &&& next.ignored == st.ignored + 1
            &&& next.measured == st.measured
            &&& next.failed == st.failed
        },
        ends_with(plain, "... measured"@) ==> {
            let next = cargo_step(st, line, plain);
            &&& next.passed == st.passed
            &&& next.ignored == st.ignored
            &&& next.measured == st.measured + 1
            &&& next.failed == st.failed
        },
{
    reveal_strlit("... ok");
    reveal_strlit("... ignored");
    reveal_strlit("... measured");
    reveal_strlit("running 1 test");
    if plain == "running 1 test"@ {
        assert(!ends_with(plain, "... ok"@)) by {
            if ends_with(plain, "... ok"@) {
                assert(plain.subrange(plain.len() - 6, plain.len() as int)[5] == plain[plain.len() - 1]);
            }
        }
        assert(!ends_with(plain, "... ignored"@)) by {
            if ends_with(plain, "... ignored"@) {
                assert(plain.subrange(plain.len() - 11, plain.len() as int)[10] == plain[plain.len() - 1]);
            }
        }
        assert(!ends_with(plain, "... measured"@)) by {
            if ends_with(plain, "... measured"@) {
                assert(plain.subrange(plain.len() - 12, plain.len() as int)[11] == plain[plain.len() - 1]);
            }
        }
    }
    if ends_with(plain, "... ok"@) {
        assert(!ends_with(plain, "... ignored"@) && !ends_with(plain, "... measured"@)) by {
            let n = plain.len();
            assert(plain.subrange(n - 6, n as int)[5] == plain[n - 1]);
            if ends_with(plain, "... ignored"@) {
                assert(plain.subrange(n - 11, n as int)[10] == plain[n - 1]);
            }
            if ends_with(plain, "... measured"@) {
                assert(plain.subrange(n - 12, n as int)[11] == plain[n - 1]);
            }
        }
    }
    if ends_with(plain, "... ignored"@) {
        assert(!ends_with(plain, "... measured"@)) by {
            let n = plain.len();
            assert(plain.subrange(n - 11, n as int)[7] == plain[n - 4]);
            if ends_with(plain, "... measured"@) {
                assert(plain.subrange(n - 12, n as int)[8] == plain[n - 4]);
            }
        }
    }
}

} // verus!
