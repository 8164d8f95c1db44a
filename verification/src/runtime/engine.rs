//! The command lines that run tests, and what the runs report together.
use vstd::prelude::*;

use crate::cli::settings::ConfigMap;
use crate::test_sets::str_views;
use crate::runtime::{failed_views, CoverageMap, FailedTest};
use crate::text::{append_str, parse_usize, parse_usize_spec, to_chars};

verus! {

/// How many runs go on at once when nothing else says so.
pub const NUMBER_THREADS: usize = 16;

/// The views of a list of string slices.
pub open spec fn strs_views(v: Seq<&str>) -> Seq<Seq<char>> {
    v.map_values(|s: &str| s@)
}

/// Builds the command lines of test runs: the program and its base arguments, the tests,
/// then (when there are any) the arguments for the test binary after a separator.
pub struct Engine {
    base_command_args: Vec<String>,
    runtime_command_args: Vec<String>,
    runtime_command_args_separator: Option<String>,
    number_threads: usize,
    command_envs: ConfigMap,
}

/// What an [`Engine`] holds.
pub struct EngineView {
    pub base: Seq<Seq<char>>,
    pub runtime: Seq<Seq<char>>,
    pub separator: Option<Seq<char>>,
    pub threads: nat,
    pub envs: Map<Seq<char>, Seq<char>>,
}

impl View for Engine {
    type V = EngineView;

    closed spec fn view(&self) -> EngineView {
        EngineView {
            base: str_views(self.base_command_args@),
            runtime: str_views(self.runtime_command_args@),
            separator: match self.runtime_command_args_separator {
                Some(s) => Some(s@),
                None => None,
            },
            threads: self.number_threads as nat,
            envs: self.command_envs@,
        }
    }
}

/// The number of parallel runs: the one asked for, else the one the environment names when it
/// is a decimal number, else the default.
pub open spec fn thread_count(asked: Option<usize>, env_value: Option<Seq<char>>) -> nat {
    match asked {
        Some(n) => n as nat,
        None => match env_value {
            Some(v) => match parse_usize_spec(v) {
                Some(n) => n,
                None => NUMBER_THREADS as nat,
            },
            None => NUMBER_THREADS as nat,
        },
    }
}

impl Engine {
    /// An engine with no arguments; `env_value` is the value of `FZT_NUMBER_THREADS`, if set.
    pub fn new(
        runtime_command_args_separator: Option<String>,
        number_threads: Option<usize>,
        env_value: Option<&str>,
    ) -> (r: Engine)
        ensures
            r@.base == Seq::<Seq<char>>::empty(),
            r@.runtime == Seq::<Seq<char>>::empty(),
            r@.separator == (match runtime_command_args_separator {
                Some(s) => Some(s@),
                None => None::<Seq<char>>,
            }),
            r@.threads == thread_count(number_threads, match env_value {
                Some(v) => Some(v@),
                None => None,
            }),
            r@.envs == Map::<Seq<char>, Seq<char>>::empty(),
    {
        let threads: usize = match number_threads {
            Some(n) => n,
            None => match env_value {
                Some(v) => {
                    let chars = to_chars(v);
                    match parse_usize(chars.as_slice()) {
                        Some(n) => n,
                        None => NUMBER_THREADS,
                    }
                },
                None => NUMBER_THREADS,
            },
        };
        let r = Engine {
            base_command_args: Vec::new(),
            runtime_command_args: Vec::new(),
            runtime_command_args_separator,
            number_threads: threads,
            command_envs: ConfigMap::new(),
        };
        assert(str_views(r.base_command_args@) =~= Seq::<Seq<char>>::empty());
        assert(str_views(r.runtime_command_args@) =~= Seq::<Seq<char>>::empty());
        r
    }

    /// Appends arguments after the program.
    pub fn base_args(&mut self, args: &[&str]) -> (r: &mut Self)
        ensures
            r@.base == old(self)@.base + strs_views(args@),
            r@.runtime == old(self)@.runtime,
            r@.separator == old(self)@.separator,
            r@.threads == old(self)@.threads,
            r@.envs == old(self)@.envs,
            *final(self) == *final(r),
    {
        let mut i: usize = 0;
        while i < args.len()
            invariant
                i <= args@.len(),
                self@.base == old(self)@.base + strs_views(args@.subrange(0, i as int)),
                self@.runtime == old(self)@.runtime,
                self@.separator == old(self)@.separator,
                self@.threads == old(self)@.threads,
                self@.envs == old(self)@.envs,
            decreases args@.len() - i,
        {
            let a: &str = args[i];
            let ghost before = self.base_command_args@;
            self.base_command_args.push(a.to_owned());
            assert(str_views(self.base_command_args@) =~= str_views(before).push(a@));
            assert(strs_views(args@.subrange(0, i + 1)) =~= strs_views(args@.subrange(0, i as int)).push(a@));
            i = i + 1;
        }
        assert(args@.subrange(0, i as int) =~= args@);
        self
    }

    /// Appends one argument after the program.
    pub fn base_arg(&mut self, arg: &str) -> (r: &mut Self)
        ensures
            r@.base == old(self)@.base.push(arg@),
            r@.runtime == old(self)@.runtime,
            r@.separator == old(self)@.separator,
            r@.threads == old(self)@.threads,
            r@.envs == old(self)@.envs,
            *final(self) == *final(r),
    {
        let ghost before = self.base_command_args@;
        self.base_command_args.push(arg.to_owned());
        assert(str_views(self.base_command_args@) =~= str_views(before).push(arg@));
        self
    }

    /// Appends owned arguments after the program.
    pub fn base_args_string(&mut self, args: &[String]) -> (r: &mut Self)
        ensures
            r@.base == old(self)@.base + str_views(args@),
            r@.runtime == old(self)@.runtime,
            r@.separator == old(self)@.separator,
            r@.threads == old(self)@.threads,
            r@.envs == old(self)@.envs,
            *final(self) == *final(r),
    {
        extend_strings(&mut self.base_command_args, args);
        self
    }

    /// Appends arguments for the test binary, which come after the separator.
    pub fn runtime_args(&mut self, args: &[String]) -> (r: &mut Self)
        ensures
            r@.runtime == old(self)@.runtime + str_views(args@),
            r@.base == old(self)@.base,
            r@.separator == old(self)@.separator,
            r@.threads == old(self)@.threads,
            r@.envs == old(self)@.envs,
            *final(self) == *final(r),
    {
        extend_strings(&mut self.runtime_command_args, args);
        self
    }

    /// Sets environment variables of the runs; a later pair replaces an earlier one of the
    /// same name.
    pub fn envs(&mut self, pairs: &[(&str, &str)]) -> (r: &mut Self)
        ensures
            r@.envs == with_pairs(old(self)@.envs, pairs@),
            r@.base == old(self)@.base,
            r@.runtime == old(self)@.runtime,
            r@.separator == old(self)@.separator,
            r@.threads == old(self)@.threads,
            *final(self) == *final(r),
    {
        let mut i: usize = 0;
        while i < pairs.len()
            invariant
                i <= pairs@.len(),
                self@.envs == with_pairs(old(self)@.envs, pairs@.subrange(0, i as int)),
                self@.base == old(self)@.base,
                self@.runtime == old(self)@.runtime,
                self@.separator == old(self)@.separator,
                self@.threads == old(self)@.threads,
            decreases pairs@.len() - i,
        {
            let (k, v) = pairs[i];
            self.command_envs.insert(k.to_owned(), v.to_owned());
            assert(pairs@.subrange(0, i + 1).drop_last() =~= pairs@.subrange(0, i as int));
            i = i + 1;
        }
        assert(pairs@.subrange(0, i as int) =~= pairs@);
        self
    }

    /// The number of runs that go on at once.
    pub fn number_threads(&self) -> (r: usize)
        ensures
            r == self@.threads,
    {
        self.number_threads
    }

    /// The environment variables of the runs.
    pub fn command_envs(&self) -> (r: &ConfigMap)
        ensures
            r@ == self@.envs,
    {
        &self.command_envs
    }

    /// The command line of one run: the program and its arguments. A command needs a program,
    /// so the base arguments must not be empty.
    pub fn command_args(
        &self,
        additional_base_args: &[String],
        tests: &[String],
        additional_runtime_args: &[String],
    ) -> (r: Vec<String>)
        requires
            self@.base.len() > 0,
        ensures
            str_views(r@) == command_line(
                self@,
                str_views(additional_base_args@),
                str_views(tests@),
                str_views(additional_runtime_args@),
            ),
    {
        let mut r: Vec<String> = Vec::new();
        assert(str_views(r@) =~= Seq::<Seq<char>>::empty());
        extend_strings(&mut r, self.base_command_args.as_slice());
        extend_strings(&mut r, additional_base_args);
        extend_strings(&mut r, tests);
        if self.runtime_command_args.len() > 0 {
            let ghost before = r@;
            match &self.runtime_command_args_separator {
                Some(s) => {
                    r.push(s.clone());
                    assert(str_views(r@) =~= str_views(before).push(s@));
                },
                None => {},
            }
            extend_strings(&mut r, self.runtime_command_args.as_slice());
            extend_strings(&mut r, additional_runtime_args);
        }
        assert(str_views(r@) =~= command_line(
            self@,
            str_views(additional_base_args@),
            str_views(tests@),
            str_views(additional_runtime_args@),
        ));
        r
    }
}

/// `m` with each pair set in turn.
pub open spec fn with_pairs(m: Map<Seq<char>, Seq<char>>, pairs: Seq<(&str, &str)>) -> Map<
    Seq<char>,
    Seq<char>,
>
    decreases pairs.len(),
{
    if pairs.len() == 0 {
        m
    } else {
        with_pairs(m, pairs.drop_last()).insert(pairs.last().0@, pairs.last().1@)
    }
}

/// The program, its base arguments and those of the run, the tests, and, when the engine has
/// arguments for the test binary, the separator (if any), those arguments and those of the run.
pub open spec fn command_line(
    e: EngineView,
    additional_base: Seq<Seq<char>>,
    tests: Seq<Seq<char>>,
    additional_runtime: Seq<Seq<char>>,
) -> Seq<Seq<char>> {
    let sep: Seq<Seq<char>> = match e.separator {
        Some(s) => seq![s],
        None => Seq::empty(),
    };
    e.base + additional_base + tests + if e.runtime.len() > 0 {
        sep + e.runtime + additional_runtime
    } else {
        Seq::empty()
    }
}

/// Appends copies of `args` to `v`.
fn extend_strings(v: &mut Vec<String>, args: &[String])
    ensures
        str_views(final(v)@) == str_views(old(v)@) + str_views(args@),
{
    let mut i: usize = 0;
    while i < args.len()
        invariant
            i <= args@.len(),
            str_views(v@) == str_views(old(v)@) + str_views(args@.subrange(0, i as int)),
        decreases args@.len() - i,
    {
        let ghost before = v@;
        v.push(args[i].clone());
        assert(str_views(v@) =~= str_views(before).push(args@[i as int]@));
        assert(str_views(args@.subrange(0, i + 1)) =~= str_views(args@.subrange(0, i as int)).push(args@[i as int]@));
        i = i + 1;
    }
    assert(args@.subrange(0, i as int) =~= args@);
}

} // verus!

verus! {

/// A test to run on its own, with the formatter that reads its output and the arguments that
/// only its run gets.
pub struct TestItem<F> {
    pub test_name: String,
    pub formatter: F,
    pub additional_base_args: Vec<String>,
    pub additional_runtime_args: Vec<String>,
}

/// How many indices below `n` leave the remainder `k` when divided by `m` (for `k < m`).
pub open spec fn column_len(n: int, m: int, k: int) -> int {
    (n + m - 1 - k) / m
}

/// Going from `i` to `i + 1` indices adds one to the column of `i % m`, at position `i / m`.
proof fn lemma_column_step(i: int, m: int, k: int)
    requires
        m > 0,
        0 <= k < m,
        0 <= i,
    ensures
        i == (i / m) * m + i % m,
        0 <= i % m < m,
        i % m == k ==> column_len(i, m, k) == i / m,
        column_len(i + 1, m, k) == column_len(i, m, k) + if i % m == k { 1int } else { 0int },
{
    let q = i / m;
    let r = i % m;
    vstd::arithmetic::div_mod::lemma_fundamental_div_mod(i, m);
    assert(i == q * m + r) by (nonlinear_arith)
        requires
            i == m * q + r,
    ;
    if r >= k + 1 {
        assert(i + m - 1 - k == (q + 1) * m + (r - 1 - k)) by (nonlinear_arith)
            requires
                i == q * m + r,
        ;
        vstd::arithmetic::div_mod::lemma_fundamental_div_mod_converse(i + m - 1 - k, m, q + 1, r - 1 - k);
        assert(i + 1 + m - 1 - k == (q + 1) * m + (r - k)) by (nonlinear_arith)
            requires
                i == q * m + r,
        ;
        vstd::arithmetic::div_mod::lemma_fundamental_div_mod_converse(i + 1 + m - 1 - k, m, q + 1, r - k);
    } else {
        vstd::arithmetic::div_mod::lemma_fundamental_div_mod_converse(i + m - 1 - k, m, q, r + m - 1 - k);
        if r == k {
            assert(i + 1 + m - 1 - k == (q + 1) * m + 0) by (nonlinear_arith)
                requires
                    i == q * m + r,
                    r == k,
            ;
            vstd::arithmetic::div_mod::lemma_fundamental_div_mod_converse(i + 1 + m - 1 - k, m, q + 1, 0);
        } else {
            vstd::arithmetic::div_mod::lemma_fundamental_div_mod_converse(i + 1 + m - 1 - k, m, q, r + m - k);
        }
    }
}

/// Position `j` of column `k` is an index below `n` exactly when `j` is below the column's length.
proof fn lemma_column_bound(j: int, k: int, m: int, n: int)
    requires
        m > 0,
        0 <= k < m,
        0 <= j,
        0 <= n,
    ensures
        (j * m + k < n) <==> (j < column_len(n, m, k)),
{
    let c = column_len(n, m, k);
    vstd::arithmetic::div_mod::lemma_fundamental_div_mod(n + m - 1 - k, m);
    let r = (n + m - 1 - k) % m;
    assert(n + m - 1 - k == c * m + r) by (nonlinear_arith)
        requires
            n + m - 1 - k == m * c + r,
    ;
    if j < c {
        assert(j * m + m <= c * m) by (nonlinear_arith)
            requires
                j < c,
                m > 0,
        ;
    } else {
        assert(j * m >= c * m) by (nonlinear_arith)
            requires
                j >= c,
                m > 0,
        ;
    }
}

/// The items of `v` in reverse order.
fn reversed<T>(v: Vec<T>) -> (r: Vec<T>)
    ensures
        r@.len() == v@.len(),
        forall|j: int| 0 <= j < v@.len() ==> #[trigger] r@[j] == v@[v@.len() - 1 - j],
{
    let ghost s = v@;
    let mut v = v;
    let mut r: Vec<T> = Vec::new();
    while v.len() > 0
        invariant
            v@ == s.subrange(0, s.len() - r@.len()),
            r@.len() <= s.len(),
            forall|j: int| 0 <= j < r@.len() ==> #[trigger] r@[j] == s[s.len() - 1 - j],
        decreases v@.len(),
    {
        let x = v.pop().unwrap();
        r.push(x);
    }
    r
}

/// Deals the items round-robin into at most `m` partitions, leaving out empty ones: item `i`
/// goes to partition `i % m`, at position `i / m`.
pub fn partition_tests<T>(items: Vec<T>, m: usize) -> (r: Vec<Vec<T>>)
    ensures
        r@.len() == if m == 0 {
            0
        } else if items@.len() < m {
            items@.len() as int
        } else {
            m as int
        },
        forall|k: int| 0 <= k < r@.len() ==> #[trigger] r@[k]@.len() == column_len(items@.len() as int, m as int, k),
        forall|k: int, j: int|
            0 <= k < r@.len() && 0 <= j < r@[k]@.len() ==> #[trigger] r@[k]@[j] == items@[j * m + k],
        forall|i: int|
            0 <= i < items@.len() && m > 0 ==> r@[i % (m as int)]@[i / (m as int)] == #[trigger] items@[i],
{
    let ghost s = items@;
    let n = items.len();
    if m == 0 || n == 0 {
        return Vec::new();
    }
    let c: usize = if n < m { n } else { m };
    let mut parts: Vec<Vec<T>> = Vec::new();
    while parts.len() < c
        invariant
            parts@.len() <= c,
            forall|k: int| 0 <= k < parts@.len() ==> #[trigger] parts@[k]@.len() == 0,
        decreases c - parts@.len(),
    {
        parts.push(Vec::new());
    }
    proof {
        assert forall|k: int| 0 <= k < c implies #[trigger] parts@[k]@.len() == column_len(0, m as int, k) by {
            vstd::arithmetic::div_mod::lemma_fundamental_div_mod_converse(m - 1 - k, m as int, 0, m - 1 - k);
        }
    }
    let mut rest = reversed(items);
    let mut i: usize = 0;
    while i < n
        invariant
            n == s.len(),
            0 < m,
            c == (if n < m { n } else { m }),
            i <= n,
            parts@.len() == c,
            rest@.len() == n - i,
            forall|j: int| 0 <= j < rest@.len() ==> #[trigger] rest@[j] == s[n - 1 - j],
            forall|k: int| 0 <= k < c ==> #[trigger] parts@[k]@.len() == column_len(i as int, m as int, k),
            forall|k: int, j: int|
                0 <= k < c && 0 <= j < parts@[k]@.len() ==> #[trigger] parts@[k]@[j] == s[j * m + k],
        decreases n - i,
    {
        let item = rest.pop().unwrap();
        assert(item == s[i as int]);
        let k = i % m;
        proof {
            assert forall|k2: int| 0 <= k2 < c implies column_len(i + 1, m as int, k2)
                == column_len(i as int, m as int, k2) + if (i as int) % (m as int) == k2 { 1int } else { 0int } by {
                lemma_column_step(i as int, m as int, k2);
            }
            lemma_column_step(i as int, m as int, k as int);
        }
        let ghost before = parts@;
        parts[k].push(item);
        proof {
            assert forall|k2: int, j: int|
                0 <= k2 < c && 0 <= j < parts@[k2]@.len() implies #[trigger] parts@[k2]@[j]
                    == s[j * m + k2] by {
                if k2 == k && j == before[k2]@.len() {
                    assert(j == (i as int) / (m as int));
                    assert(j * m + k2 == i);
                    assert(parts@[k2]@[j] == item);
                } else {
                    assert(parts@[k2]@[j] == before[k2]@[j]);
                }
            }
        }
        i = i + 1;
    }
    proof {
        assert forall|ii: int| 0 <= ii < s.len() implies ii / (m as int) < parts@[ii % (m as int)]@.len()
            && parts@[ii % (m as int)]@[ii / (m as int)] == #[trigger] s[ii] by {
            lemma_column_step(ii, m as int, ii % (m as int));
            lemma_column_bound(ii / (m as int), ii % (m as int), m as int, n as int);
            assert(ii % (m as int) < c);
            let jj = ii / (m as int);
            let kk = ii % (m as int);
            assert(parts@[kk]@[jj] == s[jj * m + kk]);
        }
    }
    parts
}

} // verus!

verus! {

/// How a finished process ended: whether it succeeded, and its exit code when it has one.
#[derive(Debug, Clone, Copy, PartialEq, Eq)]
pub struct ProcessStatus {
    pub success: bool,
    pub code: Option<i32>,
}

/// What one run printed and how it ended; `status` is `None` when no status was read and
/// `stopped` tells that the user stopped the run.
pub struct CaptureOutput {
    pub status: Option<ProcessStatus>,
    pub stopped: bool,
    pub stdout: String,
}

impl View for CaptureOutput {
    type V = (Option<ProcessStatus>, bool, Seq<char>);

    open spec fn view(&self) -> (Option<ProcessStatus>, bool, Seq<char>) {
        (self.status, self.stopped, self.stdout@)
    }
}

impl CaptureOutput {
    /// A copy of this output.
    pub fn copy(&self) -> (r: CaptureOutput)
        ensures
            r@ == self@,
    {
        CaptureOutput { status: self.status, stopped: self.stopped, stdout: self.stdout.clone() }
    }
}

/// The run ended with a failure whose exit code is not the one that means "some tests failed".
pub open spec fn is_error_status(status: Option<ProcessStatus>, test_failure_exit_code: i32) -> bool {
    match status {
        Some(st) => !st.success && match st.code {
            Some(c) => c != test_failure_exit_code,
            None => false,
        },
        None => false,
    }
}

/// One finished run: its output, its test, and what its formatter found (the failed tests and
/// the covered files).
pub struct TestOutput {
    pub output: CaptureOutput,
    pub test: String,
    pub failed_tests: Vec<FailedTest>,
    pub coverage: Vec<String>,
}

/// The outputs of the runs whose status is an error, in order.
pub open spec fn error_outputs(outs: Seq<TestOutput>, code: i32) -> Seq<(Option<ProcessStatus>, bool, Seq<char>)>
    decreases outs.len(),
{
    if outs.len() == 0 {
        Seq::empty()
    } else {
        let rest = error_outputs(outs.drop_last(), code);
        if is_error_status(outs.last().output.status, code) {
            rest.push(outs.last().output@)
        } else {
            rest
        }
    }
}

/// The failed tests of all runs, run after run.
pub open spec fn all_failed(outs: Seq<TestOutput>) -> Seq<(Seq<char>, Seq<char>)>
    decreases outs.len(),
{
    if outs.len() == 0 {
        Seq::empty()
    } else {
        all_failed(outs.drop_last()) + failed_views(outs.last().failed_tests@)
    }
}

/// What all runs printed, each followed by a line break.
pub open spec fn merged_stdout(outs: Seq<TestOutput>) -> Seq<char>
    decreases outs.len(),
{
    if outs.len() == 0 {
        Seq::empty()
    } else {
        merged_stdout(outs.drop_last()) + outs.last().output.stdout@ + seq!['\n']
    }
}

/// `m` after `test` is recorded as covering `path`.
pub open spec fn add_covering(m: Map<Seq<char>, Seq<Seq<char>>>, path: Seq<char>, test: Seq<char>) -> Map<
    Seq<char>,
    Seq<Seq<char>>,
> {
    m.insert(
        path,
        if m.dom().contains(path) {
            m[path].push(test)
        } else {
            seq![test]
        },
    )
}

/// `m` after `test` is recorded as covering each of `paths` in turn.
pub open spec fn add_paths(m: Map<Seq<char>, Seq<Seq<char>>>, paths: Seq<Seq<char>>, test: Seq<char>) -> Map<
    Seq<char>,
    Seq<Seq<char>>,
>
    decreases paths.len(),
{
    if paths.len() == 0 {
        m
    } else {
        add_covering(add_paths(m, paths.drop_last(), test), paths.last(), test)
    }
}

/// For each covered file, the tests that cover it, in the order of the runs.
pub open spec fn coverage_of(outs: Seq<TestOutput>) -> Map<Seq<char>, Seq<Seq<char>>>
    decreases outs.len(),
{
    if outs.len() == 0 {
        Map::empty()
    } else {
        add_paths(coverage_of(outs.drop_last()), str_views(outs.last().coverage@), outs.last().test@)
    }
}

/// The runs of one batch.
pub struct EngineOutput {
    test_outputs: Vec<TestOutput>,
}

impl EngineOutput {
    pub closed spec fn outputs(&self) -> Seq<TestOutput> {
        self.test_outputs@
    }

    pub fn new(test_outputs: Vec<TestOutput>) -> (r: EngineOutput)
        ensures
            r.outputs() == test_outputs@,
    {
        EngineOutput { test_outputs }
    }

    /// No run ended with an error status other than `test_failure_exit_code`.
    pub fn success(&self, test_failure_exit_code: i32) -> (r: bool)
        ensures
            r == forall|i: int|
                0 <= i < self.outputs().len() ==> !is_error_status(
                    #[trigger] self.outputs()[i].output.status,
                    test_failure_exit_code,
                ),
    {
        let mut i: usize = 0;
        while i < self.test_outputs.len()
            invariant
                i <= self.test_outputs@.len(),
                forall|j: int|
                    0 <= j < i ==> !is_error_status(#[trigger] self.test_outputs@[j].output.status, test_failure_exit_code),
            decreases self.test_outputs@.len() - i,
        {
            if error_status(&self.test_outputs[i].output.status, test_failure_exit_code) {
                return false;
            }
            i = i + 1;
        }
        true
    }

    /// The outputs of the runs that ended with an error status other than
    /// `test_failure_exit_code`.
    pub fn get_error_status_test_output(&self, test_failure_exit_code: i32) -> (r: Vec<CaptureOutput>)
        ensures
            r@.map_values(|o: CaptureOutput| o@) == error_outputs(self.outputs(), test_failure_exit_code),
    {
        let mut r: Vec<CaptureOutput> = Vec::new();
        let mut i: usize = 0;
        while i < self.test_outputs.len()
            invariant
                i <= self.test_outputs@.len(),
                r@.map_values(|o: CaptureOutput| o@) == error_outputs(
                    self.test_outputs@.subrange(0, i as int),
                    test_failure_exit_code,
                ),
            decreases self.test_outputs@.len() - i,
        {
            let ghost before = r@;
            let o = &self.test_outputs[i].output;
            assert(self.test_outputs@.subrange(0, i + 1).drop_last() =~= self.test_outputs@.subrange(0, i as int));
            if error_status(&o.status, test_failure_exit_code) {
                r.push(o.copy());
                assert(r@.map_values(|o: CaptureOutput| o@) =~= before.map_values(|o: CaptureOutput| o@).push(o@));
            }
            i = i + 1;
        }
        assert(self.test_outputs@.subrange(0, i as int) =~= self.test_outputs@);
        r
    }

    /// Some run was stopped by the user.
    pub fn stopped(&self) -> (r: bool)
        ensures
            r == exists|i: int| 0 <= i < self.outputs().len() && #[trigger] self.outputs()[i].output.stopped,
    {
        let mut i: usize = 0;
        while i < self.test_outputs.len()
            invariant
                i <= self.test_outputs@.len(),
                forall|j: int| 0 <= j < i ==> !#[trigger] self.test_outputs@[j].output.stopped,
            decreases self.test_outputs@.len() - i,
        {
            if self.test_outputs[i].output.stopped {
                return true;
            }
            i = i + 1;
        }
        false
    }

    /// The failed tests of all runs, run after run.
    pub fn failed_tests(&self) -> (r: Vec<FailedTest>)
        ensures
            failed_views(r@) == all_failed(self.outputs()),
    {
        let mut r: Vec<FailedTest> = Vec::new();
        let mut i: usize = 0;
        while i < self.test_outputs.len()
            invariant
                i <= self.test_outputs@.len(),
                failed_views(r@) == all_failed(self.test_outputs@.subrange(0, i as int)),
            decreases self.test_outputs@.len() - i,
        {
            let f = &self.test_outputs[i].failed_tests;
            let ghost start = r@;
            let mut j: usize = 0;
            while j < f.len()
                invariant
                    j <= f@.len(),
                    failed_views(r@) == failed_views(start) + failed_views(f@.subrange(0, j as int)),
                decreases f@.len() - j,
            {
                let ghost before = r@;
                r.push(f[j].copy());
                assert(failed_views(r@) =~= failed_views(before).push(f@[j as int]@));
                assert(failed_views(f@.subrange(0, j + 1)) =~= failed_views(f@.subrange(0, j as int)).push(f@[j as int]@));
                j = j + 1;
            }
            assert(f@.subrange(0, j as int) =~= f@);
            assert(self.test_outputs@.subrange(0, i + 1).drop_last() =~= self.test_outputs@.subrange(0, i as int));
            i = i + 1;
        }
        assert(self.test_outputs@.subrange(0, i as int) =~= self.test_outputs@);
        r
    }

    /// For each covered file, the tests whose runs cover it.
    pub fn coverage(&self) -> (r: CoverageMap)
        ensures
            r@ == coverage_of(self.outputs()),
    {
        let mut r = CoverageMap::new();
        let mut i: usize = 0;
        while i < self.test_outputs.len()
            invariant
                i <= self.test_outputs@.len(),
                r@ == coverage_of(self.test_outputs@.subrange(0, i as int)),
            decreases self.test_outputs@.len() - i,
        {
            let t = &self.test_outputs[i];
            let ghost start = r@;
            let mut j: usize = 0;
            while j < t.coverage.len()
                invariant
                    j <= t.coverage@.len(),
                    r@ == add_paths(start, str_views(t.coverage@.subrange(0, j as int)), t.test@),
                decreases t.coverage@.len() - j,
            {
                r.add(&t.coverage[j], &t.test);
                assert(str_views(t.coverage@.subrange(0, j + 1)).drop_last() =~= str_views(t.coverage@.subrange(0, j as int)));
                j = j + 1;
            }
            assert(t.coverage@.subrange(0, j as int) =~= t.coverage@);
            assert(self.test_outputs@.subrange(0, i + 1).drop_last() =~= self.test_outputs@.subrange(0, i as int));
            i = i + 1;
        }
        assert(self.test_outputs@.subrange(0, i as int) =~= self.test_outputs@);
        r
    }

    /// What all runs printed, each followed by a line break.
    pub fn merge_stdout(&self) -> (r: String)
        ensures
            r@ == merged_stdout(self.outputs()),
    {
        let mut r = String::new();
        let mut i: usize = 0;
        while i < self.test_outputs.len()
            invariant
                i <= self.test_outputs@.len(),
                r@ == merged_stdout(self.test_outputs@.subrange(0, i as int)),
            decreases self.test_outputs@.len() - i,
        {
            append_str(&mut r, self.test_outputs[i].output.stdout.as_str());
            append_str(&mut r, "\n");
            proof {
                reveal_strlit("\n");
            }
            assert(self.test_outputs@.subrange(0, i + 1).drop_last() =~= self.test_outputs@.subrange(0, i as int));
            i = i + 1;
        }
        assert(self.test_outputs@.subrange(0, i as int) =~= self.test_outputs@);
        r
    }

    /// The runs, in order.
    pub fn get_test_outputs(&self) -> (r: &[TestOutput])
        ensures
            r@ == self.outputs(),
    {
        self.test_outputs.as_slice()
    }
}

/// Whether a status is an error status other than `test_failure_exit_code`.
fn error_status(status: &Option<ProcessStatus>, test_failure_exit_code: i32) -> (r: bool)
    ensures
        r == is_error_status(*status, test_failure_exit_code),
{
    match status {
        Some(st) => !st.success && match st.code {
            Some(c) => c != test_failure_exit_code,
            None => false,
        },
        None => false,
    }
}

} // verus!

verus! {

/// A batch succeeds exactly when no run's output is reported as an error output.
pub proof fn law_success_iff_no_error_outputs(outs: Seq<TestOutput>, code: i32)
    ensures
        (forall|i: int| 0 <= i < outs.len() ==> !is_error_status(#[trigger] outs[i].output.status, code))
            <==> error_outputs(outs, code).len() == 0,
    decreases outs.len(),
{
    if outs.len() > 0 {
        let init = outs.drop_last();
        law_success_iff_no_error_outputs(init, code);
        assert forall|i: int| 0 <= i < init.len() implies #[trigger] init[i].output.status == outs[i].output.status by {}
        if !is_error_status(outs.last().output.status, code) {
            if forall|i: int| 0 <= i < init.len() ==> !is_error_status(#[trigger] init[i].output.status, code) {
                assert forall|i: int| 0 <= i < outs.len() implies !is_error_status(#[trigger] outs[i].output.status, code) by {
                    if i < init.len() {
                        assert(init[i].output.status == outs[i].output.status);
                    }
                }
            } else {
                let i = choose|i: int| 0 <= i < init.len() && is_error_status(#[trigger] init[i].output.status, code);
                assert(is_error_status(outs[i].output.status, code));
            }
        } else {
            assert(is_error_status(outs[outs.len() - 1].output.status, code));
        }
    }
}

/// `add_paths` records `test` for each of `paths`, and changes no other file's tests.
proof fn lemma_add_paths(m: Map<Seq<char>, Seq<Seq<char>>>, paths: Seq<Seq<char>>, test: Seq<char>, p: Seq<char>)
    ensures
        add_paths(m, paths, test).dom().contains(p) <==> (m.dom().contains(p) || paths.contains(p)),
        m.dom().contains(p) ==> add_paths(m, paths, test)[p].len() >= m[p].len(),
        m.dom().contains(p) ==> add_paths(m, paths, test)[p].subrange(0, m[p].len() as int) == m[p],
        add_paths(m, paths, test).dom().contains(p) ==> forall|x: Seq<char>| #[trigger] add_paths(m, paths, test)[p].contains(x)
            ==> (m.dom().contains(p) && m[p].contains(x)) || (x == test && paths.contains(p)),
        paths.contains(p) ==> add_paths(m, paths, test)[p].contains(test),
    decreases paths.len(),
{
    if paths.len() > 0 {
        let init = paths.drop_last();
        lemma_add_paths(m, init, test, p);
        let m1 = add_paths(m, init, test);
        let m2 = add_paths(m, paths, test);
        assert(m2 == add_covering(m1, paths.last(), test));
        assert forall|q: Seq<char>| init.contains(q) implies paths.contains(q) by {
            let k = choose|k: int| 0 <= k < init.len() && init[k] == q;
            assert(paths[k] == q);
        }
        if p == paths.last() {
            assert(paths[paths.len() - 1] == p);
            assert(paths.contains(p));
            if m1.dom().contains(p) {
                let s1 = m1[p];
                assert(m2[p] == s1.push(test));
                if m.dom().contains(p) {
                    assert(s1.push(test).subrange(0, m[p].len() as int) =~= s1.subrange(0, m[p].len() as int));
                }
                assert forall|x: Seq<char>| #[trigger] m2[p].contains(x) implies (m.dom().contains(p) && m[p].contains(x)) || (x == test && paths.contains(p)) by {
                    if x != test {
                        let k = choose|k: int| 0 <= k < s1.push(test).len() && s1.push(test)[k] == x;
                        assert(k < s1.len());
                        assert(s1[k] == x);
                        assert(s1.contains(x));
                    }
                }
                assert(s1.push(test)[s1.len() as int] == test);
            } else {
                assert(m2[p] == seq![test]);
                assert(seq![test][0] == test);
                assert forall|x: Seq<char>| #[trigger] m2[p].contains(x) implies (m.dom().contains(p) && m[p].contains(x)) || (x == test && paths.contains(p)) by {
                    let k = choose|k: int| 0 <= k < seq![test].len() && seq![test][k] == x;
                }
            }
        } else {
            assert(m2[p] == m1[p]);
            if paths.contains(p) {
                let k = choose|k: int| 0 <= k < paths.len() && paths[k] == p;
                assert(k < init.len());
                assert(init[k] == p);
            }
        }
    }
}

/// The coverage of a batch lists, for each file, exactly the tests whose runs cover it: each
/// run's test is listed under each file the run covers, and each test listed under a file
/// comes from a run that covers it.
pub proof fn law_coverage_inverts_runs(outs: Seq<TestOutput>, path: Seq<char>, test: Seq<char>)
    ensures
        (exists|i: int| 0 <= i < outs.len() && outs[i].test@ == test && str_views(#[trigger] outs[i].coverage@).contains(path))
            <==> (coverage_of(outs).dom().contains(path) && coverage_of(outs)[path].contains(test)),
    decreases outs.len(),
{
    if outs.len() > 0 {
        let init = outs.drop_last();
        let last = outs.last();
        law_coverage_inverts_runs(init, path, test);
        let m = coverage_of(init);
        let paths = str_views(last.coverage@);
        lemma_add_paths(m, paths, last.test@, path);
        let m2 = coverage_of(outs);
        assert(m2 == add_paths(m, paths, last.test@));
        if exists|i: int| 0 <= i < outs.len() && outs[i].test@ == test && str_views(#[trigger] outs[i].coverage@).contains(path) {
            let i = choose|i: int| 0 <= i < outs.len() && outs[i].test@ == test && str_views(#[trigger] outs[i].coverage@).contains(path);
            if i < init.len() {
                assert(init[i] == outs[i]);
                assert(m.dom().contains(path) && m[path].contains(test));
                let k = choose|k: int| 0 <= k < m[path].len() && m[path][k] == test;
                assert(m2[path].subrange(0, m[path].len() as int)[k] == test);
                assert(m2[path][k] == test);
            }
        }
        if m2.dom().contains(path) && m2[path].contains(test) {
            if m.dom().contains(path) && m[path].contains(test) {
                let i = choose|i: int| 0 <= i < init.len() && init[i].test@ == test && str_views(#[trigger] init[i].coverage@).contains(path);
                assert(outs[i] == init[i]);
            } else {
                assert(outs[outs.len() - 1] == last);
            }
        }
    }
}

} // verus!
