//! Running Python tests with pytest.
use vstd::prelude::*;

use crate::errors::FztError;
use crate::runtime::engine::{strs_views, thread_count, with_pairs, Engine};
use crate::runtime::{Debugger, PythonDebugger};
use crate::test_sets::{contains_name, name_set, str_views};
use crate::text::{append_str, find, find_chars, slice_chars, to_chars};

verus! {

/// `a` comes before `b` in the order of `str` (character by character, a prefix first).
pub open spec fn lex_lt(a: Seq<char>, b: Seq<char>) -> bool
    decreases a.len(),
{
    if a.len() == 0 {
        b.len() > 0
    } else if b.len() == 0 {
        false
    } else if a[0] != b[0] {
        a[0] < b[0]
    } else {
        lex_lt(a.drop_first(), b.drop_first())
    }
}

/// Nothing comes before itself.
pub proof fn lemma_lex_irreflexive(a: Seq<char>)
    ensures
        !lex_lt(a, a),
    decreases a.len(),
{
    if a.len() > 0 {
        lemma_lex_irreflexive(a.drop_first());
    }
}

/// Of two different strings, one comes before the other, and not both ways.
pub proof fn lemma_lex_total(a: Seq<char>, b: Seq<char>)
    ensures
        a != b ==> lex_lt(a, b) || lex_lt(b, a),
        !(lex_lt(a, b) && lex_lt(b, a)),
    decreases a.len(),
{
    if a.len() > 0 && b.len() > 0 {
        lemma_lex_total(a.drop_first(), b.drop_first());
        if a[0] == b[0] && a != b {
            assert(a.drop_first() != b.drop_first()) by {
                if a.drop_first() == b.drop_first() {
                    assert(a =~= seq![a[0]] + a.drop_first());
                    assert(b =~= seq![b[0]] + b.drop_first());
                }
            }
        }
    } else if a.len() == 0 && b.len() == 0 {
        assert(a =~= b);
    }
}

/// The order is transitive.
pub proof fn lemma_lex_transitive(a: Seq<char>, b: Seq<char>, c: Seq<char>)
    requires
        lex_lt(a, b),
        lex_lt(b, c),
    ensures
        lex_lt(a, c),
    decreases a.len(),
{
    if a.len() > 0 && b.len() > 0 && c.len() > 0 && a[0] == b[0] && b[0] == c[0] {
        lemma_lex_transitive(a.drop_first(), b.drop_first(), c.drop_first());
    }
}

/// Whether `a` comes before `b`.
pub fn lex_less(a: &[char], b: &[char]) -> (r: bool)
    ensures
        r == lex_lt(a@, b@),
{
    let mut i: usize = 0;
    assert(a@.subrange(0, a@.len() as int) =~= a@);
    assert(b@.subrange(0, b@.len() as int) =~= b@);
    while i < a.len() && i < b.len() && a[i] == b[i]
        invariant
            i <= a@.len(),
            i <= b@.len(),
            lex_lt(a@, b@) == lex_lt(a@.subrange(i as int, a@.len() as int), b@.subrange(i as int, b@.len() as int)),
        decreases a@.len() - i,
    {
        let ghost sa = a@.subrange(i as int, a@.len() as int);
        let ghost sb = b@.subrange(i as int, b@.len() as int);
        assert(sa.drop_first() =~= a@.subrange(i + 1, a@.len() as int));
        assert(sb.drop_first() =~= b@.subrange(i + 1, b@.len() as int));
        i = i + 1;
    }
    let ghost sa = a@.subrange(i as int, a@.len() as int);
    let ghost sb = b@.subrange(i as int, b@.len() as int);
    if i == a.len() {
        i < b.len()
    } else if i == b.len() {
        false
    } else {
        assert(sa[0] == a@[i as int]);
        assert(sb[0] == b@[i as int]);
        a[i] < b[i]
    }
}

/// The file part of a test name: what comes before the first `::`, or the whole name.
pub open spec fn test_file(name: Seq<char>) -> Seq<char> {
    match find(name, "::"@) {
        Some(i) => name.subrange(0, i),
        None => name,
    }
}

/// The file part of a test name.
pub fn test_file_chars(name: &str) -> (r: Vec<char>)
    ensures
        r@ == test_file(name@),
{
    let chars = to_chars(name);
    let sep = to_chars("::");
    match find_chars(chars.as_slice(), sep.as_slice()) {
        Some(i) => {
            proof {
                crate::text::lemma_find(chars@, sep@);
            }
            slice_chars(chars.as_slice(), 0, i)
        },
        None => chars,
    }
}

/// `p` lists each index below `n` once.
pub open spec fn is_index_permutation(p: Seq<int>, n: nat) -> bool {
    &&& p.len() == n
    &&& forall|i: int| 0 <= i < p.len() ==> 0 <= #[trigger] p[i] < n
    &&& forall|i: int, j: int| 0 <= i < j < p.len() ==> p[i] != p[j]
}

/// `r` holds the tests of `s` ordered by their file parts, tests of one file keeping their
/// order (a stable sort by file).
pub open spec fn stably_sorted_by_file(s: Seq<Seq<char>>, r: Seq<Seq<char>>) -> bool {
    exists|p: Seq<int>|
        {
            &&& is_index_permutation(p, s.len())
            &&& forall|i: int| 0 <= i < r.len() ==> #[trigger] r[i] == s[p[i]]
            &&& forall|i: int, j: int|
                0 <= i < j < r.len() ==> lex_lt(test_file(#[trigger] r[i]), test_file(#[trigger] r[j])) || (
                test_file(r[i]) == test_file(r[j]) && p[i] < p[j])
        }
}

/// Orders tests by file, keeping the order of the tests of each file.
pub fn order_tests(tests: &[String]) -> (r: Vec<String>)
    ensures
        stably_sorted_by_file(str_views(tests@), str_views(r@)),
{
    let ghost s = str_views(tests@);
    let n = tests.len();
    let mut keys: Vec<Vec<char>> = Vec::new();
    let mut rem: Vec<usize> = Vec::new();
    while keys.len() < n
        invariant
            n == tests@.len(),
            s == str_views(tests@),
            keys@.len() <= n,
            rem@.len() == keys@.len(),
            forall|i: int| 0 <= i < keys@.len() ==> #[trigger] keys@[i]@ == test_file(s[i]),
            forall|i: int| 0 <= i < rem@.len() ==> #[trigger] rem@[i] == i,
        decreases n - keys@.len(),
    {
        let i = keys.len();
        keys.push(test_file_chars(tests[i].as_str()));
        rem.push(i);
    }
    let ghost k = |x: int| test_file(s[x]);
    let mut out: Vec<String> = Vec::new();
    let ghost mut p: Seq<int> = Seq::empty();
    while rem.len() > 0
        invariant
            n == tests@.len(),
            s == str_views(tests@),
            keys@.len() == n,
            forall|i: int| 0 <= i < n ==> #[trigger] keys@[i]@ == test_file(s[i]),
            out@.len() == p.len(),
            out@.len() + rem@.len() == n,
            forall|i: int| 0 <= i < p.len() ==> 0 <= #[trigger] p[i] < n,
            forall|i: int| 0 <= i < p.len() ==> #[trigger] str_views(out@)[i] == s[p[i]],
            forall|i: int, j: int| 0 <= i < j < p.len() ==> p[i] != p[j],
            forall|j: int| 0 <= j < rem@.len() ==> #[trigger] rem@[j] < n,
            forall|a: int, b: int| 0 <= a < b < rem@.len() ==> rem@[a] < rem@[b],
            forall|i: int, j: int| 0 <= i < p.len() && 0 <= j < rem@.len() ==> p[i] != rem@[j],
            forall|i: int, j: int|
                0 <= i < j < p.len() ==> lex_lt(test_file(s[p[i]]), test_file(s[p[j]])) || (test_file(s[p[i]])
                    == test_file(s[p[j]]) && p[i] < p[j]),
            forall|i: int, j: int|
                0 <= i < p.len() && 0 <= j < rem@.len() ==> lex_lt(test_file(s[p[i]]), test_file(s[rem@[j] as int]))
                    || (test_file(s[p[i]]) == test_file(s[rem@[j] as int]) && p[i] < rem@[j]),
        decreases rem@.len(),
    {
        let mut best: usize = 0;
        let mut j: usize = 1;
        proof {
            lemma_lex_irreflexive(test_file(s[rem@[0] as int]));
        }
        while j < rem.len()
            invariant
                s == str_views(tests@),
                n == tests@.len(),
                keys@.len() == n,
                forall|i: int| 0 <= i < n ==> #[trigger] keys@[i]@ == test_file(s[i]),
                forall|t: int| 0 <= t < rem@.len() ==> #[trigger] rem@[t] < n,
                best < j <= rem@.len(),
                forall|t: int| 0 <= t < j ==> !lex_lt(test_file(s[rem@[t] as int]), test_file(s[rem@[best as int] as int])),
                forall|t: int| 0 <= t < best ==> lex_lt(test_file(s[rem@[best as int] as int]), test_file(s[rem@[t] as int])),
            decreases rem@.len() - j,
        {
            let kj = &keys[rem[j]];
            let kb = &keys[rem[best]];
            if lex_less(kj.as_slice(), kb.as_slice()) {
                proof {
                    let bj = test_file(s[rem@[j as int] as int]);
                    let bb = test_file(s[rem@[best as int] as int]);
                    lemma_lex_total(bj, bb);
                    assert forall|t: int| 0 <= t < j + 1 implies !lex_lt(test_file(s[rem@[t] as int]), bj) by {
                        let bt = test_file(s[rem@[t] as int]);
                        if lex_lt(bt, bj) {
                            lemma_lex_transitive(bt, bj, bb);
                        }
                        if t == j {
                            lemma_lex_irreflexive(bj);
                        }
                    }
                    assert forall|t: int| 0 <= t < j implies lex_lt(bj, test_file(s[rem@[t] as int])) by {
                        let bt = test_file(s[rem@[t] as int]);
                        lemma_lex_total(bt, bb);
                        if bt != bb {
                            lemma_lex_transitive(bj, bb, bt);
                        }
                    }
                }
                best = j;
            }
            j = j + 1;
        }
        let ghost old_rem = rem@;
        let idx = rem.remove(best);
        let ghost old_p = p;
        let ghost old_out = out@;
        out.push(tests[idx].clone());
        proof {
            p = p.push(idx as int);
            assert(str_views(out@) =~= str_views(old_out).push(s[idx as int]));
            let kb = test_file(s[idx as int]);
            assert forall|i: int, jj: int|
                0 <= i < p.len() && 0 <= jj < rem@.len() implies lex_lt(test_file(s[p[i]]), test_file(s[rem@[jj] as int]))
                    || (test_file(s[p[i]]) == test_file(s[rem@[jj] as int]) && p[i] < rem@[jj]) by {
                let t = if jj < best { jj } else { jj + 1 };
                assert(rem@[jj] == old_rem[t]);
                if i < old_p.len() {
                } else {
                    let kt = test_file(s[old_rem[t] as int]);
                    assert(!lex_lt(kt, kb));
                    lemma_lex_total(kt, kb);
                    if kt == kb && t < best {
                        lemma_lex_irreflexive(kb);
                    }
                }
            }
            assert forall|i: int, jj: int| 0 <= i < p.len() && 0 <= jj < rem@.len() implies p[i] != rem@[jj] by {
                let t = if jj < best { jj } else { jj + 1 };
                assert(rem@[jj] == old_rem[t]);
            }
            assert forall|a: int, b: int| 0 <= a < b < rem@.len() implies rem@[a] < rem@[b] by {
                let ta = if a < best { a } else { a + 1 };
                let tb = if b < best { b } else { b + 1 };
                assert(rem@[a] == old_rem[ta]);
                assert(rem@[b] == old_rem[tb]);
            }
            assert forall|jj: int| 0 <= jj < rem@.len() implies #[trigger] rem@[jj] < n by {
                let t = if jj < best { jj } else { jj + 1 };
                assert(rem@[jj] == old_rem[t]);
            }
            assert forall|i: int, jj: int| 0 <= i < jj < p.len() implies p[i] != p[jj] by {
                if jj == old_p.len() {
                    assert(old_rem[best as int] == idx);
                }
            }
        }
    }
    proof {
        assert(is_index_permutation(p, s.len()));
        assert forall|i: int, j: int|
            0 <= i < j < str_views(out@).len() implies lex_lt(
                test_file(#[trigger] str_views(out@)[i]),
                test_file(#[trigger] str_views(out@)[j]),
            ) || (test_file(str_views(out@)[i]) == test_file(str_views(out@)[j]) && p[i] < p[j]) by {
            assert(str_views(out@)[i] == s[p[i]]);
            assert(str_views(out@)[j] == s[p[j]]);
        }
    }
    out
}

/// The exit code with which pytest reports that some tests failed.
pub const PYTEST_FAILURE_EXIT_CODE: i32 = 1;

/// Runs Python tests with pytest.
pub struct PytestRuntime {}

/// The tests run under a debugger: one is chosen, or pytest is asked to drop into pdb.
pub open spec fn debug_session(debugger: Option<Debugger>, runtime_args: Seq<String>) -> bool {
    debugger is Some || name_set(runtime_args).contains("--pdb"@)
}

/// The program and first arguments: under a debugger pytest runs directly with output
/// capture off; otherwise through `unbuffer`.
pub open spec fn pytest_base(debug: bool) -> Seq<Seq<char>> {
    if debug {
        seq!["python"@, "-m"@, "pytest"@, "-s"@]
    } else {
        seq!["unbuffer"@, "python"@, "-m"@, "pytest"@]
    }
}

/// The value of `PYTHONBREAKPOINT`: the debugger's hook, or `0` (breakpoints off) without one.
pub open spec fn breakpoint_hook(debugger: Option<Debugger>) -> Seq<char> {
    match debugger {
        Some(Debugger::Python(PythonDebugger::Pdb)) => "pdb.set_trace"@,
        Some(Debugger::Python(PythonDebugger::Ipdb)) => "ipdb.set_trace"@,
        Some(Debugger::Python(PythonDebugger::IPython)) => "IPython.terminal.debugger.set_trace"@,
        Some(Debugger::Python(PythonDebugger::Pudb)) => "pudb.set_trace"@,
        Some(Debugger::Python(PythonDebugger::WebPdb)) => "web_pdb.set_trace"@,
        _ => "0"@,
    }
}

/// How pytest is to be run.
pub enum PytestPlan {
    /// All tests in one run; `debug_mode` runs it attached to the terminal.
    Batch { engine: Engine, tests: Vec<String>, debug_mode: bool },
    /// One run per test, each measuring coverage into files of its own.
    PerTest { engine: Engine, tests: Vec<String> },
}

impl PytestRuntime {
    pub fn name(&self) -> (r: String)
        ensures
            r@ == "pytest"@,
    {
        "pytest".to_owned()
    }

    /// How to run `tests`; `env_threads` is the value of `FZT_NUMBER_THREADS`, if set.
    /// Coverage cannot be measured under a debugger.
    pub fn plan(
        &self,
        tests: Vec<String>,
        runtime_args: &[String],
        debugger: &Option<Debugger>,
        run_coverage: bool,
        env_threads: Option<&str>,
    ) -> (r: Result<PytestPlan, FztError>)
        requires
            !(*debugger matches Some(Debugger::Select)),
        ensures
            run_coverage && debug_session(*debugger, runtime_args@) ==> (r matches Err(FztError::UserError(m))
                && m@ == "Coverage cannot be run with a debugger attached."@),
            run_coverage && !debug_session(*debugger, runtime_args@) ==> (r matches Ok(PytestPlan::PerTest { engine, tests: t }) && {
                &&& engine@.base == pytest_base(false) + seq!["--cov=myapp"@, "--cov-report=term-missing:skip-covered"@]
                &&& engine@.runtime == str_views(runtime_args@)
                &&& engine@.separator == Some("--"@)
                &&& engine@.threads == thread_count(None, match env_threads { Some(v) => Some(v@), None => None })
                &&& engine@.envs == Map::<Seq<char>, Seq<char>>::empty()
                &&& str_views(t@) == str_views(tests@)
            }),
            !run_coverage ==> (r matches Ok(PytestPlan::Batch { engine, tests: t, debug_mode }) && {
                &&& engine@.base == pytest_base(debug_session(*debugger, runtime_args@))
                &&& engine@.runtime == str_views(runtime_args@)
                &&& engine@.separator == Some("--"@)
                &&& engine@.threads == thread_count(None, match env_threads { Some(v) => Some(v@), None => None })
                &&& engine@.envs == Map::<Seq<char>, Seq<char>>::empty().insert("PYTHONBREAKPOINT"@, breakpoint_hook(*debugger))
                &&& stably_sorted_by_file(str_views(tests@), str_views(t@))
                &&& debug_mode == debug_session(*debugger, runtime_args@)
            }),
    {
        let pdb = "--pdb".to_owned();
        let debug = debugger.is_some() || contains_name(runtime_args, &pdb);
        let base: Vec<&str> = if debug {
            vec!["python", "-m", "pytest", "-s"]
        } else {
            vec!["unbuffer", "python", "-m", "pytest"]
        };
        assert(strs_views(base@) =~= pytest_base(debug));
        let hook: &str = match debugger {
            Some(Debugger::Python(PythonDebugger::Pdb)) => "pdb.set_trace",
            Some(Debugger::Python(PythonDebugger::Ipdb)) => "ipdb.set_trace",
            Some(Debugger::Python(PythonDebugger::IPython)) => "IPython.terminal.debugger.set_trace",
            Some(Debugger::Python(PythonDebugger::Pudb)) => "pudb.set_trace",
            Some(Debugger::Python(PythonDebugger::WebPdb)) => "web_pdb.set_trace",
            _ => "0",
        };
        if run_coverage {
            if debug {
                return Err(FztError::UserError("Coverage cannot be run with a debugger attached.".to_owned()));
            }
            let mut engine = Engine::new(Some("--".to_owned()), None, env_threads);
            engine.base_args(base.as_slice());
            engine.runtime_args(runtime_args);
            let cov: Vec<&str> = vec!["--cov=myapp", "--cov-report=term-missing:skip-covered"];
            engine.base_args(cov.as_slice());
            assert(strs_views(cov@) =~= seq!["--cov=myapp"@, "--cov-report=term-missing:skip-covered"@]);
            assert(pytest_base(false) + seq!["--cov=myapp"@, "--cov-report=term-missing:skip-covered"@]
                =~= strs_views(base@) + strs_views(cov@));
            Ok(PytestPlan::PerTest { engine, tests })
        } else {
            let ordered = order_tests(tests.as_slice());
            let mut engine = Engine::new(Some("--".to_owned()), None, env_threads);
            engine.base_args(base.as_slice());
            engine.runtime_args(runtime_args);
            let pairs: Vec<(&str, &str)> = vec![("PYTHONBREAKPOINT", hook)];
            engine.envs(pairs.as_slice());
            proof {
                let ps = pairs@;
                assert(ps.drop_last() =~= Seq::<(&str, &str)>::empty());
                assert(with_pairs(Map::empty(), ps) == with_pairs(Map::empty(), ps.drop_last()).insert(ps.last().0@, ps.last().1@));
                assert(hook@ == breakpoint_hook(*debugger));
            }
            assert(Seq::<Seq<char>>::empty() + strs_views(base@) =~= strs_views(base@));
            Ok(PytestPlan::Batch { engine, tests: ordered, debug_mode: debug })
        }
    }
}

/// The arguments by which one coverage run writes its coverage and its test report as JSON.
pub fn coverage_args(cov_path: &str, rep_path: &str) -> (r: Vec<String>)
    ensures
        str_views(r@) == seq!["--json-report"@, "--cov-report=json:"@ + cov_path@, "--json-report-file="@ + rep_path@],
{
    let mut a = "--cov-report=json:".to_owned();
    append_str(&mut a, cov_path);
    let mut b = "--json-report-file=".to_owned();
    append_str(&mut b, rep_path);
    let r: Vec<String> = vec!["--json-report".to_owned(), a, b];
    assert(str_views(r@) =~= seq!["--json-report"@, "--cov-report=json:"@ + cov_path@, "--json-report-file="@ + rep_path@]);
    r
}


/// The Python module whose `set_trace` a debugger's breakpoints call.
pub open spec fn debugger_module(d: PythonDebugger) -> Seq<char> {
    match d {
        PythonDebugger::Pdb => "pdb"@,
        PythonDebugger::Ipdb => "ipdb"@,
        PythonDebugger::IPython => "IPython.terminal.debugger"@,
        PythonDebugger::Pudb => "pudb"@,
        PythonDebugger::WebPdb => "web_pdb"@,
    }
}

/// With a Python debugger chosen, `breakpoint()` calls that debugger's `set_trace`; breakpoints
/// are switched off (`0`) exactly when no debugger is chosen.
pub proof fn law_breakpoints_call_the_chosen_debugger(debugger: Option<Debugger>)
    requires
        !(debugger matches Some(Debugger::Select)),
    ensures
        debugger matches Some(Debugger::Python(d)) ==> breakpoint_hook(debugger) == debugger_module(d) + ".set_trace"@,
        (breakpoint_hook(debugger) == "0"@) <==> debugger is None,
{
    reveal_strlit("0");
    reveal_strlit(".set_trace");
    reveal_strlit("pdb");
    reveal_strlit("ipdb");
    reveal_strlit("IPython.terminal.debugger");
    reveal_strlit("pudb");
    reveal_strlit("web_pdb");
    reveal_strlit("pdb.set_trace");
    reveal_strlit("ipdb.set_trace");
    reveal_strlit("IPython.terminal.debugger.set_trace");
    reveal_strlit("pudb.set_trace");
    reveal_strlit("web_pdb.set_trace");
    match debugger {
        Some(Debugger::Python(d)) => {
            assert(breakpoint_hook(debugger) =~= debugger_module(d) + ".set_trace"@);
            assert(breakpoint_hook(debugger).len() != 1);
        },
        _ => {},
    }
}

} // verus!
