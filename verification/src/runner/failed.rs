//! The failed tests of the last run: which a run reports, when they are kept, and selecting
//! among them.
use vstd::prelude::*;

use crate::cache::manager::{cache_dir, path_join, join_path};
use crate::runtime::{failed_views, plain_line, plain_text, Debugger, RuntimeOutput};
use crate::test_sets::{contains_name, name_set, str_views};
use crate::text::{find, find_chars, from_chars, lemma_find, lines, slice_chars, split_lines, starts_with,
    starts_with_chars, to_chars, views};

verus! {

/// The name of the failed test a line of pytest's summary reports (`FAILED name` or
/// `FAILED name - message`): what follows `FAILED ` up to the first ` - `, or to the end.
pub open spec fn failed_line_name(plain: Seq<char>) -> Option<Seq<char>> {
    if starts_with(plain, "FAILED "@) {
        let rest = plain.subrange(7, plain.len() as int);
        match find(rest, " - "@) {
            Some(i) => Some(rest.subrange(0, i)),
            None => Some(rest),
        }
    } else {
        None
    }
}

/// The failed tests that output lines report, in order, reading each line without its ANSI
/// escape sequences (a line that is not valid text then reports none).
pub open spec fn failed_names(ls: Seq<Seq<char>>) -> Seq<Seq<char>>
    decreases ls.len(),
{
    if ls.len() == 0 {
        Seq::empty()
    } else {
        let prev = failed_names(ls.drop_last());
        match plain_text(ls.last()) {
            Some(p) => match failed_line_name(p) {
                Some(n) => prev.push(n),
                None => prev,
            },
            None => prev,
        }
    }
}

/// The name of the failed test that a plain line reports.
fn line_failure(plain: &str) -> (r: Option<String>)
    ensures
        match r {
            Some(n) => failed_line_name(plain@) == Some(n@),
            None => failed_line_name(plain@) is None,
        },
{
    let chars = to_chars(plain);
    let prefix = to_chars("FAILED ");
    proof {
        reveal_strlit("FAILED ");
    }
    if !starts_with_chars(chars.as_slice(), prefix.as_slice()) {
        return None;
    }
    let rest = slice_chars(chars.as_slice(), 7, chars.len());
    let sep = to_chars(" - ");
    match find_chars(rest.as_slice(), sep.as_slice()) {
        Some(i) => {
            proof {
                lemma_find(rest@, sep@);
            }
            Some(from_chars(slice_chars(rest.as_slice(), 0, i).as_slice()))
        },
        None => Some(from_chars(rest.as_slice())),
    }
}

/// The failed tests that the output of a run reports.
pub fn failed_in_output(output: &str) -> (r: Vec<String>)
    ensures
        str_views(r@) == failed_names(lines(output@)),
{
    let chars = to_chars(output);
    let ls = split_lines(chars.as_slice());
    let ghost lv = views(ls@);
    let mut r: Vec<String> = Vec::new();
    let mut i: usize = 0;
    assert(lv.take(0) =~= Seq::<Seq<char>>::empty());
    while i < ls.len()
        invariant
            i <= ls@.len(),
            lv == views(ls@),
            lv == lines(output@),
            str_views(r@) == failed_names(lv.take(i as int)),
        decreases ls@.len() - i,
    {
        assert(lv.take(i + 1).drop_last() =~= lv.take(i as int));
        assert(lv.take(i + 1).last() == ls@[i as int]@);
        let line = from_chars(ls[i].as_slice());
        let ghost before = r@;
        match plain_line(line.as_str()) {
            Ok(p) => match line_failure(p.as_str()) {
                Some(n) => {
                    r.push(n);
                    assert(str_views(r@) =~= str_views(before).push(r@.last()@));
                },
                None => {},
            },
            Err(_) => {},
        }
        i = i + 1;
    }
    assert(lv.take(i as int) =~= lv);
    r
}

/// The names of the failed tests a run reports: those its runs found, then those its output
/// lists.
pub open spec fn run_failures(output: RuntimeOutput) -> Seq<Seq<char>> {
    failed_views(output.failed_tests@).map_values(|t: (Seq<char>, Seq<char>)| t.0) + match output.output {
        Some(s) => failed_names(lines(s@)),
        None => Seq::empty(),
    }
}

/// The names of the failed tests a run reports.
pub fn failures_of(output: &RuntimeOutput) -> (r: Vec<String>)
    ensures
        str_views(r@) == run_failures(*output),
{
    let ghost fv = failed_views(output.failed_tests@).map_values(|t: (Seq<char>, Seq<char>)| t.0);
    let mut r: Vec<String> = Vec::new();
    let mut i: usize = 0;
    while i < output.failed_tests.len()
        invariant
            i <= output.failed_tests@.len(),
            fv == failed_views(output.failed_tests@).map_values(|t: (Seq<char>, Seq<char>)| t.0),
            str_views(r@) == fv.take(i as int),
        decreases output.failed_tests@.len() - i,
    {
        let ghost before = r@;
        r.push(output.failed_tests[i].name.clone());
        assert(str_views(r@) =~= str_views(before).push(output.failed_tests@[i as int].name@));
        assert(fv[i as int] == output.failed_tests@[i as int].name@);
        assert(fv.take(i + 1) =~= fv.take(i as int).push(fv[i as int]));
        i = i + 1;
    }
    assert(fv.take(i as int) =~= fv);
    match &output.output {
        Some(s) => {
            let more = failed_in_output(s.as_str());
            let ghost before = str_views(r@);
            let mut j: usize = 0;
            while j < more.len()
                invariant
                    j <= more@.len(),
                    str_views(r@) == before + str_views(more@).take(j as int),
                decreases more@.len() - j,
            {
                let ghost prev = r@;
                r.push(more[j].clone());
                assert(str_views(r@) =~= str_views(prev).push(more@[j as int]@));
                assert(str_views(more@).take(j + 1) =~= str_views(more@).take(j as int).push(more@[j as int]@));
                assert(str_views(r@) =~= before + str_views(more@).take(j + 1));
                j = j + 1;
            }
            assert(str_views(more@).take(j as int) =~= str_views(more@));
        },
        None => {
            assert(str_views(r@) =~= fv + Seq::<Seq<char>>::empty());
        },
    }
    r
}

/// Whether a run replaces the stored failed tests: not when it selected among them, nor when a
/// debugger was attached.
pub fn refreshes_failed(run_failed: bool, debugger: &Option<Debugger>) -> (r: bool)
    ensures
        r == (!run_failed && debugger is None),
{
    !run_failed && debugger.is_none()
}

/// The items of `search` whose test, named `runtime` at the same index, is among `failed`, in
/// their order.
pub open spec fn keep_failed(search: Seq<Seq<char>>, runtime: Seq<Seq<char>>, failed: Set<Seq<char>>) -> Seq<Seq<char>>
    decreases search.len(),
{
    if search.len() == 0 {
        Seq::empty()
    } else {
        let prev = keep_failed(search.drop_last(), runtime.drop_last(), failed);
        if failed.contains(runtime[search.len() - 1]) {
            prev.push(search.last())
        } else {
            prev
        }
    }
}

/// What a selection among the failed tests picks from: the items of `search` whose test, named
/// `runtime` at the same index, failed.
pub fn failed_candidates(search: &[String], runtime: &[String], failed: &[String]) -> (r: Vec<String>)
    requires
        search@.len() == runtime@.len(),
    ensures
        str_views(r@) == keep_failed(str_views(search@), str_views(runtime@), name_set(failed@)),
{
    let ghost sv = str_views(search@);
    let ghost rv = str_views(runtime@);
    let mut r: Vec<String> = Vec::new();
    let mut i: usize = 0;
    assert(sv.take(0) =~= Seq::<Seq<char>>::empty());
    while i < search.len()
        invariant
            i <= search@.len(),
            search@.len() == runtime@.len(),
            sv == str_views(search@),
            rv == str_views(runtime@),
            str_views(r@) == keep_failed(sv.take(i as int), rv.take(i as int), name_set(failed@)),
        decreases search@.len() - i,
    {
        assert(sv.take(i + 1).drop_last() =~= sv.take(i as int));
        assert(rv.take(i + 1).drop_last() =~= rv.take(i as int));
        assert(rv.take(i + 1)[i as int] == runtime@[i as int]@);
        assert(sv.take(i + 1).last() == search@[i as int]@);
        if contains_name(failed, &runtime[i]) {
            let ghost before = r@;
            r.push(search[i].clone());
            assert(str_views(r@) =~= str_views(before).push(search@[i as int]@));
        }
        i = i + 1;
    }
    assert(sv.take(i as int) =~= sv);
    assert(rv.take(i as int) =~= rv);
    r
}

/// The file that keeps the failed tests of a project's last run.
pub open spec fn failed_tests_file(home: Seq<char>, project_id: Seq<char>) -> Seq<char> {
    path_join(cache_dir(home), project_id + "-failed-tests.json"@)
}

/// The path of the file that keeps the failed tests of project `project_id`.
pub fn failed_tests_path(home: &str, project_id: &str) -> (r: String)
    ensures
        r@ == failed_tests_file(home@, project_id@),
{
    let dir = join_path(home, ".fzt");
    let mut name = project_id.to_owned();
    crate::text::append_str(&mut name, "-failed-tests.json");
    join_path(dir.as_str(), name.as_str())
}

} // verus!
