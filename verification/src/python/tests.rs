//! Python tests found by reading the test files of a project.
use vstd::prelude::*;

use crate::errors::FztError;
use crate::external::{opt_views, parse_python_module, python_module_defs, regex_is_match, test_name_matches};
use crate::runtime::pytest_report::insert_name;
use crate::test_sets::{distinct_names, name_set, same_names, str_views, TestSets};
use crate::text::{append_str, ends_with, ends_with_chars, from_chars, slice_chars, starts_with, starts_with_chars, to_chars};

verus! {

/// The paths among `keys` whose existence answer in `present` is `false`.
pub open spec fn missing_keys(keys: Seq<String>, present: Seq<bool>) -> Set<Seq<char>> {
    Set::new(|k: Seq<char>| exists|i: int| 0 <= i < keys.len() && #[trigger] keys[i]@ == k && !present[i])
}

/// The paths among `paths` whose existence answer in `present` is `false`.
pub open spec fn missing_paths(paths: Seq<Seq<char>>, present: Seq<bool>) -> Set<Seq<char>> {
    Set::new(|k: Seq<char>| exists|i: int| 0 <= i < paths.len() && #[trigger] paths[i] == k && !present[i])
}

/// A test: a file path and a test name.
pub struct PythonTest {
    path: String,
    test: String,
}

impl PythonTest {
    pub fn new(path: String, test: String) -> (r: PythonTest)
        ensures
            r.path_view() == path@,
            r.test_view() == test@,
    {
        PythonTest { path, test }
    }

    pub closed spec fn path_view(&self) -> Seq<char> {
        self.path@
    }

    pub closed spec fn test_view(&self) -> Seq<char> {
        self.test@
    }

    /// What pytest is given to run the test: `path::test`.
    pub fn runtime_argument(&self) -> (r: String)
        ensures
            r@ == self.path_view() + "::"@ + self.test_view(),
    {
        let mut r = self.path.clone();
        append_str(&mut r, "::");
        append_str(&mut r, self.test.as_str());
        r
    }

    /// What the search engine shows for the test: `path::test`.
    pub fn search_item_name(&self) -> (r: String)
        ensures
            r@ == self.path_view() + "::"@ + self.test_view(),
    {
        self.runtime_argument()
    }
}

/// The test functions of Python source: its top-level function definitions whose names start
/// with `test`; nothing when the source does not parse.
pub open spec fn source_tests(source: Seq<char>) -> Option<Set<Seq<char>>> {
    match python_module_defs(source) {
        Some(defs) => Some(
            Set::new(|n: Seq<char>| exists|i: int| 0 <= i < defs.len() && #[trigger] defs[i] == Some(n) && starts_with(n, "test"@)),
        ),
        None => None,
    }
}

/// The names of the test functions defined at the top level of Python source.
pub fn collect_tests_from_source(source: &str) -> (r: Result<Vec<String>, FztError>)
    ensures
        match r {
            Ok(v) => source_tests(source@) == Some(name_set(v@)) && distinct_names(v@),
            Err(e) => source_tests(source@) is None && e is PythonParsingError,
        },
{
    let defs = match parse_python_module(source) {
        Ok(d) => d,
        Err(e) => return Err(FztError::PythonParsingError(e)),
    };
    let ghost ds = opt_views(defs@);
    let prefix = to_chars("test");
    let mut tests: Vec<String> = Vec::new();
    let mut i: usize = 0;
    while i < defs.len()
        invariant
            i <= defs@.len(),
            ds == opt_views(defs@),
            prefix@ == "test"@,
            distinct_names(tests@),
            name_set(tests@) == Set::new(|n: Seq<char>| exists|k: int| 0 <= k < i && #[trigger] ds[k] == Some(n) && starts_with(n, "test"@)),
        decreases defs@.len() - i,
    {
        let ghost before = name_set(tests@);
        let ghost added: Option<Seq<char>> = None;
        match &defs[i] {
            Some(name) => {
                assert(ds[i as int] == Some(name@));
                let chars = to_chars(name.as_str());
                if starts_with_chars(chars.as_slice(), prefix.as_slice()) {
                    insert_name(&mut tests, name.clone());
                    proof {
                        added = Some(name@);
                    }
                }
            },
            None => {
                assert(ds[i as int] is None);
            },
        }
        assert(name_set(tests@) == match added {
            Some(n) => before.insert(n),
            None => before,
        });
        assert(name_set(tests@) =~= Set::new(|n: Seq<char>| exists|k: int| 0 <= k < i + 1 && #[trigger] ds[k] == Some(n) && starts_with(n, "test"@))) by {
            assert forall|n: Seq<char>| (exists|k: int| 0 <= k < i + 1 && #[trigger] ds[k] == Some(n) && starts_with(n, "test"@)) implies name_set(tests@).contains(n) by {
                let k = choose|k: int| 0 <= k < i + 1 && #[trigger] ds[k] == Some(n) && starts_with(n, "test"@);
                if k < i {
                    assert(before.contains(n));
                }
            }
            assert forall|n: Seq<char>| name_set(tests@).contains(n) implies (exists|k: int| 0 <= k < i + 1 && #[trigger] ds[k] == Some(n) && starts_with(n, "test"@)) by {
                if before.contains(n) {
                    let k = choose|k: int| 0 <= k < i && #[trigger] ds[k] == Some(n) && starts_with(n, "test"@);
                    assert(ds[k] == Some(n));
                } else {
                    assert(ds[i as int] == Some(n));
                }
            }
        }
        i = i + 1;
    }
    assert(name_set(tests@) =~= source_tests(source@)->0);
    Ok(tests)
}

/// The pattern of test file names.
pub open spec fn test_file_pattern() -> Seq<char> {
    "^(test_.*\\.py|.*_test\\.py)$"@
}

/// Whether a file is a test file: its extension is `py` and its name matches the pattern of test
/// file names (`test_name_matches`). The pattern is compiled for each file, as the walk does; it
/// always compiles, so no error comes back.
pub fn is_test_file(extension: Option<&str>, file_name: &str) -> (r: Result<bool, FztError>)
    ensures
        match extension {
            None => r == Ok::<bool, FztError>(false),
            Some(ext) => if ext@ != "py"@ {
                r == Ok::<bool, FztError>(false)
            } else {
                r == Ok::<bool, FztError>(test_name_matches(file_name@))
            },
        },
{
    match extension {
        None => Ok(false),
        Some(ext) => {
            let py = "py".to_owned();
            if ext.to_owned() != py {
                return Ok(false);
            }
            match regex_is_match("^(test_.*\\.py|.*_test\\.py)$", file_name) {
                Ok(b) => Ok(b),
                Err(e) => Err(FztError::Regex(e)),
            }
        },
    }
}

/// The path of a file relative to the root folder: the full path without the root and the `/`
/// after it.
pub open spec fn relative_path(root: Seq<char>, full: Seq<char>) -> Option<Seq<char>> {
    if starts_with(full, root) && starts_with(full.subrange(root.len() as int, full.len() as int), "/"@) {
        Some(full.subrange(root.len() as int + 1, full.len() as int))
    } else {
        None
    }
}

/// The path of a file relative to the root folder; an error naming the file when it is not under
/// the root.
pub fn relative_test_path(root_folder: &str, full_path: &str) -> (r: Result<String, FztError>)
    ensures
        match r {
            Ok(p) => relative_path(root_folder@, full_path@) == Some(p@),
            Err(e) => relative_path(root_folder@, full_path@) is None && (e matches FztError::GeneralParsingError(m)
                && m@ == "File path could not be parsed: "@ + full_path@),
        },
{
    let full = to_chars(full_path);
    let root = to_chars(root_folder);
    let slash = to_chars("/");
    if starts_with_chars(full.as_slice(), root.as_slice()) {
        let rest = slice_chars(full.as_slice(), root.len(), full.len());
        if starts_with_chars(rest.as_slice(), slash.as_slice()) {
            proof {
                reveal_strlit("/");
            }
            let rel = slice_chars(rest.as_slice(), 1, rest.len());
            assert(rel@ =~= full@.subrange(root@.len() as int + 1, full@.len() as int));
            return Ok(from_chars(rel.as_slice()));
        }
    }
    let mut m = "File path could not be parsed: ".to_owned();
    append_str(&mut m, full_path);
    Err(FztError::GeneralParsingError(m))
}

/// What reading a changed file did to the tests.
#[derive(Debug, Clone, Copy, PartialEq, Eq)]
pub enum FileChange {
    /// Nothing changed.
    Unchanged,
    /// The file was not known; its tests were added.
    Added,
    /// The file's tests changed and were replaced.
    Replaced,
    /// A change was found while only checking for one; nothing was changed.
    Found,
}

/// Python tests by file, with the time (in milliseconds since the epoch) they were last read.
pub struct PythonTests {
    pub root_folder: String,
    pub timestamp: u128,
    pub tests: TestSets,
}

impl PythonTests {
    pub fn new(root_folder: String, timestamp: u128, tests: TestSets) -> (r: PythonTests)
        ensures
            r.root_folder@ == root_folder@,
            r.timestamp == timestamp,
            r.tests@ == tests@,
    {
        PythonTests { root_folder, timestamp, tests }
    }

    /// No tests, never read.
    pub fn new_empty(root_folder: String) -> (r: PythonTests)
        ensures
            r.root_folder@ == root_folder@,
            r.timestamp == 0,
            r.tests@ == Map::<Seq<char>, Set<Seq<char>>>::empty(),
    {
        PythonTests { root_folder, timestamp: 0, tests: TestSets::new() }
    }

    /// Removes the given paths; whether there were any to remove.
    pub fn remove_paths(&mut self, deleted: &[String]) -> (r: bool)
        ensures
            final(self).tests@ == old(self).tests@.remove_keys(name_set(deleted@)),
            final(self).root_folder@ == old(self).root_folder@,
            final(self).timestamp == old(self).timestamp,
            r == (deleted@.len() > 0),
    {
        let mut i: usize = 0;
        while i < deleted.len()
            invariant
                i <= deleted@.len(),
                self.tests@ == old(self).tests@.remove_keys(name_set(deleted@.subrange(0, i as int))),
                self.root_folder@ == old(self).root_folder@,
                self.timestamp == old(self).timestamp,
            decreases deleted@.len() - i,
        {
            self.tests.remove(&deleted[i]);
            assert(name_set(deleted@.subrange(0, i + 1)) =~= name_set(deleted@.subrange(0, i as int)).insert(deleted@[i as int]@)) by {
                assert(str_views(deleted@.subrange(0, i + 1)) =~= str_views(deleted@.subrange(0, i as int)).push(deleted@[i as int]@));
                str_views(deleted@.subrange(0, i as int)).lemma_push_to_set_commute(deleted@[i as int]@);
            }
            assert(self.tests@ =~= old(self).tests@.remove_keys(name_set(deleted@.subrange(0, i + 1))));
            i = i + 1;
        }
        assert(deleted@.subrange(0, i as int) =~= deleted@);
        deleted.len() > 0
    }

    /// Forgets the paths of `keys` whose existence answer in `present` is `false`; whether any
    /// of them was known.
    pub fn remove_missing(&mut self, keys: &[String], present: &[bool]) -> (r: bool)
        requires
            keys@.len() == present@.len(),
        ensures
            final(self).tests@ == old(self).tests@.remove_keys(missing_keys(keys@, present@)),
            r == !missing_keys(keys@, present@).intersect(old(self).tests@.dom()).is_empty(),
            final(self).root_folder@ == old(self).root_folder@,
            final(self).timestamp == old(self).timestamp,
    {
        let ghost dom = self.tests@.dom();
        let mut deleted: Vec<String> = Vec::new();
        let mut i: usize = 0;
        while i < keys.len()
            invariant
                i <= keys@.len(),
                keys@.len() == present@.len(),
                dom == self.tests@.dom(),
                name_set(deleted@) == missing_keys(keys@.subrange(0, i as int), present@.subrange(0, i as int)).intersect(dom),
            decreases keys@.len() - i,
        {
            let ghost before = deleted@;
            let known = self.tests.contains_key(&keys[i]);
            if !present[i] && known {
                deleted.push(keys[i].clone());
                assert(str_views(deleted@) =~= str_views(before).push(keys@[i as int]@));
                proof {
                    str_views(before).lemma_push_to_set_commute(keys@[i as int]@);
                }
            }
            assert(missing_keys(keys@.subrange(0, i + 1), present@.subrange(0, i + 1)).intersect(dom) =~= if !present@[i as int] && dom.contains(keys@[i as int]@) {
                missing_keys(keys@.subrange(0, i as int), present@.subrange(0, i as int)).intersect(dom).insert(keys@[i as int]@)
            } else {
                missing_keys(keys@.subrange(0, i as int), present@.subrange(0, i as int)).intersect(dom)
            }) by {
                let ks = keys@.subrange(0, i + 1);
                let ps = present@.subrange(0, i + 1);
                assert forall|k: Seq<char>| missing_keys(ks, ps).contains(k) implies (missing_keys(keys@.subrange(0, i as int), present@.subrange(0, i as int)).contains(k) || (k == keys@[i as int]@ && !present@[i as int])) by {
                    let j = choose|j: int| 0 <= j < ks.len() && #[trigger] ks[j]@ == k && !ps[j];
                    if j < i {
                        assert(keys@.subrange(0, i as int)[j]@ == k);
                    }
                }
                assert forall|k: Seq<char>| missing_keys(keys@.subrange(0, i as int), present@.subrange(0, i as int)).contains(k) implies missing_keys(ks, ps).contains(k) by {
                    let j = choose|j: int| 0 <= j < i && #[trigger] keys@.subrange(0, i as int)[j]@ == k && !present@.subrange(0, i as int)[j];
                    assert(ks[j]@ == k);
                }
                if !present@[i as int] {
                    assert(ks[i as int]@ == keys@[i as int]@);
                }
            }
            i = i + 1;
        }
        assert(keys@.subrange(0, i as int) =~= keys@);
        assert(present@.subrange(0, i as int) =~= present@);
        let r = deleted.len() > 0;
        proof {
            if deleted@.len() > 0 {
                assert(str_views(deleted@)[0] == deleted@[0]@);
                assert(name_set(deleted@).contains(deleted@[0]@));
            } else {
                assert(name_set(deleted@) =~= Set::empty());
            }
        }
        let ghost old_tests = self.tests@;
        self.remove_paths(deleted.as_slice());
        assert(self.tests@ =~= old_tests.remove_keys(missing_keys(keys@, present@)));
        r
    }

    /// The known paths, in the order of the stored tests, each once.
    pub fn known_paths(&self) -> (r: Vec<String>)
        ensures
            str_views(r@) == self.tests.key_seq(),
            name_set(r@) == self.tests@.dom(),
            distinct_names(r@),
    {
        self.tests.keys()
    }

    /// Forgets the files that no longer exist; whether there were any. `present` answers, for
    /// each known path in the order of `known_paths`, whether the file still exists (reading the
    /// disk is the caller's part).
    pub fn filter_out_deleted_files(&mut self, present: &[bool]) -> (r: bool)
        requires
            present@.len() == old(self).tests.key_seq().len(),
        ensures
            final(self).tests@ == old(self).tests@.remove_keys(missing_paths(old(self).tests.key_seq(), present@)),
            r == !missing_paths(old(self).tests.key_seq(), present@).is_empty(),
            final(self).root_folder@ == old(self).root_folder@,
            final(self).timestamp == old(self).timestamp,
    {
        let keys = self.known_paths();
        let ghost ks = self.tests.key_seq();
        let ghost dom = self.tests@.dom();
        proof {
            assert(missing_keys(keys@, present@) =~= missing_paths(ks, present@)) by {
                assert forall|k: Seq<char>| missing_keys(keys@, present@).contains(k) implies missing_paths(ks, present@).contains(k) by {
                    let i = choose|i: int| 0 <= i < keys@.len() && #[trigger] keys@[i]@ == k && !present@[i];
                    assert(str_views(keys@)[i] == ks[i]);
                }
                assert forall|k: Seq<char>| missing_paths(ks, present@).contains(k) implies missing_keys(keys@, present@).contains(k) by {
                    let i = choose|i: int| 0 <= i < ks.len() && #[trigger] ks[i] == k && !present@[i];
                    assert(str_views(keys@)[i] == keys@[i]@);
                }
            }
            assert(missing_paths(ks, present@).intersect(dom) =~= missing_paths(ks, present@)) by {
                assert forall|k: Seq<char>| missing_paths(ks, present@).contains(k) implies dom.contains(k) by {
                    let i = choose|i: int| 0 <= i < ks.len() && #[trigger] ks[i] == k && !present@[i];
                    assert(str_views(keys@)[i] == k);
                    assert(name_set(keys@).contains(k));
                }
            }
        }
        self.remove_missing(keys.as_slice(), present)
    }

    /// A file's modification or creation time calls for reading it: it is later than the time
    /// the tests were read.
    pub fn changed_since_read(&self, time: u128) -> (r: bool)
        ensures
            r == (time > self.timestamp),
    {
        time > self.timestamp
    }

    /// Applies the tests read from a modified file at `path`: an unknown file is added; a known
    /// file whose tests differ is replaced, or reported as a change found when only checking.
    pub fn apply_modified(&mut self, path: &String, new_tests: Vec<String>, only_check_for_change: bool) -> (r: FileChange)
        requires
            distinct_names(new_tests@),
        ensures
            !old(self).tests@.dom().contains(path@) ==> r == FileChange::Added
                && final(self).tests@ == old(self).tests@.insert(path@, name_set(new_tests@)),
            old(self).tests@.dom().contains(path@) && old(self).tests@[path@] == name_set(new_tests@) ==> r
                == FileChange::Unchanged && final(self).tests@ == old(self).tests@,
            old(self).tests@.dom().contains(path@) && old(self).tests@[path@] != name_set(new_tests@) ==> if only_check_for_change {
                r == FileChange::Found && final(self).tests@ == old(self).tests@
            } else {
                r == FileChange::Replaced && final(self).tests@ == old(self).tests@.insert(path@, name_set(new_tests@))
            },
            final(self).root_folder@ == old(self).root_folder@,
            final(self).timestamp == old(self).timestamp,
    {
        let same = match self.tests.get(path) {
            None => {
                self.tests.insert_names(path.clone(), new_tests);
                return FileChange::Added;
            },
            Some(old_tests) => same_names(&new_tests, old_tests),
        };
        if same {
            FileChange::Unchanged
        } else if only_check_for_change {
            FileChange::Found
        } else {
            self.tests.insert_names(path.clone(), new_tests);
            FileChange::Replaced
        }
    }

    /// Applies the tests read from a newly created file at `path`: when it has tests, they are
    /// set for the file, or reported as a change found when only checking.
    pub fn apply_created(&mut self, path: &String, new_tests: Vec<String>, only_check_for_change: bool) -> (r: FileChange)
        requires
            distinct_names(new_tests@),
        ensures
            new_tests@.len() == 0 ==> r == FileChange::Unchanged && final(self).tests@ == old(self).tests@,
            new_tests@.len() > 0 ==> if only_check_for_change {
                r == FileChange::Found && final(self).tests@ == old(self).tests@
            } else {
                r == FileChange::Added && final(self).tests@ == old(self).tests@.insert(path@, name_set(new_tests@))
            },
            final(self).root_folder@ == old(self).root_folder@,
            final(self).timestamp == old(self).timestamp,
    {
        if new_tests.len() == 0 {
            FileChange::Unchanged
        } else if only_check_for_change {
            FileChange::Found
        } else {
            self.tests.insert_names(path.clone(), new_tests);
            FileChange::Added
        }
    }

    /// Ends a walk: after a change the tests count as read at `now`.
    pub fn finish_update(&mut self, updated: bool, now: u128)
        ensures
            final(self).timestamp == if updated { now } else { old(self).timestamp },
            final(self).tests@ == old(self).tests@,
            final(self).root_folder@ == old(self).root_folder@,
    {
        if updated {
            self.timestamp = now;
        }
    }

    /// The tests, file after file.
    pub fn tests(&self) -> (r: Vec<PythonTest>)
        ensures
            forall|p: Seq<char>, t: Seq<char>|
                (self.tests@.dom().contains(p) && self.tests@[p].contains(t)) <==> #[trigger] lists_test(r@, p, t),
    {
        let entries = self.tests.entries();
        let mut out: Vec<PythonTest> = Vec::new();
        let mut i: usize = 0;
        while i < entries.len()
            invariant
                i <= entries@.len(),
                self.tests@ == crate::test_sets::entries_map(entries@),
                crate::test_sets::distinct_keys(entries@),
                forall|p: Seq<char>, t: Seq<char>| in_entries(entries@, i as int, p, t) <==> #[trigger] lists_test(out@, p, t),
            decreases entries@.len() - i,
        {
            let (path, names) = &entries[i];
            let ghost start = out@;
            let mut j: usize = 0;
            while j < names.len()
                invariant
                    j <= names@.len(),
                    out@.len() == start.len() + j,
                    forall|q: int| 0 <= q < start.len() ==> out@[q] == start[q],
                    forall|q: int| 0 <= q < j ==> (#[trigger] out@[start.len() + q]).path_view() == path@ && out@[start.len() + q].test_view() == names@[q]@,
                decreases names@.len() - j,
            {
                out.push(PythonTest::new(path.clone(), names[j].clone()));
                j = j + 1;
            }
            proof {
                assert forall|p: Seq<char>, t: Seq<char>| in_entries(entries@, i + 1, p, t) <==> #[trigger] lists_test(out@, p, t) by {
                    if in_entries(entries@, i + 1, p, t) {
                        let k = choose|k: int| 0 <= k < i + 1 && entries@[k].0@ == p && name_set(entries@[k].1@).contains(t);
                        if k == i {
                            assert(str_views(names@).contains(t));
                            let q = choose|q: int| 0 <= q < str_views(names@).len() && str_views(names@)[q] == t;
                            assert(out@[start.len() + q].path_view() == p);
                            assert(out@[start.len() + q].test_view() == t);
                        } else {
                            assert(in_entries(entries@, i as int, p, t));
                            assert(lists_test(start, p, t));
                            let jj = choose|jj: int| 0 <= jj < start.len() && (#[trigger] start[jj]).path_view() == p && start[jj].test_view() == t;
                            assert(out@[jj] == start[jj]);
                        }
                    }
                    if lists_test(out@, p, t) {
                        let jj = choose|jj: int| 0 <= jj < out@.len() && (#[trigger] out@[jj]).path_view() == p && out@[jj].test_view() == t;
                        if jj < start.len() {
                            assert(out@[jj] == start[jj]);
                            assert(lists_test(start, p, t));
                        } else {
                            let q = jj - start.len();
                            assert(out@[start.len() + q] == out@[jj]);
                            assert(str_views(names@)[q] == t);
                            assert(name_set(entries@[i as int].1@).contains(t));
                        }
                    }
                }
            }
            i = i + 1;
        }
        proof {
            assert forall|p: Seq<char>, t: Seq<char>|
                (self.tests@.dom().contains(p) && self.tests@[p].contains(t)) <==> #[trigger] lists_test(out@, p, t) by {
                if self.tests@.dom().contains(p) {
                    let k = crate::test_sets::key_index(entries@, p);
                    crate::test_sets::lemma_key_index(entries@, k);
                }
                if in_entries(entries@, entries@.len() as int, p, t) {
                    let k = choose|k: int| 0 <= k < entries@.len() && entries@[k].0@ == p && name_set(entries@[k].1@).contains(t);
                    crate::test_sets::lemma_key_index(entries@, k);
                }
            }
        }
        out
    }
}

/// One of the first `n` entries is for path `p` and holds the test `t`.
pub open spec fn in_entries(e: Seq<(String, Vec<String>)>, n: int, p: Seq<char>, t: Seq<char>) -> bool {
    exists|k: int| 0 <= k < n && e[k].0@ == p && name_set(e[k].1@).contains(t)
}

/// `v` lists the test `t` of path `p`.
pub open spec fn lists_test(v: Seq<PythonTest>, p: Seq<char>, t: Seq<char>) -> bool {
    exists|j: int| 0 <= j < v.len() && (#[trigger] v[j]).path_view() == p && v[j].test_view() == t
}

/// Finds Python tests by asking pytest to list them.
pub struct PyTestParser {
    root_dir: String,
}

impl PyTestParser {
    pub fn new(root_dir: String) -> (r: PyTestParser)
        ensures
            r.root() == root_dir@,
    {
        PyTestParser { root_dir }
    }

    pub closed spec fn root(&self) -> Seq<char> {
        self.root_dir@
    }

    /// The tests of the output of `pytest --co -q`, read at `timestamp` (milliseconds since the
    /// Unix epoch).
    pub fn parse_python_tests(&self, pytest_out: &str, timestamp: u128) -> (r: PythonTests)
        requires
            crate::python::pytest_parser::well_formed_listing(pytest_out@),
        ensures
            r.root_folder@ == self.root(),
            r.timestamp == timestamp,
            r.tests@ == crate::python::pytest_parser::collect_map(crate::python::pytest_parser::listing(pytest_out@)),
    {
        let listed = crate::python::pytest_parser::PyTestParser::parse_python_tests(pytest_out);
        PythonTests::new(self.root_dir.clone(), timestamp, listed.tests)
    }
}

/// A test file found under the root folder: its path relative to the root, its full path, its
/// modification and creation times where the platform gives them, and its source, read when one
/// of those times is later than the time the tests were read.
pub struct ScannedFile {
    pub path: String,
    pub full_path: String,
    pub modified: Option<u128>,
    pub created: Option<u128>,
    pub source: Option<String>,
}

/// The name of a file: what follows the last `/` of its path.
pub open spec fn file_name_of(f: Seq<char>) -> Seq<char>
    decreases f.len(),
{
    if f.len() == 0 || f.last() == '/' {
        Seq::empty()
    } else {
        file_name_of(f.drop_last()).push(f.last())
    }
}

/// The name of a file.
fn file_name_chars(f: &[char]) -> (r: Vec<char>)
    ensures
        r@ == file_name_of(f@),
{
    let mut i: usize = f.len();
    assert(f@.subrange(i as int, f@.len() as int) =~= Seq::<char>::empty());
    assert(f@.take(i as int) =~= f@);
    while i > 0 && f[i - 1] != '/'
        invariant
            i <= f@.len(),
            file_name_of(f@) == file_name_of(f@.take(i as int)) + f@.subrange(i as int, f@.len() as int),
        decreases i,
    {
        let ghost t = f@.take(i as int);
        assert(t.drop_last() =~= f@.take(i - 1));
        assert(t.last() == f@[i - 1]);
        assert(f@.subrange(i - 1, f@.len() as int) =~= seq![f@[i - 1]] + f@.subrange(i as int, f@.len() as int));
        assert(file_name_of(t) == file_name_of(f@.take(i - 1)).push(f@[i - 1]));
        assert(file_name_of(f@.take(i - 1)).push(f@[i - 1]) + f@.subrange(i as int, f@.len() as int)
            =~= file_name_of(f@.take(i - 1)) + f@.subrange(i - 1, f@.len() as int));
        i = i - 1;
    }
    assert(file_name_of(f@.take(i as int)) =~= Seq::<char>::empty()) by {
        if i > 0 {
            assert(f@.take(i as int).last() == f@[i - 1]);
        }
    }
    assert(file_name_of(f@) =~= f@.subrange(i as int, f@.len() as int));
    slice_chars(f, i, f.len())
}

/// A file name with the extension `py`: it ends with `.py` after at least one character.
pub open spec fn has_py_extension(name: Seq<char>) -> bool {
    name.len() > 3 && ends_with(name, ".py"@)
}

/// No component of a relative path starts with `.`: a hidden file or directory.
pub open spec fn no_hidden_component(p: Seq<char>) -> bool {
    forall|i: int| 0 <= i < p.len() && #[trigger] p[i] == '.' ==> i > 0 && p[i - 1] != '/'
}

/// Whether no component of a relative path is hidden.
fn has_no_hidden_component(p: &[char]) -> (r: bool)
    ensures
        r == no_hidden_component(p@),
{
    let mut i: usize = 0;
    while i < p.len()
        invariant
            i <= p@.len(),
            forall|j: int| 0 <= j < i && #[trigger] p@[j] == '.' ==> j > 0 && p@[j - 1] != '/',
        decreases p@.len() - i,
    {
        if p[i] == '.' && (i == 0 || p[i - 1] == '/') {
            return false;
        }
        i = i + 1;
    }
    true
}

/// A scanned file found by walking the root folder: its path is its full path relative to the
/// root, no component of that path is hidden, and its name is the name of a test file.
pub open spec fn scanned_ok(root: Seq<char>, f: ScannedFile) -> bool {
    &&& relative_path(root, f.full_path@) == Some(f.path@)
    &&& no_hidden_component(f.path@)
    &&& has_py_extension(file_name_of(f.full_path@))
    &&& test_name_matches(file_name_of(f.full_path@))
}

/// Every scanned file was found by walking the root folder.
pub open spec fn scan_well_formed(root: Seq<char>, files: Seq<ScannedFile>) -> bool {
    forall|i: int| 0 <= i < files.len() ==> scanned_ok(root, #[trigger] files[i])
}

/// The scanned file at `full_path` under the root folder `root`, with its times and no source yet;
/// nothing when it is no test file or lies in a hidden directory; an error when a test file is
/// not under the root.
pub fn scan_file(root: &str, full_path: &str, modified: Option<u128>, created: Option<u128>) -> (r: Result<Option<ScannedFile>, FztError>)
    ensures
        ({
            let name = file_name_of(full_path@);
            match r {
                Ok(Some(f)) => scanned_ok(root@, f) && f.full_path@ == full_path@ && f.modified == modified
                    && f.created == created && f.source is None,
                Ok(None) => !has_py_extension(name) || !test_name_matches(name) || (relative_path(root@, full_path@) is Some
                    && !no_hidden_component(relative_path(root@, full_path@)->0)),
                Err(e) => has_py_extension(name) && test_name_matches(name) && relative_path(root@, full_path@) is None
                    && e is GeneralParsingError,
            }
        }),
{
    let full = to_chars(full_path);
    let name = file_name_chars(full.as_slice());
    let py = to_chars(".py");
    if !(name.len() > 3 && ends_with_chars(name.as_slice(), py.as_slice())) {
        return Ok(None);
    }
    let name_text = from_chars(name.as_slice());
    let matched = match regex_is_match("^(test_.*\\.py|.*_test\\.py)$", name_text.as_str()) {
        Ok(b) => b,
        Err(e) => return Err(FztError::Regex(e)),
    };
    if !matched {
        return Ok(None);
    }
    let path = relative_test_path(root, full_path)?;
    let p = to_chars(path.as_str());
    if !has_no_hidden_component(p.as_slice()) {
        return Ok(None);
    }
    Ok(Some(ScannedFile { path, full_path: full_path.to_owned(), modified, created, source: None }))
}

/// What was read from the disk to bring the tests up to date: an existence answer for each
/// known path, the test files under the root folder in the order they were walked, and the
/// time when the walk ended.
pub struct DiskScan {
    pub known: Vec<String>,
    pub present: Vec<bool>,
    pub files: Vec<ScannedFile>,
    pub now: u128,
}

/// A time that is later than `ts`.
pub open spec fn later(t: Option<u128>, ts: u128) -> bool {
    t matches Some(x) && x > ts
}

/// The tests of a scanned file's source, or nothing when it has none or it does not parse.
pub open spec fn scanned_tests(f: ScannedFile) -> Option<Set<Seq<char>>> {
    match f.source {
        Some(src) => source_tests(src@),
        None => None,
    }
}

/// Every file whose times call for reading it comes with its source.
pub open spec fn sources_ready(files: Seq<ScannedFile>, ts: u128) -> bool {
    forall|i: int| 0 <= i < files.len() && (later(files[i].modified, ts) || later(files[i].created, ts))
        ==> (#[trigger] files[i]).source is Some
}

/// The state of an update while walking the files: the tests, whether they changed, whether a
/// change was found while only checking, whether a source failed to parse, and the full paths
/// of the files whose tests were replaced.
pub struct ScanState {
    pub tests: Map<Seq<char>, Set<Seq<char>>>,
    pub updated: bool,
    pub found: bool,
    pub failed: bool,
    pub replaced: Seq<Seq<char>>,
}

/// One scanned file applied to the state: a modification time later than `ts` reads the file and
/// adds it (then its creation time is not looked at), keeps it, replaces its tests, or reports a
/// change when only checking; then a creation time later than `ts` reads it again and adds its
/// tests if it has any, or reports a change when only checking. A source that does not parse
/// stops the walk.
pub open spec fn file_step(st: ScanState, ts: u128, f: ScannedFile, only: bool) -> ScanState {
    let p = f.path@;
    let after_modified: (ScanState, bool) = if later(f.modified, ts) {
        match scanned_tests(f) {
            None => (ScanState { failed: true, ..st }, true),
            Some(s) => if !st.tests.dom().contains(p) {
                (ScanState { tests: st.tests.insert(p, s), updated: true, ..st }, true)
            } else if st.tests[p] == s {
                (st, false)
            } else if only {
                (ScanState { found: true, ..st }, true)
            } else {
                (ScanState { tests: st.tests.insert(p, s), updated: true, replaced: st.replaced.push(f.full_path@), ..st }, false)
            },
        }
    } else {
        (st, false)
    };
    let st2 = after_modified.0;
    if after_modified.1 || !later(f.created, ts) {
        st2
    } else {
        match scanned_tests(f) {
            None => ScanState { failed: true, ..st2 },
            Some(s) => if s == Set::<Seq<char>>::empty() {
                st2
            } else if only {
                ScanState { found: true, ..st2 }
            } else {
                ScanState { tests: st2.tests.insert(p, s), updated: true, ..st2 }
            },
        }
    }
}

/// The state after walking `files` from `st`; the walk stops at a found change or a failure.
pub open spec fn scan_files(st: ScanState, ts: u128, files: Seq<ScannedFile>, only: bool) -> ScanState
    decreases files.len(),
{
    if files.len() == 0 {
        st
    } else {
        let prev = scan_files(st, ts, files.drop_last(), only);
        if prev.found || prev.failed {
            prev
        } else {
            file_step(prev, ts, files.last(), only)
        }
    }
}

/// Once the walk has stopped, the files after that change nothing.
proof fn lemma_scan_stopped(st: ScanState, ts: u128, files: Seq<ScannedFile>, only: bool, i: int, j: int)
    requires
        0 <= i <= j <= files.len(),
        scan_files(st, ts, files.take(i), only).found || scan_files(st, ts, files.take(i), only).failed,
    ensures
        scan_files(st, ts, files.take(j), only) == scan_files(st, ts, files.take(i), only),
    decreases j - i,
{
    if j > i {
        lemma_scan_stopped(st, ts, files, only, i, j - 1);
        assert(files.take(j).drop_last() =~= files.take(j - 1));
    }
}

/// The walk starts from the tests without the paths found missing.
pub open spec fn scan_start(tests: Map<Seq<char>, Set<Seq<char>>>, scan: DiskScan) -> ScanState {
    ScanState {
        tests: tests.remove_keys(missing_keys(scan.known@, scan.present@)),
        updated: false,
        found: false,
        failed: false,
        replaced: Seq::empty(),
    }
}

/// Whether known paths were found missing.
pub open spec fn some_missing(tests: Map<Seq<char>, Set<Seq<char>>>, scan: DiskScan) -> bool {
    !missing_keys(scan.known@, scan.present@).intersect(tests.dom()).is_empty()
}

/// What an update from a disk scan leaves and returns, from the tests `old` read at `ts`:
/// the missing paths are forgotten; when only checking and some were, the update stops there
/// with a change; otherwise the walk decides the tests, the result, and the new time.
pub open spec fn scan_outcome(
    old: PythonTests,
    new: PythonTests,
    scan: DiskScan,
    only: bool,
    r: Result<(bool, Vec<String>), FztError>,
) -> bool {
    let ts = old.timestamp;
    let start = scan_start(old.tests@, scan);
    let removed = some_missing(old.tests@, scan);
    let st = scan_files(start, ts, scan.files@, only);
    &&& new.root_folder@ == old.root_folder@
    &&& if only && removed {
        &&& new.tests@ == start.tests
        &&& new.timestamp == ts
        &&& r matches Ok((b, v)) && b && v@.len() == 0
    } else {
        &&& new.tests@ == st.tests
        &&& if st.failed {
            &&& new.timestamp == ts
            &&& r matches Err(e) && e is PythonParsingError
        } else if st.found {
            &&& new.timestamp == ts
            &&& r matches Ok((b, v)) && b && str_views(v@) == st.replaced
        } else {
            &&& new.timestamp == if st.updated { scan.now } else { ts }
            &&& r matches Ok((b, v)) && b == (st.updated || removed) && str_views(v@) == st.replaced
        }
    }
}

/// A walk only adds the paths of the files it walked.
proof fn lemma_scan_keys(st: ScanState, ts: u128, files: Seq<ScannedFile>, only: bool)
    ensures
        forall|k: Seq<char>| #[trigger] scan_files(st, ts, files, only).tests.dom().contains(k) ==> st.tests.dom().contains(k)
            || exists|i: int| 0 <= i < files.len() && (#[trigger] files[i]).path@ == k,
    decreases files.len(),
{
    if files.len() > 0 {
        let fs = files.drop_last();
        lemma_scan_keys(st, ts, fs, only);
        assert forall|k: Seq<char>| #[trigger] scan_files(st, ts, files, only).tests.dom().contains(k) implies st.tests.dom().contains(k)
            || exists|i: int| 0 <= i < files.len() && (#[trigger] files[i]).path@ == k by {
            let prev = scan_files(st, ts, fs, only);
            if prev.tests.dom().contains(k) {
                if !st.tests.dom().contains(k) {
                    let i = choose|i: int| 0 <= i < fs.len() && (#[trigger] fs[i]).path@ == k;
                    assert(files[i] == fs[i]);
                }
            } else {
                assert(files[files.len() - 1].path@ == k);
            }
        }
    }
}

/// The tests an update adds are those of files found by walking the root folder: each path that
/// was not known before is the path, relative to the root, of a walked test file.
pub proof fn law_update_adds_only_walked_files(
    old: PythonTests,
    new: PythonTests,
    scan: DiskScan,
    only: bool,
    r: Result<(bool, Vec<String>), FztError>,
)
    requires
        scan_well_formed(old.root_folder@, scan.files@),
        scan_outcome(old, new, scan, only, r),
    ensures
        forall|k: Seq<char>| new.tests@.dom().contains(k) && !old.tests@.dom().contains(k) ==> exists|i: int|
            0 <= i < scan.files@.len() && scan.files@[i].path@ == k && scanned_ok(old.root_folder@, #[trigger] scan.files@[i]),
{
    let start = scan_start(old.tests@, scan);
    lemma_scan_keys(start, old.timestamp, scan.files@, only);
    assert forall|k: Seq<char>| new.tests@.dom().contains(k) && !old.tests@.dom().contains(k) implies exists|i: int|
        0 <= i < scan.files@.len() && scan.files@[i].path@ == k && scanned_ok(old.root_folder@, #[trigger] scan.files@[i]) by {
        assert(!start.tests.dom().contains(k));
        let i = choose|i: int| 0 <= i < scan.files@.len() && (#[trigger] scan.files@[i]).path@ == k;
        assert(scanned_ok(old.root_folder@, scan.files@[i]));
    }
}

/// An update of files none of which changed since the tests were read, with no known file
/// missing, changes nothing and reports no change.
pub proof fn law_unchanged_files_report_no_change(
    old: PythonTests,
    new: PythonTests,
    scan: DiskScan,
    only: bool,
    r: Result<(bool, Vec<String>), FztError>,
)
    requires
        scan_outcome(old, new, scan, only, r),
        !some_missing(old.tests@, scan),
        forall|i: int| 0 <= i < scan.files@.len() ==> !later((#[trigger] scan.files@[i]).modified, old.timestamp)
            && !later(scan.files@[i].created, old.timestamp),
    ensures
        r matches Ok((b, v)) && !b && v@.len() == 0,
        new.tests@ == old.tests@,
        new.timestamp == old.timestamp,
        new.root_folder@ == old.root_folder@,
{
    let start = scan_start(old.tests@, scan);
    lemma_scan_unchanged(start, old.timestamp, scan.files@, only);
    let m = missing_keys(scan.known@, scan.present@);
    assert(start.tests =~= old.tests@) by {
        assert forall|k: Seq<char>| old.tests@.dom().contains(k) implies !m.contains(k) by {
            if m.contains(k) {
                assert(m.intersect(old.tests@.dom()).contains(k));
            }
        }
    }
    assert(start.replaced =~= Seq::<Seq<char>>::empty());
    match r {
        Ok((b, v)) => {
            assert(str_views(v@).len() == v@.len());
        },
        Err(_) => {},
    }
}

/// Files none of which is later than `ts` leave the walk where it started.
proof fn lemma_scan_unchanged(st: ScanState, ts: u128, files: Seq<ScannedFile>, only: bool)
    requires
        !st.found && !st.failed,
        forall|i: int| 0 <= i < files.len() ==> !later((#[trigger] files[i]).modified, ts) && !later(files[i].created, ts),
    ensures
        scan_files(st, ts, files, only) == st,
    decreases files.len(),
{
    if files.len() > 0 {
        let fs = files.drop_last();
        assert forall|i: int| 0 <= i < fs.len() implies !later((#[trigger] fs[i]).modified, ts) && !later(fs[i].created, ts) by {
            assert(fs[i] == files[i]);
        }
        lemma_scan_unchanged(st, ts, fs, only);
        assert(!later(files[files.len() - 1].modified, ts));
    }
}

/// A walk that changed nothing, found nothing and did not fail left its start as it was, and
/// walking the same files again, checking only or not, leaves it so too.
proof fn lemma_walk_without_update(st: ScanState, ts: u128, files: Seq<ScannedFile>, only: bool)
    requires
        !st.updated && !st.found && !st.failed,
        !scan_files(st, ts, files, false).updated,
        !scan_files(st, ts, files, false).found,
        !scan_files(st, ts, files, false).failed,
    ensures
        scan_files(st, ts, files, false) == st,
        scan_files(st, ts, files, only) == st,
    decreases files.len(),
{
    if files.len() > 0 {
        let fs = files.drop_last();
        let prev = scan_files(st, ts, fs, false);
        if prev.found || prev.failed {
            assert(scan_files(st, ts, files, false) == prev);
        } else {
            assert(!prev.updated);
            lemma_walk_without_update(st, ts, fs, only);
        }
    }
}

/// After an update, a second update that finds no known file missing and either no file changed
/// since the tests were last read, or the very files of the first update when that one reported
/// no change, reports no change and keeps the tests and their time.
pub proof fn law_second_update_of_unchanged_files(
    first: PythonTests,
    updated: PythonTests,
    again: PythonTests,
    scan1: DiskScan,
    scan2: DiskScan,
    r1: Result<(bool, Vec<String>), FztError>,
    r2: Result<(bool, Vec<String>), FztError>,
    only: bool,
)
    requires
        scan_outcome(first, updated, scan1, false, r1),
        r1 is Ok,
        scan_outcome(updated, again, scan2, only, r2),
        !some_missing(updated.tests@, scan2),
        (forall|i: int| 0 <= i < scan2.files@.len() ==> !later((#[trigger] scan2.files@[i]).modified, updated.timestamp)
            && !later(scan2.files@[i].created, updated.timestamp))
        || (r1 matches Ok((b, _)) && !b && scan2.files@ == scan1.files@),
    ensures
        r2 matches Ok((b, v)) && !b && v@.len() == 0,
        again.tests@ == updated.tests@,
        again.timestamp == updated.timestamp,
{
    if forall|i: int| 0 <= i < scan2.files@.len() ==> !later((#[trigger] scan2.files@[i]).modified, updated.timestamp)
        && !later(scan2.files@[i].created, updated.timestamp) {
        law_unchanged_files_report_no_change(updated, again, scan2, only, r2);
    } else {
        let ts = first.timestamp;
        let start1 = scan_start(first.tests@, scan1);
        let st1 = scan_files(start1, ts, scan1.files@, false);
        assert(!some_missing(first.tests@, scan1));
        assert(!st1.updated && !st1.found && !st1.failed);
        lemma_walk_without_update(start1, ts, scan1.files@, only);
        let m1 = missing_keys(scan1.known@, scan1.present@);
        assert(start1.tests =~= first.tests@) by {
            assert forall|k: Seq<char>| first.tests@.dom().contains(k) implies !m1.contains(k) by {
                if m1.contains(k) {
                    assert(m1.intersect(first.tests@.dom()).contains(k));
                }
            }
        }
        let start2 = scan_start(updated.tests@, scan2);
        let m2 = missing_keys(scan2.known@, scan2.present@);
        assert(start2.tests =~= updated.tests@) by {
            assert forall|k: Seq<char>| updated.tests@.dom().contains(k) implies !m2.contains(k) by {
                if m2.contains(k) {
                    assert(m2.intersect(updated.tests@.dom()).contains(k));
                }
            }
        }
        assert(start2 == start1);
        assert(updated.timestamp == ts);
        match r2 {
            Ok((b, v)) => {
                assert(str_views(v@).len() == v@.len());
            },
            Err(_) => {},
        }
    }
}

impl PythonTests {
    /// Whether a file with these times has to be read: one of them is later than the time the
    /// tests were read.
    pub fn needs_source(&self, modified: Option<u128>, created: Option<u128>) -> (r: bool)
        ensures
            r == (later(modified, self.timestamp) || later(created, self.timestamp)),
    {
        let m = match modified {
            Some(t) => t > self.timestamp,
            None => false,
        };
        let c = match created {
            Some(t) => t > self.timestamp,
            None => false,
        };
        m || c
    }

    /// Brings the tests up to date from what was read from the disk: forgets the missing paths,
    /// then applies the changed files; with `only_check_for_update` it stops at the first change
    /// it finds. Returns whether the tests changed, and the files whose tests were replaced.
    pub fn update_from_scan(&mut self, scan: &DiskScan, only_check_for_update: bool) -> (r: Result<(bool, Vec<String>), FztError>)
        requires
            scan.known@.len() == scan.present@.len(),
            sources_ready(scan.files@, old(self).timestamp),
            scan_well_formed(old(self).root_folder@, scan.files@),
        ensures
            scan_outcome(*old(self), *final(self), *scan, only_check_for_update, r),
    {
        let ghost ts = self.timestamp;
        let ghost old_tests = self.tests@;
        let removed = self.remove_missing(scan.known.as_slice(), scan.present.as_slice());
        let mut replaced: Vec<String> = Vec::new();
        if only_check_for_update && removed {
            return Ok((true, replaced));
        }
        let ghost start = scan_start(old_tests, *scan);
        let ghost fs = scan.files@;
        let only = only_check_for_update;
        let mut updated = false;
        let mut i: usize = 0;
        assert(fs.take(0) =~= Seq::<ScannedFile>::empty());
        while i < scan.files.len()
            invariant
                i <= fs.len(),
                fs == scan.files@,
                self.timestamp == ts,
                ts == old(self).timestamp,
                only == only_check_for_update,
                !(only && removed),
                removed == some_missing(old(self).tests@, *scan),
                start == scan_start(old(self).tests@, *scan),
                self.root_folder@ == old(self).root_folder@,
                sources_ready(fs, ts),
                ({
                    let st = scan_files(start, ts, fs.take(i as int), only);
                    &&& !st.found && !st.failed
                    &&& self.tests@ == st.tests
                    &&& updated == st.updated
                    &&& str_views(replaced@) == st.replaced
                }),
            decreases fs.len() - i,
        {
            let ghost prev = scan_files(start, ts, fs.take(i as int), only);
            let ghost fi = fs[i as int];
            assert(fs.take(i + 1).drop_last() =~= fs.take(i as int));
            assert(fs.take(i + 1).last() == fi);
            let f = &scan.files[i];
            let mut skip_created = false;
            if self.changed_since_read_at(f.modified) {
                let src = match &f.source {
                    Some(src) => src,
                    None => {
                        assert(false);
                        return Ok((true, replaced));
                    },
                };
                let new_tests = match collect_tests_from_source(src.as_str()) {
                    Ok(t) => t,
                    Err(e) => {
                        proof {
                            assert(scanned_tests(fi) is None);
                            assert(file_step(prev, ts, fi, only).failed);
                            assert(scan_files(start, ts, fs.take(i + 1), only).failed);
                            lemma_scan_stopped(start, ts, fs, only, i + 1, fs.len() as int);
                            assert(fs.take(fs.len() as int) =~= fs);
                        }
                        return Err(e);
                    },
                };
                match self.apply_modified(&f.path, new_tests, only) {
                    FileChange::Found => {
                        proof {
                            lemma_scan_stopped(start, ts, fs, only, i + 1, fs.len() as int);
                            assert(fs.take(fs.len() as int) =~= fs);
                        }
                        return Ok((true, replaced));
                    },
                    FileChange::Added => {
                        updated = true;
                        skip_created = true;
                    },
                    FileChange::Replaced => {
                        updated = true;
                        let ghost before = replaced@;
                        replaced.push(f.full_path.clone());
                        assert(str_views(replaced@) =~= str_views(before).push(f.full_path@));
                    },
                    FileChange::Unchanged => {},
                }
            }
            if !skip_created && self.changed_since_read_at(f.created) {
                let src = match &f.source {
                    Some(src) => src,
                    None => {
                        assert(false);
                        return Ok((true, replaced));
                    },
                };
                let new_tests = match collect_tests_from_source(src.as_str()) {
                    Ok(t) => t,
                    Err(e) => {
                        proof {
                            lemma_scan_stopped(start, ts, fs, only, i + 1, fs.len() as int);
                            assert(fs.take(fs.len() as int) =~= fs);
                        }
                        return Err(e);
                    },
                };
                proof {
                    if new_tests@.len() == 0 {
                        assert(name_set(new_tests@) =~= Set::<Seq<char>>::empty());
                    } else {
                        assert(str_views(new_tests@)[0] == new_tests@[0]@);
                        assert(name_set(new_tests@).contains(new_tests@[0]@));
                    }
                }
                match self.apply_created(&f.path, new_tests, only) {
                    FileChange::Found => {
                        proof {
                            lemma_scan_stopped(start, ts, fs, only, i + 1, fs.len() as int);
                            assert(fs.take(fs.len() as int) =~= fs);
                        }
                        return Ok((true, replaced));
                    },
                    FileChange::Added => {
                        updated = true;
                    },
                    _ => {},
                }
            }
            i = i + 1;
        }
        assert(fs.take(i as int) =~= fs);
        self.finish_update(updated, scan.now);
        Ok((updated || removed, replaced))
    }

    /// Whether a time is later than the time the tests were read.
    fn changed_since_read_at(&self, t: Option<u128>) -> (r: bool)
        ensures
            r == later(t, self.timestamp),
    {
        match t {
            Some(x) => x > self.timestamp,
            None => false,
        }
    }
}

/// Finds Python tests with the RustPython parser.
pub struct RustPytonParser {}

impl RustPytonParser {
    /// Brings the tests up to date from what was read from the disk (see
    /// `PythonTests::update_from_scan`); whether they changed, and the files whose tests were
    /// replaced.
    pub fn parse_tests(&self, tests: &mut PythonTests, scan: &DiskScan) -> (r: Result<(bool, Vec<String>), FztError>)
        requires
            scan.known@.len() == scan.present@.len(),
            sources_ready(scan.files@, old(tests).timestamp),
            scan_well_formed(old(tests).root_folder@, scan.files@),
        ensures
            scan_outcome(*old(tests), *final(tests), *scan, false, r),
    {
        tests.update_from_scan(scan, false)
    }
}


} // verus!
