//! Java tests, as the external Java parser lists them.
use vstd::prelude::*;

use crate::test_sets::{contains_name, name_set, str_views};
use crate::text::append_str;

verus! {

/// A test method of a class.
pub struct JavaTest {
    pub class_path: String,
    pub method_name: String,
}

/// Java tests by file, with the time (in milliseconds since the epoch) they were last read.
pub struct JavaTests {
    pub root_folder: String,
    pub timestamp: u128,
    pub tests: Vec<(String, Vec<JavaTest>)>,
}

impl JavaTests {
    /// No tests, never read.
    pub fn new_empty(root_folder: String) -> (r: JavaTests)
        ensures
            r.root_folder@ == root_folder@,
            r.timestamp == 0,
            r.tests@.len() == 0,
    {
        JavaTests { root_folder, timestamp: 0, tests: Vec::new() }
    }
}

/// A test of a file, as it is run and searched.
pub struct JavaTestItem {
    pub path: String,
    pub class_path: String,
    pub test: String,
}

/// What Gradle is given to run a test: `class.method`.
pub open spec fn java_runtime_argument(class_path: Seq<char>, test: Seq<char>) -> Seq<char> {
    class_path + "."@ + test
}

/// What the search engine shows for a test: `path->method`.
pub open spec fn java_search_name(path: Seq<char>, test: Seq<char>) -> Seq<char> {
    path + "->"@ + test
}

impl JavaTestItem {
    pub fn new(path: String, class_path: String, test: String) -> (r: JavaTestItem)
        ensures
            r.path@ == path@,
            r.class_path@ == class_path@,
            r.test@ == test@,
    {
        JavaTestItem { path, class_path, test }
    }

    /// What Gradle is given to run the test.
    pub fn runtime_argument(&self) -> (r: String)
        ensures
            r@ == java_runtime_argument(self.class_path@, self.test@),
    {
        let mut r = self.class_path.clone();
        append_str(&mut r, ".");
        append_str(&mut r, self.test.as_str());
        r
    }

    /// What the search engine shows for the test.
    pub fn search_item_name(&self) -> (r: String)
        ensures
            r@ == java_search_name(self.path@, self.test@),
    {
        let mut r = self.path.clone();
        append_str(&mut r, "->");
        append_str(&mut r, self.test.as_str());
        r
    }
}

/// The tests of all files, file after file.
pub open spec fn java_items(tests: Seq<(String, Vec<JavaTest>)>) -> Seq<(Seq<char>, Seq<char>, Seq<char>)>
    decreases tests.len(),
{
    if tests.len() == 0 {
        Seq::empty()
    } else {
        java_items(tests.drop_last()) + tests.last().1@.map_values(
            |t: JavaTest| (tests.last().0@, t.class_path@, t.method_name@),
        )
    }
}

/// The view of a test item.
pub open spec fn item_view(i: JavaTestItem) -> (Seq<char>, Seq<char>, Seq<char>) {
    (i.path@, i.class_path@, i.test@)
}

impl JavaTests {
    /// The tests of all files, file after file.
    pub fn tests(&self) -> (r: Vec<JavaTestItem>)
        ensures
            r@.map_values(|i: JavaTestItem| item_view(i)) == java_items(self.tests@),
    {
        let mut out: Vec<JavaTestItem> = Vec::new();
        let mut i: usize = 0;
        while i < self.tests.len()
            invariant
                i <= self.tests@.len(),
                out@.map_values(|it: JavaTestItem| item_view(it)) == java_items(self.tests@.subrange(0, i as int)),
            decreases self.tests@.len() - i,
        {
            let (path, tests) = &self.tests[i];
            let ghost start = out@.map_values(|it: JavaTestItem| item_view(it));
            let mut j: usize = 0;
            while j < tests.len()
                invariant
                    j <= tests@.len(),
                    out@.map_values(|it: JavaTestItem| item_view(it)) == start + tests@.subrange(0, j as int).map_values(
                        |t: JavaTest| (path@, t.class_path@, t.method_name@),
                    ),
                decreases tests@.len() - j,
            {
                let ghost before = out@;
                let t = &tests[j];
                out.push(JavaTestItem::new(path.clone(), t.class_path.clone(), t.method_name.clone()));
                assert(out@.map_values(|it: JavaTestItem| item_view(it)) =~= before.map_values(|it: JavaTestItem| item_view(it)).push(
                    (path@, t.class_path@, t.method_name@),
                ));
                assert(tests@.subrange(0, j + 1).map_values(|t: JavaTest| (path@, t.class_path@, t.method_name@))
                    =~= tests@.subrange(0, j as int).map_values(|t: JavaTest| (path@, t.class_path@, t.method_name@)).push(
                    (path@, t.class_path@, t.method_name@),
                ));
                j = j + 1;
            }
            assert(tests@.subrange(0, j as int) =~= tests@);
            assert(self.tests@.subrange(0, i + 1).drop_last() =~= self.tests@.subrange(0, i as int));
            i = i + 1;
        }
        assert(self.tests@.subrange(0, i as int) =~= self.tests@);
        out
    }

    /// The runtime arguments of the tests whose search names were selected, in the order of the
    /// tests.
    pub fn selected_runtime_arguments(&self, selected: &[String]) -> (r: Vec<String>)
        ensures
            str_views(r@) == java_items(self.tests@).filter(
                |x: (Seq<char>, Seq<char>, Seq<char>)| name_set(selected@).contains(java_search_name(x.0, x.2)),
            ).map_values(|x: (Seq<char>, Seq<char>, Seq<char>)| java_runtime_argument(x.1, x.2)),
    {
        let items = self.tests();
        let ghost all = java_items(self.tests@);
        let ghost pick = |x: (Seq<char>, Seq<char>, Seq<char>)| name_set(selected@).contains(java_search_name(x.0, x.2));
        let ghost arg = |x: (Seq<char>, Seq<char>, Seq<char>)| java_runtime_argument(x.1, x.2);
        let mut r: Vec<String> = Vec::new();
        let mut i: usize = 0;
        while i < items.len()
            invariant
                i <= items@.len(),
                items@.map_values(|it: JavaTestItem| item_view(it)) == all,
                pick == (|x: (Seq<char>, Seq<char>, Seq<char>)| name_set(selected@).contains(java_search_name(x.0, x.2))),
                arg == (|x: (Seq<char>, Seq<char>, Seq<char>)| java_runtime_argument(x.1, x.2)),
                str_views(r@) == all.subrange(0, i as int).filter(pick).map_values(arg),
            decreases items@.len() - i,
        {
            let it = &items[i];
            let name = it.search_item_name();
            assert(all[i as int] == item_view(*it));
            assert(name@ == java_search_name(all[i as int].0, all[i as int].2));
            assert(all.subrange(0, i + 1).drop_last() =~= all.subrange(0, i as int));
            proof {
                all.subrange(0, i as int).lemma_filter_push(all[i as int], pick);
            }
            if contains_name(selected, &name) {
                let ghost before = r@;
                let a = it.runtime_argument();
                assert(a@ == arg(all[i as int]));
                r.push(a);
                assert(str_views(r@) =~= str_views(before).push(arg(all[i as int])));
                assert(all.subrange(0, i + 1) =~= all.subrange(0, i as int).push(all[i as int]));
                assert(all.subrange(0, i + 1).filter(pick).map_values(arg) =~= all.subrange(0, i as int).filter(pick).map_values(arg).push(arg(all[i as int])));
            } else {
                assert(all.subrange(0, i + 1) =~= all.subrange(0, i as int).push(all[i as int]));
            }
            i = i + 1;
        }
        assert(all.subrange(0, i as int) =~= all);
        r
    }

    /// The search names of all tests, file after file.
    pub fn search_names(&self) -> (r: Vec<String>)
        ensures
            str_views(r@) == java_items(self.tests@).map_values(
                |x: (Seq<char>, Seq<char>, Seq<char>)| java_search_name(x.0, x.2),
            ),
    {
        let items = self.tests();
        let ghost all = java_items(self.tests@);
        let mut r: Vec<String> = Vec::new();
        let mut i: usize = 0;
        while i < items.len()
            invariant
                i <= items@.len(),
                items@.map_values(|it: JavaTestItem| item_view(it)) == all,
                str_views(r@) == all.subrange(0, i as int).map_values(
                    |x: (Seq<char>, Seq<char>, Seq<char>)| java_search_name(x.0, x.2),
                ),
            decreases items@.len() - i,
        {
            let ghost before = r@;
            assert(all[i as int] == item_view(items@[i as int]));
            let name = items[i].search_item_name();
            let ghost v = java_search_name(all[i as int].0, all[i as int].2);
            assert(name@ == v);
            r.push(name);
            assert(str_views(r@) =~= str_views(before).push(v));
            assert(all.subrange(0, i + 1) =~= all.subrange(0, i as int).push(all[i as int]));
            assert(all.subrange(0, i + 1).map_values(|x: (Seq<char>, Seq<char>, Seq<char>)| java_search_name(x.0, x.2))
                =~= all.subrange(0, i as int).map_values(|x: (Seq<char>, Seq<char>, Seq<char>)| java_search_name(x.0, x.2)).push(v));
            i = i + 1;
        }
        assert(all.subrange(0, i as int) =~= all);
        r
    }
}

/// Runs the external Java parser on a project.
pub struct JavaParser {
    root_dir: String,
}

impl JavaParser {
    pub fn new(root_dir: String) -> (r: JavaParser)
        ensures
            r.root() == root_dir@,
    {
        JavaParser { root_dir }
    }

    pub closed spec fn root(&self) -> Seq<char> {
        self.root_dir@
    }

    /// The arguments of `fzt-java-parser`: the root folder, and the known tests as JSON.
    pub fn command_args(&self, test_json: &str) -> (r: Vec<String>)
        ensures
            str_views(r@) == seq!["-0"@, self.root(), "-c"@, test_json@],
    {
        let r: Vec<String> = vec!["-0".to_owned(), self.root_dir.clone(), "-c".to_owned(), test_json.to_owned()];
        assert(str_views(r@) =~= seq!["-0"@, self.root(), "-c"@, test_json@]);
        r
    }
}

} // verus!
