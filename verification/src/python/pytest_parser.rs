//! Reading the test list that `pytest --co -q` prints.
use vstd::prelude::*;

use crate::python::types::PyTests;
use crate::cache::types::CacheEntry;
use crate::test_sets::{name_set, same_names, TestSets};
use crate::text::{from_chars, lines, split, split_lines, split_two, take_until, take_until_chars, to_chars, views};

verus! {

/// The index of the first empty line at or after `i`, or the number of lines.
pub open spec fn first_empty_from(ls: Seq<Seq<char>>, i: int) -> int
    decreases ls.len() - i,
{
    if i < 0 || i >= ls.len() {
        ls.len() as int
    } else if ls[i].len() == 0 {
        i
    } else {
        first_empty_from(ls, i + 1)
    }
}

/// The lines that list tests: those before the first empty line.
pub open spec fn listing(out: Seq<char>) -> Seq<Seq<char>> {
    lines(out).subrange(0, first_empty_from(lines(out), 0))
}

pub open spec fn double_colon() -> Seq<char> {
    seq![':', ':']
}

/// Every listing line is a file path and a test name joined by one `::`.
pub open spec fn well_formed_listing(out: Seq<char>) -> bool {
    forall|i: int| 0 <= i < listing(out).len() ==> #[trigger] split(listing(out)[i], double_colon()).len() == 2
}

/// The file path of a listing line.
pub open spec fn line_path(l: Seq<char>) -> Seq<char> {
    split(l, double_colon())[0]
}

/// The test name of a listing line: the part after `::` up to its first `[`, which starts the
/// parameters of a parametrized test.
pub open spec fn line_test(l: Seq<char>) -> Seq<char> {
    take_until(split(l, double_colon())[1], '[')
}

/// The tests that listing lines name, by file path.
pub open spec fn collect_map(ls: Seq<Seq<char>>) -> Map<Seq<char>, Set<Seq<char>>>
    decreases ls.len(),
{
    if ls.len() == 0 {
        Map::empty()
    } else {
        let m = collect_map(ls.drop_last());
        let p = line_path(ls.last());
        m.insert(p, if m.dom().contains(p) { m[p] } else { Set::empty() }.insert(line_test(ls.last())))
    }
}

/// `first_empty_from` is the first empty line at or after `i`, or the end.
pub proof fn lemma_first_empty_from(ls: Seq<Seq<char>>, i: int)
    requires
        0 <= i <= ls.len(),
    ensures
        i <= first_empty_from(ls, i) <= ls.len(),
        forall|j: int| i <= j < first_empty_from(ls, i) ==> ls[j].len() > 0,
        first_empty_from(ls, i) < ls.len() ==> ls[first_empty_from(ls, i)].len() == 0,
    decreases ls.len() - i,
{
    if i < ls.len() && ls[i].len() > 0 {
        lemma_first_empty_from(ls, i + 1);
    }
}

/// Whether `pytest_out` can be read: every listing line holds exactly one `::`.
pub fn is_well_formed_listing(pytest_out: &str) -> (r: bool)
    ensures
        r == well_formed_listing(pytest_out@),
{
    let chars = to_chars(pytest_out);
    let ls = split_lines(&chars);
    let sep: [char; 2] = [':', ':'];
    assert(sep@ =~= double_colon());
    let mut i: usize = 0;
    proof {
        lemma_first_empty_from(views(ls@), 0);
    }
    while i < ls.len() && ls[i].len() > 0
        invariant
            i <= ls@.len(),
            sep@ == double_colon(),
            views(ls@) == lines(pytest_out@),
            first_empty_from(views(ls@), 0) == first_empty_from(views(ls@), i as int),
            forall|j: int| 0 <= j < i ==> #[trigger] split(views(ls@)[j], double_colon()).len() == 2,
        decreases ls@.len() - i,
    {
        let ghost l = views(ls@)[i as int];
        assert(l == ls@[i as int]@);
        proof {
            lemma_first_empty_from(views(ls@), i as int);
            assert(first_empty_from(views(ls@), i as int) != i);
            assert(listing(pytest_out@)[i as int] == l);
        }
        if split_two(ls[i].as_slice(), &sep).is_none() {
            return false;
        }
        assert(split(l, double_colon()).len() == 2);
        i = i + 1;
    }
    proof {
        lemma_first_empty_from(views(ls@), i as int);
        assert forall|j: int| 0 <= j < listing(pytest_out@).len() implies #[trigger] split(
            listing(pytest_out@)[j],
            double_colon(),
        ).len() == 2 by {
            assert(listing(pytest_out@)[j] == views(ls@)[j]);
        }
    }
    true
}

/// Reads which tests of which files `pytest --co -q` listed.
pub struct PyTestParser {
    root_dir: String,
    test_dir: String,
}

impl PyTestParser {
    pub fn new(root_dir: String, test_dir: String) -> (r: PyTestParser)
        ensures
            r.root_dir() == root_dir@,
            r.test_dir() == test_dir@,
    {
        PyTestParser { root_dir, test_dir }
    }

    pub closed spec fn root_dir(&self) -> Seq<char> {
        self.root_dir@
    }

    pub closed spec fn test_dir(&self) -> Seq<char> {
        self.test_dir@
    }

    /// The cache entry of tests found at `timestamp` (milliseconds since the Unix epoch) under
    /// `root`.
    pub fn get_cache_entry(python_tests: PyTests, root: &str, timestamp: u128) -> (r: CacheEntry)
        ensures
            r.root_folder@ == root@,
            r.timestamp == timestamp,
            r.tests@ == python_tests.tests@,
    {
        CacheEntry::new(root.to_owned(), timestamp, python_tests.tests)
    }

    /// The tests found in a file differ from the ones known for it.
    pub fn check_file_for_new_tests(collected: &Vec<String>, known: &Vec<String>) -> (r: bool)
        ensures
            r == (name_set(collected@) != name_set(known@)),
    {
        !same_names(collected, known)
    }

    /// The tests listed in the output of `pytest --co -q`: each line `path::name` (a name possibly
    /// followed by `[parameters]`) up to the first empty line, grouped by path.
    pub fn parse_python_tests(pytest_out: &str) -> (r: PyTests)
        requires
            well_formed_listing(pytest_out@),
        ensures
            r.tests@ == collect_map(listing(pytest_out@)),
    {
        let chars = to_chars(pytest_out);
        let ls = split_lines(&chars);
        let sep: [char; 2] = [':', ':'];
        assert(sep@ =~= double_colon());
        let mut tests = TestSets::new();
        let mut i: usize = 0;
        proof {
            lemma_first_empty_from(views(ls@), 0);
            assert(collect_map(views(ls@).subrange(0, 0)) =~= Map::<Seq<char>, Set<Seq<char>>>::empty());
        }
        while i < ls.len() && ls[i].len() > 0
            invariant
                i <= ls@.len(),
                sep@ == double_colon(),
                views(ls@) == lines(pytest_out@),
                well_formed_listing(pytest_out@),
                first_empty_from(views(ls@), 0) == first_empty_from(views(ls@), i as int),
                tests@ == collect_map(views(ls@).subrange(0, i as int)),
            decreases ls@.len() - i,
        {
            let ghost l = views(ls@)[i as int];
            assert(l == ls@[i as int]@);
            proof {
                lemma_first_empty_from(views(ls@), i as int);
                assert(first_empty_from(views(ls@), i as int) != i);
                assert(listing(pytest_out@)[i as int] == l);
                assert(split(listing(pytest_out@)[i as int], double_colon()).len() == 2);
            }
            match split_two(ls[i].as_slice(), &sep) {
                Some((path, test)) => {
                    let name = take_until_chars(&test, '[');
                    assert(path@ == line_path(l));
                    assert(name@ == line_test(l));
                    tests.add_name(from_chars(&path), from_chars(&name));
                    assert(views(ls@).subrange(0, i + 1).drop_last() =~= views(ls@).subrange(0, i as int));
                    assert(views(ls@).subrange(0, i + 1).last() == l);
                },
                None => {
                    assert(false);
                },
            }
            i = i + 1;
        }
        proof {
            lemma_first_empty_from(views(ls@), i as int);
        }
        PyTests::new(tests)
    }
}

} // verus!
