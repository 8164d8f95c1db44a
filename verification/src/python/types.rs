//! Python tests grouped by file.
use vstd::prelude::*;

use crate::test_sets::{str_views, TestSets};
use crate::text::append_str;

verus! {

/// Python tests: test names by file path.
pub struct PyTests {
    pub tests: TestSets,
}

/// The lines `path::test`, each ended by a line break, file after file.
pub open spec fn listing_text(entries: Seq<(String, Vec<String>)>) -> Seq<char>
    decreases entries.len(),
{
    if entries.len() == 0 {
        Seq::empty()
    } else {
        listing_text(entries.drop_last()) + file_lines(entries.last().0@, str_views(entries.last().1@))
    }
}

/// The lines `path::test` of one file.
pub open spec fn file_lines(path: Seq<char>, tests: Seq<Seq<char>>) -> Seq<char>
    decreases tests.len(),
{
    if tests.len() == 0 {
        Seq::empty()
    } else {
        file_lines(path, tests.drop_last()) + path + "::"@ + tests.last() + "\n"@
    }
}

impl PyTests {
    pub fn new(tests: TestSets) -> (r: PyTests)
        ensures
            r.tests@ == tests@,
    {
        PyTests { tests }
    }

    /// The tests as the lines `path::test` that the search engine is given.
    pub fn to_listing(&self) -> (r: String)
        ensures
            r@ == listing_text(self.tests.entry_seq()),
    {
        let entries = self.tests.entries();
        let mut out = String::new();
        let mut i: usize = 0;
        while i < entries.len()
            invariant
                i <= entries@.len(),
                entries@ == self.tests.entry_seq(),
                out@ == listing_text(entries@.subrange(0, i as int)),
            decreases entries@.len() - i,
        {
            let (path, tests) = &entries[i];
            let ghost start = out@;
            let mut j: usize = 0;
            while j < tests.len()
                invariant
                    j <= tests@.len(),
                    out@ == start + file_lines(path@, str_views(tests@.subrange(0, j as int))),
                decreases tests@.len() - j,
            {
                append_str(&mut out, path.as_str());
                append_str(&mut out, "::");
                append_str(&mut out, tests[j].as_str());
                append_str(&mut out, "\n");
                assert(str_views(tests@.subrange(0, j + 1)).drop_last() =~= str_views(tests@.subrange(0, j as int)));
                assert(out@ =~= start + file_lines(path@, str_views(tests@.subrange(0, j + 1))));
                j = j + 1;
            }
            assert(tests@.subrange(0, j as int) =~= tests@);
            assert(entries@.subrange(0, i + 1).drop_last() =~= entries@.subrange(0, i as int));
            i = i + 1;
        }
        assert(entries@.subrange(0, i as int) =~= entries@);
        out
    }
}

} // verus!
