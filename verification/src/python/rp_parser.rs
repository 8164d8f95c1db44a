//! Python tests found with the RustPython parser, kept as a cache entry.
use vstd::prelude::*;

use crate::cache::types::CacheEntry;
use crate::python::types::PyTests;
use crate::test_sets::{name_set, same_names};

verus! {

/// Finds the tests of the Python files under a root folder.
pub struct RpParser {
    root_dir: String,
}

impl RpParser {
    pub fn new(root_dir: String) -> (r: RpParser)
        ensures
            r.root() == root_dir@,
    {
        RpParser { root_dir }
    }

    pub closed spec fn root(&self) -> Seq<char> {
        self.root_dir@
    }

    /// The cache entry of tests found at `timestamp` (milliseconds since the Unix epoch).
    pub fn get_cache_entry(&self, python_tests: PyTests, timestamp: u128) -> (r: CacheEntry)
        ensures
            r.root_folder@ == self.root(),
            r.timestamp == timestamp,
            r.tests@ == python_tests.tests@,
    {
        CacheEntry::new(self.root_dir.clone(), timestamp, python_tests.tests)
    }
}

/// Tells whether the test files of a cache entry changed.
pub struct PytestUpdate {}

impl PytestUpdate {
    /// The tests found in a file differ from the ones known for it.
    pub fn check_file_for_new_tests(collected: &Vec<String>, known: &Vec<String>) -> (r: bool)
        ensures
            r == (name_set(collected@) != name_set(known@)),
    {
        !same_names(collected, known)
    }
}

} // verus!
