//! A cached test list.
use vstd::prelude::*;

use crate::test_sets::TestSets;

verus! {

/// The tests of a project as found at a time (milliseconds since the Unix epoch).
pub struct CacheEntry {
    pub root_folder: String,
    pub timestamp: u128,
    pub tests: TestSets,
}

impl CacheEntry {
    pub fn new(root_folder: String, timestamp: u128, tests: TestSets) -> (r: CacheEntry)
        ensures
            r.root_folder@ == root_folder@,
            r.timestamp == timestamp,
            r.tests@ == tests@,
    {
        CacheEntry { root_folder, timestamp, tests }
    }
}

} // verus!
