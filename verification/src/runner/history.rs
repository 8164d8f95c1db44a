//! The selection histories of a runner.
use vstd::prelude::*;

use crate::cache::manager::{
    history_after, history_view, most_recent, push_history, recent_selection, CacheManager, HistoryGranularity,
};
use crate::test_sets::str_views;

verus! {

/// Reads and records selections in the histories of a project's cache.
pub struct HistoryProvider {
    cache_manager: CacheManager,
}

impl HistoryProvider {
    pub fn new(cache_manager: CacheManager) -> (r: HistoryProvider)
        ensures
            r.manager() == cache_manager,
    {
        HistoryProvider { cache_manager }
    }

    pub closed spec fn manager(&self) -> CacheManager {
        self.cache_manager
    }

    /// The file that holds the history of a granularity.
    pub fn history_file(&self, granularity: HistoryGranularity) -> (r: &String)
        ensures
            r@ == self.manager().history_file(granularity),
    {
        self.cache_manager.history_file_path(granularity)
    }

    /// The most recent selection of the history read from the granularity's file.
    pub fn last(&self, history: &Vec<Vec<String>>) -> (r: Vec<String>)
        ensures
            str_views(r@) == most_recent(history_view(history@)),
    {
        recent_selection(history)
    }

    /// Records a selection in the history read from the granularity's file, to be written back.
    pub fn update_history(&self, history: &mut Vec<Vec<String>>, update: &[String])
        ensures
            history_view(final(history)@) == history_after(history_view(old(history)@), str_views(update@)),
    {
        push_history(history, update)
    }
}

} // verus!
