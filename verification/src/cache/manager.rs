//! The files of a project's cache, and the rules of its selection history.
use vstd::prelude::*;

use crate::test_sets::str_views;
use crate::text::{append_chars, ends_with, from_chars, starts_with, to_chars};

verus! {

/// The most selections a history keeps.
pub const HISTORY_SIZE: usize = 200;

/// What a history records: tests, files, directories, runtime selections or appended
/// selections; each mode has a history of its own.
#[derive(Debug, Clone, Copy, PartialEq, Eq, Structural)]
pub enum HistoryGranularity {
    Test,
    File,
    Directory,
    RunTime,
    Append,
}

/// The paths of a project's cached test list and of its selection histories.
pub struct CacheManager {
    cache_file: String,
    history_test_granularity: String,
    history_file_granularity: String,
    history_directory_granularity: String,
    history_runtime_granularity: String,
    history_append_granularity: String,
}

/// `base` with `p` appended as `PathBuf::push` does on Unix: an absolute `p` replaces `base`;
/// otherwise a `/` separates them unless `base` is empty or already ends with one.
pub open spec fn path_join(base: Seq<char>, p: Seq<char>) -> Seq<char> {
    if starts_with(p, seq!['/']) {
        p
    } else if base.len() == 0 || ends_with(base, seq!['/']) {
        base + p
    } else {
        base + seq!['/'] + p
    }
}

/// `base` with `p` appended, as `path_join` states it.
pub fn join_path(base: &str, p: &str) -> (r: String)
    ensures
        r@ == path_join(base@, p@),
{
    let b = to_chars(base);
    let q = to_chars(p);
    if q.len() > 0 && q[0] == '/' {
        assert(q@.subrange(0, 1) =~= seq!['/']);
        return p.to_owned();
    }
    assert(!starts_with(q@, seq!['/'])) by {
        if starts_with(q@, seq!['/']) {
            assert(q@.subrange(0, 1)[0] == q@[0]);
        }
    }
    let mut r = b;
    if r.len() > 0 && r[r.len() - 1] != '/' {
        assert(!ends_with(b@, seq!['/'])) by {
            if ends_with(b@, seq!['/']) {
                assert(b@.subrange(b@.len() - 1, b@.len() as int)[0] == b@[b@.len() - 1]);
            }
        }
        r.push('/');
    } else if r.len() > 0 {
        assert(b@.subrange(b@.len() - 1, b@.len() as int) =~= seq!['/']);
    }
    append_chars(&mut r, &q);
    from_chars(&r)
}

/// The file name of the cached test list of a project.
pub open spec fn cache_file_name(project_id: Seq<char>) -> Seq<char> {
    project_id + ".json"@
}

/// The file name of a project's history of one granularity.
pub open spec fn history_file_name(project_id: Seq<char>, g: HistoryGranularity) -> Seq<char> {
    project_id + match g {
        HistoryGranularity::Test => "-history-test-granularity.json"@,
        HistoryGranularity::File => "-history-file-granularity.json"@,
        HistoryGranularity::Directory => "-history-directory-granularity.json"@,
        HistoryGranularity::RunTime => "-history-runtime-granularity.json"@,
        HistoryGranularity::Append => "-history-append-granularity.json"@,
    }
}

/// The directory of the cache files under a home directory.
pub open spec fn cache_dir(home: Seq<char>) -> Seq<char> {
    path_join(home, ".fzt"@)
}

fn concat(a: &str, b: &str) -> (r: String)
    ensures
        r@ == a@ + b@,
{
    let mut v = to_chars(a);
    append_chars(&mut v, &to_chars(b));
    from_chars(&v)
}

impl CacheManager {
    pub closed spec fn cache_file(&self) -> Seq<char> {
        self.cache_file@
    }

    /// The history file of a granularity.
    pub closed spec fn history_file(&self, g: HistoryGranularity) -> Seq<char> {
        match g {
            HistoryGranularity::Test => self.history_test_granularity@,
            HistoryGranularity::File => self.history_file_granularity@,
            HistoryGranularity::Directory => self.history_directory_granularity@,
            HistoryGranularity::RunTime => self.history_runtime_granularity@,
            HistoryGranularity::Append => self.history_append_granularity@,
        }
    }

    /// The cache files of project `project_id` under the home directory `home`: all in
    /// `<home>/.fzt`.
    pub fn new(home: &str, project_id: &str) -> (r: CacheManager)
        ensures
            r.cache_file() == path_join(cache_dir(home@), cache_file_name(project_id@)),
            forall|g: HistoryGranularity| #[trigger] r.history_file(g) == path_join(
                cache_dir(home@),
                history_file_name(project_id@, g),
            ),
    {
        let dir = join_path(home, ".fzt");
        CacheManager {
            cache_file: join_path(dir.as_str(), concat(project_id, ".json").as_str()),
            history_test_granularity: join_path(
                dir.as_str(),
                concat(project_id, "-history-test-granularity.json").as_str(),
            ),
            history_file_granularity: join_path(
                dir.as_str(),
                concat(project_id, "-history-file-granularity.json").as_str(),
            ),
            history_directory_granularity: join_path(
                dir.as_str(),
                concat(project_id, "-history-directory-granularity.json").as_str(),
            ),
            history_runtime_granularity: join_path(
                dir.as_str(),
                concat(project_id, "-history-runtime-granularity.json").as_str(),
            ),
            history_append_granularity: join_path(
                dir.as_str(),
                concat(project_id, "-history-append-granularity.json").as_str(),
            ),
        }
    }

    /// Cache files at the given paths.
    pub fn new_from_path(
        cache_file: String,
        history_test_granularity: String,
        history_file_granularity: String,
        history_directory_granularity: String,
        history_runtime_granularity: String,
        history_append_granularity: String,
    ) -> (r: CacheManager)
        ensures
            r.cache_file() == cache_file@,
            r.history_file(HistoryGranularity::Test) == history_test_granularity@,
            r.history_file(HistoryGranularity::File) == history_file_granularity@,
            r.history_file(HistoryGranularity::Directory) == history_directory_granularity@,
            r.history_file(HistoryGranularity::RunTime) == history_runtime_granularity@,
            r.history_file(HistoryGranularity::Append) == history_append_granularity@,
    {
        CacheManager {
            cache_file,
            history_test_granularity,
            history_file_granularity,
            history_directory_granularity,
            history_runtime_granularity,
            history_append_granularity,
        }
    }

    /// The path of the cached test list.
    pub fn cache_file_path(&self) -> (r: &String)
        ensures
            r@ == self.cache_file(),
    {
        &self.cache_file
    }

    /// The path of the history of granularity `g`.
    pub fn history_file_path(&self, g: HistoryGranularity) -> (r: &String)
        ensures
            r@ == self.history_file(g),
    {
        match g {
            HistoryGranularity::Test => &self.history_test_granularity,
            HistoryGranularity::File => &self.history_file_granularity,
            HistoryGranularity::Directory => &self.history_directory_granularity,
            HistoryGranularity::RunTime => &self.history_runtime_granularity,
            HistoryGranularity::Append => &self.history_append_granularity,
        }
    }

    /// The paths of all history files.
    pub fn history_file_paths(&self) -> (r: Vec<&String>)
        ensures
            r@.len() == 5,
            r@[0]@ == self.history_file(HistoryGranularity::Test),
            r@[1]@ == self.history_file(HistoryGranularity::File),
            r@[2]@ == self.history_file(HistoryGranularity::Directory),
            r@[3]@ == self.history_file(HistoryGranularity::RunTime),
            r@[4]@ == self.history_file(HistoryGranularity::Append),
    {
        let mut r = Vec::new();
        r.push(&self.history_test_granularity);
        r.push(&self.history_file_granularity);
        r.push(&self.history_directory_granularity);
        r.push(&self.history_runtime_granularity);
        r.push(&self.history_append_granularity);
        r
    }
}

/// A history as nested character sequences, the most recent selection first.
pub open spec fn history_view(h: Seq<Vec<String>>) -> Seq<Seq<Seq<char>>> {
    h.map_values(|s: Vec<String>| str_views(s@))
}

/// The history after recording `selection`: an empty selection changes nothing; otherwise it
/// goes first, and the oldest selection is dropped when more than `HISTORY_SIZE` would remain.
pub open spec fn history_after(h: Seq<Seq<Seq<char>>>, selection: Seq<Seq<char>>) -> Seq<Seq<Seq<char>>> {
    if selection.len() == 0 {
        h
    } else {
        let h2 = seq![selection] + h;
        if h2.len() > HISTORY_SIZE {
            h2.drop_last()
        } else {
            h2
        }
    }
}

/// The most recent selection of a history, or none.
pub open spec fn most_recent(h: Seq<Seq<Seq<char>>>) -> Seq<Seq<char>> {
    if h.len() > 0 {
        h[0]
    } else {
        Seq::empty()
    }
}

/// A copy of a list of strings.
pub fn copy_strings(v: &[String]) -> (r: Vec<String>)
    ensures
        str_views(r@) == str_views(v@),
{
    let mut r: Vec<String> = Vec::new();
    let mut i: usize = 0;
    while i < v.len()
        invariant
            i <= v@.len(),
            str_views(r@) == str_views(v@).subrange(0, i as int),
        decreases v@.len() - i,
    {
        let ghost before = r@;
        r.push(v[i].clone());
        assert(str_views(r@) =~= str_views(before).push(v@[i as int]@));
        assert(str_views(r@) =~= str_views(v@).subrange(0, i + 1));
        i = i + 1;
    }
    assert(str_views(v@).subrange(0, i as int) =~= str_views(v@));
    r
}

/// Records `selection` in a history (`CacheManager::update_history` between reading and writing
/// the history file).
pub fn push_history(history: &mut Vec<Vec<String>>, selection: &[String])
    ensures
        history_view(final(history)@) == history_after(history_view(old(history)@), str_views(selection@)),
{
    if selection.len() == 0 {
        return;
    }
    let ghost h0 = history_view(history@);
    let ghost s = str_views(selection@);
    let entry = copy_strings(selection);
    history.insert(0, entry);
    assert(history_view(history@) =~= seq![s] + h0);
    if history.len() > HISTORY_SIZE {
        let ghost h2 = history_view(history@);
        history.pop();
        assert(history_view(history@) =~= h2.drop_last());
    }
}

/// The most recent selection of a history, or an empty one
/// (`CacheManager::recent_history_command` after reading the history file).
pub fn recent_selection(history: &Vec<Vec<String>>) -> (r: Vec<String>)
    ensures
        str_views(r@) == most_recent(history_view(history@)),
{
    if history.len() > 0 {
        copy_strings(&history[0])
    } else {
        let r: Vec<String> = Vec::new();
        assert(str_views(r@) =~= Seq::<Seq<char>>::empty());
        r
    }
}

/// Recording a non-empty selection makes it the most recent one: what `recent_history_command`
/// reads back is what `update_history` wrote.
pub proof fn law_recent_after_update(h: Seq<Seq<Seq<char>>>, selection: Seq<Seq<char>>)
    requires
        selection.len() > 0,
    ensures
        most_recent(history_after(h, selection)) == selection,
{
}

/// A history never grows past `HISTORY_SIZE` selections, and recording keeps every earlier
/// selection that still fits, in order, behind the new one.
pub proof fn law_history_bounded(h: Seq<Seq<Seq<char>>>, selection: Seq<Seq<char>>)
    requires
        h.len() <= HISTORY_SIZE,
    ensures
        history_after(h, selection).len() <= HISTORY_SIZE,
        selection.len() > 0 ==> forall|i: int|
            0 <= i < history_after(h, selection).len() - 1 ==> #[trigger] history_after(h, selection)[i + 1] == h[i],
{
}

/// Recording an empty selection leaves the history as it was.
pub proof fn law_empty_selection_ignored(h: Seq<Seq<Seq<char>>>)
    ensures
        history_after(h, Seq::empty()) == h,
{
}

/// Each granularity has a history of its own: the history files of two granularities of one
/// project are different files.
pub proof fn law_histories_are_separate(
    home: Seq<char>,
    project_id: Seq<char>,
    g1: HistoryGranularity,
    g2: HistoryGranularity,
)
    requires
        g1 != g2,
    ensures
        path_join(cache_dir(home), history_file_name(project_id, g1)) != path_join(
            cache_dir(home),
            history_file_name(project_id, g2),
        ),
{
    reveal_strlit("-history-test-granularity.json");
    reveal_strlit("-history-file-granularity.json");
    reveal_strlit("-history-directory-granularity.json");
    reveal_strlit("-history-runtime-granularity.json");
    reveal_strlit("-history-append-granularity.json");
    let d = cache_dir(home);
    let n1 = history_file_name(project_id, g1);
    let n2 = history_file_name(project_id, g2);
    let k: int = project_id.len() as int + 9;
    assert(n1[k] != n2[k]);
    assert(n1.len() > k && n2.len() > k);
    assert(starts_with(n1, seq!['/']) == starts_with(n2, seq!['/'])) by {
        if project_id.len() > 0 {
            assert(n1[0] == project_id[0] && n2[0] == project_id[0]);
        } else {
            assert(n1[0] == '-' && n2[0] == '-');
        }
        if starts_with(n1, seq!['/']) {
            assert(n1.subrange(0, 1)[0] == n1[0]);
            assert(n2.subrange(0, 1) =~= seq!['/']);
        }
        if starts_with(n2, seq!['/']) {
            assert(n2.subrange(0, 1)[0] == n2[0]);
            assert(n1.subrange(0, 1) =~= seq!['/']);
        }
    }
    let r1 = path_join(d, n1);
    let r2 = path_join(d, n2);
    if starts_with(n1, seq!['/']) {
        assert(r1[k] != r2[k]);
    } else if d.len() == 0 || ends_with(d, seq!['/']) {
        assert(r1[d.len() as int + k] == n1[k]);
        assert(r2[d.len() as int + k] == n2[k]);
    } else {
        assert(r1[d.len() as int + 1 + k] == n1[k]);
        assert(r2[d.len() as int + 1 + k] == n2[k]);
    }
}

/// Whether the cached test list is written after bringing the tests up to date: when there was
/// none yet, or when the tests changed.
pub fn saves_cache(first_time: bool, changed: bool) -> (r: bool)
    ensures
        r == (first_time || changed),
{
    first_time || changed
}

/// Whether a test list written as text changed: the text that comes back differs from the text
/// that went in.
pub fn listing_changed(before: &str, after: &str) -> (r: bool)
    ensures
        r == (before@ != after@),
{
    let b = to_chars(before);
    let a = to_chars(after);
    !crate::runtime::cargo::chars_eq(&b, &a)
}

} // verus!
