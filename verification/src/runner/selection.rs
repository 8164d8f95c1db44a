//! What the user selects, and the appended selections of the append mode with their history.
use vstd::prelude::*;

use crate::cache::manager::{copy_strings, HistoryGranularity};
use crate::runner::{FilterMode, Preview, RunnerMode};
use crate::runtime::pytest::{lemma_lex_irreflexive, lemma_lex_total, lemma_lex_transitive, lex_less, lex_lt,
    test_file, test_file_chars};
use crate::test_sets::str_views;
use crate::text::{append_str, from_chars, slice_chars, to_chars};

verus! {

/// What a selection is made of.
#[derive(Debug, Clone, Copy, PartialEq, Eq, Structural)]
pub enum SelectGranularity {
    Test,
    File,
    Directory,
    RunTime,
}

/// What the user picks in the append mode: a kind of selection to add, or the end.
#[derive(Debug, Clone, Copy, PartialEq, Eq, Structural)]
pub enum Appened {
    Test,
    File,
    Directory,
    RunTime,
    List,
    Done,
}

/// The name of a granularity, as the append menu shows it.
pub open spec fn granularity_name(g: SelectGranularity) -> Seq<char> {
    match g {
        SelectGranularity::Test => "Test"@,
        SelectGranularity::File => "File"@,
        SelectGranularity::Directory => "Directory"@,
        SelectGranularity::RunTime => "Runtime"@,
    }
}

/// The name of a granularity.
pub fn granularity_text(g: SelectGranularity) -> (r: &'static str)
    ensures
        r@ == granularity_name(g),
{
    match g {
        SelectGranularity::Test => "Test",
        SelectGranularity::File => "File",
        SelectGranularity::Directory => "Directory",
        SelectGranularity::RunTime => "Runtime",
    }
}

/// The granularity of a name.
pub open spec fn granularity_named(s: Seq<char>) -> Option<SelectGranularity> {
    if s == "Test"@ {
        Some(SelectGranularity::Test)
    } else if s == "File"@ {
        Some(SelectGranularity::File)
    } else if s == "Directory"@ {
        Some(SelectGranularity::Directory)
    } else if s == "Runtime"@ {
        Some(SelectGranularity::RunTime)
    } else {
        None
    }
}

/// The names of the granularities differ, so each name reads back as its granularity.
pub proof fn law_granularity_name_roundtrip(g: SelectGranularity)
    ensures
        granularity_named(granularity_name(g)) == Some(g),
{
    reveal_strlit("Test");
    reveal_strlit("File");
    reveal_strlit("Directory");
    reveal_strlit("Runtime");
    assert("Test"@[0] != "File"@[0]);
    assert("Test"@[0] != "Directory"@[0]);
    assert("Test"@[0] != "Runtime"@[0]);
    assert("File"@[0] != "Directory"@[0]);
    assert("File"@[0] != "Runtime"@[0]);
    assert("Directory"@[0] != "Runtime"@[0]);
}

/// The granularity of a name.
pub fn granularity_from_text(s: &str) -> (r: Option<SelectGranularity>)
    ensures
        r == granularity_named(s@),
{
    let t = s.to_owned();
    if t == "Test".to_owned() {
        Some(SelectGranularity::Test)
    } else if t == "File".to_owned() {
        Some(SelectGranularity::File)
    } else if t == "Directory".to_owned() {
        Some(SelectGranularity::Directory)
    } else if t == "Runtime".to_owned() {
        Some(SelectGranularity::RunTime)
    } else {
        None
    }
}

/// The append-menu choice a picked line names.
pub open spec fn append_named(s: Seq<char>) -> Option<Appened> {
    if s == "Done"@ {
        Some(Appened::Done)
    } else if s == "Directory"@ {
        Some(Appened::Directory)
    } else if s == "File"@ {
        Some(Appened::File)
    } else if s == "Runtime"@ {
        Some(Appened::RunTime)
    } else if s == "Test"@ {
        Some(Appened::Test)
    } else {
        None
    }
}

/// The append-menu choice a picked line names.
pub fn append_from_text(s: &str) -> (r: Option<Appened>)
    ensures
        r == append_named(s@),
{
    let t = s.to_owned();
    if t == "Done".to_owned() {
        Some(Appened::Done)
    } else if t == "Directory".to_owned() {
        Some(Appened::Directory)
    } else if t == "File".to_owned() {
        Some(Appened::File)
    } else if t == "Runtime".to_owned() {
        Some(Appened::RunTime)
    } else if t == "Test".to_owned() {
        Some(Appened::Test)
    } else {
        None
    }
}

/// The granularity an append choice adds, if it adds one.
pub fn granularity_of_append(a: Appened) -> (r: Option<SelectGranularity>)
    ensures
        r == match a {
            Appened::Test => Some(SelectGranularity::Test),
            Appened::File => Some(SelectGranularity::File),
            Appened::Directory => Some(SelectGranularity::Directory),
            Appened::RunTime => Some(SelectGranularity::RunTime),
            _ => None,
        },
{
    match a {
        Appened::Test => Some(SelectGranularity::Test),
        Appened::File => Some(SelectGranularity::File),
        Appened::Directory => Some(SelectGranularity::Directory),
        Appened::RunTime => Some(SelectGranularity::RunTime),
        _ => None,
    }
}

/// The granularity of a filter mode; the append mode picks granularities as it goes.
pub fn filter_granularity(mode: FilterMode) -> (r: Option<SelectGranularity>)
    ensures
        r == match mode {
            FilterMode::Test => Some(SelectGranularity::Test),
            FilterMode::File => Some(SelectGranularity::File),
            FilterMode::Directory => Some(SelectGranularity::Directory),
            FilterMode::RunTime => Some(SelectGranularity::RunTime),
            FilterMode::Append => None,
        },
{
    match mode {
        FilterMode::Test => Some(SelectGranularity::Test),
        FilterMode::File => Some(SelectGranularity::File),
        FilterMode::Directory => Some(SelectGranularity::Directory),
        FilterMode::RunTime => Some(SelectGranularity::RunTime),
        FilterMode::Append => None,
    }
}

/// The preview while selecting: directories preview as directories when a preview is on,
/// runtime arguments have none, the rest keep the configured one.
pub fn select_preview(granularity: SelectGranularity, preview: Option<Preview>) -> (r: Option<Preview>)
    ensures
        r == match granularity {
            SelectGranularity::Directory => if preview is Some {
                Some(Preview::Directory)
            } else {
                None
            },
            SelectGranularity::RunTime => None,
            _ => preview,
        },
{
    match granularity {
        SelectGranularity::Directory => if preview.is_some() {
            Some(Preview::Directory)
        } else {
            None
        },
        SelectGranularity::RunTime => None,
        _ => preview,
    }
}

/// `n` spaces.
pub open spec fn spaces(n: nat) -> Seq<char> {
    Seq::new(n, |i: int| ' ')
}

/// `s` left-aligned in a field of 20 characters, as `{:<20}` writes it.
pub open spec fn pad20(s: Seq<char>) -> Seq<char> {
    if s.len() < 20 {
        s + spaces((20 - s.len()) as nat)
    } else {
        s
    }
}

/// The history line of an appended selection: the granularity in a field of 20 characters, a
/// space, and the selected item.
pub open spec fn append_entry(g: SelectGranularity, item: Seq<char>) -> Seq<char> {
    pad20(granularity_name(g)) + seq![' '] + item
}

/// The history line of an appended selection.
pub fn append_history_entry(g: SelectGranularity, item: &str) -> (r: String)
    ensures
        r@ == append_entry(g, item@),
{
    let name = granularity_text(g);
    let mut v = to_chars(name);
    while v.len() < 20
        invariant
            name@ == granularity_name(g),
            v@.len() <= 20 || v@ == name@,
            v@.len() >= name@.len(),
            v@ == name@ + spaces((v@.len() - name@.len()) as nat),
        decreases 20 - v@.len(),
    {
        let ghost before = v@;
        v.push(' ');
        assert(v@ =~= name@ + spaces((v@.len() - name@.len()) as nat));
    }
    assert(v@ =~= pad20(name@));
    v.push(' ');
    let mut r = from_chars(v.as_slice());
    append_str(&mut r, item);
    r
}

/// The selections grouped by granularity, in the order each granularity was first added.
pub open spec fn selection_view(s: Seq<(SelectGranularity, Vec<String>)>) -> Seq<(SelectGranularity, Seq<Seq<char>>)> {
    s.map_values(|e: (SelectGranularity, Vec<String>)| (e.0, str_views(e.1@)))
}

/// Each granularity appears at most once.
pub open spec fn distinct_granularities(s: Seq<(SelectGranularity, Seq<Seq<char>>)>) -> bool {
    forall|i: int, j: int| 0 <= i < s.len() && 0 <= j < s.len() && i != j ==> s[i].0 != s[j].0
}

/// `s` after adding `items` under `g`: appended to the group of `g`, or a new group at the end.
pub open spec fn add_items(s: Seq<(SelectGranularity, Seq<Seq<char>>)>, g: SelectGranularity, items: Seq<Seq<char>>) -> Seq<
    (SelectGranularity, Seq<Seq<char>>),
> {
    if exists|i: int| 0 <= i < s.len() && s[i].0 == g {
        let i = choose|i: int| 0 <= i < s.len() && s[i].0 == g;
        s.update(i, (g, s[i].1 + items))
    } else {
        s.push((g, items))
    }
}

/// Adds `items` under `g`.
pub fn add_selected(selection: &mut Vec<(SelectGranularity, Vec<String>)>, g: SelectGranularity, items: &[String])
    requires
        distinct_granularities(selection_view(old(selection)@)),
    ensures
        distinct_granularities(selection_view(final(selection)@)),
        selection_view(final(selection)@) == add_items(selection_view(old(selection)@), g, str_views(items@)),
{
    let ghost s0 = selection_view(selection@);
    let mut i: usize = 0;
    while i < selection.len()
        invariant
            i <= selection@.len(),
            s0 == selection_view(selection@),
            s0 == selection_view(old(selection)@),
            distinct_granularities(s0),
            forall|j: int| 0 <= j < i ==> selection@[j].0 != g,
        decreases selection@.len() - i,
    {
        if selection[i].0 == g {
            let (k, mut v) = selection.remove(i);
            let ghost v0 = v@;
            let mut j: usize = 0;
            while j < items.len()
                invariant
                    j <= items@.len(),
                    str_views(v@) == str_views(v0) + str_views(items@.subrange(0, j as int)),
                decreases items@.len() - j,
            {
                let ghost before = v@;
                v.push(items[j].clone());
                assert(str_views(v@) =~= str_views(before).push(items@[j as int]@));
                assert(str_views(items@.subrange(0, j + 1)) =~= str_views(items@.subrange(0, j as int)).push(items@[j as int]@));
                j = j + 1;
            }
            assert(items@.subrange(0, j as int) =~= items@);
            selection.insert(i, (k, v));
            proof {
                assert(s0[i as int].0 == g);
                assert forall|a: int| 0 <= a < s0.len() && s0[a].0 == g implies a == i by {
                    if a != i {
                        assert(s0[a].0 != s0[i as int].0);
                    }
                }
                let c = choose|a: int| 0 <= a < s0.len() && s0[a].0 == g;
                assert(c == i);
                assert(s0[i as int].1 == str_views(v0));
                assert(k == g);
                assert(selection_view(selection@) =~= s0.update(i as int, (g, s0[i as int].1 + str_views(items@))));
                assert(add_items(s0, g, str_views(items@)) == s0.update(i as int, (g, s0[i as int].1 + str_views(items@))));
            }
            return;
        }
        i = i + 1;
    }
    let copy = crate::cache::manager::copy_strings(items);
    selection.push((g, copy));
    assert(selection_view(selection@) =~= s0.push((g, str_views(items@))));
}

/// Where the first space of a history line is.
pub open spec fn first_space(e: Seq<char>) -> Option<int> {
    if exists|i: int| 0 <= i < e.len() && e[i] == ' ' {
        Some(choose|i: int| 0 <= i < e.len() && e[i] == ' ' && forall|j: int| 0 <= j < i ==> e[j] != ' ')
    } else {
        None
    }
}

/// A history line of the append mode can be read: it has a space, and before the first one the
/// name of a granularity.
pub open spec fn readable_entry(e: Seq<char>) -> bool {
    first_space(e) matches Some(i) && granularity_named(e.subrange(0, i)) is Some
}

/// The granularity and item of a readable history line: the name before the first space, and
/// all that follows that space.
pub open spec fn entry_parts(e: Seq<char>) -> (SelectGranularity, Seq<char>) {
    let i = first_space(e)->0;
    (granularity_named(e.subrange(0, i))->0, e.subrange(i + 1, e.len() as int))
}

/// The selections that history lines stand for, grouped by granularity.
pub open spec fn parsed_history(h: Seq<Seq<char>>) -> Seq<(SelectGranularity, Seq<Seq<char>>)>
    decreases h.len(),
{
    if h.len() == 0 {
        Seq::empty()
    } else {
        let (g, item) = entry_parts(h.last());
        add_items(parsed_history(h.drop_last()), g, seq![item])
    }
}

/// Whether a history line of the append mode can be read.
pub fn is_readable_entry(e: &str) -> (r: bool)
    ensures
        r == readable_entry(e@),
{
    let chars = to_chars(e);
    let mut i: usize = 0;
    while i < chars.len() && chars[i] != ' '
        invariant
            i <= chars@.len(),
            chars@ == e@,
            forall|j: int| 0 <= j < i ==> chars@[j] != ' ',
        decreases chars@.len() - i,
    {
        i = i + 1;
    }
    if i == chars.len() {
        assert(first_space(e@) is None);
        return false;
    }
    proof {
        let k = first_space(e@)->0;
        assert(e@[i as int] == ' ');
        assert(0 <= k < e@.len() && e@[k] == ' ' && forall|j: int| 0 <= j < k ==> e@[j] != ' ');
        if (i as int) < k {
            assert(e@[i as int] == ' ');
        }
        if (i as int) > k {
            assert(chars@[k] != ' ');
        }
    }
    let name = from_chars(slice_chars(chars.as_slice(), 0, i).as_slice());
    granularity_from_text(name.as_str()).is_some()
}

/// Splits a readable history line.
fn split_entry(e: &str) -> (r: (SelectGranularity, String))
    requires
        readable_entry(e@),
    ensures
        (r.0, r.1@) == entry_parts(e@),
{
    let chars = to_chars(e);
    let mut i: usize = 0;
    while i < chars.len() && chars[i] != ' '
        invariant
            i <= chars@.len(),
            chars@ == e@,
            forall|j: int| 0 <= j < i ==> chars@[j] != ' ',
        decreases chars@.len() - i,
    {
        i = i + 1;
    }
    proof {
        let k = first_space(e@)->0;
        assert(0 <= k < e@.len() && e@[k] == ' ' && forall|j: int| 0 <= j < k ==> e@[j] != ' ');
        if (i as int) < k {
            assert(e@[i as int] == ' ');
        }
        if (i as int) > k {
            assert(chars@[k] != ' ');
        }
    }
    let name = from_chars(slice_chars(chars.as_slice(), 0, i).as_slice());
    let item = from_chars(slice_chars(chars.as_slice(), i + 1, chars.len()).as_slice());
    let g = granularity_from_text(name.as_str());
    (g.unwrap(), item)
}

/// Reads history lines of the append mode back into selections grouped by granularity, or
/// nothing when a line cannot be read (a history this program did not write).
pub fn read_append_history(history: &[String]) -> (r: Option<Vec<(SelectGranularity, Vec<String>)>>)
    ensures
        match r {
            Some(v) => (forall|i: int| 0 <= i < history@.len() ==> readable_entry(#[trigger] history@[i]@))
                && selection_view(v@) == parsed_history(str_views(history@))
                && distinct_granularities(selection_view(v@)),
            None => exists|i: int| 0 <= i < history@.len() && !readable_entry(#[trigger] history@[i]@),
        },
{
    let mut i: usize = 0;
    while i < history.len()
        invariant
            i <= history@.len(),
            forall|k: int| 0 <= k < i ==> readable_entry(#[trigger] history@[k]@),
        decreases history@.len() - i,
    {
        if !is_readable_entry(history[i].as_str()) {
            return None;
        }
        i = i + 1;
    }
    Some(parse_append_history(history))
}

/// Reads the history lines of the append mode back into selections grouped by granularity.
/// Every line must be readable, as the lines this program writes are.
pub fn parse_append_history(history: &[String]) -> (r: Vec<(SelectGranularity, Vec<String>)>)
    requires
        forall|i: int| 0 <= i < history@.len() ==> readable_entry(#[trigger] history@[i]@),
    ensures
        selection_view(r@) == parsed_history(str_views(history@)),
        distinct_granularities(selection_view(r@)),
{
    let mut r: Vec<(SelectGranularity, Vec<String>)> = Vec::new();
    assert(selection_view(r@) =~= Seq::empty());
    let mut i: usize = 0;
    while i < history.len()
        invariant
            i <= history@.len(),
            forall|k: int| 0 <= k < history@.len() ==> readable_entry(#[trigger] history@[k]@),
            selection_view(r@) == parsed_history(str_views(history@.subrange(0, i as int))),
            distinct_granularities(selection_view(r@)),
        decreases history@.len() - i,
    {
        let (g, item) = split_entry(history[i].as_str());
        let one: Vec<String> = vec![item];
        assert(str_views(one@) =~= seq![item@]);
        add_selected(&mut r, g, one.as_slice());
        assert(str_views(history@.subrange(0, i + 1)).drop_last() =~= str_views(history@.subrange(0, i as int)));
        i = i + 1;
    }
    assert(history@.subrange(0, i as int) =~= history@);
    r
}

/// Lines joined by line breaks.
pub open spec fn joined_lines(items: Seq<Seq<char>>) -> Seq<char>
    decreases items.len(),
{
    if items.len() == 0 {
        Seq::empty()
    } else if items.len() == 1 {
        items[0]
    } else {
        joined_lines(items.drop_last()) + seq!['\n'] + items.last()
    }
}

/// `n` dashes.
pub open spec fn dashes(n: nat) -> Seq<char> {
    Seq::new(n, |i: int| '-')
}

/// The preview block of one granularity: its name, underlined, then its items, one per line,
/// then an empty line.
pub open spec fn preview_block(g: SelectGranularity, items: Seq<Seq<char>>) -> Seq<char> {
    granularity_name(g) + seq!['\n'] + dashes(granularity_name(g).len()) + seq!['\n'] + joined_lines(items) + seq!['\n', '\n']
}

/// The preview of all selections so far.
pub open spec fn selection_preview(s: Seq<(SelectGranularity, Seq<Seq<char>>)>) -> Seq<char>
    decreases s.len(),
{
    if s.len() == 0 {
        Seq::empty()
    } else {
        selection_preview(s.drop_last()) + preview_block(s.last().0, s.last().1)
    }
}

/// The preview shown while appending selections.
pub fn append_selection_to_preview(selection: &Vec<(SelectGranularity, Vec<String>)>) -> (r: String)
    ensures
        r@ == selection_preview(selection_view(selection@)),
{
    let mut out: Vec<char> = Vec::new();
    let mut i: usize = 0;
    while i < selection.len()
        invariant
            i <= selection@.len(),
            out@ == selection_preview(selection_view(selection@.subrange(0, i as int))),
        decreases selection@.len() - i,
    {
        let (g, items) = &selection[i];
        let ghost start = out@;
        let name = to_chars(granularity_text(*g));
        crate::text::append_chars(&mut out, name.as_slice());
        out.push('\n');
        let mut d: usize = 0;
        while d < name.len()
            invariant
                d <= name@.len(),
                out@ == start + name@ + seq!['\n'] + dashes(d as nat),
            decreases name@.len() - d,
        {
            out.push('-');
            d = d + 1;
            assert(out@ =~= start + name@ + seq!['\n'] + dashes(d as nat));
        }
        out.push('\n');
        let ghost head = out@;
        let mut j: usize = 0;
        while j < items.len()
            invariant
                j <= items@.len(),
                out@ == head + joined_lines(str_views(items@.subrange(0, j as int))),
            decreases items@.len() - j,
        {
            if j > 0 {
                out.push('\n');
            }
            let t = to_chars(items[j].as_str());
            crate::text::append_chars(&mut out, t.as_slice());
            assert(str_views(items@.subrange(0, j + 1)).drop_last() =~= str_views(items@.subrange(0, j as int)));
            assert(out@ =~= head + joined_lines(str_views(items@.subrange(0, j + 1))));
            j = j + 1;
        }
        assert(items@.subrange(0, j as int) =~= items@);
        out.push('\n');
        out.push('\n');
        assert(selection_view(selection@.subrange(0, i + 1)).drop_last() =~= selection_view(selection@.subrange(0, i as int)));
        assert(out@ =~= selection_preview(selection_view(selection@.subrange(0, i + 1))));
        i = i + 1;
    }
    assert(selection@.subrange(0, i as int) =~= selection@);
    from_chars(out.as_slice())
}

/// The history lines of the selections: one line per item, group after group.
pub open spec fn selection_entries(s: Seq<(SelectGranularity, Seq<Seq<char>>)>) -> Seq<Seq<char>>
    decreases s.len(),
{
    if s.len() == 0 {
        Seq::empty()
    } else {
        selection_entries(s.drop_last()) + s.last().1.map_values(|t: Seq<char>| append_entry(s.last().0, t))
    }
}

/// The history lines that record the selections.
pub fn history_update(selection: &Vec<(SelectGranularity, Vec<String>)>) -> (r: Vec<String>)
    ensures
        str_views(r@) == selection_entries(selection_view(selection@)),
{
    let mut r: Vec<String> = Vec::new();
    assert(str_views(r@) =~= Seq::<Seq<char>>::empty());
    let mut i: usize = 0;
    while i < selection.len()
        invariant
            i <= selection@.len(),
            str_views(r@) == selection_entries(selection_view(selection@.subrange(0, i as int))),
        decreases selection@.len() - i,
    {
        let (g, items) = &selection[i];
        let ghost start = str_views(r@);
        let mut j: usize = 0;
        while j < items.len()
            invariant
                j <= items@.len(),
                str_views(r@) == start + str_views(items@.subrange(0, j as int)).map_values(|t: Seq<char>| append_entry(*g, t)),
            decreases items@.len() - j,
        {
            let ghost before = r@;
            r.push(append_history_entry(*g, items[j].as_str()));
            assert(str_views(r@) =~= str_views(before).push(append_entry(*g, items@[j as int]@)));
            assert(str_views(items@.subrange(0, j + 1)).map_values(|t: Seq<char>| append_entry(*g, t)) =~= str_views(
                items@.subrange(0, j as int),
            ).map_values(|t: Seq<char>| append_entry(*g, t)).push(append_entry(*g, items@[j as int]@)));
            j = j + 1;
        }
        assert(items@.subrange(0, j as int) =~= items@);
        assert(selection_view(selection@.subrange(0, i + 1)).drop_last() =~= selection_view(selection@.subrange(0, i as int)));
        i = i + 1;
    }
    assert(selection@.subrange(0, i as int) =~= selection@);
    r
}

/// A history line of the append mode reads back as its granularity and its item, the item
/// behind the rest of the padding: the line is split at its first space, which ends the
/// granularity's name.
pub proof fn law_append_entry_reads_back(g: SelectGranularity, item: Seq<char>)
    ensures
        readable_entry(append_entry(g, item)),
        entry_parts(append_entry(g, item)) == (g, spaces((20 - granularity_name(g).len()) as nat) + item),
{
    reveal_strlit("Test");
    reveal_strlit("File");
    reveal_strlit("Directory");
    reveal_strlit("Runtime");
    law_granularity_name_roundtrip(g);
    let name = granularity_name(g);
    let e = append_entry(g, item);
    let n = name.len() as int;
    assert(n < 20);
    assert(forall|j: int| 0 <= j < n ==> name[j] != ' ');
    assert(e[n] == ' ');
    assert forall|j: int| 0 <= j < n implies e[j] != ' ' by {
        assert(e[j] == name[j]);
    }
    let k = first_space(e)->0;
    assert(e[k] == ' ' && forall|j: int| 0 <= j < k ==> e[j] != ' ');
    if k < n {
        assert(e[k] == name[k]);
    }
    if k > n {
        assert(e[n] != ' ');
    }
    assert(k == n);
    assert(e.subrange(0, n) =~= name);
    assert(e.subrange(n + 1, e.len() as int) =~= spaces((20 - n) as nat) + item);
}

/// The directory part of a file path: what comes before its last `/`, or nothing when it has
/// none.
pub open spec fn directory_of(f: Seq<char>) -> Seq<char>
    decreases f.len(),
{
    if f.len() == 0 {
        Seq::empty()
    } else if f.last() == '/' {
        f.drop_last()
    } else {
        directory_of(f.drop_last())
    }
}

/// The directory part of a file path.
pub fn directory_chars(f: &[char]) -> (r: Vec<char>)
    ensures
        r@ == directory_of(f@),
{
    let mut i: usize = f.len();
    assert(f@.subrange(0, i as int) =~= f@);
    while i > 0 && f[i - 1] != '/'
        invariant
            i <= f@.len(),
            directory_of(f@) == directory_of(f@.subrange(0, i as int)),
        decreases i,
    {
        assert(f@.subrange(0, i as int).drop_last() =~= f@.subrange(0, i - 1));
        i = i - 1;
    }
    if i == 0 {
        assert(f@.subrange(0, 0) =~= Seq::<char>::empty());
        Vec::new()
    } else {
        assert(f@.subrange(0, i as int).drop_last() =~= f@.subrange(0, i - 1));
        slice_chars(f, 0, i - 1)
    }
}

/// What a test offers to a selection at a granularity: its file, the directory of its file, or
/// the test itself.
pub open spec fn candidate_item(g: SelectGranularity, test: Seq<char>) -> Seq<char> {
    match g {
        SelectGranularity::File => test_file(test),
        SelectGranularity::Directory => directory_of(test_file(test)),
        _ => test,
    }
}

/// Each string comes before the next ones, so none occurs twice.
pub open spec fn strictly_sorted(s: Seq<Seq<char>>) -> bool {
    forall|i: int, j: int| 0 <= i < j < s.len() ==> lex_lt(#[trigger] s[i], #[trigger] s[j])
}

/// What the tests offer to a selection at a granularity.
pub open spec fn candidate_set(tests: Seq<Seq<char>>, g: SelectGranularity) -> Set<Seq<char>> {
    Set::new(|c: Seq<char>| exists|i: int| 0 <= i < tests.len() && #[trigger] candidate_item(g, tests[i]) == c)
}

/// Adds `x` to a sorted list of strings, where it is not there yet.
fn insert_sorted(v: &mut Vec<String>, x: String)
    requires
        strictly_sorted(str_views(old(v)@)),
    ensures
        strictly_sorted(str_views(final(v)@)),
        str_views(final(v)@).to_set() == str_views(old(v)@).to_set().insert(x@),
{
    let xc = to_chars(x.as_str());
    let ghost s0 = str_views(v@);
    let mut k: usize = 0;
    let mut found = false;
    let mut stop = false;
    while k < v.len() && !stop
        invariant
            k <= v@.len(),
            s0 == str_views(v@),
            xc@ == x@,
            forall|j: int| 0 <= j < k ==> lex_lt(#[trigger] s0[j], x@),
            stop ==> k < v@.len() && !lex_lt(s0[k as int], x@) && found == !lex_lt(x@, s0[k as int]),
            !stop ==> !found,
        decreases v@.len() - k, if stop { 0int } else { 1int },
    {
        let vc = to_chars(v[k].as_str());
        assert(vc@ == s0[k as int]);
        if !lex_less(vc.as_slice(), xc.as_slice()) {
            found = !lex_less(xc.as_slice(), vc.as_slice());
            stop = true;
        } else {
            k = k + 1;
        }
    }
    proof {
        if k < s0.len() {
            lemma_lex_total(s0[k as int], x@);
            assert(found ==> s0[k as int] == x@);
            assert(!found ==> lex_lt(x@, s0[k as int]));
        }
    }
    if found {
        proof {
            assert(0 <= k < s0.len());
            assert(s0.to_set().contains(s0[k as int]));
            assert(s0.to_set().insert(x@) =~= s0.to_set());
        }
        return;
    }
    v.insert(k, x);
    let ghost s1 = str_views(v@);
    assert(s1 =~= s0.insert(k as int, x@));
    assert forall|i: int, j: int| 0 <= i < j < s1.len() implies lex_lt(#[trigger] s1[i], #[trigger] s1[j]) by {
        if j < k {
            assert(s1[i] == s0[i] && s1[j] == s0[j]);
        } else if j == k {
            assert(s1[i] == s0[i]);
        } else if i == k {
            assert(s1[j] == s0[j - 1]);
            if j - 1 > k {
                lemma_lex_transitive(x@, s0[k as int], s0[j - 1]);
            }
        } else if i < k {
            assert(s1[i] == s0[i] && s1[j] == s0[j - 1]);
            assert(lex_lt(s0[i], x@));
            if k < s0.len() {
                lemma_lex_transitive(s0[i], x@, s0[k as int]);
                if j - 1 > k {
                    lemma_lex_transitive(s0[i], s0[k as int], s0[j - 1]);
                }
            }
        } else {
            assert(s1[i] == s0[i - 1] && s1[j] == s0[j - 1]);
        }
    }
    assert(s1.to_set() =~= s0.to_set().insert(x@)) by {
        assert forall|c: Seq<char>| s1.to_set().contains(c) implies s0.to_set().insert(x@).contains(c) by {
            let i = choose|i: int| 0 <= i < s1.len() && s1[i] == c;
            if i < k {
                assert(s0[i] == c);
            } else if i > k {
                assert(s0[i - 1] == c);
            }
        }
        assert forall|c: Seq<char>| s0.to_set().insert(x@).contains(c) implies s1.to_set().contains(c) by {
            if c == x@ {
                assert(s1[k as int] == c);
            } else {
                let i = choose|i: int| 0 <= i < s0.len() && s0[i] == c;
                if i < k {
                    assert(s1[i] == c);
                } else {
                    assert(s1[i + 1] == c);
                }
            }
        }
    }
}

/// The items a selection at a granularity picks from: the tests themselves, or the files or the
/// directories of their files, each once and in sorted order.
pub fn selection_candidates(tests: &[String], g: SelectGranularity) -> (r: Vec<String>)
    ensures
        g is File || g is Directory ==> strictly_sorted(str_views(r@))
            && str_views(r@).to_set() == candidate_set(str_views(tests@), g),
        !(g is File || g is Directory) ==> str_views(r@) == str_views(tests@),
{
    if !(g == SelectGranularity::File || g == SelectGranularity::Directory) {
        return copy_strings(tests);
    }
    let ghost ts = str_views(tests@);
    let mut r: Vec<String> = Vec::new();
    assert(str_views(r@).to_set() =~= Set::<Seq<char>>::empty());
    let mut i: usize = 0;
    while i < tests.len()
        invariant
            i <= tests@.len(),
            ts == str_views(tests@),
            g is File || g is Directory,
            strictly_sorted(str_views(r@)),
            str_views(r@).to_set() == candidate_set(ts.subrange(0, i as int), g),
        decreases tests@.len() - i,
    {
        let file = test_file_chars(tests[i].as_str());
        let item = if g == SelectGranularity::File {
            from_chars(file.as_slice())
        } else {
            from_chars(directory_chars(file.as_slice()).as_slice())
        };
        assert(item@ == candidate_item(g, ts[i as int]));
        insert_sorted(&mut r, item);
        assert(candidate_set(ts.subrange(0, i + 1), g) =~= candidate_set(ts.subrange(0, i as int), g).insert(item@)) by {
            assert forall|c: Seq<char>| candidate_set(ts.subrange(0, i + 1), g).contains(c) implies candidate_set(ts.subrange(0, i as int), g).insert(item@).contains(c) by {
                let j = choose|j: int| 0 <= j < i + 1 && #[trigger] candidate_item(g, ts.subrange(0, i + 1)[j]) == c;
                if j < i {
                    assert(ts.subrange(0, i as int)[j] == ts.subrange(0, i + 1)[j]);
                }
            }
            assert forall|c: Seq<char>| candidate_set(ts.subrange(0, i as int), g).insert(item@).contains(c) implies candidate_set(ts.subrange(0, i + 1), g).contains(c) by {
                if c == item@ {
                    assert(ts.subrange(0, i + 1)[i as int] == ts[i as int]);
                } else {
                    let j = choose|j: int| 0 <= j < i && #[trigger] candidate_item(g, ts.subrange(0, i as int)[j]) == c;
                    assert(ts.subrange(0, i as int)[j] == ts.subrange(0, i + 1)[j]);
                }
            }
        }
        i = i + 1;
    }
    assert(ts.subrange(0, i as int) =~= ts);
    r
}

/// The history that records selections at a granularity: each granularity has its own.
pub open spec fn history_of(g: SelectGranularity) -> HistoryGranularity {
    match g {
        SelectGranularity::Test => HistoryGranularity::Test,
        SelectGranularity::File => HistoryGranularity::File,
        SelectGranularity::Directory => HistoryGranularity::Directory,
        SelectGranularity::RunTime => HistoryGranularity::RunTime,
    }
}

/// The history that records selections at granularity `g`.
pub fn history_granularity(g: SelectGranularity) -> (r: HistoryGranularity)
    ensures
        r == history_of(g),
{
    match g {
        SelectGranularity::Test => HistoryGranularity::Test,
        SelectGranularity::File => HistoryGranularity::File,
        SelectGranularity::Directory => HistoryGranularity::Directory,
        SelectGranularity::RunTime => HistoryGranularity::RunTime,
    }
}

/// What a run does to find the tests to run, by its mode: run everything offered, run the most
/// recent selection of a history, pick a past selection from a history (and record it again), or
/// select anew (and record the selection).
#[derive(Debug, Clone, Copy, PartialEq, Eq, Structural)]
pub enum ModeStep {
    All,
    Last(HistoryGranularity),
    History(HistoryGranularity),
    Select(HistoryGranularity),
}

/// The history of a filter mode: that of its granularity, or the append history.
pub open spec fn filter_history(filter: FilterMode) -> HistoryGranularity {
    match filter {
        FilterMode::Test => HistoryGranularity::Test,
        FilterMode::File => HistoryGranularity::File,
        FilterMode::Directory => HistoryGranularity::Directory,
        FilterMode::RunTime => HistoryGranularity::RunTime,
        FilterMode::Append => HistoryGranularity::Append,
    }
}

/// What a run in `mode` with the filter mode `filter` does to find its tests.
pub open spec fn mode_step_of(mode: RunnerMode, filter: FilterMode) -> ModeStep {
    match mode {
        RunnerMode::All => ModeStep::All,
        RunnerMode::Last => ModeStep::Last(filter_history(filter)),
        RunnerMode::History => ModeStep::History(filter_history(filter)),
        RunnerMode::Select => ModeStep::Select(filter_history(filter)),
    }
}

/// What a run in `mode` with the filter mode `filter` does to find its tests.
pub fn mode_step(mode: RunnerMode, filter: FilterMode) -> (r: ModeStep)
    ensures
        r == mode_step_of(mode, filter),
        filter != FilterMode::Append ==> (filter_granularity_of(filter) matches Some(g) && filter_history(filter) == history_of(g)),
{
    let history = match filter {
        FilterMode::Test => HistoryGranularity::Test,
        FilterMode::File => HistoryGranularity::File,
        FilterMode::Directory => HistoryGranularity::Directory,
        FilterMode::RunTime => HistoryGranularity::RunTime,
        FilterMode::Append => HistoryGranularity::Append,
    };
    match mode {
        RunnerMode::All => ModeStep::All,
        RunnerMode::Last => ModeStep::Last(history),
        RunnerMode::History => ModeStep::History(history),
        RunnerMode::Select => ModeStep::Select(history),
    }
}

/// The granularity of a filter mode, as `filter_granularity` gives it.
pub open spec fn filter_granularity_of(filter: FilterMode) -> Option<SelectGranularity> {
    match filter {
        FilterMode::Test => Some(SelectGranularity::Test),
        FilterMode::File => Some(SelectGranularity::File),
        FilterMode::Directory => Some(SelectGranularity::Directory),
        FilterMode::RunTime => Some(SelectGranularity::RunTime),
        FilterMode::Append => None,
    }
}

/// The next step of the append mode after a choice: finish, select at a granularity, or ask
/// again.
#[derive(Debug, Clone, Copy, PartialEq, Eq, Structural)]
pub enum AppendStep {
    Finish,
    Pick(SelectGranularity),
    Again,
}

/// The next step of the append mode after the choice `a`: `Done` finishes, a granularity is
/// selected at, and any other choice asks again.
pub fn append_step(a: Appened) -> (r: AppendStep)
    ensures
        r == match a {
            Appened::Done => AppendStep::Finish,
            Appened::Test => AppendStep::Pick(SelectGranularity::Test),
            Appened::File => AppendStep::Pick(SelectGranularity::File),
            Appened::Directory => AppendStep::Pick(SelectGranularity::Directory),
            Appened::RunTime => AppendStep::Pick(SelectGranularity::RunTime),
            Appened::List => AppendStep::Again,
        },
{
    match a {
        Appened::Done => AppendStep::Finish,
        Appened::List => AppendStep::Again,
        _ => match granularity_of_append(a) {
            Some(g) => AppendStep::Pick(g),
            None => AppendStep::Again,
        },
    }
}

/// The items of selections grouped by granularity, group after group.
pub open spec fn flat_items(s: Seq<(SelectGranularity, Seq<Seq<char>>)>) -> Seq<Seq<char>>
    decreases s.len(),
{
    if s.len() == 0 {
        Seq::empty()
    } else {
        flat_items(s.drop_last()) + s.last().1
    }
}

/// The items of selections grouped by granularity, group after group: what the append mode runs.
pub fn selected_items(selection: &Vec<(SelectGranularity, Vec<String>)>) -> (r: Vec<String>)
    ensures
        str_views(r@) == flat_items(selection_view(selection@)),
{
    let ghost sv = selection_view(selection@);
    let mut r: Vec<String> = Vec::new();
    let mut i: usize = 0;
    assert(sv.take(0) =~= Seq::<(SelectGranularity, Seq<Seq<char>>)>::empty());
    while i < selection.len()
        invariant
            i <= selection@.len(),
            sv == selection_view(selection@),
            str_views(r@) == flat_items(sv.take(i as int)),
        decreases selection@.len() - i,
    {
        assert(sv.take(i + 1).drop_last() =~= sv.take(i as int));
        assert(sv.take(i + 1).last() == sv[i as int]);
        let items = &selection[i].1;
        let ghost base = str_views(r@);
        assert(sv[i as int].1 == str_views(items@));
        let mut j: usize = 0;
        while j < items.len()
            invariant
                j <= items@.len(),
                str_views(r@) == base + str_views(items@).take(j as int),
            decreases items@.len() - j,
        {
            let ghost prev = r@;
            r.push(items[j].clone());
            assert(str_views(r@) =~= str_views(prev).push(items@[j as int]@));
            assert(str_views(items@).take(j + 1) =~= str_views(items@).take(j as int).push(items@[j as int]@));
            j = j + 1;
        }
        assert(str_views(items@).take(j as int) =~= str_views(items@));
        i = i + 1;
    }
    assert(sv.take(i as int) =~= sv);
    r
}

} // verus!
