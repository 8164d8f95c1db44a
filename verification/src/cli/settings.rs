//! The user's settings file: `key = value` lines.
use vstd::prelude::*;

use crate::test_sets::{distinct_keys, has_key, keyed_map, lemma_key_index, lemma_push_entry, lemma_update_entry, position_of};
use crate::text::{find, find_chars, from_chars, lines, slice_chars, split_lines, starts_with, to_chars, trim, trim_chars, views};

verus! {

/// The value of a string.
pub open spec fn string_view(s: String) -> Seq<char> {
    s@
}

/// Settings: values by key.
pub struct ConfigMap {
    entries: Vec<(String, String)>,
}

impl ConfigMap {
    #[verifier::type_invariant]
    spec fn well_formed(self) -> bool {
        distinct_keys(self.entries@)
    }
}

impl View for ConfigMap {
    type V = Map<Seq<char>, Seq<char>>;

    closed spec fn view(&self) -> Map<Seq<char>, Seq<char>> {
        keyed_map(self.entries@, |v: String| string_view(v))
    }
}

impl ConfigMap {
    pub fn new() -> (r: ConfigMap)
        ensures
            r@ == Map::<Seq<char>, Seq<char>>::empty(),
    {
        let r = ConfigMap { entries: Vec::new() };
        assert(r@ =~= Map::<Seq<char>, Seq<char>>::empty());
        r
    }

    /// Sets `key` to `value`, replacing an earlier value.
    pub fn insert(&mut self, key: String, value: String)
        ensures
            final(self)@ == old(self)@.insert(key@, value@),
    {
        proof {
            use_type_invariant(&*self);
        }
        let mut e: Vec<(String, String)> = Vec::new();
        std::mem::swap(&mut e, &mut self.entries);
        let ghost e0 = e@;
        match position_of(&e, &key) {
            Some(i) => {
                proof {
                    lemma_update_entry(e0, i as int, (key, value), |v: String| string_view(v));
                }
                e.set(i, (key, value));
            },
            None => {
                proof {
                    lemma_push_entry(e0, (key, value), |v: String| string_view(v));
                }
                e.push((key, value));
            },
        }
        self.entries = e;
    }

    /// The value of `key`.
    pub fn get(&self, key: &str) -> (r: Option<&String>)
        ensures
            match r {
                Some(v) => self@.dom().contains(key@) && self@[key@] == v@,
                None => !self@.dom().contains(key@),
            },
    {
        proof {
            use_type_invariant(self);
        }
        let k = key.to_owned();
        match position_of(&self.entries, &k) {
            Some(i) => {
                proof {
                    lemma_key_index(self.entries@, i as int);
                }
                Some(&self.entries[i].1)
            },
            None => None,
        }
    }

    /// The number of keys.
    pub fn len(&self) -> (r: usize)
        ensures
            r == self@.dom().len(),
    {
        proof {
            use_type_invariant(self);
            lemma_keyed_dom_len(self.entries@, |v: String| string_view(v));
        }
        self.entries.len()
    }

    /// Whether no key is set.
    pub fn is_empty(&self) -> (r: bool)
        ensures
            r == (self@.dom().len() == 0),
    {
        self.len() == 0
    }

    /// The settings as key and value pairs, in the order the keys were first set.
    pub fn entries(&self) -> (r: &Vec<(String, String)>)
        ensures
            distinct_keys(r@),
            self@ == keyed_map(r@, |v: String| string_view(v)),
    {
        proof {
            use_type_invariant(self);
        }
        &self.entries
    }
}

/// With distinct keys, the map has as many keys as there are entries.
pub proof fn lemma_keyed_dom_len<V, W>(e: Seq<(String, V)>, f: spec_fn(V) -> W)
    requires
        distinct_keys(e),
    ensures
        keyed_map(e, f).dom().len() == e.len(),
        keyed_map(e, f).dom().finite(),
{
    let keys = e.map_values(|x: (String, V)| x.0@);
    assert(keys.no_duplicates()) by {
        assert forall|i: int, j: int| 0 <= i < keys.len() && 0 <= j < keys.len() && i != j implies keys[i] != keys[j] by {
            assert(keys[i] == e[i].0@);
            assert(keys[j] == e[j].0@);
        }
    }
    assert(keyed_map(e, f).dom() =~= keys.to_set()) by {
        assert forall|k: Seq<char>| keyed_map(e, f).dom().contains(k) implies keys.to_set().contains(k) by {
            let i = crate::test_sets::key_index(e, k);
            assert(keys[i] == k);
        }
        assert forall|k: Seq<char>| keys.to_set().contains(k) implies keyed_map(e, f).dom().contains(k) by {
            let i = choose|i: int| 0 <= i < keys.len() && keys[i] == k;
            assert(e[i].0@ == k);
        }
    }
    keys.unique_seq_to_set();
}

/// The setting a line holds, if any: lines that are empty or start with `#` after trimming hold
/// none; otherwise the trimmed text before the first `=` is the key and the trimmed text after it
/// the value, and an empty key sets nothing.
pub open spec fn config_line(line: Seq<char>) -> Option<(Seq<char>, Seq<char>)> {
    let t = trim(line);
    if t.len() == 0 || starts_with(t, seq!['#']) {
        None
    } else {
        match find(t, seq!['=']) {
            None => None,
            Some(k) => {
                let key = trim(t.subrange(0, k));
                if key.len() == 0 {
                    None
                } else {
                    Some((key, trim(t.subrange(k + 1, t.len() as int))))
                }
            },
        }
    }
}

/// The settings of a sequence of lines: each setting overrides an earlier one of its key.
pub open spec fn config_of(ls: Seq<Seq<char>>) -> Map<Seq<char>, Seq<char>>
    decreases ls.len(),
{
    if ls.len() == 0 {
        Map::empty()
    } else {
        match config_line(ls.last()) {
            Some((k, v)) => config_of(ls.drop_last()).insert(k, v),
            None => config_of(ls.drop_last()),
        }
    }
}

/// The setting a line holds, as `config_line` states it.
fn parse_line(line: &Vec<char>) -> (r: Option<(String, String)>)
    ensures
        match r {
            Some((k, v)) => config_line(line@) == Some((k@, v@)),
            None => config_line(line@) is None,
        },
{
    let t = trim_chars(line);
    if t.len() == 0 || t[0] == '#' {
        proof {
            if t@.len() > 0 {
                assert(t@.subrange(0, 1) =~= seq!['#']);
            }
        }
        return None;
    }
    assert(!starts_with(t@, seq!['#'])) by {
        if starts_with(t@, seq!['#']) {
            assert(t@.subrange(0, 1)[0] == t@[0]);
        }
    }
    let eq: [char; 1] = ['='];
    assert(eq@ =~= seq!['=']);
    let n = t.len();
    proof {
        crate::text::lemma_find(t@, seq!['=']);
    }
    match find_chars(&t, &eq) {
        None => None,
        Some(k) => {
            let key = trim_chars(&slice_chars(&t, 0, k));
            if key.len() == 0 {
                None
            } else {
                let value = trim_chars(&slice_chars(&t, k + 1, n));
                Some((from_chars(&key), from_chars(&value)))
            }
        },
    }
}

/// Reads the settings in the text of a settings file.
pub fn parse_config(content: &str) -> (r: ConfigMap)
    ensures
        r@ == config_of(lines(content@)),
{
    let chars = to_chars(content);
    let ls = split_lines(&chars);
    let mut config = ConfigMap::new();
    let mut i: usize = 0;
    assert(config_of(views(ls@).subrange(0, 0)) =~= Map::<Seq<char>, Seq<char>>::empty());
    while i < ls.len()
        invariant
            i <= ls@.len(),
            views(ls@) == lines(content@),
            config@ == config_of(views(ls@).subrange(0, i as int)),
        decreases ls@.len() - i,
    {
        assert(views(ls@).subrange(0, i + 1).drop_last() =~= views(ls@).subrange(0, i as int));
        assert(views(ls@).subrange(0, i + 1).last() == ls@[i as int]@);
        match parse_line(&ls[i]) {
            Some((k, v)) => {
                config.insert(k, v);
            },
            None => {},
        }
        i = i + 1;
    }
    assert(views(ls@).subrange(0, i as int) =~= views(ls@));
    config
}

} // verus!
