//! A map from test file paths to the set of test names found in each file.
use vstd::prelude::*;

verus! {

/// The character sequences of a list of strings.
pub open spec fn str_views(v: Seq<String>) -> Seq<Seq<char>> {
    v.map_values(|s: String| s@)
}

/// The set of names held by a list of strings.
pub open spec fn name_set(v: Seq<String>) -> Set<Seq<char>> {
    str_views(v).to_set()
}

/// Whether `n` is one of the strings in `v`.
pub fn contains_name(v: &[String], n: &String) -> (r: bool)
    ensures
        r == name_set(v@).contains(n@),
{
    let mut i: usize = 0;
    while i < v.len()
        invariant
            i <= v@.len(),
            forall|j: int| 0 <= j < i ==> v@[j]@ != n@,
        decreases v@.len() - i,
    {
        if v[i] == *n {
            assert(str_views(v@)[i as int] == n@);
            return true;
        }
        i = i + 1;
    }
    assert(!str_views(v@).contains(n@));
    false
}

/// Whether every string of `a` is also in `b`.
pub fn names_subset(a: &Vec<String>, b: &Vec<String>) -> (r: bool)
    ensures
        r == name_set(a@).subset_of(name_set(b@)),
{
    let mut i: usize = 0;
    while i < a.len()
        invariant
            i <= a@.len(),
            forall|j: int| 0 <= j < i ==> name_set(b@).contains(#[trigger] a@[j]@),
        decreases a@.len() - i,
    {
        if !contains_name(b.as_slice(), &a[i]) {
            assert(name_set(a@).contains(a@[i as int]@)) by {
                assert(str_views(a@)[i as int] == a@[i as int]@);
            }
            return false;
        }
        i = i + 1;
    }
    assert forall|x: Seq<char>| name_set(a@).contains(x) implies name_set(b@).contains(x) by {
        let j = choose|j: int| 0 <= j < str_views(a@).len() && str_views(a@)[j] == x;
        assert(a@[j]@ == x);
    }
    true
}

/// Whether two lists of strings hold the same set of names.
pub fn same_names(a: &Vec<String>, b: &Vec<String>) -> (r: bool)
    ensures
        r == (name_set(a@) == name_set(b@)),
{
    let ab = names_subset(a, b);
    let ba = names_subset(b, a);
    proof {
        if ab && ba {
            assert(name_set(a@) =~= name_set(b@));
        }
    }
    ab && ba
}

/// The strings of `v` with no name repeated.
pub open spec fn distinct_names(v: Seq<String>) -> bool {
    str_views(v).no_duplicates()
}

/// The keys of a list of entries are pairwise different.
pub open spec fn distinct_keys<V>(e: Seq<(String, V)>) -> bool {
    forall|i: int, j: int| 0 <= i < e.len() && 0 <= j < e.len() && i != j ==> e[i].0@ != e[j].0@
}

/// `k` is the key of one of the entries.
pub open spec fn has_key<V>(e: Seq<(String, V)>, k: Seq<char>) -> bool {
    exists|i: int| 0 <= i < e.len() && e[i].0@ == k
}

/// The index of the entry whose key is `k`.
pub open spec fn key_index<V>(e: Seq<(String, V)>, k: Seq<char>) -> int {
    choose|i: int| 0 <= i < e.len() && e[i].0@ == k
}

/// With distinct keys, the entry found for a key is the one at any index holding that key.
pub proof fn lemma_key_index<V>(e: Seq<(String, V)>, i: int)
    requires
        distinct_keys(e),
        0 <= i < e.len(),
    ensures
        has_key(e, e[i].0@),
        key_index(e, e[i].0@) == i,
{
}

/// The map that a list of entries with distinct keys stands for, each value seen through `f`.
pub open spec fn keyed_map<V, W>(e: Seq<(String, V)>, f: spec_fn(V) -> W) -> Map<Seq<char>, W> {
    Map::new(|k: Seq<char>| has_key(e, k), |k: Seq<char>| f(e[key_index(e, k)].1))
}

/// The set of names of a list of strings.
pub open spec fn names_of(v: Vec<String>) -> Set<Seq<char>> {
    name_set(v@)
}

/// The map from paths to test-name sets that a list of entries with distinct keys stands for.
pub open spec fn entries_map(e: Seq<(String, Vec<String>)>) -> Map<Seq<char>, Set<Seq<char>>> {
    keyed_map(e, |v: Vec<String>| names_of(v))
}

/// Replacing the entry at an index by one with the same key keeps the keys distinct and
/// sets that key's value in the map.
pub proof fn lemma_update_entry<V, W>(e: Seq<(String, V)>, i: int, x: (String, V), f: spec_fn(V) -> W)
    requires
        distinct_keys(e),
        0 <= i < e.len(),
        e[i].0@ == x.0@,
    ensures
        distinct_keys(e.update(i, x)),
        keyed_map(e.update(i, x), f) == keyed_map(e, f).insert(x.0@, f(x.1)),
{
    let e2 = e.update(i, x);
    assert(distinct_keys(e2));
    assert forall|k: Seq<char>| #[trigger] has_key(e2, k) == has_key(e, k) by {
        if has_key(e, k) {
            let j = key_index(e, k);
            assert(e2[j].0@ == k);
        }
        if has_key(e2, k) {
            let j = key_index(e2, k);
            assert(e[j].0@ == k);
        }
    }
    assert forall|k: Seq<char>| has_key(e2, k) && k != x.0@ implies key_index(e2, k) == key_index(e, k) by {
        let j = key_index(e2, k);
        lemma_key_index(e, j);
    }
    lemma_key_index(e2, i);
    assert(keyed_map(e2, f) =~= keyed_map(e, f).insert(x.0@, f(x.1)));
}

/// Appending an entry under a new key keeps the keys distinct and adds that key to the map.
pub proof fn lemma_push_entry<V, W>(e: Seq<(String, V)>, x: (String, V), f: spec_fn(V) -> W)
    requires
        distinct_keys(e),
        !has_key(e, x.0@),
    ensures
        distinct_keys(e.push(x)),
        keyed_map(e.push(x), f) == keyed_map(e, f).insert(x.0@, f(x.1)),
{
    let e2 = e.push(x);
    assert(distinct_keys(e2)) by {
        assert forall|i: int, j: int| 0 <= i < e2.len() && 0 <= j < e2.len() && i != j implies e2[i].0@ != e2[j].0@ by {
            if i < e.len() && j == e.len() {
                assert(e[i].0@ != x.0@);
            }
            if j < e.len() && i == e.len() {
                assert(e[j].0@ != x.0@);
            }
        }
    }
    assert forall|k: Seq<char>| #[trigger] has_key(e2, k) == (has_key(e, k) || k == x.0@) by {
        if has_key(e, k) {
            let j = key_index(e, k);
            assert(e2[j].0@ == k);
        }
        if k == x.0@ {
            assert(e2[e.len() as int].0@ == k);
        }
        if has_key(e2, k) && k != x.0@ {
            let j = key_index(e2, k);
            assert(e[j].0@ == k);
        }
    }
    assert forall|k: Seq<char>| has_key(e2, k) && k != x.0@ implies key_index(e2, k) == key_index(e, k) by {
        let j = key_index(e2, k);
        assert(j < e.len());
        lemma_key_index(e, j);
    }
    lemma_key_index(e2, e.len() as int);
    assert(keyed_map(e2, f) =~= keyed_map(e, f).insert(x.0@, f(x.1)));
}

/// Removing the entry at an index keeps the keys distinct and drops that key from the map.
pub proof fn lemma_remove_entry<V, W>(e: Seq<(String, V)>, i: int, f: spec_fn(V) -> W)
    requires
        distinct_keys(e),
        0 <= i < e.len(),
    ensures
        distinct_keys(e.remove(i)),
        keyed_map(e.remove(i), f) == keyed_map(e, f).remove(e[i].0@),
{
    let e2 = e.remove(i);
    let k0 = e[i].0@;
    assert(distinct_keys(e2)) by {
        assert forall|a: int, b: int| 0 <= a < e2.len() && 0 <= b < e2.len() && a != b implies e2[a].0@ != e2[b].0@ by {
            let a1 = if a < i { a } else { a + 1 };
            let b1 = if b < i { b } else { b + 1 };
            assert(e2[a] == e[a1]);
            assert(e2[b] == e[b1]);
        }
    }
    assert forall|k: Seq<char>| #[trigger] has_key(e2, k) == (has_key(e, k) && k != k0) by {
        if has_key(e, k) && k != k0 {
            let j = key_index(e, k);
            if j < i {
                assert(e2[j].0@ == k);
            } else {
                assert(j != i);
                assert(e2[j - 1].0@ == k);
            }
        }
        if has_key(e2, k) {
            let j = key_index(e2, k);
            let j1 = if j < i { j } else { j + 1 };
            assert(e2[j] == e[j1]);
            assert(e[j1].0@ == k);
            if k == k0 {
                assert(j1 != i);
            }
        }
    }
    assert forall|k: Seq<char>| has_key(e2, k) implies e2[key_index(e2, k)].1 == e[key_index(e, k)].1 by {
        let j = key_index(e2, k);
        let j1 = if j < i { j } else { j + 1 };
        assert(e2[j] == e[j1]);
        lemma_key_index(e, j1);
    }
    assert(keyed_map(e2, f) =~= keyed_map(e, f).remove(k0));
}

/// The position of key `k` among the entries `e`.
pub fn position_of<V>(e: &Vec<(String, V)>, k: &String) -> (r: Option<usize>)
    ensures
        match r {
            Some(i) => i < e@.len() && e@[i as int].0@ == k@,
            None => !has_key(e@, k@),
        },
{
    let mut i: usize = 0;
    while i < e.len()
        invariant
            i <= e@.len(),
            forall|j: int| 0 <= j < i ==> e@[j].0@ != k@,
        decreases e@.len() - i,
    {
        if e[i].0 == *k {
            return Some(i);
        }
        i = i + 1;
    }
    None
}

/// Test names by file path: a map whose keys are paths and whose values are sets of test names.
pub struct TestSets {
    entries: Vec<(String, Vec<String>)>,
}

impl TestSets {
    #[verifier::type_invariant]
    spec fn well_formed(self) -> bool {
        &&& distinct_keys(self.entries@)
        &&& forall|i: int| 0 <= i < self.entries@.len() ==> distinct_names(#[trigger] self.entries@[i].1@)
    }

    /// The entries, in their stored order.
    pub closed spec fn entry_seq(&self) -> Seq<(String, Vec<String>)> {
        self.entries@
    }
}

impl View for TestSets {
    type V = Map<Seq<char>, Set<Seq<char>>>;

    closed spec fn view(&self) -> Map<Seq<char>, Set<Seq<char>>> {
        entries_map(self.entries@)
    }
}

impl TestSets {
    /// An empty map.
    pub fn new() -> (r: TestSets)
        ensures
            r@ == Map::<Seq<char>, Set<Seq<char>>>::empty(),
            r.entry_seq().len() == 0,
    {
        let r = TestSets { entries: Vec::new() };
        assert(r@ =~= Map::<Seq<char>, Set<Seq<char>>>::empty());
        r
    }

    /// The entries, in their stored order.
    pub fn entries(&self) -> (r: &Vec<(String, Vec<String>)>)
        ensures
            r@ == self.entry_seq(),
            distinct_keys(r@),
            forall|i: int| 0 <= i < r@.len() ==> distinct_names(#[trigger] r@[i].1@),
            self@ == entries_map(r@),
    {
        proof {
            use_type_invariant(self);
        }
        &self.entries
    }

    /// The paths, in their stored order.
    pub open spec fn key_seq(&self) -> Seq<Seq<char>> {
        self.entry_seq().map_values(|e: (String, Vec<String>)| e.0@)
    }

    /// The paths, in their stored order, each once.
    pub fn keys(&self) -> (r: Vec<String>)
        ensures
            str_views(r@) == self.key_seq(),
            name_set(r@) == self@.dom(),
            distinct_names(r@),
    {
        proof {
            use_type_invariant(self);
        }
        let e = &self.entries;
        let ghost ks = self.key_seq();
        let mut r: Vec<String> = Vec::new();
        let mut i: usize = 0;
        while i < e.len()
            invariant
                i <= e@.len(),
                e@ == self.entry_seq(),
                ks == self.key_seq(),
                str_views(r@) == ks.take(i as int),
            decreases e@.len() - i,
        {
            let ghost prev = r@;
            r.push(e[i].0.clone());
            assert(str_views(r@) =~= str_views(prev).push(e@[i as int].0@));
            assert(ks.take(i + 1) =~= ks.take(i as int).push(ks[i as int]));
            i = i + 1;
        }
        assert(ks.take(i as int) =~= ks);
        assert(name_set(r@) =~= self@.dom()) by {
            assert forall|k: Seq<char>| name_set(r@).contains(k) implies self@.dom().contains(k) by {
                let j = choose|j: int| 0 <= j < str_views(r@).len() && str_views(r@)[j] == k;
                assert(e@[j].0@ == k);
            }
            assert forall|k: Seq<char>| self@.dom().contains(k) implies name_set(r@).contains(k) by {
                let j = key_index(e@, k);
                assert(str_views(r@)[j] == k);
            }
        }
        assert(distinct_names(r@)) by {
            assert forall|a: int, b: int| 0 <= a < str_views(r@).len() && 0 <= b < str_views(r@).len() && a != b
                implies str_views(r@)[a] != str_views(r@)[b] by {
                assert(str_views(r@)[a] == e@[a].0@ && str_views(r@)[b] == e@[b].0@);
            }
        }
        r
    }

    /// The number of paths.
    pub fn len(&self) -> (r: usize)
        ensures
            r == self@.dom().len(),
            r == self.entry_seq().len(),
    {
        proof {
            use_type_invariant(self);
            self.lemma_dom_len();
        }
        self.entries.len()
    }

    /// With distinct keys, the map has one key per entry.
    proof fn lemma_dom_len(&self)
        requires
            distinct_keys(self.entries@),
        ensures
            self@.dom().len() == self.entries@.len(),
            self@.dom().finite(),
    {
        let keys = self.entries@.map_values(|e: (String, Vec<String>)| e.0@);
        assert(keys.no_duplicates()) by {
            assert forall|i: int, j: int| 0 <= i < keys.len() && 0 <= j < keys.len() && i != j implies keys[i] != keys[j] by {
                assert(keys[i] == self.entries@[i].0@);
                assert(keys[j] == self.entries@[j].0@);
            }
        }
        assert(self@.dom() =~= keys.to_set()) by {
            assert forall|k: Seq<char>| self@.dom().contains(k) implies keys.to_set().contains(k) by {
                let i = key_index(self.entries@, k);
                assert(keys[i] == k);
            }
            assert forall|k: Seq<char>| keys.to_set().contains(k) implies self@.dom().contains(k) by {
                let i = choose|i: int| 0 <= i < keys.len() && keys[i] == k;
                assert(self.entries@[i].0@ == k);
            }
        }
        keys.unique_seq_to_set();
    }

    fn position(&self, k: &String) -> (r: Option<usize>)
        ensures
            match r {
                Some(i) => i < self.entries@.len() && self.entries@[i as int].0@ == k@,
                None => !has_key(self.entries@, k@),
            },
    {
        position_of(&self.entries, k)
    }

    /// Whether path `k` has an entry.
    pub fn contains_key(&self, k: &String) -> (r: bool)
        ensures
            r == self@.dom().contains(k@),
    {
        self.position(k).is_some()
    }

    /// The test names of path `k`.
    pub fn get(&self, k: &String) -> (r: Option<&Vec<String>>)
        ensures
            match r {
                Some(v) => self@.dom().contains(k@) && name_set(v@) == self@[k@] && distinct_names(v@),
                None => !self@.dom().contains(k@),
            },
    {
        proof {
            use_type_invariant(self);
        }
        match self.position(k) {
            Some(i) => {
                proof {
                    lemma_key_index(self.entries@, i as int);
                }
                Some(&self.entries[i].1)
            },
            None => None,
        }
    }

    /// Sets the test names of path `k`, replacing those it had.
    pub fn insert_names(&mut self, k: String, names: Vec<String>)
        requires
            distinct_names(names@),
        ensures
            final(self)@ == old(self)@.insert(k@, name_set(names@)),
    {
        proof {
            use_type_invariant(&*self);
        }
        let mut e: Vec<(String, Vec<String>)> = Vec::new();
        std::mem::swap(&mut e, &mut self.entries);
        let ghost e0 = e@;
        let ghost kv = k@;
        let ghost nv = names@;
        match position_of(&e, &k) {
            Some(i) => {
                proof {
                    lemma_update_entry(e0, i as int, (k, names), |v: Vec<String>| names_of(v));
                }
                e.set(i, (k, names));
            },
            None => {
                proof {
                    lemma_push_entry(e0, (k, names), |v: Vec<String>| names_of(v));
                }
                e.push((k, names));
            },
        }
        assert(forall|j: int| 0 <= j < e@.len() ==> distinct_names(#[trigger] e@[j].1@));
        self.entries = e;
    }

    /// Adds test `n` to the names of path `k`, creating the entry if needed.
    pub fn add_name(&mut self, k: String, n: String)
        ensures
            final(self)@ == old(self)@.insert(
                k@,
                if old(self)@.dom().contains(k@) { old(self)@[k@] } else { Set::empty() }.insert(n@),
            ),
    {
        proof {
            use_type_invariant(&*self);
        }
        let mut e: Vec<(String, Vec<String>)> = Vec::new();
        std::mem::swap(&mut e, &mut self.entries);
        let ghost e0 = e@;
        match position_of(&e, &k) {
            Some(i) => {
                let mut names = e[i].1.clone();
                proof {
                    lemma_key_index(e0, i as int);
                }
                if !contains_name(names.as_slice(), &n) {
                    let ghost before = names@;
                    names.push(n);
                    proof {
                        assert(str_views(names@) =~= str_views(before).push(n@));
                        str_views(before).lemma_push_to_set_commute(n@);
                        assert(distinct_names(names@)) by {
                            assert(!str_views(before).contains(n@));
                        }
                    }
                } else {
                    assert(name_set(names@) =~= name_set(names@).insert(n@));
                }
                proof {
                    lemma_update_entry(e0, i as int, (k, names), |v: Vec<String>| names_of(v));
                }
                e.set(i, (k, names));
            },
            None => {
                let mut names: Vec<String> = Vec::new();
                names.push(n);
                proof {
                    assert(str_views(names@) =~= Seq::<Seq<char>>::empty().push(n@));
                    Seq::<Seq<char>>::empty().lemma_push_to_set_commute(n@);
                    assert(Seq::<Seq<char>>::empty().to_set() =~= Set::<Seq<char>>::empty());
                    lemma_push_entry(e0, (k, names), |v: Vec<String>| names_of(v));
                }
                e.push((k, names));
            },
        }
        assert(forall|j: int| 0 <= j < e@.len() ==> distinct_names(#[trigger] e@[j].1@));
        self.entries = e;
    }

    /// Removes path `k` and its test names.
    pub fn remove(&mut self, k: &String)
        ensures
            final(self)@ == old(self)@.remove(k@),
    {
        proof {
            use_type_invariant(&*self);
        }
        let mut e: Vec<(String, Vec<String>)> = Vec::new();
        std::mem::swap(&mut e, &mut self.entries);
        let ghost e0 = e@;
        match position_of(&e, k) {
            Some(i) => {
                proof {
                    lemma_remove_entry(e0, i as int, |v: Vec<String>| names_of(v));
                }
                e.remove(i);
            },
            None => {
                assert(entries_map(e0) =~= entries_map(e0).remove(k@));
            },
        }
        assert(forall|j: int| 0 <= j < e@.len() ==> distinct_names(#[trigger] e@[j].1@));
        self.entries = e;
    }
}

} // verus!
