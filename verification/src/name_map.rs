//! A map from names to values that keeps the order in which names first came in.
//!
//! The symbol tables of a binary and the register file of a session are both
//! keyed by strings.  Their model is the sequence of `(name, value)` entries in
//! insertion order; the map view is derived from that sequence.
//!
//! Lookups go through a hash map keyed by strings, from each name to the
//! place of its entry.  The entries themselves are kept in vectors beside it:
//! the symbol aggregation walks a table entry by entry, a hash map keyed by
//! strings has no walk with a specification, and the order in which a hash
//! map is walked differs from run to run, so that no contract could say which
//! of two entries is written last.

use vstd::hash_map::StringHashMap;
use vstd::prelude::*;

verus! {

/// The map that a sequence of entries stands for: later entries win.
pub open spec fn map_of<T>(entries: Seq<(Seq<char>, T)>) -> Map<Seq<char>, T>
    decreases entries.len(),
{
    if entries.len() == 0 {
        Map::empty()
    } else {
        map_of(entries.drop_last()).insert(entries.last().0, entries.last().1)
    }
}

/// Some entry carries the name `k`.
pub open spec fn has_name<T>(entries: Seq<(Seq<char>, T)>, k: Seq<char>) -> bool {
    exists|i: int| 0 <= i < entries.len() && (#[trigger] entries[i]).0 == k
}

/// No name occurs in two entries.
pub open spec fn distinct_names<T>(entries: Seq<(Seq<char>, T)>) -> bool {
    forall|i: int, j: int|
        0 <= i < j < entries.len() ==> (#[trigger] entries[i]).0 != (#[trigger] entries[j]).0
}

/// The entries after `k` is bound to `v`: an entry that already carries `k`
/// keeps its place and takes the new value, otherwise a new entry goes last.
pub open spec fn upsert<T>(entries: Seq<(Seq<char>, T)>, k: Seq<char>, v: T) -> Seq<
    (Seq<char>, T),
> {
    if has_name(entries, k) {
        Seq::new(
            entries.len(),
            |i: int|
                if entries[i].0 == k {
                    (k, v)
                } else {
                    entries[i]
                },
        )
    } else {
        entries.push((k, v))
    }
}

/// `map_of` holds a name exactly when some entry carries it.
pub proof fn lemma_map_of_dom<T>(entries: Seq<(Seq<char>, T)>, k: Seq<char>)
    ensures
        map_of(entries).contains_key(k) <==> has_name(entries, k),
    decreases entries.len(),
{
    if entries.len() > 0 {
        let front = entries.drop_last();
        lemma_map_of_dom(front, k);
        if has_name(entries, k) {
            let i = choose|i: int| 0 <= i < entries.len() && (#[trigger] entries[i]).0 == k;
            if i < entries.len() - 1 {
                assert(front[i].0 == k);
            }
        }
    }
}

/// With distinct names, `map_of` binds the name of each entry to its value.
pub proof fn lemma_map_of_entry<T>(entries: Seq<(Seq<char>, T)>, i: int)
    requires
        distinct_names(entries),
        0 <= i < entries.len(),
    ensures
        map_of(entries).contains_key(entries[i].0),
        map_of(entries)[entries[i].0] == entries[i].1,
    decreases entries.len(),
{
    let front = entries.drop_last();
    if i < entries.len() - 1 {
        lemma_map_of_entry(front, i);
    }
}

/// With distinct names, binding a name in the entries binds it in the map.
pub proof fn lemma_map_of_upsert<T>(entries: Seq<(Seq<char>, T)>, k: Seq<char>, v: T)
    requires
        distinct_names(entries),
    ensures
        distinct_names(upsert(entries, k, v)),
        map_of(upsert(entries, k, v)) == map_of(entries).insert(k, v),
{
    let after = upsert(entries, k, v);
    assert forall|n: Seq<char>|
        map_of(after).contains_key(n) <==> #[trigger] map_of(entries).insert(k, v).contains_key(
            n,
        ) by {
        lemma_map_of_dom(after, n);
        lemma_map_of_dom(entries, n);
        if n == k {
            if has_name(entries, k) {
                let i = choose|i: int| 0 <= i < entries.len() && (#[trigger] entries[i]).0 == k;
                assert(after[i].0 == k);
            }
        } else if has_name(entries, n) {
            let i = choose|i: int| 0 <= i < entries.len() && (#[trigger] entries[i]).0 == n;
            assert(after[i].0 == n);
        }
    }
    assert forall|n: Seq<char>| #[trigger] map_of(after).contains_key(n) implies map_of(after)[n]
        == map_of(entries).insert(k, v)[n] by {
        lemma_map_of_dom(after, n);
        let i = choose|i: int| 0 <= i < after.len() && (#[trigger] after[i]).0 == n;
        lemma_map_of_entry(after, i);
        if n != k {
            lemma_map_of_entry(entries, i);
        }
    }
}

/// An insertion-ordered map from names to values.
pub struct NameMap<T> {
    names: Vec<String>,
    values: Vec<T>,
    index: StringHashMap<usize>,
}

impl<T> NameMap<T> {
    /// The entries in the order in which their names were first inserted.
    pub closed spec fn entries(&self) -> Seq<(Seq<char>, T)> {
        Seq::new(self.names.len() as nat, |i: int| (self.names[i]@, self.values[i]))
    }

    /// The map from each name to its value.
    pub open spec fn view(&self) -> Map<Seq<char>, T> {
        map_of(self.entries())
    }

    /// The lookup index agrees with the entries.
    pub closed spec fn wf(&self) -> bool {
        &&& self.names.len() == self.values.len()
        &&& forall|i: int|
            0 <= i < self.names.len() ==> self.index@.contains_key(#[trigger] self.names[i]@)
                && self.index@[self.names[i]@] == i
        &&& forall|k: Seq<char>| #[trigger]
            self.index@.contains_key(k) ==> self.index@[k] < self.names.len()
                && self.names[self.index@[k] as int]@ == k
    }

    /// A well-formed map never holds a name twice.
    pub proof fn lemma_distinct(&self)
        requires
            self.wf(),
        ensures
            distinct_names(self.entries()),
    {
    }

    proof fn lemma_index(&self, k: Seq<char>)
        requires
            self.wf(),
        ensures
            self.index@.contains_key(k) <==> self@.contains_key(k),
            self.index@.contains_key(k) ==> self@[k] == self.values[self.index@[k] as int],
    {
        self.lemma_distinct();
        lemma_map_of_dom(self.entries(), k);
        if self.index@.contains_key(k) {
            let i = self.index@[k] as int;
            lemma_map_of_entry(self.entries(), i);
        }
    }

    /// An empty map.
    pub fn new() -> (m: Self)
        ensures
            m.wf(),
            m.entries() == Seq::<(Seq<char>, T)>::empty(),
            m@ == Map::<Seq<char>, T>::empty(),
    {
        let m = NameMap { names: Vec::new(), values: Vec::new(), index: StringHashMap::new() };
        m
    }

    /// The number of names.
    pub fn len(&self) -> (n: usize)
        requires
            self.wf(),
        ensures
            n == self.entries().len(),
    {
        self.names.len()
    }

    /// Whether the map holds no name.
    pub fn is_empty(&self) -> (b: bool)
        requires
            self.wf(),
        ensures
            b == (self.entries().len() == 0),
            b == (self@ == Map::<Seq<char>, T>::empty()),
    {
        proof {
            if self.entries().len() != 0 {
                self.lemma_distinct();
                lemma_map_of_entry(self.entries(), 0);
            }
        }
        self.names.len() == 0
    }

    /// Whether `k` is bound.
    pub fn contains_key(&self, k: &str) -> (b: bool)
        requires
            self.wf(),
        ensures
            b == self@.contains_key(k@),
    {
        proof {
            self.lemma_index(k@);
        }
        self.index.contains_key(k)
    }

    /// The value bound to `k`, if any.
    pub fn get(&self, k: &str) -> (r: Option<&T>)
        requires
            self.wf(),
        ensures
            match r {
                Some(v) => self@.contains_key(k@) && *v == self@[k@],
                None => !self@.contains_key(k@),
            },
    {
        proof {
            self.lemma_index(k@);
        }
        match self.index.get(k) {
            Some(i) => Some(&self.values[*i]),
            None => None,
        }
    }

    /// Binds `k` to `v`, replacing the value of an entry that already carries `k`.
    pub fn insert(&mut self, k: String, v: T)
        requires
            old(self).wf(),
        ensures
            final(self).wf(),
            final(self).entries() == upsert(old(self).entries(), k@, v),
            final(self)@ == old(self)@.insert(k@, v),
    {
        proof {
            self.lemma_index(k@);
            self.lemma_distinct();
            lemma_map_of_dom(self.entries(), k@);
            lemma_map_of_upsert(self.entries(), k@, v);
        }
        let n = self.names.len();
        match self.index.get(k.as_str()) {
            Some(i) => {
                let i: usize = *i;
                self.values.set(i, v);
                assert(self.entries() =~= upsert(old(self).entries(), k@, v));
            },
            None => {
                self.index.insert(k.clone(), n);
                self.names.push(k);
                self.values.push(v);
                assert(self.entries() =~= upsert(old(self).entries(), k@, v));
            },
        }
    }

    /// The name of the `i`-th entry.
    pub fn name_at(&self, i: usize) -> (name: &String)
        requires
            self.wf(),
            i < self.entries().len(),
        ensures
            name@ == self.entries()[i as int].0,
    {
        &self.names[i]
    }

    /// The value of the `i`-th entry.
    pub fn value_at(&self, i: usize) -> (value: &T)
        requires
            self.wf(),
            i < self.entries().len(),
        ensures
            *value == self.entries()[i as int].1,
    {
        &self.values[i]
    }

    /// The names, in the order of the entries.
    pub fn keys(&self) -> (names: Vec<String>)
        requires
            self.wf(),
        ensures
            names.len() == self.entries().len(),
            forall|i: int| 0 <= i < names.len() ==> (#[trigger] names[i])@ == self.entries()[i].0,
    {
        let mut names: Vec<String> = Vec::new();
        let mut i: usize = 0;
        while i < self.names.len()
            invariant
                i <= self.names.len(),
                names.len() == i,
                self.entries().len() == self.names.len(),
                forall|j: int| 0 <= j < i ==> (#[trigger] names[j])@ == self.entries()[j].0,
            decreases self.names.len() - i,
        {
            names.push(self.names[i].clone());
            i += 1;
        }
        names
    }
}

} // verus!
