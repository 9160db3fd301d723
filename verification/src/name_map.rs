//! A map from file names to values, kept as a vector of entries in which no
//! name occurs twice. It stands for the string-keyed hash maps of the
//! manifest and of the file monitor.

use vstd::prelude::*;

verus! {

/// The map that a sequence of entries denotes: later entries win.
pub open spec fn entries_map<V>(s: Seq<(String, V)>) -> Map<Seq<char>, V>
    decreases s.len(),
{
    if s.len() == 0 {
        Map::empty()
    } else {
        entries_map(s.drop_last()).insert(s.last().0@, s.last().1)
    }
}

/// No name occurs twice among the entries.
pub open spec fn names_unique<V>(s: Seq<(String, V)>) -> bool {
    forall|i: int, j: int| 0 <= i < j < s.len() ==> #[trigger] s[i].0@ != #[trigger] s[j].0@
}

/// A name is a key of the denoted map exactly when some entry carries it.
proof fn lemma_entries_dom<V>(s: Seq<(String, V)>, k: Seq<char>)
    ensures
        entries_map(s).contains_key(k) <==> exists|i: int| 0 <= i < s.len() && #[trigger] s[i].0@ == k,
    decreases s.len(),
{
    if s.len() > 0 {
        lemma_entries_dom(s.drop_last(), k);
        if entries_map(s.drop_last()).contains_key(k) {
            let i = choose|i: int| 0 <= i < s.drop_last().len() && #[trigger] s.drop_last()[i].0@ == k;
            assert(s[i].0@ == k);
        }
        if exists|i: int| 0 <= i < s.len() && #[trigger] s[i].0@ == k {
            let i = choose|i: int| 0 <= i < s.len() && #[trigger] s[i].0@ == k;
            if i < s.len() - 1 {
                assert(s.drop_last()[i].0@ == k);
            }
        }
    }
}

/// With unique names, the value of an entry's name is that entry's value.
proof fn lemma_entries_lookup<V>(s: Seq<(String, V)>, i: int)
    requires
        names_unique(s),
        0 <= i < s.len(),
    ensures
        entries_map(s).contains_key(s[i].0@),
        entries_map(s)[s[i].0@] == s[i].1,
    decreases s.len(),
{
    if i < s.len() - 1 {
        let d = s.drop_last();
        assert(names_unique(d));
        assert(d[i] == s[i]);
        lemma_entries_lookup(d, i);
        assert(s[i].0@ != s[s.len() - 1].0@);
    }
}

/// Replacing the entry that carries a name changes the value of that name only.
proof fn lemma_entries_update<V>(s: Seq<(String, V)>, i: int, e: (String, V))
    requires
        names_unique(s),
        0 <= i < s.len(),
        e.0@ == s[i].0@,
    ensures
        names_unique(s.update(i, e)),
        entries_map(s.update(i, e)) == entries_map(s).insert(e.0@, e.1),
    decreases s.len(),
{
    let u = s.update(i, e);
    assert forall|a: int, b: int| 0 <= a < b < u.len() implies #[trigger] u[a].0@ != #[trigger] u[b].0@ by {
        assert(s[a].0@ != s[b].0@);
    }
    let d = s.drop_last();
    if i == s.len() - 1 {
        assert(u.drop_last() =~= d);
        assert(entries_map(u) =~= entries_map(s).insert(e.0@, e.1));
    } else {
        assert(names_unique(d));
        lemma_entries_update(d, i, e);
        assert(u.drop_last() =~= d.update(i, e));
        assert(u.last() == s.last());
        assert(s[i].0@ != s[s.len() - 1].0@);
        assert(entries_map(u) =~= entries_map(s).insert(e.0@, e.1));
    }
}

/// Removing the entry that carries a name removes that name only.
proof fn lemma_entries_remove<V>(s: Seq<(String, V)>, i: int)
    requires
        names_unique(s),
        0 <= i < s.len(),
    ensures
        names_unique(s.remove(i)),
        entries_map(s.remove(i)) == entries_map(s).remove(s[i].0@),
    decreases s.len(),
{
    let r = s.remove(i);
    let k = s[i].0@;
    assert forall|a: int, b: int| 0 <= a < b < r.len() implies #[trigger] r[a].0@ != #[trigger] r[b].0@ by {
        let a2 = if a < i { a } else { a + 1 };
        let b2 = if b < i { b } else { b + 1 };
        assert(r[a] == s[a2] && r[b] == s[b2]);
        assert(s[a2].0@ != s[b2].0@);
    }
    let d = s.drop_last();
    assert(names_unique(d));
    if i == s.len() - 1 {
        assert(r =~= d);
        lemma_entries_dom(d, k);
        assert forall|j: int| 0 <= j < d.len() implies #[trigger] d[j].0@ != k by {
            assert(s[j].0@ != s[i].0@);
        }
        assert(!entries_map(d).contains_key(k));
        assert(entries_map(r) =~= entries_map(s).remove(k));
    } else {
        lemma_entries_remove(d, i);
        assert(r.drop_last() =~= d.remove(i));
        assert(r.last() == s.last());
        assert(s[i].0@ != s[s.len() - 1].0@);
        assert(entries_map(r) =~= entries_map(s).remove(k));
    }
}

/// A finite map from names to values.
pub struct NameMap<V> {
    entries: Vec<(String, V)>,
}

impl<V> View for NameMap<V> {
    type V = Map<Seq<char>, V>;

    closed spec fn view(&self) -> Map<Seq<char>, V> {
        entries_map(self.entries@)
    }
}

impl<V: Copy> NameMap<V> {
    /// The well-formedness of the map: no name is stored twice.
    pub closed spec fn wf(&self) -> bool {
        names_unique(self.entries@)
    }

    /// An empty map.
    pub fn new() -> (m: Self)
        ensures
            m.wf(),
            m@ == Map::<Seq<char>, V>::empty(),
    {
        NameMap { entries: Vec::new() }
    }

    /// The position of the entry that carries `name`.
    fn find(&self, name: &String) -> (r: Option<usize>)
        requires
            self.wf(),
        ensures
            match r {
                Some(i) => i < self.entries@.len() && self.entries@[i as int].0@ == name@,
                None => forall|j: int|
                    0 <= j < self.entries@.len() ==> #[trigger] self.entries@[j].0@ != name@,
            },
    {
        let n = self.entries.len();
        for i in 0..n
            invariant
                n == self.entries@.len(),
                forall|j: int| 0 <= j < i ==> #[trigger] self.entries@[j].0@ != name@,
        {
            if self.entries[i].0 == *name {
                return Some(i);
            }
        }
        None
    }

    /// Whether `name` is a key.
    pub fn contains(&self, name: &String) -> (r: bool)
        requires
            self.wf(),
        ensures
            r == self@.contains_key(name@),
    {
        proof {
            lemma_entries_dom(self.entries@, name@);
        }
        self.find(name).is_some()
    }

    /// The value of `name`, if it is a key.
    pub fn get(&self, name: &String) -> (r: Option<V>)
        requires
            self.wf(),
        ensures
            r == (if self@.contains_key(name@) {
                Some(self@[name@])
            } else {
                None
            }),
    {
        proof {
            lemma_entries_dom(self.entries@, name@);
        }
        match self.find(name) {
            Some(i) => {
                proof {
                    lemma_entries_lookup(self.entries@, i as int);
                }
                Some(self.entries[i].1)
            },
            None => None,
        }
    }

    /// Sets the value of `name`, adding it where it is not a key yet.
    pub fn insert(&mut self, name: String, value: V)
        requires
            old(self).wf(),
        ensures
            final(self).wf(),
            final(self)@ == old(self)@.insert(name@, value),
    {
        match self.find(&name) {
            Some(i) => {
                proof {
                    lemma_entries_update(self.entries@, i as int, (name, value));
                }
                self.entries.set(i, (name, value));
            },
            None => {
                let ghost s = self.entries@;
                self.entries.push((name, value));
                proof {
                    assert(self.entries@.drop_last() =~= s);
                    assert forall|a: int, b: int|
                        0 <= a < b < self.entries@.len() implies #[trigger] self.entries@[a].0@
                        != #[trigger] self.entries@[b].0@ by {
                        if b == s.len() {
                            assert(s[a].0@ != name@);
                        } else {
                            assert(s[a].0@ != s[b].0@);
                        }
                    }
                }
            },
        }
    }

    /// Removes `name`; tells whether it was a key.
    pub fn remove(&mut self, name: &String) -> (r: bool)
        requires
            old(self).wf(),
        ensures
            final(self).wf(),
            r == old(self)@.contains_key(name@),
            final(self)@ == old(self)@.remove(name@),
    {
        proof {
            lemma_entries_dom(self.entries@, name@);
        }
        match self.find(name) {
            Some(i) => {
                proof {
                    lemma_entries_remove(self.entries@, i as int);
                }
                self.entries.remove(i);
                true
            },
            None => {
                proof {
                    assert(self@.remove(name@) =~= self@);
                }
                false
            },
        }
    }

    /// The number of keys.
    pub fn len(&self) -> (r: usize)
        requires
            self.wf(),
        ensures
            r == self@.dom().len(),
    {
        proof {
            lemma_entries_len(self.entries@);
        }
        self.entries.len()
    }

    /// The entries, each name once.
    pub fn entries(&self) -> (r: &Vec<(String, V)>)
        requires
            self.wf(),
        ensures
            names_unique(r@),
            entries_map(r@) == self@,
    {
        &self.entries
    }
}

/// With unique names the map has as many keys as there are entries.
proof fn lemma_entries_len<V>(s: Seq<(String, V)>)
    requires
        names_unique(s),
    ensures
        entries_map(s).dom().finite(),
        entries_map(s).dom().len() == s.len(),
    decreases s.len(),
{
    if s.len() > 0 {
        let d = s.drop_last();
        assert(names_unique(d));
        lemma_entries_len(d);
        lemma_entries_dom(d, s.last().0@);
        assert forall|j: int| 0 <= j < d.len() implies #[trigger] d[j].0@ != s.last().0@ by {
            assert(s[j].0@ != s[s.len() - 1].0@);
        }
    }
}

} // verus!
