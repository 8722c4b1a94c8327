//! A small map from names to copyable values, kept as a vector of entries
//! with distinct names, and seen as a `Map` in contracts.

use vstd::prelude::*;

verus! {

/// The map that a sequence of entries stands for: later entries win.
pub open spec fn map_of<V>(s: Seq<(String, V)>) -> Map<Seq<char>, V>
    decreases s.len(),
{
    if s.len() == 0 {
        Map::empty()
    } else {
        map_of(s.drop_last()).insert(s.last().0@, s.last().1)
    }
}

/// No two entries share a name.
pub open spec fn names_distinct<V>(s: Seq<(String, V)>) -> bool {
    forall|i: int, j: int| 0 <= i < j < s.len() ==> s[i].0@ != s[j].0@
}

proof fn lemma_absent<V>(s: Seq<(String, V)>, k: Seq<char>)
    requires
        forall|i: int| 0 <= i < s.len() ==> #[trigger] s[i].0@ != k,
    ensures
        !map_of(s).contains_key(k),
    decreases s.len(),
{
    if s.len() > 0 {
        lemma_absent(s.drop_last(), k);
    }
}

proof fn lemma_present<V>(s: Seq<(String, V)>, i: int)
    requires
        names_distinct(s),
        0 <= i < s.len(),
    ensures
        map_of(s).contains_key(s[i].0@),
        map_of(s)[s[i].0@] == s[i].1,
    decreases s.len(),
{
    if i < s.len() - 1 {
        lemma_present(s.drop_last(), i);
    }
}

proof fn lemma_overwrite<V>(s: Seq<(String, V)>, i: int, e: (String, V))
    requires
        names_distinct(s),
        0 <= i < s.len(),
        e.0@ == s[i].0@,
    ensures
        map_of(s.update(i, e)) == map_of(s).insert(e.0@, e.1),
        names_distinct(s.update(i, e)),
    decreases s.len(),
{
    let u = s.update(i, e);
    if i == s.len() - 1 {
        assert(u.drop_last() =~= s.drop_last());
        assert(map_of(u) =~= map_of(s).insert(e.0@, e.1));
    } else {
        assert(u.drop_last() =~= s.drop_last().update(i, e));
        lemma_overwrite(s.drop_last(), i, e);
        assert(map_of(u) =~= map_of(s).insert(e.0@, e.1));
    }
}

proof fn lemma_remove<V>(s: Seq<(String, V)>, i: int)
    requires
        names_distinct(s),
        0 <= i < s.len(),
    ensures
        map_of(s.remove(i)) == map_of(s).remove(s[i].0@),
        names_distinct(s.remove(i)),
    decreases s.len(),
{
    let k = s[i].0@;
    let u = s.remove(i);
    if i == s.len() - 1 {
        assert(u =~= s.drop_last());
        lemma_absent(s.drop_last(), k);
        assert(map_of(u) =~= map_of(s).remove(k));
    } else {
        assert(u.drop_last() =~= s.drop_last().remove(i));
        assert(u.last() == s.last());
        lemma_remove(s.drop_last(), i);
        assert(map_of(u) =~= map_of(s).remove(k));
    }
}

/// Entries keyed by name, at most one per name.
pub struct Table<V> {
    entries: Vec<(String, V)>,
}

impl<V: Copy> Table<V> {
    pub closed spec fn view(&self) -> Map<Seq<char>, V> {
        map_of(self.entries@)
    }

    /// The entries, in the order in which their names first came.
    pub closed spec fn entries(&self) -> Seq<(String, V)> {
        self.entries@
    }

    pub closed spec fn wf(&self) -> bool {
        names_distinct(self.entries@)
    }

    pub fn new() -> (r: Self)
        ensures
            r.wf(),
            r@ == Map::<Seq<char>, V>::empty(),
            r.entries().len() == 0,
    {
        Table { entries: Vec::new() }
    }

    pub fn len(&self) -> (r: usize)
        ensures
            r == self.entries().len(),
    {
        self.entries.len()
    }

    pub fn value_at(&self, i: usize) -> (r: V)
        requires
            i < self.entries().len(),
        ensures
            r == self.entries()[i as int].1,
    {
        self.entries[i].1
    }

    fn find(&self, name: &str) -> (r: Option<usize>)
        ensures
            match r {
                Some(i) => i < self.entries@.len() && self.entries@[i as int].0@ == name@,
                None => forall|j: int|
                    0 <= j < self.entries@.len() ==> #[trigger] self.entries@[j].0@ != name@,
            },
    {
        let wanted = name.to_owned();
        let mut i: usize = 0;
        while i < self.entries.len()
            invariant
                i <= self.entries@.len(),
                wanted@ == name@,
                forall|j: int| 0 <= j < i ==> #[trigger] self.entries@[j].0@ != name@,
            decreases self.entries@.len() - i,
        {
            if self.entries[i].0 == wanted {
                return Some(i);
            }
            i = i + 1;
        }
        None
    }

    /// The value under `name`, if any.
    pub fn get(&self, name: &str) -> (r: Option<V>)
        requires
            self.wf(),
        ensures
            r == if self@.contains_key(name@) {
                Some(self@[name@])
            } else {
                None::<V>
            },
    {
        match self.find(name) {
            Some(i) => {
                proof {
                    lemma_present(self.entries@, i as int);
                }
                Some(self.entries[i].1)
            },
            None => {
                proof {
                    lemma_absent(self.entries@, name@);
                }
                None
            },
        }
    }

    /// Puts `value` under `name`, replacing what was there.
    pub fn insert(&mut self, name: &str, value: V)
        requires
            old(self).wf(),
        ensures
            final(self).wf(),
            final(self)@ == old(self)@.insert(name@, value),
    {
        match self.find(name) {
            Some(i) => {
                let e = (self.entries[i].0.clone(), value);
                proof {
                    lemma_overwrite(self.entries@, i as int, e);
                }
                self.entries.set(i, e);
            },
            None => {
                let e = (name.to_owned(), value);
                proof {
                    assert(self.entries@.push(e).drop_last() =~= self.entries@);
                }
                self.entries.push(e);
            },
        }
    }

    /// Takes out the entry under `name`, if any.
    pub fn remove(&mut self, name: &str)
        requires
            old(self).wf(),
        ensures
            final(self).wf(),
            final(self)@ == old(self)@.remove(name@),
    {
        match self.find(name) {
            Some(i) => {
                proof {
                    lemma_remove(self.entries@, i as int);
                }
                self.entries.remove(i);
            },
            None => {
                proof {
                    lemma_absent(self.entries@, name@);
                    assert(self@ =~= self@.remove(name@));
                }
            },
        }
    }
}

} // verus!
