//! Bindings by name, kept in the order in which the names were first bound.
use vstd::prelude::*;

verus! {

/// What a list of entries binds: each name to the value of its last entry.
pub open spec fn bindings<V>(entries: Seq<(String, V)>) -> Map<Seq<char>, V>
    decreases entries.len(),
{
    if entries.len() == 0 {
        Map::empty()
    } else {
        bindings(entries.drop_last()).insert(entries.last().0@, entries.last().1)
    }
}

/// To replace the last entry of a name is to bind the name anew.
pub proof fn lemma_replace<V>(entries: Seq<(String, V)>, i: int, entry: (String, V))
    requires
        0 <= i < entries.len(),
        entries[i].0@ == entry.0@,
        forall|t: int| i < t < entries.len() ==> (#[trigger] entries[t]).0@ != entry.0@,
    ensures
        bindings(entries.update(i, entry)) == bindings(entries).insert(entry.0@, entry.1),
    decreases entries.len(),
{
    let updated = entries.update(i, entry);
    if i == entries.len() - 1 {
        assert(updated.drop_last() =~= entries.drop_last());
        assert(bindings(updated) =~= bindings(entries).insert(entry.0@, entry.1));
    } else {
        let last = entries.last();
        assert(last.0@ != entry.0@);
        assert(updated.drop_last() =~= entries.drop_last().update(i, entry));
        assert forall|t: int| i < t < entries.drop_last().len() implies (
        #[trigger] entries.drop_last()[t]).0@ != entry.0@ by {
            assert(entries.drop_last()[t] == entries[t]);
        }
        lemma_replace(entries.drop_last(), i, entry);
        assert(bindings(updated) =~= bindings(entries).insert(entry.0@, entry.1));
    }
}

/// A table of named values.
pub struct Table<V> {
    entries: Vec<(String, V)>,
}

impl<V> Table<V> {
    /// What the table binds.
    pub closed spec fn map(&self) -> Map<Seq<char>, V> {
        bindings(self.entries@)
    }

    /// The empty table.
    pub fn new() -> (t: Self)
        ensures
            t.map() == Map::<Seq<char>, V>::empty(),
    {
        Table { entries: Vec::new() }
    }

    /// The place of the last entry of `name`.
    fn position(&self, name: &String) -> (r: Option<usize>)
        ensures
            match r {
                Some(i) => {
                    &&& i < self.entries.len()
                    &&& self.entries[i as int].0@ == name@
                    &&& forall|t: int|
                        i < t < self.entries.len() ==> (#[trigger] self.entries[t]).0@ != name@
                    &&& self.map().contains_key(name@)
                    &&& self.map()[name@] == self.entries[i as int].1
                },
                None => !self.map().contains_key(name@),
            },
    {
        let mut found: Option<usize> = None;
        let mut i: usize = 0;
        while i < self.entries.len()
            invariant
                i <= self.entries.len(),
                match found {
                    Some(j) => {
                        &&& j < i
                        &&& self.entries[j as int].0@ == name@
                        &&& forall|t: int| j < t < i ==> (#[trigger] self.entries[t]).0@ != name@
                        &&& bindings(self.entries@.take(i as int)).contains_key(name@)
                        &&& bindings(self.entries@.take(i as int))[name@] == self.entries[j as int].1
                    },
                    None => !bindings(self.entries@.take(i as int)).contains_key(name@),
                },
            decreases self.entries.len() - i,
        {
            proof {
                let next = self.entries@.take(i + 1);
                assert(next.drop_last() =~= self.entries@.take(i as int));
                assert(next.last() == self.entries[i as int]);
            }
            if self.entries[i].0 == *name {
                found = Some(i);
            }
            i += 1;
        }
        assert(self.entries@.take(i as int) =~= self.entries@);
        found
    }

    /// The value bound to `name`, if any.
    pub fn get(&self, name: &String) -> (r: Option<&V>)
        ensures
            match r {
                Some(v) => self.map().contains_key(name@) && self.map()[name@] == *v,
                None => !self.map().contains_key(name@),
            },
    {
        match self.position(name) {
            Some(i) => Some(&self.entries[i].1),
            None => None,
        }
    }

    /// Binds `name` to `value`, in place of what it was bound to.
    pub fn set(&mut self, name: String, value: V)
        ensures
            final(self).map() == old(self).map().insert(name@, value),
    {
        match self.position(&name) {
            Some(i) => {
                proof {
                    lemma_replace(self.entries@, i as int, (name, value));
                }
                self.entries.set(i, (name, value));
            },
            None => {
                let ghost before = self.entries@;
                self.entries.push((name, value));
                assert(self.entries@.drop_last() =~= before);
            },
        }
    }
}

} // verus!
