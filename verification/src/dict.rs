//! A small dictionary keyed by name, kept in insertion order. It stands where
//! a hash map keyed by text would: Verus knows nothing of how a `String`
//! hashes, and everything of how two texts compare.

use vstd::prelude::*;

verus! {

/// The map that a sequence of named entries stands for: a later entry
/// replaces an earlier one of the same name.
pub open spec fn map_of<V>(items: Seq<(Seq<char>, V)>) -> Map<Seq<char>, V>
    decreases items.len(),
{
    if items.len() == 0 {
        Map::empty()
    } else {
        map_of(items.drop_last()).insert(items.last().0, items.last().1)
    }
}

/// Whether no name occurs twice.
pub open spec fn distinct_names<V>(items: Seq<(Seq<char>, V)>) -> bool {
    forall|i: int, j: int|
        0 <= i < items.len() && 0 <= j < items.len() && i != j ==> (#[trigger] items[i]).0 != (
        #[trigger] items[j]).0
}

/// A name is in the map exactly if an entry has it.
pub proof fn lemma_map_of_dom<V>(items: Seq<(Seq<char>, V)>, name: Seq<char>)
    ensures
        map_of(items).dom().contains(name) <==> exists|i: int|
            0 <= i < items.len() && (#[trigger] items[i]).0 == name,
    decreases items.len(),
{
    if items.len() > 0 {
        let front = items.drop_last();
        lemma_map_of_dom(front, name);
        if map_of(items).dom().contains(name) {
            if items.last().0 == name {
                assert(items[items.len() - 1].0 == name);
            } else {
                let i = choose|i: int| 0 <= i < front.len() && (#[trigger] front[i]).0 == name;
                assert(items[i].0 == name);
            }
        }
        if exists|i: int| 0 <= i < items.len() && (#[trigger] items[i]).0 == name {
            let i = choose|i: int| 0 <= i < items.len() && (#[trigger] items[i]).0 == name;
            if i < items.len() - 1 {
                assert(front[i].0 == name);
            }
        }
    }
}

/// Where names are distinct, the map holds each entry's value under its name.
pub proof fn lemma_map_of_entry<V>(items: Seq<(Seq<char>, V)>, i: int)
    requires
        distinct_names(items),
        0 <= i < items.len(),
    ensures
        map_of(items).dom().contains(items[i].0),
        map_of(items)[items[i].0] == items[i].1,
    decreases items.len(),
{
    let front = items.drop_last();
    if i < items.len() - 1 {
        assert(distinct_names(front)) by {
            assert forall|a: int, b: int|
                0 <= a < front.len() && 0 <= b < front.len() && a != b implies (
            #[trigger] front[a]).0 != (#[trigger] front[b]).0 by {
                assert(items[a].0 != items[b].0);
            }
        }
        lemma_map_of_entry(front, i);
        assert(front[i] == items[i]);
        assert(items[i].0 != items[items.len() - 1].0);
    }
}

/// Where names are distinct, putting a new value in an entry's place is
/// inserting it under the entry's name.
pub proof fn lemma_map_of_update<V>(items: Seq<(Seq<char>, V)>, i: int, value: V)
    requires
        distinct_names(items),
        0 <= i < items.len(),
    ensures
        map_of(items.update(i, (items[i].0, value))) == map_of(items).insert(items[i].0, value),
        distinct_names(items.update(i, (items[i].0, value))),
    decreases items.len(),
{
    let name = items[i].0;
    let updated = items.update(i, (name, value));
    let front = items.drop_last();
    assert(distinct_names(updated)) by {
        assert forall|a: int, b: int|
            0 <= a < updated.len() && 0 <= b < updated.len() && a != b implies (
        #[trigger] updated[a]).0 != (#[trigger] updated[b]).0 by {
            assert(items[a].0 != items[b].0);
        }
    }
    if i == items.len() - 1 {
        assert(updated.drop_last() =~= front);
        assert(map_of(updated) =~= map_of(items).insert(name, value));
    } else {
        assert(distinct_names(front)) by {
            assert forall|a: int, b: int|
                0 <= a < front.len() && 0 <= b < front.len() && a != b implies (
            #[trigger] front[a]).0 != (#[trigger] front[b]).0 by {
                assert(items[a].0 != items[b].0);
            }
        }
        lemma_map_of_update(front, i, value);
        assert(front[i] == items[i]);
        assert(updated.drop_last() =~= front.update(i, (name, value)));
        assert(updated.last() == items.last());
        assert(items[i].0 != items[items.len() - 1].0);
        assert(map_of(updated) =~= map_of(items).insert(name, value));
    }
}

/// A dictionary from names to values of type `V`.
#[derive(Debug)]
pub struct Dict<V> {
    entries: Vec<(String, V)>,
}

impl<V> Dict<V> {
    /// The entries in insertion order, names as texts.
    pub closed spec fn items(&self) -> Seq<(Seq<char>, V)> {
        Seq::new(self.entries@.len(), |i: int| (self.entries@[i].0@, self.entries@[i].1))
    }

    /// The invariant of a dictionary: no name occurs twice.
    pub open spec fn wf(&self) -> bool {
        distinct_names(self.items())
    }

    /// The map that the dictionary stands for.
    pub open spec fn map(&self) -> Map<Seq<char>, V> {
        map_of(self.items())
    }

    /// An empty dictionary.
    pub fn new() -> (dict: Dict<V>)
        ensures
            dict.wf(),
            dict.items() == Seq::<(Seq<char>, V)>::empty(),
            dict.map() == Map::<Seq<char>, V>::empty(),
    {
        let dict = Dict { entries: Vec::new() };
        assert(dict.items() =~= Seq::<(Seq<char>, V)>::empty());
        dict
    }

    /// The number of entries.
    pub fn len(&self) -> (n: usize)
        ensures
            n == self.items().len(),
    {
        self.entries.len()
    }

    /// The place of the entry with the given name, if there is one.
    fn position(&self, name: &String) -> (r: Option<usize>)
        ensures
            match r {
                Some(i) => i < self.items().len() && self.items()[i as int].0 == name@,
                None => forall|i: int|
                    0 <= i < self.items().len() ==> (#[trigger] self.items()[i]).0 != name@,
            },
    {
        let mut i: usize = 0;
        while i < self.entries.len()
            invariant
                i <= self.entries.len(),
                self.entries@.len() == self.items().len(),
                forall|k: int| 0 <= k < i ==> (#[trigger] self.items()[k]).0 != name@,
            decreases self.entries.len() - i,
        {
            assert(self.items()[i as int].0 == self.entries@[i as int].0@);
            if self.entries[i].0 == *name {
                return Some(i);
            }
            i += 1;
        }
        None
    }

    /// The value under a name.
    pub fn get(&self, name: &str) -> (r: Option<&V>)
        requires
            self.wf(),
        ensures
            match r {
                Some(value) => self.map().dom().contains(name@) && self.map()[name@] == *value,
                None => !self.map().dom().contains(name@),
            },
    {
        let key = name.to_owned();
        proof {
            lemma_map_of_dom(self.items(), name@);
        }
        match self.position(&key) {
            Some(i) => {
                proof {
                    lemma_map_of_entry(self.items(), i as int);
                }
                Some(&self.entries[i].1)
            },
            None => None,
        }
    }

    /// The name and the value of the entry at a place, in insertion order.
    pub fn entry(&self, i: usize) -> (r: (&String, &V))
        requires
            i < self.items().len(),
        ensures
            r.0@ == self.items()[i as int].0,
            *r.1 == self.items()[i as int].1,
    {
        (&self.entries[i].0, &self.entries[i].1)
    }

    /// Puts a value under a name, in place of the value that was there if
    /// there was one.
    pub fn insert(&mut self, name: String, value: V)
        requires
            old(self).wf(),
        ensures
            final(self).wf(),
            final(self).map() == old(self).map().insert(name@, value),
    {
        let ghost before = self.items();
        match self.position(&name) {
            Some(i) => {
                proof {
                    lemma_map_of_update(before, i as int, value);
                }
                self.entries.set(i, (name, value));
                assert(self.items() =~= before.update(i as int, (before[i as int].0, value)));
            },
            None => {
                self.entries.push((name, value));
                assert(self.items() =~= before.push((name@, value)));
                assert(self.items().drop_last() =~= before);
                assert forall|a: int, b: int|
                    0 <= a < self.items().len() && 0 <= b < self.items().len() && a
                        != b implies (#[trigger] self.items()[a]).0 != (
                #[trigger] self.items()[b]).0 by {
                    if a < before.len() && b < before.len() {
                        assert(before[a].0 != before[b].0);
                    } else if a < before.len() {
                        assert(before[a].0 != name@);
                    } else {
                        assert(before[b].0 != name@);
                    }
                }
            },
        }
    }
}

} // verus!
