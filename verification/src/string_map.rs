//! A map from names to values that keeps its names in the order in which they came.

use vstd::prelude::*;
use vstd::std_specs::cmp::{PartialEqSpec, PartialEqSpecImpl};

verus! {

/// A map from names to values.
///
/// The entries stand in a list, each name once; looking a name up walks the list.
#[derive(Debug, Eq)]
pub struct StringMap<V> {
    entries: Vec<(String, V)>,
}

/// No two entries have the same name.
pub open spec fn names_differ<V>(entries: Seq<(String, V)>) -> bool {
    forall|i: int, j: int|
        0 <= i < j < entries.len() ==> (#[trigger] entries[i]).0@ != (#[trigger] entries[j]).0@
}

/// The place of a name among the entries, where it has one.
pub open spec fn place_of<V>(entries: Seq<(String, V)>, name: Seq<char>) -> int {
    choose|i: int| 0 <= i < entries.len() && (#[trigger] entries[i]).0@ == name
}

/// Some entry has this name.
pub open spec fn has_name<V>(entries: Seq<(String, V)>, name: Seq<char>) -> bool {
    exists|i: int| 0 <= i < entries.len() && (#[trigger] entries[i]).0@ == name
}

/// The map that the entries make up.
pub open spec fn entries_map<V>(entries: Seq<(String, V)>) -> Map<Seq<char>, V> {
    Map::new(
        |name: Seq<char>| has_name(entries, name),
        |name: Seq<char>| entries[place_of(entries, name)].1,
    )
}

impl<V> View for StringMap<V> {
    type V = Map<Seq<char>, V>;

    closed spec fn view(&self) -> Map<Seq<char>, V> {
        entries_map(self.entries@)
    }
}

/// An entry is what the map holds under the entry's name.
pub(crate) proof fn entry_in_map<V>(entries: Seq<(String, V)>, i: int)
    requires
        names_differ(entries),
        0 <= i < entries.len(),
    ensures
        entries_map(entries).contains_key(entries[i].0@),
        entries_map(entries)[entries[i].0@] == entries[i].1,
{
    let p: int = place_of(entries, entries[i].0@);
    assert(0 <= p < entries.len() && entries[p].0@ == entries[i].0@);
}

/// As many names as entries.
pub(crate) proof fn entries_count<V>(entries: Seq<(String, V)>)
    requires
        names_differ(entries),
    ensures
        entries_map(entries).dom().finite(),
        entries_map(entries).dom().len() == entries.len(),
    decreases entries.len(),
{
    let names: Seq<Seq<char>> = entries.map_values(|e: (String, V)| e.0@);
    assert(names.no_duplicates()) by {
        assert forall|i: int, j: int| 0 <= i < names.len() && 0 <= j < names.len() && i != j implies names[i]
            != names[j] by {
            if i < j {
                assert(entries[i].0@ != entries[j].0@);
            } else {
                assert(entries[j].0@ != entries[i].0@);
            }
        }
    }
    names.unique_seq_to_set();
    assert(names.to_set() =~= entries_map(entries).dom()) by {
        assert forall|name: Seq<char>| #[trigger]
            names.to_set().contains(name) <==> entries_map(entries).dom().contains(name) by {
            if has_name(entries, name) {
                let p: int = place_of(entries, name);
                assert(names[p] == name);
            }
            if names.to_set().contains(name) {
                let i: int = choose|i: int| 0 <= i < names.len() && names[i] == name;
                assert(entries[i].0@ == name);
            }
        }
    }
}

impl<V> StringMap<V> {
    #[verifier::type_invariant]
    spec fn names_once(self) -> bool {
        names_differ(self.entries@)
    }

    /// A map without names.
    pub fn new() -> (r: StringMap<V>)
        ensures
            r@ == Map::<Seq<char>, V>::empty(),
    {
        let r = StringMap { entries: Vec::new() };
        proof {
            assert(r@ =~= Map::<Seq<char>, V>::empty());
        }
        r
    }

    fn position(&self, name: &String) -> (r: usize)
        ensures
            r <= self.entries@.len(),
            r < self.entries@.len() ==> self.entries@[r as int].0@ == name@,
            r == self.entries@.len() ==> !has_name(self.entries@, name@),
    {
        let mut i: usize = 0;
        while i < self.entries.len()
            invariant
                i <= self.entries@.len(),
                forall|j: int| 0 <= j < i ==> (#[trigger] self.entries@[j]).0@ != name@,
            decreases self.entries@.len() - i,
        {
            if self.entries[i].0 == *name {
                return i;
            }
            i = i + 1;
        }
        i
    }

    /// What the map holds under `name`.
    pub fn get(&self, name: &str) -> (r: Option<&V>)
        ensures
            r matches Some(v) ==> self@.contains_key(name@) && self@[name@] == *v,
            r is None ==> !self@.contains_key(name@),
    {
        proof {
            use_type_invariant(self);
        }
        let i: usize = self.position(&name.to_owned());
        if i < self.entries.len() {
            proof {
                entry_in_map(self.entries@, i as int);
            }
            Some(&self.entries[i].1)
        } else {
            None
        }
    }

    /// Tells whether the map holds something under `name`.
    pub fn contains_key(&self, name: &str) -> (r: bool)
        ensures
            r == self@.contains_key(name@),
    {
        self.get(name).is_some()
    }

    /// Puts `value` under `name`, in place of what was there.
    pub fn insert(&mut self, name: String, value: V)
        ensures
            final(self)@ == old(self)@.insert(name@, value),
    {
        proof {
            use_type_invariant(&*self);
        }
        let mut entries: Vec<(String, V)> = Vec::new();
        let i: usize = self.position(&name);
        std::mem::swap(&mut entries, &mut self.entries);
        let ghost before: Seq<(String, V)> = entries@;
        let ghost key: Seq<char> = name@;
        if i < entries.len() {
            entries.set(i, (name, value));
            proof {
                assert forall|k: int, j: int| 0 <= k < j < entries@.len() implies (#[trigger] entries@[k]).0@ != (
                #[trigger] entries@[j]).0@ by {
                    assert(before[k].0@ != before[j].0@);
                }
                assert forall|n: Seq<char>| has_name(entries@, n) == has_name(before, n) by {
                    if has_name(before, n) {
                        let p: int = place_of(before, n);
                        assert(entries@[p].0@ == n);
                    }
                    if has_name(entries@, n) {
                        let p: int = place_of(entries@, n);
                        assert(before[p].0@ == n);
                    }
                }
                assert(entries@[i as int].0@ == key);
            }
        } else {
            entries.push((name, value));
            proof {
                assert forall|k: int, j: int| 0 <= k < j < entries@.len() implies (#[trigger] entries@[k]).0@ != (
                #[trigger] entries@[j]).0@ by {
                    if j < before.len() {
                        assert(before[k].0@ != before[j].0@);
                    } else {
                        assert(before[k].0@ != key);
                    }
                }
                assert forall|n: Seq<char>| has_name(entries@, n) == (has_name(before, n) || n == key) by {
                    if has_name(before, n) {
                        let p: int = place_of(before, n);
                        assert(entries@[p].0@ == n);
                    }
                    if n == key {
                        assert(entries@[i as int].0@ == n);
                    }
                    if has_name(entries@, n) && n != key {
                        let p: int = place_of(entries@, n);
                        assert(p < before.len());
                        assert(before[p].0@ == n);
                    }
                }
            }
        }
        proof {
            assert(entries_map(entries@) =~= entries_map(before).insert(key, value)) by {
                assert forall|n: Seq<char>| #[trigger] entries_map(entries@).contains_key(n) implies entries_map(
                    entries@,
                )[n] == entries_map(before).insert(key, value)[n] by {
                    let p: int = place_of(entries@, n);
                    assert(entries@[p].0@ == n);
                    entry_in_map(entries@, p);
                    if n == key {
                        entry_in_map(entries@, i as int);
                    } else {
                        assert(entries@[p] == before[p]);
                        entry_in_map(before, p);
                    }
                }
            }
        }
        self.entries = entries;
    }

    /// The number of names.
    pub fn len(&self) -> (r: usize)
        ensures
            r == self@.dom().len(),
            self@.dom().finite(),
    {
        proof {
            use_type_invariant(self);
            entries_count(self.entries@);
        }
        self.entries.len()
    }

    /// Tells whether the map holds nothing.
    pub fn is_empty(&self) -> (r: bool)
        ensures
            r == (self@ == Map::<Seq<char>, V>::empty()),
    {
        proof {
            use_type_invariant(self);
            if self.entries@.len() == 0 {
                assert(self@ =~= Map::<Seq<char>, V>::empty());
            } else {
                entry_in_map(self.entries@, 0);
            }
        }
        self.entries.len() == 0
    }

    /// The names and what the map holds under each, every name once.
    pub fn entries(&self) -> (r: &Vec<(String, V)>)
        ensures
            names_differ(r@),
            entries_map(r@) == self@,
            r@.len() == self@.dom().len(),
            forall|i: int|
                0 <= i < r@.len() ==> self@.contains_key((#[trigger] r@[i]).0@) && self@[r@[i].0@] == r@[i].1,
            forall|name: Seq<char>| #[trigger]
                self@.contains_key(name) ==> exists|i: int| 0 <= i < r@.len() && (#[trigger] r@[i]).0@ == name,
    {
        proof {
            use_type_invariant(self);
            entries_count(self.entries@);
            assert forall|i: int| 0 <= i < self.entries@.len() implies self@.contains_key(
                (#[trigger] self.entries@[i]).0@,
            ) && self@[self.entries@[i].0@] == self.entries@[i].1 by {
                entry_in_map(self.entries@, i);
            }
            assert forall|name: Seq<char>| #[trigger] self@.contains_key(name) implies exists|i: int|
                0 <= i < self.entries@.len() && (#[trigger] self.entries@[i]).0@ == name by {
                assert(has_name(self.entries@, name));
            }
        }
        &self.entries
    }
}

impl<V: Clone> Clone for StringMap<V> {
    fn clone(&self) -> (r: Self)
        ensures
            r@.dom() == self@.dom(),
            forall|name: Seq<char>| #[trigger]
                self@.contains_key(name) ==> cloned(self@[name], r@[name]),
    {
        proof {
            use_type_invariant(self);
        }
        let mut entries: Vec<(String, V)> = Vec::new();
        let mut i: usize = 0;
        while i < self.entries.len()
            invariant
                i <= self.entries@.len(),
                entries@.len() == i,
                forall|j: int|
                    0 <= j < i ==> (#[trigger] entries@[j]).0@ == self.entries@[j].0@ && cloned(
                        self.entries@[j].1,
                        entries@[j].1,
                    ),
            decreases self.entries@.len() - i,
        {
            entries.push((self.entries[i].0.clone(), self.entries[i].1.clone()));
            i = i + 1;
        }
        proof {
            assert forall|k: int, j: int| 0 <= k < j < entries@.len() implies (#[trigger] entries@[k]).0@ != (
            #[trigger] entries@[j]).0@ by {
                assert(self.entries@[k].0@ != self.entries@[j].0@);
            }
            assert forall|n: Seq<char>| has_name(entries@, n) == has_name(self.entries@, n) by {
                if has_name(self.entries@, n) {
                    let p: int = place_of(self.entries@, n);
                    assert(entries@[p].0@ == n);
                }
                if has_name(entries@, n) {
                    let p: int = place_of(entries@, n);
                    assert(self.entries@[p].0@ == n);
                }
            }
            assert(entries_map(entries@).dom() =~= self@.dom());
            assert forall|n: Seq<char>| #[trigger] self@.contains_key(n) implies cloned(
                self@[n],
                entries_map(entries@)[n],
            ) by {
                let p: int = place_of(self.entries@, n);
                assert(self.entries@[p].0@ == n);
                assert(entries@[p].0@ == n);
                entry_in_map(self.entries@, p);
                entry_in_map(entries@, p);
            }
        }
        StringMap { entries }
    }
}

/// Two maps are equal when they hold equal values under the same names.
pub open spec fn same_entries<V: PartialEq>(a: Map<Seq<char>, V>, b: Map<Seq<char>, V>) -> bool {
    &&& a.dom() == b.dom()
    &&& forall|name: Seq<char>| #[trigger] a.contains_key(name) ==> a[name].eq_spec(&b[name])
}

impl<V: PartialEq> PartialEqSpecImpl for StringMap<V> {
    open spec fn obeys_eq_spec() -> bool {
        V::obeys_eq_spec()
    }

    open spec fn eq_spec(&self, other: &Self) -> bool {
        same_entries(self@, other@)
    }
}

impl<V: PartialEq> PartialEq for StringMap<V> {
    fn eq(&self, other: &Self) -> (r: bool) {
        proof {
            use_type_invariant(self);
            use_type_invariant(other);
            entries_count(self.entries@);
            entries_count(other.entries@);
        }
        if self.entries.len() != other.entries.len() {
            return false;
        }
        let mut i: usize = 0;
        while i < self.entries.len()
            invariant
                names_differ(self.entries@),
                i <= self.entries@.len(),
                V::obeys_eq_spec() ==> forall|j: int|
                    0 <= j < i ==> other@.contains_key((#[trigger] self.entries@[j]).0@)
                        && self.entries@[j].1.eq_spec(&other@[self.entries@[j].0@]),
            decreases self.entries@.len() - i,
        {
            proof {
                entry_in_map(self.entries@, i as int);
            }
            match other.get(self.entries[i].0.as_str()) {
                Some(value) => {
                    if self.entries[i].1 != *value {
                        return false;
                    }
                },
                None => {
                    return false;
                },
            }
            i = i + 1;
        }
        proof {
            if V::obeys_eq_spec() {
                assert forall|n: Seq<char>| #[trigger] self@.contains_key(n) implies other@.contains_key(n)
                    && self@[n].eq_spec(&other@[n]) by {
                    let p: int = place_of(self.entries@, n);
                    assert(self.entries@[p].0@ == n);
                    entry_in_map(self.entries@, p);
                }
                assert(self@.dom().subset_of(other@.dom()));
                vstd::set_lib::lemma_subset_equality(self@.dom(), other@.dom());
            }
        }
        true
    }
}

} // verus!
