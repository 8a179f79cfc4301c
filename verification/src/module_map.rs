//! Maps from module names.

use crate::text_order::{before, compare, lemma_before_irreflexive, lemma_before_transitive, Order};
use vstd::prelude::*;

verus! {

/// A map from module names, in ascending order of the names.
#[derive(Debug, PartialEq, Eq)]
pub struct ModuleMap<V> {
    entries: Vec<(String, V)>,
}

/// Whether `names` ascends without repeating a name.
pub open spec fn names_ascend(names: Seq<Seq<char>>) -> bool {
    forall|i: int, j: int|
        0 <= i < j < names.len() ==> before(#[trigger] names[i], #[trigger] names[j])
}

/// The map of `names` to the values at the same positions.
pub open spec fn zip_map<V>(names: Seq<Seq<char>>, values: Seq<V>) -> Map<Seq<char>, V> {
    Map::new(
        |name: Seq<char>| names.contains(name),
        |name: Seq<char>| values[names.index_of(name)],
    )
}

/// Ascending names do not repeat.
pub proof fn lemma_ascending_distinct(names: Seq<Seq<char>>)
    requires
        names_ascend(names),
    ensures
        names.no_duplicates(),
{
    assert forall|i: int, j: int| 0 <= i < j < names.len() implies names[i] != names[j] by {
        assert(before(names[i], names[j]));
        lemma_before_irreflexive(names[i]);
    }
}

/// The value at a position is the one found under the name at that position.
pub proof fn lemma_zip_at<V>(names: Seq<Seq<char>>, values: Seq<V>, i: int)
    requires
        names_ascend(names),
        names.len() == values.len(),
        0 <= i < names.len(),
    ensures
        zip_map(names, values).contains_key(names[i]),
        zip_map(names, values)[names[i]] == values[i],
{
    lemma_ascending_distinct(names);
    assert(names.contains(names[i]));
    let j = names.index_of(names[i]);
    assert(names[j] == names[i]);
}

impl<V> ModuleMap<V> {
    /// The names in ascending order.
    pub closed spec fn names(self) -> Seq<Seq<char>> {
        self.entries@.map_values(|e: (String, V)| e.0@)
    }

    /// The values in ascending order of their names.
    pub closed spec fn values(self) -> Seq<V> {
        self.entries@.map_values(|e: (String, V)| e.1)
    }

    /// The names ascend, and each has a value.
    pub open spec fn sorted(self) -> bool {
        &&& names_ascend(self.names())
        &&& self.names().len() == self.values().len()
    }

    #[verifier::type_invariant]
    spec fn names_sorted(self) -> bool {
        names_ascend(self.names())
    }

    /// The map without modules.
    pub fn new() -> (m: Self)
        ensures
            m@ == Map::<Seq<char>, V>::empty(),
            m.names().len() == 0,
            m.sorted(),
    {
        let m = ModuleMap { entries: Vec::new() };
        proof {
            assert(m@ =~= Map::<Seq<char>, V>::empty());
        }
        m
    }

    /// How many modules there are.
    pub fn len(&self) -> (n: usize)
        ensures
            n == self.names().len(),
            self.sorted(),
    {
        proof {
            use_type_invariant(self);
        }
        self.entries.len()
    }

    /// The name of the module at position `i`.
    pub fn name_at(&self, i: usize) -> (name: &String)
        requires
            i < self.names().len(),
        ensures
            name@ == self.names()[i as int],
    {
        &self.entries[i].0
    }

    /// The value of the module at position `i`.
    pub fn value_at(&self, i: usize) -> (value: &V)
        requires
            i < self.names().len(),
        ensures
            *value == self.values()[i as int],
    {
        &self.entries[i].1
    }

    /// The value of the module called `name`.
    pub fn get(&self, name: &str) -> (value: Option<&V>)
        ensures
            match value {
                Some(value) => self@.contains_key(name@) && *value == self@[name@],
                None => !self@.contains_key(name@),
            },
    {
        proof {
            use_type_invariant(self);
        }
        for i in 0..self.entries.len()
            invariant
                names_ascend(self.names()),
                forall|j: int| 0 <= j < i ==> self.names()[j] != name@,
        {
            if let Order::Same = compare(self.entries[i].0.as_str(), name) {
                proof {
                    assert(self.names()[i as int] == name@);
                    lemma_zip_at(self.names(), self.values(), i as int);
                }
                return Some(&self.entries[i].1);
            }
        }
        None
    }

    /// The map that has `value` under `name`, and is the same elsewhere.
    pub fn insert(self, name: String, value: V) -> (m: Self)
        ensures
            m@ == self@.insert(name@, value),
            m.sorted(),
    {
        proof {
            use_type_invariant(&self);
        }
        let ghost names = self.names();
        let ghost values = self.values();
        let mut entries = self.entries;
        let ghost old_entries = entries@;
        let mut i: usize = 0;
        while i < entries.len()
            invariant
                i <= entries@.len(),
                entries@ == old_entries,
                names == entries@.map_values(|e: (String, V)| e.0@),
                values == entries@.map_values(|e: (String, V)| e.1),
                names_ascend(names),
                forall|j: int| 0 <= j < i ==> before(#[trigger] names[j], name@),
            ensures
                i <= entries@.len(),
                entries@ == old_entries,
                names_ascend(names),
                forall|j: int| 0 <= j < i ==> before(#[trigger] names[j], name@),
                i < entries@.len() ==> !before(names[i as int], name@),
                i < entries@.len() ==> names[i as int] == name@ || before(name@, names[i as int]),
            decreases entries@.len() - i,
        {
            match compare(entries[i].0.as_str(), name.as_str()) {
                Order::Before => {
                    i += 1;
                },
                Order::Same => {
                    proof {
                        lemma_before_irreflexive(name@);
                    }
                    break;
                },
                Order::After => {
                    proof {
                        if before(names[i as int], name@) {
                            lemma_before_transitive(names[i as int], name@, names[i as int]);
                            lemma_before_irreflexive(names[i as int]);
                        }
                    }
                    break;
                },
            }
        }
        let same = if i < entries.len() {
            match compare(entries[i].0.as_str(), name.as_str()) {
                Order::Same => true,
                _ => false,
            }
        } else {
            false
        };
        let ghost new_name = name@;
        if same {
            entries.set(i, (name, value));
        } else {
            entries.insert(i, (name, value));
        }
        proof {
            let new_names = entries@.map_values(|e: (String, V)| e.0@);
            let new_values = entries@.map_values(|e: (String, V)| e.1);
            if same {
                assert(new_names =~= names);
                assert(new_values =~= values.update(i as int, value));
            } else {
                assert(new_names =~= names.insert(i as int, new_name));
                assert(new_values =~= values.insert(i as int, value));
                lemma_insert_ascends(names, i as int, new_name);
            }
            lemma_insert_map(names, values, new_names, new_values, i as int, new_name, value);
        }
        ModuleMap { entries }
    }
}

proof fn lemma_insert_ascends(names: Seq<Seq<char>>, i: int, name: Seq<char>)
    requires
        names_ascend(names),
        0 <= i <= names.len(),
        forall|j: int| 0 <= j < i ==> before(#[trigger] names[j], name),
        i < names.len() ==> before(name, names[i]),
    ensures
        names_ascend(names.insert(i, name)),
{
    let all = names.insert(i, name);
    assert forall|a: int, b: int| 0 <= a < b < all.len() implies before(
        #[trigger] all[a],
        #[trigger] all[b],
    ) by {
        if a == i {
            if b - 1 > i {
                assert(before(names[i], names[b - 1]));
                lemma_before_transitive(name, names[i], names[b - 1]);
            }
        }
    }
}

proof fn lemma_insert_map<V>(
    names: Seq<Seq<char>>,
    values: Seq<V>,
    new_names: Seq<Seq<char>>,
    new_values: Seq<V>,
    i: int,
    name: Seq<char>,
    value: V,
)
    requires
        names_ascend(names),
        names_ascend(new_names),
        names.len() == values.len(),
        0 <= i <= names.len(),
        ({
            ||| (i < names.len() && names[i] == name && new_names == names && new_values
                == values.update(i, value))
            ||| (new_names == names.insert(i, name) && new_values == values.insert(i, value))
        }),
    ensures
        zip_map(new_names, new_values) == zip_map(names, values).insert(name, value),
{
    let old_map = zip_map(names, values);
    let new_map = zip_map(new_names, new_values);
    assert(new_names[i] == name);
    lemma_zip_at(new_names, new_values, i);
    assert forall|k: Seq<char>|
        new_map.contains_key(k) <==> k == name || old_map.contains_key(k) by {
        if new_names.contains(k) {
            let j = choose|j: int| 0 <= j < new_names.len() && new_names[j] == k;
            if new_names != names && j != i {
                let j0 = if j < i { j } else { j - 1 };
                assert(names[j0] == k);
            }
        }
        if names.contains(k) && new_names != names {
            let j = choose|j: int| 0 <= j < names.len() && names[j] == k;
            let j1 = if j < i { j } else { j + 1 };
            assert(new_names[j1] == k);
        }
    }
    assert forall|k: Seq<char>| k != name && old_map.contains_key(k) implies new_map[k]
        == old_map[k] by {
        let j = choose|j: int| 0 <= j < names.len() && names[j] == k;
        lemma_zip_at(names, values, j);
        if new_names == names && new_values == values.update(i, value) {
            lemma_zip_at(new_names, new_values, j);
        } else {
            let j1 = if j < i { j } else { j + 1 };
            assert(new_names[j1] == k);
            lemma_zip_at(new_names, new_values, j1);
        }
    }
    assert(new_map =~= old_map.insert(name, value));
}

impl<V: Clone> Clone for ModuleMap<V> {
    fn clone(&self) -> (copy: Self)
        ensures
            copy.names() == self.names(),
            copy.values().len() == self.values().len(),
            forall|i: int|
                0 <= i < self.values().len() ==> cloned::<V>(
                    self.values()[i],
                    #[trigger] copy.values()[i],
                ),
            copy.sorted(),
            self.sorted(),
    {
        proof {
            use_type_invariant(self);
        }
        let mut entries: Vec<(String, V)> = Vec::new();
        for i in 0..self.entries.len()
            invariant
                entries@.len() == i,
                forall|j: int|
                    0 <= j < i ==> (#[trigger] entries@[j]).0@ == self.entries@[j].0@
                        && cloned::<V>(self.entries@[j].1, entries@[j].1),
        {
            entries.push((self.entries[i].0.clone(), self.entries[i].1.clone()));
        }
        proof {
            assert(entries@.map_values(|e: (String, V)| e.0@) =~= self.names());
        }
        ModuleMap { entries }
    }
}

impl<V> View for ModuleMap<V> {
    type V = Map<Seq<char>, V>;

    open spec fn view(&self) -> Map<Seq<char>, V> {
        zip_map(self.names(), self.values())
    }
}

} // verus!
