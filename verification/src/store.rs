//! The resolved values of an invocation.
//!
//! The store keeps one entry for each name, in a vector that is searched
//! by comparing names character by character. Its model is the map from
//! names to values that those entries stand for; every operation is proved
//! against that map, and nothing rests on how a hasher treats strings.

use vstd::prelude::*;
use crate::text::str_eq;

verus! {

/// Whether no name occurs twice among the entries.
spec fn distinct_names(entries: Seq<(&str, &str)>) -> bool {
    forall|i: int, j: int|
        0 <= i < j < entries.len() ==> (#[trigger] entries[i]).0@ != (#[trigger] entries[j]).0@
}

/// Whether some entry carries `name`.
spec fn has_name(entries: Seq<(&str, &str)>, name: Seq<char>) -> bool {
    exists|i: int| 0 <= i < entries.len() && (#[trigger] entries[i]).0@ == name
}

/// The mapping that a list of entries stands for.
spec fn entries_map(entries: Seq<(&str, &str)>) -> Map<Seq<char>, Seq<char>> {
    Map::new(
        |name: Seq<char>| has_name(entries, name),
        |name: Seq<char>|
            entries[choose|i: int|
                0 <= i < entries.len() && (#[trigger] entries[i]).0@ == name].1@,
    )
}

/// With distinct names, each entry is what the mapping holds for its name.
proof fn lemma_entry_is_mapped(entries: Seq<(&str, &str)>, i: int)
    requires
        distinct_names(entries),
        0 <= i < entries.len(),
    ensures
        entries_map(entries).contains_key(entries[i].0@),
        entries_map(entries)[entries[i].0@] == entries[i].1@,
{
    let name = entries[i].0@;
    let j = choose|j: int| 0 <= j < entries.len() && (#[trigger] entries[j]).0@ == name;
    if j < i {
        assert(entries[j].0@ != entries[i].0@);
    } else if i < j {
        assert(entries[i].0@ != entries[j].0@);
    }
}

/// Two lists of entries with distinct names stand for the same mapping
/// when each entry of one has an entry of the other with the same name
/// and value.
proof fn lemma_same_mapping(
    entries: Seq<(&str, &str)>,
    expected: Map<Seq<char>, Seq<char>>,
)
    requires
        distinct_names(entries),
        forall|i: int|
            0 <= i < entries.len() ==> expected.contains_key((#[trigger] entries[i]).0@)
                && expected[entries[i].0@] == entries[i].1@,
        forall|name: Seq<char>| #[trigger] expected.contains_key(name) ==> has_name(entries, name),
    ensures
        entries_map(entries) == expected,
{
    assert forall|name: Seq<char>| #[trigger]
        entries_map(entries).contains_key(name) implies expected.contains_key(name)
        && entries_map(entries)[name] == expected[name] by {
        let i = choose|i: int| 0 <= i < entries.len() && (#[trigger] entries[i]).0@ == name;
        lemma_entry_is_mapped(entries, i);
    }
    assert(entries_map(entries) =~= expected);
}

/// Replacing the value of the entry for `name` sets the value that the
/// mapping holds for `name`, and keeps names distinct.
proof fn lemma_replace(entries: Seq<(&str, &str)>, i: int, name: &str, value: &str)
    requires
        distinct_names(entries),
        0 <= i < entries.len(),
        entries[i].0@ == name@,
    ensures
        distinct_names(entries.update(i, (name, value))),
        entries_map(entries.update(i, (name, value))) == entries_map(entries).insert(
            name@,
            value@,
        ),
{
    let replaced = entries.update(i, (name, value));
    assert forall|p: int, q: int| 0 <= p < q < replaced.len() implies (#[trigger] replaced[p]).0@
        != (#[trigger] replaced[q]).0@ by {
        assert(entries[p].0@ != entries[q].0@);
    }
    let expected = entries_map(entries).insert(name@, value@);
    assert forall|p: int| 0 <= p < replaced.len() implies expected.contains_key(
        (#[trigger] replaced[p]).0@,
    ) && expected[replaced[p].0@] == replaced[p].1@ by {
        lemma_entry_is_mapped(entries, p);
        if p != i {
            assert(entries[p].0@ != entries[i].0@);
        }
    }
    assert forall|key: Seq<char>| #[trigger] expected.contains_key(key) implies has_name(
        replaced,
        key,
    ) by {
        if key == name@ {
            assert(replaced[i].0@ == key);
        } else {
            let p = choose|p: int| 0 <= p < entries.len() && (#[trigger] entries[p]).0@ == key;
            assert(replaced[p].0@ == key);
        }
    }
    lemma_same_mapping(replaced, expected);
}

/// Adding an entry for a name that no entry carries sets the value that
/// the mapping holds for that name, and keeps names distinct.
proof fn lemma_append(entries: Seq<(&str, &str)>, name: &str, value: &str)
    requires
        distinct_names(entries),
        !has_name(entries, name@),
    ensures
        distinct_names(entries.push((name, value))),
        entries_map(entries.push((name, value))) == entries_map(entries).insert(name@, value@),
{
    let extended = entries.push((name, value));
    assert forall|p: int, q: int| 0 <= p < q < extended.len() implies (#[trigger] extended[p]).0@
        != (#[trigger] extended[q]).0@ by {
        if q < entries.len() {
            assert(entries[p].0@ != entries[q].0@);
        } else {
            assert(entries[p].0@ != name@);
        }
    }
    let expected = entries_map(entries).insert(name@, value@);
    assert forall|p: int| 0 <= p < extended.len() implies expected.contains_key(
        (#[trigger] extended[p]).0@,
    ) && expected[extended[p].0@] == extended[p].1@ by {
        if p < entries.len() {
            lemma_entry_is_mapped(entries, p);
            assert(entries[p].0@ != name@);
        }
    }
    assert forall|key: Seq<char>| #[trigger] expected.contains_key(key) implies has_name(
        extended,
        key,
    ) by {
        if key == name@ {
            assert(extended[entries.len() as int].0@ == key);
        } else {
            let p = choose|p: int| 0 <= p < entries.len() && (#[trigger] entries[p]).0@ == key;
            assert(extended[p].0@ == key);
        }
    }
    lemma_same_mapping(extended, expected);
}

/// With distinct names, the mapping holds as many names as there are
/// entries.
proof fn lemma_one_name_per_entry(entries: Seq<(&str, &str)>)
    requires
        distinct_names(entries),
    ensures
        entries_map(entries).dom().finite(),
        entries_map(entries).dom().len() == entries.len(),
    decreases entries.len(),
{
    if entries.len() == 0 {
        assert(entries_map(entries).dom() =~= Set::<Seq<char>>::empty());
    } else {
        let earlier = entries.drop_last();
        let last = entries.last();
        assert forall|i: int, j: int| 0 <= i < j < earlier.len() implies (#[trigger] earlier[i]).0@
            != (#[trigger] earlier[j]).0@ by {
            assert(entries[i].0@ != entries[j].0@);
        }
        if has_name(earlier, last.0@) {
            let i = choose|i: int| 0 <= i < earlier.len() && (#[trigger] earlier[i]).0@ == last.0@;
            assert(entries[i].0@ != entries[entries.len() - 1].0@);
        }
        lemma_one_name_per_entry(earlier);
        lemma_append(earlier, last.0, last.1);
        assert(earlier.push((last.0, last.1)) =~= entries);
        assert(entries_map(entries).dom() =~= entries_map(earlier).dom().insert(last.0@));
    }
}

/// A mapping from argument names to their resolved values.
///
/// A flag that takes no value is held with the empty string as its value;
/// an optional argument that was not given is not held at all.
#[derive(Debug)]
pub struct ValueStore<'a> {
    entries: Vec<(&'a str, &'a str)>,
}

impl<'a> View for ValueStore<'a> {
    type V = Map<Seq<char>, Seq<char>>;

    closed spec fn view(&self) -> Map<Seq<char>, Seq<char>> {
        entries_map(self.entries@)
    }
}

impl<'a> Clone for ValueStore<'a> {
    fn clone(&self) -> (copy: ValueStore<'a>)
        ensures
            copy@ == self@,
    {
        proof {
            use_type_invariant(self);
        }
        ValueStore { entries: self.copy_entries() }
    }
}

impl<'a> ValueStore<'a> {
    /// No name is held twice.
    #[verifier::type_invariant]
    spec fn well_formed(self) -> bool {
        distinct_names(self.entries@)
    }

    /// The store that holds nothing.
    pub fn new() -> (store: ValueStore<'a>)
        ensures
            store@ == Map::<Seq<char>, Seq<char>>::empty(),
    {
        let store = ValueStore { entries: Vec::new() };
        assert(store@ =~= Map::<Seq<char>, Seq<char>>::empty());
        store
    }

    /// The number of names that hold a value.
    pub fn len(&self) -> (count: usize)
        ensures
            self@.dom().finite(),
            count == self@.len(),
    {
        proof {
            use_type_invariant(self);
            lemma_one_name_per_entry(self.entries@);
        }
        self.entries.len()
    }

    /// Tests whether no name holds a value.
    pub fn is_empty(&self) -> (empty: bool)
        ensures
            empty == (self@ == Map::<Seq<char>, Seq<char>>::empty()),
    {
        proof {
            if self.entries.len() == 0 {
                assert(self@ =~= Map::<Seq<char>, Seq<char>>::empty());
            } else {
                assert(has_name(self.entries@, self.entries[0].0@));
                assert(self@.contains_key(self.entries[0].0@));
            }
        }
        self.entries.len() == 0
    }

    /// The position of the entry for `name`, if there is one.
    fn position(&self, name: &str) -> (found: Option<usize>)
        ensures
            match found {
                Some(i) => i < self.entries.len() && self.entries[i as int].0@ == name@,
                None => !has_name(self.entries@, name@),
            },
    {
        let mut i: usize = 0;
        while i < self.entries.len()
            invariant
                i <= self.entries.len(),
                forall|j: int| 0 <= j < i ==> (#[trigger] self.entries[j]).0@ != name@,
            decreases self.entries.len() - i,
        {
            if str_eq(self.entries[i].0, name) {
                return Some(i);
            }
            i += 1;
        }
        None
    }

    /// A copy of the entries, in their order.
    fn copy_entries(&self) -> (copy: Vec<(&'a str, &'a str)>)
        ensures
            copy@ == self.entries@,
    {
        let mut copy: Vec<(&'a str, &'a str)> = Vec::new();
        let mut i: usize = 0;
        while i < self.entries.len()
            invariant
                i <= self.entries.len(),
                copy@ == self.entries@.take(i as int),
            decreases self.entries.len() - i,
        {
            copy.push(self.entries[i]);
            assert(copy@ =~= self.entries@.take(i + 1));
            i += 1;
        }
        assert(copy@ =~= self.entries@);
        copy
    }

    /// Sets the value held for `name`, replacing an earlier one.
    pub fn insert(&mut self, name: &'a str, value: &'a str)
        ensures
            final(self)@ == old(self)@.insert(name@, value@),
    {
        proof {
            use_type_invariant(&*self);
        }
        let mut entries = self.copy_entries();
        match self.position(name) {
            Some(i) => {
                proof {
                    lemma_replace(entries@, i as int, name, value);
                }
                entries.set(i, (name, value));
            },
            None => {
                proof {
                    lemma_append(entries@, name, value);
                }
                entries.push((name, value));
            },
        }
        *self = ValueStore { entries };
    }

    /// The value held for `name`, if any.
    pub fn get(&self, name: &str) -> (value: Option<&'a str>)
        ensures
            match value {
                Some(text) => self@.contains_key(name@) && self@[name@] == text@,
                None => !self@.contains_key(name@),
            },
    {
        proof {
            use_type_invariant(self);
        }
        match self.position(name) {
            Some(i) => {
                proof {
                    lemma_entry_is_mapped(self.entries@, i as int);
                }
                Some(self.entries[i].1)
            },
            None => None,
        }
    }

    /// Tests whether a value is held for `name`.
    pub fn contains_key(&self, name: &str) -> (held: bool)
        ensures
            held == self@.contains_key(name@),
    {
        self.get(name).is_some()
    }
}

} // verus!
