//! A map from names to values.

use vstd::prelude::*;

use crate::text::same_text;

verus! {

/// A map keyed by names, kept in the order in which the names were first inserted.
#[derive(Clone, Debug)]
pub struct NameMap<V> {
    pub entries: Vec<(String, V)>,
}

/// Some entry carries `name`.
pub open spec fn named<V>(entries: Seq<(String, V)>, name: Seq<char>) -> bool {
    exists|i: int| 0 <= i < entries.len() && (#[trigger] entries[i]).0@ == name
}

/// `i` is the first entry that carries `name`.
pub open spec fn first_at<V>(entries: Seq<(String, V)>, name: Seq<char>, i: int) -> bool {
    &&& 0 <= i < entries.len()
    &&& entries[i].0@ == name
    &&& forall|j: int| 0 <= j < i ==> (#[trigger] entries[j]).0@ != name
}

/// The place of the first entry that carries `name`.
pub open spec fn first_named<V>(entries: Seq<(String, V)>, name: Seq<char>) -> int {
    choose|i: int| first_at(entries, name, i)
}

/// What the entries say of each name.
pub open spec fn map_of<V>(entries: Seq<(String, V)>) -> Map<Seq<char>, V> {
    Map::new(
        |name: Seq<char>| named(entries, name),
        |name: Seq<char>| entries[first_named(entries, name)].1,
    )
}

impl<V> View for NameMap<V> {
    type V = Map<Seq<char>, V>;

    open spec fn view(&self) -> Map<Seq<char>, V> {
        map_of(self.entries@)
    }
}

proof fn lemma_first_at_unique<V>(entries: Seq<(String, V)>, name: Seq<char>, i: int)
    requires
        first_at(entries, name, i),
    ensures
        named(entries, name),
        first_named(entries, name) == i,
{
    let f = first_named(entries, name);
    assert(first_at(entries, name, f));
    if f < i {
        assert(entries[f].0@ != name);
    } else if i < f {
        assert(entries[i].0@ != name);
    }
}

proof fn lemma_named_has_first<V>(entries: Seq<(String, V)>, name: Seq<char>, i: int)
    requires
        0 <= i < entries.len(),
        entries[i].0@ == name,
    ensures
        first_at(entries, name, first_named(entries, name)),
    decreases i,
{
    if exists|j: int| 0 <= j < i && (#[trigger] entries[j]).0@ == name {
        let j = choose|j: int| 0 <= j < i && (#[trigger] entries[j]).0@ == name;
        lemma_named_has_first(entries, name, j);
    } else {
        assert(first_at(entries, name, i));
    }
}

/// Entries that carry the same names hold a name at the same place.
pub proof fn lemma_same_names<V>(
    a: Seq<(String, V)>,
    b: Seq<(String, V)>,
    name: Seq<char>,
)
    requires
        a.len() <= b.len(),
        forall|j: int| 0 <= j < a.len() ==> (#[trigger] a[j]).0@ == b[j].0@,
        forall|j: int| a.len() <= j < b.len() ==> (#[trigger] b[j]).0@ != name,
    ensures
        named(a, name) == named(b, name),
        named(a, name) ==> first_named(a, name) == first_named(b, name) && first_at(
            a,
            name,
            first_named(a, name),
        ),
{
    if named(a, name) {
        let i = choose|i: int| 0 <= i < a.len() && (#[trigger] a[i]).0@ == name;
        lemma_named_has_first(a, name, i);
        let f = first_named(a, name);
        assert(b[f].0@ == name);
        assert forall|j: int| 0 <= j < f implies (#[trigger] b[j]).0@ != name by {
            assert(a[j].0@ != name);
        }
        lemma_first_at_unique(b, name, f);
    } else if named(b, name) {
        let i = choose|i: int| 0 <= i < b.len() && (#[trigger] b[i]).0@ == name;
        assert(a[i].0@ == name);
    }
}

/// Changing the value of the first entry of a name changes that name alone.
proof fn lemma_set<V>(entries: Seq<(String, V)>, name: Seq<char>, i: int, value: V)
    requires
        first_at(entries, name, i),
    ensures
        map_of(entries.update(i, (entries[i].0, value))) == map_of(entries).insert(name, value),
{
    let after = entries.update(i, (entries[i].0, value));
    assert forall|n: Seq<char>| named(entries, n) == named(after, n) && (named(entries, n)
        ==> first_named(entries, n) == first_named(after, n) && first_at(
        entries,
        n,
        first_named(entries, n),
    )) by {
        lemma_same_names(entries, after, n);
    }
    lemma_first_at_unique(entries, name, i);
    assert(map_of(after) =~= map_of(entries).insert(name, value));
}

/// An entry under a new name adds that name alone.
proof fn lemma_push<V>(entries: Seq<(String, V)>, name: String, value: V)
    requires
        !named(entries, name@),
    ensures
        map_of(entries.push((name, value))) == map_of(entries).insert(name@, value),
{
    let after = entries.push((name, value));
    assert forall|n: Seq<char>| n != name@ implies named(entries, n) == named(after, n) && (named(
        entries,
        n,
    ) ==> first_named(entries, n) == first_named(after, n) && first_at(
        entries,
        n,
        first_named(entries, n),
    )) by {
        lemma_same_names(entries, after, n);
    }
    assert(first_at(after, name@, entries.len() as int)) by {
        assert forall|j: int| 0 <= j < entries.len() implies (#[trigger] after[j]).0@ != name@ by {
            assert(entries[j].0@ != name@);
        }
    }
    lemma_first_at_unique(after, name@, entries.len() as int);
    assert(map_of(after) =~= map_of(entries).insert(name@, value));
}

impl<V> NameMap<V> {
    /// The map without any name.
    pub fn new() -> (r: NameMap<V>)
        ensures
            r@ == Map::<Seq<char>, V>::empty(),
    {
        let r = NameMap { entries: Vec::new() };
        assert(r@ =~= Map::<Seq<char>, V>::empty());
        r
    }

    /// The place of the first entry named `name`.
    fn position(&self, name: &str) -> (r: Option<usize>)
        ensures
            match r {
                Some(i) => first_at(self.entries@, name@, i as int),
                None => !named(self.entries@, name@),
            },
    {
        let mut i: usize = 0;
        while i < self.entries.len()
            invariant
                i <= self.entries@.len(),
                forall|j: int| 0 <= j < i ==> (#[trigger] self.entries@[j]).0@ != name@,
            decreases self.entries@.len() - i,
        {
            if same_text(self.entries[i].0.as_str(), name) {
                return Some(i);
            }
            i += 1;
        }
        None
    }

    /// Whether `name` has a value.
    pub fn contains(&self, name: &str) -> (r: bool)
        ensures
            r == self@.contains_key(name@),
    {
        let p = self.position(name);
        proof {
            if let Some(i) = p {
                lemma_first_at_unique(self.entries@, name@, i as int);
            }
        }
        p.is_some()
    }

    /// The value of `name`.
    pub fn get(&self, name: &str) -> (r: Option<&V>)
        ensures
            match r {
                Some(v) => self@.contains_key(name@) && *v == self@[name@],
                None => !self@.contains_key(name@),
            },
    {
        match self.position(name) {
            Some(i) => {
                proof {
                    lemma_first_at_unique(self.entries@, name@, i as int);
                }
                Some(&self.entries[i].1)
            },
            None => None,
        }
    }

    /// A place to change the value of `name` in.
    pub fn get_mut(&mut self, name: &str) -> (r: Option<&mut V>)
        ensures
            match r {
                Some(v) => {
                    &&& old(self)@.contains_key(name@)
                    &&& *v == old(self)@[name@]
                    &&& final(self)@ == old(self)@.insert(name@, *final(v))
                },
                None => !old(self)@.contains_key(name@) && *final(self) == *old(self),
            },
    {
        match self.position(name) {
            Some(i) => {
                proof {
                    lemma_first_at_unique(self.entries@, name@, i as int);
                    assert forall|v: V|
                        map_of(
                            #[trigger] self.entries@.update(
                                i as int,
                                (self.entries@[i as int].0, v),
                            ),
                        ) == self@.insert(name@, v) by {
                        lemma_set(self.entries@, name@, i as int, v);
                    }
                }
                Some(&mut self.entries[i].1)
            },
            None => None,
        }
    }

    /// Gives `name` the value `value`, whatever it had before.
    pub fn insert(&mut self, name: &str, value: V)
        ensures
            final(self)@ == old(self)@.insert(name@, value),
    {
        match self.position(name) {
            Some(i) => {
                proof {
                    lemma_set(self.entries@, name@, i as int, value);
                }
                self.entries[i].1 = value;
            },
            None => {
                let key = name.to_owned();
                proof {
                    lemma_push(self.entries@, key, value);
                }
                self.entries.push((key, value));
            },
        }
    }
}

} // verus!
