//! A map from names to values that is kept in the order of its names, so that everything
//! generated from it comes out in one fixed order.

use crate::text::{lemma_precedes_total, lemma_precedes_transitive, precedes, rank, Rank};
use vstd::prelude::*;

verus! {

/// The names stand in strictly increasing order; in particular no name occurs twice.
pub open spec fn sorted<T>(m: Seq<(Seq<char>, T)>) -> bool {
    forall|i: int, j: int|
        #![trigger m[i], m[j]]
        0 <= i < j < m.len() ==> precedes(m[i].0, m[j].0)
}

/// Some entry carries `name`.
pub open spec fn has_name<T>(m: Seq<(Seq<char>, T)>, name: Seq<char>) -> bool {
    exists|i: int| 0 <= i < m.len() && (#[trigger] m[i]).0 == name
}

/// The position of an entry that carries `name`.
pub open spec fn index_of<T>(m: Seq<(Seq<char>, T)>, name: Seq<char>) -> int {
    choose|i: int| 0 <= i < m.len() && (#[trigger] m[i]).0 == name
}

/// The value stored under `name`, if there is one.
pub open spec fn lookup<T>(m: Seq<(Seq<char>, T)>, name: Seq<char>) -> Option<T> {
    if has_name(m, name) {
        Some(m[index_of(m, name)].1)
    } else {
        None
    }
}

/// `p` is where `name` belongs: every entry before `p` has a smaller name, and the entry at
/// `p`, if any, has not.
pub open spec fn is_slot<T>(m: Seq<(Seq<char>, T)>, name: Seq<char>, p: int) -> bool {
    &&& 0 <= p <= m.len()
    &&& forall|j: int| 0 <= j < p ==> precedes((#[trigger] m[j]).0, name)
    &&& p < m.len() ==> !precedes(m[p].0, name)
}

/// The position at which `name` belongs.
pub open spec fn slot<T>(m: Seq<(Seq<char>, T)>, name: Seq<char>) -> int {
    choose|p: int| is_slot(m, name, p)
}

/// The map after `name` has been set to `value`: the entry is replaced where the name is
/// present and put in its place in the order where it is not.
pub open spec fn inserted<T>(m: Seq<(Seq<char>, T)>, name: Seq<char>, value: T) -> Seq<
    (Seq<char>, T),
> {
    let p = slot(m, name);
    if p < m.len() && m[p].0 == name {
        m.update(p, (name, value))
    } else {
        m.insert(p, (name, value))
    }
}

/// The map after `name` has been given `value` unless it had one already.
pub open spec fn inserted_if_absent<T>(m: Seq<(Seq<char>, T)>, name: Seq<char>, value: T) -> Seq<
    (Seq<char>, T),
> {
    if has_name(m, name) {
        m
    } else {
        inserted(m, name, value)
    }
}

/// In a sorted map the entry at `i` is the one that its name is looked up to.
pub proof fn lemma_lookup_at<T>(m: Seq<(Seq<char>, T)>, i: int)
    requires
        sorted(m),
        0 <= i < m.len(),
    ensures
        has_name(m, m[i].0),
        index_of(m, m[i].0) == i,
        lookup(m, m[i].0) == Some(m[i].1),
{
    let j = index_of(m, m[i].0);
    if i < j {
        lemma_precedes_total(m[i].0, m[j].0);
    } else if j < i {
        lemma_precedes_total(m[j].0, m[i].0);
    }
}

/// There is exactly one position at which a name belongs.
pub proof fn lemma_slot_unique<T>(m: Seq<(Seq<char>, T)>, name: Seq<char>, p: int)
    requires
        is_slot(m, name, p),
    ensures
        slot(m, name) == p,
{
}

/// In a sorted map the entry at the slot of `name` is the only one that can carry it.
pub proof fn lemma_slot_decides<T>(m: Seq<(Seq<char>, T)>, name: Seq<char>, p: int)
    requires
        sorted(m),
        is_slot(m, name, p),
    ensures
        has_name(m, name) <==> (p < m.len() && m[p].0 == name),
        has_name(m, name) ==> index_of(m, name) == p,
{
    if has_name(m, name) {
        let i = index_of(m, name);
        lemma_lookup_at(m, i);
        lemma_precedes_total(name, name);
        if p < i {
            lemma_precedes_total(m[p].0, m[i].0);
        }
    }
}

/// Setting a name keeps the map sorted, stores the value under that name and leaves every
/// other name as it was.
pub proof fn lemma_inserted<T>(m: Seq<(Seq<char>, T)>, name: Seq<char>, value: T)
    requires
        sorted(m),
    ensures
        sorted(inserted(m, name, value)),
        lookup(inserted(m, name, value), name) == Some(value),
        forall|other: Seq<char>|
            other != name ==> lookup(inserted(m, name, value), other) == lookup(m, other),
{
    lemma_slot_exists(m, name);
    let p = slot(m, name);
    let r = inserted(m, name, value);
    let replace = p < m.len() && m[p].0 == name;
    assert forall|i: int, j: int| 0 <= i < j < r.len() implies precedes(
        (#[trigger] r[i]).0,
        (#[trigger] r[j]).0,
    ) by {
        if !replace && i == p {
            lemma_precedes_total(m[p].0, name);
            if j - 1 > p {
                lemma_precedes_transitive(name, m[p].0, m[j - 1].0);
            }
        }
    }
    lemma_lookup_at(r, p);
    assert forall|other: Seq<char>| other != name implies lookup(r, other) == lookup(
        m,
        other,
    ) by {
        if has_name(m, other) {
            let i = index_of(m, other);
            let ni = if replace || i < p { i } else { i + 1 };
            lemma_lookup_at(m, i);
            lemma_lookup_at(r, ni);
        } else if has_name(r, other) {
            let i = index_of(r, other);
            assert(r[i] == m[if replace || i < p { i } else { i - 1 }]);
        }
    }
}

/// Every name belongs somewhere.
pub proof fn lemma_slot_exists<T>(m: Seq<(Seq<char>, T)>, name: Seq<char>)
    requires
        sorted(m),
    ensures
        is_slot(m, name, slot(m, name)),
{
    lemma_first_not_before(m, name, 0);
}

/// The first position from `from` on whose name does not come before `name`.
pub open spec fn first_not_before<T>(m: Seq<(Seq<char>, T)>, name: Seq<char>, from: int) -> int
    decreases m.len() - from,
{
    if 0 <= from < m.len() && precedes(m[from].0, name) {
        first_not_before(m, name, from + 1)
    } else {
        from
    }
}

proof fn lemma_first_not_before<T>(m: Seq<(Seq<char>, T)>, name: Seq<char>, from: int)
    requires
        0 <= from <= m.len(),
        forall|j: int| 0 <= j < from ==> precedes((#[trigger] m[j]).0, name),
    ensures
        is_slot(m, name, first_not_before(m, name, from)),
    decreases m.len() - from,
{
    if from < m.len() && precedes(m[from].0, name) {
        lemma_first_not_before(m, name, from + 1);
    }
}

/// A map from names to values, held in the order of the names.
pub struct NameMap<'a, V> {
    entries: Vec<(&'a str, V)>,
}

impl<'a, V> NameMap<'a, V> {
    /// The names of the entries stand in strictly increasing order.
    #[verifier::type_invariant]
    pub closed spec fn ordered(self) -> bool {
        forall|i: int, j: int|
            #![trigger self.entries@[i], self.entries@[j]]
            0 <= i < j < self.entries@.len() ==> precedes(self.entries@[i].0@, self.entries@[j].0@)
    }
}

impl<'a, V: View> View for NameMap<'a, V> {
    type V = Seq<(Seq<char>, V::V)>;

    closed spec fn view(&self) -> Self::V {
        Seq::new(self.entries@.len(), |i: int| (self.entries@[i].0@, self.entries@[i].1@))
    }
}

impl<'a, V: View> NameMap<'a, V> {
    /// What every map of this type satisfies: its entries are sorted.
    pub proof fn lemma_sorted(self)
        requires
            self.ordered(),
        ensures
            sorted(self@),
    {
        assert forall|i: int, j: int| 0 <= i < j < self@.len() implies precedes(
            (#[trigger] self@[i]).0,
            (#[trigger] self@[j]).0,
        ) by {
            assert(precedes(self.entries@[i].0@, self.entries@[j].0@));
        }
    }

    /// The empty map.
    pub fn new() -> (r: Self)
        ensures
            r@ == Seq::<(Seq<char>, V::V)>::empty(),
    {
        NameMap { entries: Vec::new() }
    }

    /// The number of entries.
    pub fn len(&self) -> (n: usize)
        ensures
            n == self@.len(),
    {
        self.entries.len()
    }

    /// The name of the entry at position `i`.
    pub fn name_at(&self, i: usize) -> (r: &'a str)
        requires
            i < self@.len(),
        ensures
            r@ == self@[i as int].0,
    {
        self.entries[i].0
    }

    /// The value of the entry at position `i`.
    pub fn value_at(&self, i: usize) -> (r: &V)
        requires
            i < self@.len(),
        ensures
            r@ == self@[i as int].1,
    {
        &self.entries[i].1
    }

    /// The position at which `name` belongs, and whether it is there.
    fn locate(&self, name: &str) -> (r: (usize, bool))
        ensures
            is_slot(self@, name@, r.0 as int),
            r.1 == has_name(self@, name@),
            r.1 ==> index_of(self@, name@) == r.0,
    {
        proof {
            use_type_invariant(self);
            self.lemma_sorted();
        }
        let n = self.entries.len();
        let mut low: usize = 0;
        let mut high: usize = n;
        while low < high
            invariant
                n == self.entries@.len(),
                n == self@.len(),
                0 <= low <= high <= n,
                sorted(self@),
                forall|j: int| 0 <= j < low ==> precedes((#[trigger] self@[j]).0, name@),
                forall|j: int| high <= j < n ==> precedes(name@, (#[trigger] self@[j]).0),
            decreases high - low,
        {
            let middle = low + (high - low) / 2;
            let r = rank(self.entries[middle].0, name);
            let ghost here = self@[middle as int].0;
            match r {
                Rank::Before => {
                    assert forall|j: int| 0 <= j < middle + 1 implies precedes(
                        (#[trigger] self@[j]).0,
                        name@,
                    ) by {
                        if j < middle {
                            lemma_precedes_transitive(self@[j].0, here, name@);
                        }
                    }
                    low = middle + 1;
                },
                Rank::Same => {
                    proof {
                        lemma_precedes_total(name@, name@);
                        lemma_slot_decides(self@, name@, middle as int);
                    }
                    return (middle, true);
                },
                Rank::After => {
                    proof {
                        lemma_precedes_total(here, name@);
                    }
                    assert forall|j: int| middle <= j < n implies precedes(
                        name@,
                        (#[trigger] self@[j]).0,
                    ) by {
                        if middle < j {
                            lemma_precedes_transitive(name@, here, self@[j].0);
                        }
                    }
                    high = middle;
                },
            }
        }
        proof {
            if low < n {
                lemma_precedes_total(name@, self@[low as int].0);
            }
            lemma_slot_decides(self@, name@, low as int);
        }
        (low, false)
    }

    /// The position of `name`, if it is present.
    pub fn find(&self, name: &str) -> (r: Option<usize>)
        ensures
            r is Some <==> has_name(self@, name@),
            r matches Some(i) ==> i == index_of(self@, name@) && i < self@.len() && self@[i as int].0
                == name@,
    {
        let (p, present) = self.locate(name);
        if present {
            Some(p)
        } else {
            None
        }
    }

    /// The value stored under `name`, if there is one.
    pub fn get(&self, name: &str) -> (r: Option<&V>)
        ensures
            r is Some <==> has_name(self@, name@),
            r matches Some(v) ==> lookup(self@, name@) == Some(v@),
    {
        let (p, present) = self.locate(name);
        if present {
            Some(&self.entries[p].1)
        } else {
            None
        }
    }

    /// Sets `name` to `value`, replacing what it had.
    pub fn insert(&mut self, name: &'a str, value: V)
        ensures
            final(self)@ == inserted(old(self)@, name@, value@),
    {
        proof {
            use_type_invariant(&*self);
            self.lemma_sorted();
        }
        let ghost before = self@;
        let (p, present) = self.locate(name);
        proof {
            lemma_slot_unique(before, name@, p as int);
            lemma_slot_decides(before, name@, p as int);
            lemma_inserted(before, name@, value@);
        }
        let mut entries: Vec<(&'a str, V)> = Vec::new();
        std::mem::swap(&mut entries, &mut self.entries);
        if present {
            entries.set(p, (name, value));
        } else {
            entries.insert(p, (name, value));
        }
        let ghost target = inserted(before, name@, value@);
        assert forall|i: int| 0 <= i < entries@.len() implies (entries@[i].0@, entries@[i].1@)
            == #[trigger] target[i] by {}
        assert forall|i: int, j: int| 0 <= i < j < entries@.len() implies precedes(
            (#[trigger] entries@[i]).0@,
            (#[trigger] entries@[j]).0@,
        ) by {
            assert(target[i].0 == entries@[i].0@);
            assert(target[j].0 == entries@[j].0@);
        }
        self.entries = entries;
    }

    /// Whether `name` may be appended: it comes after every name of the map.
    pub open spec fn takes_last(self, name: Seq<char>) -> bool {
        self@.len() > 0 ==> precedes(self@.last().0, name)
    }

    /// Appends an entry whose name comes after every name of the map.
    pub fn push_last(&mut self, name: &'a str, value: V)
        requires
            old(self).takes_last(name@),
        ensures
            final(self)@ == old(self)@.push((name@, value@)),
    {
        proof {
            use_type_invariant(&*self);
            self.lemma_sorted();
        }
        let ghost before = self@;
        let mut entries: Vec<(&'a str, V)> = Vec::new();
        std::mem::swap(&mut entries, &mut self.entries);
        let ghost held = entries@;
        entries.push((name, value));
        assert forall|i: int, j: int| 0 <= i < j < entries@.len() implies precedes(
            (#[trigger] entries@[i]).0@,
            (#[trigger] entries@[j]).0@,
        ) by {
            if j == held.len() && i < held.len() - 1 {
                lemma_precedes_transitive(before[i].0, before.last().0, name@);
            }
        }
        self.entries = entries;
    }

    /// Gives `name` the value `value` unless it has one already.
    pub fn insert_if_absent(&mut self, name: &'a str, value: V)
        ensures
            final(self)@ == inserted_if_absent(old(self)@, name@, value@),
    {
        if self.find(name).is_none() {
            self.insert(name, value);
        }
    }

    /// Puts `value` in place of the value at position `i`; the name stays.
    pub fn replace_value_at(&mut self, i: usize, value: V)
        requires
            i < old(self)@.len(),
        ensures
            final(self)@ == old(self)@.update(i as int, (old(self)@[i as int].0, value@)),
    {
        proof {
            use_type_invariant(&*self);
        }
        let name = self.entries[i].0;
        let mut entries: Vec<(&'a str, V)> = Vec::new();
        std::mem::swap(&mut entries, &mut self.entries);
        entries.set(i, (name, value));
        self.entries = entries;
    }
}

} // verus!
