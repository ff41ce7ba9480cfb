//! Tables keyed by text.

use vstd::prelude::*;

verus! {

/// The map that a list of entries denotes; a later entry wins.
pub open spec fn entries_map<V>(entries: Seq<(String, V)>) -> Map<Seq<char>, V>
    decreases entries.len(),
{
    if entries.len() == 0 {
        Map::empty()
    } else {
        entries_map(entries.drop_last()).insert(entries.last().0@, entries.last().1)
    }
}

/// Whether no two entries have the same key.
pub open spec fn distinct_keys<V>(entries: Seq<(String, V)>) -> bool {
    forall|i: int, j: int|
        0 <= i < j < entries.len() ==> (#[trigger] entries[i]).0@ != (#[trigger] entries[j]).0@
}

/// An entry is in the map under its key, and a key of the map is that of an entry.
pub proof fn lemma_entries_map<V>(entries: Seq<(String, V)>)
    requires
        distinct_keys(entries),
    ensures
        forall|i: int|
            0 <= i < entries.len() ==> entries_map(entries).contains_key(
                (#[trigger] entries[i]).0@,
            ) && entries_map(entries)[entries[i].0@] == entries[i].1,
        forall|k: Seq<char>| #[trigger]
            entries_map(entries).contains_key(k) ==> exists|i: int|
                0 <= i < entries.len() && (#[trigger] entries[i]).0@ == k,
    decreases entries.len(),
{
    if entries.len() > 0 {
        let rest = entries.drop_last();
        assert(distinct_keys(rest)) by {
            assert forall|i: int, j: int| 0 <= i < j < rest.len() implies (#[trigger] rest[i]).0@
                != (#[trigger] rest[j]).0@ by {
                assert(rest[i] == entries[i] && rest[j] == entries[j]);
            }
        }
        lemma_entries_map(rest);
        let last = entries.last();
        assert forall|i: int| 0 <= i < entries.len() implies entries_map(entries).contains_key(
            (#[trigger] entries[i]).0@,
        ) && entries_map(entries)[entries[i].0@] == entries[i].1 by {
            if i < rest.len() {
                assert(rest[i] == entries[i]);
                assert(entries[i].0@ != entries[entries.len() - 1].0@);
            }
        }
        assert forall|k: Seq<char>| #[trigger]
            entries_map(entries).contains_key(k) implies exists|i: int|
            0 <= i < entries.len() && (#[trigger] entries[i]).0@ == k by {
            if k == last.0@ {
                assert(entries[entries.len() - 1].0@ == k);
            } else {
                assert(entries_map(rest).contains_key(k));
                let i = choose|i: int| 0 <= i < rest.len() && (#[trigger] rest[i]).0@ == k;
                assert(entries[i] == rest[i]);
            }
        }
    }
}

/// Whether a key is that of an entry.
pub open spec fn has_key<V>(entries: Seq<(String, V)>, key: Seq<char>) -> bool {
    exists|i: int| 0 <= i < entries.len() && (#[trigger] entries[i]).0@ == key
}

/// A list of entries after one is put in: in place of the one with its key, or at the end
/// where there is none.
pub open spec fn with_entry<V>(entries: Seq<(String, V)>, key: String, value: V) -> Seq<
    (String, V),
> {
    if has_key(entries, key@) {
        Seq::new(
            entries.len(),
            |i: int|
                if entries[i].0@ == key@ {
                    (key, value)
                } else {
                    entries[i]
                },
        )
    } else {
        entries.push((key, value))
    }
}

/// The map of a list without a key twice has as many keys as the list has entries.
pub proof fn lemma_entries_map_len<V>(entries: Seq<(String, V)>)
    requires
        distinct_keys(entries),
    ensures
        entries_map(entries).dom().finite(),
        entries_map(entries).len() == entries.len(),
    decreases entries.len(),
{
    if entries.len() > 0 {
        let rest = entries.drop_last();
        assert(distinct_keys(rest)) by {
            assert forall|i: int, j: int| 0 <= i < j < rest.len() implies (#[trigger] rest[i]).0@
                != (#[trigger] rest[j]).0@ by {
                assert(rest[i] == entries[i] && rest[j] == entries[j]);
            }
        }
        lemma_entries_map_len(rest);
        lemma_entries_map(rest);
        let key = entries.last().0@;
        if entries_map(rest).contains_key(key) {
            let i = choose|i: int| 0 <= i < rest.len() && (#[trigger] rest[i]).0@ == key;
            assert(entries[i].0@ != entries[entries.len() - 1].0@);
        }
    }
}

/// Replacing the value of an entry replaces it in the map.
proof fn lemma_update_entry<V>(entries: Seq<(String, V)>, at: int, key: String, value: V)
    requires
        distinct_keys(entries),
        0 <= at < entries.len(),
        entries[at].0@ == key@,
    ensures
        distinct_keys(entries.update(at, (key, value))),
        entries_map(entries.update(at, (key, value))) == entries_map(entries).insert(key@, value),
{
    let updated = entries.update(at, (key, value));
    assert(distinct_keys(updated)) by {
        assert forall|i: int, j: int| 0 <= i < j < updated.len() implies (#[trigger] updated[i]).0@
            != (#[trigger] updated[j]).0@ by {
            assert(entries[i].0@ != entries[j].0@);
            assert(updated[i].0@ == entries[i].0@ && updated[j].0@ == entries[j].0@);
        }
    }
    lemma_entries_map(entries);
    lemma_entries_map(updated);
    let left = entries_map(updated);
    let right = entries_map(entries).insert(key@, value);
    assert forall|k: Seq<char>| #[trigger] left.dom().contains(k) implies right.dom().contains(k)
        && left[k] == right[k] by {
        assert(left.contains_key(k));
        let i = choose|i: int| 0 <= i < updated.len() && (#[trigger] updated[i]).0@ == k;
        assert(updated[i].0@ == k);
        assert(entries[i].0@ == k);
    }
    assert forall|k: Seq<char>| #[trigger] right.dom().contains(k) implies left.dom().contains(
        k,
    ) by {
        if k == key@ {
            assert(updated[at].0@ == k);
        } else {
            assert(entries_map(entries).contains_key(k));
            let i = choose|i: int| 0 <= i < entries.len() && (#[trigger] entries[i]).0@ == k;
            assert(updated[i].0@ == k);
        }
    }
    assert(left.dom() =~= right.dom());
    assert(left =~= right);
}

/// A table from text to values. A key occurs at most once.
#[derive(Debug)]
pub struct Table<V> {
    entries: Vec<(String, V)>,
}

impl<V> View for Table<V> {
    type V = Map<Seq<char>, V>;

    closed spec fn view(&self) -> Map<Seq<char>, V> {
        entries_map(self.entries@)
    }
}

impl<V> Table<V> {
    #[verifier::type_invariant]
    closed spec fn well_formed(self) -> bool {
        distinct_keys(self.entries@)
    }

    /// The entries in the order in which their keys were first inserted.
    pub closed spec fn listed(&self) -> Seq<(String, V)> {
        self.entries@
    }

    /// The listed entries have distinct keys, and the table is the map that they denote.
    pub fn entries(&self) -> (r: &Vec<(String, V)>)
        ensures
            r@ == self.listed(),
            distinct_keys(r@),
            self@ == entries_map(r@),
    {
        proof {
            use_type_invariant(self);
        }
        &self.entries
    }

    /// The empty table.
    pub fn new() -> (r: Table<V>)
        ensures
            r@ == Map::<Seq<char>, V>::empty(),
            r.listed() == Seq::<(String, V)>::empty(),
    {
        Table { entries: Vec::new() }
    }

    /// The number of entries.
    pub fn len(&self) -> (r: usize)
        ensures
            r == self.listed().len(),
            self@.dom().finite(),
            r == self@.len(),
    {
        proof {
            use_type_invariant(self);
            lemma_entries_map_len(self.entries@);
        }
        self.entries.len()
    }

    /// The position of a key among the entries.
    fn position(entries: &Vec<(String, V)>, key: &str) -> (r: Option<usize>)
        ensures
            match r {
                Some(i) => i < entries.len() && entries@[i as int].0@ == key@,
                None => forall|i: int| 0 <= i < entries.len() ==> (#[trigger] entries@[i]).0@
                    != key@,
            },
    {
        let wanted = key.to_owned();
        let mut i: usize = 0;
        while i < entries.len()
            invariant
                i <= entries.len(),
                wanted@ == key@,
                forall|j: int| 0 <= j < i ==> (#[trigger] entries@[j]).0@ != key@,
            decreases entries.len() - i,
        {
            if entries[i].0 == wanted {
                return Some(i);
            }
            i = i + 1;
        }
        None
    }

    /// The value under a key.
    pub fn get(&self, key: &str) -> (r: Option<&V>)
        ensures
            match r {
                Some(v) => self@.contains_key(key@) && self@[key@] == *v,
                None => !self@.contains_key(key@),
            },
    {
        proof {
            use_type_invariant(self);
            lemma_entries_map(self.entries@);
        }
        match Self::position(&self.entries, key) {
            Some(i) => Some(&self.entries[i].1),
            None => None,
        }
    }

    /// Whether a key is present.
    pub fn contains_key(&self, key: &str) -> (r: bool)
        ensures
            r == self@.contains_key(key@),
    {
        self.get(key).is_some()
    }

    /// Puts a value under a key, replacing the one that was there.
    pub fn insert(&mut self, key: String, value: V)
        ensures
            final(self)@ == old(self)@.insert(key@, value),
            final(self).listed() == with_entry(old(self).listed(), key, value),
    {
        proof {
            use_type_invariant(&*self);
        }
        let mut entries: Vec<(String, V)> = Vec::new();
        std::mem::swap(&mut entries, &mut self.entries);
        let ghost before = entries@;
        match Self::position(&entries, key.as_str()) {
            Some(i) => {
                proof {
                    lemma_update_entry(before, i as int, key, value);
                }
                entries.set(i, (key, value));
                proof {
                    assert(before[i as int].0@ == key@);
                    assert forall|j: int| 0 <= j < before.len() && j != i implies (
                    #[trigger] before[j]).0@ != key@ by {
                        assert(before[i as int].0@ == key@);
                    }
                    assert(entries@ =~= with_entry(before, key, value));
                }
            },
            None => {
                entries.push((key, value));
                assert(!has_key(before, key@));
                assert(entries@.drop_last() =~= before);
                assert(distinct_keys(entries@)) by {
                    assert forall|i: int, j: int| 0 <= i < j < entries@.len() implies (
                    #[trigger] entries@[i]).0@ != (#[trigger] entries@[j]).0@ by {
                        assert(entries@[i] == before[i]);
                        if j < before.len() {
                            assert(entries@[j] == before[j]);
                        }
                    }
                }
            },
        }
        self.entries = entries;
    }
}

/// Whether two lists have the same keys in the same order, and values that are clones.
pub open spec fn cloned_entries<V: Clone>(a: Seq<(String, V)>, b: Seq<(String, V)>) -> bool {
    &&& a.len() == b.len()
    &&& forall|i: int|
        0 <= i < a.len() ==> (#[trigger] a[i]).0@ == b[i].0@ && cloned::<V>(a[i].1, b[i].1)
}

/// Lists with cloned entries denote maps with the same keys and cloned values.
pub proof fn lemma_cloned_entries<V: Clone>(a: Seq<(String, V)>, b: Seq<(String, V)>)
    requires
        cloned_entries(a, b),
    ensures
        entries_map(a).dom() == entries_map(b).dom(),
        forall|k: Seq<char>| #[trigger]
            entries_map(b).contains_key(k) ==> cloned::<V>(entries_map(a)[k], entries_map(b)[k]),
    decreases a.len(),
{
    if a.len() > 0 {
        let (x, y) = (a.drop_last(), b.drop_last());
        assert forall|i: int| 0 <= i < x.len() implies (#[trigger] x[i]).0@ == y[i].0@
            && cloned::<V>(x[i].1, y[i].1) by {
            assert(x[i] == a[i] && y[i] == b[i]);
        }
        lemma_cloned_entries(x, y);
        let n = a.len() - 1;
        assert(a[n].0@ == b[n].0@ && cloned::<V>(a[n].1, b[n].1));
        assert(entries_map(a).dom() =~= entries_map(b).dom());
        assert forall|k: Seq<char>| #[trigger]
            entries_map(b).contains_key(k) implies cloned::<V>(
            entries_map(a)[k],
            entries_map(b)[k],
        ) by {
            if k != b.last().0@ {
                assert(entries_map(y).contains_key(k));
            }
        }
    } else {
        assert(a =~= b);
    }
}

impl<V: Clone> Clone for Table<V> {
    fn clone(&self) -> (r: Table<V>)
        ensures
            cloned_entries(self.listed(), r.listed()),
            r@.dom() == self@.dom(),
            forall|k: Seq<char>| #[trigger]
                r@.contains_key(k) ==> cloned::<V>(self@[k], r@[k]),
    {
        proof {
            use_type_invariant(self);
        }
        let mut entries: Vec<(String, V)> = Vec::new();
        let mut i: usize = 0;
        while i < self.entries.len()
            invariant
                i <= self.entries@.len(),
                cloned_entries(self.entries@.take(i as int), entries@),
            decreases self.entries@.len() - i,
        {
            let ghost before = entries@;
            let value = self.entries[i].1.clone();
            entries.push((self.entries[i].0.clone(), value));
            proof {
                let part = self.entries@.take(i + 1);
                assert forall|k: int| 0 <= k < part.len() implies (#[trigger] part[k]).0@
                    == entries@[k].0@ && cloned::<V>(part[k].1, entries@[k].1) by {
                    if k < i {
                        assert(part[k] == self.entries@.take(i as int)[k]);
                        assert(entries@[k] == before[k]);
                    }
                }
            }
            i = i + 1;
        }
        assert(self.entries@.take(i as int) =~= self.entries@);
        assert(distinct_keys(entries@)) by {
            assert forall|a: int, b: int| 0 <= a < b < entries@.len() implies (
            #[trigger] entries@[a]).0@ != (#[trigger] entries@[b]).0@ by {
                assert(self.entries@[a].0@ == entries@[a].0@);
                assert(self.entries@[b].0@ == entries@[b].0@);
            }
        }
        proof {
            lemma_cloned_entries(self.entries@, entries@);
        }
        Table { entries }
    }
}

} // verus!
