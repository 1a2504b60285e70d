//! Tables keyed by name.

use vstd::prelude::*;

verus! {

/// A table from names to values. Each name occurs at most once.
#[derive(Debug)]
pub struct Table<V> {
    entries: Vec<(String, V)>,
}

/// Some entry has the name `key`.
spec fn listed<V>(entries: Seq<(String, V)>, key: Seq<char>) -> bool {
    exists|i: int| 0 <= i < entries.len() && #[trigger] entries[i].0@ == key
}

/// The position of an entry with the name `key`.
spec fn position<V>(entries: Seq<(String, V)>, key: Seq<char>) -> int {
    choose|i: int| 0 <= i < entries.len() && #[trigger] entries[i].0@ == key
}

impl<V> Table<V> {
    #[verifier::type_invariant]
    spec fn names_are_distinct(self) -> bool {
        forall|i: int, j: int|
            0 <= i < j < self.entries@.len() ==> #[trigger] self.entries@[i].0@
                != #[trigger] self.entries@[j].0@
    }
}

impl<V> View for Table<V> {
    type V = Map<Seq<char>, V>;

    /// The values by name.
    closed spec fn view(&self) -> Map<Seq<char>, V> {
        Map::new(
            |key: Seq<char>| listed(self.entries@, key),
            |key: Seq<char>| self.entries@[position(self.entries@, key)].1,
        )
    }
}

impl<V> Table<V> {
    /// The empty table.
    pub fn new() -> (r: Self)
        ensures
            r@ == Map::<Seq<char>, V>::empty(),
    {
        let r = Table { entries: Vec::new() };
        assert(r@ =~= Map::<Seq<char>, V>::empty());
        r
    }

    /// The table with `value` under the name `key`, in place of what stood there.
    pub fn insert(self, key: String, value: V) -> (r: Self)
        ensures
            r@ == self@.insert(key@, value),
    {
        proof {
            use_type_invariant(&self);
        }
        let mut entries = self.entries;
        let n: usize = entries.len();
        let mut i: usize = 0;
        while i < n
            invariant
                i <= n,
                n == entries@.len(),
                entries@ == self.entries@,
                self.names_are_distinct(),
                forall|j: int| 0 <= j < i ==> #[trigger] entries@[j].0@ != key@,
            decreases n - i,
        {
            if entries[i].0 == key {
                entries.set(i, (key, value));
                let ghost old_entries = self.entries@;
                let r = Table { entries };
                proof {
                    assert(r.entries@ == old_entries.update(i as int, (key, value)));
                    assert forall|k: Seq<char>| listed(r.entries@, k) == listed(old_entries, k) by {
                        if listed(r.entries@, k) {
                            let p = position(r.entries@, k);
                            assert(old_entries[p].0@ == k);
                        }
                        if listed(old_entries, k) {
                            let p = position(old_entries, k);
                            assert(r.entries@[p].0@ == k);
                        }
                    }
                    assert(r.entries@[i as int].0@ == key@);
                    assert forall|k: Seq<char>| #[trigger] r@.dom().contains(k) implies r@[k]
                        == self@.insert(key@, value)[k] by {
                        let p = position(r.entries@, k);
                        let q = position(old_entries, k);
                        assert(old_entries[p].0@ == k);
                        assert(r.entries@[q].0@ == k);
                        assert(old_entries[q].0@ == k);
                    }
                    assert(r@ =~= self@.insert(key@, value));
                }
                return r;
            }
            i = i + 1;
        }
        entries.push((key, value));
        let ghost old_entries = self.entries@;
        let r = Table { entries };
        proof {
            assert(r.entries@ == old_entries.push((key, value)));
            assert(r.entries@[n as int].0@ == key@);
            assert forall|k: Seq<char>|
                listed(r.entries@, k) == (listed(old_entries, k) || k == key@) by {
                if listed(r.entries@, k) {
                    let p = position(r.entries@, k);
                    if p < n {
                        assert(old_entries[p].0@ == k);
                    }
                }
                if listed(old_entries, k) {
                    let p = position(old_entries, k);
                    assert(r.entries@[p].0@ == k);
                }
            }
            assert forall|k: Seq<char>| #[trigger] r@.dom().contains(k) implies r@[k]
                == self@.insert(key@, value)[k] by {
                let p = position(r.entries@, k);
                assert(r.entries@[p].0@ == k);
                if k != key@ {
                    let q = position(old_entries, k);
                    assert(r.entries@[q].0@ == k);
                    assert(old_entries[q].0@ == k);
                }
            }
            assert(r@ =~= self@.insert(key@, value));
        }
        r
    }

    /// The value under the name `key`.
    pub fn get(&self, key: &str) -> (r: Option<&V>)
        ensures
            r matches Some(v) ==> self@.dom().contains(key@) && self@[key@] == *v,
            r is None ==> !self@.dom().contains(key@),
    {
        proof {
            use_type_invariant(self);
        }
        let name = key.to_owned();
        let n: usize = self.entries.len();
        let mut i: usize = 0;
        while i < n
            invariant
                i <= n,
                n == self.entries@.len(),
                name@ == key@,
                self.names_are_distinct(),
                forall|j: int| 0 <= j < i ==> #[trigger] self.entries@[j].0@ != key@,
            decreases n - i,
        {
            if self.entries[i].0 == name {
                proof {
                    assert(self.entries@[i as int].0@ == key@);
                    let p = position(self.entries@, key@);
                    assert(self.entries@[p].0@ == key@);
                }
                return Some(&self.entries[i].1);
            }
            i = i + 1;
        }
        None
    }
}

} // verus!
