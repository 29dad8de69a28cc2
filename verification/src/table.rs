//! A table of values keyed by name, kept in the order the names were first
//! inserted. It stands where a `HashMap<String, _>` would: a name maps to the
//! value of its first entry, and the table never holds two entries for a name.

use vstd::prelude::*;

verus! {

struct TableEntry<V> {
    key: String,
    value: V,
}

/// Index `i` of `s` holds the first entry named `k`.
pub open spec fn is_first_index<V>(s: Seq<(Seq<char>, V)>, k: Seq<char>, i: int) -> bool {
    &&& 0 <= i < s.len()
    &&& s[i].0 == k
    &&& forall|j: int| 0 <= j < i ==> #[trigger] s[j].0 != k
}

/// The value of the first entry of `s` named `k`, if there is one.
pub open spec fn seq_lookup<V>(s: Seq<(Seq<char>, V)>, k: Seq<char>) -> Option<V> {
    if exists|i: int| is_first_index(s, k, i) {
        Some(s[choose|i: int| is_first_index(s, k, i)].1)
    } else {
        None
    }
}

/// No two entries of `s` have the same name.
pub open spec fn names_unique<V>(s: Seq<(Seq<char>, V)>) -> bool {
    forall|i: int, j: int| 0 <= i < s.len() && 0 <= j < s.len() && i != j ==> #[trigger] s[i].0 != #[trigger] s[j].0
}

/// Values keyed by name, in insertion order.
pub struct Table<V> {
    entries: Vec<TableEntry<V>>,
}

impl<V> View for Table<V> {
    type V = Map<Seq<char>, V>;

    /// Each name maps to the value of its first entry.
    closed spec fn view(&self) -> Map<Seq<char>, V> {
        Map::new(
            |k: Seq<char>| exists|i: int| 0 <= i < self.pairs().len() && #[trigger] self.pairs()[i].0 == k,
            |k: Seq<char>| self.pairs()[self.first_index(k)].1,
        )
    }
}

impl<V> Table<V> {
    /// The entries, in insertion order.
    pub closed spec fn pairs(&self) -> Seq<(Seq<char>, V)> {
        self.entries@.map_values(|e: TableEntry<V>| (e.key@, e.value))
    }

    /// Index `i` holds the first entry for name `k`.
    pub open spec fn first_at(&self, k: Seq<char>, i: int) -> bool {
        is_first_index(self.pairs(), k, i)
    }

    /// The index of the first entry for `k`, if there is one.
    pub open spec fn position_of(&self, k: Seq<char>) -> Option<int> {
        if exists|i: int| self.first_at(k, i) {
            Some(choose|i: int| self.first_at(k, i))
        } else {
            None
        }
    }

    closed spec fn first_index(&self, k: Seq<char>) -> int {
        choose|i: int| self.first_at(k, i)
    }

    proof fn lemma_first(&self, k: Seq<char>, i: int)
        requires
            self.first_at(k, i),
        ensures
            self@.contains_key(k),
            self.first_index(k) == i,
            self.position_of(k) == Some(i),
            self@[k] == self.pairs()[i].1,
    {
        assert(self.pairs()[i].0 == k);
        let j = self.first_index(k);
        assert(self.first_at(k, j));
        if j < i {
            assert(self.pairs()[j].0 != k);
        } else if i < j {
            assert(self.pairs()[i].0 != k);
        }
    }

    proof fn lemma_least(&self, k: Seq<char>, w: int)
        requires
            0 <= w < self.pairs().len(),
            self.pairs()[w].0 == k,
        ensures
            self.first_at(k, self.first_index(k)),
        decreases w,
    {
        if forall|j: int| 0 <= j < w ==> #[trigger] self.pairs()[j].0 != k {
            assert(self.first_at(k, w));
        } else {
            let v = choose|j: int| 0 <= j < w && #[trigger] self.pairs()[j].0 == k;
            self.lemma_least(k, v);
        }
    }

    /// A name has an entry exactly when it is in the map, and its first entry
    /// holds the mapped value.
    pub proof fn lemma_position(&self, k: Seq<char>)
        ensures
            self@.contains_key(k) <==> self.position_of(k) is Some,
            self.position_of(k) matches Some(i) ==> self.first_at(k, i) && self@[k] == self.pairs()[i].1,
    {
        if self@.contains_key(k) {
            let w = choose|w: int| 0 <= w < self.pairs().len() && #[trigger] self.pairs()[w].0 == k;
            self.lemma_least(k, w);
            self.lemma_first(k, self.first_index(k));
        } else if exists|i: int| self.first_at(k, i) {
            let i = choose|i: int| self.first_at(k, i);
            assert(self.pairs()[i].0 == k);
        }
    }

    /// The map holds what a lookup of the entries finds.
    pub proof fn lemma_lookup(&self, k: Seq<char>)
        ensures
            seq_lookup(self.pairs(), k) == (if self@.contains_key(k) { Some(self@[k]) } else { None::<V> }),
    {
        self.lemma_position(k);
        if self@.contains_key(k) {
            let i = self.position_of(k)->0;
            let j = choose|j: int| is_first_index(self.pairs(), k, j);
            assert(self.first_at(k, j));
            if j < i {
                assert(self.pairs()[j].0 != k);
            } else if i < j {
                assert(self.pairs()[i].0 != k);
            }
        }
    }

    /// The name of every entry is in the map.
    pub proof fn lemma_entry_in_map(&self, i: int)
        requires
            0 <= i < self.pairs().len(),
        ensures
            self@.contains_key(self.pairs()[i].0),
    {
        let k = self.pairs()[i].0;
        assert(self.pairs()[i].0 == k);
    }

    proof fn lemma_replace(&self, k: Seq<char>, i: int)
        requires
            self.first_at(k, i),
        ensures
            forall|r: Self, v: V|
                #![trigger r.view(), r.pairs(), self.pairs().update(i, (k, v))]
                r.pairs() == self.pairs().update(i, (k, v)) ==> r@ == self@.insert(k, v),
    {
        assert forall|r: Self, v: V|
            #![trigger r.view(), r.pairs(), self.pairs().update(i, (k, v))]
            r.pairs() == self.pairs().update(i, (k, v)) implies r@ == self@.insert(k, v) by {
            assert(r.first_at(k, i));
            r.lemma_first(k, i);
            assert forall|q: Seq<char>|
                #![trigger self@.dom().contains(q)]
                #![trigger r@.dom().contains(q)]
                q != k && self@.contains_key(q) implies r@.contains_key(q) && r@[q] == self@[q] by {
                let w = choose|w: int| 0 <= w < self.pairs().len() && #[trigger] self.pairs()[w].0 == q;
                self.lemma_least(q, w);
                let j = self.first_index(q);
                self.lemma_first(q, j);
                assert(j != i);
                assert(r.first_at(q, j));
                r.lemma_first(q, j);
            }
            assert forall|q: Seq<char>|
                #![trigger self@.dom().contains(q)]
                #![trigger r@.dom().contains(q)]
                r@.contains_key(q) implies self@.contains_key(q) || q == k by {
                let w = choose|w: int| 0 <= w < r.pairs().len() && #[trigger] r.pairs()[w].0 == q;
                if w != i {
                    assert(self.pairs()[w].0 == q);
                }
            }
            assert(r@.dom() =~= self@.insert(k, v).dom());
            assert(r@ =~= self@.insert(k, v));
        }
    }

    proof fn lemma_append(&self, r: &Self, k: Seq<char>, v: V)
        requires
            !self@.contains_key(k),
            r.pairs() == self.pairs().push((k, v)),
        ensures
            r@ == self@.insert(k, v),
    {
        let n = self.pairs().len() as int;
        assert forall|q: Seq<char>|
            #![trigger self@.dom().contains(q)]
            #![trigger r@.dom().contains(q)]
            self@.contains_key(q) implies r@.contains_key(q) && r@[q] == self@[q] by {
            let w = choose|w: int| 0 <= w < self.pairs().len() && #[trigger] self.pairs()[w].0 == q;
            self.lemma_least(q, w);
            let j = self.first_index(q);
            self.lemma_first(q, j);
            assert(r.pairs()[j] == self.pairs()[j]);
            assert(r.first_at(q, j));
            r.lemma_first(q, j);
        }
        assert forall|j: int| 0 <= j < n implies #[trigger] r.pairs()[j].0 != k by {
            if self.pairs()[j].0 == k {
                assert(self@.contains_key(k));
            }
        }
        assert(r.first_at(k, n));
        r.lemma_first(k, n);
        assert forall|q: Seq<char>|
            #![trigger self@.dom().contains(q)]
            #![trigger r@.dom().contains(q)]
            r@.contains_key(q) implies self@.contains_key(q) || q == k by {
            let w = choose|w: int| 0 <= w < r.pairs().len() && #[trigger] r.pairs()[w].0 == q;
            if w < n {
                assert(self.pairs()[w].0 == q);
            }
        }
        assert(r@.dom() =~= self@.insert(k, v).dom());
        assert(r@ =~= self@.insert(k, v));
    }

    proof fn lemma_pairs_update(&self, i: int)
        requires
            0 <= i < self.entries@.len(),
        ensures
            forall|r: Self, v: V|
                #![trigger r.pairs(), self.entries@.update(i, TableEntry { key: self.entries@[i].key, value: v })]
                r.entries@ == self.entries@.update(i, TableEntry { key: self.entries@[i].key, value: v })
                    ==> r.pairs() == self.pairs().update(i, (self.pairs()[i].0, v)),
    {
        assert forall|r: Self, v: V|
            #![trigger r.pairs(), self.entries@.update(i, TableEntry { key: self.entries@[i].key, value: v })]
            r.entries@ == self.entries@.update(i, TableEntry { key: self.entries@[i].key, value: v })
                implies r.pairs() == self.pairs().update(i, (self.pairs()[i].0, v)) by {
            assert(r.pairs() =~= self.pairs().update(i, (self.pairs()[i].0, v)));
        }
    }

    /// An empty table.
    pub fn new() -> (t: Self)
        ensures
            t.pairs() == Seq::<(Seq<char>, V)>::empty(),
            t@ == Map::<Seq<char>, V>::empty(),
            names_unique(t.pairs()),
    {
        let t = Table { entries: Vec::new() };
        assert(t.pairs() =~= Seq::<(Seq<char>, V)>::empty());
        assert(t@ =~= Map::<Seq<char>, V>::empty());
        t
    }

    fn position(&self, key: &String) -> (pos: Option<usize>)
        ensures
            pos matches Some(i) ==> self.first_at(key@, i as int),
            pos is None ==> !self@.contains_key(key@),
    {
        let mut i: usize = 0;
        while i < self.entries.len()
            invariant
                i <= self.entries@.len(),
                forall|j: int| 0 <= j < i ==> #[trigger] self.pairs()[j].0 != key@,
            decreases self.entries@.len() - i,
        {
            if self.entries[i].key == *key {
                return Some(i);
            }
            i += 1;
        }
        proof {
            if self@.contains_key(key@) {
                let w = choose|w: int| 0 <= w < self.pairs().len() && #[trigger] self.pairs()[w].0 == key@;
                assert(self.pairs()[w].0 != key@);
            }
        }
        None
    }

    /// The number of entries.
    pub fn len(&self) -> (n: usize)
        ensures
            n == self.pairs().len(),
    {
        self.entries.len()
    }

    /// Whether the table has no entry.
    pub fn is_empty(&self) -> (b: bool)
        ensures
            b <==> self@ == Map::<Seq<char>, V>::empty(),
            b <==> self.pairs().len() == 0,
    {
        proof {
            if self.pairs().len() > 0 {
                assert(self@.contains_key(self.pairs()[0].0));
            } else {
                assert(self@ =~= Map::<Seq<char>, V>::empty());
            }
        }
        self.entries.len() == 0
    }

    /// The name and value of the entry at `i`, in insertion order.
    pub fn entry(&self, i: usize) -> (e: (&str, &V))
        requires
            i < self.pairs().len(),
        ensures
            e.0@ == self.pairs()[i as int].0,
            *e.1 == self.pairs()[i as int].1,
    {
        (self.entries[i].key.as_str(), &self.entries[i].value)
    }

    /// The value for `key`, if there is one.
    pub fn get(&self, key: &str) -> (v: Option<&V>)
        ensures
            v is Some <==> self@.contains_key(key@),
            v matches Some(x) ==> *x == self@[key@],
    {
        let k = key.to_owned();
        match self.position(&k) {
            Some(i) => {
                proof { self.lemma_first(key@, i as int); }
                Some(&self.entries[i].value)
            },
            None => None,
        }
    }

    /// The value for `key`; `value` is inserted first, as the last entry, if
    /// there is none.
    pub fn get_or_insert(&mut self, key: &str, value: V) -> (r: &mut V)
        ensures
            old(self)@.contains_key(key@) ==> *r == old(self)@[key@],
            !old(self)@.contains_key(key@) ==> *r == value,
            final(self)@ == old(self)@.insert(key@, *final(r)),
            old(self)@.contains_key(key@) ==> final(self).pairs()
                == old(self).pairs().update(old(self).position_of(key@)->0, (key@, *final(r))),
            !old(self)@.contains_key(key@) ==> final(self).pairs() == old(self).pairs().push((key@, *final(r))),
            names_unique(old(self).pairs()) ==> names_unique(final(self).pairs()),
    {
        let k = key.to_owned();
        let found = self.position(&k);
        let ghost before = *self;
        let i = match found {
            Some(i) => {
                proof { self.lemma_first(key@, i as int); }
                i
            },
            None => {
                self.entries.push(TableEntry { key: k, value });
                proof {
                    assert(self.pairs() =~= before.pairs().push((key@, value)));
                    before.lemma_append(self, key@, value);
                    let n = (self.entries@.len() - 1) as int;
                    assert forall|j: int| 0 <= j < n implies #[trigger] self.pairs()[j].0 != key@ by {
                        if before.pairs()[j].0 == key@ {
                            assert(before@.contains_key(key@));
                        }
                    }
                    assert(self.first_at(key@, n));
                }
                self.entries.len() - 1
            },
        };
        let ghost mid = *self;
        proof {
            mid.lemma_first(key@, i as int);
            mid.lemma_replace(key@, i as int);
            if !before@.contains_key(key@) {
                assert forall|v: V| #[trigger] mid.pairs().update(i as int, (key@, v)) == before.pairs().push((key@, v)) by {
                    assert(mid.pairs().update(i as int, (key@, v)) =~= before.pairs().push((key@, v)));
                }
                assert(mid@ == before@.insert(key@, value));
                assert forall|v: V| #[trigger] mid@.insert(key@, v) == before@.insert(key@, v) by {
                    assert(mid@.insert(key@, v) =~= before@.insert(key@, v));
                }
            } else {
                before.lemma_position(key@);
            }
        }
        proof {
            mid.lemma_pairs_update(i as int);
            if names_unique(before.pairs()) {
                if !before@.contains_key(key@) {
                    assert forall|a: int, b: int|
                        0 <= a < mid.pairs().len() && 0 <= b < mid.pairs().len() && a != b
                            implies #[trigger] mid.pairs()[a].0 != #[trigger] mid.pairs()[b].0 by {
                        let n = before.pairs().len() as int;
                        if a == n {
                            before.lemma_entry_in_map(b);
                        } else if b == n {
                            before.lemma_entry_in_map(a);
                        } else {
                            assert(mid.pairs()[a] == before.pairs()[a]);
                            assert(mid.pairs()[b] == before.pairs()[b]);
                        }
                    }
                }
                assert forall|v: V| names_unique(#[trigger] mid.pairs().update(i as int, (key@, v))) by {
                    let u = mid.pairs().update(i as int, (key@, v));
                    assert forall|a: int, b: int|
                        0 <= a < u.len() && 0 <= b < u.len() && a != b implies #[trigger] u[a].0 != #[trigger] u[b].0 by {
                        assert(u[a].0 == mid.pairs()[a].0);
                        assert(u[b].0 == mid.pairs()[b].0);
                    }
                }
            }
        }
        &mut self.entries[i].value
    }
}

} // verus!
