//! A finite map from names to values.

use crate::text::{copy_text, same_text};
use vstd::prelude::*;

verus! {

/// A map whose keys are texts. No name occurs twice.
#[derive(Debug)]
pub struct NameMap<V> {
    entries: Vec<(String, V)>,
}

impl<V> NameMap<V> {
    /// No two entries carry the same name.
    pub closed spec fn wf(&self) -> bool {
        forall|i: int, j: int|
            0 <= i < j < self.entries@.len() ==> #[trigger] self.entries@[i].0@
                != #[trigger] self.entries@[j].0@
    }

    spec fn holds(&self, i: int, name: Seq<char>) -> bool {
        0 <= i < self.entries@.len() && self.entries@[i].0@ == name
    }

    spec fn index(&self, name: Seq<char>) -> int {
        choose|i: int| self.holds(i, name)
    }

    /// The map that the entries make up.
    pub closed spec fn view(&self) -> Map<Seq<char>, V> {
        Map::new(
            |name: Seq<char>| exists|i: int| self.holds(i, name),
            |name: Seq<char>| self.entries@[self.index(name)].1,
        )
    }

    proof fn lemma_entry(&self, i: int)
        requires
            self.wf(),
            0 <= i < self.entries@.len(),
        ensures
            self@.dom().contains(self.entries@[i].0@),
            self@[self.entries@[i].0@] == self.entries@[i].1,
    {
        assert(self.holds(i, self.entries@[i].0@));
        let j = self.index(self.entries@[i].0@);
        assert(self.holds(j, self.entries@[i].0@));
        assert(i == j);
    }

    /// The empty map.
    pub fn new() -> (m: Self)
        ensures
            m.wf(),
            m@ == Map::<Seq<char>, V>::empty(),
    {
        let m = NameMap { entries: Vec::new() };
        assert(m@ =~= Map::<Seq<char>, V>::empty());
        m
    }

    fn find(&self, name: &str) -> (at: Option<usize>)
        requires
            self.wf(),
        ensures
            match at {
                Some(i) => i < self.entries@.len() && self.entries@[i as int].0@ == name@,
                None => !self@.dom().contains(name@),
            },
    {
        let n: usize = self.entries.len();
        let mut i: usize = 0;
        while i < n
            invariant
                n == self.entries@.len(),
                i <= n,
                forall|j: int| 0 <= j < i ==> #[trigger] self.entries@[j].0@ != name@,
            decreases n - i,
        {
            if same_text(self.entries[i].0.as_str(), name) {
                return Some(i);
            }
            i = i + 1;
        }
        None
    }

    /// Whether the map has an entry for a name.
    pub fn contains(&self, name: &str) -> (b: bool)
        requires
            self.wf(),
        ensures
            b == self@.dom().contains(name@),
    {
        match self.find(name) {
            Some(i) => {
                proof {
                    self.lemma_entry(i as int);
                }
                true
            },
            None => false,
        }
    }

    /// The value of a name, if it has one.
    pub fn get(&self, name: &str) -> (v: Option<&V>)
        requires
            self.wf(),
        ensures
            match v {
                Some(x) => self@.dom().contains(name@) && *x == self@[name@],
                None => !self@.dom().contains(name@),
            },
    {
        match self.find(name) {
            Some(i) => {
                proof {
                    self.lemma_entry(i as int);
                }
                Some(&self.entries[i].1)
            },
            None => None,
        }
    }

    /// Takes the entry of a name out.
    pub fn remove(&mut self, name: &str)
        requires
            old(self).wf(),
        ensures
            final(self).wf(),
            final(self)@ == old(self)@.remove(name@),
    {
        let ghost before = *self;
        match self.find(name) {
            Some(i) => {
                let _ = self.entries.remove(i);
                proof {
                    before.lemma_entry(i as int);
                    assert(forall|j: int|
                        0 <= j < self.entries@.len() ==> #[trigger] self.entries@[j]
                            == before.entries@[if j < i {
                            j
                        } else {
                            j + 1
                        }]);
                    assert forall|a: int, b: int| 0 <= a < b < self.entries@.len() implies
                        #[trigger] self.entries@[a].0@ != #[trigger] self.entries@[b].0@ by {
                        let a0 = if a < i {
                            a
                        } else {
                            a + 1
                        };
                        let b0 = if b < i {
                            b
                        } else {
                            b + 1
                        };
                        assert(before.entries@[a0].0@ != before.entries@[b0].0@);
                    }
                    assert forall|k: Seq<char>|
                        #![trigger self@.dom().contains(k)]
                        #![trigger self@[k]]
                        self@.dom().contains(k) == before@.remove(name@).dom().contains(k) && (
                        self@.dom().contains(k) ==> self@[k] == before@.remove(name@)[k]) by {
                        if self@.dom().contains(k) {
                            let j = self.index(k);
                            assert(self.holds(j, k));
                            let j0 = if j < i {
                                j
                            } else {
                                j + 1
                            };
                            before.lemma_entry(j0);
                            if j0 < i {
                                assert(before.entries@[j0].0@ != before.entries@[i as int].0@);
                            } else {
                                assert(before.entries@[i as int].0@ != before.entries@[j0].0@);
                            }
                        }
                        if before@.remove(name@).dom().contains(k) {
                            let j0 = before.index(k);
                            assert(before.holds(j0, k));
                            let j = if j0 < i {
                                j0
                            } else {
                                j0 - 1
                            };
                            assert(self.holds(j, k));
                        }
                    }
                    assert(self@ =~= before@.remove(name@));
                }
            },
            None => {
                assert(self@ =~= before@.remove(name@));
            },
        }
    }

    /// Gives a name a value, in place of the one it may have had.
    pub fn insert(&mut self, name: &str, value: V)
        requires
            old(self).wf(),
        ensures
            final(self).wf(),
            final(self)@ == old(self)@.insert(name@, value),
    {
        let ghost start = *self;
        self.remove(name);
        let ghost before = *self;
        self.entries.push((copy_text(name), value));
        proof {
            let n = before.entries@.len() as int;
            assert forall|i: int| 0 <= i < n implies #[trigger] before.entries@[i].0@ != name@ by {
                before.lemma_entry(i);
            }
            assert(forall|i: int| 0 <= i < n ==> self.entries@[i] == before.entries@[i]);
            assert forall|k: Seq<char>|
                #![trigger self@.dom().contains(k)]
                #![trigger self@[k]]
                self@.dom().contains(k) == before@.insert(name@, value).dom().contains(k) && (
                self@.dom().contains(k) ==> self@[k] == before@.insert(name@, value)[k]) by {
                if self@.dom().contains(k) {
                    let j = self.index(k);
                    assert(self.holds(j, k));
                    if j < n {
                        before.lemma_entry(j);
                    }
                }
                if before@.insert(name@, value).dom().contains(k) {
                    if k == name@ {
                        assert(self.holds(n, k));
                    } else {
                        let j = before.index(k);
                        assert(before.holds(j, k));
                        assert(self.holds(j, k));
                    }
                }
            }
            assert(self@ =~= before@.insert(name@, value));
            assert(self@ =~= start@.insert(name@, value));
        }
    }

    /// Takes every entry out.
    pub fn clear(&mut self)
        ensures
            final(self).wf(),
            final(self)@ == Map::<Seq<char>, V>::empty(),
    {
        self.entries.clear();
        assert(self@ =~= Map::<Seq<char>, V>::empty());
    }

    /// The names that have a value, each of them once.
    pub fn names(&self) -> (all: Vec<String>)
        requires
            self.wf(),
        ensures
            forall|i: int|
                0 <= i < all@.len() ==> self@.dom().contains(#[trigger] all@[i]@),
            forall|i: int, j: int|
                0 <= i < j < all@.len() ==> #[trigger] all@[i]@ != #[trigger] all@[j]@,
            forall|k: Seq<char>| #[trigger]
                self@.dom().contains(k) ==> exists|i: int|
                    0 <= i < all@.len() && #[trigger] all@[i]@ == k,
            self@.dom().finite(),
            all@.len() == self@.dom().len(),
    {
        let n: usize = self.entries.len();
        let mut all: Vec<String> = Vec::new();
        let mut i: usize = 0;
        while i < n
            invariant
                n == self.entries@.len(),
                i <= n,
                all@.len() == i,
                forall|j: int| 0 <= j < i ==> #[trigger] all@[j]@ == self.entries@[j].0@,
            decreases n - i,
        {
            all.push(copy_text(self.entries[i].0.as_str()));
            i = i + 1;
        }
        proof {
            assert forall|i: int| 0 <= i < all@.len() implies self@.dom().contains(
                #[trigger] all@[i]@,
            ) by {
                self.lemma_entry(i);
            }
            assert forall|k: Seq<char>| #[trigger] self@.dom().contains(k) implies exists|i: int|
                0 <= i < all@.len() && #[trigger] all@[i]@ == k by {
                let j = self.index(k);
                assert(self.holds(j, k));
                assert(all@[j]@ == k);
            }
            let views = all@.map_values(|s: String| s@);
            assert(views.no_duplicates());
            assert(views.to_set() =~= self@.dom()) by {
                assert forall|k: Seq<char>|
                    views.to_set().contains(k) == self@.dom().contains(k) by {
                    if self@.dom().contains(k) {
                        let j = choose|j: int| 0 <= j < all@.len() && #[trigger] all@[j]@ == k;
                        assert(views[j] == k);
                    }
                }
            }
            views.unique_seq_to_set();
            vstd::seq_lib::seq_to_set_is_finite(views);
        }
        all
    }
}

impl NameMap<String> {
    /// Some name whose value is a given text, if there is one.
    pub fn name_of(&self, value: &str) -> (name: Option<String>)
        requires
            self.wf(),
        ensures
            match name {
                Some(k) => self@.dom().contains(k@) && self@[k@]@ == value@,
                None => forall|k: Seq<char>| #[trigger]
                    self@.dom().contains(k) ==> self@[k]@ != value@,
            },
    {
        let n: usize = self.entries.len();
        let mut i: usize = 0;
        while i < n
            invariant
                self.wf(),
                n == self.entries@.len(),
                i <= n,
                forall|j: int| 0 <= j < i ==> #[trigger] self.entries@[j].1@ != value@,
            decreases n - i,
        {
            if same_text(self.entries[i].1.as_str(), value) {
                proof {
                    self.lemma_entry(i as int);
                }
                return Some(copy_text(self.entries[i].0.as_str()));
            }
            i = i + 1;
        }
        proof {
            assert forall|k: Seq<char>| #[trigger] self@.dom().contains(k) implies self@[k]@
                != value@ by {
                let j = self.index(k);
                assert(self.holds(j, k));
                assert(self.entries@[j].1@ != value@);
            }
        }
        None
    }
}

}
