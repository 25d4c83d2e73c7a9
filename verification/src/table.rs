//! Tables: values by name, in the order of the names.
use vstd::prelude::*;

use crate::order::rank;
use crate::order::strictly_sorted;
use crate::order::with_key;
use crate::text::less;
use crate::text::same;

verus! {

/// Values by name.
pub struct Table<V> {
    entries: Vec<(String, V)>,
}

impl<V> View for Table<V> {
    type V = Map<Seq<char>, V>;

    closed spec fn view(&self) -> Map<Seq<char>, V> {
        Map::new(
            |k: Seq<char>| self.keys().contains(k),
            |k: Seq<char>| self.entries@[rank(self.keys(), k) as int].1,
        )
    }
}

impl<V> Table<V> {
    /// The names, in order.
    pub closed spec fn keys(&self) -> Seq<Seq<char>> {
        Seq::new(self.entries@.len(), |i: int| self.entries@[i].0@)
    }

    /// The values, in the order of their names.
    pub open spec fn values(&self) -> Seq<V> {
        Seq::new(self.keys().len(), |i: int| self@[self.keys()[i]])
    }

    /// The names are in order, each once, and name all values.
    pub closed spec fn wf(&self) -> bool {
        strictly_sorted(self.keys())
    }

    /// In a well formed table every name has its value.
    pub proof fn lemma_table(&self)
        requires
            self.wf(),
        ensures
            strictly_sorted(self.keys()),
            forall|k: Seq<char>| #[trigger] self@.contains_key(k) <==> self.keys().contains(k),
    {
    }

    proof fn lemma_entry(&self, i: int)
        requires
            self.wf(),
            0 <= i < self.entries@.len(),
        ensures
            self@.contains_key(self.entries@[i].0@),
            self@[self.entries@[i].0@] == self.entries@[i].1,
            self.values()[i] == self.entries@[i].1,
    {
        let ks = self.keys();
        let k = ks[i];
        assert(ks.contains(k));
        crate::order::lemma_rank(ks, k);
        let j = rank(ks, k) as int;
        <Seq<char> as crate::order::KeyOrder>::irreflexive(k);
        if j < i {
            assert(crate::order::text_lt(ks[j], ks[i]));
        } else if i < j {
            assert(crate::order::text_lt(ks[i], ks[j]));
        }
    }

    /// A table without values.
    pub fn new() -> (r: Table<V>)
        ensures
            r.wf(),
            r@ == Map::<Seq<char>, V>::empty(),
            r.keys().len() == 0,
    {
        let r = Table { entries: Vec::new() };
        assert(r@ =~= Map::<Seq<char>, V>::empty());
        r
    }

    fn rank_of(&self, k: &str) -> (r: usize)
        requires
            self.wf(),
        ensures
            r == rank(self.keys(), k@),
            r <= self.entries@.len(),
    {
        let ghost all = self.keys();
        let mut n: usize = self.entries.len();
        assert(all.take(n as int) =~= all);
        while n > 0 && !less(self.entries[n - 1].0.as_str(), k)
            invariant
                n <= self.entries@.len(),
                all == self.keys(),
                rank(all, k@) == rank(all.take(n as int), k@),
            decreases n,
        {
            proof {
                crate::order::lemma_take_step(all, n - 1);
            }
            n = n - 1;
        }
        proof {
            if n > 0 {
                assert(all.take(n as int).last() == all[n - 1]);
            }
        }
        n
    }

    fn find(&self, k: &str) -> (r: Option<usize>)
        requires
            self.wf(),
        ensures
            match r {
                Some(i) => i < self.entries@.len() && self.entries@[i as int].0@ == k@
                    && self@.contains_key(k@) && self@[k@] == self.entries@[i as int].1,
                None => !self@.contains_key(k@),
            },
    {
        let n: usize = self.rank_of(k);
        proof {
            crate::order::lemma_rank(self.keys(), k@);
        }
        if n < self.entries.len() && same(self.entries[n].0.as_str(), k) {
            proof {
                self.lemma_entry(n as int);
            }
            Some(n)
        } else {
            None
        }
    }

    /// The number of values.
    pub fn len(&self) -> (r: usize)
        ensures
            r == self.keys().len(),
    {
        self.entries.len()
    }

    /// Whether there is a value with that name.
    pub fn contains_key(&self, k: &str) -> (r: bool)
        requires
            self.wf(),
        ensures
            r == self@.contains_key(k@),
    {
        self.find(k).is_some()
    }

    /// The value with that name.
    pub fn get(&self, k: &str) -> (r: Option<&V>)
        requires
            self.wf(),
        ensures
            match r {
                Some(v) => self@.contains_key(k@) && self@[k@] == *v,
                None => !self@.contains_key(k@),
            },
    {
        match self.find(k) {
            Some(i) => Some(&self.entries[i].1),
            None => None,
        }
    }

    /// The name at a position.
    pub fn key_at(&self, i: usize) -> (r: &String)
        requires
            i < self.keys().len(),
        ensures
            r@ == self.keys()[i as int],
    {
        &self.entries[i].0
    }

    /// The value at a position.
    pub fn value_at(&self, i: usize) -> (r: &V)
        requires
            self.wf(),
            i < self.keys().len(),
        ensures
            *r == self.values()[i as int],
    {
        proof {
            self.lemma_entry(i as int);
        }
        &self.entries[i].1
    }

    /// Puts a value under a name, in place of the one that was there.
    pub fn insert(&mut self, k: String, v: V)
        requires
            old(self).wf(),
        ensures
            final(self).wf(),
            final(self)@ == old(self)@.insert(k@, v),
            final(self).keys() == with_key(old(self).keys(), k@),
    {
        let ghost was = *self;
        let ghost ks = self.keys();
        let at: usize = self.rank_of(k.as_str());
        proof {
            crate::order::lemma_rank(ks, k@);
            crate::order::lemma_with_key(ks, k@);
        }
        if at < self.entries.len() && same(self.entries[at].0.as_str(), k.as_str()) {
            let gone = self.entries.remove(at);
            self.entries.insert(at, (k, v));
            proof {
                assert(ks[at as int] == k@);
                assert(self.keys() =~= ks);
            }
        } else {
            self.entries.insert(at, (k, v));
            assert(self.keys() =~= ks.insert(at as int, k@));
        }
        proof {
            let now = *self;
            let put = was@.insert(k@, v);
            assert(strictly_sorted(now.keys()));
            now.lemma_entry(at as int);
            assert forall|x: Seq<char>| #[trigger] now@.contains_key(x) implies now@[x]
                == put[x] by {
                let j = choose|j: int| 0 <= j < now.keys().len() && now.keys()[j] == x;
                now.lemma_entry(j);
                if x != k@ {
                    assert(j != at);
                    assert(ks.contains(x));
                    let i = choose|i: int| 0 <= i < ks.len() && ks[i] == x;
                    was.lemma_entry(i);
                    if now.keys().len() == ks.len() {
                        lemma_same_place(ks, i, j);
                    } else {
                        let m = if i < at {
                            i
                        } else {
                            i + 1
                        };
                        assert(now.keys()[m] == x);
                        lemma_same_place(now.keys(), m, j);
                    }
                } else {
                    lemma_same_place(now.keys(), at as int, j);
                }
            }
            assert(now@ =~= put);
        }
    }

    /// Takes out the value with a name; says whether there was one.
    pub fn remove(&mut self, k: &str) -> (r: bool)
        requires
            old(self).wf(),
        ensures
            final(self).wf(),
            r == old(self)@.contains_key(k@),
            final(self)@ == old(self)@.remove(k@),
    {
        let ghost was = *self;
        let ghost ks = self.keys();
        match self.find(k) {
            Some(at) => {
                let gone = self.entries.remove(at);
                proof {
                    let now = *self;
                    assert(now.keys() =~= ks.remove(at as int));
                    assert(ks[at as int] == k@);
                    assert forall|i: int, j: int|
                        0 <= i < j < now.keys().len() implies crate::order::KeyOrder::precedes(
                        #[trigger] now.keys()[i],
                        #[trigger] now.keys()[j],
                    ) by {
                        let i0 = if i < at {
                            i
                        } else {
                            i + 1
                        };
                        let j0 = if j < at {
                            j
                        } else {
                            j + 1
                        };
                        assert(crate::order::KeyOrder::precedes(ks[i0], ks[j0]));
                    }
                    assert(now.wf());
                    assert forall|x: Seq<char>| #[trigger] now@.contains_key(x) implies was@.remove(
                        k@,
                    ).contains_key(x) && now@[x] == was@[x] by {
                        let j = choose|j: int| 0 <= j < now.keys().len() && now.keys()[j] == x;
                        now.lemma_entry(j);
                        let i = if j < at {
                            j
                        } else {
                            j + 1
                        };
                        was.lemma_entry(i);
                        assert(ks[i] == x);
                        if x == k@ {
                            lemma_same_place(ks, i, at as int);
                        }
                    }
                    assert forall|x: Seq<char>| was@.remove(k@).contains_key(
                        x,
                    ) implies #[trigger] now@.contains_key(x) by {
                        let i = choose|i: int| 0 <= i < ks.len() && ks[i] == x;
                        let j = if i < at {
                            i
                        } else {
                            i - 1
                        };
                        assert(now.keys()[j] == x);
                    }
                    assert(now@ =~= was@.remove(k@));
                }
                true
            },
            None => {
                assert(self@ =~= was@.remove(k@));
                false
            },
        }
    }
}

proof fn lemma_same_place(s: Seq<Seq<char>>, i: int, j: int)
    requires
        strictly_sorted(s),
        0 <= i < s.len(),
        0 <= j < s.len(),
        s[i] == s[j],
    ensures
        i == j,
{
    <Seq<char> as crate::order::KeyOrder>::irreflexive(s[i]);
    if i < j {
        assert(crate::order::KeyOrder::precedes(s[i], s[j]));
    } else if j < i {
        assert(crate::order::KeyOrder::precedes(s[j], s[i]));
    }
}

} // verus!
