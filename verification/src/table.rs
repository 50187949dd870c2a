//! A small map from names to strings, kept as a list of entries whose
//! names are pairwise distinct. Variables and completions are both held in one.
use vstd::prelude::*;

use crate::text::str_eq;

verus! {

pub struct StrMap {
    entries: Vec<(String, String)>,
}

impl StrMap {
    pub closed spec fn key(&self, i: int) -> Seq<char> {
        self.entries@[i].0@
    }

    pub closed spec fn val(&self, i: int) -> Seq<char> {
        self.entries@[i].1@
    }

    pub closed spec fn len(&self) -> nat {
        self.entries@.len()
    }

    pub closed spec fn has_key(&self, k: Seq<char>) -> bool {
        exists|i: int| 0 <= i < self.len() && #[trigger] self.key(i) == k
    }

    /// Names are stored at most once.
    #[verifier::type_invariant]
    closed spec fn distinct_keys(&self) -> bool {
        forall|i: int, j: int|
            0 <= i < self.len() && 0 <= j < self.len() && i != j ==> #[trigger] self.key(i)
                != #[trigger] self.key(j)
    }

    /// The map from each stored name to its string.
    pub closed spec fn map(&self) -> Map<Seq<char>, Seq<char>> {
        Map::new(
            |k: Seq<char>| self.has_key(k),
            |k: Seq<char>| self.val(choose|i: int| 0 <= i < self.len() && #[trigger] self.key(i) == k),
        )
    }

    proof fn lemma_entry(&self, i: int)
        requires
            self.distinct_keys(),
            0 <= i < self.len(),
        ensures
            self.map().dom().contains(self.key(i)),
            self.map()[self.key(i)] == self.val(i),
    {
        assert(self.has_key(self.key(i)));
        let j = choose|j: int| 0 <= j < self.len() && #[trigger] self.key(j) == self.key(i);
        assert(j == i);
    }

    proof fn lemma_absent(&self, k: Seq<char>)
        requires
            forall|i: int| 0 <= i < self.len() ==> self.key(i) != k,
        ensures
            !self.map().dom().contains(k),
    {
    }

    pub fn new() -> (m: Self)
        ensures
            m.map() == Map::<Seq<char>, Seq<char>>::empty(),
    {
        let m = StrMap { entries: Vec::new() };
        assert(m.map() =~= Map::<Seq<char>, Seq<char>>::empty());
        m
    }

    /// The index of the entry named `name`, if there is one.
    fn find(&self, name: &str) -> (r: Option<usize>)
        ensures
            match r {
                Some(i) => i < self.len() && self.key(i as int) == name@,
                None => forall|i: int| 0 <= i < self.len() ==> self.key(i) != name@,
            },
    {
        let mut i: usize = 0;
        while i < self.entries.len()
            invariant
                i <= self.entries.len(),
                forall|j: int| 0 <= j < i ==> self.key(j) != name@,
            decreases self.entries.len() - i,
        {
            if str_eq(self.entries[i].0.as_str(), name) {
                return Some(i);
            }
            i = i + 1;
        }
        None
    }

    pub fn get(&self, name: &str) -> (r: Option<String>)
        ensures
            match r {
                Some(v) => self.map().dom().contains(name@) && v@ == self.map()[name@],
                None => !self.map().dom().contains(name@),
            },
    {
        proof {
            use_type_invariant(self);
        }
        match self.find(name) {
            Some(i) => {
                proof {
                    self.lemma_entry(i as int);
                }
                Some(self.entries[i].1.clone())
            },
            None => None,
        }
    }

    pub fn insert(&mut self, name: String, value: String)
        ensures
            final(self).map() == old(self).map().insert(name@, value@),
    {
        proof {
            use_type_invariant(&*self);
        }
        let ghost old_self = *self;
        let ghost k = name@;
        let ghost v = value@;
        match self.find(name.as_str()) {
            Some(i) => {
                let mut entries: Vec<(String, String)> = Vec::new();
                std::mem::swap(&mut entries, &mut self.entries);
                entries.set(i, (name, value));
                assert forall|a: int, b: int|
                    0 <= a < entries@.len() && 0 <= b < entries@.len() && a != b implies #[trigger] entries@[a].0@
                        != #[trigger] entries@[b].0@ by {
                    assert(a != i ==> entries@[a].0@ == old_self.key(a));
                    assert(b != i ==> entries@[b].0@ == old_self.key(b));
                }
                self.entries = entries;
                proof {
                    assert forall|a: int| 0 <= a < self.len() && a != i implies self.key(a)
                        == old_self.key(a) && self.val(a) == old_self.val(a) by {}
                    assert(self.key(i as int) == k);
                    assert forall|q: Seq<char>| #[trigger]
                        self.map().dom().contains(q) == old_self.map().insert(k, v).dom().contains(q) by {
                        if q != k && self.has_key(q) {
                            let a = choose|a: int| 0 <= a < self.len() && #[trigger] self.key(a) == q;
                            assert(old_self.key(a) == q);
                        }
                        if q != k && old_self.has_key(q) {
                            let a = choose|a: int| 0 <= a < old_self.len() && #[trigger] old_self.key(a) == q;
                            assert(self.key(a) == q);
                        }
                    }
                    assert forall|q: Seq<char>| #[trigger] self.map().dom().contains(q) implies
                        self.map()[q] == old_self.map().insert(k, v)[q] by {
                        let a = choose|a: int| 0 <= a < self.len() && #[trigger] self.key(a) == q;
                        self.lemma_entry(a);
                        if a != i {
                            old_self.lemma_entry(a);
                        }
                    }
                    assert(self.map() =~= old_self.map().insert(k, v));
                }
            },
            None => {
                let mut entries: Vec<(String, String)> = Vec::new();
                std::mem::swap(&mut entries, &mut self.entries);
                entries.push((name, value));
                assert forall|a: int, b: int|
                    0 <= a < entries@.len() && 0 <= b < entries@.len() && a != b implies #[trigger] entries@[a].0@
                        != #[trigger] entries@[b].0@ by {
                    let n = old_self.len() as int;
                    assert(a != n ==> entries@[a].0@ == old_self.key(a));
                    assert(b != n ==> entries@[b].0@ == old_self.key(b));
                }
                self.entries = entries;
                proof {
                    let n = old_self.len() as int;
                    assert forall|a: int| 0 <= a < n implies self.key(a) == old_self.key(a)
                        && self.val(a) == old_self.val(a) by {}
                    assert(self.key(n) == k);
                    assert forall|q: Seq<char>| #[trigger]
                        self.map().dom().contains(q) == old_self.map().insert(k, v).dom().contains(q) by {
                        if q != k && self.has_key(q) {
                            let a = choose|a: int| 0 <= a < self.len() && #[trigger] self.key(a) == q;
                            assert(old_self.key(a) == q);
                        }
                        if q != k && old_self.has_key(q) {
                            let a = choose|a: int| 0 <= a < old_self.len() && #[trigger] old_self.key(a) == q;
                            assert(self.key(a) == q);
                        }
                    }
                    assert forall|q: Seq<char>| #[trigger] self.map().dom().contains(q) implies
                        self.map()[q] == old_self.map().insert(k, v)[q] by {
                        let a = choose|a: int| 0 <= a < self.len() && #[trigger] self.key(a) == q;
                        self.lemma_entry(a);
                        if a != n {
                            old_self.lemma_entry(a);
                        }
                    }
                    assert(self.map() =~= old_self.map().insert(k, v));
                }
            },
        }
    }

    pub fn remove(&mut self, name: &str)
        ensures
            final(self).map() == old(self).map().remove(name@),
    {
        proof {
            use_type_invariant(&*self);
        }
        let ghost old_self = *self;
        let ghost k = name@;
        match self.find(name) {
            Some(i) => {
                let mut entries: Vec<(String, String)> = Vec::new();
                std::mem::swap(&mut entries, &mut self.entries);
                let _ = entries.remove(i);
                assert forall|a: int, b: int|
                    0 <= a < entries@.len() && 0 <= b < entries@.len() && a != b implies #[trigger] entries@[a].0@
                        != #[trigger] entries@[b].0@ by {
                    let oa = if a < i { a } else { a + 1 };
                    let ob = if b < i { b } else { b + 1 };
                    assert(entries@[a].0@ == old_self.key(oa));
                    assert(entries@[b].0@ == old_self.key(ob));
                }
                self.entries = entries;
                proof {
                    assert forall|a: int| 0 <= a < self.len() implies (a < i ==> self.key(a)
                        == old_self.key(a) && self.val(a) == old_self.val(a)) && (a >= i
                        ==> self.key(a) == old_self.key(a + 1) && self.val(a) == old_self.val(
                        a + 1,
                    )) by {}
                    assert forall|q: Seq<char>| #[trigger]
                        self.map().dom().contains(q) == old_self.map().remove(k).dom().contains(q) by {
                        if self.has_key(q) {
                            let a = choose|a: int| 0 <= a < self.len() && #[trigger] self.key(a) == q;
                            if a < i {
                                assert(old_self.key(a) == q);
                            } else {
                                assert(old_self.key(a + 1) == q);
                            }
                        }
                        if q != k && old_self.has_key(q) {
                            let a = choose|a: int| 0 <= a < old_self.len() && #[trigger] old_self.key(a) == q;
                            if a < i {
                                assert(self.key(a) == q);
                            } else {
                                assert(a != i);
                                assert(self.key(a - 1) == q);
                            }
                        }
                    }
                    assert forall|q: Seq<char>| #[trigger] self.map().dom().contains(q) implies
                        self.map()[q] == old_self.map().remove(k)[q] by {
                        let a = choose|a: int| 0 <= a < self.len() && #[trigger] self.key(a) == q;
                        self.lemma_entry(a);
                        if a < i {
                            old_self.lemma_entry(a);
                        } else {
                            old_self.lemma_entry(a + 1);
                        }
                    }
                    assert(self.map() =~= old_self.map().remove(k));
                }
            },
            None => {
                proof {
                    old_self.lemma_absent(k);
                    assert(self.map() =~= old_self.map().remove(k));
                }
            },
        }
    }
}

} // verus!
