//! A map from names to values.
use vstd::prelude::*;

verus! {

/// Values by name. Its view is the map.
#[derive(Debug)]
pub struct NameMap<V> {
    entries: Vec<(String, V)>,
}

impl<V> View for NameMap<V> {
    type V = Map<Seq<char>, V>;

    closed spec fn view(&self) -> Map<Seq<char>, V> {
        Map::new(|name: Seq<char>| self.has(name), |name: Seq<char>| self.entries@[self.at(name)].1)
    }
}

impl<V> NameMap<V> {
    spec fn holds_at(self, name: Seq<char>, i: int) -> bool {
        0 <= i < self.entries@.len() && self.entries@[i].0@ == name
    }

    spec fn has(self, name: Seq<char>) -> bool {
        exists|i: int| self.holds_at(name, i)
    }

    spec fn at(self, name: Seq<char>) -> int {
        choose|i: int| self.holds_at(name, i)
    }

    /// No name occurs twice.
    pub closed spec fn wf(self) -> bool {
        forall|i: int, j: int|
            0 <= i < j < self.entries@.len() ==> (#[trigger] self.entries@[i]).0@ != (
            #[trigger] self.entries@[j]).0@
    }

    proof fn lemma_entry(self, i: int)
        requires
            self.wf(),
            0 <= i < self.entries@.len(),
        ensures
            self@.contains_key(self.entries@[i].0@),
            self@[self.entries@[i].0@] == self.entries@[i].1,
    {
        let name = self.entries@[i].0@;
        assert(self.holds_at(name, i));
        assert(self.holds_at(name, self.at(name)));
    }

    /// The names, in the order in which they came.
    pub closed spec fn names(self) -> Seq<Seq<char>> {
        Seq::new(self.entries@.len(), |i: int| self.entries@[i].0@)
    }

    /// The names are exactly the keys, and none occurs twice.
    pub proof fn lemma_names(self)
        requires
            self.wf(),
        ensures
            self.names().no_duplicates(),
            forall|i: int|
                0 <= i < self.names().len() ==> self@.contains_key(#[trigger] self.names()[i]),
            forall|name: Seq<char>|
                #[trigger] self@.contains_key(name) ==> self.names().contains(name),
    {
        assert forall|i: int| 0 <= i < self.names().len() implies self@.contains_key(
            #[trigger] self.names()[i],
        ) by {
            self.lemma_entry(i);
        }
        assert forall|name: Seq<char>| #[trigger] self@.contains_key(name) implies self.names().contains(
            name,
        ) by {
            let i = self.at(name);
            assert(self.holds_at(name, i));
            assert(self.names()[i] == name);
        }
        assert forall|i: int, j: int|
            0 <= i < self.names().len() && 0 <= j < self.names().len() && i != j implies self.names()[i]
            != self.names()[j] by {
            if i < j {
                assert(self.entries@[i].0@ != self.entries@[j].0@);
            } else {
                assert(self.entries@[j].0@ != self.entries@[i].0@);
            }
        }
    }

    pub fn new() -> (m: Self)
        ensures
            m.wf(),
            m@ == Map::<Seq<char>, V>::empty(),
            m.names() == Seq::<Seq<char>>::empty(),
    {
        let m = NameMap { entries: Vec::new() };
        proof {
            assert(m@ =~= Map::<Seq<char>, V>::empty());
            assert(m.names() =~= Seq::<Seq<char>>::empty());
        }
        m
    }

    pub fn len(&self) -> (n: usize)
        ensures
            n == self.names().len(),
    {
        self.entries.len()
    }

    /// The `i`-th name.
    pub fn name(&self, i: usize) -> (name: &String)
        requires
            i < self.names().len(),
        ensures
            name@ == self.names()[i as int],
    {
        &self.entries[i].0
    }

    fn find(&self, name: &String) -> (r: Option<usize>)
        requires
            self.wf(),
        ensures
            match r {
                Some(i) => i < self.entries@.len() && self.entries@[i as int].0@ == name@
                    && self@.contains_key(name@) && self@[name@] == self.entries@[i as int].1,
                None => !self@.contains_key(name@) && (forall|i: int|
                    0 <= i < self.entries@.len() ==> (#[trigger] self.entries@[i]).0@ != name@),
            },
    {
        let mut i: usize = 0;
        while i < self.entries.len()
            invariant
                self.wf(),
                i <= self.entries@.len(),
                forall|k: int| 0 <= k < i ==> (#[trigger] self.entries@[k]).0@ != name@,
            decreases self.entries@.len() - i,
        {
            if self.entries[i].0 == *name {
                proof {
                    self.lemma_entry(i as int);
                }
                return Some(i);
            }
            i = i + 1;
        }
        None
    }

    pub fn contains(&self, name: &String) -> (r: bool)
        requires
            self.wf(),
        ensures
            r == self@.contains_key(name@),
    {
        self.find(name).is_some()
    }

    pub fn get(&self, name: &String) -> (r: Option<&V>)
        requires
            self.wf(),
        ensures
            r is Some <==> self@.contains_key(name@),
            r matches Some(v) ==> *v == self@[name@],
    {
        match self.find(name) {
            Some(i) => Some(&self.entries[i].1),
            None => None,
        }
    }

    /// Takes the value of a name out of the map.
    pub fn remove(&mut self, name: &String) -> (r: Option<V>)
        requires
            old(self).wf(),
        ensures
            final(self).wf(),
            r is Some <==> old(self)@.contains_key(name@),
            r matches Some(v) ==> v == old(self)@[name@],
            final(self)@ == old(self)@.remove(name@),
    {
        let ghost before = *self;
        match self.find(name) {
            Some(i) => {
                let (_, value) = self.entries.remove(i);
                proof {
                    let k = i as int;
                    assert forall|a: int, b: int| 0 <= a < b < self.entries@.len() implies (
                    #[trigger] self.entries@[a]).0@ != (#[trigger] self.entries@[b]).0@ by {
                        let a0 = if a < k { a } else { a + 1 };
                        let b0 = if b < k { b } else { b + 1 };
                        assert(before.entries@[a0].0@ != before.entries@[b0].0@);
                    }
                    assert forall|n: Seq<char>| self@.contains_key(n) <==> before@.remove(
                        name@,
                    ).contains_key(n) by {
                        if self@.contains_key(n) {
                            let a = self.at(n);
                            assert(self.holds_at(n, a));
                            let a0 = if a < k { a } else { a + 1 };
                            before.lemma_entry(a0);
                            if a0 < k {
                                assert(before.entries@[a0].0@ != before.entries@[k].0@);
                            } else {
                                assert(before.entries@[k].0@ != before.entries@[a0].0@);
                            }
                        }
                        if before@.remove(name@).contains_key(n) {
                            let a0 = before.at(n);
                            assert(before.holds_at(n, a0));
                            let a = if a0 < k { a0 } else { a0 - 1 };
                            assert(a0 != k);
                            self.lemma_entry(a);
                        }
                    }
                    assert forall|n: Seq<char>| self@.contains_key(n) implies self@[n]
                        == before@.remove(name@)[n] by {
                        let a = self.at(n);
                        assert(self.holds_at(n, a));
                        let a0 = if a < k { a } else { a + 1 };
                        before.lemma_entry(a0);
                    }
                    assert(self@ =~= before@.remove(name@));
                }
                Some(value)
            },
            None => {
                proof {
                    assert(before@.remove(name@) =~= before@);
                }
                None
            },
        }
    }

    /// Puts a value under a name, in place of the one that it had.
    pub fn insert(&mut self, name: String, value: V)
        requires
            old(self).wf(),
        ensures
            final(self).wf(),
            final(self)@ == old(self)@.insert(name@, value),
    {
        let _ = self.remove(&name);
        let ghost before = *self;
        let ghost key = name@;
        proof {
            before.lemma_names();
            assert forall|i: int| 0 <= i < before.entries@.len() implies (
            #[trigger] before.entries@[i]).0@ != key by {
                before.lemma_entry(i);
            }
        }
        self.entries.push((name, value));
        proof {
            let n = before.entries@.len() as int;
            assert(self.wf());
            self.lemma_entry(n);
            assert forall|k: Seq<char>| self@.contains_key(k) <==> before@.insert(
                key,
                value,
            ).contains_key(k) by {
                if self@.contains_key(k) {
                    let a = self.at(k);
                    assert(self.holds_at(k, a));
                    if a < n {
                        before.lemma_entry(a);
                    }
                }
                if before@.contains_key(k) {
                    let a = before.at(k);
                    assert(before.holds_at(k, a));
                    self.lemma_entry(a);
                }
            }
            assert forall|k: Seq<char>| self@.contains_key(k) implies self@[k] == before@.insert(
                key,
                value,
            )[k] by {
                let a = self.at(k);
                assert(self.holds_at(k, a));
                if a < n {
                    before.lemma_entry(a);
                }
            }
            assert(self@ =~= before@.insert(key, value));
            assert(before@.insert(key, value) =~= old(self)@.insert(key, value));
        }
    }

    /// Puts a value under a name that has one, and leaves the order of the names
    /// as it is.
    pub fn set(&mut self, name: &String, value: V)
        requires
            old(self).wf(),
            old(self)@.contains_key(name@),
        ensures
            final(self).wf(),
            final(self)@ == old(self)@.insert(name@, value),
            final(self).names() == old(self).names(),
    {
        let ghost before = *self;
        if let Some(i) = self.find(name) {
            self.entries[i].1 = value;
            proof {
                let k = i as int;
                assert forall|a: int| 0 <= a < self.entries@.len() implies (
                #[trigger] self.entries@[a]).0 == before.entries@[a].0 by {}
                assert(self.names() =~= before.names());
                assert forall|a: int, b: int| 0 <= a < b < self.entries@.len() implies (
                #[trigger] self.entries@[a]).0@ != (#[trigger] self.entries@[b]).0@ by {
                    assert(before.entries@[a].0@ != before.entries@[b].0@);
                }
                assert forall|n: Seq<char>| self@.contains_key(n) <==> before@.insert(
                    name@,
                    value,
                ).contains_key(n) by {
                    if self@.contains_key(n) {
                        let a = self.at(n);
                        assert(self.holds_at(n, a));
                        before.lemma_entry(a);
                    }
                    if before@.contains_key(n) {
                        let a = before.at(n);
                        assert(before.holds_at(n, a));
                        self.lemma_entry(a);
                    }
                }
                assert forall|n: Seq<char>| self@.contains_key(n) implies self@[n]
                    == before@.insert(name@, value)[n] by {
                    let a = self.at(n);
                    assert(self.holds_at(n, a));
                    before.lemma_entry(a);
                    if a < k {
                        assert(before.entries@[a].0@ != before.entries@[k].0@);
                    } else if a > k {
                        assert(before.entries@[k].0@ != before.entries@[a].0@);
                    }
                }
                assert(self@ =~= before@.insert(name@, value));
            }
        }
    }
}

} // verus!
