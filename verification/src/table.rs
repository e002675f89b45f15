//! A small map from text keys to values that remembers insertion order.
use vstd::prelude::*;

verus! {

/// No key occurs twice.
pub open spec fn unique_keys<V>(s: Seq<(String, V)>) -> bool {
    forall|i: int, j: int| 0 <= i < j < s.len() ==> s[i].0@ != s[j].0@
}

/// The position of `k` among the entries, if it is there.
pub open spec fn spec_index_of<V>(s: Seq<(String, V)>, k: Seq<char>) -> Option<int> {
    if exists|i: int| 0 <= i < s.len() && s[i].0@ == k {
        Some(choose|i: int| 0 <= i < s.len() && s[i].0@ == k)
    } else {
        None
    }
}

/// The value stored under `k`, if any.
pub open spec fn spec_lookup<V>(s: Seq<(String, V)>, k: Seq<char>) -> Option<V> {
    match spec_index_of(s, k) {
        Some(i) => Some(s[i].1),
        None => None,
    }
}

/// With unique keys, the position of a key is the one index holding it.
pub proof fn lemma_index_of_unique<V>(s: Seq<(String, V)>, i: int)
    requires
        unique_keys(s),
        0 <= i < s.len(),
    ensures
        spec_index_of(s, s[i].0@) == Some(i),
        spec_lookup(s, s[i].0@) == Some(s[i].1),
{
    let k = s[i].0@;
    assert(exists|j: int| 0 <= j < s.len() && s[j].0@ == k);
    let j = choose|j: int| 0 <= j < s.len() && s[j].0@ == k;
    if j < i {
        assert(s[j].0@ != s[i].0@);
    } else if i < j {
        assert(s[i].0@ != s[j].0@);
    }
}

/// Removing the entry at `i` forgets its key and keeps every other lookup.
pub proof fn lemma_lookup_remove<V>(s: Seq<(String, V)>, i: int)
    requires
        unique_keys(s),
        0 <= i < s.len(),
    ensures
        unique_keys(s.remove(i)),
        spec_lookup(s.remove(i), s[i].0@) is None,
        forall|q: Seq<char>| q != s[i].0@ ==> spec_lookup(s.remove(i), q) == spec_lookup(s, q),
{
    let r = s.remove(i);
    assert forall|a: int, b: int| 0 <= a < b < r.len() implies r[a].0@ != r[b].0@ by {
        let a0 = if a < i { a } else { a + 1 };
        let b0 = if b < i { b } else { b + 1 };
        assert(r[a] == s[a0]);
        assert(r[b] == s[b0]);
    }
    assert forall|j: int| 0 <= j < r.len() implies r[j].0@ != s[i].0@ by {
        let j0 = if j < i { j } else { j + 1 };
        assert(r[j] == s[j0]);
    }
    assert forall|q: Seq<char>| q != s[i].0@ implies spec_lookup(r, q) == spec_lookup(s, q) by {
        if exists|j: int| 0 <= j < s.len() && s[j].0@ == q {
            let j = choose|j: int| 0 <= j < s.len() && s[j].0@ == q;
            lemma_index_of_unique(s, j);
            let j1 = if j < i { j } else { j - 1 };
            assert(r[j1] == s[j]);
            lemma_index_of_unique(r, j1);
        } else {
            assert forall|j: int| 0 <= j < r.len() implies r[j].0@ != q by {
                let j0 = if j < i { j } else { j + 1 };
                assert(r[j] == s[j0]);
            }
        }
    }
}

/// Entries keyed by text, in the order they were first inserted.
pub struct Table<V> {
    entries: Vec<(String, V)>,
}

impl<V> Table<V> {
    /// No key is stored twice.
    pub open spec fn wf(self) -> bool {
        unique_keys(self.view())
    }

    pub closed spec fn view(self) -> Seq<(String, V)> {
        self.entries@
    }

    pub fn new() -> (t: Self)
        ensures
            t.view() == Seq::<(String, V)>::empty(),
            t.wf(),
    {
        Table { entries: Vec::new() }
    }

    pub fn len(&self) -> (n: usize)
        ensures
            n == self.view().len(),
    {
        self.entries.len()
    }

    pub fn entry(&self, i: usize) -> (e: &(String, V))
        requires
            i < self.view().len(),
        ensures
            *e == self.view()[i as int],
    {
        &self.entries[i]
    }

    /// Where `k` is stored.
    pub fn index_of(&self, k: &String) -> (r: Option<usize>)
        requires
            self.wf(),
        ensures
            r matches Some(i) ==> i < self.view().len() && self.view()[i as int].0@ == k@,
            r is None ==> forall|i: int| 0 <= i < self.view().len() ==> self.view()[i].0@ != k@,
            r matches Some(i) ==> spec_index_of(self.view(), k@) == Some(i as int),
            r is None ==> spec_index_of(self.view(), k@) is None,
    {
        let mut i: usize = 0;
        while i < self.entries.len()
            invariant
                i <= self.entries@.len(),
                unique_keys(self.entries@),
                forall|j: int| 0 <= j < i ==> self.entries@[j].0@ != k@,
            decreases self.entries@.len() - i,
        {
            if self.entries[i].0 == *k {
                proof {
                    lemma_index_of_unique(self.entries@, i as int);
                }
                return Some(i);
            }
            i = i + 1;
        }
        None
    }

    /// Stores `v` under `k`: an existing entry keeps its place and gets the
    /// new value; a new key goes to the end.
    pub fn insert(&mut self, k: String, v: V)
        requires
            old(self).wf(),
        ensures
            final(self).wf(),
            spec_lookup(final(self).view(), k@) == Some(v),
            forall|q: Seq<char>|
                q != k@ ==> spec_lookup(final(self).view(), q) == spec_lookup(old(self).view(), q),
            spec_index_of(old(self).view(), k@) is Some ==> final(self).view().len() == old(
                self,
            ).view().len(),
            spec_index_of(old(self).view(), k@) is None ==> final(self).view() == old(
                self,
            ).view().push((k, v)),
            spec_index_of(old(self).view(), k@) matches Some(i) ==> final(self).view() == old(
                self,
            ).view().update(i, (k, v)),
    {
        let ghost s0 = self.entries@;
        match self.index_of(&k) {
            Some(i) => {
                self.entries.set(i, (k, v));
                proof {
                    let s1 = self.entries@;
                    assert(unique_keys(s1));
                    lemma_index_of_unique(s1, i as int);
                    assert forall|q: Seq<char>| q != k@ implies spec_lookup(s1, q) == spec_lookup(
                        s0,
                        q,
                    ) by {
                        if exists|j: int| 0 <= j < s0.len() && s0[j].0@ == q {
                            let j = choose|j: int| 0 <= j < s0.len() && s0[j].0@ == q;
                            lemma_index_of_unique(s0, j);
                            lemma_index_of_unique(s1, j);
                        } else {
                            assert(!exists|j: int| 0 <= j < s1.len() && s1[j].0@ == q);
                        }
                    }
                }
            },
            None => {
                self.entries.push((k, v));
                proof {
                    let s1 = self.entries@;
                    assert(unique_keys(s1));
                    lemma_index_of_unique(s1, s0.len() as int);
                    assert forall|q: Seq<char>| q != k@ implies spec_lookup(s1, q) == spec_lookup(
                        s0,
                        q,
                    ) by {
                        if exists|j: int| 0 <= j < s0.len() && s0[j].0@ == q {
                            let j = choose|j: int| 0 <= j < s0.len() && s0[j].0@ == q;
                            lemma_index_of_unique(s0, j);
                            lemma_index_of_unique(s1, j);
                        } else {
                            assert(!exists|j: int| 0 <= j < s1.len() && s1[j].0@ == q);
                        }
                    }
                }
            },
        }
    }

    /// Takes out the entry at position `i`; the others keep their order.
    pub fn remove_at(&mut self, i: usize) -> (e: (String, V))
        requires
            old(self).wf(),
            i < old(self).view().len(),
        ensures
            final(self).wf(),
            e == old(self).view()[i as int],
            final(self).view() == old(self).view().remove(i as int),
    {
        let e = self.entries.remove(i);
        proof {
            let s1 = self.entries@;
            assert forall|a: int, b: int| 0 <= a < b < s1.len() implies s1[a].0@ != s1[b].0@ by {
                let a0 = if a < i { a } else { a + 1 };
                let b0 = if b < i { b } else { b + 1 };
                assert(s1[a] == old(self).entries@[a0]);
                assert(s1[b] == old(self).entries@[b0]);
            }
        }
        e
    }

    /// Puts an entry back at position `i`, where its key was not present.
    pub fn insert_at(&mut self, i: usize, e: (String, V))
        requires
            old(self).wf(),
            i <= old(self).view().len(),
            forall|j: int| 0 <= j < old(self).view().len() ==> old(self).view()[j].0@ != e.0@,
        ensures
            final(self).wf(),
            final(self).view() == old(self).view().insert(i as int, e),
    {
        self.entries.insert(i, e);
        proof {
            let s0 = old(self).entries@;
            let s1 = self.entries@;
            assert forall|a: int, b: int| 0 <= a < b < s1.len() implies s1[a].0@ != s1[b].0@ by {
                if a != i && b != i {
                    let a0 = if a < i { a } else { a - 1 };
                    let b0 = if b < i { b } else { b - 1 };
                    assert(s1[a] == s0[a0]);
                    assert(s1[b] == s0[b0]);
                } else if a == i {
                    assert(s1[b] == s0[b - 1]);
                } else {
                    assert(s1[a] == s0[a]);
                }
            }
        }
    }

    /// Keeps the entries whose flag is set, in order.
    pub fn keep(&mut self, flags: &Vec<bool>)
        requires
            old(self).wf(),
            flags@.len() == old(self).view().len(),
        ensures
            final(self).wf(),
            final(self).view() == filter_by_flags(old(self).view(), flags@),
    {
        let mut rest: Vec<(String, V)> = Vec::new();
        std::mem::swap(&mut rest, &mut self.entries);
        let ghost s0 = rest@;
        let mut kept: Vec<(String, V)> = Vec::new();
        let mut i: usize = 0;
        while i < flags.len()
            invariant
                i <= flags@.len() == s0.len(),
                rest@ == s0.subrange(i as int, s0.len() as int),
                kept@ == filter_by_flags(s0.take(i as int), flags@.take(i as int)),
                unique_keys(s0),
                unique_keys(kept@),
                forall|j: int|
                    0 <= j < kept@.len() ==> exists|k: int| 0 <= k < i && #[trigger] kept@[j] == s0[k],
            decreases s0.len() - i,
        {
            let e = rest.remove(0);
            assert(e == s0[i as int]);
            let ghost kept0 = kept@;
            if flags[i] {
                proof {
                    assert forall|j: int| 0 <= j < kept0.len() implies kept0[j].0@ != e.0@ by {
                        let k = choose|k: int| 0 <= k < i && kept0[j] == s0[k];
                        assert(s0[k].0@ != s0[i as int].0@);
                    }
                }
                kept.push(e);
                proof {
                    assert forall|j: int| 0 <= j < kept@.len() implies exists|k: int|
                        0 <= k < i + 1 && #[trigger] kept@[j] == s0[k] by {
                        if j < kept0.len() {
                            let k = choose|k: int| 0 <= k < i && kept0[j] == s0[k];
                            assert(kept@[j] == s0[k]);
                        } else {
                            assert(kept@[j] == s0[i as int]);
                        }
                    }
                }
            }
            proof {
                assert(s0.take(i + 1).drop_last() == s0.take(i as int));
                assert(flags@.take(i + 1).drop_last() == flags@.take(i as int));
                assert(s0.take(i + 1).last() == s0[i as int]);
                assert(flags@.take(i + 1).last() == flags@[i as int]);
                assert(rest@ == s0.subrange(i + 1, s0.len() as int));
            }
            i = i + 1;
        }
        proof {
            assert(s0.take(s0.len() as int) == s0);
            assert(flags@.take(flags@.len() as int) == flags@);
        }
        self.entries = kept;
    }
}

/// The elements of `s` whose flag is set, in order.
pub open spec fn filter_by_flags<A>(s: Seq<A>, flags: Seq<bool>) -> Seq<A>
    decreases s.len(),
{
    if s.len() == 0 || flags.len() != s.len() {
        Seq::empty()
    } else if flags.last() {
        filter_by_flags(s.drop_last(), flags.drop_last()).push(s.last())
    } else {
        filter_by_flags(s.drop_last(), flags.drop_last())
    }
}

} // verus!
