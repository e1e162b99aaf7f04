//! A small map from textual identifiers to values.
//!
//! Identifiers are compared by their characters. The map keeps its keys
//! pairwise distinct, so its view is an ordinary mathematical map.

use vstd::prelude::*;

verus! {

/// No two positions of `keys` hold the same text.
pub open spec fn distinct_keys(keys: Seq<String>) -> bool {
    forall|i: int, j: int|
        0 <= i < keys.len() && 0 <= j < keys.len() && i != j ==> (#[trigger] keys[i])@ != (
        #[trigger] keys[j])@
}

/// Some position of `keys` holds the text `k`.
pub open spec fn has_key(keys: Seq<String>, k: Seq<char>) -> bool {
    exists|i: int| 0 <= i < keys.len() && (#[trigger] keys[i])@ == k
}

/// A position of `keys` that holds the text `k`, where there is one.
pub open spec fn key_index(keys: Seq<String>, k: Seq<char>) -> int {
    choose|i: int| 0 <= i < keys.len() && (#[trigger] keys[i])@ == k
}

/// The map that two parallel sequences of keys and values stand for.
pub open spec fn table<V>(keys: Seq<String>, values: Seq<V>) -> Map<Seq<char>, V> {
    Map::new(|k: Seq<char>| has_key(keys, k), |k: Seq<char>| values[key_index(keys, k)])
}

/// With distinct keys, the table maps the key at a position to the value
/// at that position.
pub proof fn lemma_table_at<V>(keys: Seq<String>, values: Seq<V>, i: int)
    requires
        distinct_keys(keys),
        keys.len() == values.len(),
        0 <= i < keys.len(),
    ensures
        table(keys, values).dom().contains(keys[i]@),
        table(keys, values)[keys[i]@] == values[i],
        key_index(keys, keys[i]@) == i,
{
    let k = keys[i]@;
    assert(has_key(keys, k));
    let j = key_index(keys, k);
    assert(0 <= j < keys.len() && keys[j]@ == k);
}

/// A map from identifiers to values of type `V`.
pub struct IdMap<V> {
    keys: Vec<String>,
    values: Vec<V>,
}

impl<V> IdMap<V> {
    /// Keys and values run in parallel, and no key occurs twice.
    pub closed spec fn wf(&self) -> bool {
        &&& self.keys@.len() == self.values@.len()
        &&& distinct_keys(self.keys@)
    }

    /// The map from each key's text to its value.
    pub closed spec fn view(&self) -> Map<Seq<char>, V> {
        table(self.keys@, self.values@)
    }

    /// An empty map.
    pub fn new() -> (m: Self)
        ensures
            m.wf(),
            m@ == Map::<Seq<char>, V>::empty(),
    {
        let m = IdMap { keys: Vec::new(), values: Vec::new() };
        assert(m@ =~= Map::<Seq<char>, V>::empty());
        m
    }

    fn position(&self, id: &String) -> (r: Option<usize>)
        requires
            self.wf(),
        ensures
            match r {
                Some(i) => i < self.keys@.len() && self.keys@[i as int]@ == id@,
                None => !has_key(self.keys@, id@),
            },
            r is Some <==> self@.dom().contains(id@),
    {
        let mut i: usize = 0;
        while i < self.keys.len()
            invariant
                i <= self.keys@.len(),
                forall|j: int| 0 <= j < i ==> (#[trigger] self.keys@[j])@ != id@,
            decreases self.keys@.len() - i,
        {
            if self.keys[i] == *id {
                assert(has_key(self.keys@, id@));
                return Some(i);
            }
            i += 1;
        }
        None
    }

    /// Whether `id` is a key of the map.
    pub fn contains(&self, id: &str) -> (b: bool)
        requires
            self.wf(),
        ensures
            b == self@.dom().contains(id@),
    {
        let owned = id.to_owned();
        self.position(&owned).is_some()
    }

    /// The number of keys.
    pub fn len(&self) -> (n: usize)
        requires
            self.wf(),
        ensures
            n == self@.dom().len(),
            self@.dom().finite(),
    {
        proof {
            lemma_table_size(self.keys@, self.values@);
        }
        self.keys.len()
    }

    /// The value stored under `id`, if any.
    pub fn get(&self, id: &str) -> (r: Option<&V>)
        requires
            self.wf(),
        ensures
            match r {
                Some(v) => self@.dom().contains(id@) && *v == self@[id@],
                None => !self@.dom().contains(id@),
            },
    {
        let owned = id.to_owned();
        match self.position(&owned) {
            Some(i) => {
                proof {
                    lemma_table_at(self.keys@, self.values@, i as int);
                }
                Some(&self.values[i])
            },
            None => None,
        }
    }

    /// Stores `value` under `id` and returns what was stored there before.
    pub fn insert(&mut self, id: String, value: V) -> (prior: Option<V>)
        requires
            old(self).wf(),
        ensures
            final(self).wf(),
            final(self)@ == old(self)@.insert(id@, value),
            match prior {
                Some(v) => old(self)@.dom().contains(id@) && v == old(self)@[id@],
                None => !old(self)@.dom().contains(id@),
            },
    {
        let ghost keys0 = self.keys@;
        let ghost values0 = self.values@;
        match self.position(&id) {
            Some(i) => {
                proof {
                    lemma_table_at(keys0, values0, i as int);
                }
                self.values.push(value);
                let prior = self.values.swap_remove(i);
                proof {
                    let values1 = self.values@;
                    assert(values1 =~= values0.update(i as int, value));
                    assert forall|k: Seq<char>| has_key(keys0, k) implies #[trigger] table(
                        keys0,
                        values1,
                    )[k] == old(self)@.insert(id@, value)[k] by {
                        let j = key_index(keys0, k);
                        lemma_table_at(keys0, values0, j);
                    }
                    assert(self@ =~= old(self)@.insert(id@, value));
                }
                Some(prior)
            },
            None => {
                self.keys.push(id);
                self.values.push(value);
                proof {
                    let keys1 = self.keys@;
                    let values1 = self.values@;
                    let n = keys0.len() as int;
                    assert forall|i: int, j: int|
                        0 <= i < keys1.len() && 0 <= j < keys1.len() && i != j implies (
                    #[trigger] keys1[i])@ != (#[trigger] keys1[j])@ by {
                        if i < n {
                            assert(keys1[i] == keys0[i]);
                        }
                        if j < n {
                            assert(keys1[j] == keys0[j]);
                        }
                    }
                    assert forall|k: Seq<char>|
                        has_key(keys1, k) <==> (has_key(keys0, k) || k == id@) by {
                        if has_key(keys1, k) {
                            let j = key_index(keys1, k);
                            if j < n {
                                assert(keys0[j]@ == k);
                            }
                        }
                        if has_key(keys0, k) {
                            let j = key_index(keys0, k);
                            assert(keys1[j]@ == k);
                        }
                        if k == id@ {
                            assert(keys1[n]@ == k);
                        }
                    }
                    assert forall|k: Seq<char>| has_key(keys1, k) implies #[trigger] table(
                        keys1,
                        values1,
                    )[k] == old(self)@.insert(id@, value)[k] by {
                        let j = key_index(keys1, k);
                        lemma_table_at(keys1, values1, j);
                        if j < n {
                            assert(keys0[j]@ == k);
                            lemma_table_at(keys0, values0, j);
                        }
                    }
                    assert(self@ =~= old(self)@.insert(id@, value));
                }
                None
            },
        }
    }

    /// Takes out what is stored under `id`, if anything.
    pub fn remove(&mut self, id: &str) -> (taken: Option<V>)
        requires
            old(self).wf(),
        ensures
            final(self).wf(),
            final(self)@ == old(self)@.remove(id@),
            match taken {
                Some(v) => old(self)@.dom().contains(id@) && v == old(self)@[id@],
                None => !old(self)@.dom().contains(id@),
            },
    {
        let ghost keys0 = self.keys@;
        let ghost values0 = self.values@;
        let owned = id.to_owned();
        match self.position(&owned) {
            Some(i) => {
                proof {
                    lemma_table_at(keys0, values0, i as int);
                }
                self.keys.remove(i);
                let taken = self.values.remove(i);
                proof {
                    let keys1 = self.keys@;
                    let values1 = self.values@;
                    assert forall|a: int| 0 <= a < keys1.len() implies #[trigger] keys1[a]
                        == keys0[if a < i { a } else { a + 1 }] by {}
                    assert forall|a: int, b: int|
                        0 <= a < keys1.len() && 0 <= b < keys1.len() && a != b implies (
                    #[trigger] keys1[a])@ != (#[trigger] keys1[b])@ by {
                        let a0 = if a < i { a } else { a + 1 };
                        let b0 = if b < i { b } else { b + 1 };
                        assert(keys1[a] == keys0[a0]);
                        assert(keys1[b] == keys0[b0]);
                    }
                    assert forall|k: Seq<char>|
                        has_key(keys1, k) <==> (has_key(keys0, k) && k != id@) by {
                        if has_key(keys1, k) {
                            let a = key_index(keys1, k);
                            let a0 = if a < i { a } else { a + 1 };
                            assert(keys0[a0]@ == k);
                        }
                        if has_key(keys0, k) && k != id@ {
                            let a0 = key_index(keys0, k);
                            let a = if a0 < i { a0 } else { a0 - 1 };
                            assert(keys1[a]@ == k);
                        }
                    }
                    assert forall|k: Seq<char>| has_key(keys1, k) implies #[trigger] table(
                        keys1,
                        values1,
                    )[k] == old(self)@.remove(id@)[k] by {
                        let a = key_index(keys1, k);
                        let a0 = if a < i { a } else { a + 1 };
                        lemma_table_at(keys1, values1, a);
                        assert(keys0[a0]@ == k);
                        lemma_table_at(keys0, values0, a0);
                    }
                    assert(self@ =~= old(self)@.remove(id@));
                }
                Some(taken)
            },
            None => {
                assert(self@ =~= old(self)@.remove(id@));
                None
            },
        }
    }
}

/// With distinct keys, the table has as many keys as positions.
pub proof fn lemma_table_size<V>(keys: Seq<String>, values: Seq<V>)
    requires
        distinct_keys(keys),
        keys.len() == values.len(),
    ensures
        table(keys, values).dom().finite(),
        table(keys, values).dom().len() == keys.len(),
    decreases keys.len(),
{
    let dom = table(keys, values).dom();
    if keys.len() == 0 {
        assert(dom =~= Set::<Seq<char>>::empty());
    } else {
        let keys1 = keys.drop_last();
        let values1 = values.drop_last();
        let last = keys.last()@;
        assert forall|i: int, j: int|
            0 <= i < keys1.len() && 0 <= j < keys1.len() && i != j implies (#[trigger] keys1[i])@
            != (#[trigger] keys1[j])@ by {
            assert(keys1[i] == keys[i]);
            assert(keys1[j] == keys[j]);
        }
        lemma_table_size(keys1, values1);
        let dom1 = table(keys1, values1).dom();
        assert(!dom1.contains(last)) by {
            if has_key(keys1, last) {
                let j = key_index(keys1, last);
                assert(keys[j]@ == last);
                assert(keys[keys.len() - 1]@ == last);
            }
        }
        assert forall|k: Seq<char>| dom.contains(k) <==> dom1.insert(last).contains(k) by {
            if has_key(keys, k) {
                let j = key_index(keys, k);
                if j < keys1.len() {
                    assert(keys1[j]@ == k);
                }
            }
            if has_key(keys1, k) {
                let j = key_index(keys1, k);
                assert(keys[j]@ == k);
            }
            if k == last {
                assert(keys[keys.len() - 1]@ == k);
            }
        }
        assert(dom =~= dom1.insert(last));
    }
}

} // verus!
