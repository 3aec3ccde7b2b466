//! The two shared registries: session-id to outbound sink, and request-id to
//! one-shot reply sink. Both are key-value stores with unique string keys,
//! viewed as a mathematical map; `AppState` pairs them under the operations
//! the socket loop and the tool bridge use.

use vstd::prelude::*;

use crate::text::str_eq;

verus! {

/// The map a run of entries denotes; a later entry with the same key would
/// win, but the registry keeps keys unique.
pub closed spec fn map_of<V>(es: Seq<(String, V)>) -> Map<Seq<char>, V>
    decreases es.len(),
{
    if es.len() == 0 {
        Map::empty()
    } else {
        map_of(es.drop_last()).insert(es.last().0@, es.last().1)
    }
}

spec fn unique_keys<V>(es: Seq<(String, V)>) -> bool {
    forall|i: int, j: int| 0 <= i < j < es.len() ==> es[i].0@ != es[j].0@
}

proof fn lemma_map_of_contains<V>(es: Seq<(String, V)>, k: Seq<char>)
    ensures
        map_of(es).contains_key(k) <==> exists|i: int| 0 <= i < es.len() && es[i].0@ == k,
    decreases es.len(),
{
    if es.len() > 0 {
        lemma_map_of_contains(es.drop_last(), k);
        if map_of(es).contains_key(k) {
            if es.last().0@ != k {
                let i = choose|i: int| 0 <= i < es.drop_last().len() && es.drop_last()[i].0@ == k;
                assert(es[i].0@ == k);
            } else {
                assert(es[es.len() - 1].0@ == k);
            }
        }
        if exists|i: int| 0 <= i < es.len() && es[i].0@ == k {
            let i = choose|i: int| 0 <= i < es.len() && es[i].0@ == k;
            if i < es.len() - 1 {
                assert(es.drop_last()[i].0@ == k);
            }
        }
    }
}

proof fn lemma_map_of_get<V>(es: Seq<(String, V)>, i: int)
    requires
        unique_keys(es),
        0 <= i < es.len(),
    ensures
        map_of(es).contains_key(es[i].0@),
        map_of(es)[es[i].0@] == es[i].1,
    decreases es.len(),
{
    if i == es.len() - 1 {
    } else {
        assert(es.drop_last()[i] == es[i]);
        lemma_map_of_get(es.drop_last(), i);
        assert(es.last().0@ != es[i].0@);
    }
}

proof fn lemma_map_of_update<V>(es: Seq<(String, V)>, i: int, k: String, v: V)
    requires
        unique_keys(es),
        0 <= i < es.len(),
        es[i].0@ == k@,
    ensures
        map_of(es.update(i, (k, v))) == map_of(es).insert(k@, v),
    decreases es.len(),
{
    let es2 = es.update(i, (k, v));
    if i == es.len() - 1 {
        assert(es2.drop_last() =~= es.drop_last());
        assert(es2.last() == (k, v));
        assert(map_of(es.drop_last()).insert(k@, v) =~= map_of(es.drop_last()).insert(
            es.last().0@,
            es.last().1,
        ).insert(k@, v));
    } else {
        assert(es2.drop_last() =~= es.drop_last().update(i, (k, v)));
        assert(es.drop_last()[i] == es[i]);
        lemma_map_of_update(es.drop_last(), i, k, v);
        assert(es2.last() == es.last());
        assert(es.last().0@ != k@);
        assert(map_of(es.drop_last()).insert(k@, v).insert(es.last().0@, es.last().1)
            =~= map_of(es.drop_last()).insert(es.last().0@, es.last().1).insert(k@, v));
    }
}

proof fn lemma_map_of_remove<V>(es: Seq<(String, V)>, i: int)
    requires
        unique_keys(es),
        0 <= i < es.len(),
    ensures
        map_of(es.remove(i)) == map_of(es).remove(es[i].0@),
    decreases es.len(),
{
    let k = es[i].0@;
    let es2 = es.remove(i);
    if i == es.len() - 1 {
        assert(es2 =~= es.drop_last());
        lemma_map_of_contains(es.drop_last(), k);
        assert forall|j: int| 0 <= j < es.drop_last().len() implies es.drop_last()[j].0@ != k by {
            assert(es[j].0@ == es.drop_last()[j].0@);
        }
        assert(!map_of(es.drop_last()).contains_key(k));
        assert(map_of(es.drop_last()) =~= map_of(es.drop_last()).insert(k, es[i].1).remove(k));
    } else {
        assert(es2.drop_last() =~= es.drop_last().remove(i));
        assert(es.drop_last()[i] == es[i]);
        lemma_map_of_remove(es.drop_last(), i);
        assert(es2.last() == es.last());
        assert(es.last().0@ != k);
        assert(map_of(es.drop_last()).remove(k).insert(es.last().0@, es.last().1) =~= map_of(
            es.drop_last(),
        ).insert(es.last().0@, es.last().1).remove(k));
    }
}

proof fn lemma_map_of_len<V>(es: Seq<(String, V)>)
    requires
        unique_keys(es),
    ensures
        map_of(es).dom().finite(),
        map_of(es).dom().len() == es.len(),
    decreases es.len(),
{
    if es.len() > 0 {
        lemma_map_of_len(es.drop_last());
        lemma_map_of_contains(es.drop_last(), es.last().0@);
        assert forall|j: int|
            0 <= j < es.drop_last().len() implies es.drop_last()[j].0@ != es.last().0@ by {
            assert(es[j].0@ == es.drop_last()[j].0@);
        }
        assert(!map_of(es.drop_last()).contains_key(es.last().0@));
    }
}

/// A registry keyed by opaque string identifiers. Keys are unique; the view
/// is the map from key to stored value.
pub struct Registry<V> {
    entries: Vec<(String, V)>,
}

impl<V> View for Registry<V> {
    type V = Map<Seq<char>, V>;

    closed spec fn view(&self) -> Map<Seq<char>, V> {
        map_of(self.entries@)
    }
}

impl<V> Registry<V> {
    /// Keys are unique; constructors establish this and every method keeps
    /// it.
    pub closed spec fn well_formed(self) -> bool {
        unique_keys(self.entries@)
    }

    pub fn new() -> (r: Self)
        ensures
            r.well_formed(),
            r@ == Map::<Seq<char>, V>::empty(),
    {
        Registry { entries: Vec::new() }
    }

    /// The index of the entry holding `k`, if any.
    fn find(&self, k: &str) -> (r: Option<usize>)
        ensures
            match r {
                Some(i) => i < self.entries@.len() && self.entries@[i as int].0@ == k@,
                None => forall|i: int| 0 <= i < self.entries@.len() ==> self.entries@[i].0@ != k@,
            },
    {
        let mut i: usize = 0;
        while i < self.entries.len()
            invariant
                i <= self.entries@.len(),
                forall|j: int| 0 <= j < i ==> self.entries@[j].0@ != k@,
            decreases self.entries@.len() - i,
        {
            if str_eq(self.entries[i].0.as_str(), k) {
                return Some(i);
            }
            i = i + 1;
        }
        None
    }

    /// Whether `k` is registered.
    pub fn contains(&self, k: &str) -> (r: bool)
        requires
            self.well_formed(),
        ensures
            r == self@.contains_key(k@),
    {
        proof {
            lemma_map_of_contains(self.entries@, k@);
        }
        match self.find(k) {
            Some(i) => true,
            None => false,
        }
    }

    /// Inserts or replaces the value under `k`.
    pub fn insert(&mut self, k: String, v: V)
        requires
            old(self).well_formed(),
        ensures
            final(self).well_formed(),
            final(self)@ == old(self)@.insert(k@, v),
    {
        match self.find(k.as_str()) {
            Some(i) => {
                proof {
                    lemma_map_of_update(self.entries@, i as int, k, v);
                }
                self.entries.set(i, (k, v));
                proof {
                    assert forall|a: int, b: int|
                        0 <= a < b < self.entries@.len() implies self.entries@[a].0@
                        != self.entries@[b].0@ by {
                        assert(old(self).entries@[a].0@ != old(self).entries@[b].0@);
                    }
                }
            },
            None => {
                self.entries.push((k, v));
                proof {
                    let es = self.entries@;
                    assert(es.drop_last() =~= old(self).entries@);
                    assert forall|a: int, b: int|
                        0 <= a < b < es.len() implies es[a].0@ != es[b].0@ by {
                        if b < es.len() - 1 {
                            assert(old(self).entries@[a].0@ != old(self).entries@[b].0@);
                        } else {
                            assert(old(self).entries@[a].0@ != k@);
                        }
                    }
                }
            },
        }
    }

    /// Removes `k` if present; idempotent.
    pub fn remove(&mut self, k: &str)
        requires
            old(self).well_formed(),
        ensures
            final(self).well_formed(),
            final(self)@ == old(self)@.remove(k@),
    {
        match self.find(k) {
            Some(i) => {
                proof {
                    lemma_map_of_remove(self.entries@, i as int);
                }
                self.entries.remove(i);
                proof {
                    let es = self.entries@;
                    assert forall|a: int, b: int|
                        0 <= a < b < es.len() implies es[a].0@ != es[b].0@ by {
                        let oa: int = if a < i { a } else { a + 1 };
                        let ob: int = if b < i { b } else { b + 1 };
                        assert(es[a] == old(self).entries@[oa]);
                        assert(es[b] == old(self).entries@[ob]);
                    }
                }
            },
            None => {
                proof {
                    lemma_map_of_contains(self.entries@, k@);
                    assert(!self@.contains_key(k@));
                    assert(map_of(self.entries@) =~= map_of(self.entries@).remove(k@));
                }
            },
        }
    }

    /// A borrow of the value under `k`.
    pub fn get(&self, k: &str) -> (r: Option<&V>)
        requires
            self.well_formed(),
        ensures
            match r {
                Some(v) => self@.contains_key(k@) && *v == self@[k@],
                None => !self@.contains_key(k@),
            },
    {
        proof {
            lemma_map_of_contains(self.entries@, k@);
        }
        match self.find(k) {
            Some(i) => {
                proof {
                    lemma_map_of_get(self.entries@, i as int);
                }
                Some(&self.entries[i].1)
            },
            None => None,
        }
    }

    /// Removes and returns the value under `k`: the one-shot take that
    /// resolves a pending action at most once.
    pub fn take(&mut self, k: &str) -> (r: Option<V>)
        requires
            old(self).well_formed(),
        ensures
            final(self).well_formed(),
            match r {
                Some(v) => old(self)@.contains_key(k@) && v == old(self)@[k@] && final(self)@ == old(
                    self,
                )@.remove(k@),
                None => !old(self)@.contains_key(k@) && final(self)@ == old(self)@,
            },
{
        proof {
            lemma_map_of_contains(self.entries@, k@);
        }
        match self.find(k) {
            Some(i) => {
                proof {
                    lemma_map_of_get(self.entries@, i as int);
                    lemma_map_of_remove(self.entries@, i as int);
                }
                let (_, v) = self.entries.remove(i);
                proof {
                    let es = self.entries@;
                    assert forall|a: int, b: int|
                        0 <= a < b < es.len() implies es[a].0@ != es[b].0@ by {
                        let oa: int = if a < i { a } else { a + 1 };
                        let ob: int = if b < i { b } else { b + 1 };
                        assert(es[a] == old(self).entries@[oa]);
                        assert(es[b] == old(self).entries@[ob]);
                    }
                }
                Some(v)
            },
            None => None,
        }
    }

    /// How many entries are registered.
    pub fn len(&self) -> (r: usize)
        requires
            self.well_formed(),
        ensures
            self@.dom().finite(),
            r == self@.dom().len(),
    {
        proof {
            lemma_map_of_len(self.entries@);
        }
        self.entries.len()
    }
}

} // verus!
