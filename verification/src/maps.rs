//! Small maps kept as lists of entries with distinct keys, in the order the keys first came.
//!
//! `UuidMap` is keyed by 128-bit UUIDs (player and entity ids), `NameMap` by names.
use vstd::prelude::*;

verus! {

/// The map that a list of entries describes (later entries win, though keys are distinct).
pub open spec fn map_of<K, V>(es: Seq<(K, V)>) -> Map<K, V>
    decreases es.len(),
{
    if es.len() == 0 {
        Map::empty()
    } else {
        map_of(es.drop_last()).insert(es.last().0, es.last().1)
    }
}

/// The keys of a list of entries are distinct.
pub open spec fn distinct_keys<K, V>(es: Seq<(K, V)>) -> bool {
    forall|i: int, j: int| 0 <= i < j < es.len() ==> es[i].0 != es[j].0
}

/// The items whose flag is set, in order.
pub open spec fn kept<T>(es: Seq<T>, flags: Seq<bool>) -> Seq<T>
    decreases es.len(),
{
    if es.len() == 0 {
        Seq::empty()
    } else if flags[0] {
        seq![es[0]] + kept(es.skip(1), flags.skip(1))
    } else {
        kept(es.skip(1), flags.skip(1))
    }
}

/// What is kept is exactly what is flagged: an item is kept iff some flagged position holds it.
pub proof fn lemma_kept_members<T>(es: Seq<T>, flags: Seq<bool>, x: T)
    requires
        flags.len() == es.len(),
    ensures
        kept(es, flags).contains(x) <==> exists|i: int| 0 <= i < es.len() && flags[i] && #[trigger] es[i] == x,
    decreases es.len(),
{
    if es.len() > 0 {
        lemma_kept_members(es.skip(1), flags.skip(1), x);
        let k = kept(es, flags);
        let rest = kept(es.skip(1), flags.skip(1));
        if rest.contains(x) {
            let i = choose|i: int| 0 <= i < es.skip(1).len() && flags.skip(1)[i] && #[trigger] es.skip(1)[i] == x;
            assert(es[i + 1] == x && flags[i + 1]);
        }
        if exists|i: int| 0 <= i < es.len() && flags[i] && #[trigger] es[i] == x {
            let i = choose|i: int| 0 <= i < es.len() && flags[i] && #[trigger] es[i] == x;
            if i > 0 {
                assert(es.skip(1)[i - 1] == x && flags.skip(1)[i - 1]);
                assert(rest.contains(x));
                let j = choose|j: int| 0 <= j < rest.len() && rest[j] == x;
                if flags[0] {
                    assert(k[j + 1] == x);
                } else {
                    assert(k[j] == x);
                }
            } else {
                assert(k[0] == x);
            }
        }
        if k.contains(x) {
            let j = choose|j: int| 0 <= j < k.len() && k[j] == x;
            if flags[0] {
                if j > 0 {
                    assert(rest[j - 1] == x);
                    assert(rest.contains(x));
                } else {
                    assert(es[0] == x);
                }
            } else {
                assert(rest[j] == x);
                assert(rest.contains(x));
            }
        }
    }
}

pub proof fn lemma_map_of_domain<K, V>(es: Seq<(K, V)>, k: K)
    ensures
        map_of(es).contains_key(k) <==> exists|i: int| 0 <= i < es.len() && #[trigger] es[i].0 == k,
    decreases es.len(),
{
    if es.len() > 0 {
        lemma_map_of_domain(es.drop_last(), k);
        if map_of(es.drop_last()).contains_key(k) {
            let i = choose|i: int| 0 <= i < es.drop_last().len() && #[trigger] es.drop_last()[i].0 == k;
            assert(es[i].0 == k);
        }
        if exists|i: int| 0 <= i < es.len() && #[trigger] es[i].0 == k {
            let i = choose|i: int| 0 <= i < es.len() && #[trigger] es[i].0 == k;
            if i < es.len() - 1 {
                assert(es.drop_last()[i].0 == k);
            }
        }
    }
}

pub proof fn lemma_map_of_value<K, V>(es: Seq<(K, V)>, i: int)
    requires
        distinct_keys(es),
        0 <= i < es.len(),
    ensures
        map_of(es).contains_key(es[i].0),
        map_of(es)[es[i].0] == es[i].1,
    decreases es.len(),
{
    if i < es.len() - 1 {
        lemma_map_of_value(es.drop_last(), i);
    }
}

proof fn lemma_map_of_push<K, V>(es: Seq<(K, V)>, e: (K, V))
    ensures
        map_of(es.push(e)) == map_of(es).insert(e.0, e.1),
{
    assert(es.push(e).drop_last() =~= es);
}

proof fn lemma_map_of_update<K, V>(es: Seq<(K, V)>, i: int, v: V)
    requires
        distinct_keys(es),
        0 <= i < es.len(),
    ensures
        map_of(es.update(i, (es[i].0, v))) == map_of(es).insert(es[i].0, v),
        distinct_keys(es.update(i, (es[i].0, v))),
    decreases es.len(),
{
    let es2 = es.update(i, (es[i].0, v));
    if i == es.len() - 1 {
        assert(es2.drop_last() =~= es.drop_last());
        assert(map_of(es2) =~= map_of(es).insert(es[i].0, v));
    } else {
        lemma_map_of_update(es.drop_last(), i, v);
        assert(es2.drop_last() =~= es.drop_last().update(i, (es[i].0, v)));
        assert(map_of(es2) =~= map_of(es).insert(es[i].0, v));
    }
}

proof fn lemma_map_of_remove<K, V>(es: Seq<(K, V)>, i: int)
    requires
        distinct_keys(es),
        0 <= i < es.len(),
    ensures
        map_of(es.remove(i)) == map_of(es).remove(es[i].0),
        distinct_keys(es.remove(i)),
    decreases es.len(),
{
    let k = es[i].0;
    let es2 = es.remove(i);
    if i == es.len() - 1 {
        assert(es2 =~= es.drop_last());
        assert forall|j: int| 0 <= j < es2.len() implies #[trigger] es2[j].0 != k by {}
        lemma_map_of_domain(es2, k);
        assert(map_of(es2) =~= map_of(es).remove(k));
    } else {
        lemma_map_of_remove(es.drop_last(), i);
        assert(es2.drop_last() =~= es.drop_last().remove(i));
        assert(es2.last() == es.last());
        assert(map_of(es2) =~= map_of(es).remove(k));
    }
}

/// A map from UUIDs to values.
pub struct UuidMap<V> {
    pub entries: Vec<(u128, V)>,
}

impl<V> UuidMap<V> {
    pub open spec fn wf(&self) -> bool {
        distinct_keys(self.entries@)
    }

    pub open spec fn view(&self) -> Map<u128, V> {
        map_of(self.entries@)
    }

    /// The keys in their order.
    pub open spec fn keys(&self) -> Seq<u128> {
        self.entries@.map_values(|e: (u128, V)| e.0)
    }

    /// An empty map.
    pub fn new() -> (m: Self)
        ensures
            m.wf(),
            m.view() == Map::<u128, V>::empty(),
    {
        UuidMap { entries: Vec::new() }
    }

    /// The number of entries.
    pub fn len(&self) -> (n: usize)
        ensures
            n == self.entries@.len(),
    {
        self.entries.len()
    }

    /// Where the key stands in the list, if it is there.
    pub fn index_of(&self, k: u128) -> (r: Option<usize>)
        requires
            self.wf(),
        ensures
            r is None <==> !self.view().contains_key(k),
            r matches Some(i) ==> i < self.entries@.len() && self.entries@[i as int].0 == k,
    {
        let mut i: usize = 0;
        while i < self.entries.len()
            invariant
                i <= self.entries@.len(),
                forall|j: int| 0 <= j < i ==> self.entries@[j].0 != k,
            decreases self.entries@.len() - i,
        {
            if self.entries[i].0 == k {
                proof { lemma_map_of_domain(self.entries@, k); }
                return Some(i);
            }
            i = i + 1;
        }
        proof { lemma_map_of_domain(self.entries@, k); }
        None
    }

    /// Whether the key is present.
    pub fn contains_key(&self, k: u128) -> (b: bool)
        requires
            self.wf(),
        ensures
            b == self.view().contains_key(k),
    {
        self.index_of(k).is_some()
    }

    /// The value of a key.
    pub fn get(&self, k: u128) -> (r: Option<&V>)
        requires
            self.wf(),
        ensures
            r is None <==> !self.view().contains_key(k),
            r matches Some(v) ==> self.view()[k] == *v,
    {
        match self.index_of(k) {
            Some(i) => {
                proof { lemma_map_of_value(self.entries@, i as int); }
                Some(&self.entries[i].1)
            },
            None => None,
        }
    }

    /// Sets the value of a key; a new key goes last.
    pub fn insert(&mut self, k: u128, v: V)
        requires
            old(self).wf(),
        ensures
            final(self).wf(),
            final(self).view() == old(self).view().insert(k, v),
    {
        match self.index_of(k) {
            Some(i) => {
                proof { lemma_map_of_update(self.entries@, i as int, v); }
                self.entries.set(i, (k, v));
            },
            None => {
                proof {
                    lemma_map_of_push(self.entries@, (k, v));
                    lemma_map_of_domain(self.entries@, k);
                }
                self.entries.push((k, v));
            },
        }
    }

    /// Removes a key.
    pub fn remove(&mut self, k: u128)
        requires
            old(self).wf(),
        ensures
            final(self).wf(),
            final(self).view() == old(self).view().remove(k),
    {
        match self.index_of(k) {
            Some(i) => {
                proof { lemma_map_of_remove(self.entries@, i as int); }
                self.entries.remove(i);
            },
            None => {
                assert(self.view() =~= self.view().remove(k));
            },
        }
    }

    /// Keeps the entries whose flag is set, in order.
    pub fn retain_marked(&mut self, keep: &Vec<bool>)
        requires
            old(self).wf(),
            keep@.len() == old(self).entries@.len(),
        ensures
            final(self).wf(),
            final(self).entries@ == kept(old(self).entries@, keep@),
    {
        let ghost es = self.entries@;
        let mut rest: Vec<(u128, V)> = Vec::new();
        std::mem::swap(&mut rest, &mut self.entries);
        let mut k: usize = 0;
        let n = rest.len();
        assert(rest@ == es);
        assert(n == es.len());
        assert(es.skip(0) =~= es);
        assert(keep@.skip(0) =~= keep@);
        assert(self.entries@ + kept(es, keep@) =~= kept(es, keep@));
        while rest.len() > 0
            invariant
                distinct_keys(es),
                keep@.len() == es.len(),
                es.len() <= usize::MAX,
                k <= es.len(),
                rest@ == es.skip(k as int),
                self.entries@ + kept(es.skip(k as int), keep@.skip(k as int)) == kept(es, keep@),
                distinct_keys(self.entries@),
                forall|j: int, m: int| 0 <= j < self.entries@.len() && k <= m < es.len()
                    ==> #[trigger] self.entries@[j].0 != #[trigger] es[m].0,
            decreases rest.len(),
        {
            let ghost before = self.entries@;
            let e = rest.remove(0);
            assert(es.skip(k as int)[0] == e);
            assert(es.skip(k as int).skip(1) =~= es.skip(k + 1));
            assert(keep@.skip(k as int).skip(1) =~= keep@.skip(k + 1));
            assert(keep@.skip(k as int)[0] == keep@[k as int]);
            if keep[k] {
                self.entries.push(e);
                assert(self.entries@ + kept(es.skip(k + 1), keep@.skip(k + 1))
                    =~= before + (seq![e] + kept(es.skip(k + 1), keep@.skip(k + 1))));
                assert forall|a: int, b: int| 0 <= a < b < self.entries@.len() implies
                    self.entries@[a].0 != self.entries@[b].0 by {
                    if b == before.len() {
                        assert(before[a].0 != es[k as int].0);
                    }
                }
            }
            k = k + 1;
        }
        assert(es.skip(k as int) =~= Seq::<(u128, V)>::empty());
        assert(self.entries@ + Seq::<(u128, V)>::empty() =~= self.entries@);
    }
}

/// A map from names to values.
pub struct NameMap<V> {
    pub entries: Vec<(String, V)>,
}

/// The entries with their names taken as text.
pub open spec fn name_entries<V>(es: Seq<(String, V)>) -> Seq<(Seq<char>, V)> {
    es.map_values(|e: (String, V)| (e.0@, e.1))
}

impl<V> NameMap<V> {
    pub open spec fn wf(&self) -> bool {
        distinct_keys(name_entries(self.entries@))
    }

    pub open spec fn view(&self) -> Map<Seq<char>, V> {
        map_of(name_entries(self.entries@))
    }

    /// An empty map.
    pub fn new() -> (m: Self)
        ensures
            m.wf(),
            m.view() == Map::<Seq<char>, V>::empty(),
    {
        let m = NameMap { entries: Vec::new() };
        assert(name_entries(m.entries@) =~= Seq::<(Seq<char>, V)>::empty());
        m
    }

    /// Where the name stands in the list, if it is there.
    pub fn index_of(&self, k: &String) -> (r: Option<usize>)
        requires
            self.wf(),
        ensures
            r is None <==> !self.view().contains_key(k@),
            r matches Some(i) ==> i < self.entries@.len() && self.entries@[i as int].0@ == k@,
    {
        let mut i: usize = 0;
        while i < self.entries.len()
            invariant
                i <= self.entries@.len(),
                forall|j: int| 0 <= j < i ==> self.entries@[j].0@ != k@,
            decreases self.entries@.len() - i,
        {
            if self.entries[i].0 == *k {
                proof {
                    lemma_map_of_domain(name_entries(self.entries@), k@);
                    assert(name_entries(self.entries@)[i as int].0 == k@);
                }
                return Some(i);
            }
            i = i + 1;
        }
        proof {
            lemma_map_of_domain(name_entries(self.entries@), k@);
            assert forall|j: int| 0 <= j < self.entries@.len() implies
                #[trigger] name_entries(self.entries@)[j].0 != k@ by {}
        }
        None
    }

    /// The value of a name.
    pub fn get(&self, k: &String) -> (r: Option<&V>)
        requires
            self.wf(),
        ensures
            r is None <==> !self.view().contains_key(k@),
            r matches Some(v) ==> self.view()[k@] == *v,
    {
        match self.index_of(k) {
            Some(i) => {
                proof { lemma_map_of_value(name_entries(self.entries@), i as int); }
                Some(&self.entries[i].1)
            },
            None => None,
        }
    }

    /// Sets the value of a name; a new name goes last.
    pub fn insert(&mut self, k: String, v: V)
        requires
            old(self).wf(),
        ensures
            final(self).wf(),
            final(self).view() == old(self).view().insert(k@, v),
    {
        match self.index_of(&k) {
            Some(i) => {
                proof {
                    lemma_map_of_update(name_entries(self.entries@), i as int, v);
                }
                self.entries.set(i, (k, v));
                proof {
                    assert(name_entries(self.entries@) =~= name_entries(old(self).entries@).update(i as int, (name_entries(old(self).entries@)[i as int].0, v)));
                }
            },
            None => {
                proof {
                    lemma_map_of_domain(name_entries(self.entries@), k@);
                }
                let ghost kv = k@;
                self.entries.push((k, v));
                proof {
                    assert(name_entries(self.entries@) =~= name_entries(old(self).entries@).push((kv, v)));
                    lemma_map_of_push(name_entries(old(self).entries@), (kv, v));
                }
            },
        }
    }
}

} // verus!
