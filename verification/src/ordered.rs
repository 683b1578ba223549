//! Maps whose entries are kept in the order of their keys.

use vstd::prelude::*;

verus! {

/// A key with a strict total order on the value it stands for.
pub trait MapKey: Sized {
    /// What two equal keys have in common.
    type Key;

    spec fn key(&self) -> Self::Key;

    spec fn key_before(a: Self::Key, b: Self::Key) -> bool;

    proof fn order_is_irreflexive(a: Self::Key)
        ensures
            !Self::key_before(a, a),
    ;

    proof fn order_is_transitive(a: Self::Key, b: Self::Key, c: Self::Key)
        requires
            Self::key_before(a, b),
            Self::key_before(b, c),
        ensures
            Self::key_before(a, c),
    ;

    proof fn order_is_total(a: Self::Key, b: Self::Key)
        ensures
            Self::key_before(a, b) || a == b || Self::key_before(b, a),
    ;

    fn before(&self, other: &Self) -> (r: bool)
        ensures
            r == Self::key_before(self.key(), other.key()),
    ;

    fn same(&self, other: &Self) -> (r: bool)
        ensures
            r == (self.key() == other.key()),
    ;
}

/// A value whose copies are the value itself.
pub trait Copied: Sized {
    fn copied(&self) -> (copy: Self)
        ensures
            copy == *self,
    ;
}

impl Copied for String {
    fn copied(&self) -> (copy: Self) {
        self.clone()
    }
}

impl Copied for () {
    fn copied(&self) -> (copy: Self) {
        ()
    }
}

/// A copy of a list, element by element.
pub fn copy_list<T: Copied>(list: &Vec<T>) -> (copy: Vec<T>)
    ensures
        copy@ == list@,
{
    let mut copy: Vec<T> = Vec::new();
    let mut i: usize = 0;
    while i < list.len()
        invariant
            i <= list.len(),
            copy@ == list@.take(i as int),
        decreases list.len() - i,
    {
        copy.push(list[i].copied());
        i = i + 1;
        assert(copy@ =~= list@.take(i as int));
    }
    assert(copy@ =~= list@);
    copy
}

/// A map in ascending order of its keys.
#[derive(Debug, PartialEq, Eq)]
pub struct OrderedMap<K: MapKey, V> {
    keys: Vec<K>,
    values: Vec<V>,
}

/// Keys and values side by side.
pub open spec fn paired<K, V>(keys: Seq<K>, values: Seq<V>) -> Seq<(K, V)> {
    Seq::new(keys.len(), |i: int| (keys[i], values[i]))
}

/// Whether the keys ascend.
pub open spec fn ascending<K: MapKey, V>(entries: Seq<(K, V)>) -> bool {
    forall|i: int, j: int|
        0 <= i < j < entries.len() ==> K::key_before(
            (#[trigger] entries[i]).0.key(),
            (#[trigger] entries[j]).0.key(),
        )
}

/// Whether an entry has the key `k`.
pub open spec fn has_key<K: MapKey, V>(entries: Seq<(K, V)>, k: K::Key) -> bool {
    exists|i: int| 0 <= i < entries.len() && (#[trigger] entries[i]).0.key() == k
}

/// The position of the entry with the key `k`.
pub open spec fn position_of<K: MapKey, V>(entries: Seq<(K, V)>, k: K::Key) -> int {
    choose|i: int| 0 <= i < entries.len() && (#[trigger] entries[i]).0.key() == k
}

/// The entries as a map from key to value.
pub open spec fn as_map<K: MapKey, V>(entries: Seq<(K, V)>) -> Map<K::Key, V> {
    Map::new(
        |k: K::Key| has_key(entries, k),
        |k: K::Key| entries[position_of(entries, k)].1,
    )
}

proof fn lemma_unique<K: MapKey, V>(entries: Seq<(K, V)>, i: int, j: int)
    requires
        ascending(entries),
        0 <= i < entries.len(),
        0 <= j < entries.len(),
        entries[i].0.key() == entries[j].0.key(),
    ensures
        i == j,
{
    K::order_is_irreflexive(entries[i].0.key());
}

proof fn lemma_at<K: MapKey, V>(entries: Seq<(K, V)>, i: int)
    requires
        ascending(entries),
        0 <= i < entries.len(),
    ensures
        as_map(entries).contains_key(entries[i].0.key()),
        as_map(entries)[entries[i].0.key()] == entries[i].1,
{
    let k = entries[i].0.key();
    assert(has_key(entries, k));
    lemma_unique(entries, i, position_of(entries, k));
}

/// A set in ascending order.
pub type OrderedSet<K> = OrderedMap<K, ()>;

impl<K: MapKey + Copied, V: Copied> OrderedMap<K, V> {
    /// A copy of the whole map.
    pub fn duplicate(&self) -> (copy: Self)
        ensures
            copy.listed() == self.listed(),
            copy.map() == self.map(),
    {
        proof {
            use_type_invariant(self);
        }
        let keys = copy_list(&self.keys);
        let values = copy_list(&self.values);
        assert(paired(keys@, values@) =~= self.listed());
        OrderedMap { keys, values }
    }
}

impl<K: MapKey, V> OrderedMap<K, V> {
    #[verifier::type_invariant]
    spec fn keys_ascend(&self) -> bool {
        self.keys.len() == self.values.len() && ascending(paired(self.keys@, self.values@))
    }

    /// The entries in ascending order of their keys.
    pub closed spec fn listed(&self) -> Seq<(K, V)> {
        paired(self.keys@, self.values@)
    }

    /// The value of each key.
    pub open spec fn map(&self) -> Map<K::Key, V> {
        as_map(self.listed())
    }

    /// A map without entries.
    pub fn new() -> (map: Self)
        ensures
            map.listed().len() == 0,
            map.map() == Map::<K::Key, V>::empty(),
    {
        let map = OrderedMap { keys: Vec::new(), values: Vec::new() };
        assert(as_map(map.listed()) =~= Map::<K::Key, V>::empty());
        map
    }

    /// The number of entries, which are listed in ascending order.
    pub fn len(&self) -> (n: usize)
        ensures
            n == self.listed().len(),
            ascending(self.listed()),
    {
        proof {
            use_type_invariant(self);
        }
        self.keys.len()
    }

    pub fn is_empty(&self) -> (b: bool)
        ensures
            b == (self.listed().len() == 0),
            b == (self.map() == Map::<K::Key, V>::empty()),
    {
        proof {
            use_type_invariant(self);
            if self.listed().len() > 0 {
                lemma_at(self.listed(), 0);
            } else {
                assert(as_map(self.listed()) =~= Map::<K::Key, V>::empty());
            }
        }
        self.keys.len() == 0
    }

    /// The entry at a position, in the order of the keys.
    pub fn entry(&self, i: usize) -> (e: (&K, &V))
        requires
            i < self.listed().len(),
        ensures
            *e.0 == self.listed()[i as int].0,
            *e.1 == self.listed()[i as int].1,
            self.map().contains_key(e.0.key()),
            self.map()[e.0.key()] == *e.1,
    {
        proof {
            use_type_invariant(self);
            lemma_at(self.listed(), i as int);
        }
        (&self.keys[i], &self.values[i])
    }

    /// The number of keys that come before `key`.
    fn rank(&self, key: &K) -> (i: usize)
        ensures
            i <= self.keys.len(),
            forall|j: int| 0 <= j < i ==> K::key_before(#[trigger] self.listed()[j].0.key(), key.key()),
            forall|j: int|
                i <= j < self.keys.len() ==> !K::key_before(#[trigger] self.listed()[j].0.key(), key.key()),
            self.map().contains_key(key.key()) <==> i < self.keys.len() && self.keys[i as int].key()
                == key.key(),
    {
        proof {
            use_type_invariant(self);
        }
        let mut i: usize = 0;
        while i < self.keys.len() && self.keys[i].before(key)
            invariant
                i <= self.keys.len(),
                forall|j: int|
                    0 <= j < i ==> K::key_before(#[trigger] self.listed()[j].0.key(), key.key()),
            decreases self.keys.len() - i,
        {
            i = i + 1;
        }
        proof {
            use_type_invariant(self);
            let k = key.key();
            let entries = self.listed();
            assert(i < entries.len() ==> entries[i as int].0 == self.keys[i as int]);
            assert forall|j: int| i <= j < entries.len() implies !K::key_before(
                #[trigger] entries[j].0.key(),
                k,
            ) by {
                if K::key_before(entries[j].0.key(), k) && i < j {
                    K::order_is_transitive(entries[i as int].0.key(), entries[j].0.key(), k);
                }
            }
            if has_key(entries, k) {
                let p = position_of(entries, k);
                K::order_is_irreflexive(k);
                assert(i <= p);
                if i < p {
                    assert(K::key_before(entries[i as int].0.key(), entries[p].0.key()));
                }
            } else if i < entries.len() && entries[i as int].0.key() == k {
                assert(has_key(entries, k));
            }
        }
        i
    }

    pub fn contains_key(&self, key: &K) -> (b: bool)
        ensures
            b == self.map().contains_key(key.key()),
    {
        let i: usize = self.rank(key);
        i < self.keys.len() && self.keys[i].same(key)
    }

    /// The value of `key`.
    pub fn get(&self, key: &K) -> (value: Option<&V>)
        ensures
            value is Some <==> self.map().contains_key(key.key()),
            value matches Some(v) ==> *v == self.map()[key.key()],
    {
        let i: usize = self.rank(key);
        if i < self.keys.len() && self.keys[i].same(key) {
            proof {
                use_type_invariant(self);
                lemma_at(self.listed(), i as int);
            }
            Some(&self.values[i])
        } else {
            None
        }
    }

    /// Set the value of `key`, whether or not it had one.
    pub fn insert(&mut self, key: K, value: V)
        ensures
            final(self).map() == old(self).map().insert(key.key(), value),
    {
        let i: usize = self.rank(&key);
        proof {
            use_type_invariant(&*self);
        }
        let ghost before = self.listed();
        let ghost k = key.key();
        let mut emptied = OrderedMap { keys: Vec::new(), values: Vec::new() };
        std::mem::swap(&mut emptied, self);
        let OrderedMap { mut keys, mut values } = emptied;
        let replaced: bool = i < keys.len() && keys[i].same(&key);
        if replaced {
            let _ = keys.remove(i);
            let _ = values.remove(i);
        }
        keys.insert(i, key);
        values.insert(i, value);
        proof {
            let after = paired(keys@, values@);
            if replaced {
                assert(after =~= before.update(i as int, (key, value)));
            } else {
                assert(after =~= before.insert(i as int, (key, value)));
                assert forall|j: int| i <= j < before.len() implies K::key_before(
                    k,
                    #[trigger] before[j].0.key(),
                ) by {
                    K::order_is_total(k, before[j].0.key());
                    if before[j].0.key() == k {
                        lemma_at(before, j);
                    }
                }
            }
            assert forall|a: int, b: int| 0 <= a < b < after.len() implies K::key_before(
                (#[trigger] after[a]).0.key(),
                (#[trigger] after[b]).0.key(),
            ) by {
                let p = if replaced || a < i {
                    a
                } else {
                    a - 1
                };
                let q = if replaced || b < i {
                    b
                } else {
                    b - 1
                };
                if a == i {
                    if replaced {
                        assert(K::key_before(before[i as int].0.key(), before[q].0.key()));
                    }
                    assert(after[b] == before[q]);
                } else if b == i {
                    assert(after[a] == before[p]);
                } else {
                    assert(after[a] == before[p] && after[b] == before[q]);
                    assert(K::key_before(before[p].0.key(), before[q].0.key()));
                }
            }
            lemma_at(after, i as int);
            assert forall|q: K::Key| #[trigger] as_map(after).contains_key(q) <==> (q == k || as_map(
                before,
            ).contains_key(q)) by {
                if has_key(after, q) {
                    let p = position_of(after, q);
                    if p != i {
                        let o = if replaced || p < i {
                            p
                        } else {
                            p - 1
                        };
                        assert(before[o] == after[p]);
                        assert(has_key(before, q));
                    }
                }
                if has_key(before, q) && q != k {
                    let p = position_of(before, q);
                    let n = if replaced || p < i {
                        p
                    } else {
                        p + 1
                    };
                    assert(after[n] == before[p]);
                    assert(has_key(after, q));
                }
            }
            assert forall|q: K::Key| q != k && as_map(before).contains_key(q) implies #[trigger] as_map(
                after,
            )[q] == as_map(before)[q] by {
                let p = position_of(before, q);
                let n = if replaced || p < i {
                    p
                } else {
                    p + 1
                };
                assert(after[n] == before[p]);
                lemma_at(after, n);
            }
            assert(as_map(after) =~= as_map(before).insert(k, value));
        }
        *self = OrderedMap { keys, values };
    }

    /// Forget `key`, handing back the value it had.
    pub fn remove(&mut self, key: &K) -> (value: Option<V>)
        ensures
            final(self).map() == old(self).map().remove(key.key()),
            value is Some <==> old(self).map().contains_key(key.key()),
            value matches Some(v) ==> v == old(self).map()[key.key()],
    {
        let i: usize = self.rank(key);
        proof {
            use_type_invariant(&*self);
        }
        let ghost before = self.listed();
        let ghost k = key.key();
        let mut emptied = OrderedMap { keys: Vec::new(), values: Vec::new() };
        std::mem::swap(&mut emptied, self);
        let OrderedMap { mut keys, mut values } = emptied;
        let found: bool = i < keys.len() && keys[i].same(key);
        let mut removed: Option<V> = None;
        if found {
            proof {
                lemma_at(before, i as int);
            }
            let _ = keys.remove(i);
            removed = Some(values.remove(i));
        }
        proof {
            let after = paired(keys@, values@);
            if found {
                assert(after =~= before.remove(i as int));
                assert(ascending(after));
                assert forall|q: K::Key| #[trigger] as_map(after).contains_key(q) <==> (q != k && as_map(
                    before,
                ).contains_key(q)) by {
                    if has_key(after, q) {
                        let p = position_of(after, q);
                        let o = if p < i {
                            p
                        } else {
                            p + 1
                        };
                        assert(before[o] == after[p]);
                        assert(has_key(before, q));
                        if q == k {
                            lemma_unique(before, o, i as int);
                        }
                    }
                    if has_key(before, q) && q != k {
                        let p = position_of(before, q);
                        let n = if p < i {
                            p
                        } else {
                            p - 1
                        };
                        assert(after[n] == before[p]);
                        assert(has_key(after, q));
                    }
                }
                assert forall|q: K::Key| q != k && as_map(before).contains_key(q) implies #[trigger] as_map(
                    after,
                )[q] == as_map(before)[q] by {
                    let p = position_of(before, q);
                    let n = if p < i {
                        p
                    } else {
                        p - 1
                    };
                    assert(after[n] == before[p]);
                    lemma_at(after, n);
                }
                assert(as_map(after) =~= as_map(before).remove(k));
            } else {
                assert(as_map(before) =~= as_map(before).remove(k));
            }
        }
        *self = OrderedMap { keys, values };
        removed
    }
}

/// Listed in ascending order, entries make a map that gives each key the value listed with it,
/// and that has no other key.
pub proof fn a_map_gives_what_is_listed<K: MapKey, V>(entries: Seq<(K, V)>)
    requires
        ascending(entries),
    ensures
        forall|i: int|
            0 <= i < entries.len() ==> as_map(entries).contains_key((#[trigger] entries[i]).0.key())
                && as_map(entries)[entries[i].0.key()] == entries[i].1,
        forall|k: K::Key| #[trigger]
            as_map(entries).contains_key(k) ==> exists|i: int|
                0 <= i < entries.len() && (#[trigger] entries[i]).0.key() == k,
{
    assert forall|i: int| 0 <= i < entries.len() implies as_map(entries).contains_key(
        (#[trigger] entries[i]).0.key(),
    ) && as_map(entries)[entries[i].0.key()] == entries[i].1 by {
        lemma_at(entries, i);
    }
    assert forall|k: K::Key| #[trigger] as_map(entries).contains_key(k) implies exists|i: int|
        0 <= i < entries.len() && (#[trigger] entries[i]).0.key() == k by {
        assert(has_key(entries, k));
    }
}

/// No key is listed twice, and a key that comes before another one is listed before it.
pub proof fn keys_are_listed_in_order<K: MapKey, V>(entries: Seq<(K, V)>, i: int, j: int)
    requires
        ascending(entries),
        0 <= i < entries.len(),
        0 <= j < entries.len(),
    ensures
        entries[i].0.key() == entries[j].0.key() ==> i == j,
        K::key_before(entries[i].0.key(), entries[j].0.key()) <==> i < j,
{
    if entries[i].0.key() == entries[j].0.key() {
        lemma_unique(entries, i, j);
    }
    if K::key_before(entries[i].0.key(), entries[j].0.key()) && j <= i {
        if i == j {
            K::order_is_irreflexive(entries[i].0.key());
        } else {
            K::order_is_transitive(
                entries[i].0.key(),
                entries[j].0.key(),
                entries[i].0.key(),
            );
            K::order_is_irreflexive(entries[i].0.key());
        }
    }
}

} // verus!
