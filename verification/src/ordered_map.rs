//! A map kept as a list of entries in strictly ascending key order.

use vstd::prelude::*;

use crate::text::{
    same_text, text_before, text_less, text_less_irreflexive, text_less_total, text_less_transitive,
};

verus! {

/// A key with a total order over its mathematical value.
pub trait Key: Sized {
    /// The value that the key stands for.
    type Value;

    /// The value of this key.
    spec fn value(&self) -> Self::Value;

    /// The strict order of values.
    spec fn less(a: Self::Value, b: Self::Value) -> bool;

    /// Whether this key comes before another.
    fn before(&self, other: &Self) -> (r: bool)
        ensures
            r == Self::less(self.value(), other.value()),
    ;

    /// Whether two keys stand for the same value.
    fn same(&self, other: &Self) -> (r: bool)
        ensures
            r == (self.value() == other.value()),
    ;

    /// A key with the same value.
    fn copy_key(&self) -> (r: Self)
        ensures
            r.value() == self.value(),
    ;

    /// The order is a strict total order.
    proof fn order_laws(a: Self::Value, b: Self::Value, c: Self::Value)
        ensures
            !Self::less(a, a),
            Self::less(a, b) && Self::less(b, c) ==> Self::less(a, c),
            a == b || Self::less(a, b) || Self::less(b, a),
    ;
}

impl Key for u64 {
    type Value = u64;

    open spec fn value(&self) -> u64 {
        *self
    }

    open spec fn less(a: u64, b: u64) -> bool {
        a < b
    }

    fn before(&self, other: &u64) -> (r: bool) {
        *self < *other
    }

    fn same(&self, other: &u64) -> (r: bool) {
        *self == *other
    }

    fn copy_key(&self) -> (r: u64) {
        *self
    }

    proof fn order_laws(a: u64, b: u64, c: u64) {
    }
}

impl Key for String {
    type Value = Seq<char>;

    open spec fn value(&self) -> Seq<char> {
        self@
    }

    open spec fn less(a: Seq<char>, b: Seq<char>) -> bool {
        text_less(a, b)
    }

    fn before(&self, other: &String) -> (r: bool) {
        text_before(self.as_str(), other.as_str())
    }

    fn same(&self, other: &String) -> (r: bool) {
        same_text(self.as_str(), other.as_str())
    }

    fn copy_key(&self) -> (r: String) {
        self.clone()
    }

    proof fn order_laws(a: Seq<char>, b: Seq<char>, c: Seq<char>) {
        text_less_irreflexive(a);
        if text_less(a, b) && text_less(b, c) {
            text_less_transitive(a, b, c);
        }
        text_less_total(a, b);
    }
}

/// A map whose entries are held in ascending key order.
#[derive(Debug)]
pub struct OrderedMap<K: Key, V> {
    /// The entries, each key once, in ascending order.
    pub entries: Vec<(K, V)>,
}

/// Whether the keys of a list of entries ascend strictly.
pub open spec fn ascending<K: Key, V>(entries: Seq<(K, V)>) -> bool {
    forall|i: int, j: int|
        0 <= i < j < entries.len() ==> K::less(
            (#[trigger] entries[i]).0.value(),
            (#[trigger] entries[j]).0.value(),
        )
}

/// The position of a key in a list of entries, if it is there.
pub open spec fn has_key<K: Key, V>(entries: Seq<(K, V)>, key: K::Value) -> bool {
    exists|i: int| 0 <= i < entries.len() && (#[trigger] entries[i]).0.value() == key
}

/// The position of a key that is there.
pub open spec fn key_index<K: Key, V>(entries: Seq<(K, V)>, key: K::Value) -> int {
    choose|i: int| 0 <= i < entries.len() && (#[trigger] entries[i]).0.value() == key
}

impl<K: Key, V> View for OrderedMap<K, V> {
    type V = Map<K::Value, V>;

    /// The map from key values to entry values.
    open spec fn view(&self) -> Map<K::Value, V> {
        Map::new(
            |k: K::Value| has_key(self.entries@, k),
            |k: K::Value| self.entries@[key_index(self.entries@, k)].1,
        )
    }
}

impl<K: Key, V> OrderedMap<K, V> {
    /// The keys ascend strictly.
    pub open spec fn wf(&self) -> bool {
        ascending(self.entries@)
    }

    /// An entry is what the map holds under its key.
    pub proof fn entry_is_value(&self, i: int)
        requires
            self.wf(),
            0 <= i < self.entries@.len(),
        ensures
            self@.dom().contains(self.entries@[i].0.value()),
            self@[self.entries@[i].0.value()] == self.entries@[i].1,
    {
        let k = self.entries@[i].0.value();
        assert(has_key(self.entries@, k));
        let j = key_index(self.entries@, k);
        if i < j {
            K::order_laws(k, k, k);
            assert(K::less(self.entries@[i].0.value(), self.entries@[j].0.value()));
        } else if j < i {
            K::order_laws(k, k, k);
            assert(K::less(self.entries@[j].0.value(), self.entries@[i].0.value()));
        }
    }

    /// The map has as many keys as entries.
    pub proof fn counts_keys(&self)
        requires
            self.wf(),
        ensures
            self@.dom().finite(),
            self@.dom().len() == self.entries@.len(),
    {
        let keys = self.entries@.map_values(|e: (K, V)| e.0.value());
        assert(keys.no_duplicates()) by {
            assert forall|i: int, j: int| 0 <= i < keys.len() && 0 <= j < keys.len() && i
                != j implies keys[i] != keys[j] by {
                K::order_laws(keys[i], keys[i], keys[i]);
                if i < j {
                    assert(K::less(self.entries@[i].0.value(), self.entries@[j].0.value()));
                } else {
                    assert(K::less(self.entries@[j].0.value(), self.entries@[i].0.value()));
                }
            }
        }
        keys.unique_seq_to_set();
        assert(keys.to_set() =~= self@.dom()) by {
            assert forall|k: K::Value| keys.to_set().contains(k) == self@.dom().contains(k) by {
                if keys.contains(k) {
                    let i = choose|i: int| 0 <= i < keys.len() && keys[i] == k;
                    assert(self.entries@[i].0.value() == k);
                }
                if has_key(self.entries@, k) {
                    let i = key_index(self.entries@, k);
                    assert(keys[i] == k);
                }
            }
        }
    }

    /// An empty map.
    pub fn new() -> (r: Self)
        ensures
            r.wf(),
            r.entries@.len() == 0,
            r@ == Map::<K::Value, V>::empty(),
    {
        let r = OrderedMap { entries: Vec::new() };
        proof {
            assert(r@ =~= Map::<K::Value, V>::empty());
        }
        r
    }

    /// How many keys the map holds.
    pub fn len(&self) -> (r: usize)
        ensures
            r == self.entries@.len(),
    {
        self.entries.len()
    }

    /// The position of a key, or where it would be inserted.
    fn find(&self, key: &K) -> (r: (bool, usize))
        requires
            self.wf(),
        ensures
            r.0 == self@.dom().contains(key.value()),
            r.0 ==> r.1 < self.entries@.len() && self.entries@[r.1 as int].0.value()
                == key.value(),
            !r.0 ==> r.1 <= self.entries@.len() && (forall|i: int|
                0 <= i < r.1 ==> K::less((#[trigger] self.entries@[i]).0.value(), key.value()))
                && (forall|i: int|
                r.1 <= i < self.entries@.len() ==> K::less(
                    key.value(),
                    (#[trigger] self.entries@[i]).0.value(),
                )),
    {
        let mut i: usize = 0;
        while i < self.entries.len()
            invariant
                self.wf(),
                i <= self.entries@.len(),
                forall|j: int|
                    0 <= j < i ==> K::less((#[trigger] self.entries@[j]).0.value(), key.value()),
            decreases self.entries@.len() - i,
        {
            if self.entries[i].0.same(key) {
                proof {
                    assert(has_key(self.entries@, key.value()));
                }
                return (true, i);
            }
            if !self.entries[i].0.before(key) {
                proof {
                    let e = self.entries@;
                    let k = key.value();
                    K::order_laws(e[i as int].0.value(), k, k);
                    assert forall|j: int| i <= j < e.len() implies K::less(
                        k,
                        (#[trigger] e[j]).0.value(),
                    ) by {
                        if j > i {
                            K::order_laws(k, e[i as int].0.value(), e[j].0.value());
                        }
                    }
                    if has_key(e, k) {
                        let j = key_index(e, k);
                        K::order_laws(k, k, k);
                    }
                }
                return (false, i);
            }
            i = i + 1;
        }
        proof {
            if has_key(self.entries@, key.value()) {
                let j = key_index(self.entries@, key.value());
                K::order_laws(key.value(), key.value(), key.value());
            }
        }
        (false, i)
    }

    /// The value under a key.
    pub fn get(&self, key: &K) -> (r: Option<&V>)
        requires
            self.wf(),
        ensures
            r is Some <==> self@.dom().contains(key.value()),
            r is Some ==> *r->0 == self@[key.value()],
    {
        let (found, at) = self.find(key);
        if found {
            proof {
                self.entry_is_value(at as int);
            }
            Some(&self.entries[at].1)
        } else {
            None
        }
    }

    /// Whether the map holds a key.
    pub fn contains_key(&self, key: &K) -> (r: bool)
        requires
            self.wf(),
        ensures
            r == self@.dom().contains(key.value()),
    {
        self.find(key).0
    }

    /// Put a value under a key, in place of what was there.
    pub fn insert(&mut self, key: K, value: V)
        requires
            old(self).wf(),
        ensures
            final(self).wf(),
            final(self)@ == old(self)@.insert(key.value(), value),
    {
        let ghost before = *self;
        let ghost k = key.value();
        let (found, at) = self.find(&key);
        if found {
            let ghost e = self.entries@;
            self.entries.set(at, (key, value));
            proof {
                let f = self.entries@;
                assert forall|i: int, j: int| 0 <= i < j < f.len() implies K::less(
                    (#[trigger] f[i]).0.value(),
                    (#[trigger] f[j]).0.value(),
                ) by {
                    assert(K::less(e[i].0.value(), e[j].0.value()));
                }
                assert forall|q: K::Value| self@.dom().contains(q) == before@.insert(
                    k,
                    value,
                ).dom().contains(q) by {
                    if has_key(f, q) {
                        let i = key_index(f, q);
                        assert(e[i].0.value() == q);
                    }
                    if has_key(e, q) {
                        let i = key_index(e, q);
                        assert(f[i].0.value() == q);
                    }
                }
                assert forall|q: K::Value| self@.dom().contains(q) implies self@[q]
                    == before@.insert(k, value)[q] by {
                    let i = key_index(f, q);
                    self.entry_is_value(i);
                    before.entry_is_value(i);
                    if q == k {
                        self.entry_is_value(at as int);
                    } else {
                        assert(i != at);
                    }
                }
                assert(self@ =~= before@.insert(k, value));
            }
        } else {
            let ghost e = self.entries@;
            self.entries.insert(at, (key, value));
            proof {
                let f = self.entries@;
                assert forall|i: int, j: int| 0 <= i < j < f.len() implies K::less(
                    (#[trigger] f[i]).0.value(),
                    (#[trigger] f[j]).0.value(),
                ) by {
                    let pi = if i < at { i } else { i - 1 };
                    let pj = if j < at { j } else { j - 1 };
                    if i != at {
                        assert(f[i] == e[pi]);
                    }
                    if j != at {
                        assert(f[j] == e[pj]);
                    }
                    if i != at && j != at {
                        assert(K::less(e[pi].0.value(), e[pj].0.value()));
                    }
                }
                assert forall|q: K::Value| self@.dom().contains(q) == before@.insert(
                    k,
                    value,
                ).dom().contains(q) by {
                    if has_key(f, q) {
                        let i = key_index(f, q);
                        if i != at {
                            let pi = if i < at { i } else { i - 1 };
                            assert(e[pi].0.value() == q);
                        }
                    }
                    if has_key(e, q) {
                        let i = key_index(e, q);
                        let fi = if i < at { i } else { i + 1 };
                        assert(f[fi].0.value() == q);
                    }
                    assert(f[at as int].0.value() == k);
                }
                assert forall|q: K::Value| self@.dom().contains(q) implies self@[q]
                    == before@.insert(k, value)[q] by {
                    if q == k {
                        self.entry_is_value(at as int);
                    } else {
                        let i = key_index(f, q);
                        self.entry_is_value(i);
                        let pi = if i < at { i } else { i - 1 };
                        assert(f[i] == e[pi]);
                        before.entry_is_value(pi);
                    }
                }
                assert(self@ =~= before@.insert(k, value));
            }
        }
    }

    /// Drop a key and its value.
    pub fn remove(&mut self, key: &K) -> (r: Option<V>)
        requires
            old(self).wf(),
        ensures
            final(self).wf(),
            final(self)@ == old(self)@.remove(key.value()),
            r is Some <==> old(self)@.dom().contains(key.value()),
            r is Some ==> r->0 == old(self)@[key.value()],
    {
        let ghost before = *self;
        let ghost k = key.value();
        let (found, at) = self.find(key);
        if !found {
            proof {
                assert(self@ =~= before@.remove(k));
            }
            return None;
        }
        let ghost e = self.entries@;
        proof {
            before.entry_is_value(at as int);
        }
        let (_, value) = self.entries.remove(at);
        proof {
            let f = self.entries@;
            assert forall|i: int, j: int| 0 <= i < j < f.len() implies K::less(
                (#[trigger] f[i]).0.value(),
                (#[trigger] f[j]).0.value(),
            ) by {
                let pi = if i < at { i } else { i + 1 };
                let pj = if j < at { j } else { j + 1 };
                assert(f[i] == e[pi]);
                assert(f[j] == e[pj]);
                assert(K::less(e[pi].0.value(), e[pj].0.value()));
            }
            assert forall|q: K::Value| self@.dom().contains(q) == before@.remove(k).dom().contains(
                q,
            ) by {
                if has_key(f, q) {
                    let i = key_index(f, q);
                    let pi = if i < at { i } else { i + 1 };
                    assert(f[i] == e[pi]);
                    assert(e[pi].0.value() == q);
                    if q == k {
                        K::order_laws(k, k, k);
                        if pi < at {
                            assert(K::less(e[pi].0.value(), e[at as int].0.value()));
                        } else {
                            assert(K::less(e[at as int].0.value(), e[pi].0.value()));
                        }
                    }
                }
                if has_key(e, q) && q != k {
                    let i = key_index(e, q);
                    let fi = if i < at { i } else { i - 1 };
                    assert(f[fi].0.value() == q);
                }
            }
            assert forall|q: K::Value| self@.dom().contains(q) implies self@[q]
                == before@.remove(k)[q] by {
                let i = key_index(f, q);
                self.entry_is_value(i);
                let pi = if i < at { i } else { i + 1 };
                assert(f[i] == e[pi]);
                before.entry_is_value(pi);
            }
            assert(self@ =~= before@.remove(k));
        }
        Some(value)
    }

    /// Drop every entry.
    pub fn clear(&mut self)
        ensures
            final(self).wf(),
            final(self)@ == Map::<K::Value, V>::empty(),
            final(self).entries@.len() == 0,
    {
        self.entries.clear();
        proof {
            assert(self@ =~= Map::<K::Value, V>::empty());
        }
    }
}

} // verus!
