//! A finite map kept as a list of `(key, value)` entries with pairwise
//! distinct keys. Its view is the mathematical `Map` from key views to value
//! views; every operation is stated over that view.

use vstd::prelude::*;

verus! {

/// Keys compare and copy by their views.
pub trait MapKey: View + Sized {
    fn key_eq(&self, other: &Self) -> (r: bool)
        ensures
            r == (self@ == other@),
    ;

    fn key_clone(&self) -> (r: Self)
        ensures
            r@ == self@,
    ;
}

/// Values copy by their views.
pub trait MapValue: View + Sized {
    fn value_clone(&self) -> (r: Self)
        ensures
            r@ == self@,
    ;
}

/// The keys' views of an entry list, in order.
pub open spec fn keys_of<K: View, V: View>(s: Seq<(K, V)>) -> Seq<K::V> {
    s.map_values(|e: (K, V)| e.0@)
}

/// The keys of an entry list are pairwise distinct.
pub open spec fn distinct_keys<K: View, V: View>(s: Seq<(K, V)>) -> bool {
    forall|i: int, j: int| 0 <= i < j < s.len() ==> s[i].0@ != s[j].0@
}

/// The position of a key in an entry list.
pub open spec fn pos_in<K: View, V: View>(s: Seq<(K, V)>, k: K::V) -> int {
    choose|i: int| 0 <= i < s.len() && s[i].0@ == k
}

/// The map an entry list denotes.
pub open spec fn seq_map<K: View, V: View>(s: Seq<(K, V)>) -> Map<K::V, V::V> {
    Map::new(|k: K::V| keys_of(s).contains(k), |k: K::V| s[pos_in(s, k)].1@)
}

proof fn lemma_entry<K: View, V: View>(s: Seq<(K, V)>, i: int)
    requires
        distinct_keys(s),
        0 <= i < s.len(),
    ensures
        pos_in(s, s[i].0@) == i,
        seq_map(s).dom().contains(s[i].0@),
        seq_map(s)[s[i].0@] == s[i].1@,
{
    let k = s[i].0@;
    assert(keys_of(s)[i] == k);
    let p = pos_in(s, k);
    if p != i {
        if p < i {
            assert(s[p].0@ != s[i].0@);
        } else {
            assert(s[i].0@ != s[p].0@);
        }
    }
}

proof fn lemma_in_dom<K: View, V: View>(s: Seq<(K, V)>, k: K::V)
    ensures
        seq_map(s).dom().contains(k) <==> exists|i: int| 0 <= i < s.len() && s[i].0@ == k,
{
    if seq_map(s).dom().contains(k) {
        let j = choose|j: int| 0 <= j < keys_of(s).len() && keys_of(s)[j] == k;
        assert(s[j].0@ == k);
    }
    if exists|i: int| 0 <= i < s.len() && s[i].0@ == k {
        let j = choose|j: int| 0 <= j < s.len() && s[j].0@ == k;
        assert(keys_of(s)[j] == k);
    }
}

proof fn lemma_update<K: View, V: View>(s: Seq<(K, V)>, i: int, e: (K, V))
    requires
        distinct_keys(s),
        0 <= i < s.len(),
        s[i].0@ == e.0@,
    ensures
        distinct_keys(s.update(i, e)),
        seq_map(s.update(i, e)) == seq_map(s).insert(e.0@, e.1@),
{
    let t = s.update(i, e);
    assert forall|a: int, b: int| 0 <= a < b < t.len() implies t[a].0@ != t[b].0@ by {
        assert(s[a].0@ != s[b].0@);
    }
    let m = seq_map(t);
    let x = seq_map(s).insert(e.0@, e.1@);
    assert forall|k: K::V| m.dom().contains(k) <==> x.dom().contains(k) by {
        lemma_in_dom(s, k);
        lemma_in_dom(t, k);
        if k != e.0@ && m.dom().contains(k) {
            let j = choose|j: int| 0 <= j < t.len() && t[j].0@ == k;
            assert(s[j].0@ == k);
        }
        if k != e.0@ && x.dom().contains(k) {
            let j = choose|j: int| 0 <= j < s.len() && s[j].0@ == k;
            assert(t[j].0@ == k);
        }
        if k == e.0@ {
            assert(t[i].0@ == k);
        }
    }
    assert forall|k: K::V| #[trigger] m.dom().contains(k) implies m[k] == x[k] by {
        lemma_in_dom(t, k);
        let j = choose|j: int| 0 <= j < t.len() && t[j].0@ == k;
        lemma_entry(t, j);
        if j != i {
            assert(s[j].0@ == k);
            lemma_entry(s, j);
        }
    }
    assert(m =~= x);
}

proof fn lemma_push<K: View, V: View>(s: Seq<(K, V)>, e: (K, V))
    requires
        distinct_keys(s),
        !seq_map(s).dom().contains(e.0@),
    ensures
        distinct_keys(s.push(e)),
        seq_map(s.push(e)) == seq_map(s).insert(e.0@, e.1@),
{
    let t = s.push(e);
    assert forall|a: int, b: int| 0 <= a < b < t.len() implies t[a].0@ != t[b].0@ by {
        if b < s.len() {
            assert(s[a].0@ != s[b].0@);
        } else {
            lemma_in_dom(s, e.0@);
            assert(t[a] == s[a]);
        }
    }
    let m = seq_map(t);
    let x = seq_map(s).insert(e.0@, e.1@);
    assert forall|k: K::V| m.dom().contains(k) <==> x.dom().contains(k) by {
        lemma_in_dom(s, k);
        lemma_in_dom(t, k);
        if k != e.0@ && m.dom().contains(k) {
            let j = choose|j: int| 0 <= j < t.len() && t[j].0@ == k;
            assert(s[j].0@ == k);
        }
        if k != e.0@ && x.dom().contains(k) {
            let j = choose|j: int| 0 <= j < s.len() && s[j].0@ == k;
            assert(t[j].0@ == k);
        }
        if k == e.0@ {
            assert(t[s.len() as int].0@ == k);
        }
    }
    assert forall|k: K::V| #[trigger] m.dom().contains(k) implies m[k] == x[k] by {
        lemma_in_dom(t, k);
        let j = choose|j: int| 0 <= j < t.len() && t[j].0@ == k;
        lemma_entry(t, j);
        if j < s.len() {
            assert(s[j].0@ == k);
            lemma_entry(s, j);
        }
    }
    assert(m =~= x);
}

proof fn lemma_remove<K: View, V: View>(s: Seq<(K, V)>, i: int)
    requires
        distinct_keys(s),
        0 <= i < s.len(),
    ensures
        distinct_keys(s.remove(i)),
        seq_map(s.remove(i)) == seq_map(s).remove(s[i].0@),
{
    let t = s.remove(i);
    let key = s[i].0@;
    assert forall|a: int, b: int| 0 <= a < b < t.len() implies t[a].0@ != t[b].0@ by {
        let a2 = if a < i { a } else { a + 1 };
        let b2 = if b < i { b } else { b + 1 };
        assert(t[a] == s[a2]);
        assert(t[b] == s[b2]);
        assert(s[a2].0@ != s[b2].0@);
    }
    let m = seq_map(t);
    let x = seq_map(s).remove(key);
    assert forall|k: K::V| m.dom().contains(k) <==> x.dom().contains(k) by {
        lemma_in_dom(s, k);
        lemma_in_dom(t, k);
        if m.dom().contains(k) {
            let j = choose|j: int| 0 <= j < t.len() && t[j].0@ == k;
            let j2 = if j < i { j } else { j + 1 };
            assert(t[j] == s[j2]);
            if k == key {
                if j2 < i {
                    assert(s[j2].0@ != s[i].0@);
                } else {
                    assert(s[i].0@ != s[j2].0@);
                }
            }
        }
        if x.dom().contains(k) {
            let j = choose|j: int| 0 <= j < s.len() && s[j].0@ == k;
            assert(j != i);
            let j2 = if j < i { j } else { j - 1 };
            assert(t[j2] == s[j]);
        }
    }
    assert forall|k: K::V| #[trigger] m.dom().contains(k) implies m[k] == x[k] by {
        lemma_in_dom(t, k);
        let j = choose|j: int| 0 <= j < t.len() && t[j].0@ == k;
        lemma_entry(t, j);
        let j2 = if j < i { j } else { j + 1 };
        assert(t[j] == s[j2]);
        lemma_entry(s, j2);
    }
    assert(m =~= x);
}

/// The entry list of parallel key and value lists.
pub open spec fn zip_entries<K, V>(keys: Seq<K>, vals: Seq<V>) -> Seq<(K, V)> {
    Seq::new(keys.len(), |i: int| (keys[i], vals[i]))
}

/// Keys pairwise distinct by view.
pub open spec fn distinct_views<K: View>(keys: Seq<K>) -> bool {
    forall|i: int, j: int| 0 <= i < j < keys.len() ==> keys[i]@ != keys[j]@
}

proof fn lemma_zip<K: View, V: View>(keys: Seq<K>, vals: Seq<V>)
    requires
        keys.len() == vals.len(),
        distinct_views(keys),
    ensures
        distinct_keys(zip_entries(keys, vals)),
        zip_entries(keys, vals).len() == keys.len(),
        forall|i: int| 0 <= i < keys.len() ==> (#[trigger] zip_entries(keys, vals)[i]) == (keys[i], vals[i]),
{
    let s = zip_entries(keys, vals);
    assert forall|a: int, b: int| 0 <= a < b < s.len() implies s[a].0@ != s[b].0@ by {
        assert(s[a].0 == keys[a]);
        assert(s[b].0 == keys[b]);
    }
}

/// An association list whose keys are pairwise distinct (by view), kept as
/// parallel lists of keys and values.
#[derive(Debug, PartialEq)]
pub struct AssocMap<K: View, V: View> {
    keys: Vec<K>,
    vals: Vec<V>,
}

impl<K: View, V: View> AssocMap<K, V> {
    closed spec fn entries(&self) -> Seq<(K, V)> {
        zip_entries(self.keys@, self.vals@)
    }

    /// The keys' views, in storage order.
    pub closed spec fn key_seq(&self) -> Seq<K::V> {
        keys_of(self.entries())
    }

    #[verifier::type_invariant]
    closed spec fn well_formed(self) -> bool {
        self.keys@.len() == self.vals@.len() && distinct_views(self.keys@)
    }

    proof fn lemma_entries(&self)
        requires
            self.well_formed(),
        ensures
            distinct_keys(self.entries()),
            self.entries().len() == self.keys@.len(),
            forall|i: int| 0 <= i < self.keys@.len() ==> (#[trigger] self.entries()[i]) == (self.keys@[i], self.vals@[i]),
    {
        lemma_zip(self.keys@, self.vals@);
    }
}

impl<K: View, V: View> View for AssocMap<K, V> {
    type V = Map<K::V, V::V>;

    closed spec fn view(&self) -> Map<K::V, V::V> {
        seq_map(self.entries())
    }
}

impl<K: View, V: View> AssocMap<K, V> {
    /// A map holds finitely many keys.
    pub proof fn lemma_dom_finite(&self)
        ensures
            self@.dom().finite(),
    {
        let ks = self.key_seq();
        assert(self@.dom() =~= ks.to_set());
        vstd::seq_lib::seq_to_set_is_finite(ks);
    }
}


impl<K: MapKey, V: MapValue> AssocMap<K, V> {
    /// The empty map.
    pub fn new() -> (r: Self)
        ensures
            r@ == Map::<K::V, V::V>::empty(),
    {
        let r = AssocMap { keys: Vec::new(), vals: Vec::new() };
        assert(r.entries() =~= Seq::<(K, V)>::empty());
        assert(r@ =~= Map::<K::V, V::V>::empty());
        r
    }

    /// The number of entries, with the facts a caller needs to walk them by
    /// index.
    pub fn len(&self) -> (r: usize)
        ensures
            r == self.key_seq().len(),
            self.key_seq().no_duplicates(),
            forall|k: K::V| #[trigger] self@.dom().contains(k) <==> self.key_seq().contains(k),
    {
        proof {
            use_type_invariant(self);
            self.lemma_entries();
            let s = self.entries();
            assert forall|i: int, j: int|
                0 <= i < self.key_seq().len() && 0 <= j < self.key_seq().len() && i != j
                implies self.key_seq()[i] != self.key_seq()[j] by {
                if i < j {
                    assert(s[i].0@ != s[j].0@);
                } else {
                    assert(s[j].0@ != s[i].0@);
                }
            }
        }
        self.keys.len()
    }

    /// Whether the map holds no entry.
    pub fn is_empty(&self) -> (r: bool)
        ensures
            r <==> self@.dom() =~= Set::<K::V>::empty(),
    {
        proof {
            use_type_invariant(self);
            self.lemma_entries();
        }
        if self.keys.len() == 0 {
            assert(self@.dom() =~= Set::<K::V>::empty());
            true
        } else {
            assert(self.key_seq().contains(self.key_seq()[0]));
            assert(self@.dom().contains(self.key_seq()[0]));
            false
        }
    }

    /// The key stored at position `i`.
    pub fn key_at(&self, i: usize) -> (r: &K)
        requires
            i < self.key_seq().len(),
        ensures
            r@ == self.key_seq()[i as int],
            self@.dom().contains(r@),
    {
        proof {
            use_type_invariant(self);
            self.lemma_entries();
        }
        assert(self.key_seq().contains(self.key_seq()[i as int]));
        &self.keys[i]
    }

    /// The value stored at position `i`.
    pub fn value_at(&self, i: usize) -> (r: &V)
        requires
            i < self.key_seq().len(),
        ensures
            r@ == self@[self.key_seq()[i as int]],
    {
        proof {
            use_type_invariant(self);
            self.lemma_entries();
            lemma_entry(self.entries(), i as int);
        }
        &self.vals[i]
    }

    fn find(&self, k: &K) -> (r: Option<usize>)
        ensures
            r is Some ==> r->0 < self.keys@.len() && self.entries()[r->0 as int].0@ == k@,
            r is None ==> !self@.dom().contains(k@),
    {
        proof {
            use_type_invariant(self);
            self.lemma_entries();
        }
        let mut i: usize = 0;
        while i < self.keys.len()
            invariant
                i <= self.keys@.len(),
                self.keys@.len() == self.vals@.len(),
                forall|j: int| 0 <= j < self.keys@.len() ==> (#[trigger] self.entries()[j]) == (self.keys@[j], self.vals@[j]),
                forall|j: int| 0 <= j < i ==> self.keys@[j]@ != k@,
            decreases self.keys@.len() - i,
        {
            if self.keys[i].key_eq(k) {
                assert(self.entries()[i as int].0 == self.keys@[i as int]);
                return Some(i);
            }
            i = i + 1;
        }
        proof {
            lemma_in_dom(self.entries(), k@);
            if exists|j: int| 0 <= j < self.entries().len() && self.entries()[j].0@ == k@ {
                let j = choose|j: int| 0 <= j < self.entries().len() && self.entries()[j].0@ == k@;
                assert(self.entries()[j].0 == self.keys@[j]);
            }
        }
        None
    }

    /// The value bound to `k`, if any.
    pub fn get(&self, k: &K) -> (r: Option<&V>)
        ensures
            r is Some <==> self@.dom().contains(k@),
            r is Some ==> r->0@ == self@[k@],
    {
        proof {
            use_type_invariant(self);
            self.lemma_entries();
        }
        match self.find(k) {
            Some(i) => {
                proof {
                    lemma_entry(self.entries(), i as int);
                }
                Some(&self.vals[i])
            },
            None => None,
        }
    }

    /// A mutable reference to the value bound to `k`, if any.
    pub fn get_mut(&mut self, k: &K) -> (r: Option<&mut V>)
        ensures
            r is Some <==> old(self)@.dom().contains(k@),
            r matches Some(v) ==> (*v)@ == old(self)@[k@] && final(self)@ == old(self)@.insert(k@, (*final(v))@),
            r is None ==> final(self)@ == old(self)@,
    {
        proof {
            use_type_invariant(&*self);
            self.lemma_entries();
        }
        match self.find(k) {
            Some(i) => {
                let ghost before = self.entries();
                let ghost ks = self.keys@;
                let ghost vs = self.vals@;
                proof {
                    lemma_entry(before, i as int);
                }
                let r = &mut self.vals[i];
                proof {
                    let after = zip_entries(ks, vs.update(i as int, *final(r)));
                    assert(after =~= before.update(i as int, (before[i as int].0, *final(r))));
                    lemma_update(before, i as int, (before[i as int].0, *final(r)));
                }
                Some(r)
            },
            None => None,
        }
    }

    /// Whether `k` is bound.
    pub fn contains_key(&self, k: &K) -> (r: bool)
        ensures
            r == self@.dom().contains(k@),
    {
        proof {
            use_type_invariant(self);
            self.lemma_entries();
        }
        match self.find(k) {
            Some(i) => {
                proof {
                    lemma_entry(self.entries(), i as int);
                }
                true
            },
            None => false,
        }
    }

    /// Binds `k` to `v`, replacing any previous binding.
    pub fn insert(&mut self, k: K, v: V)
        ensures
            final(self)@ == old(self)@.insert(k@, v@),
    {
        proof {
            use_type_invariant(&*self);
            self.lemma_entries();
        }
        let found = self.find(&k);
        let ghost before = self.entries();
        let mut taken: AssocMap<K, V> = AssocMap { keys: Vec::new(), vals: Vec::new() };
        std::mem::swap(&mut taken, self);
        let AssocMap { mut keys, mut vals } = taken;
        let ghost kv = k@;
        let ghost vv = v@;
        let ghost e = (k, v);
        match found {
            Some(i) => {
                proof {
                    lemma_update(before, i as int, e);
                }
                keys.set(i, k);
                vals.set(i, v);
                proof {
                    assert(zip_entries(keys@, vals@) =~= before.update(i as int, e));
                    assert forall|a: int, b: int| 0 <= a < b < keys@.len() implies keys@[a]@ != keys@[b]@ by {
                        assert(before.update(i as int, e)[a].0 == keys@[a]);
                        assert(before.update(i as int, e)[b].0 == keys@[b]);
                    }
                }
            },
            None => {
                proof {
                    lemma_push(before, e);
                }
                keys.push(k);
                vals.push(v);
                proof {
                    assert(zip_entries(keys@, vals@) =~= before.push(e));
                    assert forall|a: int, b: int| 0 <= a < b < keys@.len() implies keys@[a]@ != keys@[b]@ by {
                        assert(before.push(e)[a].0 == keys@[a]);
                        assert(before.push(e)[b].0 == keys@[b]);
                    }
                }
            },
        }
        *self = AssocMap { keys, vals };
    }

    /// Removes the binding of `k`, handing back its value.
    pub fn remove(&mut self, k: &K) -> (r: Option<V>)
        ensures
            r is Some <==> old(self)@.dom().contains(k@),
            r is Some ==> r->0@ == old(self)@[k@],
            final(self)@ == old(self)@.remove(k@),
    {
        proof {
            use_type_invariant(&*self);
            self.lemma_entries();
        }
        let found = self.find(k);
        match found {
            Some(i) => {
                let ghost before = self.entries();
                let mut taken: AssocMap<K, V> = AssocMap { keys: Vec::new(), vals: Vec::new() };
                std::mem::swap(&mut taken, self);
                let AssocMap { mut keys, mut vals } = taken;
                proof {
                    lemma_remove(before, i as int);
                    lemma_entry(before, i as int);
                }
                keys.remove(i);
                let v = vals.remove(i);
                proof {
                    assert(zip_entries(keys@, vals@) =~= before.remove(i as int));
                    assert forall|a: int, b: int| 0 <= a < b < keys@.len() implies keys@[a]@ != keys@[b]@ by {
                        assert(before.remove(i as int)[a].0 == keys@[a]);
                        assert(before.remove(i as int)[b].0 == keys@[b]);
                    }
                }
                *self = AssocMap { keys, vals };
                Some(v)
            },
            None => {
                assert(self@.remove(k@) =~= self@);
                None
            },
        }
    }

    /// Removes every binding.
    pub fn clear(&mut self)
        ensures
            final(self)@ == Map::<K::V, V::V>::empty(),
    {
        *self = AssocMap::new();
    }

    /// A copy with the same view.
    pub fn duplicate(&self) -> (r: Self)
        ensures
            r@ == self@,
    {
        proof {
            use_type_invariant(self);
            self.lemma_entries();
        }
        let mut keys: Vec<K> = Vec::new();
        let mut vals: Vec<V> = Vec::new();
        let mut i: usize = 0;
        while i < self.keys.len()
            invariant
                i <= self.keys@.len(),
                self.keys@.len() == self.vals@.len(),
                distinct_views(self.keys@),
                keys@.len() == i,
                vals@.len() == i,
                forall|j: int| 0 <= j < i ==> (#[trigger] keys@[j])@ == self.keys@[j]@,
                forall|j: int| 0 <= j < i ==> (#[trigger] vals@[j])@ == self.vals@[j]@,
            decreases self.keys@.len() - i,
        {
            keys.push(self.keys[i].key_clone());
            vals.push(self.vals[i].value_clone());
            i = i + 1;
        }
        proof {
            assert forall|a: int, b: int| 0 <= a < b < keys@.len() implies keys@[a]@ != keys@[b]@ by {
                assert(self.keys@[a]@ != self.keys@[b]@);
            }
            lemma_zip(keys@, vals@);
            let s = self.entries();
            let t = zip_entries(keys@, vals@);
            assert forall|k: K::V| seq_map(t).dom().contains(k) <==> seq_map(s).dom().contains(k) by {
                lemma_in_dom(s, k);
                lemma_in_dom(t, k);
                if seq_map(t).dom().contains(k) {
                    let j = choose|j: int| 0 <= j < t.len() && t[j].0@ == k;
                    assert(s[j].0@ == k);
                }
                if seq_map(s).dom().contains(k) {
                    let j = choose|j: int| 0 <= j < s.len() && s[j].0@ == k;
                    assert(t[j].0@ == k);
                }
            }
            assert forall|k: K::V| #[trigger] seq_map(t).dom().contains(k) implies seq_map(t)[k]
                == seq_map(s)[k] by {
                lemma_in_dom(t, k);
                let j = choose|j: int| 0 <= j < t.len() && t[j].0@ == k;
                lemma_entry(t, j);
                lemma_entry(s, j);
            }
            assert(seq_map(t) =~= seq_map(s));
        }
        AssocMap { keys, vals }
    }
}

} // verus!
