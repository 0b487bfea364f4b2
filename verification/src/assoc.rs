//! Finite maps kept as vectors of entries with distinct keys.
use vstd::prelude::*;

use crate::account::{copy_account, same_account, Account};

verus! {

/// Keys of an association list: compared and copied by their views.
pub trait KeyOps: View + Sized {
    fn same_key(&self, other: &Self) -> (r: bool)
        ensures
            r == (self@ == other@),
    ;

    fn copy_key(&self) -> (r: Self)
        ensures
            r@ == self@,
    ;
}

impl KeyOps for u64 {
    fn same_key(&self, other: &Self) -> (r: bool) {
        *self == *other
    }

    fn copy_key(&self) -> (r: Self) {
        *self
    }
}

impl KeyOps for Vec<u8> {
    fn same_key(&self, other: &Self) -> (r: bool) {
        crate::account::same_bytes(self, other)
    }

    fn copy_key(&self) -> (r: Self) {
        crate::account::copy_bytes(self)
    }
}

impl KeyOps for Account {
    fn same_key(&self, other: &Self) -> (r: bool) {
        same_account(self, other)
    }

    fn copy_key(&self) -> (r: Self) {
        copy_account(self)
    }
}

/// No key occurs twice.
pub open spec fn unique_keys<K: View, V>(e: Seq<(K, V)>) -> bool {
    forall|i: int, j: int| 0 <= i < j < e.len() ==> (#[trigger] e[i]).0@ != (#[trigger] e[j]).0@
}

/// Some entry has key `k`.
pub open spec fn holds_key<K: View, V>(e: Seq<(K, V)>, k: K::V) -> bool {
    exists|i: int| 0 <= i < e.len() && (#[trigger] e[i]).0@ == k
}

/// The map the entries stand for.
pub open spec fn assoc_view<K: View, V: View>(e: Seq<(K, V)>) -> Map<K::V, V::V> {
    Map::new(
        |k: K::V| holds_key(e, k),
        |k: K::V| e[choose|i: int| 0 <= i < e.len() && (#[trigger] e[i]).0@ == k].1@,
    )
}

/// The values of the entries.
pub open spec fn values_of<K, V>(e: Seq<(K, V)>) -> Seq<V> {
    e.map_values(|x: (K, V)| x.1)
}

/// A finite map kept as entries with distinct keys.
pub struct AssocList<K, V> {
    pub entries: Vec<(K, V)>,
}

impl<K: View, V: View> View for AssocList<K, V> {
    type V = Map<K::V, V::V>;

    open spec fn view(&self) -> Map<K::V, V::V> {
        assoc_view(self.entries@)
    }
}

pub proof fn lemma_assoc_at<K: View, V: View>(e: Seq<(K, V)>, i: int)
    requires
        unique_keys(e),
        0 <= i < e.len(),
    ensures
        assoc_view(e).contains_key(e[i].0@),
        assoc_view(e)[e[i].0@] == e[i].1@,
{
    let k = e[i].0@;
    assert(holds_key(e, k));
    let j = choose|j: int| 0 <= j < e.len() && (#[trigger] e[j]).0@ == k;
    if j != i {
        if j < i {
            assert(e[j].0@ != e[i].0@);
        } else {
            assert(e[i].0@ != e[j].0@);
        }
    }
}

proof fn lemma_assoc_set<K: View, V: View>(e: Seq<(K, V)>, i: int, entry: (K, V))
    requires
        unique_keys(e),
        0 <= i < e.len(),
        entry.0@ == e[i].0@,
    ensures
        unique_keys(e.update(i, entry)),
        assoc_view(e.update(i, entry)) == assoc_view(e).insert(entry.0@, entry.1@),
{
    let e2 = e.update(i, entry);
    assert forall|a: int, b: int| 0 <= a < b < e2.len() implies (#[trigger] e2[a]).0@ != (#[trigger] e2[b]).0@ by {
        assert(e[a].0@ != e[b].0@);
    }
    let m1 = assoc_view(e2);
    let m2 = assoc_view(e).insert(entry.0@, entry.1@);
    assert forall|k: K::V| m1.contains_key(k) <==> m2.contains_key(k) by {
        if holds_key(e2, k) {
            let j = choose|j: int| 0 <= j < e2.len() && (#[trigger] e2[j]).0@ == k;
            if j != i {
                assert(e[j].0@ == k);
            }
        }
        if holds_key(e, k) {
            let j = choose|j: int| 0 <= j < e.len() && (#[trigger] e[j]).0@ == k;
            if j != i {
                assert(e2[j].0@ == k);
            } else {
                assert(e2[i].0@ == k);
            }
        }
        if k == entry.0@ {
            assert(e2[i].0@ == k);
        }
    }
    assert forall|k: K::V| #[trigger] m1.contains_key(k) implies m1[k] == m2[k] by {
        let j = choose|j: int| 0 <= j < e2.len() && (#[trigger] e2[j]).0@ == k;
        lemma_assoc_at(e2, j);
        if j != i {
            assert(e[j] == e2[j]);
            lemma_assoc_at(e, j);
        }
    }
    assert(m1 =~= m2);
}

proof fn lemma_assoc_push<K: View, V: View>(e: Seq<(K, V)>, entry: (K, V))
    requires
        unique_keys(e),
        !holds_key(e, entry.0@),
    ensures
        unique_keys(e.push(entry)),
        assoc_view(e.push(entry)) == assoc_view(e).insert(entry.0@, entry.1@),
{
    let e2 = e.push(entry);
    let n = e.len() as int;
    assert forall|a: int, b: int| 0 <= a < b < e2.len() implies (#[trigger] e2[a]).0@ != (#[trigger] e2[b]).0@ by {
        if b == n {
            assert(e[a] == e2[a]);
        } else {
            assert(e[a].0@ != e[b].0@);
        }
    }
    let m1 = assoc_view(e2);
    let m2 = assoc_view(e).insert(entry.0@, entry.1@);
    assert forall|k: K::V| m1.contains_key(k) <==> m2.contains_key(k) by {
        if holds_key(e2, k) {
            let j = choose|j: int| 0 <= j < e2.len() && (#[trigger] e2[j]).0@ == k;
            if j < n {
                assert(e[j].0@ == k);
            }
        }
        if holds_key(e, k) {
            let j = choose|j: int| 0 <= j < e.len() && (#[trigger] e[j]).0@ == k;
            assert(e2[j].0@ == k);
        }
        if k == entry.0@ {
            assert(e2[n].0@ == k);
        }
    }
    assert forall|k: K::V| #[trigger] m1.contains_key(k) implies m1[k] == m2[k] by {
        let j = choose|j: int| 0 <= j < e2.len() && (#[trigger] e2[j]).0@ == k;
        lemma_assoc_at(e2, j);
        if j < n {
            assert(e[j] == e2[j]);
            lemma_assoc_at(e, j);
        }
    }
    assert(m1 =~= m2);
}

proof fn lemma_assoc_remove<K: View, V: View>(e: Seq<(K, V)>, i: int)
    requires
        unique_keys(e),
        0 <= i < e.len(),
    ensures
        unique_keys(e.remove(i)),
        assoc_view(e.remove(i)) == assoc_view(e).remove(e[i].0@),
{
    let e2 = e.remove(i);
    let key = e[i].0@;
    assert forall|a: int, b: int| 0 <= a < b < e2.len() implies (#[trigger] e2[a]).0@ != (#[trigger] e2[b]).0@ by {
        let a2 = if a < i { a } else { a + 1 };
        let b2 = if b < i { b } else { b + 1 };
        assert(e2[a] == e[a2]);
        assert(e2[b] == e[b2]);
        assert(e[a2].0@ != e[b2].0@);
    }
    let m1 = assoc_view(e2);
    let m2 = assoc_view(e).remove(key);
    assert forall|k: K::V| m1.contains_key(k) <==> m2.contains_key(k) by {
        if holds_key(e2, k) {
            let j = choose|j: int| 0 <= j < e2.len() && (#[trigger] e2[j]).0@ == k;
            let j2 = if j < i { j } else { j + 1 };
            assert(e[j2].0@ == k);
            assert(j2 != i);
            if k == key {
                if j2 < i {
                    assert(e[j2].0@ != e[i].0@);
                } else {
                    assert(e[i].0@ != e[j2].0@);
                }
            }
        }
        if holds_key(e, k) && k != key {
            let j = choose|j: int| 0 <= j < e.len() && (#[trigger] e[j]).0@ == k;
            assert(j != i);
            let j2 = if j < i { j } else { j - 1 };
            assert(e2[j2] == e[j]);
            assert(e2[j2].0@ == k);
        }
    }
    assert forall|k: K::V| #[trigger] m1.contains_key(k) implies m1[k] == m2[k] by {
        let j = choose|j: int| 0 <= j < e2.len() && (#[trigger] e2[j]).0@ == k;
        lemma_assoc_at(e2, j);
        let j2 = if j < i { j } else { j + 1 };
        assert(e2[j] == e[j2]);
        lemma_assoc_at(e, j2);
    }
    assert(m1 =~= m2);
}

impl<K: KeyOps, V: View> AssocList<K, V> {
    /// No key occurs twice.
    pub open spec fn wf(&self) -> bool {
        unique_keys(self.entries@)
    }

    /// An empty map.
    pub fn new() -> (r: Self)
        ensures
            r.wf(),
            r@ == Map::<K::V, V::V>::empty(),
            r.entries@ == Seq::<(K, V)>::empty(),
    {
        let r = AssocList { entries: Vec::new() };
        assert(r@ =~= Map::<K::V, V::V>::empty());
        r
    }

    /// The position of the entry under `key`.
    pub fn find(&self, key: &K) -> (r: Option<usize>)
        requires
            self.wf(),
        ensures
            r is Some <==> self@.contains_key(key@),
            r matches Some(i) ==> i < self.entries@.len() && self.entries@[i as int].0@ == key@
                && self@[key@] == self.entries@[i as int].1@,
    {
        let n = self.entries.len();
        let mut i: usize = 0;
        while i < n
            invariant
                n == self.entries@.len(),
                i <= n,
                unique_keys(self.entries@),
                forall|j: int| 0 <= j < i ==> (#[trigger] self.entries@[j]).0@ != key@,
            decreases n - i,
        {
            if self.entries[i].0.same_key(key) {
                proof {
                    lemma_assoc_at(self.entries@, i as int);
                }
                return Some(i);
            }
            i = i + 1;
        }
        assert(!holds_key(self.entries@, key@));
        None
    }

    /// The value under `key`, if there is one.
    pub fn get(&self, key: &K) -> (r: Option<&V>)
        requires
            self.wf(),
        ensures
            r is Some <==> self@.contains_key(key@),
            r matches Some(v) ==> v@ == self@[key@] && values_of(self.entries@).contains(*v),
    {
        match self.find(key) {
            Some(i) => {
                assert(values_of(self.entries@)[i as int] == self.entries@[i as int].1);
                Some(&self.entries[i].1)
            },
            None => None,
        }
    }

    /// Whether there is a value under `key`.
    pub fn contains_key(&self, key: &K) -> (r: bool)
        requires
            self.wf(),
        ensures
            r == self@.contains_key(key@),
    {
        self.find(key).is_some()
    }

    /// Puts `value` under `key`.
    pub fn insert(&mut self, key: K, value: V)
        requires
            old(self).wf(),
        ensures
            final(self).wf(),
            final(self)@ == old(self)@.insert(key@, value@),
            forall|x: V| #[trigger] values_of(final(self).entries@).contains(x) ==> x == value || values_of(
                old(self).entries@,
            ).contains(x),
    {
        let ghost v = value;
        match self.find(&key) {
            Some(i) => {
                let ghost before = self.entries@;
                let entry = (key, value);
                proof {
                    lemma_assoc_set(before, i as int, entry);
                }
                self.entries.set(i, entry);
                proof {
                    assert forall|x: V| #[trigger] values_of(self.entries@).contains(x) implies x == v || values_of(before).contains(x) by {
                        let j = choose|j: int| 0 <= j < values_of(self.entries@).len() && values_of(self.entries@)[j] == x;
                        if j != i {
                            assert(values_of(before)[j] == x);
                        }
                    }
                }
            },
            None => {
                let ghost before = self.entries@;
                let entry = (key, value);
                proof {
                    lemma_assoc_push(before, entry);
                }
                self.entries.push(entry);
                proof {
                    assert forall|x: V| #[trigger] values_of(self.entries@).contains(x) implies x == v || values_of(before).contains(x) by {
                        let j = choose|j: int| 0 <= j < values_of(self.entries@).len() && values_of(self.entries@)[j] == x;
                        if j < before.len() {
                            assert(values_of(before)[j] == x);
                        }
                    }
                }
            },
        }
    }

    /// Takes out the value under `key`, and gives it back.
    pub fn remove(&mut self, key: &K) -> (r: Option<V>)
        requires
            old(self).wf(),
        ensures
            final(self).wf(),
            final(self)@ == old(self)@.remove(key@),
            r is Some <==> old(self)@.contains_key(key@),
            r matches Some(v) ==> v@ == old(self)@[key@] && values_of(old(self).entries@).contains(v),
            forall|x: V| #[trigger] values_of(final(self).entries@).contains(x) ==> values_of(old(self).entries@).contains(x),
    {
        match self.find(key) {
            Some(i) => {
                let ghost before = self.entries@;
                proof {
                    lemma_assoc_remove(before, i as int);
                }
                let (_, v) = self.entries.remove(i);
                proof {
                    assert(values_of(before)[i as int] == v);
                    assert forall|x: V| #[trigger] values_of(self.entries@).contains(x) implies values_of(before).contains(x) by {
                        let j = choose|j: int| 0 <= j < values_of(self.entries@).len() && values_of(self.entries@)[j] == x;
                        if j < i {
                            assert(values_of(before)[j] == x);
                        } else {
                            assert(values_of(before)[j + 1] == x);
                        }
                    }
                }
                Some(v)
            },
            None => {
                assert(self@.remove(key@) =~= self@);
                None
            },
        }
    }

    /// The number of entries.
    pub fn len(&self) -> (r: usize)
        requires
            self.wf(),
        ensures
            r == self@.len(),
    {
        proof {
            lemma_assoc_len(self.entries@);
        }
        self.entries.len()
    }
}

/// The map of distinct entries has as many keys as there are entries.
pub proof fn lemma_assoc_len<K: View, V: View>(e: Seq<(K, V)>)
    requires
        unique_keys(e),
    ensures
        assoc_view(e).dom().finite(),
        assoc_view(e).len() == e.len(),
    decreases e.len(),
{
    if e.len() == 0 {
        assert(assoc_view(e) =~= Map::<K::V, V::V>::empty());
    } else {
        let last = e.len() - 1;
        let init = e.remove(last);
        lemma_assoc_remove(e, last);
        lemma_assoc_len(init);
        lemma_assoc_at(e, last);
        assert(assoc_view(e) =~= assoc_view(init).insert(e[last].0@, e[last].1@));
    }
}

} // verus!
