//! Finite maps kept as vectors of entries in ascending key order, the order in which a
//! `BTreeMap` lists them.
use vstd::prelude::*;

use crate::assoc::{assoc_view, holds_key, lemma_assoc_at, unique_keys, values_of};

verus! {

/// Keys with a strict total order on their views.
pub trait OrderedKey: View + Sized {
    /// `a` comes before `b`.
    spec fn precedes(a: Self::V, b: Self::V) -> bool;

    proof fn lemma_irreflexive(a: Self::V)
        ensures
            !Self::precedes(a, a),
    ;

    proof fn lemma_transitive(a: Self::V, b: Self::V, c: Self::V)
        requires
            Self::precedes(a, b),
            Self::precedes(b, c),
        ensures
            Self::precedes(a, c),
    ;

    proof fn lemma_total(a: Self::V, b: Self::V)
        ensures
            a == b || Self::precedes(a, b) || Self::precedes(b, a),
    ;

    /// Whether `self` comes before `other`.
    fn before(&self, other: &Self) -> (r: bool)
        ensures
            r == Self::precedes(self@, other@),
    ;

    /// A copy of the key.
    fn duplicate(&self) -> (r: Self)
        ensures
            r@ == self@,
    ;
}

impl OrderedKey for u64 {
    open spec fn precedes(a: u64, b: u64) -> bool {
        a < b
    }

    proof fn lemma_irreflexive(a: u64) {
    }

    proof fn lemma_transitive(a: u64, b: u64, c: u64) {
    }

    proof fn lemma_total(a: u64, b: u64) {
    }

    fn before(&self, other: &Self) -> (r: bool) {
        *self < *other
    }

    fn duplicate(&self) -> (r: Self) {
        *self
    }
}

/// The order of texts that `String` has: character by character, a proper prefix first.
pub open spec fn text_lt(a: Seq<char>, b: Seq<char>) -> bool
    decreases a.len(),
{
    if a.len() == 0 {
        b.len() > 0
    } else if b.len() == 0 {
        false
    } else if (a[0] as int) < (b[0] as int) {
        true
    } else if a[0] == b[0] {
        text_lt(a.drop_first(), b.drop_first())
    } else {
        false
    }
}

proof fn lemma_text_irreflexive(a: Seq<char>)
    ensures
        !text_lt(a, a),
    decreases a.len(),
{
    if a.len() > 0 {
        lemma_text_irreflexive(a.drop_first());
    }
}

proof fn lemma_text_transitive(a: Seq<char>, b: Seq<char>, c: Seq<char>)
    requires
        text_lt(a, b),
        text_lt(b, c),
    ensures
        text_lt(a, c),
    decreases a.len(),
{
    if a.len() > 0 && a[0] == b[0] && b[0] == c[0] {
        lemma_text_transitive(a.drop_first(), b.drop_first(), c.drop_first());
    }
}

proof fn lemma_text_total(a: Seq<char>, b: Seq<char>)
    ensures
        a == b || text_lt(a, b) || text_lt(b, a),
    decreases a.len(),
{
    if a.len() > 0 && b.len() > 0 && a[0] == b[0] {
        lemma_text_total(a.drop_first(), b.drop_first());
        if a.drop_first() == b.drop_first() {
            assert(a =~= seq![a[0]] + a.drop_first());
            assert(b =~= seq![b[0]] + b.drop_first());
        }
    } else if a.len() == 0 && b.len() == 0 {
        assert(a =~= b);
    } else if a.len() > 0 && b.len() > 0 {
        assert((a[0] as int) != (b[0] as int));
    }
}

/// Whether `a` comes before `b` in the order of texts.
pub fn text_before(a: &str, b: &str) -> (r: bool)
    ensures
        r == text_lt(a@, b@),
{
    let na = a.unicode_len();
    let nb = b.unicode_len();
    let mut i: usize = 0;
    assert(a@.subrange(0, na as int) =~= a@);
    assert(b@.subrange(0, nb as int) =~= b@);
    loop
        invariant
            na == a@.len(),
            nb == b@.len(),
            i <= na,
            i <= nb,
            text_lt(a@, b@) == text_lt(a@.subrange(i as int, na as int), b@.subrange(i as int, nb as int)),
        decreases na - i,
    {
        let ghost sa = a@.subrange(i as int, na as int);
        let ghost sb = b@.subrange(i as int, nb as int);
        if i == na {
            return i < nb;
        }
        if i == nb {
            return false;
        }
        let ca = a.get_char(i);
        let cb = b.get_char(i);
        assert(sa[0] == ca && sb[0] == cb);
        if ca < cb {
            return true;
        }
        if ca != cb {
            return false;
        }
        assert(sa.drop_first() =~= a@.subrange(i + 1, na as int));
        assert(sb.drop_first() =~= b@.subrange(i + 1, nb as int));
        i = i + 1;
    }
}

/// Two texts that agree on their first `n` characters and differ at the next are ordered by it.
pub proof fn lemma_text_lt_at(a: Seq<char>, b: Seq<char>, n: int)
    requires
        0 <= n < a.len(),
        n < b.len(),
        a.subrange(0, n) == b.subrange(0, n),
        (a[n] as int) < (b[n] as int),
    ensures
        text_lt(a, b),
    decreases n,
{
    if n > 0 {
        assert(a[0] == a.subrange(0, n)[0]);
        assert(b[0] == b.subrange(0, n)[0]);
        assert(a.drop_first().subrange(0, n - 1) =~= a.subrange(0, n).drop_first());
        assert(b.drop_first().subrange(0, n - 1) =~= b.subrange(0, n).drop_first());
        lemma_text_lt_at(a.drop_first(), b.drop_first(), n - 1);
    }
}

/// The keys of a list of entries ascend strictly.
pub open spec fn keys_ascending<V>(s: Seq<(Seq<char>, V)>) -> bool {
    forall|i: int, j: int| 0 <= i < j < s.len() ==> text_lt((#[trigger] s[i]).0, (#[trigger] s[j]).0)
}

/// Every key of a list of entries comes before `k`.
pub open spec fn keys_before<V>(s: Seq<(Seq<char>, V)>, k: Seq<char>) -> bool {
    forall|i: int| 0 <= i < s.len() ==> text_lt((#[trigger] s[i]).0, k)
}

/// At most one entry, and its key is `k`.
pub open spec fn at_most_one_under<V>(t: Seq<(Seq<char>, V)>, k: Seq<char>) -> bool {
    &&& t.len() <= 1
    &&& forall|i: int| 0 <= i < t.len() ==> (#[trigger] t[i]).0 == k
}

/// Appending at most one entry under a key after all the others keeps the keys ascending.
pub proof fn lemma_append_greatest_key<V>(s: Seq<(Seq<char>, V)>, t: Seq<(Seq<char>, V)>, k: Seq<char>)
    requires
        keys_ascending(s),
        keys_before(s, k),
        at_most_one_under(t, k),
    ensures
        keys_ascending(s + t),
{
    let u = s + t;
    assert forall|i: int, j: int| 0 <= i < j < u.len() implies text_lt((#[trigger] u[i]).0, (#[trigger] u[j]).0) by {
        if j < s.len() {
            assert(u[i] == s[i] && u[j] == s[j]);
        } else {
            assert(u[j] == t[j - s.len()]);
            assert(u[i] == s[i]);
        }
    }
}

/// Appending at most one entry under `k`, where `k` comes before `next`, keeps the keys
/// ascending and all before `next`.
pub proof fn lemma_append_key_before<V>(s: Seq<(Seq<char>, V)>, t: Seq<(Seq<char>, V)>, k: Seq<char>, next: Seq<char>)
    requires
        keys_ascending(s),
        keys_before(s, k),
        at_most_one_under(t, k),
        text_lt(k, next),
    ensures
        keys_ascending(s + t),
        keys_before(s + t, next),
{
    lemma_append_greatest_key(s, t, k);
    let u = s + t;
    assert forall|i: int| 0 <= i < u.len() implies text_lt((#[trigger] u[i]).0, next) by {
        if i < s.len() {
            assert(u[i] == s[i]);
            lemma_text_transitive(s[i].0, k, next);
        } else {
            assert(u[i] == t[i - s.len()]);
        }
    }
}

impl OrderedKey for String {
    open spec fn precedes(a: Seq<char>, b: Seq<char>) -> bool {
        text_lt(a, b)
    }

    proof fn lemma_irreflexive(a: Seq<char>) {
        lemma_text_irreflexive(a);
    }

    proof fn lemma_transitive(a: Seq<char>, b: Seq<char>, c: Seq<char>) {
        lemma_text_transitive(a, b, c);
    }

    proof fn lemma_total(a: Seq<char>, b: Seq<char>) {
        lemma_text_total(a, b);
    }

    fn before(&self, other: &Self) -> (r: bool) {
        text_before(self.as_str(), other.as_str())
    }

    fn duplicate(&self) -> (r: Self) {
        self.clone()
    }
}

/// The keys of the entries ascend.
pub open spec fn ascending_keys<K: OrderedKey, V>(e: Seq<(K, V)>) -> bool {
    forall|i: int, j: int| 0 <= i < j < e.len() ==> K::precedes((#[trigger] e[i]).0@, (#[trigger] e[j]).0@)
}

/// The views of the entries, in order.
pub open spec fn pairs_view<K: View, V: View>(e: Seq<(K, V)>) -> Seq<(K::V, V::V)> {
    e.map_values(|x: (K, V)| (x.0@, x.1@))
}

/// `s` lists the map `m` in ascending key order: each entry once.
pub open spec fn lists_in_order<K: OrderedKey, W>(m: Map<K::V, W>, s: Seq<(K::V, W)>) -> bool {
    &&& forall|i: int, j: int| 0 <= i < j < s.len() ==> K::precedes((#[trigger] s[i]).0, (#[trigger] s[j]).0)
    &&& forall|i: int| 0 <= i < s.len() ==> m.contains_key((#[trigger] s[i]).0) && m[s[i].0] == s[i].1
    &&& forall|k: K::V| m.contains_key(k) ==> exists|i: int| 0 <= i < s.len() && (#[trigger] s[i]).0 == k
}

/// A finite map kept as entries in ascending key order.
pub struct SortedMap<K, V> {
    pub entries: Vec<(K, V)>,
}

impl<K: View, V: View> View for SortedMap<K, V> {
    type V = Map<K::V, V::V>;

    open spec fn view(&self) -> Map<K::V, V::V> {
        assoc_view(self.entries@)
    }
}

/// Ascending keys are distinct keys.
pub proof fn lemma_ascending_unique<K: OrderedKey, V>(e: Seq<(K, V)>)
    requires
        ascending_keys(e),
    ensures
        unique_keys(e),
{
    assert forall|i: int, j: int| 0 <= i < j < e.len() implies (#[trigger] e[i]).0@ != (#[trigger] e[j]).0@ by {
        K::lemma_irreflexive(e[i].0@);
    }
}

impl<K: OrderedKey, V: View> SortedMap<K, V> {
    /// The keys ascend.
    pub open spec fn wf(&self) -> bool {
        ascending_keys(self.entries@)
    }

    /// An empty map.
    pub fn new() -> (r: Self)
        ensures
            r.wf(),
            r@ == Map::<K::V, V::V>::empty(),
            r.entries@ == Seq::<(K, V)>::empty(),
    {
        let r = SortedMap { entries: Vec::new() };
        assert(r@ =~= Map::<K::V, V::V>::empty());
        r
    }

    /// The entries list the map in ascending key order.
    pub proof fn lemma_lists(&self)
        requires
            self.wf(),
        ensures
            lists_in_order::<K, V::V>(self@, pairs_view(self.entries@)),
    {
        let e = self.entries@;
        lemma_ascending_unique(e);
        assert forall|i: int| 0 <= i < pairs_view(e).len() implies self@.contains_key((#[trigger] pairs_view(e)[i]).0)
            && self@[pairs_view(e)[i].0] == pairs_view(e)[i].1 by {
            lemma_assoc_at(e, i);
        }
        assert forall|k: K::V| self@.contains_key(k) implies exists|i: int| 0 <= i < pairs_view(e).len() && (#[trigger] pairs_view(e)[i]).0 == k by {
            let i = choose|i: int| 0 <= i < e.len() && (#[trigger] e[i]).0@ == k;
            assert(pairs_view(e)[i].0 == k);
        }
    }

    /// The number of entries whose key comes before `key`, and whether the next entry has it.
    fn locate(&self, key: &K) -> (r: (usize, bool))
        requires
            self.wf(),
        ensures
            r.0 <= self.entries@.len(),
            forall|i: int| 0 <= i < r.0 ==> K::precedes((#[trigger] self.entries@[i]).0@, key@),
            forall|i: int| r.0 <= i < self.entries@.len() ==> !K::precedes((#[trigger] self.entries@[i]).0@, key@),
            r.1 == (r.0 < self.entries@.len() && self.entries@[r.0 as int].0@ == key@),
            r.1 == self@.contains_key(key@),
            r.1 ==> self@[key@] == self.entries@[r.0 as int].1@,
    {
        let n = self.entries.len();
        let mut i: usize = 0;
        while i < n && self.entries[i].0.before(key)
            invariant
                n == self.entries@.len(),
                i <= n,
                self.wf(),
                forall|j: int| 0 <= j < i ==> K::precedes((#[trigger] self.entries@[j]).0@, key@),
            decreases n - i,
        {
            i = i + 1;
        }
        proof {
            let e = self.entries@;
            lemma_ascending_unique(e);
            assert forall|j: int| i <= j < e.len() implies !K::precedes((#[trigger] e[j]).0@, key@) by {
                if j > i && K::precedes(e[j].0@, key@) {
                    K::lemma_transitive(e[i as int].0@, e[j].0@, key@);
                }
            }
            if i < n {
                lemma_assoc_at(e, i as int);
            }
            if holds_key(e, key@) {
                let j = choose|j: int| 0 <= j < e.len() && (#[trigger] e[j]).0@ == key@;
                K::lemma_irreflexive(key@);
                if j > i {
                    K::lemma_total(e[i as int].0@, key@);
                    assert(K::precedes(e[i as int].0@, e[j].0@));
                }
            }
        }
        let found = i < n && !key.before(&self.entries[i].0);
        proof {
            if i < n {
                K::lemma_total(self.entries@[i as int].0@, key@);
            }
        }
        (i, found)
    }

    /// The value under `key`, if there is one.
    pub fn get(&self, key: &K) -> (r: Option<&V>)
        requires
            self.wf(),
        ensures
            r is Some <==> self@.contains_key(key@),
            r matches Some(v) ==> v@ == self@[key@] && values_of(self.entries@).contains(*v),
    {
        let (i, found) = self.locate(key);
        if found {
            assert(values_of(self.entries@)[i as int] == self.entries@[i as int].1);
            Some(&self.entries[i].1)
        } else {
            None
        }
    }

    /// Puts `value` under `key` and hands back the value it replaces, if any.
    pub fn insert(&mut self, key: K, value: V) -> (r: Option<V>)
        requires
            old(self).wf(),
        ensures
            final(self).wf(),
            final(self)@ == old(self)@.insert(key@, value@),
            r is Some <==> old(self)@.contains_key(key@),
            r matches Some(v) ==> v@ == old(self)@[key@],
            forall|x: V| #[trigger] values_of(final(self).entries@).contains(x) ==> values_of(old(self).entries@).contains(x) || x == value,
    {
        let ghost before = self.entries@;
        let ghost k = key@;
        let (i, found) = self.locate(&key);
        let ghost v_in = value;
        if found {
            let (_, old_value) = self.entries.remove(i);
            self.entries.insert(i, (key, value));
            proof {
                let e = self.entries@;
                assert(e =~= before.update(i as int, e[i as int]));
                assert forall|a: int, b: int| 0 <= a < b < e.len() implies K::precedes((#[trigger] e[a]).0@, (#[trigger] e[b]).0@) by {
                    assert(e[a].0@ == before[a].0@);
                    assert(e[b].0@ == before[b].0@);
                }
                lemma_ascending_unique(e);
                lemma_ascending_unique(before);
                lemma_update_view(before, e, i as int);
                assert forall|x: V| #[trigger] values_of(e).contains(x) implies values_of(before).contains(x) || x == v_in by {
                    let j = choose|j: int| 0 <= j < values_of(e).len() && values_of(e)[j] == x;
                    if j != i {
                        assert(values_of(before)[j] == x);
                    }
                }
            }
            Some(old_value)
        } else {
            self.entries.insert(i, (key, value));
            proof {
                let e = self.entries@;
                assert forall|a: int, b: int| 0 <= a < b < e.len() implies K::precedes((#[trigger] e[a]).0@, (#[trigger] e[b]).0@) by {
                    if b < i {
                        assert(e[a] == before[a] && e[b] == before[b]);
                    } else if b == i {
                        assert(e[a] == before[a]);
                    } else if a == i {
                        assert(e[b] == before[b - 1]);
                        K::lemma_total(before[b - 1].0@, k);
                        if b - 1 > i {
                            K::lemma_total(before[i as int].0@, k);
                            if K::precedes(before[i as int].0@, k) {
                            } else if before[i as int].0@ == k {
                            } else {
                                K::lemma_transitive(k, before[i as int].0@, before[b - 1].0@);
                            }
                        }
                    } else if a < i {
                        assert(e[a] == before[a] && e[b] == before[b - 1]);
                    } else {
                        assert(e[a] == before[a - 1] && e[b] == before[b - 1]);
                    }
                }
                lemma_ascending_unique(e);
                lemma_ascending_unique(before);
                lemma_insert_view(before, e, i as int);
                assert forall|x: V| #[trigger] values_of(e).contains(x) implies values_of(before).contains(x) || x == v_in by {
                    let j = choose|j: int| 0 <= j < values_of(e).len() && values_of(e)[j] == x;
                    if j < i {
                        assert(values_of(before)[j] == x);
                    } else if j > i {
                        assert(values_of(before)[j - 1] == x);
                    }
                }
            }
            None
        }
    }

    /// Takes out the entry under `key`, if there is one, and hands back its value.
    pub fn remove(&mut self, key: &K) -> (r: Option<V>)
        requires
            old(self).wf(),
        ensures
            final(self).wf(),
            final(self)@ == old(self)@.remove(key@),
            r is Some <==> old(self)@.contains_key(key@),
            r matches Some(v) ==> v@ == old(self)@[key@] && values_of(old(self).entries@).contains(v),
            forall|x: V| #[trigger] values_of(final(self).entries@).contains(x) ==> values_of(old(self).entries@).contains(x),
    {
        let ghost before = self.entries@;
        let (i, found) = self.locate(key);
        if found {
            let (_, old_value) = self.entries.remove(i);
            proof {
                let e = self.entries@;
                assert forall|a: int, b: int| 0 <= a < b < e.len() implies K::precedes((#[trigger] e[a]).0@, (#[trigger] e[b]).0@) by {
                    if b < i {
                        assert(e[a] == before[a] && e[b] == before[b]);
                    } else if a < i {
                        assert(e[a] == before[a] && e[b] == before[b + 1]);
                    } else {
                        assert(e[a] == before[a + 1] && e[b] == before[b + 1]);
                    }
                }
                lemma_ascending_unique(e);
                lemma_ascending_unique(before);
                lemma_remove_view(before, e, i as int);
                assert(values_of(before)[i as int] == old_value);
                assert forall|x: V| #[trigger] values_of(e).contains(x) implies values_of(before).contains(x) by {
                    let j = choose|j: int| 0 <= j < values_of(e).len() && values_of(e)[j] == x;
                    if j < i {
                        assert(values_of(before)[j] == x);
                    } else {
                        assert(values_of(before)[j + 1] == x);
                    }
                }
            }
            Some(old_value)
        } else {
            proof {
                assert(self@ =~= before_view::<K, V>(before).remove(key@));
            }
            None
        }
    }

    /// The number of entries.
    pub fn len(&self) -> (r: usize)
        requires
            self.wf(),
        ensures
            r == self@.len(),
    {
        proof {
            lemma_ascending_unique(self.entries@);
            crate::assoc::lemma_assoc_len(self.entries@);
        }
        self.entries.len()
    }
}

/// The map of some entries.
pub open spec fn before_view<K: View, V: View>(e: Seq<(K, V)>) -> Map<K::V, V::V> {
    assoc_view(e)
}

proof fn lemma_update_view<K: View, V: View>(before: Seq<(K, V)>, after: Seq<(K, V)>, i: int)
    requires
        unique_keys(before),
        unique_keys(after),
        0 <= i < before.len(),
        after.len() == before.len(),
        after[i].0@ == before[i].0@,
        forall|j: int| 0 <= j < before.len() && j != i ==> after[j] == before[j],
    ensures
        assoc_view(after) == assoc_view(before).insert(after[i].0@, after[i].1@),
{
    let m = assoc_view(before).insert(after[i].0@, after[i].1@);
    assert forall|k: K::V| #[trigger] assoc_view(after).contains_key(k) <==> m.contains_key(k) by {
        if holds_key(before, k) {
            let j = choose|j: int| 0 <= j < before.len() && (#[trigger] before[j]).0@ == k;
            assert(after[j].0@ == k);
        }
        if holds_key(after, k) {
            let j = choose|j: int| 0 <= j < after.len() && (#[trigger] after[j]).0@ == k;
            assert(before[j].0@ == k);
        }
    }
    assert forall|k: K::V| #[trigger] assoc_view(after).contains_key(k) implies assoc_view(after)[k] == m[k] by {
        let j = choose|j: int| 0 <= j < after.len() && (#[trigger] after[j]).0@ == k;
        lemma_assoc_at(after, j);
        if j != i {
            lemma_assoc_at(before, j);
        }
    }
    assert(assoc_view(after) =~= m);
}

pub proof fn lemma_insert_view<K: View, V: View>(before: Seq<(K, V)>, after: Seq<(K, V)>, i: int)
    requires
        unique_keys(before),
        unique_keys(after),
        0 <= i <= before.len(),
        after == before.insert(i, after[i]),
    ensures
        assoc_view(after) == assoc_view(before).insert(after[i].0@, after[i].1@),
{
    let m = assoc_view(before).insert(after[i].0@, after[i].1@);
    assert forall|k: K::V| #[trigger] assoc_view(after).contains_key(k) <==> m.contains_key(k) by {
        if holds_key(before, k) {
            let j = choose|j: int| 0 <= j < before.len() && (#[trigger] before[j]).0@ == k;
            if j < i {
                assert(after[j] == before[j]);
            } else {
                assert(after[j + 1] == before[j]);
            }
        }
        if holds_key(after, k) {
            let j = choose|j: int| 0 <= j < after.len() && (#[trigger] after[j]).0@ == k;
            if j < i {
                assert(before[j] == after[j]);
            } else if j > i {
                assert(before[j - 1] == after[j]);
            }
        }
    }
    assert forall|k: K::V| #[trigger] assoc_view(after).contains_key(k) implies assoc_view(after)[k] == m[k] by {
        let j = choose|j: int| 0 <= j < after.len() && (#[trigger] after[j]).0@ == k;
        lemma_assoc_at(after, j);
        if j < i {
            assert(before[j] == after[j]);
            lemma_assoc_at(before, j);
        } else if j > i {
            assert(before[j - 1] == after[j]);
            lemma_assoc_at(before, j - 1);
        }
    }
    assert(assoc_view(after) =~= m);
}

proof fn lemma_remove_view<K: View, V: View>(before: Seq<(K, V)>, after: Seq<(K, V)>, i: int)
    requires
        unique_keys(before),
        unique_keys(after),
        0 <= i < before.len(),
        after == before.remove(i),
    ensures
        assoc_view(after) == assoc_view(before).remove(before[i].0@),
{
    let m = assoc_view(before).remove(before[i].0@);
    assert forall|k: K::V| #[trigger] assoc_view(after).contains_key(k) <==> m.contains_key(k) by {
        if holds_key(before, k) && k != before[i].0@ {
            let j = choose|j: int| 0 <= j < before.len() && (#[trigger] before[j]).0@ == k;
            if j < i {
                assert(after[j] == before[j]);
            } else {
                assert(after[j - 1] == before[j]);
            }
        }
        if holds_key(after, k) {
            let j = choose|j: int| 0 <= j < after.len() && (#[trigger] after[j]).0@ == k;
            if j < i {
                assert(before[j] == after[j]);
            } else {
                assert(before[j + 1] == after[j]);
            }
        }
    }
    assert forall|k: K::V| #[trigger] assoc_view(after).contains_key(k) implies assoc_view(after)[k] == m[k] by {
        let j = choose|j: int| 0 <= j < after.len() && (#[trigger] after[j]).0@ == k;
        lemma_assoc_at(after, j);
        if j < i {
            assert(before[j] == after[j]);
            lemma_assoc_at(before, j);
        } else {
            assert(before[j + 1] == after[j]);
            lemma_assoc_at(before, j + 1);
        }
    }
    assert(assoc_view(after) =~= m);
}

} // verus!
