//! The generic ICRC-3 value that blocks are made of, and natural numbers of any size.
use vstd::prelude::*;

verus! {

/// 2^64.
pub open spec fn limb_base() -> nat {
    0x1_0000_0000_0000_0000nat
}

/// The number written by little-endian base-2^64 digits.
pub open spec fn limbs_value(l: Seq<u64>) -> nat
    decreases l.len(),
{
    if l.len() == 0 {
        0
    } else {
        l[0] as nat + limb_base() * limbs_value(l.drop_first())
    }
}

/// A natural number of any size, as little-endian base-2^64 digits.
#[derive(Clone, Debug)]
pub struct Nat {
    pub limbs: Vec<u64>,
}

impl Nat {
    /// The number this stands for.
    pub open spec fn value(&self) -> nat {
        limbs_value(self.limbs@)
    }

    /// The number `x`.
    pub fn from_u64(x: u64) -> (n: Nat)
        ensures
            n.value() == x,
    {
        let mut limbs: Vec<u64> = Vec::new();
        limbs.push(x);
        proof {
            assert(limbs@.drop_first() =~= Seq::<u64>::empty());
            assert(limbs_value(limbs@.drop_first()) == 0);
        }
        Nat { limbs }
    }

    /// A copy of this number.
    pub fn copy(&self) -> (r: Nat)
        ensures
            r.limbs@ == self.limbs@,
    {
        let limbs = self.limbs.clone();
        assert(limbs@ =~= self.limbs@);
        Nat { limbs }
    }

    /// Whether the number is at least `x`.
    pub fn at_least(&self, x: u64) -> (r: bool)
        ensures
            r == (self.value() >= x),
    {
        match self.to_u64() {
            Some(v) => v >= x,
            None => true,
        }
    }

    /// Whether the number is at least `x`, for `x` up to 2^128.
    pub fn at_least_wide(&self, x: u128) -> (r: bool)
        ensures
            r == (self.value() >= x),
    {
        let n = self.limbs.len();
        if n == 0 {
            return x == 0;
        }
        let lo = self.limbs[0];
        let mut rest = self.limbs.clone();
        rest.remove(0);
        let tail = Nat { limbs: rest };
        assert(tail.limbs@ =~= self.limbs@.drop_first());
        let x_hi = (x / 0x1_0000_0000_0000_0000u128) as u64;
        let x_lo = (x % 0x1_0000_0000_0000_0000u128) as u64;
        let ghost v = self.value();
        let ghost t = tail.value();
        assert(v == lo + limb_base() * t);
        assert(x == x_lo + limb_base() * x_hi);
        match tail.to_u64() {
            None => {
                assert(v >= x) by (nonlinear_arith)
                    requires
                        v == lo + limb_base() * t,
                        t >= limb_base(),
                        x == x_lo + limb_base() * x_hi,
                        x_lo < limb_base(),
                        x_hi < limb_base(),
                        limb_base() > 0,
                ;
                true
            },
            Some(h) => {
                if h > x_hi {
                    assert(v >= x) by (nonlinear_arith)
                        requires
                            v == lo + limb_base() * h,
                            x == x_lo + limb_base() * x_hi,
                            h >= x_hi + 1,
                            x_lo < limb_base(),
                    ;
                    true
                } else if h < x_hi {
                    assert(v < x) by (nonlinear_arith)
                        requires
                            v == lo + limb_base() * h,
                            x == x_lo + limb_base() * x_hi,
                            h + 1 <= x_hi,
                            lo < limb_base(),
                    ;
                    false
                } else {
                    lo >= x_lo
                }
            },
        }
    }

    /// Whether the number is above `other`.
    pub fn greater_than(&self, other: &Nat) -> (r: bool)
        ensures
            r == (self.value() > other.value()),
    {
        proof {
            lemma_value_from_start(self.limbs@);
            lemma_value_from_start(other.limbs@);
        }
        order_from(&self.limbs, &other.limbs, 0) == 1
    }

    /// The number as a `u64`, where it fits in one.
    pub fn to_u64(&self) -> (r: Option<u64>)
        ensures
            r is Some <==> self.value() < limb_base(),
            r matches Some(x) ==> x == self.value(),
    {
        let n = self.limbs.len();
        let mut i: usize = 1;
        while i < n
            invariant
                n == self.limbs@.len(),
                1 <= i,
                forall|j: int| 1 <= j < i && j < n ==> self.limbs@[j] == 0,
            decreases n - i,
        {
            if self.limbs[i] != 0 {
                proof {
                    lemma_nonzero_limb(self.limbs@, i as int);
                }
                return None;
            }
            i = i + 1;
        }
        proof {
            lemma_zero_high_limbs(self.limbs@);
        }
        if n == 0 {
            Some(0)
        } else {
            Some(self.limbs[0])
        }
    }
}

/// The digit at position `i`: 0 beyond the last one.
pub open spec fn digit_at(l: Seq<u64>, i: int) -> nat {
    if 0 <= i < l.len() {
        l[i] as nat
    } else {
        0
    }
}

/// The number written by the digits from position `i` on.
pub open spec fn value_from(l: Seq<u64>, i: int) -> nat {
    if 0 <= i < l.len() {
        limbs_value(l.subrange(i, l.len() as int))
    } else {
        0
    }
}

proof fn lemma_value_from_start(l: Seq<u64>)
    ensures
        value_from(l, 0) == limbs_value(l),
{
    if l.len() > 0 {
        assert(l.subrange(0, l.len() as int) =~= l);
    }
}

proof fn lemma_value_from_step(l: Seq<u64>, i: int)
    requires
        0 <= i,
    ensures
        value_from(l, i) == digit_at(l, i) + limb_base() * value_from(l, i + 1),
{
    if i < l.len() {
        let s = l.subrange(i, l.len() as int);
        assert(s.drop_first() =~= l.subrange(i + 1, l.len() as int));
        assert(s[0] == l[i]);
        assert(limbs_value(s) == s[0] as nat + limb_base() * limbs_value(s.drop_first()));
        if i + 1 == l.len() {
            assert(s.drop_first() =~= Seq::<u64>::empty());
            assert(limbs_value(s.drop_first()) == 0);
        }
    }
}

/// How the numbers written by the digits from position `i` on compare: -1, 0 or 1.
fn order_from(a: &Vec<u64>, b: &Vec<u64>, i: usize) -> (r: i8)
    ensures
        r == -1 <==> value_from(a@, i as int) < value_from(b@, i as int),
        r == 0 <==> value_from(a@, i as int) == value_from(b@, i as int),
        r == 1 <==> value_from(a@, i as int) > value_from(b@, i as int),
    decreases a@.len() + b@.len() - i,
{
    if i >= a.len() && i >= b.len() {
        return 0;
    }
    let c = order_from(a, b, i + 1);
    let ghost va = value_from(a@, i + 1);
    let ghost vb = value_from(b@, i + 1);
    proof {
        lemma_value_from_step(a@, i as int);
        lemma_value_from_step(b@, i as int);
    }
    let da: u64 = if i < a.len() { a[i] } else { 0 };
    let db: u64 = if i < b.len() { b[i] } else { 0 };
    assert(da == digit_at(a@, i as int) && db == digit_at(b@, i as int));
    if c != 0 {
        proof {
            if va < vb {
                assert(da + limb_base() * va < db + limb_base() * vb) by (nonlinear_arith)
                    requires
                        va + 1 <= vb,
                        da < limb_base(),
                ;
            } else {
                assert(da + limb_base() * va > db + limb_base() * vb) by (nonlinear_arith)
                    requires
                        vb + 1 <= va,
                        db < limb_base(),
                ;
            }
        }
        return c;
    }
    if da < db {
        -1
    } else if da > db {
        1
    } else {
        0
    }
}

proof fn lemma_all_zero(l: Seq<u64>)
    requires
        forall|j: int| 0 <= j < l.len() ==> l[j] == 0,
    ensures
        limbs_value(l) == 0,
    decreases l.len(),
{
    if l.len() > 0 {
        lemma_all_zero(l.drop_first());
    }
}

proof fn lemma_zero_high_limbs(l: Seq<u64>)
    requires
        forall|j: int| 1 <= j < l.len() ==> l[j] == 0,
    ensures
        limbs_value(l) == (if l.len() == 0 { 0 } else { l[0] as nat }),
        limbs_value(l) < limb_base(),
{
    if l.len() > 0 {
        lemma_all_zero(l.drop_first());
    }
}

proof fn lemma_positive_somewhere(l: Seq<u64>, i: int)
    requires
        0 <= i < l.len(),
        l[i] != 0,
    ensures
        limbs_value(l) >= 1,
    decreases l.len(),
{
    if i > 0 {
        lemma_positive_somewhere(l.drop_first(), i - 1);
        assert(limb_base() * limbs_value(l.drop_first()) >= 1) by (nonlinear_arith)
            requires
                limbs_value(l.drop_first()) >= 1,
                limb_base() >= 1,
        ;
    }
}

proof fn lemma_nonzero_limb(l: Seq<u64>, i: int)
    requires
        1 <= i < l.len(),
        l[i] != 0,
    ensures
        limbs_value(l) >= limb_base(),
{
    lemma_positive_somewhere(l.drop_first(), i - 1);
    assert(limb_base() * limbs_value(l.drop_first()) >= limb_base()) by (nonlinear_arith)
        requires
            limbs_value(l.drop_first()) >= 1,
    ;
}

/// A signed integer of any size.
#[derive(Clone, Debug)]
pub struct Int {
    pub negative: bool,
    pub magnitude: Nat,
}

/// The generic value of an ICRC-3 block.
#[derive(Debug)]
pub enum Value {
    Blob(Vec<u8>),
    Text(String),
    Nat(Nat),
    Int(Int),
    Array(Vec<Value>),
    Dict(Vec<(String, Value)>),
}

/// What a value is: the same shape, with texts, bytes and numbers as their mathematical values.
pub ghost enum ValueView {
    Blob(Seq<u8>),
    Text(Seq<char>),
    Nat(nat),
    Int(int),
    Array(Seq<ValueView>),
    Dict(Seq<(Seq<char>, ValueView)>),
}

/// The number an `Int` stands for.
pub open spec fn int_value(i: Int) -> int {
    if i.negative {
        -(i.magnitude.value() as int)
    } else {
        i.magnitude.value() as int
    }
}

/// The view of a value.
pub open spec fn value_view(v: Value) -> ValueView
    decreases v,
{
    match v {
        Value::Blob(b) => ValueView::Blob(b@),
        Value::Text(t) => ValueView::Text(t@),
        Value::Nat(n) => ValueView::Nat(n.value()),
        Value::Int(i) => ValueView::Int(int_value(i)),
        Value::Array(a) => ValueView::Array(values_view(a@)),
        Value::Dict(d) => ValueView::Dict(entries_view(d@)),
    }
}

/// The views of a list of values.
pub open spec fn values_view(a: Seq<Value>) -> Seq<ValueView>
    decreases a,
{
    if a.len() == 0 {
        Seq::empty()
    } else {
        values_view(a.subrange(0, a.len() - 1)).push(value_view(a[a.len() - 1]))
    }
}

/// The views of dictionary entries.
pub open spec fn entries_view(d: Seq<(String, Value)>) -> Seq<(Seq<char>, ValueView)>
    decreases d,
{
    if d.len() == 0 {
        Seq::empty()
    } else {
        entries_view(d.subrange(0, d.len() - 1)).push((d[d.len() - 1].0@, value_view(d[d.len() - 1].1)))
    }
}

/// The views of a list of values, element by element.
pub proof fn lemma_values_view(a: Seq<Value>)
    ensures
        values_view(a).len() == a.len(),
        forall|k: int| 0 <= k < a.len() ==> #[trigger] values_view(a)[k] == value_view(a[k]),
    decreases a.len(),
{
    if a.len() > 0 {
        let init = a.subrange(0, a.len() - 1);
        lemma_values_view(init);
        assert forall|k: int| 0 <= k < a.len() implies #[trigger] values_view(a)[k] == value_view(a[k]) by {
            if k < a.len() - 1 {
                assert(init[k] == a[k]);
            }
        }
    }
}

/// The views of dictionary entries, entry by entry.
pub proof fn lemma_entries_view(d: Seq<(String, Value)>)
    ensures
        entries_view(d).len() == d.len(),
        forall|k: int| 0 <= k < d.len() ==> #[trigger] entries_view(d)[k] == (d[k].0@, value_view(d[k].1)),
    decreases d.len(),
{
    if d.len() > 0 {
        let init = d.subrange(0, d.len() - 1);
        lemma_entries_view(init);
        assert forall|k: int| 0 <= k < d.len() implies #[trigger] entries_view(d)[k] == (d[k].0@, value_view(d[k].1)) by {
            if k < d.len() - 1 {
                assert(init[k] == d[k]);
            }
        }
    }
}

impl View for Value {
    type V = ValueView;

    open spec fn view(&self) -> ValueView {
        value_view(*self)
    }
}

/// A copy of a value.
pub fn copy_value(v: &Value) -> (r: Value)
    ensures
        r@ == v@,
    decreases v,
{
    match v {
        Value::Blob(b) => Value::Blob(crate::account::copy_bytes(b)),
        Value::Text(t) => Value::Text(t.clone()),
        Value::Nat(n) => Value::Nat(n.copy()),
        Value::Int(i) => Value::Int(Int { negative: i.negative, magnitude: i.magnitude.copy() }),
        Value::Array(a) => {
            let out = copy_values(a);
            let r = Value::Array(out);
            proof {
                lemma_values_view(out@);
                lemma_values_view(a@);
                assert(values_view(out@) =~= values_view(a@));
            }
            r
        },
        Value::Dict(d) => {
            let out = copy_entries(d);
            Value::Dict(out)
        },
    }
}

/// A copy of a list of values.
pub fn copy_values(a: &Vec<Value>) -> (r: Vec<Value>)
    ensures
        r@.len() == a@.len(),
        forall|j: int| 0 <= j < a@.len() ==> (#[trigger] r@[j])@ == a@[j]@,
    decreases a,
{
    let mut out: Vec<Value> = Vec::new();
    let mut k: usize = 0;
    while k < a.len()
        invariant
            k <= a@.len(),
            out@.len() == k,
            forall|j: int| 0 <= j < k ==> (#[trigger] out@[j])@ == a@[j]@,
        decreases a@.len() - k,
    {
        proof {
            vstd::std_specs::vec::axiom_vec_index_decreases(*a, k as int);
        }
        let c = copy_value(&a[k]);
        out.push(c);
        k = k + 1;
    }
    out
}

/// A copy of dictionary entries.
pub fn copy_entries(d: &Vec<(String, Value)>) -> (r: Vec<(String, Value)>)
    ensures
        r@.len() == d@.len(),
        forall|j: int| 0 <= j < d@.len() ==> (#[trigger] r@[j]).0@ == d@[j].0@ && r@[j].1@ == d@[j].1@,
        entries_view(r@) == entries_view(d@),
    decreases d,
{
    let mut out: Vec<(String, Value)> = Vec::new();
    let mut k: usize = 0;
    while k < d.len()
        invariant
            k <= d@.len(),
            out@.len() == k,
            forall|j: int| 0 <= j < k ==> (#[trigger] out@[j]).0@ == d@[j].0@ && out@[j].1@ == d@[j].1@,
        decreases d@.len() - k,
    {
        proof {
            vstd::std_specs::vec::axiom_vec_index_decreases(*d, k as int);
        }
        let key = d[k].0.clone();
        let c = copy_value(&d[k].1);
        out.push((key, c));
        k = k + 1;
    }
    proof {
        lemma_entries_view(out@);
        lemma_entries_view(d@);
        assert(entries_view(out@) =~= entries_view(d@));
    }
    out
}

/// The value that `key` maps to: the first entry under it.
pub open spec fn lookup(entries: Seq<(String, Value)>, key: Seq<char>) -> Option<Value>
    decreases entries.len(),
{
    if entries.len() == 0 {
        None
    } else if entries[0].0@ == key {
        Some(entries[0].1)
    } else {
        lookup(entries.drop_first(), key)
    }
}

/// The position of the first entry under `key`.
pub fn find_key(entries: &Vec<(String, Value)>, key: &str) -> (r: Option<usize>)
    ensures
        r is None <==> lookup(entries@, key@) is None,
        r matches Some(i) ==> i < entries@.len() && lookup(entries@, key@) == Some(entries@[i as int].1),
{
    let wanted = String::from_str(key);
    let n = entries.len();
    let mut i: usize = 0;
    assert(entries@.subrange(0, n as int) =~= entries@);
    while i < n
        invariant
            n == entries@.len(),
            i <= n,
            wanted@ == key@,
            lookup(entries@, key@) == lookup(entries@.subrange(i as int, n as int), key@),
        decreases n - i,
    {
        let ghost rest = entries@.subrange(i as int, n as int);
        if entries[i].0 == wanted {
            return Some(i);
        }
        proof {
            assert(rest.drop_first() =~= entries@.subrange(i + 1, n as int));
        }
        i = i + 1;
    }
    proof {
        assert(entries@.subrange(n as int, n as int) =~= Seq::<(String, Value)>::empty());
    }
    None
}

} // verus!
