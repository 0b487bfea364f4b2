//! The ICRC-7 queries over the ledger: owners, balances and pages of token ids.
use vstd::prelude::*;

use crate::account::{copy_account, same_account, Account, AccountView};
use crate::assoc::lemma_assoc_at;
use crate::collection::CollectionConfig;
use crate::index::{ascending, id_leq, sort_ids_ascending};
use crate::ledger::{opt_account, owner_in, Ledger, LedgerView};
use crate::value::Nat;

verus! {

/// The fallback values of the query settings, used where the collection sets none.
pub struct QueryDefaults {
    /// The most ids or accounts one query may name.
    pub max_query_batch_size: usize,
    /// How many ids a page holds where the caller asks for no number.
    pub take_value: usize,
    /// The most ids a caller may ask one page for.
    pub max_take_value: u64,
}

/// The most ids or accounts one query may name: the setting where there is one and it fits a
/// `usize`, else the default.
pub open spec fn query_batch_limit(c: CollectionConfig, d: QueryDefaults) -> nat {
    match c.max_query_batch_size {
        Some(n) => if n.value() <= usize::MAX {
            n.value()
        } else {
            d.max_query_batch_size as nat
        },
        None => d.max_query_batch_size as nat,
    }
}

/// A page size the caller may ask for: none at all, or one within the limit.
pub open spec fn take_within_limit(c: CollectionConfig, d: QueryDefaults, take: Option<Nat>) -> bool {
    match take {
        Some(t) => t.value() <= match c.max_take_value {
            Some(m) => m.value(),
            None => d.max_take_value as nat,
        },
        None => true,
    }
}

/// How many ids a page holds: the number asked for, else the collection's default, else the
/// fallback; the fallback too where the number does not fit a `usize`.
pub open spec fn page_size(c: CollectionConfig, d: QueryDefaults, take: Option<Nat>) -> nat {
    let t = match take {
        Some(t) => t.value(),
        None => match c.default_take_value {
            Some(v) => v.value(),
            None => d.take_value as nat,
        },
    };
    if t <= usize::MAX {
        t
    } else {
        d.take_value as nat
    }
}

/// Whether a query naming `len` ids or accounts is within the batch limit.
pub fn query_batch_allowed(len: usize, config: &CollectionConfig, defaults: &QueryDefaults) -> (r: bool)
    ensures
        r == (len <= query_batch_limit(*config, *defaults)),
{
    let limit = match &config.max_query_batch_size {
        Some(n) => usize_or(n, defaults.max_query_batch_size),
        None => defaults.max_query_batch_size,
    };
    len <= limit
}

/// Whether a requested page size is within the limit.
pub fn take_allowed(take: &Option<Nat>, config: &CollectionConfig, defaults: &QueryDefaults) -> (r: bool)
    ensures
        r == take_within_limit(*config, *defaults, *take),
{
    match take {
        Some(t) => match &config.max_take_value {
            Some(m) => !t.greater_than(m),
            None => match t.to_u64() {
                Some(v) => v <= defaults.max_take_value,
                None => false,
            },
        },
        None => true,
    }
}

/// The number as a `usize` where it fits in one, else `fallback`.
fn usize_or(n: &Nat, fallback: usize) -> (r: usize)
    ensures
        r == (if n.value() <= usize::MAX { n.value() } else { fallback as nat }),
{
    match n.to_u64() {
        Some(v) => if v <= usize::MAX as u64 {
            v as usize
        } else {
            fallback
        },
        None => fallback,
    }
}

/// How many ids a page holds.
fn resolve_page_size(take: &Option<Nat>, config: &CollectionConfig, defaults: &QueryDefaults) -> (r: usize)
    ensures
        r == page_size(*config, *defaults, *take),
{
    match take {
        Some(t) => usize_or(t, defaults.take_value),
        None => match &config.default_take_value {
            Some(v) => usize_or(v, defaults.take_value),
            None => defaults.take_value,
        },
    }
}

/// `x` lies above the bound, where there is one.
pub open spec fn above(x: u64, prev: Option<nat>) -> bool {
    match prev {
        Some(p) => x > p,
        None => true,
    }
}

/// The value of an optional bound.
pub open spec fn bound_of(prev: Option<Nat>) -> Option<nat> {
    match prev {
        Some(p) => Some(p.value()),
        None => None,
    }
}

/// The bound of a page: the one given, else 0.
pub open spec fn page_bound(prev: Option<Nat>) -> Option<nat> {
    match prev {
        Some(p) => Some(p.value()),
        None => Some(0),
    }
}

/// The tokens above `prev` held by `owner`, or by anyone where no owner is named.
pub open spec fn listed_ids(l: LedgerView, owner: Option<AccountView>, prev: Option<nat>) -> Set<u64> {
    Set::new(
        |x: u64|
            l.tokens.contains_key(x) && above(x, prev) && match owner {
                Some(a) => l.tokens[x] == a,
                None => true,
            },
    )
}

/// The tokens `owner` holds.
pub open spec fn owned_ids(l: LedgerView, owner: AccountView) -> Set<u64> {
    listed_ids(l, Some(owner), None)
}

/// `r` is the first `take` ids of `s` in ascending order, or all of them where there are fewer.
pub open spec fn first_ids(s: Set<u64>, take: nat, r: Seq<u64>) -> bool {
    &&& forall|i: int, j: int| 0 <= i < j < r.len() ==> r[i] < r[j]
    &&& forall|i: int| 0 <= i < r.len() ==> s.contains(#[trigger] r[i])
    &&& r.len() <= take
    &&& forall|x: u64|
        s.contains(x) && !r.contains(x) ==> r.len() == take && (forall|i: int|
            0 <= i < r.len() ==> #[trigger] r[i] < x)
}

/// The first `take` of distinct ids, in ascending order.
fn first_of(ids: Vec<u64>, take: usize) -> (r: Vec<u64>)
    requires
        ids@.no_duplicates(),
    ensures
        first_ids(ids@.to_set(), take as nat, r@),
{
    let ghost before = ids@;
    let mut sorted = ids;
    sort_ids_ascending(&mut sorted);
    let ghost s = sorted@;
    proof {
        assert(vstd::relations::total_ordering(id_leq()));
        before.lemma_sort_by_ensures(id_leq());
        lemma_sorted_distinct(before, s);
    }
    let n = if take < sorted.len() { take } else { sorted.len() };
    let mut r: Vec<u64> = Vec::new();
    let mut i: usize = 0;
    while i < n
        invariant
            n <= s.len(),
            sorted@ == s,
            i <= n,
            r@ == s.subrange(0, i as int),
        decreases n - i,
    {
        r.push(sorted[i]);
        i = i + 1;
        assert(r@ =~= s.subrange(0, i as int));
    }
    proof {
        assert forall|x: u64| before.to_set().contains(x) && !r@.contains(x) implies r@.len() == take
            && (forall|k: int| 0 <= k < r@.len() ==> #[trigger] r@[k] < x) by {
            assert(before.contains(x));
            assert(s.contains(x));
            let m = choose|m: int| 0 <= m < s.len() && s[m] == x;
            if m < n {
                assert(r@[m] == x);
            }
            assert(m >= n);
            assert forall|k: int| 0 <= k < r@.len() implies #[trigger] r@[k] < x by {
                assert(r@[k] == s[k]);
            }
        }
        assert forall|k: int| 0 <= k < r@.len() implies before.to_set().contains(#[trigger] r@[k]) by {
            assert(r@[k] == s[k]);
            assert(s.contains(s[k]));
        }
    }
    r
}

/// Sorting distinct ids gives strictly ascending ids, and the same ones.
proof fn lemma_sorted_distinct(before: Seq<u64>, s: Seq<u64>)
    requires
        before.no_duplicates(),
        s == ascending(before),
        s.to_multiset() =~= before.to_multiset(),
        vstd::relations::sorted_by(s, id_leq()),
    ensures
        forall|i: int, j: int| 0 <= i < j < s.len() ==> s[i] < s[j],
        forall|x: u64| before.contains(x) <==> s.contains(x),
{
    broadcast use vstd::seq_lib::group_to_multiset_ensures;

    before.lemma_multiset_has_no_duplicates();
    s.lemma_multiset_has_no_duplicates_conv();
    assert forall|i: int, j: int| 0 <= i < j < s.len() implies s[i] < s[j] by {
        assert(id_leq()(s[i], s[j]));
    }
    assert forall|x: u64| before.contains(x) <==> s.contains(x) by {
        assert(before.to_multiset().count(x) == s.to_multiset().count(x));
    }
}

/// The ids of the tokens above `prev` held by `owner`, or by anyone where no owner is named,
/// each once.
fn collect_ids(ledger: &Ledger, owner: Option<&Account>, prev: &Option<Nat>) -> (r: Vec<u64>)
    requires
        ledger.wf(),
    ensures
        r@.no_duplicates(),
        r@.to_set() == listed_ids(ledger@, opt_ref_account(owner), bound_of(*prev)),
{
    let ghost want = listed_ids(ledger@, opt_ref_account(owner), bound_of(*prev));
    let entries = &ledger.tokens.entries;
    let n = entries.len();
    let mut r: Vec<u64> = Vec::new();
    let ghost mut from: Seq<int> = Seq::empty();
    let mut i: usize = 0;
    while i < n
        invariant
            n == entries@.len(),
            entries == &ledger.tokens.entries,
            ledger.wf(),
            want == listed_ids(ledger@, opt_ref_account(owner), bound_of(*prev)),
            i <= n,
            from.len() == r@.len(),
            forall|j: int| 0 <= j < r@.len() ==> 0 <= #[trigger] from[j] < i && entries@[from[j]].0 == r@[j],
            forall|j: int, k: int| 0 <= j < k < r@.len() ==> from[j] < from[k],
            forall|j: int| 0 <= j < r@.len() ==> want.contains(#[trigger] r@[j]),
            forall|k: int| 0 <= k < i && want.contains(#[trigger] entries@[k].0) ==> r@.contains(entries@[k].0),
        decreases n - i,
    {
        let id = entries[i].0;
        proof {
            lemma_assoc_at(ledger.tokens.entries@, i as int);
        }
        let keep_owner = match owner {
            Some(a) => same_account(&entries[i].1, a),
            None => true,
        };
        let keep_prev = match prev {
            Some(p) => !p.at_least(id),
            None => true,
        };
        proof {
            assert(keep_owner && keep_prev <==> want.contains(id));
        }
        let ghost old_r = r@;
        if keep_owner && keep_prev {
            proof {
                from = from.push(i as int);
            }
            r.push(id);
            assert(r@[old_r.len() as int] == id);
        }
        proof {
            assert forall|k: int| 0 <= k < i + 1 && want.contains(#[trigger] entries@[k].0) implies r@.contains(entries@[k].0) by {
                if k < i {
                    assert(old_r.contains(entries@[k].0));
                    let j = choose|j: int| 0 <= j < old_r.len() && old_r[j] == entries@[k].0;
                    assert(r@[j] == old_r[j]);
                }
            }
        }
        i = i + 1;
    }
    proof {
        assert forall|j: int, k: int| 0 <= j < r@.len() && 0 <= k < r@.len() && j != k implies r@[j] != r@[k] by {
            if j < k {
                assert(from[j] < from[k]);
            } else {
                assert(from[k] < from[j]);
            }
        }
        assert forall|x: u64| r@.to_set().contains(x) <==> want.contains(x) by {
            if want.contains(x) {
                let k = choose|k: int| 0 <= k < entries@.len() && (#[trigger] entries@[k]).0@ == x;
                assert(want.contains(entries@[k].0));
            }
            if r@.contains(x) {
                let j = choose|j: int| 0 <= j < r@.len() && r@[j] == x;
                assert(want.contains(r@[j]));
            }
        }
        assert(r@.to_set() =~= want);
    }
    r
}

/// The view of an optional account.
pub open spec fn opt_ref_account(a: Option<&Account>) -> Option<AccountView> {
    match a {
        Some(x) => Some(x@),
        None => None,
    }
}

/// The number of tokens the collection holds.
pub fn icrc7_total_supply(ledger: &Ledger) -> (r: Nat)
    requires
        ledger.wf(),
    ensures
        r.value() == ledger@.tokens.len(),
{
    let n = ledger.tokens.len();
    Nat::from_u64(n as u64)
}

/// The owner of each token asked about, `None` for a token that does not exist.
pub fn icrc7_owner_of(
    ledger: &Ledger,
    config: &CollectionConfig,
    defaults: &QueryDefaults,
    token_ids: &Vec<u64>,
) -> (r: Vec<Option<Account>>)
    requires
        ledger.wf(),
        token_ids@.len() <= query_batch_limit(*config, *defaults),
    ensures
        r@.len() == token_ids@.len(),
        forall|i: int| 0 <= i < r@.len() ==> opt_account(#[trigger] r@[i]) == owner_in(ledger@, token_ids@[i]),
{
    let mut r: Vec<Option<Account>> = Vec::new();
    let mut i: usize = 0;
    while i < token_ids.len()
        invariant
            ledger.wf(),
            i <= token_ids@.len(),
            r@.len() == i,
            forall|j: int| 0 <= j < i ==> opt_account(#[trigger] r@[j]) == owner_in(ledger@, token_ids@[j]),
        decreases token_ids@.len() - i,
    {
        r.push(ledger.owner_of(token_ids[i]));
        i = i + 1;
    }
    r
}

/// The number of tokens each account asked about holds.
pub fn icrc7_balance_of(
    ledger: &Ledger,
    config: &CollectionConfig,
    defaults: &QueryDefaults,
    accounts: &Vec<Account>,
) -> (r: Vec<u64>)
    requires
        ledger.wf(),
        accounts@.len() <= query_batch_limit(*config, *defaults),
    ensures
        r@.len() == accounts@.len(),
        forall|i: int| 0 <= i < r@.len() ==> #[trigger] r@[i] == owned_ids(ledger@, accounts@[i]@).len(),
{
    let mut r: Vec<u64> = Vec::new();
    let mut i: usize = 0;
    while i < accounts.len()
        invariant
            ledger.wf(),
            i <= accounts@.len(),
            r@.len() == i,
            forall|j: int| 0 <= j < i ==> #[trigger] r@[j] == owned_ids(ledger@, accounts@[j]@).len(),
        decreases accounts@.len() - i,
    {
        let ids = collect_ids(ledger, Some(&accounts[i]), &None);
        proof {
            ids@.unique_seq_to_set();
        }
        r.push(ids.len() as u64);
        i = i + 1;
    }
    r
}

/// A page of all token ids: the first ones above `prev` (0 where none is given), in ascending
/// order.
pub fn icrc7_tokens(
    ledger: &Ledger,
    config: &CollectionConfig,
    defaults: &QueryDefaults,
    prev: &Option<Nat>,
    take: &Option<Nat>,
) -> (r: Vec<u64>)
    requires
        ledger.wf(),
        take_within_limit(*config, *defaults, *take),
    ensures
        first_ids(listed_ids(ledger@, None, page_bound(*prev)), page_size(*config, *defaults, *take), r@),
{
    let bound = match prev {
        Some(p) => p.copy(),
        None => Nat::from_u64(0),
    };
    let size = resolve_page_size(take, config, defaults);
    let ids = collect_ids(ledger, None, &Some(bound));
    first_of(ids, size)
}

/// A page of the token ids of `account`: the first ones above `prev` (0 where none is given),
/// in ascending order.
pub fn icrc7_tokens_of(
    ledger: &Ledger,
    config: &CollectionConfig,
    defaults: &QueryDefaults,
    account: &Account,
    prev: &Option<Nat>,
    take: &Option<Nat>,
) -> (r: Vec<u64>)
    requires
        ledger.wf(),
        take_within_limit(*config, *defaults, *take),
    ensures
        first_ids(
            listed_ids(ledger@, Some(account@), page_bound(*prev)),
            page_size(*config, *defaults, *take),
            r@,
        ),
{
    let bound = match prev {
        Some(p) => p.copy(),
        None => Nat::from_u64(0),
    };
    let size = resolve_page_size(take, config, defaults);
    let ids = collect_ids(ledger, Some(account), &Some(bound));
    first_of(ids, size)
}

/// Pages chain: a full page, followed by the page after its last id, is the first page of
/// their combined size.
pub proof fn law_pages_continue(ids: Set<u64>, take: nat, first: Seq<u64>, take_next: nat, next: Seq<u64>)
    requires
        first_ids(ids, take, first),
        first.len() == take,
        take > 0,
        first_ids(ids.filter(|x: u64| x > first.last()), take_next, next),
    ensures
        first_ids(ids, take + take_next, first + next),
{
    let all = first + next;
    let last = first.last();
    assert forall|i: int, j: int| 0 <= i < j < all.len() implies all[i] < all[j] by {
        if j < first.len() {
        } else if i < first.len() {
            assert(next[j - first.len()] > last);
            if i < first.len() - 1 {
                assert(first[i] < first[first.len() - 1]);
            }
        } else {
            assert(all[i] == next[i - first.len()] && all[j] == next[j - first.len()]);
        }
    }
    assert forall|i: int| 0 <= i < all.len() implies ids.contains(#[trigger] all[i]) by {
        if i >= first.len() {
            assert(ids.filter(|x: u64| x > last).contains(next[i - first.len()]));
        }
    }
    assert forall|x: u64| ids.contains(x) && !all.contains(x) implies all.len() == take + take_next && (forall|i: int|
        0 <= i < all.len() ==> #[trigger] all[i] < x) by {
        if first.contains(x) {
            let k = choose|k: int| 0 <= k < first.len() && first[k] == x;
            assert(all[k] == x);
        }
        assert(!first.contains(x));
        assert(first[first.len() - 1] < x);
        assert(ids.filter(|y: u64| y > last).contains(x));
        if next.contains(x) {
            let k = choose|k: int| 0 <= k < next.len() && next[k] == x;
            assert(all[first.len() + k] == x);
        }
        assert forall|i: int| 0 <= i < all.len() implies #[trigger] all[i] < x by {
            if i >= first.len() {
                assert(all[i] == next[i - first.len()]);
            }
        }
    }
}

/// The page size of a listing: the number the caller asks for, where it fits a `usize`; where
/// the caller asks for none, the collection's default take value, where set and fitting a
/// `usize`; where neither is given, the fallback.
pub proof fn law_page_size_follows_request_then_collection(c: CollectionConfig, d: QueryDefaults, take: Option<Nat>)
    ensures
        take is Some && take.unwrap().value() <= usize::MAX ==> page_size(c, d, take) == take.unwrap().value(),
        take is None && c.default_take_value is Some && c.default_take_value.unwrap().value() <= usize::MAX
            ==> page_size(c, d, take) == c.default_take_value.unwrap().value(),
        take is None && c.default_take_value is None ==> page_size(c, d, take) == d.take_value,
{
}

/// A page of `take` ids of a finite listing holds `take` ids, or all the listed ids where there
/// are fewer.
pub proof fn law_page_length(s: Set<u64>, take: nat, r: Seq<u64>)
    requires
        s.finite(),
        first_ids(s, take, r),
    ensures
        r.len() == (if take <= s.len() { take } else { s.len() }),
{
    assert(r.no_duplicates()) by {
        assert forall|i: int, j: int| 0 <= i < r.len() && 0 <= j < r.len() && i != j implies r[i] != r[j] by {
            if i < j {
                assert(r[i] < r[j]);
            } else {
                assert(r[j] < r[i]);
            }
        }
    }
    r.unique_seq_to_set();
    assert(r.to_set().subset_of(s)) by {
        assert forall|x: u64| r.to_set().contains(x) implies s.contains(x) by {
            let i = choose|i: int| 0 <= i < r.len() && r[i] == x;
            assert(s.contains(r[i]));
        }
    }
    vstd::set_lib::lemma_len_subset(r.to_set(), s);
    if r.len() < take {
        assert(s.subset_of(r.to_set())) by {
            assert forall|x: u64| s.contains(x) implies r.to_set().contains(x) by {
                if !r.contains(x) {
                    assert(r.len() == take);
                }
            }
        }
        vstd::set_lib::lemma_len_subset(s, r.to_set());
    }
}

/// Listing the collection's tokens, or an account's, without naming a page size, where the
/// collection sets a default take value `v` that fits a `usize`: the page holds `v` ids, or all
/// listed ids where there are fewer.
pub proof fn law_default_take_value_sets_the_page(
    l: LedgerView,
    c: CollectionConfig,
    d: QueryDefaults,
    owner: Option<AccountView>,
    prev: Option<Nat>,
    r: Seq<u64>,
)
    requires
        c.default_take_value is Some,
        c.default_take_value.unwrap().value() <= usize::MAX,
        l.tokens.dom().finite(),
        first_ids(listed_ids(l, owner, page_bound(prev)), page_size(c, d, None), r),
    ensures
        ({
            let v = c.default_take_value.unwrap().value();
            let n = listed_ids(l, owner, page_bound(prev)).len();
            r.len() == (if v <= n { v } else { n })
        }),
{
    let s = listed_ids(l, owner, page_bound(prev));
    assert(s.subset_of(l.tokens.dom()));
    vstd::set_lib::lemma_len_subset(s, l.tokens.dom());
    law_page_length(s, page_size(c, d, None), r);
}

} // verus!
