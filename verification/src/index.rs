//! The block index: for each account, block type and token, the ids of the blocks that
//! concern it, newest first; and the selection of block ids for a filtered query.
use vstd::prelude::*;

use crate::account::{account_from_text, same_account, copy_account, Account, AccountView};
use crate::blocks::{
    account_views, block_type_name, field_account, parse_block_type, tx_entries, BlockType,
    MintBlock, TransactionDataExtractor,
};
use crate::value::{find_key, limb_base, lookup, Nat, Value};

verus! {

/// The order in which blocks are listed.
#[derive(Clone, Copy, Debug, PartialEq, Eq, Structural)]
pub enum SortBy {
    Ascending,
    Descending,
}

/// What an index entry is filed under.
#[derive(Clone, Debug)]
pub enum IndexType {
    Account(Account),
    BlockType(String),
    TokenId(u64),
}

/// What an index key is.
pub ghost enum IndexKey {
    Account(AccountView),
    BlockType(Seq<char>),
    TokenId(u64),
}

impl View for IndexType {
    type V = IndexKey;

    open spec fn view(&self) -> IndexKey {
        match self {
            IndexType::Account(a) => IndexKey::Account(a@),
            IndexType::BlockType(s) => IndexKey::BlockType(s@),
            IndexType::TokenId(t) => IndexKey::TokenId(*t),
        }
    }
}

/// Whether two index keys are the same.
pub fn same_index_type(a: &IndexType, b: &IndexType) -> (r: bool)
    ensures
        r == (a@ == b@),
{
    match (a, b) {
        (IndexType::Account(x), IndexType::Account(y)) => same_account(x, y),
        (IndexType::BlockType(x), IndexType::BlockType(y)) => *x == *y,
        (IndexType::TokenId(x), IndexType::TokenId(y)) => *x == *y,
        _ => false,
    }
}

/// The block ids filed under one key, newest first.
#[derive(Debug)]
pub struct IndexValue(pub Vec<u64>);

/// No key is filed twice.
pub open spec fn keys_unique(e: Seq<(IndexType, IndexValue)>) -> bool {
    forall|i: int, j: int| 0 <= i < j < e.len() ==> (#[trigger] e[i]).0@ != (#[trigger] e[j]).0@
}

/// The key `k` is filed somewhere.
pub open spec fn has_key(e: Seq<(IndexType, IndexValue)>, k: IndexKey) -> bool {
    exists|i: int| 0 <= i < e.len() && (#[trigger] e[i]).0@ == k
}

/// What the entries file: for each key, its block ids.
pub open spec fn entries_view(e: Seq<(IndexType, IndexValue)>) -> Map<IndexKey, Seq<u64>> {
    Map::new(
        |k: IndexKey| has_key(e, k),
        |k: IndexKey| e[choose|i: int| 0 <= i < e.len() && (#[trigger] e[i]).0@ == k].1.0@,
    )
}

/// The block ids under `k`; none where `k` is not filed.
pub open spec fn ids_under(m: Map<IndexKey, Seq<u64>>, k: IndexKey) -> Seq<u64> {
    if m.contains_key(k) { m[k] } else { Seq::empty() }
}

/// The index.
pub struct Index {
    pub entries: Vec<(IndexType, IndexValue)>,
}

impl View for Index {
    type V = Map<IndexKey, Seq<u64>>;

    open spec fn view(&self) -> Map<IndexKey, Seq<u64>> {
        entries_view(self.entries@)
    }
}

proof fn lemma_view_at(e: Seq<(IndexType, IndexValue)>, i: int)
    requires
        keys_unique(e),
        0 <= i < e.len(),
    ensures
        entries_view(e).contains_key(e[i].0@),
        entries_view(e)[e[i].0@] == e[i].1.0@,
{
    let k = e[i].0@;
    assert(has_key(e, k));
    let j = choose|j: int| 0 <= j < e.len() && (#[trigger] e[j]).0@ == k;
    if j != i {
        if j < i {
            assert(e[j].0@ != e[i].0@);
        } else {
            assert(e[i].0@ != e[j].0@);
        }
    }
}

proof fn lemma_view_set(e: Seq<(IndexType, IndexValue)>, i: int, entry: (IndexType, IndexValue))
    requires
        keys_unique(e),
        0 <= i < e.len(),
        entry.0@ == e[i].0@,
    ensures
        keys_unique(e.update(i, entry)),
        entries_view(e.update(i, entry)) == entries_view(e).insert(entry.0@, entry.1.0@),
{
    let e2 = e.update(i, entry);
    assert forall|a: int, b: int| 0 <= a < b < e2.len() implies (#[trigger] e2[a]).0@ != (#[trigger] e2[b]).0@ by {
        assert(e[a].0@ != e[b].0@);
    }
    let m1 = entries_view(e2);
    let m2 = entries_view(e).insert(entry.0@, entry.1.0@);
    assert forall|k: IndexKey| m1.contains_key(k) <==> m2.contains_key(k) by {
        if has_key(e2, k) {
            let j = choose|j: int| 0 <= j < e2.len() && (#[trigger] e2[j]).0@ == k;
            if j != i {
                assert(e[j].0@ == k);
            }
        }
        if has_key(e, k) {
            let j = choose|j: int| 0 <= j < e.len() && (#[trigger] e[j]).0@ == k;
            if j != i {
                assert(e2[j].0@ == k);
            } else {
                assert(e2[i].0@ == k);
            }
        }
        if k == entry.0@ {
            assert(e2[i].0@ == k);
        }
    }
    assert forall|k: IndexKey| #[trigger] m1.contains_key(k) implies m1[k] == m2[k] by {
        let j = choose|j: int| 0 <= j < e2.len() && (#[trigger] e2[j]).0@ == k;
        lemma_view_at(e2, j);
        if j != i {
            assert(e[j] == e2[j]);
            lemma_view_at(e, j);
        }
    }
    assert(m1 =~= m2);
}

proof fn lemma_view_push(e: Seq<(IndexType, IndexValue)>, entry: (IndexType, IndexValue))
    requires
        keys_unique(e),
        !has_key(e, entry.0@),
    ensures
        keys_unique(e.push(entry)),
        entries_view(e.push(entry)) == entries_view(e).insert(entry.0@, entry.1.0@),
{
    let e2 = e.push(entry);
    let n = e.len() as int;
    assert forall|a: int, b: int| 0 <= a < b < e2.len() implies (#[trigger] e2[a]).0@ != (#[trigger] e2[b]).0@ by {
        if b == n {
            assert(e[a] == e2[a]);
        } else {
            assert(e[a].0@ != e[b].0@);
        }
    }
    let m1 = entries_view(e2);
    let m2 = entries_view(e).insert(entry.0@, entry.1.0@);
    assert forall|k: IndexKey| m1.contains_key(k) <==> m2.contains_key(k) by {
        if has_key(e2, k) {
            let j = choose|j: int| 0 <= j < e2.len() && (#[trigger] e2[j]).0@ == k;
            if j < n {
                assert(e[j].0@ == k);
            }
        }
        if has_key(e, k) {
            let j = choose|j: int| 0 <= j < e.len() && (#[trigger] e[j]).0@ == k;
            assert(e2[j].0@ == k);
        }
        if k == entry.0@ {
            assert(e2[n].0@ == k);
        }
    }
    assert forall|k: IndexKey| #[trigger] m1.contains_key(k) implies m1[k] == m2[k] by {
        let j = choose|j: int| 0 <= j < e2.len() && (#[trigger] e2[j]).0@ == k;
        lemma_view_at(e2, j);
        if j < n {
            assert(e[j] == e2[j]);
            lemma_view_at(e, j);
        }
    }
    assert(m1 =~= m2);
}

impl Index {
    /// The index is well formed: no key is filed twice.
    pub open spec fn wf(&self) -> bool {
        keys_unique(self.entries@)
    }

    /// An empty index.
    pub fn new() -> (r: Index)
        ensures
            r.wf(),
            r@ == Map::<IndexKey, Seq<u64>>::empty(),
    {
        let r = Index { entries: Vec::new() };
        assert(r@ =~= Map::<IndexKey, Seq<u64>>::empty());
        r
    }

    fn find(&self, key: &IndexType) -> (r: Option<usize>)
        ensures
            r matches Some(i) ==> i < self.entries@.len() && self.entries@[i as int].0@ == key@,
            r is None ==> !has_key(self.entries@, key@),
    {
        let n = self.entries.len();
        let mut i: usize = 0;
        while i < n
            invariant
                n == self.entries@.len(),
                i <= n,
                forall|j: int| 0 <= j < i ==> (#[trigger] self.entries@[j]).0@ != key@,
            decreases n - i,
        {
            if same_index_type(&self.entries[i].0, key) {
                return Some(i);
            }
            i = i + 1;
        }
        None
    }

    /// The block ids filed under `key`, newest first; none where it is not filed.
    pub fn get(&self, key: &IndexType) -> (r: Vec<u64>)
        requires
            self.wf(),
        ensures
            r@ == ids_under(self@, key@),
    {
        match self.find(key) {
            Some(i) => {
                proof {
                    lemma_view_at(self.entries@, i as int);
                }
                let ids = self.entries[i].1.0.clone();
                assert(ids@ =~= self.entries@[i as int].1.0@);
                ids
            },
            None => Vec::new(),
        }
    }

    /// Files block `id` under `key`, before the ids filed there already.
    pub fn prepend(&mut self, key: IndexType, id: u64)
        requires
            old(self).wf(),
        ensures
            final(self).wf(),
            final(self)@ == old(self)@.insert(key@, seq![id] + ids_under(old(self)@, key@)),
    {
        match self.find(&key) {
            Some(i) => {
                proof {
                    lemma_view_at(self.entries@, i as int);
                }
                let old_ids = self.entries[i].1.0.clone();
                assert(old_ids@ =~= self.entries@[i as int].1.0@);
                let mut ids: Vec<u64> = Vec::new();
                ids.push(id);
                let mut j: usize = 0;
                while j < old_ids.len()
                    invariant
                        j <= old_ids@.len(),
                        ids@ == seq![id] + old_ids@.subrange(0, j as int),
                    decreases old_ids@.len() - j,
                {
                    ids.push(old_ids[j]);
                    j = j + 1;
                    assert(ids@ =~= seq![id] + old_ids@.subrange(0, j as int));
                }
                assert(old_ids@.subrange(0, old_ids@.len() as int) =~= old_ids@);
                let ghost before = self.entries@;
                let entry = (key, IndexValue(ids));
                proof {
                    lemma_view_set(before, i as int, entry);
                }
                self.entries.set(i, entry);
            },
            None => {
                let mut ids: Vec<u64> = Vec::new();
                ids.push(id);
                let ghost before = self.entries@;
                let entry = (key, IndexValue(ids));
                proof {
                    assert(ids@ =~= seq![id] + Seq::<u64>::empty());
                    lemma_view_push(before, entry);
                }
                self.entries.push(entry);
            },
        }
    }
}

/// A block of the log with its id.
#[derive(Debug)]
pub struct BlockWithId {
    pub id: Nat,
    pub block: Value,
}

/// The kind of a block as the index reads it, or why it cannot.
pub open spec fn index_block_type(data: Value) -> Result<BlockType, Seq<char>> {
    match data {
        Value::Dict(m) => match lookup(m@, "btype"@) {
            Some(Value::Text(t)) => parse_block_type(t@),
            _ => Err("Missing or invalid block type field"@),
        },
        _ => Err("Invalid block data"@),
    }
}

/// The keys a block of kind `b` is filed under, in order: each account it names, its kind,
/// and its token where it names one.
pub open spec fn index_keys(b: BlockType, data: Value) -> Seq<IndexKey> {
    let accounts = match b.accounts_spec(data) {
        Ok(a) => a,
        Err(_) => Seq::empty(),
    };
    let token = match b.token_id_spec(data) {
        Ok(Some(t)) => seq![IndexKey::TokenId(t as u64)],
        _ => Seq::empty(),
    };
    accounts.map_values(|a: AccountView| IndexKey::Account(a)) + seq![IndexKey::BlockType(block_type_name(b))] + token
}

/// The index after filing block `id` under each of `keys` in turn.
pub open spec fn prepend_all(m: Map<IndexKey, Seq<u64>>, keys: Seq<IndexKey>, id: u64) -> Map<IndexKey, Seq<u64>>
    decreases keys.len(),
{
    if keys.len() == 0 {
        m
    } else {
        let before = prepend_all(m, keys.drop_last(), id);
        before.insert(keys.last(), seq![id] + ids_under(before, keys.last()))
    }
}

/// The block may be filed: where its kind can be read, its id and the token it names fit in a `u64`.
pub open spec fn indexable(block: BlockWithId) -> bool {
    index_block_type(block.block) matches Ok(b) ==> {
        &&& block.id.value() < limb_base()
        &&& (b.token_id_spec(block.block) matches Ok(Some(t)) ==> t < limb_base())
    }
}

pub(crate) fn read_block_type(data: &Value) -> (r: Result<BlockType, String>)
    ensures
        crate::blocks::text_err(r) == index_block_type(*data),
{
    match data {
        Value::Dict(m) => match find_key(m, "btype") {
            Some(i) => match &m[i].1 {
                Value::Text(t) => BlockType::from_str(t.as_str()),
                _ => Err(String::from_str("Missing or invalid block type field")),
            },
            None => Err(String::from_str("Missing or invalid block type field")),
        },
        _ => Err(String::from_str("Invalid block data")),
    }
}

/// Files a block under the accounts it names, its kind and its token, newest first.
/// Where its kind cannot be read, the index is left as it was and the reason is returned.
pub fn add_block_to_index(index: &mut Index, block: &BlockWithId) -> (r: Result<(), String>)
    requires
        old(index).wf(),
        indexable(*block),
    ensures
        final(index).wf(),
        match index_block_type(block.block) {
            Ok(b) => r is Ok && final(index)@ == prepend_all(old(index)@, index_keys(b, block.block), block.id.value() as u64),
            Err(e) => r matches Err(m) && m@ == e && final(index)@ == old(index)@,
        },
{
    let data = &block.block;
    let block_type = match read_block_type(data) {
        Ok(b) => b,
        Err(e) => {
            return Err(e);
        },
    };
    let accounts = match block_type.extract_accounts(data) {
        Ok(a) => a,
        Err(_) => Vec::new(),
    };
    let token_id = match block_type.extract_token_id(data) {
        Ok(t) => t,
        Err(_) => None,
    };
    proof {
        let spec_accounts = match block_type.accounts_spec(*data) {
            Ok(a) => a,
            Err(_) => Seq::<AccountView>::empty(),
        };
        assert(account_views(accounts@) =~= spec_accounts);
    }
    let block_id = match block.id.to_u64() {
        Some(id) => id,
        None => {
            assert(false);
            0
        },
    };
    let ghost keys = index_keys(block_type, *data);
    let ghost acc_keys = account_views(accounts@).map_values(|a: AccountView| IndexKey::Account(a));
    let ghost start = index@;
    let mut i: usize = 0;
    assert(acc_keys.take(0) =~= Seq::<IndexKey>::empty());
    while i < accounts.len()
        invariant
            i <= accounts@.len(),
            index.wf(),
            acc_keys == account_views(accounts@).map_values(|a: AccountView| IndexKey::Account(a)),
            index@ == prepend_all(start, acc_keys.take(i as int), block_id),
        decreases accounts@.len() - i,
    {
        let key = IndexType::Account(copy_account(&accounts[i]));
        proof {
            assert(acc_keys.take(i + 1).drop_last() =~= acc_keys.take(i as int));
            assert(key@ == acc_keys.take(i + 1).last());
        }
        index.prepend(key, block_id);
        i = i + 1;
    }
    assert(acc_keys.take(accounts@.len() as int) =~= acc_keys);
    let ghost bt_key = IndexKey::BlockType(block_type_name(block_type));
    index.prepend(IndexType::BlockType(block_type.to_string()), block_id);
    proof {
        assert(acc_keys.push(bt_key).drop_last() =~= acc_keys);
        assert(index@ == prepend_all(start, acc_keys.push(bt_key), block_id));
    }
    match token_id {
        Some(t) => {
            let tid = match t.0.to_u64() {
                Some(x) => x,
                None => {
                    assert(false);
                    0
                },
            };
            index.prepend(IndexType::TokenId(tid), block_id);
            proof {
                let full = acc_keys.push(bt_key).push(IndexKey::TokenId(tid));
                assert(full.drop_last() =~= acc_keys.push(bt_key));
                assert(keys =~= full);
            }
        },
        None => {
            proof {
                assert(keys =~= acc_keys.push(bt_key));
            }
        },
    }
    Ok(())
}

/// Ascending order of block ids.
pub open spec fn id_leq() -> spec_fn(u64, u64) -> bool {
    |a: u64, b: u64| a <= b
}

/// The ids of `s` in ascending order.
pub open spec fn ascending(s: Seq<u64>) -> Seq<u64> {
    s.sort_by(id_leq())
}

/// The ids of `s` in the order `sort_by` asks for.
pub open spec fn in_order(s: Seq<u64>, sort_by: SortBy) -> Seq<u64> {
    match sort_by {
        SortBy::Ascending => ascending(s),
        SortBy::Descending => ascending(s).reverse(),
    }
}

/// The ids of the first list that occur in every other list, in the order of the first list.
pub open spec fn common_ids(rs: Seq<Seq<u64>>) -> Seq<u64> {
    if rs.len() == 0 {
        Seq::empty()
    } else {
        rs[0].filter(|id: u64| forall|k: int| 1 <= k < rs.len() ==> (#[trigger] rs[k]).contains(id))
    }
}

/// The page of `s` that starts at position `start` and holds at most `length` ids.
pub open spec fn page(s: Seq<u64>, start: u64, length: u64) -> Seq<u64> {
    if start >= s.len() {
        Seq::empty()
    } else if start + length <= s.len() {
        s.subrange(start as int, start + length)
    } else {
        s.subrange(start as int, s.len() as int)
    }
}

proof fn lemma_id_leq_total()
    ensures
        vstd::relations::total_ordering(id_leq()),
{
}

/// `slice::sort` of std on `u64`: the same ids, in ascending order.
#[verifier::external_body]
fn sort_ids(v: &mut Vec<u64>)
    ensures
        vstd::relations::sorted_by(final(v)@, id_leq()),
        final(v)@.to_multiset() == old(v)@.to_multiset(),
{
    v.sort()
}

/// Sorts block ids in ascending order.
pub fn sort_ids_ascending(v: &mut Vec<u64>)
    ensures
        final(v)@ == ascending(old(v)@),
{
    let ghost before = v@;
    sort_ids(v);
    proof {
        lemma_id_leq_total();
        before.lemma_sort_by_ensures(id_leq());
        vstd::seq_lib::lemma_sorted_unique(v@, ascending(before), id_leq());
    }
}

fn reversed(v: &Vec<u64>) -> (r: Vec<u64>)
    ensures
        r@ == v@.reverse(),
{
    let mut r: Vec<u64> = Vec::new();
    let n = v.len();
    let mut i: usize = n;
    while i > 0
        invariant
            n == v@.len(),
            i <= n,
            r@.len() == n - i,
            forall|j: int| 0 <= j < n - i ==> r@[j] == v@[n - 1 - j],
        decreases i,
    {
        i = i - 1;
        r.push(v[i]);
    }
    assert(r@ =~= v@.reverse());
    r
}

fn contains_id(v: &Vec<u64>, id: u64) -> (r: bool)
    ensures
        r == v@.contains(id),
{
    let mut i: usize = 0;
    while i < v.len()
        invariant
            i <= v@.len(),
            forall|j: int| 0 <= j < i ==> v@[j] != id,
        decreases v@.len() - i,
    {
        if v[i] == id {
            assert(v@[i as int] == id);
            return true;
        }
        i = i + 1;
    }
    false
}

fn in_all_others(rs: &Vec<Vec<u64>>, id: u64) -> (r: bool)
    requires
        rs@.len() > 0,
    ensures
        r == (forall|k: int| 1 <= k < rs@.len() ==> (#[trigger] rs@[k])@.contains(id)),
{
    let mut k: usize = 1;
    while k < rs.len()
        invariant
            1 <= k <= rs@.len(),
            forall|j: int| 1 <= j < k ==> (#[trigger] rs@[j])@.contains(id),
        decreases rs@.len() - k,
    {
        if !contains_id(&rs[k], id) {
            return false;
        }
        k = k + 1;
    }
    true
}

/// The views of a list of block id lists.
pub open spec fn id_lists(rs: Seq<Vec<u64>>) -> Seq<Seq<u64>> {
    rs.map_values(|v: Vec<u64>| v@)
}

/// The block ids that a filtered query lists: those in the result of every filter, sorted as
/// asked, the page from position `start` of at most `length` ids.
pub fn select_block_ids(filter_results: &Vec<Vec<u64>>, start: u64, length: u64, sort_by: SortBy) -> (r: Vec<u64>)
    requires
        start + length <= u64::MAX,
    ensures
        r@ == page(in_order(common_ids(id_lists(filter_results@)), sort_by), start, length),
{
    let ghost rs = id_lists(filter_results@);
    let mut combined: Vec<u64> = Vec::new();
    if filter_results.len() > 0 {
        let first = &filter_results[0];
        let ghost pred = |id: u64| forall|k: int| 1 <= k < rs.len() ==> (#[trigger] rs[k]).contains(id);
        let mut i: usize = 0;
        proof {
            reveal_with_fuel(Seq::<u64>::filter, 1);
            assert(first@.take(0) =~= Seq::<u64>::empty());
        }
        while i < first.len()
            invariant
                filter_results@.len() > 0,
                first@ == filter_results@[0]@,
                rs == id_lists(filter_results@),
                i <= first@.len(),
                combined@ == first@.take(i as int).filter(pred),
                pred == (|id: u64| forall|k: int| 1 <= k < rs.len() ==> (#[trigger] rs[k]).contains(id)),
            decreases first@.len() - i,
        {
            let id = first[i];
            let keep = in_all_others(filter_results, id);
            proof {
                reveal_with_fuel(Seq::<u64>::filter, 1);
                assert(first@.take(i + 1).drop_last() =~= first@.take(i as int));
                assert(keep == pred(id)) by {
                    if keep {
                        assert forall|k: int| 1 <= k < rs.len() implies (#[trigger] rs[k]).contains(id) by {
                            assert(rs[k] == filter_results@[k]@);
                        }
                    } else {
                        let k = choose|k: int| 1 <= k < filter_results@.len() && !(#[trigger] filter_results@[k])@.contains(id);
                        assert(rs[k] == filter_results@[k]@);
                    }
                }
            }
            if keep {
                combined.push(id);
            }
            i = i + 1;
        }
        proof {
            assert(first@.take(first@.len() as int) =~= first@);
            assert(rs[0] == first@);
        }
    } else {
        assert(rs =~= Seq::<Seq<u64>>::empty());
    }
    let ghost common = combined@;
    assert(common == common_ids(rs));
    sort_ids_ascending(&mut combined);
    let ordered = match sort_by {
        SortBy::Ascending => combined,
        SortBy::Descending => reversed(&combined),
    };
    let len = ordered.len();
    if start >= len as u64 {
        return Vec::new();
    }
    let end: u64 = if start + length <= len as u64 { start + length } else { len as u64 };
    let mut out: Vec<u64> = Vec::new();
    let mut i: usize = start as usize;
    while i < end as usize
        invariant
            len == ordered@.len(),
            start < len,
            end <= len,
            start <= i <= end,
            out@ == ordered@.subrange(start as int, i as int),
        decreases end - i,
    {
        out.push(ordered[i]);
        i = i + 1;
        assert(out@ =~= ordered@.subrange(start as int, i as int));
    }
    out
}

/// The ids an unfiltered query lists: `length` ids from `start`, or for a descending query
/// the last `length` ids before `last_block_id`.
pub fn unfiltered_block_ids(start: u64, length: u64, sort_by: SortBy, last_block_id: u64) -> (r: Vec<u64>)
    requires
        (if sort_by == SortBy::Descending { sat_sub(last_block_id, length) } else { start as int }) + length <= u64::MAX,
    ensures
        r@ == Seq::new(length as nat, |i: int| (first_listed(start, length, sort_by, last_block_id) + i) as u64),
{
    let first: u64 = if sort_by == SortBy::Descending { last_block_id.saturating_sub(length) } else { start };
    let mut r: Vec<u64> = Vec::new();
    let mut i: u64 = 0;
    while i < length
        invariant
            i <= length,
            first + length <= u64::MAX,
            first == first_listed(start, length, sort_by, last_block_id),
            r@ == Seq::new(i as nat, |j: int| (first + j) as u64),
        decreases length - i,
    {
        r.push(first + i);
        i = i + 1;
        assert(r@ =~= Seq::new(i as nat, |j: int| (first + j) as u64));
    }
    r
}

/// `a - b`, or 0 where that is negative.
pub open spec fn sat_sub(a: u64, b: u64) -> int {
    if a < b { 0 } else { a - b }
}

/// The first id an unfiltered query lists.
pub open spec fn first_listed(start: u64, length: u64, sort_by: SortBy, last_block_id: u64) -> u64 {
    if sort_by == SortBy::Descending { sat_sub(last_block_id, length) as u64 } else { start }
}

/// Filing lists a block first under each of its keys, ahead of the blocks filed before it;
/// the keys it does not name are left as they were.
pub proof fn law_newest_first(m: Map<IndexKey, Seq<u64>>, keys: Seq<IndexKey>, id: u64)
    ensures
        forall|k: IndexKey| #[trigger] keys.contains(k) ==> prepend_all(m, keys, id).contains_key(k)
            && prepend_all(m, keys, id)[k].len() > 0 && prepend_all(m, keys, id)[k][0] == id,
        forall|k: IndexKey| !keys.contains(k) ==> #[trigger] ids_under(prepend_all(m, keys, id), k) == ids_under(m, k),
    decreases keys.len(),
{
    if keys.len() > 0 {
        let init = keys.drop_last();
        law_newest_first(m, init, id);
        assert forall|k: IndexKey| #[trigger] keys.contains(k) implies prepend_all(m, keys, id).contains_key(k)
            && prepend_all(m, keys, id)[k].len() > 0 && prepend_all(m, keys, id)[k][0] == id by {
            if k != keys.last() {
                let j = choose|j: int| 0 <= j < keys.len() && keys[j] == k;
                assert(init[j] == k);
                assert(init.contains(k));
            }
        }
        assert forall|k: IndexKey| !keys.contains(k) implies #[trigger] ids_under(prepend_all(m, keys, id), k) == ids_under(m, k) by {
            assert(k != keys.last());
            if init.contains(k) {
                let j = choose|j: int| 0 <= j < init.len() && init[j] == k;
                assert(keys[j] == k);
            }
            assert(!init.contains(k));
            let before = prepend_all(m, init, id);
            assert(ids_under(before, k) == ids_under(m, k));
            assert(prepend_all(m, keys, id) == before.insert(keys.last(), seq![id] + ids_under(before, keys.last())));
        }
    }
}

/// A mint block is filed under the account it mints to: where the block's `tx` names a `to`
/// account in its textual form, that account is the one account the block names, the first
/// key the index files the block under, and, in any index, the block's id then heads the list
/// of that account.
pub proof fn law_mint_block_filed_under_recipient(
    data: Value,
    to: String,
    a: AccountView,
    m: Map<IndexKey, Seq<u64>>,
    id: u64,
)
    requires
        data is Dict,
        tx_entries(data) is Some,
        lookup(tx_entries(data).unwrap(), "to"@) == Some(Value::Text(to)),
        account_from_text(to@) == Some(a),
    ensures
        BlockType::Mint(MintBlock).accounts_spec(data) == Ok::<Seq<AccountView>, Seq<char>>(seq![a]),
        index_keys(BlockType::Mint(MintBlock), data)[0] == IndexKey::Account(a),
        ids_under(prepend_all(m, index_keys(BlockType::Mint(MintBlock), data), id), IndexKey::Account(a))[0] == id,
{
    assert(field_account(tx_entries(data).unwrap(), "to"@) == seq![a]);
    let accounts = seq![a];
    assert(accounts + Seq::<AccountView>::empty() + Seq::<AccountView>::empty() =~= accounts);
    let keys = index_keys(BlockType::Mint(MintBlock), data);
    assert(keys.contains(IndexKey::Account(a))) by {
        assert(keys[0] == IndexKey::Account(a));
    }
    law_newest_first(m, keys, id);
}

} // verus!
