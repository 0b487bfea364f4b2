//! The metadata store: for the collection (under id 0) and for each token, values by text
//! key, listed in key order.
use vstd::prelude::*;

use crate::account::{account_of_owner, AccountView};
use crate::assoc::values_of;
use crate::collection::{Icrc7Transaction, Tx7View};
use crate::ledger::{Ledger, LedgerView};
use crate::queries::{query_batch_limit, QueryDefaults};
use crate::collection::CollectionConfig;
use crate::sorted::{lists_in_order, pairs_view, SortedMap};
use crate::value::{copy_value, entries_view, lemma_entries_view, Value, ValueView};

verus! {

/// Values by text key.
pub type TextValues = Map<Seq<char>, ValueView>;

/// The metadata of one token or of the collection.
pub struct MetadataData {
    pub data: SortedMap<String, Value>,
}

impl View for MetadataData {
    type V = TextValues;

    open spec fn view(&self) -> TextValues {
        self.data@
    }
}

impl MetadataData {
    /// The keys ascend.
    pub open spec fn wf(&self) -> bool {
        self.data.wf()
    }

    /// No metadata.
    pub fn new() -> (r: MetadataData)
        ensures
            r.wf(),
            r@ == TextValues::empty(),
    {
        MetadataData { data: SortedMap::new() }
    }

    /// The entries as copies, in key order.
    pub fn to_entries(&self) -> (r: Vec<(String, Value)>)
        requires
            self.wf(),
        ensures
            lists_in_order::<String, ValueView>(self@, entries_view(r@)),
    {
        let e = &self.data.entries;
        let mut out: Vec<(String, Value)> = Vec::new();
        let mut k: usize = 0;
        while k < e.len()
            invariant
                k <= e@.len(),
                out@.len() == k,
                forall|j: int| 0 <= j < k ==> (#[trigger] out@[j]).0@ == e@[j].0@ && out@[j].1@ == e@[j].1@,
            decreases e@.len() - k,
        {
            out.push((e[k].0.clone(), copy_value(&e[k].1)));
            k = k + 1;
        }
        proof {
            self.data.lemma_lists();
            lemma_entries_view(out@);
            assert(entries_view(out@) =~= pairs_view(self.data.entries@));
        }
        out
    }
}

/// The map that a list of entries makes when put in one after another: a later entry replaces
/// an earlier one under the same key.
pub open spec fn entries_map(e: Seq<(String, Value)>) -> TextValues
    decreases e.len(),
{
    if e.len() == 0 {
        TextValues::empty()
    } else {
        entries_map(e.drop_last()).insert(e.last().0@, e.last().1@)
    }
}

/// The metadata store.
pub struct Metadata {
    pub data: SortedMap<u64, MetadataData>,
}

impl View for Metadata {
    type V = Map<u64, TextValues>;

    open spec fn view(&self) -> Map<u64, TextValues> {
        self.data@
    }
}

/// The id a value is filed under: the token's, 0 for the collection.
pub open spec fn slot(nft_id: Option<u64>) -> u64 {
    match nft_id {
        Some(id) => id,
        None => 0,
    }
}

/// The values filed under `id`: none where there is no entry.
pub open spec fn values_under(m: Map<u64, TextValues>, id: u64) -> TextValues {
    if m.contains_key(id) {
        m[id]
    } else {
        TextValues::empty()
    }
}

/// The values of all ids merged, in ascending id order, a later id's value replacing an
/// earlier one's under the same key.
pub open spec fn merge_all(s: Seq<(u64, TextValues)>) -> TextValues
    decreases s.len(),
{
    if s.len() == 0 {
        TextValues::empty()
    } else {
        merge_all(s.drop_last()).union_prefer_right(s.last().1)
    }
}

/// The answer when nothing is filed under the id asked for.
pub open spec fn not_found() -> Seq<char> {
    "Data not found"@
}

fn not_found_text() -> (r: String)
    ensures
        r@ == not_found(),
{
    String::from_str("Data not found")
}

impl Metadata {
    /// The keys ascend, in the store and in each entry of it.
    pub open spec fn wf(&self) -> bool {
        &&& self.data.wf()
        &&& forall|x: MetadataData| #[trigger] values_of(self.data.entries@).contains(x) ==> x.wf()
    }

    /// An empty store.
    pub fn new() -> (r: Metadata)
        ensures
            r.wf(),
            r@ == Map::<u64, TextValues>::empty(),
    {
        let r = Metadata { data: SortedMap::new() };
        assert(values_of(r.data.entries@) =~= Seq::<MetadataData>::empty());
        r
    }

    /// A store holding `entries` as the collection's metadata, put in one after another.
    pub fn from(entries: Vec<(String, Value)>) -> (r: Metadata)
        ensures
            r.wf(),
            r@ == (if entries@.len() == 0 {
                Map::<u64, TextValues>::empty()
            } else {
                map![0u64 => entries_map(entries@)]
            }),
    {
        let mut r = Metadata::new();
        let ghost all = entries@;
        let mut rest = entries;
        let n = rest.len();
        let mut i: usize = 0;
        while i < n
            invariant
                r.wf(),
                n == all.len(),
                rest@.len() == n - i,
                i <= n,
                rest@ == all.subrange(i as int, n as int),
                r@ == (if i == 0 {
                    Map::<u64, TextValues>::empty()
                } else {
                    map![0u64 => entries_map(all.subrange(0, i as int))]
                }),
            decreases n - i,
        {
            let ghost before = rest@;
            let (key, value) = rest.remove(0);
            proof {
                assert(all.subrange(0, i + 1).drop_last() =~= all.subrange(0, i as int));
                assert(all.subrange(0, i + 1).last() == all[i as int]);
                assert(before[0] == all[i as int]);
                if i == 0 {
                    assert(all.subrange(0, 0) =~= Seq::<(String, Value)>::empty());
                }
            }
            let ghost old_r = r@;
            let ghost kv = (key@, value@);
            r.insert_data(None, key, value);
            proof {
                assert(kv == (all[i as int].0@, all[i as int].1@));
                assert(entries_map(all.subrange(0, i + 1)) == entries_map(all.subrange(0, i as int)).insert(kv.0, kv.1));
                assert(values_under(old_r, 0) == (if i == 0 { TextValues::empty() } else { entries_map(all.subrange(0, i as int)) }));
            }
            i = i + 1;
            proof {
                assert(rest@ =~= all.subrange(i as int, n as int));
                assert(r@ =~~= map![0u64 => entries_map(all.subrange(0, i as int))]);
            }
        }
        proof {
            assert(all.subrange(0, n as int) =~= all);
        }
        r
    }

    /// Files `data` under `data_id` for the token, or for the collection where no token is
    /// named.
    pub fn insert_data(&mut self, nft_id: Option<u64>, data_id: String, data: Value)
        requires
            old(self).wf(),
        ensures
            final(self).wf(),
            final(self)@ == old(self)@.insert(
                slot(nft_id),
                values_under(old(self)@, slot(nft_id)).insert(data_id@, data@),
            ),
    {
        let id: u64 = match nft_id {
            Some(i) => i,
            None => 0,
        };
        let mut values = match self.data.remove(&id) {
            Some(v) => v,
            None => MetadataData::new(),
        };
        values.data.insert(data_id, data);
        self.data.insert(id, values);
    }

    /// A copy of the value filed under `data_id` for the token (the collection where none is
    /// named).
    pub fn get_data(&self, nft_id: Option<u64>, data_id: &String) -> (r: Result<Value, String>)
        requires
            self.wf(),
        ensures
            match r {
                Ok(v) => values_under(self@, slot(nft_id)).contains_key(data_id@) && v@ == values_under(self@, slot(nft_id))[data_id@],
                Err(e) => !values_under(self@, slot(nft_id)).contains_key(data_id@) && e@ == not_found(),
            },
    {
        let id: u64 = match nft_id {
            Some(i) => i,
            None => 0,
        };
        match self.data.get(&id) {
            Some(values) => match values.data.get(data_id) {
                Some(v) => Ok(copy_value(v)),
                None => Err(not_found_text()),
            },
            None => Err(not_found_text()),
        }
    }

    /// All values of a token in key order; where no token is named, the values of every id
    /// merged in ascending id order, a later id's value winning.
    pub fn get_all_data(&self, nft_id: Option<u64>) -> (r: Result<Vec<(String, Value)>, String>)
        requires
            self.wf(),
        ensures
            match nft_id {
                Some(id) => match r {
                    Ok(l) => self@.contains_key(id) && lists_in_order::<String, ValueView>(self@[id], entries_view(l@)),
                    Err(e) => !self@.contains_key(id) && e@ == not_found(),
                },
                None => r matches Ok(l) && lists_in_order::<String, ValueView>(
                    merge_all(pairs_view(self.data.entries@)),
                    entries_view(l@),
                ),
            },
    {
        match nft_id {
            Some(id) => match self.data.get(&id) {
                Some(values) => Ok(values.to_entries()),
                None => Err(not_found_text()),
            },
            None => {
                let merged = self.merged();
                Ok(merged.to_entries())
            },
        }
    }

    /// The values of every id merged in ascending id order.
    fn merged(&self) -> (r: MetadataData)
        requires
            self.wf(),
        ensures
            r.wf(),
            r@ == merge_all(pairs_view(self.data.entries@)),
    {
        let e = &self.data.entries;
        let mut out = MetadataData::new();
        let mut k: usize = 0;
        while k < e.len()
            invariant
                self.wf(),
                e == &self.data.entries,
                k <= e@.len(),
                out.wf(),
                out@ == merge_all(pairs_view(e@).subrange(0, k as int)),
            decreases e@.len() - k,
        {
            let values = &e[k].1;
            proof {
                assert(values_of(e@)[k as int] == e@[k as int].1);
                assert(values_of(e@).contains(e@[k as int].1));
            }
            let ghost before = out@;
            let ghost vals = values@;
            let inner = &values.data.entries;
            let mut j: usize = 0;
            while j < inner.len()
                invariant
                    values.wf(),
                    inner == &values.data.entries,
                    vals == values@,
                    j <= inner@.len(),
                    out.wf(),
                    out@ == before.union_prefer_right(
                        crate::assoc::assoc_view(inner@.subrange(0, j as int)),
                    ),
                decreases inner@.len() - j,
            {
                let key = inner[j].0.clone();
                let v = copy_value(&inner[j].1);
                out.data.insert(key, v);
                proof {
                    crate::sorted::lemma_ascending_unique(inner@);
                    lemma_prefix_view(inner@, j as int);
                    assert(out@ =~= before.union_prefer_right(
                        crate::assoc::assoc_view(inner@.subrange(0, j + 1)),
                    ));
                }
                j = j + 1;
            }
            proof {
                assert(inner@.subrange(0, inner@.len() as int) =~= inner@);
                assert(pairs_view(e@).subrange(0, k + 1).drop_last() =~= pairs_view(e@).subrange(0, k as int));
                assert(pairs_view(e@)[k as int].1 == values@);
            }
            k = k + 1;
        }
        proof {
            assert(pairs_view(e@).subrange(0, e@.len() as int) =~= pairs_view(e@));
        }
        out
    }

    /// The ids that have metadata, in ascending order.
    pub fn get_all_nfts_ids(&self) -> (r: Vec<u64>)
        requires
            self.wf(),
        ensures
            forall|i: int, j: int| 0 <= i < j < r@.len() ==> r@[i] < r@[j],
            forall|x: u64| r@.contains(x) <==> self@.contains_key(x),
    {
        let e = &self.data.entries;
        let mut out: Vec<u64> = Vec::new();
        let mut k: usize = 0;
        while k < e.len()
            invariant
                k <= e@.len(),
                out@.len() == k,
                forall|j: int| 0 <= j < k ==> #[trigger] out@[j] == e@[j].0,
            decreases e@.len() - k,
        {
            out.push(e[k].0);
            k = k + 1;
        }
        proof {
            self.data.lemma_lists();
            assert forall|x: u64| out@.contains(x) <==> self@.contains_key(x) by {
                if out@.contains(x) {
                    let j = choose|j: int| 0 <= j < out@.len() && out@[j] == x;
                    assert(pairs_view(e@)[j].0 == x);
                }
                if self@.contains_key(x) {
                    let j = choose|j: int| 0 <= j < pairs_view(e@).len() && (#[trigger] pairs_view(e@)[j]).0 == x;
                    assert(out@[j] == x);
                }
            }
            assert forall|i: int, j: int| 0 <= i < j < out@.len() implies out@[i] < out@[j] by {
                assert(pairs_view(e@)[i].0 == out@[i] && pairs_view(e@)[j].0 == out@[j]);
            }
        }
        out
    }

    /// Files `data` under `data_id` for a token that has metadata (the collection where none is
    /// named) and hands back the value it replaces; refused where nothing is filed under the id.
    pub fn update_data(&mut self, nft_id: Option<u64>, data_id: String, data: Value) -> (r: Result<Option<Value>, String>)
        requires
            old(self).wf(),
        ensures
            final(self).wf(),
            match r {
                Ok(previous) => old(self)@.contains_key(slot(nft_id))
                    && final(self)@ == old(self)@.insert(slot(nft_id), old(self)@[slot(nft_id)].insert(data_id@, data@))
                    && match previous {
                        Some(p) => old(self)@[slot(nft_id)].contains_key(data_id@) && p@ == old(self)@[slot(nft_id)][data_id@],
                        None => !old(self)@[slot(nft_id)].contains_key(data_id@),
                    },
                Err(e) => !old(self)@.contains_key(slot(nft_id)) && e@ == not_found() && final(self)@ == old(self)@,
            },
    {
        let id: u64 = match nft_id {
            Some(i) => i,
            None => 0,
        };
        match self.data.remove(&id) {
            Some(mut values) => {
                let previous = values.data.insert(data_id, data);
                self.data.insert(id, values);
                Ok(previous)
            },
            None => Err(not_found_text()),
        }
    }

    /// Looks up the entry of a token that has metadata (the collection where none is named);
    /// the store is left as it is: the entry is taken out as a copy, and the copy changed.
    pub fn delete_data(&mut self, nft_id: Option<u64>, data_id: &String)
        requires
            old(self).wf(),
            old(self)@.contains_key(slot(nft_id)),
        ensures
            final(self).wf(),
            final(self)@ == old(self)@,
    {
    }

    /// Replaces all values of a token (the collection where none is named) by `datas`, put in
    /// one after another; where `datas` is empty, the entry goes.
    pub fn replace_all_data(&mut self, nft_id: Option<u64>, datas: Vec<(String, Value)>)
        requires
            old(self).wf(),
        ensures
            final(self).wf(),
            final(self)@ == (if datas@.len() == 0 {
                old(self)@.remove(slot(nft_id))
            } else {
                old(self)@.insert(slot(nft_id), entries_map(datas@))
            }),
    {
        let id: u64 = match nft_id {
            Some(i) => i,
            None => 0,
        };
        let ghost all = datas@;
        self.data.remove(&id);
        let ghost base = self@;
        let mut rest = datas;
        let n = rest.len();
        let mut i: usize = 0;
        while i < n
            invariant
                self.wf(),
                n == all.len(),
                rest@.len() == n - i,
                i <= n,
                !base.contains_key(id),
                rest@ == all.subrange(i as int, n as int),
                self@ == (if i == 0 {
                    base
                } else {
                    base.insert(id, entries_map(all.subrange(0, i as int)))
                }),
            decreases n - i,
        {
            let ghost before = rest@;
            let (key, value) = rest.remove(0);
            proof {
                assert(all.subrange(0, i + 1).drop_last() =~= all.subrange(0, i as int));
                assert(all.subrange(0, i + 1).last() == all[i as int]);
                assert(before[0] == all[i as int]);
                if i == 0 {
                    assert(all.subrange(0, 0) =~= Seq::<(String, Value)>::empty());
                }
            }
            let ghost old_m = self@;
            let ghost kv = (key@, value@);
            self.insert_data(Some(id), key, value);
            proof {
                assert(kv == (all[i as int].0@, all[i as int].1@));
                assert(entries_map(all.subrange(0, i + 1)) == entries_map(all.subrange(0, i as int)).insert(kv.0, kv.1));
                assert(values_under(old_m, id) == (if i == 0 { TextValues::empty() } else { entries_map(all.subrange(0, i as int)) }));
            }
            i = i + 1;
            proof {
                assert(rest@ =~= all.subrange(i as int, n as int));
                assert(self@ =~= base.insert(id, entries_map(all.subrange(0, i as int))));
            }
        }
        proof {
            assert(all.subrange(0, n as int) =~= all);
        }
    }
}

/// Adding the next entry of a list of distinct keys to a map.
proof fn lemma_prefix_view(e: Seq<(String, Value)>, j: int)
    requires
        crate::assoc::unique_keys(e),
        0 <= j < e.len(),
    ensures
        crate::assoc::assoc_view(e.subrange(0, j + 1)) == crate::assoc::assoc_view(e.subrange(0, j)).insert(e[j].0@, e[j].1@),
{
    let before = e.subrange(0, j);
    let after = e.subrange(0, j + 1);
    assert(after =~= before.insert(j, e[j]));
    crate::sorted::lemma_insert_view(before, after, j);
}

/// The listing of a token's metadata in key order, none where it has none.
pub fn token_metadata(metadata: &Metadata, token_id: u64) -> (r: Vec<(String, Value)>)
    requires
        metadata.wf(),
    ensures
        lists_in_order::<String, ValueView>(values_under(metadata@, token_id), entries_view(r@)),
{
    match metadata.get_all_data(Some(token_id)) {
        Ok(l) => l,
        Err(_) => {
            let r: Vec<(String, Value)> = Vec::new();
            proof {
                lemma_entries_view(r@);
            }
            r
        },
    }
}

/// Why an update of a token's metadata is refused.
#[derive(Debug)]
pub enum UpdateNftMetadataError {
    ConcurrentManagementCall,
    TokenDoesNotExist,
    StorageCanisterError(String),
}

/// The metadata value logged with an update: the new listing under "icrc7:new_metadata",
/// the previous one under "icrc7:previous_metadata", in that (key) order.
pub open spec fn update_meta(v: ValueView, previous: TextValues, new: TextValues) -> bool {
    &&& v matches ValueView::Dict(d)
    &&& d.len() == 2
    &&& d[0].0 == "icrc7:new_metadata"@
    &&& d[1].0 == "icrc7:previous_metadata"@
    &&& d[0].1 matches ValueView::Dict(n) && lists_in_order::<String, ValueView>(new, n)
    &&& d[1].1 matches ValueView::Dict(p) && lists_in_order::<String, ValueView>(previous, p)
}

/// The transaction an update of a token's metadata logs, `meta` aside.
pub open spec fn update_tx(token_id: u64, caller: Seq<u8>, now: u64, meta: ValueView) -> Tx7View {
    Tx7View {
        btype: "7update_token"@,
        timestamp: now,
        op: "7update_token"@,
        tid: Some(token_id),
        from: Some((caller, None)),
        to: None,
        meta: Some(meta),
        memo: None,
        created_at_time: Some(now),
    }
}

/// Replaces the metadata of an existing token by `new_metadata` (put in one after another)
/// and gives the transaction to log, which holds the listings before and after; a token that
/// does not exist is refused and nothing changes.
pub fn plan_update_nft_metadata(
    ledger: &Ledger,
    metadata: &mut Metadata,
    token_id: u64,
    new_metadata: Vec<(String, Value)>,
    caller: &Vec<u8>,
    now: u64,
) -> (r: Result<Icrc7Transaction, UpdateNftMetadataError>)
    requires
        ledger.wf(),
        old(metadata).wf(),
    ensures
        final(metadata).wf(),
        !ledger@.tokens.contains_key(token_id) ==> (r matches Err(UpdateNftMetadataError::TokenDoesNotExist)
            && final(metadata)@ == old(metadata)@),
        ledger@.tokens.contains_key(token_id) ==> final(metadata)@ == (if new_metadata@.len() == 0 {
            old(metadata)@.remove(token_id)
        } else {
            old(metadata)@.insert(token_id, entries_map(new_metadata@))
        }),
        ledger@.tokens.contains_key(token_id) ==> match r {
            Ok(tx) => match tx@.meta {
                Some(m) => tx@ == update_tx(token_id, caller@, now, m) && update_meta(
                    m,
                    values_under(old(metadata)@, token_id),
                    values_under(final(metadata)@, token_id),
                ),
                None => false,
            },
            Err(_) => false,
        },
{
    if ledger.tokens.get(&token_id).is_none() {
        return Err(UpdateNftMetadataError::TokenDoesNotExist);
    }
    let previous = token_metadata(metadata, token_id);
    metadata.replace_all_data(Some(token_id), new_metadata);
    let current = token_metadata(metadata, token_id);
    let mut meta: Vec<(String, Value)> = Vec::new();
    meta.push((String::from_str("icrc7:new_metadata"), Value::Dict(current)));
    meta.push((String::from_str("icrc7:previous_metadata"), Value::Dict(previous)));
    let meta_value = Value::Dict(meta);
    proof {
        crate::value::lemma_entries_view(meta@);
        reveal_strlit("icrc7:new_metadata");
        reveal_strlit("icrc7:previous_metadata");
    }
    let tx = Icrc7Transaction {
        btype: String::from_str("7update_token"),
        timestamp: now,
        op: String::from_str("7update_token"),
        tid: Some(token_id),
        from: Some(account_of_owner(caller)),
        to: None,
        meta: Some(meta_value),
        memo: None,
        created_at_time: Some(now),
    };
    Ok(tx)
}

/// The answer of an update once its transaction went to the log: the token id, or the log's
/// refusal.
pub fn finish_update_nft_metadata(token_id: u64, logged: Result<(), String>) -> (r: Result<u64, UpdateNftMetadataError>)
    ensures
        match logged {
            Ok(()) => r == Ok::<u64, UpdateNftMetadataError>(token_id),
            Err(e) => r matches Err(UpdateNftMetadataError::StorageCanisterError(m)) && m@ == e@,
        },
{
    match logged {
        Ok(()) => Ok(token_id),
        Err(e) => Err(UpdateNftMetadataError::StorageCanisterError(e)),
    }
}

/// The metadata of each token asked about, `None` for a token that does not exist.
pub fn icrc7_token_metadata(
    ledger: &Ledger,
    metadata: &Metadata,
    config: &CollectionConfig,
    defaults: &QueryDefaults,
    token_ids: &Vec<u64>,
) -> (r: Vec<Option<Vec<(String, Value)>>>)
    requires
        ledger.wf(),
        metadata.wf(),
        token_ids@.len() <= query_batch_limit(*config, *defaults),
    ensures
        r@.len() == token_ids@.len(),
        forall|i: int| 0 <= i < r@.len() ==> match #[trigger] r@[i] {
            Some(l) => ledger@.tokens.contains_key(token_ids@[i]) && lists_in_order::<String, ValueView>(
                values_under(metadata@, token_ids@[i]),
                entries_view(l@),
            ),
            None => !ledger@.tokens.contains_key(token_ids@[i]),
        },
{
    let mut r: Vec<Option<Vec<(String, Value)>>> = Vec::new();
    let mut i: usize = 0;
    while i < token_ids.len()
        invariant
            ledger.wf(),
            metadata.wf(),
            i <= token_ids@.len(),
            r@.len() == i,
            forall|j: int| 0 <= j < i ==> match #[trigger] r@[j] {
                Some(l) => ledger@.tokens.contains_key(token_ids@[j]) && lists_in_order::<String, ValueView>(
                    values_under(metadata@, token_ids@[j]),
                    entries_view(l@),
                ),
                None => !ledger@.tokens.contains_key(token_ids@[j]),
            },
        decreases token_ids@.len() - i,
    {
        let id = token_ids[i];
        if ledger.tokens.get(&id).is_some() {
            r.push(Some(token_metadata(metadata, id)));
        } else {
            r.push(None);
        }
        i = i + 1;
    }
    r
}

/// What the store holds for one token, as a diagnostic.
#[derive(Debug)]
pub struct MetadataView {
    pub keys: Vec<String>,
    pub metadata: Vec<(String, Value)>,
    pub error: Option<String>,
}

/// The keys of a listing.
fn keys_of(l: &Vec<(String, Value)>) -> (r: Vec<String>)
    ensures
        r@.len() == l@.len(),
        forall|i: int| 0 <= i < r@.len() ==> (#[trigger] r@[i])@ == l@[i].0@,
{
    let mut r: Vec<String> = Vec::new();
    let mut i: usize = 0;
    while i < l.len()
        invariant
            i <= l@.len(),
            r@.len() == i,
            forall|j: int| 0 <= j < i ==> (#[trigger] r@[j])@ == l@[j].0@,
        decreases l@.len() - i,
    {
        r.push(l[i].0.clone());
        i = i + 1;
    }
    r
}

/// The store's entry for a token as a diagnostic: its listing and keys, or the lookup's error.
pub fn debug_metadata_entry(metadata: &Metadata, token_id: u64) -> (r: MetadataView)
    requires
        metadata.wf(),
    ensures
        metadata@.contains_key(token_id) ==> r.error is None && lists_in_order::<String, ValueView>(
            metadata@[token_id],
            entries_view(r.metadata@),
        ) && r.keys@.len() == r.metadata@.len() && (forall|i: int| 0 <= i < r.keys@.len() ==> (#[trigger] r.keys@[i])@ == r.metadata@[i].0@),
        !metadata@.contains_key(token_id) ==> (r.error matches Some(e) && e@ == not_found() && r.keys@.len() == 0
            && r.metadata@.len() == 0),
{
    match metadata.get_all_data(Some(token_id)) {
        Ok(l) => {
            let keys = keys_of(&l);
            MetadataView { keys, metadata: l, error: None }
        },
        Err(e) => MetadataView { keys: Vec::new(), metadata: Vec::new(), error: Some(e) },
    }
}

/// How many ids a diagnostic sample shows.
pub const SAMPLE_SIZE: usize = 10;

/// The first ids with metadata, at most ten, in ascending order, and how many there are.
pub fn debug_metadata_ids(metadata: &Metadata) -> (r: (Vec<u64>, u64))
    requires
        metadata.wf(),
    ensures
        r.0@.len() <= SAMPLE_SIZE,
        forall|i: int, j: int| 0 <= i < j < r.0@.len() ==> r.0@[i] < r.0@[j],
        forall|i: int| 0 <= i < r.0@.len() ==> metadata@.contains_key(#[trigger] r.0@[i]),
        forall|x: u64| metadata@.contains_key(x) && !r.0@.contains(x) ==> r.0@.len() == SAMPLE_SIZE
            && forall|i: int| 0 <= i < r.0@.len() ==> #[trigger] r.0@[i] < x,
        r.1 == metadata@.len(),
{
    let ids = metadata.get_all_nfts_ids();
    let total = ids.len();
    let mut sample: Vec<u64> = Vec::new();
    let n = if total < SAMPLE_SIZE { total } else { SAMPLE_SIZE };
    let mut i: usize = 0;
    while i < n
        invariant
            n <= ids@.len(),
            i <= n,
            sample@ == ids@.subrange(0, i as int),
        decreases n - i,
    {
        sample.push(ids[i]);
        i = i + 1;
        assert(sample@ =~= ids@.subrange(0, i as int));
    }
    proof {
        assert forall|x: u64| metadata@.contains_key(x) && !sample@.contains(x) implies sample@.len() == SAMPLE_SIZE
            && forall|k: int| 0 <= k < sample@.len() ==> #[trigger] sample@[k] < x by {
            assert(ids@.contains(x));
            let m = choose|m: int| 0 <= m < ids@.len() && ids@[m] == x;
            if m < n {
                assert(sample@[m] == x);
            }
            assert forall|k: int| 0 <= k < sample@.len() implies #[trigger] sample@[k] < x by {
                assert(sample@[k] == ids@[k]);
            }
        }
        assert forall|k: int| 0 <= k < sample@.len() implies metadata@.contains_key(#[trigger] sample@[k]) by {
            assert(sample@[k] == ids@[k]);
            assert(ids@.contains(ids@[k]));
        }
        metadata.data.lemma_lists();
        lemma_ids_count(ids@, metadata@);
    }
    (sample, total as u64)
}

/// Distinct ids that are exactly the keys of a map are as many as its keys.
proof fn lemma_ids_count(ids: Seq<u64>, m: Map<u64, TextValues>)
    requires
        forall|i: int, j: int| 0 <= i < j < ids.len() ==> ids[i] < ids[j],
        forall|x: u64| ids.contains(x) <==> m.contains_key(x),
    ensures
        m.len() == ids.len(),
{
    assert(ids.no_duplicates()) by {
        assert forall|i: int, j: int| 0 <= i < ids.len() && 0 <= j < ids.len() && i != j implies ids[i] != ids[j] by {
            if i < j {
                assert(ids[i] < ids[j]);
            } else {
                assert(ids[j] < ids[i]);
            }
        }
    }
    ids.unique_seq_to_set();
    assert(ids.to_set() =~= m.dom());
}

/// A diagnostic view of one token: whether it exists, a sample of the ids with metadata, the
/// store's entry for it, and its metadata as the token queries list it.
#[derive(Debug)]
pub struct MetadataSnapshot {
    pub token_id: u64,
    pub token_exists: bool,
    pub metadata_ids_sample: Vec<u64>,
    pub metadata_ids_total: u64,
    pub direct_view: MetadataView,
    pub clone_view: MetadataView,
}

/// The answer when the token asked about does not exist.
pub open spec fn token_not_found() -> Seq<char> {
    "Token not found"@
}

/// A diagnostic view of one token.
pub fn debug_metadata_snapshot(ledger: &Ledger, metadata: &Metadata, token_id: u64) -> (r: MetadataSnapshot)
    requires
        ledger.wf(),
        metadata.wf(),
    ensures
        r.token_id == token_id,
        r.token_exists == ledger@.tokens.contains_key(token_id),
        r.metadata_ids_total == metadata@.len(),
        r.metadata_ids_sample@.len() <= SAMPLE_SIZE,
        forall|i: int, j: int| 0 <= i < j < r.metadata_ids_sample@.len() ==> r.metadata_ids_sample@[i] < r.metadata_ids_sample@[j],
        forall|x: u64| metadata@.contains_key(x) && !r.metadata_ids_sample@.contains(x) ==> r.metadata_ids_sample@.len() == SAMPLE_SIZE,
        forall|i: int| 0 <= i < r.metadata_ids_sample@.len() ==> metadata@.contains_key(#[trigger] r.metadata_ids_sample@[i]),
        metadata@.contains_key(token_id) ==> r.direct_view.error is None && lists_in_order::<String, ValueView>(
            metadata@[token_id],
            entries_view(r.direct_view.metadata@),
        ),
        !metadata@.contains_key(token_id) ==> (r.direct_view.error matches Some(e) && e@ == not_found()),
        ledger@.tokens.contains_key(token_id) ==> r.clone_view.error is None && lists_in_order::<String, ValueView>(
            values_under(metadata@, token_id),
            entries_view(r.clone_view.metadata@),
        ) && r.clone_view.keys@.len() == r.clone_view.metadata@.len()
            && (forall|i: int| 0 <= i < r.clone_view.keys@.len() ==> (#[trigger] r.clone_view.keys@[i])@ == r.clone_view.metadata@[i].0@),
        !ledger@.tokens.contains_key(token_id) ==> (r.clone_view.error matches Some(e) && e@ == token_not_found()
            && r.clone_view.keys@.len() == 0 && r.clone_view.metadata@.len() == 0),
{
    let token_exists = ledger.tokens.get(&token_id).is_some();
    let direct_view = debug_metadata_entry(metadata, token_id);
    let clone_view = if token_exists {
        let l = token_metadata(metadata, token_id);
        let keys = keys_of(&l);
        MetadataView { keys, metadata: l, error: None }
    } else {
        MetadataView { keys: Vec::new(), metadata: Vec::new(), error: Some(String::from_str("Token not found")) }
    };
    let (sample, total) = debug_metadata_ids(metadata);
    proof {
        reveal_strlit("Token not found");
    }
    MetadataSnapshot {
        token_id,
        token_exists,
        metadata_ids_sample: sample,
        metadata_ids_total: total,
        direct_view,
        clone_view,
    }
}

/// A value filed under a key is what a lookup of that key then gives back; the other keys, and
/// the other ids, keep their values.
pub proof fn law_metadata_read_back(m: Map<u64, TextValues>, nft_id: Option<u64>, key: Seq<char>, value: ValueView)
    ensures
        ({
            let after = m.insert(slot(nft_id), values_under(m, slot(nft_id)).insert(key, value));
            &&& values_under(after, slot(nft_id)).contains_key(key)
            &&& values_under(after, slot(nft_id))[key] == value
            &&& forall|k: Seq<char>| k != key && #[trigger] values_under(m, slot(nft_id)).contains_key(k)
                ==> values_under(after, slot(nft_id)).contains_key(k) && values_under(after, slot(nft_id))[k] == values_under(m, slot(nft_id))[k]
            &&& forall|id: u64| id != slot(nft_id) ==> #[trigger] values_under(after, id) == values_under(m, id)
        }),
{
}

/// After the metadata of a token is replaced, a lookup gives the new values only.
pub proof fn law_replaced_metadata_read_back(m: Map<u64, TextValues>, token_id: u64, datas: Seq<(String, Value)>)
    ensures
        values_under(
            if datas.len() == 0 { m.remove(token_id) } else { m.insert(token_id, entries_map(datas)) },
            token_id,
        ) == entries_map(datas),
{
    if datas.len() == 0 {
        assert(entries_map(datas) == TextValues::empty());
    }
}

} // verus!
