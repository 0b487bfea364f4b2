//! The collection's settings and its ICRC-7 management operations: updating the settings,
//! listing them as metadata, minting and burning.
use vstd::prelude::*;

use crate::account::{copy_account, same_bytes, Account, AccountView};
use crate::assoc::AssocList;
use crate::ledger::{ids_or_empty, opt_account, opt_bytes, copy_opt_bytes, Ledger, LedgerView};
use crate::sorted::{
    keys_ascending, keys_before, lemma_append_greatest_key, lemma_append_key_before,
    lemma_text_lt_at, text_lt,
};
use crate::metadata::{entries_map, values_under, Metadata, TextValues};
use crate::value::{copy_value, Nat, Value, ValueView};

verus! {

/// The settings and descriptive metadata of the collection.
#[derive(Debug)]
pub struct CollectionConfig {
    pub symbol: String,
    pub name: String,
    pub description: Option<String>,
    pub logo: Option<String>,
    pub supply_cap: Option<Nat>,
    pub max_query_batch_size: Option<Nat>,
    pub max_update_batch_size: Option<Nat>,
    pub max_take_value: Option<Nat>,
    pub default_take_value: Option<Nat>,
    pub max_memo_size: Option<Nat>,
    pub atomic_batch_transfers: Option<bool>,
    pub tx_window: Option<Nat>,
    pub permitted_drift: Option<Nat>,
    pub max_canister_storage_threshold: Option<Nat>,
    pub is_prod: bool,
}

/// A request to change some settings; the unset ones are left as they are.
#[derive(Debug)]
pub struct UpdateCollectionMetadataArgs {
    pub description: Option<String>,
    pub symbol: Option<String>,
    pub name: Option<String>,
    pub logo: Option<String>,
    pub supply_cap: Option<Nat>,
    pub max_query_batch_size: Option<Nat>,
    pub max_update_batch_size: Option<Nat>,
    pub max_take_value: Option<Nat>,
    pub default_take_value: Option<Nat>,
    pub max_memo_size: Option<Nat>,
    pub atomic_batch_transfers: Option<bool>,
    pub tx_window: Option<Nat>,
    pub permitted_drift: Option<Nat>,
    pub max_canister_storage_threshold: Option<Nat>,
    pub collection_metadata: Option<Vec<(String, Value)>>,
    pub is_prod: Option<bool>,
}

/// Why an update of the settings is refused.
#[derive(Debug)]
pub enum UpdateCollectionMetadataError {
    ConcurrentManagementCall,
    StorageCanisterError(String),
}

/// Why a transaction brought over from another log is refused.
#[derive(Debug)]
pub enum MigrationIcrc3AddTransactionError {
    DefaultError(String),
}

/// The new value of an optional setting: the requested one where there is one.
pub open spec fn updated_opt<T>(old: Option<T>, new: Option<T>) -> Option<T> {
    if new is Some { new } else { old }
}

/// The new value of a required setting: the requested one where there is one.
pub open spec fn updated<T>(old: T, new: Option<T>) -> T {
    match new {
        Some(v) => v,
        None => old,
    }
}

/// The settings after a request.
pub open spec fn updated_config(c: CollectionConfig, req: UpdateCollectionMetadataArgs) -> CollectionConfig {
    CollectionConfig {
        symbol: updated(c.symbol, req.symbol),
        name: updated(c.name, req.name),
        description: updated_opt(c.description, req.description),
        logo: updated_opt(c.logo, req.logo),
        supply_cap: updated_opt(c.supply_cap, req.supply_cap),
        max_query_batch_size: updated_opt(c.max_query_batch_size, req.max_query_batch_size),
        max_update_batch_size: updated_opt(c.max_update_batch_size, req.max_update_batch_size),
        max_take_value: updated_opt(c.max_take_value, req.max_take_value),
        default_take_value: updated_opt(c.default_take_value, req.default_take_value),
        max_memo_size: updated_opt(c.max_memo_size, req.max_memo_size),
        atomic_batch_transfers: updated_opt(c.atomic_batch_transfers, req.atomic_batch_transfers),
        tx_window: updated_opt(c.tx_window, req.tx_window),
        permitted_drift: updated_opt(c.permitted_drift, req.permitted_drift),
        max_canister_storage_threshold: updated_opt(c.max_canister_storage_threshold, req.max_canister_storage_threshold),
        is_prod: updated(c.is_prod, req.is_prod),
    }
}

/// Applies a request: each setting given is replaced, the others are kept. The collection
/// metadata map of the request is not used.
pub fn update_collection_metadata(config: &mut CollectionConfig, req: UpdateCollectionMetadataArgs)
    ensures
        *final(config) == updated_config(*old(config), req),
{
    let ghost r = req;
    let UpdateCollectionMetadataArgs {
        description,
        symbol,
        name,
        logo,
        supply_cap,
        max_query_batch_size,
        max_update_batch_size,
        max_take_value,
        default_take_value,
        max_memo_size,
        atomic_batch_transfers,
        tx_window,
        permitted_drift,
        max_canister_storage_threshold,
        collection_metadata: _,
        is_prod,
    } = req;
    set_opt_if(&mut config.description, description);
    set_if(&mut config.symbol, symbol);
    set_if(&mut config.name, name);
    set_opt_if(&mut config.logo, logo);
    set_opt_if(&mut config.supply_cap, supply_cap);
    set_opt_if(&mut config.max_query_batch_size, max_query_batch_size);
    set_opt_if(&mut config.max_update_batch_size, max_update_batch_size);
    set_opt_if(&mut config.max_take_value, max_take_value);
    set_opt_if(&mut config.default_take_value, default_take_value);
    set_opt_if(&mut config.max_memo_size, max_memo_size);
    set_opt_if(&mut config.atomic_batch_transfers, atomic_batch_transfers);
    set_opt_if(&mut config.tx_window, tx_window);
    set_opt_if(&mut config.permitted_drift, permitted_drift);
    set_opt_if(&mut config.max_canister_storage_threshold, max_canister_storage_threshold);
    set_if(&mut config.is_prod, is_prod);
}

fn set_if<T>(slot: &mut T, new: Option<T>)
    ensures
        *final(slot) == updated(*old(slot), new),
{
    if let Some(v) = new {
        *slot = v;
    }
}

fn set_opt_if<T>(slot: &mut Option<T>, new: Option<T>)
    ensures
        *final(slot) == updated_opt(*old(slot), new),
{
    if new.is_some() {
        *slot = new;
    }
}

/// What a metadata value is, for the values the collection lists.
pub ghost enum MetaValue {
    Text(Seq<char>),
    Nat(nat),
    Other,
}

/// The view of a listed value.
pub open spec fn meta_value(v: Value) -> MetaValue {
    match v {
        Value::Text(t) => MetaValue::Text(t@),
        Value::Nat(n) => MetaValue::Nat(n.value()),
        _ => MetaValue::Other,
    }
}

/// The view of a metadata list.
pub open spec fn meta_list(l: Seq<(String, Value)>) -> Seq<(Seq<char>, MetaValue)> {
    l.map_values(|e: (String, Value)| (e.0@, meta_value(e.1)))
}

/// An entry for an optional text setting.
pub open spec fn text_entry(key: Seq<char>, v: Option<String>) -> Seq<(Seq<char>, MetaValue)> {
    match v {
        Some(s) => seq![(key, MetaValue::Text(s@))],
        None => Seq::empty(),
    }
}

/// An entry for an optional number setting.
pub open spec fn nat_entry(key: Seq<char>, v: Option<Nat>) -> Seq<(Seq<char>, MetaValue)> {
    match v {
        Some(n) => seq![(key, MetaValue::Nat(n.value()))],
        None => Seq::empty(),
    }
}

/// The text of a flag.
pub open spec fn bool_text(b: bool) -> Seq<char> {
    if b { "true"@ } else { "false"@ }
}

/// The collection's metadata, each entry present where its setting is, in the order of
/// their keys.
pub open spec fn collection_metadata_of(c: CollectionConfig, total_supply: Nat) -> Seq<(Seq<char>, MetaValue)> {
    (match c.atomic_batch_transfers {
        Some(b) => seq![("icrc7:atomic_batch_transfers"@, MetaValue::Text(bool_text(b)))],
        None => Seq::empty(),
    }) + nat_entry("icrc7:default_take_value"@, c.default_take_value) + text_entry(
        "icrc7:description"@,
        c.description,
    ) + text_entry("icrc7:logo"@, c.logo) + nat_entry("icrc7:max_memo_size"@, c.max_memo_size) + nat_entry(
        "icrc7:max_query_batch_size"@,
        c.max_query_batch_size,
    ) + nat_entry("icrc7:max_take_value"@, c.max_take_value) + nat_entry(
        "icrc7:max_update_batch_size"@,
        c.max_update_batch_size,
    ) + seq![("icrc7:name"@, MetaValue::Text(c.name@))] + nat_entry("icrc7:permitted_drift"@, c.permitted_drift)
        + nat_entry("icrc7:supply_cap"@, c.supply_cap) + seq![("icrc7:symbol"@, MetaValue::Text(c.symbol@))]
        + seq![("icrc7:total_supply"@, MetaValue::Nat(total_supply.value()))] + nat_entry(
        "icrc7:tx_window"@,
        c.tx_window,
    )
}

/// The keys of the collection metadata, in the order they are listed, ascend.
proof fn lemma_collection_keys_ascend()
    ensures
        text_lt("icrc7:atomic_batch_transfers"@, "icrc7:default_take_value"@),
        text_lt("icrc7:default_take_value"@, "icrc7:description"@),
        text_lt("icrc7:description"@, "icrc7:logo"@),
        text_lt("icrc7:logo"@, "icrc7:max_memo_size"@),
        text_lt("icrc7:max_memo_size"@, "icrc7:max_query_batch_size"@),
        text_lt("icrc7:max_query_batch_size"@, "icrc7:max_take_value"@),
        text_lt("icrc7:max_take_value"@, "icrc7:max_update_batch_size"@),
        text_lt("icrc7:max_update_batch_size"@, "icrc7:name"@),
        text_lt("icrc7:name"@, "icrc7:permitted_drift"@),
        text_lt("icrc7:permitted_drift"@, "icrc7:supply_cap"@),
        text_lt("icrc7:supply_cap"@, "icrc7:symbol"@),
        text_lt("icrc7:symbol"@, "icrc7:total_supply"@),
        text_lt("icrc7:total_supply"@, "icrc7:tx_window"@),
{
    reveal_strlit("icrc7:atomic_batch_transfers");
    reveal_strlit("icrc7:default_take_value");
    reveal_strlit("icrc7:description");
    reveal_strlit("icrc7:logo");
    reveal_strlit("icrc7:max_memo_size");
    reveal_strlit("icrc7:max_query_batch_size");
    reveal_strlit("icrc7:max_take_value");
    reveal_strlit("icrc7:max_update_batch_size");
    reveal_strlit("icrc7:name");
    reveal_strlit("icrc7:permitted_drift");
    reveal_strlit("icrc7:supply_cap");
    reveal_strlit("icrc7:symbol");
    reveal_strlit("icrc7:total_supply");
    reveal_strlit("icrc7:tx_window");
    assert("icrc7:atomic_batch_transfers"@.subrange(0, 6) =~= "icrc7:default_take_value"@.subrange(0, 6));
    lemma_text_lt_at("icrc7:atomic_batch_transfers"@, "icrc7:default_take_value"@, 6);
    assert("icrc7:default_take_value"@.subrange(0, 8) =~= "icrc7:description"@.subrange(0, 8));
    lemma_text_lt_at("icrc7:default_take_value"@, "icrc7:description"@, 8);
    assert("icrc7:description"@.subrange(0, 6) =~= "icrc7:logo"@.subrange(0, 6));
    lemma_text_lt_at("icrc7:description"@, "icrc7:logo"@, 6);
    assert("icrc7:logo"@.subrange(0, 6) =~= "icrc7:max_memo_size"@.subrange(0, 6));
    lemma_text_lt_at("icrc7:logo"@, "icrc7:max_memo_size"@, 6);
    assert("icrc7:max_memo_size"@.subrange(0, 10) =~= "icrc7:max_query_batch_size"@.subrange(0, 10));
    lemma_text_lt_at("icrc7:max_memo_size"@, "icrc7:max_query_batch_size"@, 10);
    assert("icrc7:max_query_batch_size"@.subrange(0, 10) =~= "icrc7:max_take_value"@.subrange(0, 10));
    lemma_text_lt_at("icrc7:max_query_batch_size"@, "icrc7:max_take_value"@, 10);
    assert("icrc7:max_take_value"@.subrange(0, 10) =~= "icrc7:max_update_batch_size"@.subrange(0, 10));
    lemma_text_lt_at("icrc7:max_take_value"@, "icrc7:max_update_batch_size"@, 10);
    assert("icrc7:max_update_batch_size"@.subrange(0, 6) =~= "icrc7:name"@.subrange(0, 6));
    lemma_text_lt_at("icrc7:max_update_batch_size"@, "icrc7:name"@, 6);
    assert("icrc7:name"@.subrange(0, 6) =~= "icrc7:permitted_drift"@.subrange(0, 6));
    lemma_text_lt_at("icrc7:name"@, "icrc7:permitted_drift"@, 6);
    assert("icrc7:permitted_drift"@.subrange(0, 6) =~= "icrc7:supply_cap"@.subrange(0, 6));
    lemma_text_lt_at("icrc7:permitted_drift"@, "icrc7:supply_cap"@, 6);
    assert("icrc7:supply_cap"@.subrange(0, 7) =~= "icrc7:symbol"@.subrange(0, 7));
    lemma_text_lt_at("icrc7:supply_cap"@, "icrc7:symbol"@, 7);
    assert("icrc7:symbol"@.subrange(0, 6) =~= "icrc7:total_supply"@.subrange(0, 6));
    lemma_text_lt_at("icrc7:symbol"@, "icrc7:total_supply"@, 6);
    assert("icrc7:total_supply"@.subrange(0, 7) =~= "icrc7:tx_window"@.subrange(0, 7));
    lemma_text_lt_at("icrc7:total_supply"@, "icrc7:tx_window"@, 7);
}

/// The collection metadata lists its entries in strictly ascending order of keys, so no key
/// occurs twice.
pub proof fn law_collection_metadata_sorted(c: CollectionConfig, total_supply: Nat)
    ensures
        keys_ascending(collection_metadata_of(c, total_supply)),
{
    lemma_collection_keys_ascend();
    let s0 = (match c.atomic_batch_transfers {
        Some(b) => seq![("icrc7:atomic_batch_transfers"@, MetaValue::Text(bool_text(b)))],
        None => Seq::<(Seq<char>, MetaValue)>::empty(),
    });
    let mut acc = s0;
    assert(keys_ascending(acc));
    assert(keys_before(acc, "icrc7:default_take_value"@));
    let t1 = nat_entry("icrc7:default_take_value"@, c.default_take_value);
    lemma_append_key_before(acc, t1, "icrc7:default_take_value"@, "icrc7:description"@);
    acc = acc + t1;
    let t2 = text_entry("icrc7:description"@, c.description);
    lemma_append_key_before(acc, t2, "icrc7:description"@, "icrc7:logo"@);
    acc = acc + t2;
    let t3 = text_entry("icrc7:logo"@, c.logo);
    lemma_append_key_before(acc, t3, "icrc7:logo"@, "icrc7:max_memo_size"@);
    acc = acc + t3;
    let t4 = nat_entry("icrc7:max_memo_size"@, c.max_memo_size);
    lemma_append_key_before(acc, t4, "icrc7:max_memo_size"@, "icrc7:max_query_batch_size"@);
    acc = acc + t4;
    let t5 = nat_entry("icrc7:max_query_batch_size"@, c.max_query_batch_size);
    lemma_append_key_before(acc, t5, "icrc7:max_query_batch_size"@, "icrc7:max_take_value"@);
    acc = acc + t5;
    let t6 = nat_entry("icrc7:max_take_value"@, c.max_take_value);
    lemma_append_key_before(acc, t6, "icrc7:max_take_value"@, "icrc7:max_update_batch_size"@);
    acc = acc + t6;
    let t7 = nat_entry("icrc7:max_update_batch_size"@, c.max_update_batch_size);
    lemma_append_key_before(acc, t7, "icrc7:max_update_batch_size"@, "icrc7:name"@);
    acc = acc + t7;
    let t8 = seq![("icrc7:name"@, MetaValue::Text(c.name@))];
    lemma_append_key_before(acc, t8, "icrc7:name"@, "icrc7:permitted_drift"@);
    acc = acc + t8;
    let t9 = nat_entry("icrc7:permitted_drift"@, c.permitted_drift);
    lemma_append_key_before(acc, t9, "icrc7:permitted_drift"@, "icrc7:supply_cap"@);
    acc = acc + t9;
    let t10 = nat_entry("icrc7:supply_cap"@, c.supply_cap);
    lemma_append_key_before(acc, t10, "icrc7:supply_cap"@, "icrc7:symbol"@);
    acc = acc + t10;
    let t11 = seq![("icrc7:symbol"@, MetaValue::Text(c.symbol@))];
    lemma_append_key_before(acc, t11, "icrc7:symbol"@, "icrc7:total_supply"@);
    acc = acc + t11;
    let t12 = seq![("icrc7:total_supply"@, MetaValue::Nat(total_supply.value()))];
    lemma_append_key_before(acc, t12, "icrc7:total_supply"@, "icrc7:tx_window"@);
    acc = acc + t12;
    let t13 = nat_entry("icrc7:tx_window"@, c.tx_window);
    lemma_append_greatest_key(acc, t13, "icrc7:tx_window"@);
    acc = acc + t13;
    assert(acc == collection_metadata_of(c, total_supply));
}

fn copy_opt_nat(n: &Option<Nat>) -> (r: Option<Nat>)
    ensures
        match (r, *n) {
            (Some(a), Some(b)) => a.limbs@ == b.limbs@,
            (None, None) => true,
            _ => false,
        },
{
    match n {
        Some(x) => Some(x.copy()),
        None => None,
    }
}

fn push_nat_entry(out: &mut Vec<(String, Value)>, key: &str, v: &Option<Nat>)
    ensures
        meta_list(final(out)@) == meta_list(old(out)@) + nat_entry(key@, *v),
{
    let ghost before = out@;
    match v {
        Some(n) => {
            out.push((String::from_str(key), Value::Nat(n.copy())));
        },
        None => {},
    }
    assert(meta_list(out@) =~= meta_list(before) + nat_entry(key@, *v));
}

fn push_text_entry(out: &mut Vec<(String, Value)>, key: &str, v: &Option<String>)
    ensures
        meta_list(final(out)@) == meta_list(old(out)@) + text_entry(key@, *v),
{
    let ghost before = out@;
    match v {
        Some(t) => {
            out.push((String::from_str(key), Value::Text(t.clone())));
        },
        None => {},
    }
    assert(meta_list(out@) =~= meta_list(before) + text_entry(key@, *v));
}

fn push_entry(out: &mut Vec<(String, Value)>, key: &str, v: Value)
    ensures
        meta_list(final(out)@) == meta_list(old(out)@) + seq![(key@, meta_value(v))],
{
    let ghost before = out@;
    let ghost w = v;
    out.push((String::from_str(key), v));
    assert(meta_list(out@) =~= meta_list(before) + seq![(key@, meta_value(w))]);
}

/// The collection's metadata, sorted by key: symbol, name and total supply, and each other
/// setting that is set.
pub fn icrc7_collection_metadata(config: &CollectionConfig, total_supply: &Nat) -> (r: Vec<(String, Value)>)
    ensures
        meta_list(r@) == collection_metadata_of(*config, *total_supply),
{
    let mut m: Vec<(String, Value)> = Vec::new();
    match config.atomic_batch_transfers {
        Some(b) => {
            let text = if b { String::from_str("true") } else { String::from_str("false") };
            push_entry(&mut m, "icrc7:atomic_batch_transfers", Value::Text(text));
        },
        None => {},
    }
    assert(meta_list(m@) =~= (match config.atomic_batch_transfers {
        Some(b) => seq![("icrc7:atomic_batch_transfers"@, MetaValue::Text(bool_text(b)))],
        None => Seq::<(Seq<char>, MetaValue)>::empty(),
    }));
    push_nat_entry(&mut m, "icrc7:default_take_value", &config.default_take_value);
    push_text_entry(&mut m, "icrc7:description", &config.description);
    push_text_entry(&mut m, "icrc7:logo", &config.logo);
    push_nat_entry(&mut m, "icrc7:max_memo_size", &config.max_memo_size);
    push_nat_entry(&mut m, "icrc7:max_query_batch_size", &config.max_query_batch_size);
    push_nat_entry(&mut m, "icrc7:max_take_value", &config.max_take_value);
    push_nat_entry(&mut m, "icrc7:max_update_batch_size", &config.max_update_batch_size);
    push_entry(&mut m, "icrc7:name", Value::Text(config.name.clone()));
    push_nat_entry(&mut m, "icrc7:permitted_drift", &config.permitted_drift);
    push_nat_entry(&mut m, "icrc7:supply_cap", &config.supply_cap);
    push_entry(&mut m, "icrc7:symbol", Value::Text(config.symbol.clone()));
    push_entry(&mut m, "icrc7:total_supply", Value::Nat(total_supply.copy()));
    push_nat_entry(&mut m, "icrc7:tx_window", &config.tx_window);
    m
}

/// An optional number as its value.
pub open spec fn opt_nat_value(n: Option<Nat>) -> Option<nat> {
    match n {
        Some(x) => Some(x.value()),
        None => None,
    }
}

/// An optional text as its characters.
pub open spec fn opt_text(t: Option<String>) -> Option<Seq<char>> {
    match t {
        Some(x) => Some(x@),
        None => None,
    }
}

fn nat_setting(n: &Option<Nat>) -> (r: Option<Nat>)
    ensures
        opt_nat_value(r) == opt_nat_value(*n),
{
    copy_opt_nat(n)
}

fn text_setting(t: &Option<String>) -> (r: Option<String>)
    ensures
        opt_text(r) == opt_text(*t),
{
    match t {
        Some(x) => Some(x.clone()),
        None => None,
    }
}

/// The collection's symbol.
pub fn icrc7_symbol(config: &CollectionConfig) -> (r: String)
    ensures
        r@ == config.symbol@,
{
    config.symbol.clone()
}

/// The collection's name.
pub fn icrc7_name(config: &CollectionConfig) -> (r: String)
    ensures
        r@ == config.name@,
{
    config.name.clone()
}

/// The collection's description, if it has one.
pub fn icrc7_description(config: &CollectionConfig) -> (r: Option<String>)
    ensures
        opt_text(r) == opt_text(config.description),
{
    text_setting(&config.description)
}

/// The collection's logo, if it has one.
pub fn icrc7_logo(config: &CollectionConfig) -> (r: Option<String>)
    ensures
        opt_text(r) == opt_text(config.logo),
{
    text_setting(&config.logo)
}

/// The most tokens the collection may hold, if capped.
pub fn icrc7_supply_cap(config: &CollectionConfig) -> (r: Option<Nat>)
    ensures
        opt_nat_value(r) == opt_nat_value(config.supply_cap),
{
    nat_setting(&config.supply_cap)
}

/// The most ids a query takes, if set.
pub fn icrc7_max_query_batch_size(config: &CollectionConfig) -> (r: Option<Nat>)
    ensures
        opt_nat_value(r) == opt_nat_value(config.max_query_batch_size),
{
    nat_setting(&config.max_query_batch_size)
}

/// The most requests an update takes, if set.
pub fn icrc7_max_update_batch_size(config: &CollectionConfig) -> (r: Option<Nat>)
    ensures
        opt_nat_value(r) == opt_nat_value(config.max_update_batch_size),
{
    nat_setting(&config.max_update_batch_size)
}

/// The page size of a listing that names none, if set.
pub fn icrc7_default_take_value(config: &CollectionConfig) -> (r: Option<Nat>)
    ensures
        opt_nat_value(r) == opt_nat_value(config.default_take_value),
{
    nat_setting(&config.default_take_value)
}

/// The largest page size a listing may ask for, if set.
pub fn icrc7_max_take_value(config: &CollectionConfig) -> (r: Option<Nat>)
    ensures
        opt_nat_value(r) == opt_nat_value(config.max_take_value),
{
    nat_setting(&config.max_take_value)
}

/// The largest memo a request may carry, if set.
pub fn icrc7_max_memo_size(config: &CollectionConfig) -> (r: Option<Nat>)
    ensures
        opt_nat_value(r) == opt_nat_value(config.max_memo_size),
{
    nat_setting(&config.max_memo_size)
}

/// Whether batch transfers are all-or-nothing, if set.
pub fn icrc7_atomic_batch_transfers(config: &CollectionConfig) -> (r: Option<bool>)
    ensures
        r == config.atomic_batch_transfers,
{
    config.atomic_batch_transfers
}

/// How long a request is accepted after its creation time, if set.
pub fn icrc7_tx_window(config: &CollectionConfig) -> (r: Option<Nat>)
    ensures
        opt_nat_value(r) == opt_nat_value(config.tx_window),
{
    nat_setting(&config.tx_window)
}

/// How far in the future a creation time may lie, if set.
pub fn icrc7_permitted_drift(config: &CollectionConfig) -> (r: Option<Nat>)
    ensures
        opt_nat_value(r) == opt_nat_value(config.permitted_drift),
{
    nat_setting(&config.permitted_drift)
}

/// An ICRC-7 transaction to append to the log.
#[derive(Debug)]
pub struct Icrc7Transaction {
    pub btype: String,
    pub timestamp: u64,
    pub op: String,
    pub tid: Option<u64>,
    pub from: Option<Account>,
    pub to: Option<Account>,
    pub meta: Option<Value>,
    pub memo: Option<Vec<u8>>,
    pub created_at_time: Option<u64>,
}

/// The view of an optional value.
pub open spec fn opt_value_view(v: Option<Value>) -> Option<ValueView> {
    match v {
        Some(x) => Some(x@),
        None => None,
    }
}

/// What an ICRC-7 transaction is.
pub ghost struct Tx7View {
    pub btype: Seq<char>,
    pub timestamp: u64,
    pub op: Seq<char>,
    pub tid: Option<u64>,
    pub from: Option<AccountView>,
    pub to: Option<AccountView>,
    pub meta: Option<ValueView>,
    pub memo: Option<Seq<u8>>,
    pub created_at_time: Option<u64>,
}

impl View for Icrc7Transaction {
    type V = Tx7View;

    open spec fn view(&self) -> Tx7View {
        Tx7View {
            btype: self.btype@,
            timestamp: self.timestamp,
            op: self.op@,
            tid: self.tid,
            from: opt_account(self.from),
            to: opt_account(self.to),
            meta: opt_value_view(self.meta),
            memo: opt_bytes(self.memo),
            created_at_time: self.created_at_time,
        }
    }
}

/// A request to mint one token.
#[derive(Debug)]
pub struct MintRequest {
    pub token_owner: Account,
    pub memo: Option<Vec<u8>>,
    pub metadata: Vec<(String, Value)>,
}

/// Why a mint is refused.
#[derive(Debug)]
pub enum MintError {
    ConcurrentManagementCall,
    ExceedMaxAllowedSupplyCap,
    TokenAlreadyExists,
    InvalidMemo,
    StorageCanisterError(String),
}

/// The refusals of a mint, as views.
pub ghost enum MintRefusal {
    ExceedMaxAllowedSupplyCap,
    InvalidMemo,
    StorageCanisterError(Seq<char>),
    Other,
}

/// The view of a mint error.
pub open spec fn mint_refusal(e: MintError) -> MintRefusal {
    match e {
        MintError::ExceedMaxAllowedSupplyCap => MintRefusal::ExceedMaxAllowedSupplyCap,
        MintError::InvalidMemo => MintRefusal::InvalidMemo,
        MintError::StorageCanisterError(m) => MintRefusal::StorageCanisterError(m@),
        _ => MintRefusal::Other,
    }
}

/// The largest batch a mint takes: the setting where set, else 100.
pub open spec fn batch_limit(c: CollectionConfig) -> nat {
    match c.max_update_batch_size {
        Some(n) => n.value(),
        None => 100,
    }
}

/// The supply cap: the setting where set, else `default_cap`.
pub open spec fn supply_cap_of(c: CollectionConfig, default_cap: Nat) -> nat {
    match c.supply_cap {
        Some(n) => n.value(),
        None => default_cap.value(),
    }
}

/// The mint transaction of the `i`-th request of a batch.
pub open spec fn mint_tx(first_id: u64, i: int, req: MintRequest, now: u64) -> Tx7View {
    Tx7View {
        btype: "7mint"@,
        timestamp: now,
        op: "7mint"@,
        tid: Some((first_id + i) as u64),
        from: None,
        to: Some(req.token_owner@),
        meta: None,
        memo: opt_bytes(req.memo),
        created_at_time: Some(now),
    }
}

/// What a mint request leads to: a refusal, or the transactions to log, one per token, the
/// tokens numbered on from the ledger's next id. `memo_ok[i]` is the verdict of the memo
/// check on the `i`-th memo.
pub open spec fn mint_outcome(
    l: LedgerView,
    c: CollectionConfig,
    reqs: Seq<MintRequest>,
    memo_ok: Seq<bool>,
    default_cap: Nat,
    now: u64,
) -> Result<Seq<Tx7View>, MintRefusal> {
    if reqs.len() > batch_limit(c) {
        Err(MintRefusal::ExceedMaxAllowedSupplyCap)
    } else if l.tokens.len() + reqs.len() > supply_cap_of(c, default_cap) {
        Err(MintRefusal::ExceedMaxAllowedSupplyCap)
    } else if exists|i: int| 0 <= i < memo_ok.len() && !(#[trigger] memo_ok[i]) {
        Err(MintRefusal::InvalidMemo)
    } else {
        Ok(Seq::new(reqs.len(), |i: int| mint_tx(l.last_token_id, i, reqs[i], now)))
    }
}

/// The view of a planned mint.
pub open spec fn mint_plan_view(r: Result<Vec<Icrc7Transaction>, MintError>) -> Result<Seq<Tx7View>, MintRefusal> {
    match r {
        Ok(v) => Ok(v@.map_values(|t: Icrc7Transaction| t@)),
        Err(e) => Err(mint_refusal(e)),
    }
}

/// Whether every verdict is a pass.
fn all_true(v: &Vec<bool>) -> (r: bool)
    ensures
        r == !(exists|i: int| 0 <= i < v@.len() && !(#[trigger] v@[i])),
{
    let mut i: usize = 0;
    while i < v.len()
        invariant
            i <= v@.len(),
            forall|j: int| 0 <= j < i ==> #[trigger] v@[j],
        decreases v@.len() - i,
    {
        if !v[i] {
            assert(!v@[i as int]);
            return false;
        }
        i = i + 1;
    }
    true
}

/// Decides a mint of a batch of tokens: the refusal, or the transactions to log.
pub fn plan_mint(
    ledger: &Ledger,
    config: &CollectionConfig,
    requests: &Vec<MintRequest>,
    memo_ok: &Vec<bool>,
    default_supply_cap: &Nat,
    now: u64,
) -> (r: Result<Vec<Icrc7Transaction>, MintError>)
    requires
        ledger.wf(),
        memo_ok@.len() == requests@.len(),
        ledger@.last_token_id + requests@.len() <= u64::MAX,
    ensures
        mint_plan_view(r) == mint_outcome(ledger@, *config, requests@, memo_ok@, *default_supply_cap, now),
{
    let n = requests.len();
    let over_batch = match &config.max_update_batch_size {
        Some(max) => !max.at_least(n as u64),
        None => n > 100,
    };
    if over_batch {
        return Err(MintError::ExceedMaxAllowedSupplyCap);
    }
    let token_count = ledger.tokens.len();
    let total = token_count as u128 + n as u128;
    let over_cap = match &config.supply_cap {
        Some(cap) => !cap.at_least_wide(total),
        None => !default_supply_cap.at_least_wide(total),
    };
    if over_cap {
        return Err(MintError::ExceedMaxAllowedSupplyCap);
    }
    if !all_true(memo_ok) {
        return Err(MintError::InvalidMemo);
    }
    let first = ledger.last_token_id;
    let mut txs: Vec<Icrc7Transaction> = Vec::new();
    let mut k: usize = 0;
    while k < n
        invariant
            n == requests@.len(),
            first + n <= u64::MAX,
            k <= n,
            txs@.len() == k,
            forall|j: int| 0 <= j < k ==> (#[trigger] txs@[j])@ == mint_tx(first, j, requests@[j], now),
        decreases n - k,
    {
        let req = &requests[k];
        txs.push(
            Icrc7Transaction {
                btype: String::from_str("7mint"),
                timestamp: now,
                op: String::from_str("7mint"),
                tid: Some(first + k as u64),
                from: None,
                to: Some(copy_account(&req.token_owner)),
                meta: None,
                memo: copy_opt_bytes(&req.memo),
                created_at_time: Some(now),
            },
        );
        k = k + 1;
    }
    assert(txs@.map_values(|t: Icrc7Transaction| t@) =~= Seq::new(requests@.len(), |j: int| mint_tx(first, j, requests@[j], now)));
    Ok(txs)
}

/// The ledger after minting a token for each of `owners`, numbered on from its next id.
pub open spec fn minted(l: LedgerView, owners: Seq<AccountView>) -> LedgerView
    decreases owners.len(),
{
    if owners.len() == 0 {
        l
    } else {
        let p = minted(l, owners.drop_last());
        let tid = (l.last_token_id + owners.len() - 1) as u64;
        let o = owners.last();
        LedgerView {
            tokens: p.tokens.insert(tid, o),
            tokens_by_owner: p.tokens_by_owner.insert(o, ids_or_empty(p.tokens_by_owner, o).push(tid)),
            ..p
        }
    }
}

/// The owners asked for by a batch of mint requests.
pub open spec fn requested_owners(reqs: Seq<MintRequest>) -> Seq<AccountView> {
    reqs.map_values(|r: MintRequest| r.token_owner@)
}

/// The metadata after the entries `e` are filed one after another under `id`, a later entry
/// replacing an earlier value under the same key.
pub open spec fn filed(m: Map<u64, TextValues>, id: u64, e: Seq<(String, Value)>) -> Map<u64, TextValues>
    decreases e.len(),
{
    if e.len() == 0 {
        m
    } else {
        let p = filed(m, id, e.drop_last());
        p.insert(id, values_under(p, id).insert(e.last().0@, e.last().1@))
    }
}

/// The metadata after the metadata asked for with each minted token is filed under its id,
/// the tokens numbered on from `first`.
pub open spec fn minted_metadata(m: Map<u64, TextValues>, first: u64, reqs: Seq<MintRequest>) -> Map<u64, TextValues>
    decreases reqs.len(),
{
    if reqs.len() == 0 {
        m
    } else {
        filed(minted_metadata(m, first, reqs.drop_last()), (first + reqs.len() - 1) as u64, reqs.last().metadata@)
    }
}

/// Files the entries `datas` one after another under `id`.
fn file_token_metadata(metadata: &mut Metadata, id: u64, datas: &Vec<(String, Value)>)
    requires
        old(metadata).wf(),
    ensures
        final(metadata).wf(),
        final(metadata)@ == filed(old(metadata)@, id, datas@),
{
    let ghost m0 = metadata@;
    let mut j: usize = 0;
    assert(datas@.take(0) =~= Seq::<(String, Value)>::empty());
    while j < datas.len()
        invariant
            j <= datas@.len(),
            metadata.wf(),
            metadata@ == filed(m0, id, datas@.take(j as int)),
        decreases datas@.len() - j,
    {
        proof {
            assert(datas@.take(j + 1).drop_last() =~= datas@.take(j as int));
            assert(datas@.take(j + 1).last() == datas@[j as int]);
        }
        let key = datas[j].0.clone();
        let value = copy_value(&datas[j].1);
        metadata.insert_data(Some(id), key, value);
        j = j + 1;
    }
    assert(datas@.take(datas@.len() as int) =~= datas@);
}

/// Completes a mint once its transactions went to the log. The metadata asked for with each
/// token is filed under the token's id whatever the log answered, as the mint files it before
/// logging. Where the log took the transactions, records each token with its owner, advances
/// the next id past them and returns the first id; where it did not, leaves the ledger as it
/// was and reports why.
pub fn commit_mint(
    ledger: &mut Ledger,
    metadata: &mut Metadata,
    requests: &Vec<MintRequest>,
    logged: Result<(), String>,
) -> (r: Result<u64, MintError>)
    requires
        old(ledger).wf(),
        old(metadata).wf(),
        old(ledger)@.last_token_id + requests@.len() <= u64::MAX,
    ensures
        final(ledger).wf(),
        final(metadata).wf(),
        final(metadata)@ == minted_metadata(old(metadata)@, old(ledger)@.last_token_id, requests@),
        match logged {
            Ok(()) => r == Ok::<u64, MintError>(old(ledger)@.last_token_id) && final(ledger)@ == (LedgerView {
                last_token_id: (old(ledger)@.last_token_id + requests@.len()) as u64,
                ..minted(old(ledger)@, requested_owners(requests@))
            }),
            Err(e) => r matches Err(x) && mint_refusal(x) == MintRefusal::StorageCanisterError(e@)
                && final(ledger)@ == old(ledger)@,
        },
{
    let first = ledger.last_token_id;
    let n = requests.len();
    let ghost m0 = metadata@;
    let mut k: usize = 0;
    assert(requests@.take(0) =~= Seq::<MintRequest>::empty());
    while k < n
        invariant
            n == requests@.len(),
            k <= n,
            first + n <= u64::MAX,
            metadata.wf(),
            metadata@ == minted_metadata(m0, first, requests@.take(k as int)),
        decreases n - k,
    {
        proof {
            assert(requests@.take(k + 1).drop_last() =~= requests@.take(k as int));
            assert(requests@.take(k + 1).last() == requests@[k as int]);
        }
        file_token_metadata(metadata, first + k as u64, &requests[k].metadata);
        k = k + 1;
    }
    assert(requests@.take(n as int) =~= requests@);
    match logged {
        Ok(()) => {
            let ghost l0 = ledger@;
            let mut i: usize = 0;
            assert(requested_owners(requests@).take(0) =~= Seq::<AccountView>::empty());
            while i < n
                invariant
                    n == requests@.len(),
                    i <= n,
                    first == l0.last_token_id,
                    first + n <= u64::MAX,
                    ledger.wf(),
                    ledger@ == minted(l0, requested_owners(requests@).take(i as int)),
                decreases n - i,
            {
                let owner = &requests[i].token_owner;
                let tid = first + i as u64;
                let ghost owners = requested_owners(requests@).take(i + 1);
                proof {
                    assert(owners.drop_last() =~= requested_owners(requests@).take(i as int));
                    assert(owners.last() == owner@);
                }
                ledger.tokens.insert(tid, copy_account(owner));
                let mut ids = ledger.take_owner_ids(owner);
                ids.push(tid);
                ledger.tokens_by_owner.insert(copy_account(owner), ids);
                i = i + 1;
                proof {
                    assert(ledger@.tokens_by_owner =~= minted(l0, owners).tokens_by_owner);
                }
            }
            assert(requested_owners(requests@).take(n as int) =~= requested_owners(requests@));
            ledger.last_token_id = first + n as u64;
            Ok(first)
        },
        Err(e) => Err(MintError::StorageCanisterError(e)),
    }
}

/// Why a burn is refused.
#[derive(Debug)]
pub enum BurnNftError {
    NotTokenOwner,
    ConcurrentManagementCall,
    TokenDoesNotExist,
    StorageCanisterError(String),
}

/// The refusals of a burn, as views.
pub ghost enum BurnRefusal {
    NotTokenOwner,
    TokenDoesNotExist,
    StorageCanisterError(Seq<char>),
    Other,
}

/// The view of a burn error.
pub open spec fn burn_refusal(e: BurnNftError) -> BurnRefusal {
    match e {
        BurnNftError::NotTokenOwner => BurnRefusal::NotTokenOwner,
        BurnNftError::TokenDoesNotExist => BurnRefusal::TokenDoesNotExist,
        BurnNftError::StorageCanisterError(m) => BurnRefusal::StorageCanisterError(m@),
        _ => BurnRefusal::Other,
    }
}

/// What a burn request leads to: a refusal, or the transaction to log. Only the owner's
/// principal may burn, from any of its subaccounts.
pub open spec fn burn_outcome(l: LedgerView, token_id: u64, caller: Seq<u8>, now: u64) -> Result<Tx7View, BurnRefusal> {
    if !l.tokens.contains_key(token_id) {
        Err(BurnRefusal::TokenDoesNotExist)
    } else if caller != l.tokens[token_id].0 {
        Err(BurnRefusal::NotTokenOwner)
    } else {
        Ok(
            Tx7View {
                btype: "7burn"@,
                timestamp: now,
                op: "7burn"@,
                tid: Some(token_id),
                from: Some(l.tokens[token_id]),
                to: None,
                meta: None,
                memo: None,
                created_at_time: Some(now),
            },
        )
    }
}

/// The view of a planned burn.
pub open spec fn burn_plan_view(r: Result<Icrc7Transaction, BurnNftError>) -> Result<Tx7View, BurnRefusal> {
    match r {
        Ok(t) => Ok(t@),
        Err(e) => Err(burn_refusal(e)),
    }
}

/// Decides a burn: the refusal, or the transaction to log.
pub fn plan_burn_nft(ledger: &Ledger, token_id: u64, caller: &Vec<u8>, now: u64) -> (r: Result<Icrc7Transaction, BurnNftError>)
    requires
        ledger.wf(),
    ensures
        burn_plan_view(r) == burn_outcome(ledger@, token_id, caller@, now),
{
    let owner = match ledger.owner_of(token_id) {
        Some(o) => o,
        None => {
            return Err(BurnNftError::TokenDoesNotExist);
        },
    };
    if !same_bytes(caller, &owner.owner) {
        return Err(BurnNftError::NotTokenOwner);
    }
    Ok(
        Icrc7Transaction {
            btype: String::from_str("7burn"),
            timestamp: now,
            op: String::from_str("7burn"),
            tid: Some(token_id),
            from: Some(owner),
            to: None,
            meta: None,
            memo: None,
            created_at_time: Some(now),
        },
    )
}

/// Completes a burn once its transaction went to the log: where the log took it, the token is
/// gone; where it did not, nothing changes.
pub fn commit_burn_nft(ledger: &mut Ledger, token_id: u64, logged: Result<(), String>) -> (r: Result<(), BurnNftError>)
    requires
        old(ledger).wf(),
    ensures
        final(ledger).wf(),
        match logged {
            Ok(()) => r is Ok && final(ledger)@ == (LedgerView { tokens: old(ledger)@.tokens.remove(token_id), ..old(ledger)@ }),
            Err(e) => r matches Err(x) && burn_refusal(x) == BurnRefusal::StorageCanisterError(e@) && final(ledger)@ == old(ledger)@,
        },
{
    match logged {
        Ok(()) => {
            ledger.tokens.remove(&token_id);
            Ok(())
        },
        Err(e) => Err(BurnNftError::StorageCanisterError(e)),
    }
}

/// A mint of a batch gives the `i`-th token, numbered on from the ledger's next id, to the
/// `i`-th owner asked for, and leaves every other token with its owner.
pub proof fn law_minted_tokens_owned(l: LedgerView, owners: Seq<AccountView>)
    requires
        l.last_token_id + owners.len() <= u64::MAX,
    ensures
        forall|i: int| 0 <= i < owners.len() ==> #[trigger] minted(l, owners).tokens.contains_key((l.last_token_id + i) as u64)
            && minted(l, owners).tokens[(l.last_token_id + i) as u64] == owners[i],
        forall|t: u64| !(l.last_token_id <= t < l.last_token_id + owners.len()) ==> #[trigger] crate::ledger::owner_in(minted(l, owners), t)
            == crate::ledger::owner_in(l, t),
    decreases owners.len(),
{
    if owners.len() > 0 {
        let init = owners.drop_last();
        law_minted_tokens_owned(l, init);
        let m = minted(l, owners);
        assert forall|i: int| 0 <= i < owners.len() implies #[trigger] m.tokens.contains_key((l.last_token_id + i) as u64)
            && m.tokens[(l.last_token_id + i) as u64] == owners[i] by {
            if i < owners.len() - 1 {
                assert(init[i] == owners[i]);
                assert(minted(l, init).tokens.contains_key((l.last_token_id + i) as u64));
            }
        }
        assert forall|t: u64| !(l.last_token_id <= t < l.last_token_id + owners.len()) implies #[trigger] crate::ledger::owner_in(m, t)
            == crate::ledger::owner_in(l, t) by {
            assert(crate::ledger::owner_in(minted(l, init), t) == crate::ledger::owner_in(l, t));
            assert(t != (l.last_token_id + owners.len() - 1) as u64);
        }
    }
}

/// After a burn the token has no owner; every other token keeps its owner.
pub proof fn law_burned_token_gone(l: LedgerView, token_id: u64)
    ensures
        crate::ledger::owner_in(LedgerView { tokens: l.tokens.remove(token_id), ..l }, token_id) is None,
        forall|t: u64| t != token_id ==> #[trigger] crate::ledger::owner_in(LedgerView { tokens: l.tokens.remove(token_id), ..l }, t)
            == crate::ledger::owner_in(l, t),
{
}

proof fn lemma_filed_frame(m: Map<u64, TextValues>, id: u64, e: Seq<(String, Value)>, k: u64)
    requires
        k != id,
    ensures
        filed(m, id, e).contains_key(k) == m.contains_key(k),
        m.contains_key(k) ==> filed(m, id, e)[k] == m[k],
    decreases e.len(),
{
    if e.len() > 0 {
        lemma_filed_frame(m, id, e.drop_last(), k);
    }
}

proof fn lemma_filed_fresh(m: Map<u64, TextValues>, id: u64, e: Seq<(String, Value)>)
    requires
        !m.contains_key(id),
    ensures
        e.len() == 0 ==> !filed(m, id, e).contains_key(id),
        e.len() > 0 ==> filed(m, id, e).contains_key(id) && filed(m, id, e)[id] == entries_map(e),
    decreases e.len(),
{
    if e.len() > 0 {
        lemma_filed_fresh(m, id, e.drop_last());
        if e.drop_last().len() == 0 {
            assert(values_under(filed(m, id, e.drop_last()), id) == TextValues::empty());
            assert(entries_map(e.drop_last()) == TextValues::empty());
        }
    }
}

/// The metadata `mm` holds, under the `i`-th id from `first`, exactly the metadata asked for
/// with the `i`-th request, and nothing where none was asked for.
pub open spec fn files_requested(mm: Map<u64, TextValues>, first: u64, reqs: Seq<MintRequest>, i: int) -> bool {
    &&& reqs[i].metadata@.len() > 0 ==> mm.contains_key((first + i) as u64) && mm[(first + i) as u64]
        == entries_map(reqs[i].metadata@)
    &&& reqs[i].metadata@.len() == 0 ==> !mm.contains_key((first + i) as u64)
}

/// `mm` holds under `k` what `m` holds.
pub open spec fn keeps_entry(m: Map<u64, TextValues>, mm: Map<u64, TextValues>, k: u64) -> bool {
    &&& mm.contains_key(k) == m.contains_key(k)
    &&& m.contains_key(k) ==> mm[k] == m[k]
}

/// A mint of a batch on ids that have no metadata files, under the `i`-th new id, exactly the
/// metadata asked for with the `i`-th token (put in one after another), and nothing where
/// none was asked for; every other id keeps its metadata.
pub proof fn law_minted_metadata(m: Map<u64, TextValues>, first: u64, reqs: Seq<MintRequest>)
    requires
        first + reqs.len() <= u64::MAX,
        forall|i: int| 0 <= i < reqs.len() ==> !m.contains_key(#[trigger] ((first + i) as u64)),
    ensures
        forall|i: int| 0 <= i < reqs.len() ==> #[trigger] files_requested(minted_metadata(m, first, reqs), first, reqs, i),
        forall|k: u64| !(first <= k < first + reqs.len()) ==> #[trigger] keeps_entry(m, minted_metadata(m, first, reqs), k),
    decreases reqs.len(),
{
    if reqs.len() > 0 {
        let init = reqs.drop_last();
        law_minted_metadata(m, first, init);
        let p = minted_metadata(m, first, init);
        let last = (first + reqs.len() - 1) as u64;
        let e = reqs.last().metadata@;
        let mm = minted_metadata(m, first, reqs);
        assert(!m.contains_key(((first + (reqs.len() - 1)) as u64)));
        assert(keeps_entry(m, p, last));
        lemma_filed_fresh(p, last, e);
        assert forall|i: int| 0 <= i < reqs.len() implies #[trigger] files_requested(mm, first, reqs, i) by {
            if i < reqs.len() - 1 {
                assert(init[i] == reqs[i]);
                assert(files_requested(p, first, init, i));
                lemma_filed_frame(p, last, e, (first + i) as u64);
            }
        }
        assert forall|k: u64| !(first <= k < first + reqs.len()) implies #[trigger] keeps_entry(m, mm, k) by {
            assert(keeps_entry(m, p, k));
            lemma_filed_frame(p, last, e, k);
        }
    }
}

/// The limits of a mint: where the collection sets a supply cap `n` and the ledger holds `t`
/// tokens, a batch of `k` with `t + k > n` is refused for the supply cap; where it sets a batch
/// limit `b`, a batch of more than `b` is refused the same way; and a mint that goes through
/// never takes the number of tokens past the cap (the collection's where set, else the
/// default).
pub proof fn law_supply_cap_bounds_mints(
    l: LedgerView,
    c: CollectionConfig,
    reqs: Seq<MintRequest>,
    memo_ok: Seq<bool>,
    default_cap: Nat,
    now: u64,
)
    ensures
        c.supply_cap is Some && l.tokens.len() + reqs.len() > c.supply_cap.unwrap().value() ==> mint_outcome(
            l,
            c,
            reqs,
            memo_ok,
            default_cap,
            now,
        ) == Err::<Seq<Tx7View>, MintRefusal>(MintRefusal::ExceedMaxAllowedSupplyCap),
        c.max_update_batch_size is Some && reqs.len() > c.max_update_batch_size.unwrap().value() ==> mint_outcome(
            l,
            c,
            reqs,
            memo_ok,
            default_cap,
            now,
        ) == Err::<Seq<Tx7View>, MintRefusal>(MintRefusal::ExceedMaxAllowedSupplyCap),
        mint_outcome(l, c, reqs, memo_ok, default_cap, now) is Ok ==> l.tokens.len() + reqs.len() <= (if c.supply_cap is Some {
            c.supply_cap.unwrap().value()
        } else {
            default_cap.value()
        }),
{
}

} // verus!
