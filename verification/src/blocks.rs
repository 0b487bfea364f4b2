//! Block types of the ICRC-3 log of an NFT collection, what the index takes from each
//! block, and the grouping of block ids into ranges to fetch.
use vstd::prelude::*;

use crate::account::{account_from_text, parse_account_text, Account, AccountView};
use crate::value::{find_key, lookup, Nat, Value};

verus! {

/// `c` is a run: non-empty, each id one more than the one before.
pub open spec fn is_run(c: Seq<u64>) -> bool {
    &&& c.len() > 0
    &&& forall|j: int| 0 <= j < c.len() - 1 ==> #[trigger] c[j + 1] == c[j] + 1
}

/// `cs` is a sequence of runs, no run continuing the one before it.
pub open spec fn maximal_runs(cs: Seq<Seq<u64>>) -> bool {
    &&& forall|i: int| 0 <= i < cs.len() ==> is_run(#[trigger] cs[i])
    &&& forall|i: int| 0 <= i < cs.len() - 1 ==> #[trigger] cs[i + 1][0] != cs[i].last() + 1
}

/// The contents of each chunk.
pub open spec fn chunk_views(cs: Seq<Vec<u64>>) -> Seq<Seq<u64>> {
    cs.map_values(|v: Vec<u64>| v@)
}

proof fn lemma_flatten_push(x: Seq<Seq<u64>>, c: Seq<u64>)
    ensures
        x.push(c).flatten() == x.flatten() + c,
{
    vstd::seq_lib::lemma_flatten_concat(x, seq![c]);
    assert(x + seq![c] =~= x.push(c));
    seq![c].lemma_flatten_one_element();
}

/// Splits a list of block ids into chunks of consecutive ids, to be fetched one range at a
/// time: `[1, 2, 3, 5, 6, 8, 9, 10]` gives `[[1, 2, 3], [5, 6], [8, 9, 10]]`. Ids are
/// compared in the order given, so a list that is not sorted gives more chunks.
pub fn group_consecutive_block_ids(block_ids: &[u64]) -> (chunks: Vec<Vec<u64>>)
    requires
        forall|j: int| 0 <= j < block_ids@.len() - 1 ==> block_ids@[j] < u64::MAX,
    ensures
        chunk_views(chunks@).flatten() == block_ids@,
        maximal_runs(chunk_views(chunks@)),
        chunks@.len() == 0 <==> block_ids@.len() == 0,
{
    let n = block_ids.len();
    if n == 0 {
        let chunks: Vec<Vec<u64>> = Vec::new();
        assert(chunk_views(chunks@) =~= Seq::<Seq<u64>>::empty());
        return chunks;
    }
    let mut chunks: Vec<Vec<u64>> = Vec::new();
    let mut current: Vec<u64> = Vec::new();
    current.push(block_ids[0]);
    let mut i: usize = 1;
    assert(chunk_views(chunks@) =~= Seq::<Seq<u64>>::empty());
    assert(current@ =~= block_ids@.subrange(0, 1));
    while i < n
        invariant
            n == block_ids@.len(),
            1 <= i <= n,
            forall|j: int| 0 <= j < block_ids@.len() - 1 ==> block_ids@[j] < u64::MAX,
            is_run(current@),
            current@.last() == block_ids@[i - 1],
            chunk_views(chunks@).flatten() + current@ == block_ids@.subrange(0, i as int),
            maximal_runs(chunk_views(chunks@)),
            chunks@.len() > 0 ==> current@[0] != chunk_views(chunks@).last().last() + 1,
        decreases n - i,
    {
        let prev = block_ids[i - 1];
        let id = block_ids[i];
        if id != prev + 1 {
            let ghost old_views = chunk_views(chunks@);
            let ghost cur = current@;
            chunks.push(current);
            current = Vec::new();
            proof {
                assert(chunk_views(chunks@) =~= old_views.push(cur));
                lemma_flatten_push(old_views, cur);
                let v = chunk_views(chunks@);
                assert forall|k: int| 0 <= k < v.len() implies is_run(#[trigger] v[k]) by {
                    if k < v.len() - 1 {
                        assert(v[k] == old_views[k]);
                    }
                }
                assert forall|k: int| 0 <= k < v.len() - 1 implies #[trigger] v[k + 1][0] != v[k].last() + 1 by {
                    if k < v.len() - 2 {
                        assert(v[k] == old_views[k]);
                        assert(v[k + 1] == old_views[k + 1]);
                    }
                }
            }
        }
        let ghost before = current@;
        current.push(id);
        proof {
            assert(block_ids@.subrange(0, i + 1) =~= block_ids@.subrange(0, i as int).push(id));
            assert(chunk_views(chunks@).flatten() + current@ =~= (chunk_views(chunks@).flatten() + before).push(id));
            if before.len() > 0 {
                assert forall|j: int| 0 <= j < current@.len() - 1 implies #[trigger] current@[j + 1] == current@[j] + 1 by {
                    if j < before.len() - 1 {
                        assert(current@[j + 1] == before[j + 1]);
                    }
                }
            }
        }
        i = i + 1;
    }
    let ghost old_views = chunk_views(chunks@);
    let ghost cur = current@;
    chunks.push(current);
    proof {
        assert(chunk_views(chunks@) =~= old_views.push(cur));
        lemma_flatten_push(old_views, cur);
        assert(block_ids@.subrange(0, n as int) =~= block_ids@);
        let v = chunk_views(chunks@);
        assert forall|k: int| 0 <= k < v.len() implies is_run(#[trigger] v[k]) by {
            if k < v.len() - 1 {
                assert(v[k] == old_views[k]);
            }
        }
        assert forall|k: int| 0 <= k < v.len() - 1 implies #[trigger] v[k + 1][0] != v[k].last() + 1 by {
            if k < v.len() - 2 {
                assert(v[k] == old_views[k]);
                assert(v[k + 1] == old_views[k + 1]);
            }
        }
    }
    chunks
}

/// Marks a plain ICRC-7 transfer.
#[derive(Clone, Copy, Debug, PartialEq, Eq, Structural)]
pub struct TransferBlock;

/// Marks a mint.
#[derive(Clone, Copy, Debug, PartialEq, Eq, Structural)]
pub struct MintBlock;

/// Marks a burn.
#[derive(Clone, Copy, Debug, PartialEq, Eq, Structural)]
pub struct BurnBlock;

/// Marks a token approval.
#[derive(Clone, Copy, Debug, PartialEq, Eq, Structural)]
pub struct ApproveBlock;

/// Marks a transfer made by an approved spender.
#[derive(Clone, Copy, Debug, PartialEq, Eq, Structural)]
pub struct TransferFromBlock;

/// Marks an update of a token's metadata.
#[derive(Clone, Copy, Debug, PartialEq, Eq, Structural)]
pub struct UpdateTokenMetadataBlock;

/// Marks a collection-wide approval.
#[derive(Clone, Copy, Debug, PartialEq, Eq, Structural)]
pub struct CollectionApproveBlock;

/// Marks the revocation of a token approval.
#[derive(Clone, Copy, Debug, PartialEq, Eq, Structural)]
pub struct RevokeBlock;

/// Marks the revocation of a collection approval.
#[derive(Clone, Copy, Debug, PartialEq, Eq, Structural)]
pub struct RevokeCollectionBlock;

/// The kinds of block in the log.
#[derive(Clone, Copy, Debug, PartialEq, Eq, Structural)]
pub enum BlockType {
    Transfer(TransferBlock),
    TransferFrom(TransferFromBlock),
    UpdateTokenMetadata(UpdateTokenMetadataBlock),
    Mint(MintBlock),
    Burn(BurnBlock),
    Approve(ApproveBlock),
    CollectionApprove(CollectionApproveBlock),
    Revoke(RevokeBlock),
    RevokeCollection(RevokeCollectionBlock),
}

/// The `btype` tag of each kind of block.
pub open spec fn block_type_name(b: BlockType) -> Seq<char> {
    match b {
        BlockType::Transfer(_) => "7xfer"@,
        BlockType::Mint(_) => "7mint"@,
        BlockType::Burn(_) => "7burn"@,
        BlockType::Approve(_) => "37approve"@,
        BlockType::TransferFrom(_) => "37xfer"@,
        BlockType::CollectionApprove(_) => "37approve_coll"@,
        BlockType::Revoke(_) => "37revoke"@,
        BlockType::RevokeCollection(_) => "37revoke_coll"@,
        BlockType::UpdateTokenMetadata(_) => "7update_token"@,
    }
}

/// The kind of block a lower-case tag names, if it names one.
pub open spec fn block_type_from_name(s: Seq<char>) -> Option<BlockType> {
    if s == "7xfer"@ {
        Some(BlockType::Transfer(TransferBlock))
    } else if s == "7mint"@ {
        Some(BlockType::Mint(MintBlock))
    } else if s == "7burn"@ {
        Some(BlockType::Burn(BurnBlock))
    } else if s == "37approve"@ {
        Some(BlockType::Approve(ApproveBlock))
    } else if s == "37xfer"@ {
        Some(BlockType::TransferFrom(TransferFromBlock))
    } else if s == "37approve_coll"@ {
        Some(BlockType::CollectionApprove(CollectionApproveBlock))
    } else if s == "37revoke"@ {
        Some(BlockType::Revoke(RevokeBlock))
    } else if s == "37revoke_coll"@ {
        Some(BlockType::RevokeCollection(RevokeCollectionBlock))
    } else if s == "7update_token"@ {
        Some(BlockType::UpdateTokenMetadata(UpdateTokenMetadataBlock))
    } else {
        None
    }
}

/// The lower-case form of `s`, as `str::to_lowercase` gives it (Unicode's lower-case mapping).
pub uninterp spec fn lowercase_of(s: Seq<char>) -> Seq<char>;

/// `str::to_lowercase` of std: the lower-case form of `s`.
#[verifier::external_body]
pub(crate) fn to_lowercase(s: &str) -> (r: String)
    ensures
        r@ == lowercase_of(s@),
{
    s.to_lowercase()
}

/// What parsing a tag gives: the kind its lower-case form names, or the error naming the tag.
pub open spec fn parse_block_type(s: Seq<char>) -> Result<BlockType, Seq<char>> {
    match block_type_from_name(lowercase_of(s)) {
        Some(b) => Ok(b),
        None => Err("Unknown block type: "@ + s),
    }
}

fn text_is(s: &String, lit: &str) -> (r: bool)
    ensures
        r == (s@ == lit@),
{
    *s == String::from_str(lit)
}

impl BlockType {
    /// The kind of block a lower-case tag names.
    pub fn from_lowercase(s: &str) -> (r: Option<BlockType>)
        ensures
            r == block_type_from_name(s@),
    {
        let t = String::from_str(s);
        if text_is(&t, "7xfer") {
            Some(BlockType::Transfer(TransferBlock))
        } else if text_is(&t, "7mint") {
            Some(BlockType::Mint(MintBlock))
        } else if text_is(&t, "7burn") {
            Some(BlockType::Burn(BurnBlock))
        } else if text_is(&t, "37approve") {
            Some(BlockType::Approve(ApproveBlock))
        } else if text_is(&t, "37xfer") {
            Some(BlockType::TransferFrom(TransferFromBlock))
        } else if text_is(&t, "37approve_coll") {
            Some(BlockType::CollectionApprove(CollectionApproveBlock))
        } else if text_is(&t, "37revoke") {
            Some(BlockType::Revoke(RevokeBlock))
        } else if text_is(&t, "37revoke_coll") {
            Some(BlockType::RevokeCollection(RevokeCollectionBlock))
        } else if text_is(&t, "7update_token") {
            Some(BlockType::UpdateTokenMetadata(UpdateTokenMetadataBlock))
        } else {
            None
        }
    }

    /// Parses a `btype` tag, whatever its case.
    pub fn from_str(s: &str) -> (r: Result<BlockType, String>)
        ensures
            match r {
                Ok(b) => parse_block_type(s@) == Ok::<BlockType, Seq<char>>(b),
                Err(e) => parse_block_type(s@) == Err::<BlockType, Seq<char>>(e@),
            },
    {
        let lower = to_lowercase(s);
        match BlockType::from_lowercase(lower.as_str()) {
            Some(b) => Ok(b),
            None => {
                let mut e = String::from_str("Unknown block type: ");
                e.append(s);
                Err(e)
            },
        }
    }

    /// The `btype` tag of this kind of block.
    pub fn to_string(&self) -> (r: String)
        ensures
            r@ == block_type_name(*self),
    {
        match self {
            BlockType::Transfer(_) => String::from_str("7xfer"),
            BlockType::Mint(_) => String::from_str("7mint"),
            BlockType::Burn(_) => String::from_str("7burn"),
            BlockType::Approve(_) => String::from_str("37approve"),
            BlockType::TransferFrom(_) => String::from_str("37xfer"),
            BlockType::CollectionApprove(_) => String::from_str("37approve_coll"),
            BlockType::Revoke(_) => String::from_str("37revoke"),
            BlockType::RevokeCollection(_) => String::from_str("37revoke_coll"),
            BlockType::UpdateTokenMetadata(_) => String::from_str("7update_token"),
        }
    }
}

/// Reading back the tag of a kind of block gives the same kind.
pub proof fn law_block_type_name_roundtrip(b: BlockType)
    ensures
        block_type_from_name(block_type_name(b)) == Some(b),
{
    reveal_strlit("7xfer");
    reveal_strlit("7mint");
    reveal_strlit("7burn");
    reveal_strlit("37approve");
    reveal_strlit("37xfer");
    reveal_strlit("37approve_coll");
    reveal_strlit("37revoke");
    reveal_strlit("37revoke_coll");
    reveal_strlit("7update_token");
    assert("7mint"@[1] != "7xfer"@[1]);
    assert("7burn"@[1] != "7xfer"@[1]);
    assert("7burn"@[1] != "7mint"@[1]);
    assert("37approve"@.len() != "7xfer"@.len());
    assert("37approve"@.len() != "7mint"@.len());
    assert("37approve"@.len() != "7burn"@.len());
    assert("37xfer"@.len() != "7xfer"@.len());
    assert("37xfer"@.len() != "7mint"@.len());
    assert("37xfer"@.len() != "7burn"@.len());
    assert("37xfer"@.len() != "37approve"@.len());
    assert("37approve_coll"@.len() != "7xfer"@.len());
    assert("37approve_coll"@.len() != "7mint"@.len());
    assert("37approve_coll"@.len() != "7burn"@.len());
    assert("37approve_coll"@.len() != "37approve"@.len());
    assert("37approve_coll"@.len() != "37xfer"@.len());
    assert("37revoke"@.len() != "7xfer"@.len());
    assert("37revoke"@.len() != "7mint"@.len());
    assert("37revoke"@.len() != "7burn"@.len());
    assert("37revoke"@.len() != "37approve"@.len());
    assert("37revoke"@.len() != "37xfer"@.len());
    assert("37revoke"@.len() != "37approve_coll"@.len());
    assert("37revoke_coll"@.len() != "7xfer"@.len());
    assert("37revoke_coll"@.len() != "7mint"@.len());
    assert("37revoke_coll"@.len() != "7burn"@.len());
    assert("37revoke_coll"@.len() != "37approve"@.len());
    assert("37revoke_coll"@.len() != "37xfer"@.len());
    assert("37revoke_coll"@.len() != "37approve_coll"@.len());
    assert("37revoke_coll"@.len() != "37revoke"@.len());
    assert("7update_token"@.len() != "7xfer"@.len());
    assert("7update_token"@.len() != "7mint"@.len());
    assert("7update_token"@.len() != "7burn"@.len());
    assert("7update_token"@.len() != "37approve"@.len());
    assert("7update_token"@.len() != "37xfer"@.len());
    assert("7update_token"@.len() != "37approve_coll"@.len());
    assert("7update_token"@.len() != "37revoke"@.len());
    assert("7update_token"@[0] != "37revoke_coll"@[0]);
}

/// The views of a list of accounts.
pub open spec fn account_views(v: Seq<Account>) -> Seq<AccountView> {
    v.map_values(|a: Account| a@)
}

/// The entries under `tx` of a block, where the block is a map with a map under `tx`.
pub open spec fn tx_entries(data: Value) -> Option<Seq<(String, Value)>> {
    match data {
        Value::Dict(m) => match lookup(m@, "tx"@) {
            Some(Value::Dict(tx)) => Some(tx@),
            _ => None,
        },
        _ => None,
    }
}

/// The account written as text under `field`, where there is one that parses.
pub open spec fn field_account(tx: Seq<(String, Value)>, field: Seq<char>) -> Seq<AccountView> {
    match lookup(tx, field) {
        Some(Value::Text(t)) => match account_from_text(t@) {
            Some(a) => seq![a],
            None => Seq::empty(),
        },
        _ => Seq::empty(),
    }
}

/// `field_account` where there is a field to look at.
pub open spec fn opt_field_account(tx: Seq<(String, Value)>, field: Option<Seq<char>>) -> Seq<AccountView> {
    match field {
        Some(f) => field_account(tx, f),
        None => Seq::empty(),
    }
}

/// The accounts a block names under up to three fields of its `tx`, in that order; an error
/// with `msg` where the block is not a map.
pub open spec fn accounts_in(
    data: Value,
    first: Seq<char>,
    second: Option<Seq<char>>,
    third: Option<Seq<char>>,
    msg: Seq<char>,
) -> Result<Seq<AccountView>, Seq<char>> {
    match data {
        Value::Dict(_) => Ok(
            match tx_entries(data) {
                Some(tx) => field_account(tx, first) + opt_field_account(tx, second) + opt_field_account(tx, third),
                None => Seq::empty(),
            },
        ),
        _ => Err(msg),
    }
}

/// The token id a block names under `tid` of its `tx`; the errors the index reports otherwise,
/// with `msg` where the block is not a map.
pub open spec fn token_id_in(data: Value, msg: Seq<char>) -> Result<Option<nat>, Seq<char>> {
    match data {
        Value::Dict(m) => match lookup(m@, "tx"@) {
            Some(Value::Dict(tx)) => match lookup(tx@, "tid"@) {
                Some(Value::Nat(n)) => Ok(Some(n.value())),
                _ => Err("Missing or invalid token ID field"@),
            },
            _ => Err("Invalid transaction data"@),
        },
        _ => Err(msg),
    }
}

/// The timestamp of a block.
pub open spec fn timestamp_in(data: Value) -> Result<u64, Seq<char>> {
    match data {
        Value::Dict(m) => match lookup(m@, "timestamp"@) {
            Some(Value::Nat(n)) => if n.value() < crate::value::limb_base() {
                Ok(n.value() as u64)
            } else {
                Err("Invalid timestamp format"@)
            },
            _ => Err("Missing or invalid timestamp field"@),
        },
        _ => Err("Invalid block data"@),
    }
}

/// The kind of a block, read from its `btype`.
pub open spec fn block_type_in(data: Value) -> Result<BlockType, Seq<char>> {
    match data {
        Value::Dict(m) => match lookup(m@, "btype"@) {
            Some(Value::Text(t)) => match parse_block_type(t@) {
                Ok(b) => Ok(b),
                Err(_) => Err("Invalid block type"@),
            },
            _ => Err("Missing or invalid block type field"@),
        },
        _ => Err("Invalid block data"@),
    }
}

/// A token id as the index keeps it.
#[derive(Clone, Debug)]
pub struct WrappedNat(pub Nat);

/// What an account extraction gave, as views.
pub open spec fn accounts_result(r: Result<Vec<Account>, String>) -> Result<Seq<AccountView>, Seq<char>> {
    match r {
        Ok(v) => Ok(account_views(v@)),
        Err(e) => Err(e@),
    }
}

/// What a token id extraction gave, as numbers.
pub open spec fn token_id_result(r: Result<Option<WrappedNat>, String>) -> Result<Option<nat>, Seq<char>> {
    match r {
        Ok(Some(w)) => Ok(Some(w.0.value())),
        Ok(None) => Ok(None),
        Err(e) => Err(e@),
    }
}

/// What a text-valued extraction gave, with the error as text.
pub open spec fn text_err<T>(r: Result<T, String>) -> Result<T, Seq<char>> {
    match r {
        Ok(x) => Ok(x),
        Err(e) => Err(e@),
    }
}

fn tx_ref(data: &Value) -> (r: Option<&Vec<(String, Value)>>)
    ensures
        match r {
            Some(tx) => tx_entries(*data) == Some(tx@),
            None => tx_entries(*data) is None,
        },
{
    match data {
        Value::Dict(m) => match find_key(m, "tx") {
            Some(i) => match &m[i].1 {
                Value::Dict(tx) => Some(tx),
                _ => None,
            },
            None => None,
        },
        _ => None,
    }
}

fn push_field_account(tx: &Vec<(String, Value)>, field: &str, out: &mut Vec<Account>)
    ensures
        account_views(final(out)@) == account_views(old(out)@) + field_account(tx@, field@),
{
    let ghost before = out@;
    match find_key(tx, field) {
        Some(i) => match &tx[i].1 {
            Value::Text(t) => match parse_account_text(t.as_str()) {
                Some(a) => {
                    out.push(a);
                    assert(account_views(out@) =~= account_views(before) + field_account(tx@, field@));
                },
                None => {
                    assert(account_views(out@) =~= account_views(before) + field_account(tx@, field@));
                },
            },
            _ => {
                assert(account_views(out@) =~= account_views(before) + field_account(tx@, field@));
            },
        },
        None => {
            assert(account_views(out@) =~= account_views(before) + field_account(tx@, field@));
        },
    }
}

fn push_opt_field_account(tx: &Vec<(String, Value)>, field: Option<&str>, out: &mut Vec<Account>)
    ensures
        account_views(final(out)@) == account_views(old(out)@) + opt_field_account(tx@, opt_text(field)),
{
    match field {
        Some(f) => push_field_account(tx, f, out),
        None => {
            assert(account_views(out@) =~= account_views(out@) + Seq::<AccountView>::empty());
        },
    }
}

/// The text of an optional field name.
pub open spec fn opt_text(f: Option<&str>) -> Option<Seq<char>> {
    match f {
        Some(s) => Some(s@),
        None => None,
    }
}

fn accounts_with(data: &Value, first: &str, second: Option<&str>, third: Option<&str>, msg: &str) -> (r: Result<Vec<Account>, String>)
    ensures
        accounts_result(r) == accounts_in(*data, first@, opt_text(second), opt_text(third), msg@),
{
    match data {
        Value::Dict(_) => {
            let mut accounts: Vec<Account> = Vec::new();
            match tx_ref(data) {
                Some(tx) => {
                    push_field_account(tx, first, &mut accounts);
                    push_opt_field_account(tx, second, &mut accounts);
                    push_opt_field_account(tx, third, &mut accounts);
                    assert(account_views(accounts@) =~= field_account(tx@, first@) + opt_field_account(tx@, opt_text(second))
                        + opt_field_account(tx@, opt_text(third)));
                },
                None => {
                    assert(account_views(accounts@) =~= Seq::<AccountView>::empty());
                },
            }
            Ok(accounts)
        },
        _ => Err(String::from_str(msg)),
    }
}

fn token_id_with(data: &Value, msg: &str) -> (r: Result<Option<WrappedNat>, String>)
    ensures
        token_id_result(r) == token_id_in(*data, msg@),
{
    match data {
        Value::Dict(m) => match find_key(m, "tx") {
            Some(i) => match &m[i].1 {
                Value::Dict(tx) => match find_key(tx, "tid") {
                    Some(j) => match &tx[j].1 {
                        Value::Nat(n) => Ok(Some(WrappedNat(n.copy()))),
                        _ => Err(String::from_str("Missing or invalid token ID field")),
                    },
                    None => Err(String::from_str("Missing or invalid token ID field")),
                },
                _ => Err(String::from_str("Invalid transaction data")),
            },
            None => Err(String::from_str("Invalid transaction data")),
        },
        _ => Err(String::from_str(msg)),
    }
}

/// What the index reads from the data of a block.
pub trait TransactionDataExtractor {
    /// The accounts the index files the block under.
    spec fn accounts_spec(&self, data: Value) -> Result<Seq<AccountView>, Seq<char>>;

    /// The token the index files the block under.
    spec fn token_id_spec(&self, data: Value) -> Result<Option<nat>, Seq<char>>;

    /// The accounts named by the block.
    fn extract_accounts(&self, data: &Value) -> (r: Result<Vec<Account>, String>)
        ensures
            accounts_result(r) == self.accounts_spec(*data),
    ;

    /// The token named by the block, if this kind of block names one.
    fn extract_token_id(&self, data: &Value) -> (r: Result<Option<WrappedNat>, String>)
        ensures
            token_id_result(r) == self.token_id_spec(*data),
    ;

    /// The kind of the block, read from its `btype`.
    fn extract_block_type(&self, data: &Value) -> (r: Result<BlockType, String>)
        ensures
            text_err(r) == block_type_in(*data),
    {
        match data {
            Value::Dict(m) => match find_key(m, "btype") {
                Some(i) => match &m[i].1 {
                    Value::Text(t) => match BlockType::from_str(t.as_str()) {
                        Ok(b) => Ok(b),
                        Err(_) => Err(String::from_str("Invalid block type")),
                    },
                    _ => Err(String::from_str("Missing or invalid block type field")),
                },
                None => Err(String::from_str("Missing or invalid block type field")),
            },
            _ => Err(String::from_str("Invalid block data")),
        }
    }

    /// The timestamp of the block.
    fn extract_timestamp(&self, data: &Value) -> (r: Result<u64, String>)
        ensures
            text_err(r) == timestamp_in(*data),
    {
        match data {
            Value::Dict(m) => match find_key(m, "timestamp") {
                Some(i) => match &m[i].1 {
                    Value::Nat(n) => match n.to_u64() {
                        Some(t) => Ok(t),
                        None => Err(String::from_str("Invalid timestamp format")),
                    },
                    _ => Err(String::from_str("Missing or invalid timestamp field")),
                },
                None => Err(String::from_str("Missing or invalid timestamp field")),
            },
            _ => Err(String::from_str("Invalid block data")),
        }
    }
}

impl TransactionDataExtractor for TransferBlock {
    open spec fn accounts_spec(&self, data: Value) -> Result<Seq<AccountView>, Seq<char>> {
        accounts_in(data, "from"@, Some("to"@), None, "Transfer transaction data must be a map"@)
    }

    open spec fn token_id_spec(&self, data: Value) -> Result<Option<nat>, Seq<char>> {
        token_id_in(data, "Transfer transaction data must be a map"@)
    }

    fn extract_accounts(&self, data: &Value) -> (r: Result<Vec<Account>, String>) {
        accounts_with(data, "from", Some("to"), None, "Transfer transaction data must be a map")
    }

    fn extract_token_id(&self, data: &Value) -> (r: Result<Option<WrappedNat>, String>) {
        token_id_with(data, "Transfer transaction data must be a map")
    }
}

impl TransactionDataExtractor for MintBlock {
    open spec fn accounts_spec(&self, data: Value) -> Result<Seq<AccountView>, Seq<char>> {
        accounts_in(data, "to"@, None, None, "Mint transaction data must be a map"@)
    }

    open spec fn token_id_spec(&self, data: Value) -> Result<Option<nat>, Seq<char>> {
        token_id_in(data, "Transfer transaction data must be a map"@)
    }

    fn extract_accounts(&self, data: &Value) -> (r: Result<Vec<Account>, String>) {
        accounts_with(data, "to", None, None, "Mint transaction data must be a map")
    }

    fn extract_token_id(&self, data: &Value) -> (r: Result<Option<WrappedNat>, String>) {
        token_id_with(data, "Transfer transaction data must be a map")
    }
}

impl TransactionDataExtractor for BurnBlock {
    open spec fn accounts_spec(&self, data: Value) -> Result<Seq<AccountView>, Seq<char>> {
        accounts_in(data, "from"@, Some("to"@), None, "Burn transaction data must be a map"@)
    }

    open spec fn token_id_spec(&self, data: Value) -> Result<Option<nat>, Seq<char>> {
        token_id_in(data, "Transfer transaction data must be a map"@)
    }

    fn extract_accounts(&self, data: &Value) -> (r: Result<Vec<Account>, String>) {
        accounts_with(data, "from", Some("to"), None, "Burn transaction data must be a map")
    }

    fn extract_token_id(&self, data: &Value) -> (r: Result<Option<WrappedNat>, String>) {
        token_id_with(data, "Transfer transaction data must be a map")
    }
}

impl TransactionDataExtractor for ApproveBlock {
    open spec fn accounts_spec(&self, data: Value) -> Result<Seq<AccountView>, Seq<char>> {
        accounts_in(data, "from"@, Some("spender"@), None, "Approve transaction data must be a map"@)
    }

    open spec fn token_id_spec(&self, data: Value) -> Result<Option<nat>, Seq<char>> {
        token_id_in(data, "Transfer transaction data must be a map"@)
    }

    fn extract_accounts(&self, data: &Value) -> (r: Result<Vec<Account>, String>) {
        accounts_with(data, "from", Some("spender"), None, "Approve transaction data must be a map")
    }

    fn extract_token_id(&self, data: &Value) -> (r: Result<Option<WrappedNat>, String>) {
        token_id_with(data, "Transfer transaction data must be a map")
    }
}

impl TransactionDataExtractor for TransferFromBlock {
    open spec fn accounts_spec(&self, data: Value) -> Result<Seq<AccountView>, Seq<char>> {
        accounts_in(data, "from"@, Some("spender"@), Some("to"@), "TransferFrom transaction data must be a map"@)
    }

    open spec fn token_id_spec(&self, data: Value) -> Result<Option<nat>, Seq<char>> {
        Ok(None)
    }

    fn extract_accounts(&self, data: &Value) -> (r: Result<Vec<Account>, String>) {
        accounts_with(data, "from", Some("spender"), Some("to"), "TransferFrom transaction data must be a map")
    }

    fn extract_token_id(&self, data: &Value) -> (r: Result<Option<WrappedNat>, String>) {
        Ok(None)
    }
}

impl TransactionDataExtractor for UpdateTokenMetadataBlock {
    open spec fn accounts_spec(&self, data: Value) -> Result<Seq<AccountView>, Seq<char>> {
        accounts_in(data, "from"@, None, None, "UpdateTokenMetadata transaction data must be a map"@)
    }

    open spec fn token_id_spec(&self, data: Value) -> Result<Option<nat>, Seq<char>> {
        token_id_in(data, "UpdateTokenMetadata transaction data must be a map"@)
    }

    fn extract_accounts(&self, data: &Value) -> (r: Result<Vec<Account>, String>) {
        accounts_with(data, "from", None, None, "UpdateTokenMetadata transaction data must be a map")
    }

    fn extract_token_id(&self, data: &Value) -> (r: Result<Option<WrappedNat>, String>) {
        token_id_with(data, "UpdateTokenMetadata transaction data must be a map")
    }
}

impl TransactionDataExtractor for CollectionApproveBlock {
    open spec fn accounts_spec(&self, data: Value) -> Result<Seq<AccountView>, Seq<char>> {
        accounts_in(data, "from"@, None, None, "CollectionApprove transaction data must be a map"@)
    }

    open spec fn token_id_spec(&self, data: Value) -> Result<Option<nat>, Seq<char>> {
        Ok(None)
    }

    fn extract_accounts(&self, data: &Value) -> (r: Result<Vec<Account>, String>) {
        accounts_with(data, "from", None, None, "CollectionApprove transaction data must be a map")
    }

    fn extract_token_id(&self, data: &Value) -> (r: Result<Option<WrappedNat>, String>) {
        Ok(None)
    }
}

impl TransactionDataExtractor for RevokeBlock {
    open spec fn accounts_spec(&self, data: Value) -> Result<Seq<AccountView>, Seq<char>> {
        accounts_in(data, "from"@, Some("spender"@), None, "Revoke transaction data must be a map"@)
    }

    open spec fn token_id_spec(&self, data: Value) -> Result<Option<nat>, Seq<char>> {
        token_id_in(data, "Revoke transaction data must be a map"@)
    }

    fn extract_accounts(&self, data: &Value) -> (r: Result<Vec<Account>, String>) {
        accounts_with(data, "from", Some("spender"), None, "Revoke transaction data must be a map")
    }

    fn extract_token_id(&self, data: &Value) -> (r: Result<Option<WrappedNat>, String>) {
        token_id_with(data, "Revoke transaction data must be a map")
    }
}

impl TransactionDataExtractor for RevokeCollectionBlock {
    open spec fn accounts_spec(&self, data: Value) -> Result<Seq<AccountView>, Seq<char>> {
        accounts_in(data, "from"@, Some("spender"@), None, "RevokeCollection transaction data must be a map"@)
    }

    open spec fn token_id_spec(&self, data: Value) -> Result<Option<nat>, Seq<char>> {
        Ok(None)
    }

    fn extract_accounts(&self, data: &Value) -> (r: Result<Vec<Account>, String>) {
        accounts_with(data, "from", Some("spender"), None, "RevokeCollection transaction data must be a map")
    }

    fn extract_token_id(&self, data: &Value) -> (r: Result<Option<WrappedNat>, String>) {
        Ok(None)
    }
}

/// Each kind of block reads its data as its own marker type does.
impl TransactionDataExtractor for BlockType {
    open spec fn accounts_spec(&self, data: Value) -> Result<Seq<AccountView>, Seq<char>> {
        match *self {
            BlockType::Transfer(b) => b.accounts_spec(data),
            BlockType::TransferFrom(b) => b.accounts_spec(data),
            BlockType::UpdateTokenMetadata(b) => b.accounts_spec(data),
            BlockType::Mint(b) => b.accounts_spec(data),
            BlockType::Burn(b) => b.accounts_spec(data),
            BlockType::Approve(b) => b.accounts_spec(data),
            BlockType::CollectionApprove(b) => b.accounts_spec(data),
            BlockType::Revoke(b) => b.accounts_spec(data),
            BlockType::RevokeCollection(b) => b.accounts_spec(data),
        }
    }

    open spec fn token_id_spec(&self, data: Value) -> Result<Option<nat>, Seq<char>> {
        match *self {
            BlockType::Transfer(b) => b.token_id_spec(data),
            BlockType::TransferFrom(b) => b.token_id_spec(data),
            BlockType::UpdateTokenMetadata(b) => b.token_id_spec(data),
            BlockType::Mint(b) => b.token_id_spec(data),
            BlockType::Burn(b) => b.token_id_spec(data),
            BlockType::Approve(b) => b.token_id_spec(data),
            BlockType::CollectionApprove(b) => b.token_id_spec(data),
            BlockType::Revoke(b) => b.token_id_spec(data),
            BlockType::RevokeCollection(b) => b.token_id_spec(data),
        }
    }

    fn extract_accounts(&self, data: &Value) -> (r: Result<Vec<Account>, String>) {
        match self {
            BlockType::Transfer(b) => b.extract_accounts(data),
            BlockType::TransferFrom(b) => b.extract_accounts(data),
            BlockType::UpdateTokenMetadata(b) => b.extract_accounts(data),
            BlockType::Mint(b) => b.extract_accounts(data),
            BlockType::Burn(b) => b.extract_accounts(data),
            BlockType::Approve(b) => b.extract_accounts(data),
            BlockType::CollectionApprove(b) => b.extract_accounts(data),
            BlockType::Revoke(b) => b.extract_accounts(data),
            BlockType::RevokeCollection(b) => b.extract_accounts(data),
        }
    }

    fn extract_token_id(&self, data: &Value) -> (r: Result<Option<WrappedNat>, String>) {
        match self {
            BlockType::Transfer(b) => b.extract_token_id(data),
            BlockType::TransferFrom(b) => b.extract_token_id(data),
            BlockType::UpdateTokenMetadata(b) => b.extract_token_id(data),
            BlockType::Mint(b) => b.extract_token_id(data),
            BlockType::Burn(b) => b.extract_token_id(data),
            BlockType::Approve(b) => b.extract_token_id(data),
            BlockType::CollectionApprove(b) => b.extract_token_id(data),
            BlockType::Revoke(b) => b.extract_token_id(data),
            BlockType::RevokeCollection(b) => b.extract_token_id(data),
        }
    }
}

/// Whether blocks of a kind are filed under the accounts they name.
pub open spec fn indexed_by_account(b: BlockType) -> bool {
    !(b is CollectionApprove || b is RevokeCollection)
}

/// Which indexes a kind of block goes into.
pub trait BlockIndexer {
    fn should_index_by_timestamp(&self) -> (r: bool)
        ensures
            r,
    ;

    fn should_index_by_account(&self) -> bool;

    fn should_index_by_block_type(&self) -> (r: bool)
        ensures
            r,
    ;

    fn account_to_index(&self) -> (r: Option<Account>)
        ensures
            r is None,
    ;
}

impl BlockIndexer for BlockType {
    fn should_index_by_timestamp(&self) -> (r: bool) {
        true
    }

    fn should_index_by_account(&self) -> (r: bool)
        ensures
            r == indexed_by_account(*self),
    {
        match self {
            BlockType::Transfer(_) => true,
            BlockType::Mint(_) => true,
            BlockType::Burn(_) => true,
            BlockType::Approve(_) => true,
            BlockType::TransferFrom(_) => true,
            BlockType::CollectionApprove(_) => false,
            BlockType::Revoke(_) => true,
            BlockType::RevokeCollection(_) => false,
            BlockType::UpdateTokenMetadata(_) => true,
        }
    }

    fn should_index_by_block_type(&self) -> (r: bool) {
        true
    }

    fn account_to_index(&self) -> (r: Option<Account>) {
        None
    }
}

} // verus!
