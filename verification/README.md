# core_nft

The logic of an ICRC-7 / ICRC-37 NFT collection canister and of the index canister that files
its ICRC-3 blocks, written in Verus: every function in `src/` carries a contract that Verus
proves, and the properties that span several operations are stated and proved as `law_*`
proof functions.

## Layout

- `src/` — the verified library.
  - `ledger.rs`: owners, tokens by owner, token and collection approvals; each ICRC-37
    operation is split into a decision (`plan_*`, which gives the refusal or the transaction to
    log) and its completion (`commit_*`, which records the outcome of logging).
  - `collection.rs`: the collection settings, their listing as metadata, mint and burn.
  - `metadata.rs`: the metadata store of the collection and its tokens.
  - `queries.rs`: owners, balances and pages of token ids.
  - `access.rs`: permissions and the management-call guard.
  - `throttle.rs`: per-token transfer cooldowns and burst limits, kept in stable memory.
  - `uploads.rs`: the records of file uploads to storage canisters and the checks around each
    storage call.
  - `blocks.rs`, `index.rs`, `cache.rs`, `fetch.rs`, `indexer.rs`: the index canister — block
    kinds, what is filed for each block, the block cache, the planning of fetches, and the jobs.
  - `codec.rs`, `bytes.rs`: the byte records kept in stable memory.
  - `value.rs`, `account.rs`, `assoc.rs`, `sorted.rs`, `text.rs`, `stable.rs`: values,
    accounts, finite maps, text helpers, and the stable B-tree the library calls.
- `tests/` — tests of the library, run against the real outside crates.
- `app/` — the canisters around the library: their state, the conversions to the wire types,
  and the endpoints that read the caller and the time and call the transaction log, the
  storage canisters, and the ledger and its archives.
