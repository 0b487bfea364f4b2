//! Verified core of an ICRC-7 / ICRC-37 NFT collection and its block index.

pub mod access;
pub mod account;
pub mod assoc;
pub mod blocks;
pub mod bytes;
pub mod cache;
pub mod codec;
pub mod collection;
pub mod fetch;
pub mod index;
pub mod indexer;
pub mod ledger;
pub mod metadata;
pub mod queries;
pub mod sorted;
pub mod stable;
pub mod text;
pub mod throttle;
pub mod uploads;
pub mod value;
