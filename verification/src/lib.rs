//! The state of one shard of an asset ledger: asset schemes and owned assets kept in a
//! checkpointed write-back cache over a trie, and the transactions that change them.

pub mod address;
pub mod addressing;
pub mod cache;
pub mod conservation;
pub mod db;
pub mod error;
pub mod hash;
pub mod item;
pub mod laws;
pub mod ledger;
pub mod locality;
pub mod metadata;
pub mod orders;
pub mod pool;
pub mod promises;
pub mod readings;
pub mod script;
pub mod shard_level;
pub mod table;
pub mod traits;
pub mod transaction;
