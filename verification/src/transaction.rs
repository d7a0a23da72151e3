//! The transactions that a shard applies.
//!
//! The hash of a transaction or of an order is a digest of its encoding. Whoever decodes a
//! transaction computes it and hands it over in the field `hash`.

use crate::hash::{Address, H160, H256};
use vstd::prelude::*;

verus! {

/// Where an asset was made, and what it is claimed to be.
#[derive(Clone, Copy, Debug, Eq)]
pub struct AssetOutPoint {
    pub transaction_hash: H256,
    pub index: usize,
    pub asset_type: H256,
    pub amount: u64,
}

impl PartialEq for AssetOutPoint {
    fn eq(&self, other: &Self) -> (same: bool) {
        self.transaction_hash == other.transaction_hash && self.index == other.index
            && self.asset_type == other.asset_type && self.amount == other.amount
    }
}

impl vstd::std_specs::cmp::PartialEqSpecImpl for AssetOutPoint {
    open spec fn obeys_eq_spec() -> bool {
        true
    }

    open spec fn eq_spec(&self, other: &Self) -> bool {
        *self == *other
    }
}

/// Says whether `point` is one of `list`.
pub fn contains_out_point(list: &[AssetOutPoint], point: &AssetOutPoint) -> (found: bool)
    ensures
        found == list@.contains(*point),
{
    let mut i: usize = 0;
    while i < list.len()
        invariant
            i <= list@.len(),
            forall|j: int| 0 <= j < i ==> list@[j] != *point,
        decreases list@.len() - i,
    {
        if list[i] == *point {
            assert(list@[i as int] == *point);
            return true;
        }
        i += 1;
    }
    false
}

/// An asset to be spent, with the scripts that unlock it.
#[derive(Debug, PartialEq, Eq)]
pub struct AssetTransferInput {
    pub prev_out: AssetOutPoint,
    pub lock_script: Vec<u8>,
    pub unlock_script: Vec<u8>,
}

/// An asset to be made by a transfer.
#[derive(Debug, PartialEq, Eq)]
pub struct AssetTransferOutput {
    pub lock_script_hash: H160,
    pub parameters: Vec<Vec<u8>>,
    pub asset_type: H256,
    pub amount: u64,
}

/// The asset to be made by a mint. Without an amount it is as large as an amount can be.
#[derive(Debug, PartialEq, Eq)]
pub struct AssetMintOutput {
    pub lock_script_hash: H160,
    pub parameters: Vec<Vec<u8>>,
    pub amount: Option<u64>,
}

/// The asset to be made when native coin is wrapped.
#[derive(Debug, PartialEq, Eq)]
pub struct AssetWrapCCCOutput {
    pub lock_script_hash: H160,
    pub parameters: Vec<Vec<u8>>,
    pub amount: u64,
}

/// An order to exchange assets.
#[derive(Debug, PartialEq, Eq)]
pub struct Order {
    pub hash: H256,
    pub origin_outputs: Vec<AssetOutPoint>,
}

/// An order that a transfer fills in part or in full.
#[derive(Debug, PartialEq, Eq)]
pub struct OrderOnTransfer {
    pub order: Order,
    /// The hash of what is left of the order once the transfer has spent its share.
    pub consumed_hash: H256,
    /// The inputs that the order pays with.
    pub input_indices: Vec<usize>,
    /// The outputs that stay under what is left of the order.
    pub output_indices: Vec<usize>,
}

#[derive(Debug, PartialEq, Eq)]
pub enum Transaction {
    AssetMint {
        hash: H256,
        metadata: String,
        approver: Option<Address>,
        administrator: Option<Address>,
        output: AssetMintOutput,
    },
    AssetTransfer {
        hash: H256,
        burns: Vec<AssetTransferInput>,
        inputs: Vec<AssetTransferInput>,
        outputs: Vec<AssetTransferOutput>,
        orders: Vec<OrderOnTransfer>,
    },
    AssetSchemeChange {
        hash: H256,
        asset_type: H256,
        metadata: String,
        approver: Option<Address>,
        administrator: Option<Address>,
    },
    AssetCompose {
        hash: H256,
        metadata: String,
        approver: Option<Address>,
        administrator: Option<Address>,
        inputs: Vec<AssetTransferInput>,
        output: AssetMintOutput,
    },
    AssetDecompose {
        hash: H256,
        input: AssetTransferInput,
        outputs: Vec<AssetTransferOutput>,
    },
    AssetUnwrapCCC {
        hash: H256,
        burn: AssetTransferInput,
    },
}

/// A transaction as it reaches a shard.
#[derive(Debug, PartialEq, Eq)]
pub enum InnerTransaction {
    General(Transaction),
    AssetWrapCCC {
        parcel_hash: H256,
        output: AssetWrapCCCOutput,
    },
}

/// The hash of a transaction.
pub open spec fn general_hash_of(transaction: Transaction) -> H256 {
    match transaction {
        Transaction::AssetMint { hash, .. } => hash,
        Transaction::AssetTransfer { hash, .. } => hash,
        Transaction::AssetSchemeChange { hash, .. } => hash,
        Transaction::AssetCompose { hash, .. } => hash,
        Transaction::AssetDecompose { hash, .. } => hash,
        Transaction::AssetUnwrapCCC { hash, .. } => hash,
    }
}

/// The hash of a transaction as it reaches a shard. Wrapped native coin goes by the hash of the
/// parcel that wraps it.
pub open spec fn hash_of(transaction: InnerTransaction) -> H256 {
    match transaction {
        InnerTransaction::General(general) => general_hash_of(general),
        InnerTransaction::AssetWrapCCC { parcel_hash, .. } => parcel_hash,
    }
}

impl Transaction {
    /// The hash of the transaction.
    pub fn hash(&self) -> (hash: H256)
        ensures
            hash == general_hash_of(*self),
    {
        match self {
            Transaction::AssetMint { hash, .. } => *hash,
            Transaction::AssetTransfer { hash, .. } => *hash,
            Transaction::AssetSchemeChange { hash, .. } => *hash,
            Transaction::AssetCompose { hash, .. } => *hash,
            Transaction::AssetDecompose { hash, .. } => *hash,
            Transaction::AssetUnwrapCCC { hash, .. } => *hash,
        }
    }
}

impl InnerTransaction {
    /// The hash of the transaction.
    pub fn hash(&self) -> (hash: H256)
        ensures
            hash == hash_of(*self),
    {
        match self {
            InnerTransaction::General(general) => general.hash(),
            InnerTransaction::AssetWrapCCC { parcel_hash, .. } => *parcel_hash,
        }
    }
}

} // verus!
