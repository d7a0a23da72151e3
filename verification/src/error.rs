//! What can go wrong when a transaction is applied.

use crate::hash::{Address, H160, H256};
use vstd::prelude::*;

verus! {

/// A value that was found where another was expected.
#[derive(Clone, Copy, Debug, PartialEq, Eq)]
pub struct Mismatch {
    pub expected: H160,
    pub found: H160,
}

/// Why the scripts of an input did not unlock it.
#[derive(Clone, Copy, Debug, PartialEq, Eq)]
pub enum UnlockFailureReason {
    ScriptShouldBeBurnt,
    ScriptShouldNotBeBurnt,
    ScriptError,
}

/// Why a transaction is refused.
#[derive(Clone, Copy, Debug, PartialEq, Eq)]
pub enum TransactionError {
    InsufficientPermission,
    AssetSchemeDuplicated(H256),
    AssetSchemeNotFound(H256),
    AssetNotFound(H256),
    InvalidAssetAmount { address: H256, expected: u64, got: u64 },
    InvalidAssetType(H256),
    NotApproved(Address),
    CannotBurnCentralizedAsset,
    CannotComposeCentralizedAsset,
    ScriptHashMismatch(Mismatch),
    InvalidScript,
    FailedToUnlock { address: H256, reason: UnlockFailureReason },
    InvalidOriginOutputs(H256),
    InvalidDecomposedInput { address: H256, got: u64 },
    InvalidDecomposedOutput { address: H256, expected: u64, got: u64 },
}

/// Why the trie under a state cannot be read.
#[derive(Clone, Copy, Debug, PartialEq, Eq)]
pub enum TrieError {
    /// The database holds no trie with this root.
    InvalidStateRoot(H256),
    /// A node of the trie is missing from the database.
    IncompleteDatabase(H256),
}

/// Why a transaction has no effect.
#[derive(Clone, Copy, Debug, PartialEq, Eq)]
pub enum StateError {
    Trie(TrieError),
    Transaction(TransactionError),
}

pub type StateResult<T> = Result<T, StateError>;

/// What became of a transaction that the shard took note of.
#[derive(Clone, Copy, Debug, PartialEq, Eq)]
pub enum Invoice {
    Success,
    Failure(TransactionError),
}

/// Why the work on a transaction stops early.
#[derive(Clone, Copy, Debug, PartialEq, Eq)]
pub enum Stop {
    /// The transaction is refused, or the trie cannot be read.
    Error(StateError),
    /// Nothing is defined for the transaction: an index of an order points past the end of a
    /// list, a sum of amounts leaves the range of `u64`, or an input claims a type that no
    /// scheme of the shard stands for.
    OutOfDomain,
}

/// A refusal of the transaction.
pub open spec fn refusal(error: TransactionError) -> Stop {
    Stop::Error(StateError::Transaction(error))
}

/// Refuses the transaction.
pub fn refuse(error: TransactionError) -> (stop: Stop)
    ensures
        stop == refusal(error),
{
    Stop::Error(StateError::Transaction(error))
}

/// A failure to read the trie.
pub open spec fn unreadable(error: TrieError) -> Stop {
    Stop::Error(StateError::Trie(error))
}

/// Reports a failure to read the trie.
pub fn fail_read(error: TrieError) -> (stop: Stop)
    ensures
        stop == unreadable(error),
{
    Stop::Error(StateError::Trie(error))
}

} // verus!
