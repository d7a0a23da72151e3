//! Reading a shard.

use crate::address::{AssetSchemeAddress, OwnedAssetAddress};
use crate::cache::{Entry, ShardCache};
use crate::db::StateDB;
use crate::error::TrieError;
use crate::hash::H256;
use crate::item::{AssetScheme, AssetView, OwnedAsset, SchemeView};
use crate::ledger::{asset_over, asset_read, scheme_over, scheme_read};
use vstd::prelude::*;

verus! {

/// A shard whose schemes and assets can be read.
pub trait ShardStateView {
    /// The trie and the cache of the shard are in order.
    spec fn readable(&self) -> bool;

    /// The scheme at an address.
    spec fn scheme_at(&self, address: H256) -> Result<Option<SchemeView>, TrieError>;

    /// The asset at an address.
    spec fn asset_at(&self, address: H256) -> Result<Option<AssetView>, TrieError>;

    /// Reads the scheme at an address.
    fn asset_scheme(&self, a: &AssetSchemeAddress) -> (scheme: Result<
        Option<AssetScheme>,
        TrieError,
    >)
        requires
            self.readable(),
        ensures
            scheme_read(scheme) == self.scheme_at(a@),
    ;

    /// Reads the asset at an address.
    fn asset(&self, a: &OwnedAssetAddress) -> (asset: Result<Option<OwnedAsset>, TrieError>)
        requires
            self.readable(),
        ensures
            asset_read(asset) == self.asset_at(a@),
    ;
}

/// Reads a scheme from the cache, or from the trie where the cache says nothing of it.
pub fn read_scheme(db: &StateDB, root: &H256, cache: &ShardCache, address: &H256) -> (scheme: Result<
    Option<AssetScheme>,
    TrieError,
>)
    requires
        db.wf(),
        db@.contains_key(*root),
        cache.wf(),
    ensures
        scheme_read(scheme) == scheme_over(cache@.current, db@[*root], *address),
{
    match db.readonly(root) {
        Err(error) => Err(error),
        Ok(trie) => match cache.scheme(address) {
            Some(Entry::Present(scheme)) => Ok(Some(scheme.clone())),
            Some(Entry::Removed) => Ok(None),
            None => trie.scheme(address),
        },
    }
}

/// Reads an asset from the cache, or from the trie where the cache says nothing of it.
pub fn read_asset(db: &StateDB, root: &H256, cache: &ShardCache, address: &H256) -> (asset: Result<
    Option<OwnedAsset>,
    TrieError,
>)
    requires
        db.wf(),
        db@.contains_key(*root),
        cache.wf(),
    ensures
        asset_read(asset) == asset_over(cache@.current, db@[*root], *address),
{
    match db.readonly(root) {
        Err(error) => Err(error),
        Ok(trie) => match cache.asset(address) {
            Some(Entry::Present(asset)) => Ok(Some(asset.clone())),
            Some(Entry::Removed) => Ok(None),
            None => trie.asset(address),
        },
    }
}

} // verus!
