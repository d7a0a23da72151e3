//! The things a shard keeps: asset schemes and owned assets.

use crate::hash::{Address, H160, H256};
use vstd::prelude::*;

verus! {

/// The byte strings of a list of byte vectors.
pub open spec fn byte_strings(list: Seq<Vec<u8>>) -> Seq<Seq<u8>> {
    list.map_values(|bytes: Vec<u8>| bytes@)
}

/// Copies a list of byte vectors.
pub fn copy_byte_strings(list: &[Vec<u8>]) -> (copy: Vec<Vec<u8>>)
    ensures
        byte_strings(copy@) == byte_strings(list@),
{
    let mut copy: Vec<Vec<u8>> = Vec::with_capacity(list.len());
    let mut i: usize = 0;
    while i < list.len()
        invariant
            i <= list@.len(),
            copy@.len() == i,
            forall|j: int| 0 <= j < i ==> (#[trigger] copy@[j])@ == list@[j]@,
        decreases list@.len() - i,
    {
        copy.push(vstd::slice::slice_to_vec(list[i].as_slice()));
        i += 1;
    }
    assert(byte_strings(copy@) =~= byte_strings(list@));
    copy
}

/// An amount of the assets of one type.
#[derive(Clone, Copy, Debug, PartialEq, Eq)]
pub struct Asset {
    pub asset_type: H256,
    pub amount: u64,
}

impl Asset {
    pub fn new(asset_type: H256, amount: u64) -> (asset: Self)
        ensures
            asset == (Asset { asset_type, amount }),
    {
        Asset { asset_type, amount }
    }
}

/// What is laid down for all the assets of one type.
#[derive(Debug, PartialEq, Eq)]
pub struct AssetScheme {
    pub metadata: String,
    pub amount: u64,
    pub approver: Option<Address>,
    pub administrator: Option<Address>,
    pub pool: Vec<Asset>,
}

/// The contents of an [`AssetScheme`].
#[verifier::ext_equal]
pub struct SchemeView {
    pub metadata: Seq<char>,
    pub amount: u64,
    pub approver: Option<Address>,
    pub administrator: Option<Address>,
    pub pool: Seq<Asset>,
}

impl View for AssetScheme {
    type V = SchemeView;

    open spec fn view(&self) -> SchemeView {
        SchemeView {
            metadata: self.metadata@,
            amount: self.amount,
            approver: self.approver,
            administrator: self.administrator,
            pool: self.pool@,
        }
    }
}

impl Clone for AssetScheme {
    fn clone(&self) -> (copy: Self)
        ensures
            copy@ == self@,
    {
        AssetScheme {
            metadata: self.metadata.clone(),
            amount: self.amount,
            approver: self.approver,
            administrator: self.administrator,
            pool: vstd::slice::slice_to_vec(self.pool.as_slice()),
        }
    }
}

impl AssetScheme {
    pub fn new(
        metadata: String,
        amount: u64,
        approver: Option<Address>,
        administrator: Option<Address>,
        pool: Vec<Asset>,
    ) -> (scheme: Self)
        ensures
            scheme@ == (SchemeView {
                metadata: metadata@,
                amount,
                approver,
                administrator,
                pool: pool@,
            }),
    {
        AssetScheme { metadata, amount, approver, administrator, pool }
    }

    /// The assets of the scheme are under an administrator.
    pub fn is_centralized(&self) -> (centralized: bool)
        ensures
            centralized == (self@.administrator is Some),
    {
        self.administrator.is_some()
    }

    /// Changes what may be changed of a scheme. The amount and the pool stay as they are.
    pub fn change_data(
        &mut self,
        metadata: String,
        approver: Option<Address>,
        administrator: Option<Address>,
    )
        ensures
            final(self)@ == (SchemeView { metadata: metadata@, approver, administrator, ..old(self)@ }),
    {
        self.metadata = metadata;
        self.approver = approver;
        self.administrator = administrator;
    }
}

/// An amount of assets under a lock.
#[derive(Debug, PartialEq, Eq)]
pub struct OwnedAsset {
    pub asset: Asset,
    pub lock_script_hash: H160,
    pub parameters: Vec<Vec<u8>>,
    pub order_hash: Option<H256>,
}

/// The contents of an [`OwnedAsset`].
#[verifier::ext_equal]
pub struct AssetView {
    pub asset_type: H256,
    pub amount: u64,
    pub lock_script_hash: H160,
    pub parameters: Seq<Seq<u8>>,
    pub order_hash: Option<H256>,
}

impl View for OwnedAsset {
    type V = AssetView;

    open spec fn view(&self) -> AssetView {
        AssetView {
            asset_type: self.asset.asset_type,
            amount: self.asset.amount,
            lock_script_hash: self.lock_script_hash,
            parameters: byte_strings(self.parameters@),
            order_hash: self.order_hash,
        }
    }
}

impl Clone for OwnedAsset {
    fn clone(&self) -> (copy: Self)
        ensures
            copy@ == self@,
    {
        OwnedAsset {
            asset: self.asset,
            lock_script_hash: self.lock_script_hash,
            parameters: copy_byte_strings(self.parameters.as_slice()),
            order_hash: self.order_hash,
        }
    }
}

impl OwnedAsset {
    pub fn new(
        asset_type: H256,
        lock_script_hash: H160,
        parameters: Vec<Vec<u8>>,
        amount: u64,
        order_hash: Option<H256>,
    ) -> (asset: Self)
        ensures
            asset@ == (AssetView {
                asset_type,
                amount,
                lock_script_hash,
                parameters: byte_strings(parameters@),
                order_hash,
            }),
    {
        OwnedAsset { asset: Asset::new(asset_type, amount), lock_script_hash, parameters, order_hash }
    }

    /// The type of the assets.
    pub fn asset_type(&self) -> (asset_type: &H256)
        ensures
            *asset_type == self@.asset_type,
    {
        &self.asset.asset_type
    }

    /// How much there is of them.
    pub fn amount(&self) -> (amount: u64)
        ensures
            amount == self@.amount,
    {
        self.asset.amount
    }
}

} // verus!
