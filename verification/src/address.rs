//! The addresses under which a shard keeps its asset schemes and its owned assets.
//!
//! An address is a hash of 256 bits whose first four bytes are stamped: a letter that tells the
//! two kinds apart, a zero byte, and the number of the shard, high byte first.

use crate::hash::{blake2b_256_keyed, digest_256_keyed, ShardId, H256};
use vstd::prelude::*;

verus! {

/// The first byte of the address of an asset scheme: the letter `S`.
pub const SCHEME_PREFIX: u8 = 0x53;

/// The first byte of the address of an owned asset: the letter `A`.
pub const ASSET_PREFIX: u8 = 0x41;

/// The index that stands for the scheme of a transaction among the things it makes.
pub const SCHEME_INDEX: u64 = 0xffff_ffff_ffff_ffff;

/// The digest whose bytes are all zero.
pub const ZERO_DIGEST: [u8; 32] = [
    0, 0, 0, 0, 0, 0, 0, 0,
    0, 0, 0, 0, 0, 0, 0, 0,
    0, 0, 0, 0, 0, 0, 0, 0,
    0, 0, 0, 0, 0, 0, 0, 0,
];

/// `digest` with its first four bytes replaced by the stamp of `prefix` and `shard_id`.
#[verifier::opaque]
pub open spec fn stamped(prefix: u8, shard_id: ShardId, digest: [u8; 32]) -> H256 {
    H256(
        [
            prefix, 0, (shard_id / 256) as u8, (shard_id % 256) as u8,
            digest[4], digest[5], digest[6], digest[7],
            digest[8], digest[9], digest[10], digest[11],
            digest[12], digest[13], digest[14], digest[15],
            digest[16], digest[17], digest[18], digest[19],
            digest[20], digest[21], digest[22], digest[23],
            digest[24], digest[25], digest[26], digest[27],
            digest[28], digest[29], digest[30], digest[31],
        ],
    )
}

/// Replaces the first four bytes of `digest` by the stamp of `prefix` and `shard_id`.
pub fn stamp(prefix: u8, shard_id: ShardId, digest: [u8; 32]) -> (hash: H256)
    ensures
        hash == stamped(prefix, shard_id, digest),
{
    reveal(stamped);
    let mut bytes = digest;
    bytes[0] = prefix;
    bytes[1] = 0;
    bytes[2] = (shard_id / 256) as u8;
    bytes[3] = (shard_id % 256) as u8;
    assert(bytes =~= stamped(prefix, shard_id, digest).0);
    H256(bytes)
}

/// `index` as a number of 128 bits, high byte first.
#[verifier::opaque]
pub open spec fn index_key_of(index: u64) -> [u8; 16] {
    [
        0, 0, 0, 0, 0, 0, 0, 0,
        (index / 0x100_0000_0000_0000) as u8,
        (index / 0x1_0000_0000_0000 % 256) as u8,
        (index / 0x100_0000_0000 % 256) as u8,
        (index / 0x1_0000_0000 % 256) as u8,
        (index / 0x100_0000 % 256) as u8,
        (index / 0x1_0000 % 256) as u8,
        (index / 0x100 % 256) as u8,
        (index % 256) as u8,
    ]
}

/// `index` as a number of 128 bits, high byte first.
pub fn index_key(index: u64) -> (key: [u8; 16])
    ensures
        key == index_key_of(index),
{
    reveal(index_key_of);
    let key: [u8; 16] = [
        0, 0, 0, 0, 0, 0, 0, 0,
        (index / 0x100_0000_0000_0000) as u8,
        (index / 0x1_0000_0000_0000 % 256) as u8,
        (index / 0x100_0000_0000 % 256) as u8,
        (index / 0x1_0000_0000 % 256) as u8,
        (index / 0x100_0000 % 256) as u8,
        (index / 0x1_0000 % 256) as u8,
        (index / 0x100 % 256) as u8,
        (index % 256) as u8,
    ];
    assert(key =~= index_key_of(index));
    key
}

/// The address of what a transaction makes at `index`.
pub open spec fn address_of(
    prefix: u8,
    transaction_hash: H256,
    index: u64,
    shard_id: ShardId,
) -> H256 {
    stamped(prefix, shard_id, blake2b_256_keyed(transaction_hash.0@, index_key_of(index)@))
}

/// The address of the scheme that a transaction mints in a shard.
pub open spec fn scheme_address(transaction_hash: H256, shard_id: ShardId) -> H256 {
    address_of(SCHEME_PREFIX, transaction_hash, SCHEME_INDEX, shard_id)
}

/// The address of the asset that a transaction makes at `index` in a shard.
pub open spec fn asset_address(transaction_hash: H256, index: int, shard_id: ShardId) -> H256 {
    address_of(ASSET_PREFIX, transaction_hash, index as u64, shard_id)
}

/// The address of the scheme of the wrapped native coin of a shard.
pub open spec fn zero_suffix_address(shard_id: ShardId) -> H256 {
    stamped(SCHEME_PREFIX, shard_id, ZERO_DIGEST)
}

/// `hash` has the form of the address of an asset scheme.
pub open spec fn is_scheme_hash(hash: H256) -> bool {
    hash.0[0] == SCHEME_PREFIX && hash.0[1] == 0
}

/// The address of an asset scheme.
#[derive(Clone, Copy, Debug, PartialEq, Eq, Hash)]
pub struct AssetSchemeAddress(H256);

/// The address of an owned asset.
#[derive(Clone, Copy, Debug, PartialEq, Eq, Hash)]
pub struct OwnedAssetAddress(H256);

impl View for AssetSchemeAddress {
    type V = H256;

    closed spec fn view(&self) -> H256 {
        self.0
    }
}

impl View for OwnedAssetAddress {
    type V = H256;

    closed spec fn view(&self) -> H256 {
        self.0
    }
}

impl AssetSchemeAddress {
    /// The address of the scheme that a transaction mints in a shard.
    pub fn new(transaction_hash: H256, shard_id: ShardId) -> (address: Self)
        ensures
            address@ == scheme_address(transaction_hash, shard_id),
            is_scheme_hash(address@),
    {
        reveal(stamped);
        let key = index_key(SCHEME_INDEX);
        AssetSchemeAddress(
            stamp(SCHEME_PREFIX, shard_id, digest_256_keyed(transaction_hash.0.as_slice(), &key)),
        )
    }

    /// The address of the scheme of the wrapped native coin of a shard.
    pub fn new_with_zero_suffix(shard_id: ShardId) -> (address: Self)
        ensures
            address@ == zero_suffix_address(shard_id),
            is_scheme_hash(address@),
    {
        reveal(stamped);
        AssetSchemeAddress(stamp(SCHEME_PREFIX, shard_id, ZERO_DIGEST))
    }

    /// Takes a hash for the address of a scheme, where it has the form of one.
    pub fn from_hash(hash: H256) -> (address: Option<Self>)
        ensures
            match address {
                Some(a) => is_scheme_hash(hash) && a@ == hash,
                None => !is_scheme_hash(hash),
            },
    {
        if hash.0[0] == SCHEME_PREFIX && hash.0[1] == 0 {
            Some(AssetSchemeAddress(hash))
        } else {
            None
        }
    }

    /// The address as a hash, which is the type of the assets of the scheme.
    pub fn hash(&self) -> (hash: H256)
        ensures
            hash == self@,
    {
        self.0
    }
}

impl OwnedAssetAddress {
    /// The address of the asset that a transaction makes at `index` in a shard.
    pub fn new(transaction_hash: H256, index: usize, shard_id: ShardId) -> (address: Self)
        ensures
            address@ == asset_address(transaction_hash, index as int, shard_id),
            !is_scheme_hash(address@),
    {
        reveal(stamped);
        let key = index_key(index as u64);
        OwnedAssetAddress(
            stamp(ASSET_PREFIX, shard_id, digest_256_keyed(transaction_hash.0.as_slice(), &key)),
        )
    }

    /// The address as a hash.
    pub fn hash(&self) -> (hash: H256)
        ensures
            hash == self@,
    {
        self.0
    }
}

impl From<AssetSchemeAddress> for H256 {
    fn from(address: AssetSchemeAddress) -> (hash: Self) {
        address.hash()
    }
}

impl vstd::std_specs::convert::FromSpecImpl<AssetSchemeAddress> for H256 {
    open spec fn obeys_from_spec() -> bool {
        true
    }

    open spec fn from_spec(address: AssetSchemeAddress) -> H256 {
        address@
    }
}

impl From<OwnedAssetAddress> for H256 {
    fn from(address: OwnedAssetAddress) -> (hash: Self) {
        address.hash()
    }
}

impl vstd::std_specs::convert::FromSpecImpl<OwnedAssetAddress> for H256 {
    open spec fn obeys_from_spec() -> bool {
        true
    }

    open spec fn from_spec(address: OwnedAssetAddress) -> H256 {
        address@
    }
}

} // verus!
