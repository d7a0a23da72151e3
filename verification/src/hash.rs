//! Hash values, account addresses and the BLAKE2b digests that the ledger is keyed by.

use blake2::digest::consts::{U20, U32};
use blake2::digest::Mac;
use blake2::{Blake2b, Blake2bMac, Digest};
use vstd::prelude::*;

verus! {

/// The number of a shard.
pub type ShardId = u16;

/// A hash of 160 bits.
#[derive(Clone, Copy, Debug, Eq, Hash)]
pub struct H160(pub [u8; 20]);

/// A hash of 256 bits.
#[derive(Clone, Copy, Debug, Eq, Hash)]
pub struct H256(pub [u8; 32]);

/// The address of an account: the hash of its public key.
#[derive(Clone, Copy, Debug, Eq, Hash)]
pub struct Address(pub H160);

impl PartialEq for H160 {
    fn eq(&self, other: &Self) -> (same: bool) {
        let mut i: usize = 0;
        while i < 20
            invariant
                i <= 20,
                forall|j: int| 0 <= j < i ==> self.0@[j] == other.0@[j],
            decreases 20 - i,
        {
            if self.0[i] != other.0[i] {
                assert(self.0@[i as int] != other.0@[i as int]);
                return false;
            }
            i += 1;
        }
        assert(self.0 =~= other.0);
        true
    }
}

impl vstd::std_specs::cmp::PartialEqSpecImpl for H160 {
    open spec fn obeys_eq_spec() -> bool {
        true
    }

    open spec fn eq_spec(&self, other: &Self) -> bool {
        *self == *other
    }
}

impl PartialEq for H256 {
    fn eq(&self, other: &Self) -> (same: bool) {
        let mut i: usize = 0;
        while i < 32
            invariant
                i <= 32,
                forall|j: int| 0 <= j < i ==> self.0@[j] == other.0@[j],
            decreases 32 - i,
        {
            if self.0[i] != other.0[i] {
                assert(self.0@[i as int] != other.0@[i as int]);
                return false;
            }
            i += 1;
        }
        assert(self.0 =~= other.0);
        true
    }
}

impl vstd::std_specs::cmp::PartialEqSpecImpl for H256 {
    open spec fn obeys_eq_spec() -> bool {
        true
    }

    open spec fn eq_spec(&self, other: &Self) -> bool {
        *self == *other
    }
}

impl PartialEq for Address {
    fn eq(&self, other: &Self) -> (same: bool) {
        self.0 == other.0
    }
}

impl vstd::std_specs::cmp::PartialEqSpecImpl for Address {
    open spec fn obeys_eq_spec() -> bool {
        true
    }

    open spec fn eq_spec(&self, other: &Self) -> bool {
        *self == *other
    }
}

/// Says whether `address` is one of `list`.
pub fn contains_address(list: &[Address], address: &Address) -> (found: bool)
    ensures
        found == list@.contains(*address),
{
    let mut i: usize = 0;
    while i < list.len()
        invariant
            i <= list@.len(),
            forall|j: int| 0 <= j < i ==> list@[j] != *address,
        decreases list@.len() - i,
    {
        if list[i] == *address {
            assert(list@[i as int] == *address);
            return true;
        }
        i += 1;
    }
    false
}

/// The unkeyed BLAKE2b digest of `data`, 20 bytes long.
pub uninterp spec fn blake2b_160(data: Seq<u8>) -> [u8; 20];

/// The BLAKE2b digest of `data` under `key`, 32 bytes long.
pub uninterp spec fn blake2b_256_keyed(data: Seq<u8>, key: Seq<u8>) -> [u8; 32];

/// Calls `blake2::Blake2b::<U20>::digest`, the unkeyed BLAKE2b with an output of 20 bytes.
/// The contract claims only that the digest is a function of the bytes hashed.
#[verifier::external_body]
pub(crate) fn digest_160(data: &[u8]) -> (digest: [u8; 20])
    ensures
        digest == blake2b_160(data@),
{
    Blake2b::<U20>::digest(data).into()
}

/// Calls `blake2::Blake2bMac::<U32>`, BLAKE2b under a key with an output of 32 bytes, on all of
/// `data` at once. A key of 16 bytes is within the 64 that it admits, so making it succeeds.
/// The contract claims only that the digest is a function of the key and the bytes hashed.
#[verifier::external_body]
pub(crate) fn digest_256_keyed(data: &[u8], key: &[u8; 16]) -> (digest: [u8; 32])
    ensures
        digest == blake2b_256_keyed(data@, key@),
{
    let mac = <Blake2bMac<U32> as Mac>::new_from_slice(key).unwrap();
    mac.chain_update(data).finalize().into_bytes().into()
}

/// The hash by which an asset names the script that locks it.
pub open spec fn script_hash_of(script: Seq<u8>) -> H160 {
    H160(blake2b_160(script))
}

/// The hash by which an asset names the script that locks it.
pub fn script_hash(script: &[u8]) -> (hash: H160)
    ensures
        hash == script_hash_of(script@),
{
    H160(digest_160(script))
}

} // verus!
