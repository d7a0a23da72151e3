//! Which addresses and hashes can be the same.

use crate::address::{
    asset_address, index_key_of, is_scheme_hash, scheme_address, stamped,
    zero_suffix_address,
};
use crate::db::BLAKE_NULL_RLP;
use crate::hash::{blake2b_160, blake2b_256_keyed, script_hash_of, Address, ShardId, H160, H256};
use crate::ledger::{applied, Ledger};
use crate::script::ScriptOutcome;
use crate::transaction::{AssetMintOutput, InnerTransaction, Transaction};
use vstd::prelude::*;

verus! {

/// The number that the last eight of sixteen bytes make, high byte first.
pub open spec fn low_half(key: Seq<u8>) -> int {
    key[8] * 0x100_0000_0000_0000 + key[9] * 0x1_0000_0000_0000 + key[10] * 0x100_0000_0000
        + key[11] * 0x1_0000_0000 + key[12] * 0x100_0000 + key[13] * 0x1_0000 + key[14] * 0x100
        + key[15]
}

/// `key` is a number as sixteen bytes, high byte first.
pub open spec fn is_key_of(key: Seq<u8>, index: int) -> bool {
    &&& key.len() == 16
    &&& forall|b: int| 0 <= b < 8 ==> #[trigger] key[b] == 0
    &&& low_half(key) == index
}

/// The digests of two pairs of data and key agree past their first four bytes.
pub open spec fn tails_agree(d1: Seq<u8>, k1: Seq<u8>, d2: Seq<u8>, k2: Seq<u8>) -> bool {
    forall|b: int|
        4 <= b < 32 ==> #[trigger] blake2b_256_keyed(d1, k1)[b] == blake2b_256_keyed(d2, k2)[b]
}

/// The digests of two data differ past their first four bytes, under every key of sixteen bytes.
pub open spec fn tails_differ(d1: Seq<u8>, d2: Seq<u8>) -> bool {
    forall|key: Seq<u8>| key.len() == 16 ==> !#[trigger] tails_agree(d1, key, d2, key)
}

proof fn lemma_key(index: u64)
    ensures
        is_key_of(index_key_of(index)@, index as int),
{
    reveal(index_key_of);
    assert(index == (index / 0x100_0000_0000_0000) * 0x100_0000_0000_0000 + (index
        / 0x1_0000_0000_0000 % 256) * 0x1_0000_0000_0000 + (index / 0x100_0000_0000 % 256)
        * 0x100_0000_0000 + (index / 0x1_0000_0000 % 256) * 0x1_0000_0000 + (index / 0x100_0000
        % 256) * 0x100_0000 + (index / 0x1_0000 % 256) * 0x1_0000 + (index / 0x100 % 256) * 0x100
        + index % 256) by (bit_vector);
    assert(index / 0x100_0000_0000_0000 < 256) by (bit_vector);
}

/// The address of an asset is the digest of all of the transaction hash under the index, with the
/// letter, a zero byte and the shard in front.
pub proof fn law_asset_address_bytes(hash: H256, index: u64, shard_id: ShardId)
    ensures
        ({
            let bytes = asset_address(hash, index as int, shard_id).0;
            exists|key: Seq<u8>|
                is_key_of(key, index as int) && bytes[0] == 0x41 && bytes[1] == 0 && bytes[2] * 256
                    + bytes[3] == shard_id && forall|b: int|
                    4 <= b < 32 ==> bytes[b] == #[trigger] blake2b_256_keyed(hash.0@, key)[b]
        }),
{
    reveal(stamped);
    lemma_key(index);
    let key = index_key_of(index)@;
    let bytes = asset_address(hash, index as int, shard_id).0;
    assert forall|b: int| 4 <= b < 32 implies bytes[b] == #[trigger] blake2b_256_keyed(
        hash.0@,
        key,
    )[b] by {}
    assert(is_key_of(key, index as int));
}

/// The address of a scheme is the digest of all of the transaction hash under the largest index,
/// with the letter, a zero byte and the shard in front.
pub proof fn law_scheme_address_bytes(hash: H256, shard_id: ShardId)
    ensures
        ({
            let bytes = scheme_address(hash, shard_id).0;
            exists|key: Seq<u8>|
                is_key_of(key, u64::MAX as int) && bytes[0] == 0x53 && bytes[1] == 0 && bytes[2]
                    * 256 + bytes[3] == shard_id && forall|b: int|
                    4 <= b < 32 ==> bytes[b] == #[trigger] blake2b_256_keyed(hash.0@, key)[b]
        }),
{
    reveal(stamped);
    lemma_key(u64::MAX);
    let key = index_key_of(u64::MAX)@;
    let bytes = scheme_address(hash, shard_id).0;
    assert forall|b: int| 4 <= b < 32 implies bytes[b] == #[trigger] blake2b_256_keyed(
        hash.0@,
        key,
    )[b] by {}
    assert(is_key_of(key, u64::MAX as int));
}

/// Two assets made under different hashes or at different indices share an address only where two
/// digests collide: those of the two hashes, under keys that differ where the hashes do not.
pub proof fn law_assets_meet_only_by_collision(
    h1: H256,
    i: u64,
    h2: H256,
    j: u64,
    shard_id: ShardId,
)
    requires
        h1 != h2 || i != j,
        asset_address(h1, i as int, shard_id) == asset_address(h2, j as int, shard_id),
    ensures
        exists|k1: Seq<u8>, k2: Seq<u8>|
            is_key_of(k1, i as int) && is_key_of(k2, j as int) && (h1.0@ != h2.0@ || k1 != k2)
                && #[trigger] tails_agree(h1.0@, k1, h2.0@, k2),
{
    reveal(stamped);
    lemma_key(i);
    lemma_key(j);
    let k1 = index_key_of(i)@;
    let k2 = index_key_of(j)@;
    let a1 = asset_address(h1, i as int, shard_id).0;
    let a2 = asset_address(h2, j as int, shard_id).0;
    if h1.0@ == h2.0@ {
        assert(h1.0 =~= h2.0);
    }
    assert forall|b: int| 4 <= b < 32 implies #[trigger] blake2b_256_keyed(h1.0@, k1)[b]
        == blake2b_256_keyed(h2.0@, k2)[b] by {
        assert(a1[b] == a2[b]);
    }
    assert(tails_agree(h1.0@, k1, h2.0@, k2));
}

/// Two schemes minted under different hashes share an address only where the digests of the two
/// hashes collide.
pub proof fn law_schemes_meet_only_by_collision(h1: H256, h2: H256, shard_id: ShardId)
    requires
        h1 != h2,
        scheme_address(h1, shard_id) == scheme_address(h2, shard_id),
    ensures
        h1.0@ != h2.0@,
        exists|key: Seq<u8>|
            is_key_of(key, u64::MAX as int) && #[trigger] tails_agree(h1.0@, key, h2.0@, key),
{
    reveal(stamped);
    lemma_key(u64::MAX);
    let key = index_key_of(u64::MAX)@;
    let a1 = scheme_address(h1, shard_id).0;
    let a2 = scheme_address(h2, shard_id).0;
    if h1.0@ == h2.0@ {
        assert(h1.0 =~= h2.0);
    }
    assert forall|b: int| 4 <= b < 32 implies #[trigger] blake2b_256_keyed(h1.0@, key)[b]
        == blake2b_256_keyed(h2.0@, key)[b] by {
        assert(a1[b] == a2[b]);
    }
    assert(tails_agree(h1.0@, key, h2.0@, key));
}

/// Nothing of one shard has an address of another, and no scheme has that of an asset.
pub proof fn law_shards_do_not_meet(h1: H256, i: u64, s1: ShardId, h2: H256, j: u64, s2: ShardId)
    ensures
        s1 != s2 ==> asset_address(h1, i as int, s1) != asset_address(h2, j as int, s2),
        s1 != s2 ==> scheme_address(h1, s1) != scheme_address(h2, s2),
        s1 != s2 ==> scheme_address(h1, s1) != zero_suffix_address(s2),
        s1 != s2 ==> zero_suffix_address(s1) != zero_suffix_address(s2),
        scheme_address(h1, s1) != asset_address(h2, j as int, s2),
        zero_suffix_address(s1) != asset_address(h2, j as int, s2),
{
    reveal(stamped);
    let a1 = asset_address(h1, i as int, s1).0;
    let a2 = asset_address(h2, j as int, s2).0;
    let c1 = scheme_address(h1, s1).0;
    let c2 = scheme_address(h2, s2).0;
    let z1 = zero_suffix_address(s1).0;
    let z2 = zero_suffix_address(s2).0;
    assert(a1[2] * 256 + a1[3] == s1 && a2[2] * 256 + a2[3] == s2);
    assert(c1[2] * 256 + c1[3] == s1 && c2[2] * 256 + c2[3] == s2);
    assert(z1[2] * 256 + z1[3] == s1 && z2[2] * 256 + z2[3] == s2);
    assert(c1[0] == 0x53 && z1[0] == 0x53 && a2[0] == 0x41);
}

/// The scheme of wrapped native coin lies where all bytes after the shard are zero.
pub proof fn law_wrapped_coin_address(shard_id: ShardId)
    ensures
        ({
            let bytes = zero_suffix_address(shard_id).0;
            &&& bytes[0] == 0x53
            &&& bytes[1] == 0
            &&& bytes[2] * 256 + bytes[3] == shard_id
            &&& forall|b: int| 4 <= b < 32 ==> #[trigger] bytes[b] == 0
        }),
{
    reveal(stamped);
}

/// A hash is taken for that of a scheme by its first two bytes: the letter `S` and zero.
pub proof fn law_scheme_form(hash: H256)
    ensures
        is_scheme_hash(hash) <==> hash.0[0] == 0x53 && hash.0[1] == 0,
{
}

/// Two scripts have one hash only where their digests collide.
pub proof fn law_scripts_meet_only_by_collision(s1: Seq<u8>, s2: Seq<u8>)
    ensures
        script_hash_of(s1) == script_hash_of(s2) <==> blake2b_160(s1) == blake2b_160(s2),
        script_hash_of(s1) == H160(blake2b_160(s1)),
{
}

/// Minting under one hash leaves all that another hash mints alone, where the digests of the two
/// hashes differ: the scheme and the assets of the other hash are found as before, and a mint
/// under it comes to success exactly where it would have before.
pub proof fn law_mints_do_not_meet(
    ledger: Ledger,
    h1: H256,
    metadata: String,
    approver: Option<Address>,
    administrator: Option<Address>,
    output: AssetMintOutput,
    sender: Address,
    shard_users: Seq<Address>,
    approvers: Seq<Address>,
    outcomes: Seq<ScriptOutcome>,
    h2: H256,
    other: Transaction,
    other_sender: Address,
    other_users: Seq<Address>,
)
    requires
        h1 != h2,
        tails_differ(h1.0@, h2.0@),
        other matches Transaction::AssetMint { hash, .. } && hash == h2,
    ensures
        applied(
            ledger,
            InnerTransaction::General(
                Transaction::AssetMint { hash: h1, metadata, approver, administrator, output },
            ),
            sender,
            shard_users,
            approvers,
            outcomes,
        ) matches Ok(after) ==> {
            &&& after.scheme(scheme_address(h2, ledger.shard_id)) == ledger.scheme(
                scheme_address(h2, ledger.shard_id),
            )
            &&& after.asset(asset_address(h2, 0, ledger.shard_id)) == ledger.asset(
                asset_address(h2, 0, ledger.shard_id),
            )
            &&& applied(
                after,
                InnerTransaction::General(other),
                other_sender,
                other_users,
                approvers,
                outcomes,
            ) is Ok <==> applied(
                ledger,
                InnerTransaction::General(other),
                other_sender,
                other_users,
                approvers,
                outcomes,
            ) is Ok
        },
{
    let shard_id = ledger.shard_id;
    if scheme_address(h1, shard_id) == scheme_address(h2, shard_id) {
        law_schemes_meet_only_by_collision(h1, h2, shard_id);
    }
    if asset_address(h1, 0, shard_id) == asset_address(h2, 0, shard_id) {
        law_assets_meet_only_by_collision(h1, 0, h2, 0, shard_id);
        let (k1, k2) = choose|k1: Seq<u8>, k2: Seq<u8>|
            is_key_of(k1, 0) && is_key_of(k2, 0) && (h1.0@ != h2.0@ || k1 != k2)
                && #[trigger] tails_agree(h1.0@, k1, h2.0@, k2);
        lemma_key_unique(k1, k2, 0);
    }
}

proof fn lemma_last_byte(x1: int, b1: u8, x2: int, b2: u8)
    requires
        x1 * 256 + b1 == x2 * 256 + b2,
    ensures
        x1 == x2,
        b1 == b2,
{
}

proof fn lemma_key_unique(k1: Seq<u8>, k2: Seq<u8>, index: int)
    requires
        is_key_of(k1, index),
        is_key_of(k2, index),
    ensures
        k1 == k2,
{
    let p9 = k1[8] * 256 + k1[9];
    let p10 = p9 * 256 + k1[10];
    let p11 = p10 * 256 + k1[11];
    let p12 = p11 * 256 + k1[12];
    let p13 = p12 * 256 + k1[13];
    let p14 = p13 * 256 + k1[14];
    let q9 = k2[8] * 256 + k2[9];
    let q10 = q9 * 256 + k2[10];
    let q11 = q10 * 256 + k2[11];
    let q12 = q11 * 256 + k2[12];
    let q13 = q12 * 256 + k2[13];
    let q14 = q13 * 256 + k2[14];
    assert(low_half(k1) == p14 * 256 + k1[15]);
    assert(low_half(k2) == q14 * 256 + k2[15]);
    lemma_last_byte(p14, k1[15], q14, k2[15]);
    lemma_last_byte(p13, k1[14], q13, k2[14]);
    lemma_last_byte(p12, k1[13], q12, k2[13]);
    lemma_last_byte(p11, k1[12], q11, k2[12]);
    lemma_last_byte(p10, k1[11], q10, k2[11]);
    lemma_last_byte(p9, k1[10], q9, k2[10]);
    lemma_last_byte(k1[8] as int, k1[9], k2[8] as int, k2[9]);
    assert forall|b: int| 0 <= b < 16 implies k1[b] == k2[b] by {
        if b < 8 {
            assert(k1[b] == 0 && k2[b] == 0);
        }
    }
    assert(k1 =~= k2);
}

/// The root of the trie without leaves, eight bytes at a time.
pub proof fn law_null_root()
    ensures
        ({
            let words = seq![
                0x45b0_cfc2_20ce_ec5bint,
                0x7c1c_62c4_d419_3d38int,
                0xe4eb_a48e_8815_729cint,
                0xe75f_9c0a_b0e4_c1c0int,
            ];
            forall|w: int|
                0 <= w < 4 ==> #[trigger] words[w] == BLAKE_NULL_RLP[8 * w]
                    * 0x100_0000_0000_0000 + BLAKE_NULL_RLP[8 * w + 1] * 0x1_0000_0000_0000
                    + BLAKE_NULL_RLP[8 * w + 2] * 0x100_0000_0000 + BLAKE_NULL_RLP[8 * w + 3]
                    * 0x1_0000_0000 + BLAKE_NULL_RLP[8 * w + 4] * 0x100_0000 + BLAKE_NULL_RLP[8 * w
                    + 5] * 0x1_0000 + BLAKE_NULL_RLP[8 * w + 6] * 0x100 + BLAKE_NULL_RLP[8 * w + 7]
        }),
{
}

} // verus!
