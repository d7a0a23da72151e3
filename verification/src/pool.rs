//! Amounts of assets added up by type.

use crate::error::TransactionError;
use crate::hash::H256;
use crate::item::Asset;
use crate::transaction::AssetTransferOutput;
use vstd::prelude::*;

verus! {

/// The first place from `k` on where `pool` holds assets of the type, or its length.
pub open spec fn place_of(pool: Seq<Asset>, asset_type: H256, k: int) -> int
    decreases pool.len() - k,
{
    if k >= pool.len() {
        pool.len() as int
    } else if pool[k].asset_type == asset_type {
        k
    } else {
        place_of(pool, asset_type, k + 1)
    }
}

/// How much of a type `pool` holds.
pub open spec fn amount_in(pool: Seq<Asset>, asset_type: H256) -> int {
    let place = place_of(pool, asset_type, 0);
    if place < pool.len() {
        pool[place].amount as int
    } else {
        0
    }
}

/// `pool` with an amount of a type added to what it holds of it.
pub open spec fn added(pool: Seq<Asset>, asset_type: H256, amount: u64) -> Seq<Asset> {
    let place = place_of(pool, asset_type, 0);
    let sum = Asset { asset_type, amount: (amount_in(pool, asset_type) + amount) as u64 };
    if place < pool.len() {
        pool.update(place, sum)
    } else {
        pool.push(sum)
    }
}

/// Where `pool` holds assets of the type, or its length.
fn find(pool: &Vec<Asset>, asset_type: &H256) -> (place: usize)
    ensures
        place == place_of(pool@, *asset_type, 0),
        place <= pool@.len(),
{
    let mut i: usize = 0;
    while i < pool.len()
        invariant
            i <= pool@.len(),
            place_of(pool@, *asset_type, 0) == place_of(pool@, *asset_type, i as int),
        decreases pool@.len() - i,
    {
        if pool[i].asset_type == *asset_type {
            return i;
        }
        i += 1;
    }
    i
}

/// Adds an amount of a type to a pool. Where the sum leaves the range of an amount, the pool
/// stays as it is and the answer is `false`.
pub fn add_to_pool(pool: &mut Vec<Asset>, asset_type: H256, amount: u64) -> (done: bool)
    ensures
        done == (amount_in(old(pool)@, asset_type) + amount <= u64::MAX),
        done ==> final(pool)@ == added(old(pool)@, asset_type, amount),
        !done ==> final(pool)@ == old(pool)@,
{
    let place = find(pool, &asset_type);
    if place < pool.len() {
        match pool[place].amount.checked_add(amount) {
            Some(sum) => {
                pool[place] = Asset::new(asset_type, sum);
                true
            },
            None => false,
        }
    } else {
        pool.push(Asset::new(asset_type, amount));
        true
    }
}

/// Takes all that a pool holds of a type out of it.
pub fn take_from_pool(pool: &mut Vec<Asset>, asset_type: &H256) -> (amount: Option<u64>)
    ensures
        ({
            let place = place_of(old(pool)@, *asset_type, 0);
            match amount {
                Some(n) => {
                    &&& 0 <= place < old(pool)@.len()
                    &&& n == old(pool)@[place].amount
                    &&& final(pool)@ == old(pool)@.remove(place)
                },
                None => place == old(pool)@.len() && final(pool)@ == old(pool)@,
            }
        }),
{
    let place = find(pool, asset_type);
    if place < pool.len() {
        let asset = pool.remove(place);
        Some(asset.amount)
    } else {
        None
    }
}

/// The assets from `k` on, added to `sum`. `None` where a sum leaves the range of an amount.
pub open spec fn tally(assets: Seq<Asset>, sum: Seq<Asset>, k: int) -> Option<Seq<Asset>>
    decreases assets.len() - k,
{
    if k >= assets.len() {
        Some(sum)
    } else if amount_in(sum, assets[k].asset_type) + assets[k].amount > u64::MAX {
        None
    } else {
        tally(assets, added(sum, assets[k].asset_type, assets[k].amount), k + 1)
    }
}

/// What outputs make.
pub open spec fn made(outputs: Seq<AssetTransferOutput>) -> Seq<Asset> {
    outputs.map_values(
        |output: AssetTransferOutput|
            Asset { asset_type: output.asset_type, amount: output.amount },
    )
}

/// Adds the amounts of outputs up by type.
pub fn tally_outputs(outputs: &[AssetTransferOutput]) -> (sum: Option<Vec<Asset>>)
    ensures
        match sum {
            Some(s) => tally(made(outputs@), Seq::empty(), 0) == Some(s@),
            None => tally(made(outputs@), Seq::empty(), 0) is None,
        },
{
    let mut sum: Vec<Asset> = Vec::new();
    assert(sum@ =~= Seq::empty());
    let mut i: usize = 0;
    while i < outputs.len()
        invariant
            i <= outputs@.len(),
            tally(made(outputs@), Seq::empty(), 0) == tally(made(outputs@), sum@, i as int),
        decreases outputs@.len() - i,
    {
        if !add_to_pool(&mut sum, outputs[i].asset_type, outputs[i].amount) {
            return None;
        }
        i += 1;
    }
    Some(sum)
}

/// What is left of `sum` when each asset of `pool` from `k` on is taken out of it in full.
pub open spec fn taken(pool: Seq<Asset>, sum: Seq<Asset>, k: int) -> Result<
    Seq<Asset>,
    TransactionError,
>
    decreases pool.len() - k,
{
    if k >= pool.len() {
        Ok(sum)
    } else {
        let place = place_of(sum, pool[k].asset_type, 0);
        let got = if place < sum.len() {
            sum[place].amount
        } else {
            0
        };
        if place >= sum.len() || got != pool[k].amount {
            Err(
                TransactionError::InvalidDecomposedOutput {
                    address: pool[k].asset_type,
                    expected: pool[k].amount,
                    got,
                },
            )
        } else {
            taken(pool, sum.remove(place), k + 1)
        }
    }
}

/// The outputs that add up to `sum` are those of `pool`, no more and no less.
pub open spec fn matched(pool: Seq<Asset>, sum: Seq<Asset>) -> Result<(), TransactionError> {
    match taken(pool, sum, 0) {
        Err(error) => Err(error),
        Ok(left) => if left.len() > 0 {
            Err(
                TransactionError::InvalidDecomposedOutput {
                    address: left.last().asset_type,
                    expected: 0,
                    got: left.last().amount,
                },
            )
        } else {
            Ok(())
        },
    }
}

/// Checks that the outputs that add up to `sum` are those of `pool`.
pub fn match_pool(pool: &[Asset], sum: Vec<Asset>) -> (verdict: Result<(), TransactionError>)
    ensures
        verdict == matched(pool@, sum@),
{
    let mut left = sum;
    let mut i: usize = 0;
    while i < pool.len()
        invariant
            i <= pool@.len(),
            taken(pool@, sum@, 0) == taken(pool@, left@, i as int),
        decreases pool@.len() - i,
    {
        let asset = pool[i];
        match take_from_pool(&mut left, &asset.asset_type) {
            None => {
                return Err(
                    TransactionError::InvalidDecomposedOutput {
                        address: asset.asset_type,
                        expected: asset.amount,
                        got: 0,
                    },
                );
            },
            Some(amount) => {
                if amount != asset.amount {
                    return Err(
                        TransactionError::InvalidDecomposedOutput {
                            address: asset.asset_type,
                            expected: asset.amount,
                            got: amount,
                        },
                    );
                }
            },
        }
        i += 1;
    }
    match left.pop() {
        Some(asset) => Err(
            TransactionError::InvalidDecomposedOutput {
                address: asset.asset_type,
                expected: 0,
                got: asset.amount,
            },
        ),
        None => Ok(()),
    }
}

} // verus!
