//! Composing and decomposing neither make nor lose assets.

use crate::address::is_scheme_hash;
use crate::error::{Stop, TransactionError};
use crate::hash::{Address, H256};
use crate::item::Asset;
use crate::ledger::{gather, pool_check, Gathered, Ledger};
use crate::pool::{added, amount_in, made, matched, place_of, taken, tally};
use crate::script::ScriptOutcome;
use crate::transaction::{AssetTransferInput, AssetTransferOutput};
use vstd::prelude::*;

verus! {

/// How much there is of a type among some assets.
pub open spec fn total(assets: Seq<Asset>, asset_type: H256) -> int
    decreases assets.len(),
{
    if assets.len() == 0 {
        0
    } else {
        total(assets.drop_last(), asset_type) + if assets.last().asset_type == asset_type {
            assets.last().amount as int
        } else {
            0
        }
    }
}

/// Some of the assets are of a type.
pub open spec fn occurs(assets: Seq<Asset>, asset_type: H256) -> bool {
    exists|i: int| 0 <= i < assets.len() && (#[trigger] assets[i]).asset_type == asset_type
}

/// No type occurs twice.
pub open spec fn distinct(assets: Seq<Asset>) -> bool {
    forall|i: int, j: int|
        0 <= i < j < assets.len() ==> (#[trigger] assets[i]).asset_type != (
        #[trigger] assets[j]).asset_type
}

/// What inputs claim to spend.
pub open spec fn claimed(inputs: Seq<AssetTransferInput>) -> Seq<Asset> {
    inputs.map_values(
        |input: AssetTransferInput|
            Asset { asset_type: input.prev_out.asset_type, amount: input.prev_out.amount },
    )
}

proof fn lemma_total_update(assets: Seq<Asset>, place: int, asset: Asset, asset_type: H256)
    requires
        0 <= place < assets.len(),
        assets[place].asset_type == asset.asset_type,
    ensures
        total(assets.update(place, asset), asset_type) == total(assets, asset_type) + if asset_type
            == asset.asset_type {
            asset.amount - assets[place].amount
        } else {
            0
        },
    decreases assets.len(),
{
    let updated = assets.update(place, asset);
    if place == assets.len() - 1 {
        assert(updated.drop_last() =~= assets.drop_last());
    } else {
        assert(updated.drop_last() =~= assets.drop_last().update(place, asset));
        lemma_total_update(assets.drop_last(), place, asset, asset_type);
    }
}

proof fn lemma_total_push(assets: Seq<Asset>, asset: Asset, asset_type: H256)
    ensures
        total(assets.push(asset), asset_type) == total(assets, asset_type) + if asset_type
            == asset.asset_type {
            asset.amount as int
        } else {
            0
        },
{
    assert(assets.push(asset).drop_last() =~= assets);
}

proof fn lemma_total_absent(assets: Seq<Asset>, asset_type: H256)
    requires
        !occurs(assets, asset_type),
    ensures
        total(assets, asset_type) == 0,
    decreases assets.len(),
{
    if assets.len() > 0 {
        assert(assets[assets.len() - 1].asset_type != asset_type);
        assert forall|i: int| 0 <= i < assets.drop_last().len() implies (
        #[trigger] assets.drop_last()[i]).asset_type != asset_type by {
            assert(assets[i].asset_type != asset_type);
        }
        lemma_total_absent(assets.drop_last(), asset_type);
    }
}

/// Where no type occurs twice, the total of a type is the amount of the one asset of that type.
proof fn lemma_total_distinct(assets: Seq<Asset>, place: int)
    requires
        distinct(assets),
        0 <= place < assets.len(),
    ensures
        total(assets, assets[place].asset_type) == assets[place].amount,
    decreases assets.len(),
{
    let asset_type = assets[place].asset_type;
    let front = assets.drop_last();
    if place == assets.len() - 1 {
        assert forall|i: int| 0 <= i < front.len() implies (#[trigger] front[i]).asset_type
            != asset_type by {
            assert(assets[i].asset_type != assets[place].asset_type);
        }
        lemma_total_absent(front, asset_type);
    } else {
        assert(front[place] == assets[place]);
        lemma_total_distinct(front, place);
        assert(assets.last().asset_type != asset_type);
    }
}

/// Assets of a type are looked for from the front: the place that is found is the first from `k` on
/// that holds the type, or the end where none does.
pub proof fn lemma_place(assets: Seq<Asset>, asset_type: H256, k: int)
    requires
        0 <= k <= assets.len(),
    ensures
        k <= place_of(assets, asset_type, k) <= assets.len(),
        place_of(assets, asset_type, k) < assets.len() ==> assets[place_of(
            assets,
            asset_type,
            k,
        )].asset_type == asset_type,
        forall|i: int|
            k <= i < place_of(assets, asset_type, k) ==> (#[trigger] assets[i]).asset_type
                != asset_type,
    decreases assets.len() - k,
{
    if k < assets.len() && assets[k].asset_type != asset_type {
        lemma_place(assets, asset_type, k + 1);
    }
}

/// Adding an asset to a pool adds its amount to the total of its type, and leaves the pool
/// without a type that occurs twice.
proof fn lemma_added(pool: Seq<Asset>, asset_type: H256, amount: u64)
    requires
        distinct(pool),
        amount_in(pool, asset_type) + amount <= u64::MAX,
    ensures
        distinct(added(pool, asset_type, amount)),
        amount_in(pool, asset_type) == total(pool, asset_type),
        forall|t: H256| #[trigger]
            total(added(pool, asset_type, amount), t) == total(pool, t) + if t == asset_type {
                amount as int
            } else {
                0
            },
        forall|t: H256| #[trigger]
            occurs(added(pool, asset_type, amount), t) == (occurs(pool, t) || t == asset_type),
{
    let place = place_of(pool, asset_type, 0);
    let sum = Asset { asset_type, amount: (amount_in(pool, asset_type) + amount) as u64 };
    let next = added(pool, asset_type, amount);
    lemma_place(pool, asset_type, 0);
    if place < pool.len() {
        lemma_total_distinct(pool, place);
        assert forall|t: H256| #[trigger]
            total(next, t) == total(pool, t) + if t == asset_type {
                amount as int
            } else {
                0
            } by {
            lemma_total_update(pool, place, sum, t);
        }
        assert forall|t: H256| #[trigger] occurs(next, t) == (occurs(pool, t) || t == asset_type)
        by {
            if occurs(next, t) {
                let i = choose|i: int|
                    0 <= i < next.len() && (#[trigger] next[i]).asset_type == t;
                assert(pool[i].asset_type == t);
            }
            if occurs(pool, t) {
                let i = choose|i: int|
                    0 <= i < pool.len() && (#[trigger] pool[i]).asset_type == t;
                assert(next[i].asset_type == t);
            }
            assert(next[place].asset_type == asset_type);
        }
    } else {
        assert forall|i: int| 0 <= i < pool.len() implies (#[trigger] pool[i]).asset_type
            != asset_type by {}
        lemma_total_absent(pool, asset_type);
        assert forall|t: H256| #[trigger]
            total(next, t) == total(pool, t) + if t == asset_type {
                amount as int
            } else {
                0
            } by {
            lemma_total_push(pool, sum, t);
        }
        assert forall|t: H256| #[trigger] occurs(next, t) == (occurs(pool, t) || t == asset_type)
        by {
            if occurs(next, t) {
                let i = choose|i: int|
                    0 <= i < next.len() && (#[trigger] next[i]).asset_type == t;
                if i < pool.len() {
                    assert(pool[i].asset_type == t);
                }
            }
            if occurs(pool, t) {
                let i = choose|i: int|
                    0 <= i < pool.len() && (#[trigger] pool[i]).asset_type == t;
                assert(next[i].asset_type == t);
            }
            assert(next[pool.len() as int].asset_type == asset_type);
        }
    }
}

/// Adding assets up by type keeps the total of each type. It fails only where a total leaves the
/// range of an amount.
proof fn lemma_tally(assets: Seq<Asset>, sum: Seq<Asset>, k: int)
    requires
        distinct(sum),
        0 <= k <= assets.len(),
        forall|t: H256| #[trigger] total(sum, t) == total(assets.take(k), t),
        forall|t: H256| #[trigger] total(assets.take(k), t) <= u64::MAX,
        forall|t: H256| #[trigger] occurs(sum, t) == occurs(assets.take(k), t),
    ensures
        tally(assets, sum, k) is Some <==> forall|t: H256| #[trigger]
            total(assets, t) <= u64::MAX,
        tally(assets, sum, k) matches Some(s) ==> {
            &&& distinct(s)
            &&& forall|t: H256| #[trigger] total(s, t) == total(assets, t)
            &&& forall|t: H256| #[trigger] occurs(s, t) == occurs(assets, t)
        },
    decreases assets.len() - k,
{
    if k >= assets.len() {
        assert(assets.take(k) =~= assets);
    } else {
        let asset = assets[k];
        let next = assets.take(k + 1);
        assert(next =~= assets.take(k).push(asset));
        lemma_place(sum, asset.asset_type, 0);
        if place_of(sum, asset.asset_type, 0) < sum.len() {
            lemma_total_distinct(sum, place_of(sum, asset.asset_type, 0));
        } else {
            assert forall|i: int| 0 <= i < sum.len() implies (#[trigger] sum[i]).asset_type
                != asset.asset_type by {}
            lemma_total_absent(sum, asset.asset_type);
        }
        lemma_total_push(assets.take(k), asset, asset.asset_type);
        if amount_in(sum, asset.asset_type) + asset.amount > u64::MAX {
            lemma_total_take(assets, k + 1, asset.asset_type);
            assert(total(assets, asset.asset_type) > u64::MAX);
        } else {
            lemma_added(sum, asset.asset_type, asset.amount);
            let more = added(sum, asset.asset_type, asset.amount);
            assert forall|t: H256| #[trigger] total(more, t) == total(next, t) by {
                assert(total(sum, t) == total(assets.take(k), t));
                lemma_total_push(assets.take(k), asset, t);
            }
            assert forall|t: H256| #[trigger] total(next, t) <= u64::MAX by {
                assert(total(assets.take(k), t) <= u64::MAX);
                lemma_total_push(assets.take(k), asset, t);
            }
            assert forall|t: H256| #[trigger] occurs(more, t) == occurs(next, t) by {
                assert(occurs(sum, t) == occurs(assets.take(k), t));
                lemma_occurs_push(assets.take(k), asset, t);
            }
            lemma_tally(assets, more, k + 1);
        }
    }
}

proof fn lemma_occurs_push(assets: Seq<Asset>, asset: Asset, asset_type: H256)
    ensures
        occurs(assets.push(asset), asset_type) == (occurs(assets, asset_type) || asset.asset_type
            == asset_type),
{
    let next = assets.push(asset);
    if occurs(next, asset_type) {
        let i = choose|i: int|
            0 <= i < next.len() && (#[trigger] next[i]).asset_type == asset_type;
        if i < assets.len() {
            assert(assets[i].asset_type == asset_type);
        }
    }
    if occurs(assets, asset_type) {
        let i = choose|i: int|
            0 <= i < assets.len() && (#[trigger] assets[i]).asset_type == asset_type;
        assert(next[i].asset_type == asset_type);
    }
    assert(next[assets.len() as int] == asset);
}

proof fn lemma_total_take(assets: Seq<Asset>, k: int, asset_type: H256)
    requires
        0 <= k <= assets.len(),
    ensures
        total(assets.take(k), asset_type) <= total(assets, asset_type),
    decreases assets.len() - k,
{
    if k == assets.len() {
        assert(assets.take(k) =~= assets);
    } else {
        assert(assets.take(k + 1) =~= assets.take(k).push(assets[k]));
        lemma_total_push(assets.take(k), assets[k], asset_type);
        lemma_total_take(assets, k + 1, asset_type);
    }
}

/// Assets can be added up by type exactly where the total of each type is in the range of an
/// amount. The sum then holds one asset of each type that occurs, with the total of that type.
pub proof fn law_tally(assets: Seq<Asset>)
    ensures
        tally(assets, Seq::empty(), 0) is Some <==> forall|t: H256| #[trigger]
            total(assets, t) <= u64::MAX,
        tally(assets, Seq::empty(), 0) matches Some(sum) ==> {
            &&& distinct(sum)
            &&& forall|t: H256| #[trigger] total(sum, t) == total(assets, t)
            &&& forall|t: H256| #[trigger] occurs(sum, t) == occurs(assets, t)
        },
{
    let none = Seq::<Asset>::empty();
    assert(assets.take(0) =~= none);
    lemma_tally(assets, none, 0);
}

/// Where no type occurs twice, the sum matches the pool from `k` on exactly where both hold the
/// same assets.
proof fn lemma_matched(pool: Seq<Asset>, sum: Seq<Asset>, k: int)
    requires
        distinct(pool),
        distinct(sum),
        0 <= k <= pool.len(),
    ensures
        (taken(pool, sum, k) matches Ok(left) && left.len() == 0) <==> (forall|a: Asset| #[trigger]
            pool.skip(k).contains(a) <==> sum.contains(a)),
    decreases pool.len() - k,
{
    let rest = pool.skip(k);
    if k >= pool.len() {
        assert(rest.len() == 0);
        if sum.len() > 0 {
            assert(sum.contains(sum[0]));
            assert(!rest.contains(sum[0]));
        }
    } else {
        let asset = pool[k];
        let place = place_of(sum, asset.asset_type, 0);
        lemma_place(sum, asset.asset_type, 0);
        assert(rest[0] == asset);
        assert(rest.contains(asset));
        if place >= sum.len() || sum[place].amount != asset.amount {
            assert(!sum.contains(asset)) by {
                if sum.contains(asset) {
                    let i = choose|i: int| 0 <= i < sum.len() && sum[i] == asset;
                    if place < sum.len() {
                        assert(sum[place].asset_type == sum[i].asset_type);
                    }
                }
            }
        } else {
            let left = sum.remove(place);
            let next = pool.skip(k + 1);
            assert(sum[place] == asset);
            assert(sum.contains(asset));
            assert forall|i: int, j: int| 0 <= i < j < left.len() implies (
            #[trigger] left[i]).asset_type != (#[trigger] left[j]).asset_type by {
                let a = if i < place { i } else { i + 1 };
                let b = if j < place { j } else { j + 1 };
                assert(left[i] == sum[a] && left[j] == sum[b]);
            }
            assert forall|a: Asset| #[trigger] next.contains(a) == (rest.contains(a) && a != asset)
            by {
                if next.contains(a) {
                    let i = choose|i: int| 0 <= i < next.len() && next[i] == a;
                    assert(rest[i + 1] == a);
                    assert(pool[k + 1 + i] == a);
                    assert(pool[k].asset_type != pool[k + 1 + i].asset_type);
                }
                if rest.contains(a) && a != asset {
                    let i = choose|i: int| 0 <= i < rest.len() && rest[i] == a;
                    assert(next[i - 1] == a);
                }
            }
            assert forall|a: Asset| #[trigger] left.contains(a) == (sum.contains(a) && a != asset)
            by {
                if left.contains(a) {
                    let i = choose|i: int| 0 <= i < left.len() && left[i] == a;
                    let at = if i < place { i } else { i + 1 };
                    assert(sum[at] == a);
                    assert(sum[place].asset_type != sum[at].asset_type);
                }
                if sum.contains(a) && a != asset {
                    let i = choose|i: int| 0 <= i < sum.len() && sum[i] == a;
                    let at = if i < place { i } else { i - 1 };
                    assert(left[at] == a);
                }
            }
            lemma_matched(pool, left, k + 1);
            if forall|a: Asset| #[trigger] rest.contains(a) <==> sum.contains(a) {
                assert forall|a: Asset| #[trigger] next.contains(a) <==> left.contains(a) by {
                    assert(rest.contains(a) <==> sum.contains(a));
                }
            }
            if forall|a: Asset| #[trigger] next.contains(a) <==> left.contains(a) {
                assert forall|a: Asset| #[trigger] rest.contains(a) <==> sum.contains(a) by {
                    assert(next.contains(a) <==> left.contains(a));
                }
            }
        }
    }
}

/// Where no type occurs twice, an asset is there exactly where its type occurs and its amount is
/// the total of the type.
proof fn lemma_contains(assets: Seq<Asset>, asset: Asset)
    requires
        distinct(assets),
    ensures
        assets.contains(asset) <==> occurs(assets, asset.asset_type) && total(
            assets,
            asset.asset_type,
        ) == asset.amount,
{
    if assets.contains(asset) {
        let i = choose|i: int| 0 <= i < assets.len() && assets[i] == asset;
        assert(assets[i].asset_type == asset.asset_type);
        lemma_total_distinct(assets, i);
    }
    if occurs(assets, asset.asset_type) {
        let i = choose|i: int|
            0 <= i < assets.len() && (#[trigger] assets[i]).asset_type == asset.asset_type;
        lemma_total_distinct(assets, i);
        if total(assets, asset.asset_type) == asset.amount {
            assert(assets[i] == asset);
        }
    }
}

/// Outputs are accepted for a pool exactly where the same types occur in both, and as much of
/// each.
pub proof fn law_decompose_matches_pool(pool: Seq<Asset>, outputs: Seq<AssetTransferOutput>)
    requires
        distinct(pool),
        forall|t: H256| #[trigger] total(made(outputs), t) <= u64::MAX,
    ensures
        tally(made(outputs), Seq::empty(), 0) matches Some(sum) && (matched(pool, sum) is Ok <==> (
        forall|t: H256|
            (#[trigger] occurs(pool, t) <==> occurs(made(outputs), t)) && total(pool, t) == total(
                made(outputs),
                t,
            ))),
{
    law_tally(made(outputs));
    let sum = tally(made(outputs), Seq::empty(), 0)->0;
    assert(pool.skip(0) =~= pool);
    lemma_matched(pool, sum, 0);
    assert(matched(pool, sum) is Ok <==> (forall|a: Asset| #[trigger]
        pool.contains(a) <==> sum.contains(a)));
    if forall|t: H256|
        (#[trigger] occurs(pool, t) <==> occurs(made(outputs), t)) && total(pool, t) == total(
            made(outputs),
            t,
        ) {
        assert forall|a: Asset| #[trigger] pool.contains(a) <==> sum.contains(a) by {
            lemma_contains(pool, a);
            lemma_contains(sum, a);
            assert(occurs(pool, a.asset_type) <==> occurs(made(outputs), a.asset_type));
            assert(occurs(sum, a.asset_type) == occurs(made(outputs), a.asset_type));
            assert(total(sum, a.asset_type) == total(made(outputs), a.asset_type));
        }
    }
    if forall|a: Asset| #[trigger] pool.contains(a) <==> sum.contains(a) {
        assert forall|t: H256|
            (#[trigger] occurs(pool, t) <==> occurs(made(outputs), t)) && total(pool, t) == total(
                made(outputs),
                t,
            ) by {
            assert(occurs(sum, t) == occurs(made(outputs), t));
            assert(total(sum, t) == total(made(outputs), t));
            if occurs(pool, t) {
                let i = choose|i: int|
                    0 <= i < pool.len() && (#[trigger] pool[i]).asset_type == t;
                assert(pool.contains(pool[i]));
                lemma_contains(sum, pool[i]);
                lemma_contains(pool, pool[i]);
            } else {
                lemma_total_absent(pool, t);
                if occurs(sum, t) {
                    let i = choose|i: int|
                        0 <= i < sum.len() && (#[trigger] sum[i]).asset_type == t;
                    assert(sum.contains(sum[i]));
                    lemma_contains(pool, sum[i]);
                }
                lemma_total_absent(sum, t);
            }
        }
    }
}

/// What is gathered is what the inputs claim, added up by type.
proof fn lemma_gather(
    gathered: Gathered,
    inputs: Seq<AssetTransferInput>,
    sender: Address,
    approvers: Seq<Address>,
    outcomes: Seq<ScriptOutcome>,
    k: int,
)
    requires
        0 <= k <= inputs.len(),
    ensures
        gather(gathered, inputs, sender, approvers, outcomes, k) matches Ok(end) ==> tally(
            claimed(inputs),
            gathered.sum,
            k,
        ) == Some(end.sum),
    decreases inputs.len() - k,
{
    if k < inputs.len() && gather(gathered, inputs, sender, approvers, outcomes, k) is Ok {
        let ledger = gathered.ledger;
        let asset_type = inputs[k].prev_out.asset_type;
        let amount = inputs[k].prev_out.amount;
        assert(claimed(inputs)[k] == (Asset { asset_type, amount }));
        lemma_gather(
            Gathered {
                ledger: ledger.with_asset(ledger.spent(inputs[k]), None),
                sum: added(gathered.sum, asset_type, amount),
            },
            inputs,
            sender,
            approvers,
            outcomes,
            k + 1,
        );
    }
}

/// The pool of a composed asset holds, of each type, as much as its inputs did, and no type
/// twice.
pub proof fn law_compose_keeps_amounts(
    ledger: Ledger,
    inputs: Seq<AssetTransferInput>,
    sender: Address,
    approvers: Seq<Address>,
    outcomes: Seq<ScriptOutcome>,
)
    ensures
        gather(
            Gathered { ledger, sum: Seq::empty() },
            inputs,
            sender,
            approvers,
            outcomes,
            0,
        ) matches Ok(end) ==> {
            &&& distinct(end.sum)
            &&& forall|t: H256| #[trigger] total(end.sum, t) == total(claimed(inputs), t)
            &&& forall|t: H256| #[trigger] occurs(end.sum, t) == occurs(claimed(inputs), t)
        },
{
    lemma_gather(
        Gathered { ledger, sum: Seq::empty() },
        inputs,
        sender,
        approvers,
        outcomes,
        0,
    );
    law_tally(claimed(inputs));
}

/// Outputs that make what the inputs of a composition claimed pass the check against its pool.
pub proof fn law_pool_gives_back_inputs(
    ledger: Ledger,
    inputs: Seq<AssetTransferInput>,
    sender: Address,
    approvers: Seq<Address>,
    outcomes: Seq<ScriptOutcome>,
    later: Ledger,
    asset_type: H256,
    outputs: Seq<AssetTransferOutput>,
)
    requires
        inputs.len() > 0,
        gather(
            Gathered { ledger, sum: Seq::empty() },
            inputs,
            sender,
            approvers,
            outcomes,
            0,
        ) matches Ok(end) && {
            &&& is_scheme_hash(asset_type)
            &&& later.scheme(asset_type) matches Ok(Some(scheme)) && scheme.pool == end.sum
        },
        forall|t: H256|
            (#[trigger] occurs(made(outputs), t) <==> occurs(claimed(inputs), t)) && total(
                made(outputs),
                t,
            ) == total(claimed(inputs), t),
    ensures
        pool_check(later, asset_type, outputs) == Ok::<(), Stop>(()),
{
    let start = Gathered { ledger, sum: Seq::empty() };
    let pool = gather(start, inputs, sender, approvers, outcomes, 0)->Ok_0.sum;
    law_compose_keeps_amounts(ledger, inputs, sender, approvers, outcomes);
    lemma_gather(start, inputs, sender, approvers, outcomes, 0);
    law_tally(claimed(inputs));
    assert forall|t: H256| #[trigger] total(made(outputs), t) <= u64::MAX by {
        assert(occurs(made(outputs), t) <==> occurs(claimed(inputs), t));
        assert(total(claimed(inputs), t) <= u64::MAX);
    }
    assert forall|t: H256|
        (#[trigger] occurs(pool, t) <==> occurs(made(outputs), t)) && total(pool, t) == total(
            made(outputs),
            t,
        ) by {
        assert(occurs(made(outputs), t) <==> occurs(claimed(inputs), t));
        assert(total(pool, t) == total(claimed(inputs), t));
    }
    law_decompose_matches_pool(pool, outputs);
    assert(claimed(inputs)[0].asset_type == inputs[0].prev_out.asset_type);
    assert(occurs(claimed(inputs), inputs[0].prev_out.asset_type));
    assert(occurs(pool, inputs[0].prev_out.asset_type));
}

proof fn lemma_total_remove(assets: Seq<Asset>, place: int, asset_type: H256)
    requires
        0 <= place < assets.len(),
    ensures
        total(assets.remove(place), asset_type) == total(assets, asset_type) - if assets[place].asset_type
            == asset_type {
            assets[place].amount as int
        } else {
            0
        },
    decreases assets.len(),
{
    let rest = assets.remove(place);
    if place == assets.len() - 1 {
        assert(rest =~= assets.drop_last());
    } else {
        assert(rest.drop_last() =~= assets.drop_last().remove(place));
        assert(rest.last() == assets.last());
        lemma_total_remove(assets.drop_last(), place, asset_type);
    }
}

/// Where no type occurs twice, taking one asset out leaves the others, and no type twice.
proof fn lemma_remove(sum: Seq<Asset>, place: int)
    requires
        distinct(sum),
        0 <= place < sum.len(),
    ensures
        distinct(sum.remove(place)),
        forall|a: Asset| #[trigger]
            sum.remove(place).contains(a) <==> sum.contains(a) && a != sum[place],
{
    let left = sum.remove(place);
    assert forall|i: int, j: int| 0 <= i < j < left.len() implies (#[trigger] left[i]).asset_type
        != (#[trigger] left[j]).asset_type by {
        let a = if i < place { i } else { i + 1 };
        let b = if j < place { j } else { j + 1 };
        assert(left[i] == sum[a] && left[j] == sum[b]);
    }
    assert forall|a: Asset| #[trigger] left.contains(a) <==> sum.contains(a) && a != sum[place] by {
        if left.contains(a) {
            let i = choose|i: int| 0 <= i < left.len() && left[i] == a;
            let at = if i < place { i } else { i + 1 };
            assert(sum[at] == a);
            assert(sum[place].asset_type != sum[at].asset_type);
        }
        if sum.contains(a) && a != sum[place] {
            let i = choose|i: int| 0 <= i < sum.len() && sum[i] == a;
            let at = if i < place { i } else { i - 1 };
            assert(left[at] == a);
        }
    }
}

proof fn lemma_taken_stop(pool: Seq<Asset>, sum: Seq<Asset>, k: int) -> (j: int)
    requires
        distinct(pool),
        distinct(sum),
        0 <= k <= pool.len(),
        taken(pool, sum, k) is Err,
    ensures
        k <= j < pool.len(),
        !sum.contains(pool[j]),
        forall|i: int| k <= i < j ==> sum.contains(#[trigger] pool[i]),
        taken(pool, sum, k) == Err::<Seq<Asset>, _>(
            TransactionError::InvalidDecomposedOutput {
                address: pool[j].asset_type,
                expected: pool[j].amount,
                got: total(sum, pool[j].asset_type) as u64,
            },
        ),
        0 <= total(sum, pool[j].asset_type) <= u64::MAX,
    decreases pool.len() - k,
{
    let asset = pool[k];
    let place = place_of(sum, asset.asset_type, 0);
    lemma_place(sum, asset.asset_type, 0);
    if place < sum.len() {
        lemma_total_distinct(sum, place);
    } else {
        assert(!occurs(sum, asset.asset_type));
        lemma_total_absent(sum, asset.asset_type);
    }
    if place >= sum.len() || sum[place].amount != asset.amount {
        if sum.contains(asset) {
            let i = choose|i: int| 0 <= i < sum.len() && sum[i] == asset;
            if place < sum.len() {
                assert(sum[place].asset_type == sum[i].asset_type);
            }
        }
        k
    } else {
        assert(sum[place] == asset);
        lemma_remove(sum, place);
        let left = sum.remove(place);
        let j = lemma_taken_stop(pool, left, k + 1);
        assert(pool[j].asset_type != asset.asset_type);
        lemma_total_remove(sum, place, pool[j].asset_type);
        assert(left.contains(pool[j]) <==> sum.contains(pool[j]) && pool[j] != asset);
        assert forall|i: int| k <= i < j implies sum.contains(#[trigger] pool[i]) by {
            if i == k {
                assert(sum[place] == pool[i]);
            } else {
                assert(left.contains(pool[i]));
            }
        }
        j
    }
}

proof fn lemma_taken_left(pool: Seq<Asset>, sum: Seq<Asset>, k: int)
    requires
        distinct(pool),
        distinct(sum),
        0 <= k <= pool.len(),
    ensures
        taken(pool, sum, k) matches Ok(left) ==> {
            &&& forall|i: int| k <= i < pool.len() ==> sum.contains(#[trigger] pool[i])
            &&& forall|a: Asset| #[trigger]
                left.contains(a) ==> sum.contains(a) && forall|i: int|
                    k <= i < pool.len() ==> (#[trigger] pool[i]).asset_type != a.asset_type
        },
    decreases pool.len() - k,
{
    if k < pool.len() {
        let asset = pool[k];
        let place = place_of(sum, asset.asset_type, 0);
        lemma_place(sum, asset.asset_type, 0);
        if place < sum.len() && sum[place].amount == asset.amount {
            assert(sum[place] == asset);
            lemma_remove(sum, place);
            let rest = sum.remove(place);
            lemma_taken_left(pool, rest, k + 1);
            if let Ok(left) = taken(pool, sum, k) {
                assert forall|i: int| k <= i < pool.len() implies sum.contains(
                    #[trigger] pool[i],
                ) by {
                    if i == k {
                        assert(sum[place] == pool[i]);
                    } else {
                        assert(rest.contains(pool[i]));
                    }
                }
                assert forall|a: Asset| #[trigger] left.contains(a) implies sum.contains(a)
                    && forall|i: int|
                    k <= i < pool.len() ==> (#[trigger] pool[i]).asset_type != a.asset_type by {
                    assert(rest.contains(a));
                    if a.asset_type == asset.asset_type {
                        let i = choose|i: int| 0 <= i < sum.len() && sum[i] == a;
                        assert(sum[i].asset_type == sum[place].asset_type);
                    }
                }
            }
        }
    }
}

/// The sum of the amounts of the outputs of a type.
pub open spec fn output_sum(outputs: Seq<AssetTransferOutput>, asset_type: H256) -> int
    decreases outputs.len(),
{
    if outputs.len() == 0 {
        0
    } else {
        output_sum(outputs.drop_last(), asset_type) + if outputs.last().asset_type == asset_type {
            outputs.last().amount as int
        } else {
            0
        }
    }
}

/// Some output is of a type.
pub open spec fn has_output(outputs: Seq<AssetTransferOutput>, asset_type: H256) -> bool {
    exists|i: int| 0 <= i < outputs.len() && (#[trigger] outputs[i]).asset_type == asset_type
}

/// What outputs make is what they say, output by output and added up.
pub proof fn law_outputs_make_what_they_say(
    outputs: Seq<AssetTransferOutput>,
    asset_type: H256,
)
    ensures
        made(outputs).len() == outputs.len(),
        forall|i: int|
            0 <= i < outputs.len() ==> (#[trigger] made(outputs)[i]).asset_type
                == outputs[i].asset_type && made(outputs)[i].amount == outputs[i].amount,
        total(made(outputs), asset_type) == output_sum(outputs, asset_type),
        occurs(made(outputs), asset_type) == has_output(outputs, asset_type),
    decreases outputs.len(),
{
    if outputs.len() > 0 {
        assert(made(outputs).drop_last() =~= made(outputs.drop_last()));
        law_outputs_make_what_they_say(outputs.drop_last(), asset_type);
    }
    if occurs(made(outputs), asset_type) {
        let i = choose|i: int|
            0 <= i < made(outputs).len() && (#[trigger] made(outputs)[i]).asset_type == asset_type;
        assert(outputs[i].asset_type == asset_type);
    }
    if has_output(outputs, asset_type) {
        let i = choose|i: int|
            0 <= i < outputs.len() && (#[trigger] outputs[i]).asset_type == asset_type;
        assert(made(outputs)[i].asset_type == asset_type);
    }
}

/// The outputs make up the pool: the same types, and as much of each.
pub open spec fn make_up(outputs: Seq<AssetTransferOutput>, pool: Seq<Asset>) -> bool {
    forall|t: H256|
        (#[trigger] occurs(pool, t) <==> has_output(outputs, t)) && total(pool, t) == output_sum(
            outputs,
            t,
        )
}

/// Asset `j` of a pool is not what the outputs make of its type.
pub open spec fn misses(outputs: Seq<AssetTransferOutput>, pool: Seq<Asset>, j: int) -> bool {
    !has_output(outputs, pool[j].asset_type) || output_sum(outputs, pool[j].asset_type)
        != pool[j].amount
}

/// Outputs that do not make up a pool are refused with the first asset of the pool that they miss
/// and what they make of it; or, where they miss none, with a type that is not in the pool and what
/// they make of that.
pub proof fn law_pool_mismatch(pool: Seq<Asset>, outputs: Seq<AssetTransferOutput>)
    requires
        distinct(pool),
        forall|t: H256| #[trigger] output_sum(outputs, t) <= u64::MAX,
    ensures
        tally(made(outputs), Seq::empty(), 0) matches Some(sum) && {
            &&& matched(pool, sum) is Ok <==> make_up(outputs, pool)
            &&& forall|j: int|
                0 <= j < pool.len() && #[trigger] misses(outputs, pool, j) && (forall|i: int|
                    0 <= i < j ==> !(#[trigger] misses(outputs, pool, i))) ==> matched(pool, sum)
                    == Err::<(), _>(
                    TransactionError::InvalidDecomposedOutput {
                        address: pool[j].asset_type,
                        expected: pool[j].amount,
                        got: output_sum(outputs, pool[j].asset_type) as u64,
                    },
                )
            &&& !make_up(outputs, pool) && (forall|j: int|
                0 <= j < pool.len() ==> !(#[trigger] misses(outputs, pool, j))) ==> (matched(
                pool,
                sum,
            ) matches Err(
                TransactionError::InvalidDecomposedOutput { address, expected, got },
            ) && !occurs(pool, address) && has_output(outputs, address) && expected == 0 && got
                == output_sum(outputs, address))
        },
{
    let assets = made(outputs);
    assert forall|t: H256| #[trigger] total(assets, t) == output_sum(outputs, t) by {
        law_outputs_make_what_they_say(outputs, t);
    }
    assert forall|t: H256| #[trigger] occurs(assets, t) == has_output(outputs, t) by {
        law_outputs_make_what_they_say(outputs, t);
    }
    assert forall|t: H256| #[trigger] total(assets, t) <= u64::MAX by {
        assert(output_sum(outputs, t) <= u64::MAX);
    }
    law_tally(assets);
    law_decompose_matches_pool(pool, outputs);
    let sum = tally(assets, Seq::empty(), 0)->0;
    assert(make_up(outputs, pool) <==> forall|t: H256|
        (#[trigger] occurs(pool, t) <==> occurs(assets, t)) && total(pool, t) == total(assets, t))
    by {
        if make_up(outputs, pool) {
            assert forall|t: H256|
                (#[trigger] occurs(pool, t) <==> occurs(assets, t)) && total(pool, t) == total(
                    assets,
                    t,
                ) by {
                assert(occurs(assets, t) == has_output(outputs, t));
                assert(total(assets, t) == output_sum(outputs, t));
            }
        }
        if forall|t: H256|
            (#[trigger] occurs(pool, t) <==> occurs(assets, t)) && total(pool, t) == total(
                assets,
                t,
            ) {
            assert forall|t: H256|
                (#[trigger] occurs(pool, t) <==> has_output(outputs, t)) && total(pool, t)
                    == output_sum(outputs, t) by {
                assert(occurs(assets, t) == has_output(outputs, t));
                assert(total(assets, t) == output_sum(outputs, t));
            }
        }
    }
    assert forall|j: int| 0 <= j < pool.len() implies #[trigger] misses(outputs, pool, j)
        == !sum.contains(pool[j]) by {
        lemma_contains(sum, pool[j]);
        let t = pool[j].asset_type;
        assert(occurs(sum, t) == occurs(assets, t) && occurs(assets, t) == has_output(outputs, t));
        assert(total(sum, t) == total(assets, t) && total(assets, t) == output_sum(outputs, t));
    }
    if taken(pool, sum, 0) is Err {
        let j = lemma_taken_stop(pool, sum, 0);
        let t = pool[j].asset_type;
        assert(total(sum, t) == total(assets, t) && total(assets, t) == output_sum(outputs, t));
        assert(misses(outputs, pool, j));
        assert forall|i: int| 0 <= i < j implies !(#[trigger] misses(outputs, pool, i)) by {
            assert(sum.contains(pool[i]));
        }
    } else {
        lemma_taken_left(pool, sum, 0);
        let left = taken(pool, sum, 0)->Ok_0;
        assert forall|j: int| 0 <= j < pool.len() implies !(#[trigger] misses(
            outputs,
            pool,
            j,
        )) by {
            assert(sum.contains(pool[j]));
        }
        if left.len() > 0 {
            let extra = left.last();
            assert(left[left.len() - 1] == extra);
            assert(left.contains(extra));
            lemma_contains(sum, extra);
            let t = extra.asset_type;
            assert(occurs(sum, t) == occurs(assets, t) && occurs(assets, t) == has_output(
                outputs,
                t,
            ));
            assert(total(sum, t) == total(assets, t) && total(assets, t) == output_sum(
                outputs,
                t,
            ));
        }
    }
}

/// What a pool has of a type is looked for at the first place that holds the type. Adding an amount
/// of the type, where the sum is an amount, adds it to what there is of that type and leaves what
/// there is of every other. No type comes to occur twice.
pub proof fn law_adding_to_a_pool(pool: Seq<Asset>, asset_type: H256, amount: u64)
    ensures
        !occurs(pool, asset_type) ==> amount_in(pool, asset_type) == 0,
        forall|i: int|
            0 <= i < pool.len() && (#[trigger] pool[i]).asset_type == asset_type && (forall|j: int|
                0 <= j < i ==> (#[trigger] pool[j]).asset_type != asset_type) ==> amount_in(
                pool,
                asset_type,
            ) == pool[i].amount,
        distinct(pool) ==> amount_in(pool, asset_type) == total(pool, asset_type),
        amount_in(pool, asset_type) + amount <= u64::MAX ==> {
            let next = added(pool, asset_type, amount);
            &&& distinct(pool) ==> distinct(next)
            &&& total(next, asset_type) == total(pool, asset_type) + amount
            &&& forall|t: H256| t != asset_type ==> #[trigger] total(next, t) == total(pool, t)
            &&& forall|t: H256| #[trigger]
                occurs(next, t) == (occurs(pool, t) || t == asset_type)
        },
{
    let place = place_of(pool, asset_type, 0);
    let next = added(pool, asset_type, amount);
    lemma_place(pool, asset_type, 0);
    if distinct(pool) {
        if place < pool.len() {
            lemma_total_distinct(pool, place);
        } else {
            assert(!occurs(pool, asset_type));
            lemma_total_absent(pool, asset_type);
        }
    }
    if amount_in(pool, asset_type) + amount <= u64::MAX {
        let sum = Asset { asset_type, amount: (amount_in(pool, asset_type) + amount) as u64 };
        if distinct(pool) {
            lemma_added(pool, asset_type, amount);
        }
        if place < pool.len() {
            lemma_total_update(pool, place, sum, asset_type);
            assert(next[place].asset_type == asset_type);
        } else {
            lemma_total_push(pool, sum, asset_type);
            assert(next[pool.len() as int].asset_type == asset_type);
        }
        assert(occurs(next, asset_type));
        assert forall|t: H256| t != asset_type implies #[trigger] total(next, t) == total(
            pool,
            t,
        ) by {
            if place < pool.len() {
                lemma_total_update(pool, place, sum, t);
            } else {
                lemma_total_push(pool, sum, t);
            }
        }
        assert forall|t: H256| #[trigger] occurs(next, t) == (occurs(pool, t) || t == asset_type)
        by {
            if place < pool.len() {
                if occurs(next, t) {
                    let i = choose|i: int|
                        0 <= i < next.len() && (#[trigger] next[i]).asset_type == t;
                    assert(pool[i].asset_type == t);
                }
                if occurs(pool, t) {
                    let i = choose|i: int|
                        0 <= i < pool.len() && (#[trigger] pool[i]).asset_type == t;
                    assert(next[i].asset_type == t);
                }
            } else {
                lemma_occurs_push(pool, sum, t);
            }
        }
    }
}

proof fn lemma_taken_types(pool: Seq<Asset>, sum: Seq<Asset>, k: int)
    requires
        distinct(sum),
        0 <= k <= pool.len(),
        taken(pool, sum, k) is Ok,
    ensures
        forall|i: int| k <= i < pool.len() ==> sum.contains(#[trigger] pool[i]),
        forall|i: int, j: int|
            k <= i < j < pool.len() ==> (#[trigger] pool[i]).asset_type != (
            #[trigger] pool[j]).asset_type,
    decreases pool.len() - k,
{
    if k < pool.len() {
        let place = place_of(sum, pool[k].asset_type, 0);
        lemma_place(sum, pool[k].asset_type, 0);
        assert(sum[place] == pool[k]);
        lemma_remove(sum, place);
        let rest = sum.remove(place);
        lemma_taken_types(pool, rest, k + 1);
        assert forall|i: int| k <= i < pool.len() implies sum.contains(#[trigger] pool[i]) by {
            if i == k {
                assert(sum[place] == pool[i]);
            } else {
                assert(rest.contains(pool[i]));
            }
        }
        assert forall|i: int, j: int| k <= i < j < pool.len() implies (
        #[trigger] pool[i]).asset_type != (#[trigger] pool[j]).asset_type by {
            if i == k {
                assert(rest.contains(pool[j]));
                let at = choose|at: int| 0 <= at < sum.len() && sum[at] == pool[j];
                assert(sum.contains(pool[j]) && pool[j] != sum[place]);
                assert(at != place);
            }
        }
    }
}

/// Nothing makes up a pool that holds a type twice.
pub proof fn law_no_match_for_repeated_types(pool: Seq<Asset>, outputs: Seq<AssetTransferOutput>)
    ensures
        tally(made(outputs), Seq::empty(), 0) matches Some(sum) ==> (matched(pool, sum) is Ok
            ==> distinct(pool)),
{
    law_tally(made(outputs));
    if let Some(sum) = tally(made(outputs), Seq::empty(), 0) {
        if taken(pool, sum, 0) is Ok {
            lemma_taken_types(pool, sum, 0);
        }
    }
}

} // verus!
