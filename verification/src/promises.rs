//! What transactions come to, said of each of their inputs, outputs and orders by itself.

use crate::address::{asset_address, scheme_address, zero_suffix_address};
use crate::conservation::{
    claimed, distinct, has_output, law_no_match_for_repeated_types,
    law_outputs_make_what_they_say, law_pool_mismatch, law_tally, make_up, misses, occurs,
    output_sum, total,
};
use crate::error::{Mismatch, StateError, Stop, TransactionError, TrieError, UnlockFailureReason};
use crate::hash::{blake2b_160, Address, ShardId, H160, H256};
use crate::item::{Asset, AssetView, SchemeView};
use crate::laws::{avoids, law_compose, law_decompose, law_transfer, spends};
use crate::ledger::{
    no_order_hashes, gather, Gathered, all_below, applied, asked, consume, output_asset,
    input_asset, inputs_in_range, order_of_input, order_of_output, orders_check, origin_count,
    output_order_hashes, outputs_in_range, produce, script_check, scripts_check, spendings,
    transfer_spendings, Ledger, Spending,
};
use crate::metadata::{describes_wrapped_coin, law_wrapped_metadata};
use crate::pool::{added, amount_in, made, tally};
use crate::script::ScriptOutcome;
use crate::transaction::{
    AssetMintOutput, AssetTransferInput, AssetTransferOutput, AssetWrapCCCOutput,
    InnerTransaction, OrderOnTransfer, Transaction,
};
use vstd::prelude::*;

verus! {

/// The address of the asset that an input names: where its transaction made it.
pub open spec fn named(input: AssetTransferInput, shard_id: ShardId) -> H256 {
    asset_address(input.prev_out.transaction_hash, input.prev_out.index as int, shard_id)
}

/// `hash` begins with the letter `S` and a zero byte.
pub open spec fn has_scheme_form(hash: H256) -> bool {
    hash.0[0] == 0x53 && hash.0[1] == 0
}

/// A refusal for this reason.
pub open spec fn refused(error: TransactionError) -> Stop {
    Stop::Error(StateError::Transaction(error))
}

/// A leaf that could not be read for this reason.
pub open spec fn unread(error: TrieError) -> Stop {
    Stop::Error(StateError::Trie(error))
}

/// The asset that an input names may be moved, or burnt where `burn` says so. The administrator of
/// its scheme may do so, having sent the transaction or approved of it. Nobody else may burn what
/// is under an administrator. Otherwise the asset lies under the order that it pays for, or the
/// input shows a lock script with the hash that the asset names, and the scripts came to the end
/// that is wanted.
pub open spec fn is_unlocked(
    ledger: Ledger,
    input: AssetTransferInput,
    order: Option<H256>,
    burn: bool,
    sender: Address,
    approvers: Seq<Address>,
    outcome: ScriptOutcome,
) -> bool {
    match (
        ledger.asset(named(input, ledger.shard_id)),
        ledger.scheme(input.prev_out.asset_type),
    ) {
        (Ok(Some(asset)), Ok(Some(scheme))) => {
            let administrator = scheme.administrator;
            let by_administrator = administrator is Some && (sender == administrator->0
                || approvers.contains(administrator->0));
            let by_order = order is Some && asset.order_hash == order;
            let by_script = asset.lock_script_hash == H160(blake2b_160(input.lock_script@))
                && outcome == if burn {
                ScriptOutcome::Burnt
            } else {
                ScriptOutcome::Unlocked
            };
            has_scheme_form(input.prev_out.asset_type) && (by_administrator || (!(burn
                && administrator is Some) && (by_order || by_script)))
        },
        _ => false,
    }
}

/// Why an input that is not unlocked stops the work.
pub open spec fn is_script_stop(
    stop: Stop,
    ledger: Ledger,
    input: AssetTransferInput,
    burn: bool,
    outcome: ScriptOutcome,
) -> bool {
    let address = named(input, ledger.shard_id);
    let found = H160(blake2b_160(input.lock_script@));
    match (ledger.asset(address), ledger.scheme(input.prev_out.asset_type)) {
        (Err(error), _) => stop == unread(error),
        (Ok(None), _) => stop == refused(TransactionError::AssetNotFound(address)),
        (Ok(Some(asset)), scheme_read) => if !has_scheme_form(input.prev_out.asset_type) {
            stop == Stop::OutOfDomain
        } else {
            match scheme_read {
                Err(error) => stop == unread(error),
                Ok(None) => stop == Stop::OutOfDomain,
                Ok(Some(scheme)) => if burn && scheme.administrator is Some {
                    stop == refused(TransactionError::CannotBurnCentralizedAsset)
                } else if asset.lock_script_hash != found {
                    stop == refused(
                        TransactionError::ScriptHashMismatch(
                            Mismatch { expected: asset.lock_script_hash, found },
                        ),
                    )
                } else if outcome is InvalidScript {
                    stop == refused(TransactionError::InvalidScript)
                } else {
                    stop == refused(
                        TransactionError::FailedToUnlock {
                            address,
                            reason: if outcome is Burnt {
                                UnlockFailureReason::ScriptShouldBeBurnt
                            } else if outcome is Unlocked {
                                UnlockFailureReason::ScriptShouldNotBeBurnt
                            } else {
                                UnlockFailureReason::ScriptError
                            },
                        },
                    )
                },
            }
        },
    }
}

proof fn lemma_script_check(
    ledger: Ledger,
    input: AssetTransferInput,
    order: Option<H256>,
    burn: bool,
    sender: Address,
    approvers: Seq<Address>,
    outcome: ScriptOutcome,
)
    ensures
        match script_check(ledger, input, order, burn, sender, approvers, outcome) {
            Ok(()) => is_unlocked(ledger, input, order, burn, sender, approvers, outcome),
            Err(stop) => !is_unlocked(ledger, input, order, burn, sender, approvers, outcome)
                && is_script_stop(stop, ledger, input, burn, outcome),
        },
{
}

/// The asset that an input names, read as `held`, is what the input claims, and the approver of its
/// scheme, if there is one, sent the transaction or approved of it.
pub open spec fn is_presentable(
    ledger: Ledger,
    input: AssetTransferInput,
    held: Result<Option<AssetView>, TrieError>,
    sender: Address,
    approvers: Seq<Address>,
) -> bool {
    has_scheme_form(input.prev_out.asset_type) && match (
        ledger.scheme(input.prev_out.asset_type),
        held,
    ) {
        (Ok(Some(scheme)), Ok(Some(asset))) => {
            &&& scheme.approver is Some ==> sender == scheme.approver->0 || approvers.contains(
                scheme.approver->0,
            )
            &&& asset.amount == input.prev_out.amount
            &&& asset.asset_type == input.prev_out.asset_type
        },
        _ => false,
    }
}

/// Why an input that is not presentable stops the work.
pub open spec fn is_input_stop(
    stop: Stop,
    ledger: Ledger,
    input: AssetTransferInput,
    held: Result<Option<AssetView>, TrieError>,
    sender: Address,
    approvers: Seq<Address>,
) -> bool {
    let asset_type = input.prev_out.asset_type;
    let address = named(input, ledger.shard_id);
    if !has_scheme_form(asset_type) {
        stop == refused(TransactionError::AssetSchemeNotFound(asset_type))
    } else {
        match ledger.scheme(asset_type) {
            Err(error) => stop == unread(error),
            Ok(None) => stop == refused(TransactionError::AssetSchemeNotFound(asset_type)),
            Ok(Some(scheme)) => if scheme.approver is Some && sender != scheme.approver->0
                && !approvers.contains(scheme.approver->0) {
                stop == refused(TransactionError::NotApproved(scheme.approver->0))
            } else {
                match held {
                    Err(error) => stop == unread(error),
                    Ok(None) => stop == refused(TransactionError::AssetNotFound(address)),
                    Ok(Some(asset)) => if asset.amount != input.prev_out.amount {
                        stop == refused(
                            TransactionError::InvalidAssetAmount {
                                address,
                                expected: asset.amount,
                                got: input.prev_out.amount,
                            },
                        )
                    } else {
                        stop == refused(TransactionError::InvalidAssetType(asset_type))
                    },
                }
            },
        }
    }
}

proof fn lemma_input_asset(
    ledger: Ledger,
    input: AssetTransferInput,
    sender: Address,
    approvers: Seq<Address>,
)
    ensures
        ({
            let held = ledger.asset(named(input, ledger.shard_id));
            match input_asset(ledger, input, sender, approvers) {
                Ok(asset) => is_presentable(ledger, input, held, sender, approvers) && held
                    == Ok::<_, TrieError>(Some(asset)),
                Err(stop) => !is_presentable(ledger, input, held, sender, approvers)
                    && is_input_stop(stop, ledger, input, held, sender, approvers),
            }
        }),
{
}

/// One of the first `k` inputs names the asset at `address`.
pub open spec fn named_before(
    inputs: Seq<AssetTransferInput>,
    shard_id: ShardId,
    k: int,
    address: H256,
) -> bool {
    exists|i: int| 0 <= i < k && named(#[trigger] inputs[i], shard_id) == address
}

/// What input `k` finds at its address, once the inputs before it are spent.
pub open spec fn held(ledger: Ledger, inputs: Seq<AssetTransferInput>, k: int) -> Result<
    Option<AssetView>,
    TrieError,
> {
    let address = named(inputs[k], ledger.shard_id);
    if named_before(inputs, ledger.shard_id, k, address) {
        Ok(None)
    } else {
        ledger.asset(address)
    }
}

/// `now` is `ledger` without the assets of the first `k` inputs.
pub open spec fn is_without(
    ledger: Ledger,
    now: Ledger,
    inputs: Seq<AssetTransferInput>,
    k: int,
) -> bool {
    &&& now.shard_id == ledger.shard_id
    &&& now.trie == ledger.trie
    &&& now.overlay.schemes == ledger.overlay.schemes
    &&& forall|a: H256| #[trigger]
        now.asset(a) == if named_before(inputs, ledger.shard_id, k, a) {
            Ok(None)
        } else {
            ledger.asset(a)
        }
}

proof fn lemma_without_next(
    ledger: Ledger,
    now: Ledger,
    inputs: Seq<AssetTransferInput>,
    k: int,
)
    requires
        0 <= k < inputs.len(),
        is_without(ledger, now, inputs, k),
    ensures
        is_without(ledger, now.with_asset(named(inputs[k], now.shard_id), None), inputs, k + 1),
        now.asset(named(inputs[k], now.shard_id)) == held(ledger, inputs, k),
{
    let address = named(inputs[k], now.shard_id);
    let next = now.with_asset(address, None);
    assert forall|a: H256| #[trigger]
        next.asset(a) == if named_before(inputs, ledger.shard_id, k + 1, a) {
            Ok(None)
        } else {
            ledger.asset(a)
        } by {
        assert(now.asset(a) == if named_before(inputs, ledger.shard_id, k, a) {
            Ok(None)
        } else {
            ledger.asset(a)
        });
        if a == address {
            assert(named(inputs[k], ledger.shard_id) == a);
        }
        if named_before(inputs, ledger.shard_id, k, a) {
            let i = choose|i: int|
                0 <= i < k && named(#[trigger] inputs[i], ledger.shard_id) == a;
            assert(named(inputs[i], ledger.shard_id) == a);
        }
        if named_before(inputs, ledger.shard_id, k + 1, a) && a != address {
            let i = choose|i: int|
                0 <= i < k + 1 && named(#[trigger] inputs[i], ledger.shard_id) == a;
            assert(named(inputs[i], ledger.shard_id) == a && i < k);
        }
    }
}

/// Input `k` can be spent, once those before it are.
pub open spec fn is_spendable(
    ledger: Ledger,
    inputs: Seq<AssetTransferInput>,
    k: int,
    sender: Address,
    approvers: Seq<Address>,
) -> bool {
    is_presentable(ledger, inputs[k], held(ledger, inputs, k), sender, approvers)
}

proof fn lemma_consume_each(
    ledger: Ledger,
    now: Ledger,
    inputs: Seq<AssetTransferInput>,
    sender: Address,
    approvers: Seq<Address>,
    k: int,
)
    requires
        0 <= k <= inputs.len(),
        is_without(ledger, now, inputs, k),
    ensures
        consume(now, inputs, sender, approvers, k) matches Ok(after) ==> is_without(
            ledger,
            after,
            inputs,
            inputs.len() as int,
        ),
        consume(now, inputs, sender, approvers, k) is Ok <==> forall|i: int|
            k <= i < inputs.len() ==> #[trigger] is_spendable(
                ledger,
                inputs,
                i,
                sender,
                approvers,
            ),
        forall|j: int|
            k <= j < inputs.len() && !(#[trigger] is_spendable(
                ledger,
                inputs,
                j,
                sender,
                approvers,
            )) && (forall|i: int|
                k <= i < j ==> #[trigger] is_spendable(ledger, inputs, i, sender, approvers))
                ==> (consume(now, inputs, sender, approvers, k) matches Err(stop) && is_input_stop(
                stop,
                ledger,
                inputs[j],
                held(ledger, inputs, j),
                sender,
                approvers,
            )),
    decreases inputs.len() - k,
{
    if k < inputs.len() {
        lemma_input_asset(now, inputs[k], sender, approvers);
        lemma_without_next(ledger, now, inputs, k);
        assert(now.spent(inputs[k]) == named(inputs[k], now.shard_id));
        if input_asset(now, inputs[k], sender, approvers) is Ok {
            assert(is_spendable(ledger, inputs, k, sender, approvers));
            lemma_consume_each(
                ledger,
                now.with_asset(named(inputs[k], now.shard_id), None),
                inputs,
                sender,
                approvers,
                k + 1,
            );
        } else {
            assert(!is_spendable(ledger, inputs, k, sender, approvers));
        }
    }
}

/// A spending is unlocked.
pub open spec fn is_open(
    ledger: Ledger,
    spending: Spending,
    sender: Address,
    approvers: Seq<Address>,
    outcome: ScriptOutcome,
) -> bool {
    is_unlocked(
        ledger,
        spending.input,
        spending.order,
        spending.burn,
        sender,
        approvers,
        outcome,
    )
}

proof fn lemma_scripts_each(
    ledger: Ledger,
    all: Seq<Spending>,
    sender: Address,
    approvers: Seq<Address>,
    outcomes: Seq<ScriptOutcome>,
    k: int,
)
    requires
        0 <= k <= all.len(),
    ensures
        scripts_check(ledger, all, sender, approvers, outcomes, k) is Ok <==> forall|i: int|
            k <= i < all.len() ==> is_open(
                ledger,
                #[trigger] all[i],
                sender,
                approvers,
                outcomes[i],
            ),
        forall|j: int|
            k <= j < all.len() && !is_open(ledger, #[trigger] all[j], sender, approvers, outcomes[j])
                && (forall|i: int|
                k <= i < j ==> is_open(ledger, #[trigger] all[i], sender, approvers, outcomes[i]))
                ==> (scripts_check(ledger, all, sender, approvers, outcomes, k) matches Err(stop)
                && is_script_stop(stop, ledger, all[j].input, all[j].burn, outcomes[j])),
    decreases all.len() - k,
{
    if k < all.len() {
        lemma_script_check(
            ledger,
            all[k].input,
            all[k].order,
            all[k].burn,
            sender,
            approvers,
            outcomes[k],
        );
        if is_open(ledger, all[k], sender, approvers, outcomes[k]) {
            lemma_scripts_each(ledger, all, sender, approvers, outcomes, k + 1);
        }
    }
}

/// Of the orders, `o` is the last that names input `i`.
pub open spec fn is_last_to_pay(orders: Seq<OrderOnTransfer>, o: int, i: int) -> bool {
    &&& 0 <= o < orders.len()
    &&& orders[o].input_indices@.contains(i as usize)
    &&& forall|p: int|
        o < p < orders.len() ==> !(#[trigger] orders[p]).input_indices@.contains(i as usize)
}

/// The hash of the order that pays with input `i`, which is the last to name it.
pub open spec fn paying_order(orders: Seq<OrderOnTransfer>, i: int) -> Option<H256> {
    if exists|o: int| is_last_to_pay(orders, o, i) {
        Some(orders[choose|o: int| is_last_to_pay(orders, o, i)].order.hash)
    } else {
        None
    }
}

/// Of the orders, `o` is the last that names output `i`.
pub open spec fn is_last_to_keep(orders: Seq<OrderOnTransfer>, o: int, i: int) -> bool {
    &&& 0 <= o < orders.len()
    &&& orders[o].output_indices@.contains(i as usize)
    &&& forall|p: int|
        o < p < orders.len() ==> !(#[trigger] orders[p]).output_indices@.contains(i as usize)
}

/// The hash of what is left of the order that output `i` stays under, which is the last to name it.
pub open spec fn keeping_order(orders: Seq<OrderOnTransfer>, i: int) -> Option<H256> {
    if exists|o: int| is_last_to_keep(orders, o, i) {
        Some(orders[choose|o: int| is_last_to_keep(orders, o, i)].consumed_hash)
    } else {
        None
    }
}

/// The order that an input of a transfer pays for is the last that names the input.
pub proof fn lemma_last_to_pay(orders: Seq<OrderOnTransfer>, n: int, i: int)
    requires
        0 <= n <= orders.len(),
        forall|p: int|
            n <= p < orders.len() ==> !(#[trigger] orders[p]).input_indices@.contains(i as usize),
    ensures
        order_of_input(orders, n, i) == paying_order(orders, i),
    decreases n,
{
    if n > 0 && !orders[n - 1].input_indices@.contains(i as usize) {
        lemma_last_to_pay(orders, n - 1, i);
    } else if n > 0 {
        assert(is_last_to_pay(orders, n - 1, i));
        let o = choose|o: int| is_last_to_pay(orders, o, i);
        assert(o == n - 1);
    }
}

proof fn lemma_last_to_keep(orders: Seq<OrderOnTransfer>, n: int, i: int)
    requires
        0 <= n <= orders.len(),
        forall|p: int|
            n <= p < orders.len() ==> !(#[trigger] orders[p]).output_indices@.contains(i as usize),
    ensures
        order_of_output(orders, n, i) == keeping_order(orders, i),
    decreases n,
{
    if n > 0 && !orders[n - 1].output_indices@.contains(i as usize) {
        lemma_last_to_keep(orders, n - 1, i);
    } else if n > 0 {
        assert(is_last_to_keep(orders, n - 1, i));
        let o = choose|o: int| is_last_to_keep(orders, o, i);
        assert(o == n - 1);
    }
}

/// The asset that an input names lies under the order with this hash.
pub open spec fn is_under(ledger: Ledger, input: AssetTransferInput, hash: H256) -> bool {
    ledger.asset(named(input, ledger.shard_id)) matches Ok(Some(asset)) && asset.order_hash == Some(
        hash,
    )
}

/// The input that index `m` of an order names.
pub open spec fn ordered(
    order_tx: OrderOnTransfer,
    inputs: Seq<AssetTransferInput>,
    m: int,
) -> AssetTransferInput {
    inputs[order_tx.input_indices@[m] as int]
}

/// How many of the first `m` inputs that an order names do not lie under it yet.
pub open spec fn fresh(
    ledger: Ledger,
    order_tx: OrderOnTransfer,
    inputs: Seq<AssetTransferInput>,
    m: int,
) -> int
    decreases m,
{
    if m <= 0 {
        0
    } else {
        fresh(ledger, order_tx, inputs, m - 1) + if is_under(
            ledger,
            ordered(order_tx, inputs, m - 1),
            order_tx.order.hash,
        ) {
            0int
        } else {
            1
        }
    }
}

/// Each input that an order names lies under it or is one of its origin outputs, and as many are
/// of the second sort as it has origin outputs, or none.
pub open spec fn is_sound(
    ledger: Ledger,
    order_tx: OrderOnTransfer,
    inputs: Seq<AssetTransferInput>,
) -> bool {
    &&& forall|m: int|
        0 <= m < order_tx.input_indices@.len() ==> #[trigger] is_placed(
            ledger,
            order_tx,
            inputs,
            m,
        )
    &&& ({
        let count = fresh(ledger, order_tx, inputs, order_tx.input_indices@.len() as int);
        count == 0 || count == order_tx.order.origin_outputs@.len()
    })
}

/// The input that index `m` of an order names lies under it or is one of its origin outputs.
pub open spec fn is_placed(
    ledger: Ledger,
    order_tx: OrderOnTransfer,
    inputs: Seq<AssetTransferInput>,
    m: int,
) -> bool {
    is_under(ledger, ordered(order_tx, inputs, m), order_tx.order.hash)
        || order_tx.order.origin_outputs@.contains(ordered(order_tx, inputs, m).prev_out)
}

proof fn lemma_fresh_bounds(
    ledger: Ledger,
    order_tx: OrderOnTransfer,
    inputs: Seq<AssetTransferInput>,
    m: int,
)
    ensures
        fresh(ledger, order_tx, inputs, m) >= 0,
    decreases m,
{
    if m > 0 {
        lemma_fresh_bounds(ledger, order_tx, inputs, m - 1);
    }
}

proof fn lemma_origin_count_each(
    ledger: Ledger,
    order_tx: OrderOnTransfer,
    inputs: Seq<AssetTransferInput>,
    k: int,
)
    requires
        0 <= k <= order_tx.input_indices@.len(),
        forall|m: int|
            0 <= m < order_tx.input_indices@.len() ==> ledger.asset(
                named(#[trigger] ordered(order_tx, inputs, m), ledger.shard_id),
            ) matches Ok(Some(_)),
    ensures
        ({
            let counted = origin_count(
                ledger,
                order_tx,
                inputs,
                fresh(ledger, order_tx, inputs, k),
                k,
            );
            let all = forall|m: int|
                k <= m < order_tx.input_indices@.len() ==> #[trigger] is_placed(
                    ledger,
                    order_tx,
                    inputs,
                    m,
                );
            if all {
                counted == Ok::<_, Stop>(
                    fresh(ledger, order_tx, inputs, order_tx.input_indices@.len() as int),
                )
            } else {
                counted == Err::<int, _>(
                    refused(TransactionError::InvalidOriginOutputs(order_tx.order.hash)),
                )
            }
        }),
    decreases order_tx.input_indices@.len() - k,
{
    if k < order_tx.input_indices@.len() {
        let input = ordered(order_tx, inputs, k);
        assert(ledger.spent(input) == named(input, ledger.shard_id));
        assert(ledger.asset(named(input, ledger.shard_id)) matches Ok(Some(_)));
        lemma_origin_count_each(ledger, order_tx, inputs, k + 1);
        if !is_placed(ledger, order_tx, inputs, k) {
        } else {
            assert(fresh(ledger, order_tx, inputs, k + 1) == fresh(ledger, order_tx, inputs, k)
                + if is_under(ledger, input, order_tx.order.hash) {
                0int
            } else {
                1
            });
        }
    }
}

/// The inputs that the orders name are there as assets.
spec fn are_there(
    ledger: Ledger,
    orders: Seq<OrderOnTransfer>,
    inputs: Seq<AssetTransferInput>,
) -> bool {
    &&& inputs_in_range(orders, inputs.len())
    &&& forall|i: int|
        0 <= i < inputs.len() ==> ledger.asset(
            named(#[trigger] inputs[i], ledger.shard_id),
        ) matches Ok(Some(_))
}

proof fn lemma_orders_each(
    ledger: Ledger,
    orders: Seq<OrderOnTransfer>,
    inputs: Seq<AssetTransferInput>,
    k: int,
)
    requires
        0 <= k <= orders.len(),
        are_there(ledger, orders, inputs),
    ensures
        orders_check(ledger, orders, inputs, k) is Ok <==> forall|o: int|
            k <= o < orders.len() ==> is_sound(ledger, #[trigger] orders[o], inputs),
        forall|j: int|
            k <= j < orders.len() && !is_sound(ledger, #[trigger] orders[j], inputs) && (forall|
                o: int,
            |
                k <= o < j ==> is_sound(ledger, #[trigger] orders[o], inputs)) ==> orders_check(
                ledger,
                orders,
                inputs,
                k,
            ) == Err::<(), _>(
                refused(TransactionError::InvalidOriginOutputs(orders[j].order.hash)),
            ),
    decreases orders.len() - k,
{
    if k < orders.len() {
        let order_tx = orders[k];
        assert forall|m: int| 0 <= m < order_tx.input_indices@.len() implies ledger.asset(
            named(#[trigger] ordered(order_tx, inputs, m), ledger.shard_id),
        ) matches Ok(Some(_)) by {
            assert(order_tx.input_indices@[m] < inputs.len());
            assert(inputs[order_tx.input_indices@[m] as int] == ordered(order_tx, inputs, m));
        }
        lemma_origin_count_each(ledger, order_tx, inputs, 0);
        lemma_fresh_bounds(
            ledger,
            order_tx,
            inputs,
            order_tx.input_indices@.len() as int,
        );
        lemma_orders_each(ledger, orders, inputs, k + 1);
    }
}

proof fn lemma_produce_each(
    ledger: Ledger,
    hash: H256,
    outputs: Seq<AssetTransferOutput>,
    order_hashes: Seq<Option<H256>>,
    k: int,
)
    requires
        0 <= k <= outputs.len(),
    ensures
        produce(ledger, hash, outputs, order_hashes, k) is Ok <==> forall|i: int|
            k <= i < outputs.len() ==> ledger.asset(
                #[trigger] asset_address(hash, i, ledger.shard_id),
            ) is Ok,
        forall|j: int|
            k <= j < outputs.len() && ledger.asset(
                #[trigger] asset_address(hash, j, ledger.shard_id),
            ) is Err && (forall|i: int|
                k <= i < j ==> ledger.asset(
                    #[trigger] asset_address(hash, i, ledger.shard_id),
                ) is Ok) ==> produce(ledger, hash, outputs, order_hashes, k) == Err::<Ledger, _>(
                unread(ledger.asset(asset_address(hash, j, ledger.shard_id))->Err_0),
            ),
    decreases outputs.len() - k,
{
    if k < outputs.len() {
        let address = asset_address(hash, k, ledger.shard_id);
        if ledger.asset(address) is Ok {
            let next = ledger.with_asset(
                address,
                Some(output_asset(outputs[k], order_hashes[k])),
            );
            lemma_produce_each(next, hash, outputs, order_hashes, k + 1);
            assert forall|i: int| k < i < outputs.len() implies (next.asset(
                #[trigger] asset_address(hash, i, ledger.shard_id),
            ) is Ok <==> ledger.asset(asset_address(hash, i, ledger.shard_id)) is Ok) by {}
        }
    }
}

/// Every index at which an order names an input is that of an input.
pub open spec fn inputs_are_there(orders: Seq<OrderOnTransfer>, count: nat) -> bool {
    forall|o: int, m: int|
        0 <= o < orders.len() && 0 <= m < orders[o].input_indices@.len() ==> (
        #[trigger] orders[o].input_indices@[m]) < count
}

/// Every index at which an order names an output is that of an output.
pub open spec fn outputs_are_there(orders: Seq<OrderOnTransfer>, count: nat) -> bool {
    forall|o: int, m: int|
        0 <= o < orders.len() && 0 <= m < orders[o].output_indices@.len() ==> (
        #[trigger] orders[o].output_indices@[m]) < count
}

/// The indices of the orders lie within the inputs and outputs where each single one does.
pub proof fn lemma_ranges(orders: Seq<OrderOnTransfer>, inputs: nat, outputs: nat)
    ensures
        inputs_in_range(orders, inputs) == inputs_are_there(orders, inputs),
        outputs_in_range(orders, outputs) == outputs_are_there(orders, outputs),
{
    if inputs_in_range(orders, inputs) {
        assert forall|o: int, m: int|
            0 <= o < orders.len() && 0 <= m < orders[o].input_indices@.len() implies (
        #[trigger] orders[o].input_indices@[m]) < inputs by {
            assert(all_below(orders[o].input_indices@, inputs));
        }
    }
    if outputs_in_range(orders, outputs) {
        assert forall|o: int, m: int|
            0 <= o < orders.len() && 0 <= m < orders[o].output_indices@.len() implies (
        #[trigger] orders[o].output_indices@[m]) < outputs by {
            assert(all_below(orders[o].output_indices@, outputs));
        }
    }
}

/// Input `i` of a transfer, or the burn that comes `i` places after its first input, is unlocked.
/// The last order that names an input pays with it; no order pays with a burn.
pub open spec fn is_transfer_open(
    ledger: Ledger,
    inputs: Seq<AssetTransferInput>,
    burns: Seq<AssetTransferInput>,
    orders: Seq<OrderOnTransfer>,
    sender: Address,
    approvers: Seq<Address>,
    outcomes: Seq<ScriptOutcome>,
    i: int,
) -> bool {
    if i < inputs.len() {
        is_unlocked(
            ledger,
            inputs[i],
            paying_order(orders, i),
            false,
            sender,
            approvers,
            outcomes[i],
        )
    } else {
        is_unlocked(
            ledger,
            burns[i - inputs.len()],
            None,
            true,
            sender,
            approvers,
            outcomes[i],
        )
    }
}

proof fn lemma_transfer_open(
    ledger: Ledger,
    inputs: Seq<AssetTransferInput>,
    burns: Seq<AssetTransferInput>,
    orders: Seq<OrderOnTransfer>,
    sender: Address,
    approvers: Seq<Address>,
    outcomes: Seq<ScriptOutcome>,
)
    ensures
        ({
            let all = transfer_spendings(inputs, burns, orders);
            &&& all.len() == inputs.len() + burns.len()
            &&& forall|i: int|
                0 <= i < all.len() ==> {
                    &&& (#[trigger] all[i]).input == (inputs + burns)[i]
                    &&& all[i].burn == (i >= inputs.len())
                    &&& is_open(ledger, all[i], sender, approvers, outcomes[i])
                        == is_transfer_open(
                        ledger,
                        inputs,
                        burns,
                        orders,
                        sender,
                        approvers,
                        outcomes,
                        i,
                    )
                }
        }),
{
    let all = transfer_spendings(inputs, burns, orders);
    assert forall|i: int| 0 <= i < all.len() implies {
        &&& (#[trigger] all[i]).input == (inputs + burns)[i]
        &&& all[i].burn == (i >= inputs.len())
        &&& is_open(ledger, all[i], sender, approvers, outcomes[i]) == is_transfer_open(
            ledger,
            inputs,
            burns,
            orders,
            sender,
            approvers,
            outcomes,
            i,
        )
    } by {
        if i < inputs.len() {
            lemma_last_to_pay(orders, orders.len() as int, i);
        }
    }
}

/// Where a transfer succeeds, every one of its inputs and burns is unlocked, by the administrator,
/// by the order that it pays for, or by a lock script with the right hash and the right outcome.
pub proof fn law_transfer_checks_every_script(
    ledger: Ledger,
    hash: H256,
    burns: Vec<AssetTransferInput>,
    inputs: Vec<AssetTransferInput>,
    outputs: Vec<AssetTransferOutput>,
    orders: Vec<OrderOnTransfer>,
    sender: Address,
    shard_users: Seq<Address>,
    approvers: Seq<Address>,
    outcomes: Seq<ScriptOutcome>,
)
    requires
        applied(
            ledger,
            InnerTransaction::General(
                Transaction::AssetTransfer { hash, burns, inputs, outputs, orders },
            ),
            sender,
            shard_users,
            approvers,
            outcomes,
        ) is Ok,
    ensures
        forall|i: int|
            0 <= i < inputs@.len() ==> is_unlocked(
                ledger,
                #[trigger] inputs@[i],
                paying_order(orders@, i),
                false,
                sender,
                approvers,
                outcomes[i],
            ),
        forall|j: int|
            0 <= j < burns@.len() ==> is_unlocked(
                ledger,
                #[trigger] burns@[j],
                None,
                true,
                sender,
                approvers,
                outcomes[inputs@.len() + j],
            ),
{
    let all = transfer_spendings(inputs@, burns@, orders@);
    lemma_transfer_open(ledger, inputs@, burns@, orders@, sender, approvers, outcomes);
    lemma_scripts_each(ledger, all, sender, approvers, outcomes, 0);
    assert forall|i: int| 0 <= i < inputs@.len() implies is_unlocked(
        ledger,
        #[trigger] inputs@[i],
        paying_order(orders@, i),
        false,
        sender,
        approvers,
        outcomes[i],
    ) by {
        assert(is_open(ledger, all[i], sender, approvers, outcomes[i]));
    }
    assert forall|j: int| 0 <= j < burns@.len() implies is_unlocked(
        ledger,
        #[trigger] burns@[j],
        None,
        true,
        sender,
        approvers,
        outcomes[inputs@.len() + j],
    ) by {
        let i = inputs@.len() + j;
        assert(is_open(ledger, all[i], sender, approvers, outcomes[i]));
    }
}

/// A transfer succeeds exactly where its orders name inputs and outputs that are there, every
/// input and burn is unlocked, every order is sound, every input and burn is what it claims and is
/// named once, and the addresses of the outputs can be read. Where it does not, the first of these
/// that fails says why.
pub proof fn law_transfer_comes_to(
    ledger: Ledger,
    hash: H256,
    burns: Vec<AssetTransferInput>,
    inputs: Vec<AssetTransferInput>,
    outputs: Vec<AssetTransferOutput>,
    orders: Vec<OrderOnTransfer>,
    sender: Address,
    shard_users: Seq<Address>,
    approvers: Seq<Address>,
    outcomes: Seq<ScriptOutcome>,
)
    ensures
        ({
            let result = applied(
                ledger,
                InnerTransaction::General(
                    Transaction::AssetTransfer { hash, burns, inputs, outputs, orders },
                ),
                sender,
                shard_users,
                approvers,
                outcomes,
            );
            let spent = inputs@ + burns@;
            let opened = |i: int|
                is_transfer_open(
                    ledger,
                    inputs@,
                    burns@,
                    orders@,
                    sender,
                    approvers,
                    outcomes,
                    i,
                );
            let spendable = |i: int| is_spendable(ledger, spent, i, sender, approvers);
            let readable = |i: int| ledger.asset(asset_address(hash, i, ledger.shard_id)) is Ok;
            let all_open = forall|i: int| 0 <= i < spent.len() ==> #[trigger] opened(i);
            let all_sound = forall|o: int|
                0 <= o < orders@.len() ==> is_sound(ledger, #[trigger] orders@[o], inputs@);
            let all_spendable = forall|i: int| 0 <= i < spent.len() ==> #[trigger] spendable(i);
            let all_readable = forall|i: int| 0 <= i < outputs@.len() ==> #[trigger] readable(i);
            let named_inputs = inputs_are_there(orders@, inputs@.len());
            let named_outputs = outputs_are_there(orders@, outputs@.len());
            &&& result is Ok <==> named_inputs && all_open && all_sound && named_outputs
                && all_spendable && all_readable
            &&& !named_inputs ==> result == Err::<Ledger, _>(Stop::OutOfDomain)
            &&& forall|j: int|
                named_inputs && 0 <= j < spent.len() && !(#[trigger] opened(j)) && (forall|i: int|
                    0 <= i < j ==> #[trigger] opened(i)) ==> (result matches Err(stop)
                    && is_script_stop(
                    stop,
                    ledger,
                    spent[j],
                    j >= inputs@.len(),
                    outcomes[j],
                ))
            &&& forall|j: int|
                named_inputs && all_open && 0 <= j < orders@.len() && !is_sound(
                    ledger,
                    #[trigger] orders@[j],
                    inputs@,
                ) && (forall|o: int|
                    0 <= o < j ==> is_sound(ledger, #[trigger] orders@[o], inputs@)) ==> result
                    == Err::<Ledger, _>(
                    refused(TransactionError::InvalidOriginOutputs(orders@[j].order.hash)),
                )
            &&& named_inputs && all_open && all_sound && !named_outputs ==> result == Err::<
                Ledger,
                _,
            >(Stop::OutOfDomain)
            &&& forall|j: int|
                named_inputs && all_open && all_sound && named_outputs && 0 <= j < spent.len() && !(
                #[trigger] spendable(j)) && (forall|i: int| 0 <= i < j ==> #[trigger] spendable(i))
                    ==> (result matches Err(stop) && is_input_stop(
                    stop,
                    ledger,
                    spent[j],
                    held(ledger, spent, j),
                    sender,
                    approvers,
                ))
            &&& named_inputs && all_open && all_sound && named_outputs && all_spendable
                && !all_readable ==> (result matches Err(Stop::Error(StateError::Trie(error)))
                && exists|j: int|
                0 <= j < outputs@.len() && ledger.asset(
                    #[trigger] asset_address(hash, j, ledger.shard_id),
                ) == Err::<Option<AssetView>, _>(error) && (forall|i: int|
                    0 <= i < j ==> #[trigger] readable(i)))
        }),
{
    let spent = inputs@ + burns@;
    let all = transfer_spendings(inputs@, burns@, orders@);
    let result = applied(
        ledger,
        InnerTransaction::General(
            Transaction::AssetTransfer { hash, burns, inputs, outputs, orders },
        ),
        sender,
        shard_users,
        approvers,
        outcomes,
    );
    let opened = |i: int|
        is_transfer_open(ledger, inputs@, burns@, orders@, sender, approvers, outcomes, i);
    let spendable = |i: int| is_spendable(ledger, spent, i, sender, approvers);
    let readable = |i: int| ledger.asset(asset_address(hash, i, ledger.shard_id)) is Ok;
    lemma_ranges(orders@, inputs@.len(), outputs@.len());
    lemma_transfer_open(ledger, inputs@, burns@, orders@, sender, approvers, outcomes);
    lemma_scripts_each(ledger, all, sender, approvers, outcomes, 0);
    let all_open = forall|i: int| 0 <= i < spent.len() ==> #[trigger] opened(i);
    let scripts = scripts_check(ledger, all, sender, approvers, outcomes, 0);
    if all_open {
        assert forall|i: int| 0 <= i < all.len() implies is_open(
            ledger,
            #[trigger] all[i],
            sender,
            approvers,
            outcomes[i],
        ) by {
            assert(opened(i));
        }
    }
    if scripts is Ok {
        assert forall|i: int| 0 <= i < spent.len() implies #[trigger] opened(i) by {
            assert(is_open(ledger, all[i], sender, approvers, outcomes[i]));
        }
    }
    if inputs_in_range(orders@, inputs@.len()) {
        assert forall|j: int|
            0 <= j < spent.len() && !(#[trigger] opened(j)) && (forall|i: int|
                0 <= i < j ==> #[trigger] opened(i)) implies (result matches Err(stop)
            && is_script_stop(stop, ledger, spent[j], j >= inputs@.len(), outcomes[j])) by {
            assert(!is_open(ledger, all[j], sender, approvers, outcomes[j]));
            assert forall|i: int| 0 <= i < j implies is_open(
                ledger,
                #[trigger] all[i],
                sender,
                approvers,
                outcomes[i],
            ) by {
                assert(opened(i));
            }
        }
        if all_open {
            assert forall|i: int| 0 <= i < inputs@.len() implies ledger.asset(
                named(#[trigger] inputs@[i], ledger.shard_id),
            ) matches Ok(Some(_)) by {
                assert(opened(i));
            }
            assert(are_there(ledger, orders@, inputs@));
            lemma_orders_each(ledger, orders@, inputs@, 0);
            if orders_check(ledger, orders@, inputs@, 0) is Ok && outputs_in_range(
                orders@,
                outputs@.len(),
            ) {
                assert(is_without(ledger, ledger, spent, 0));
                lemma_consume_each(ledger, ledger, spent, sender, approvers, 0);
                assert forall|j: int|
                    0 <= j < spent.len() && !(#[trigger] spendable(j)) && (forall|i: int|
                        0 <= i < j ==> #[trigger] spendable(i)) implies (result matches Err(stop)
                    && is_input_stop(
                    stop,
                    ledger,
                    spent[j],
                    held(ledger, spent, j),
                    sender,
                    approvers,
                )) by {
                    assert(!is_spendable(ledger, spent, j, sender, approvers));
                    assert forall|i: int| 0 <= i < j implies #[trigger] is_spendable(
                        ledger,
                        spent,
                        i,
                        sender,
                        approvers,
                    ) by {
                        assert(spendable(i));
                    }
                }
                let consumed = consume(ledger, spent, sender, approvers, 0);
                if forall|i: int| 0 <= i < spent.len() ==> #[trigger] spendable(i) {
                    assert forall|i: int| 0 <= i < spent.len() implies #[trigger] is_spendable(
                        ledger,
                        spent,
                        i,
                        sender,
                        approvers,
                    ) by {
                        assert(spendable(i));
                    }
                }
                if let Ok(next) = consumed {
                    assert forall|i: int| 0 <= i < spent.len() implies #[trigger] spendable(i) by {
                        assert(is_spendable(ledger, spent, i, sender, approvers));
                    }
                    lemma_after_spending(ledger, next, spent, sender, approvers);
                    let tags = output_order_hashes(orders@, outputs@.len());
                    lemma_produce_each(next, hash, outputs@, tags, 0);
                    if forall|i: int| 0 <= i < outputs@.len() ==> #[trigger] readable(i) {
                        assert forall|i: int| 0 <= i < outputs@.len() implies next.asset(
                            #[trigger] asset_address(hash, i, next.shard_id),
                        ) is Ok by {
                            assert(readable(i));
                        }
                    } else {
                        let j = lemma_find_unreadable(next, hash, outputs@, tags, 0);
                        assert(ledger.asset(asset_address(hash, j, ledger.shard_id)) is Err);
                        assert forall|i: int| 0 <= i < j implies #[trigger] readable(i) by {
                            assert(next.asset(asset_address(hash, i, next.shard_id)) is Ok);
                        }
                    }
                    if produce(next, hash, outputs@, tags, 0) is Ok {
                        assert forall|i: int| 0 <= i < outputs@.len() implies #[trigger] readable(
                            i,
                        ) by {
                            assert(next.asset(asset_address(hash, i, next.shard_id)) is Ok);
                        }
                    }
                }
            }
        }
    }
}

/// Spending what is there does not make anything unreadable, nor readable.
proof fn lemma_after_spending(
    ledger: Ledger,
    after: Ledger,
    inputs: Seq<AssetTransferInput>,
    sender: Address,
    approvers: Seq<Address>,
)
    requires
        is_without(ledger, after, inputs, inputs.len() as int),
        forall|i: int|
            0 <= i < inputs.len() ==> #[trigger] is_spendable(
                ledger,
                inputs,
                i,
                sender,
                approvers,
            ),
    ensures
        forall|a: H256|
            (#[trigger] after.asset(a) is Ok <==> ledger.asset(a) is Ok) && (after.asset(a) is Err
                ==> after.asset(a) == ledger.asset(a)),
{
    assert forall|a: H256|
        (#[trigger] after.asset(a) is Ok <==> ledger.asset(a) is Ok) && (after.asset(a) is Err
            ==> after.asset(a) == ledger.asset(a)) by {
        if named_before(inputs, ledger.shard_id, inputs.len() as int, a) {
            let i = choose|i: int|
                0 <= i < inputs.len() && named(#[trigger] inputs[i], ledger.shard_id) == a;
            assert(is_spendable(ledger, inputs, i, sender, approvers));
        }
    }
}

/// The first address of an output that cannot be read, where there is one.
proof fn lemma_find_unreadable(
    ledger: Ledger,
    hash: H256,
    outputs: Seq<AssetTransferOutput>,
    order_hashes: Seq<Option<H256>>,
    k: int,
) -> (j: int)
    requires
        0 <= k <= outputs.len(),
        produce(ledger, hash, outputs, order_hashes, k) is Err,
    ensures
        k <= j < outputs.len(),
        forall|i: int|
            k <= i < j ==> ledger.asset(#[trigger] asset_address(hash, i, ledger.shard_id)) is Ok,
        ledger.asset(asset_address(hash, j, ledger.shard_id)) matches Err(error) && produce(
            ledger,
            hash,
            outputs,
            order_hashes,
            k,
        ) == Err::<Ledger, _>(unread(error)),
    decreases outputs.len() - k,
{
    let address = asset_address(hash, k, ledger.shard_id);
    if ledger.asset(address) is Err {
        k
    } else {
        let next = ledger.with_asset(address, Some(output_asset(outputs[k], order_hashes[k])));
        let j = lemma_find_unreadable(next, hash, outputs, order_hashes, k + 1);
        assert forall|i: int| k <= i < j implies ledger.asset(
            #[trigger] asset_address(hash, i, ledger.shard_id),
        ) is Ok by {
            if i > k {
                assert(next.asset(asset_address(hash, i, next.shard_id)) is Ok);
            }
        }
        j
    }
}

/// A transfer that succeeds leaves all schemes alone. What its inputs and burns name is gone, what
/// its outputs say lies at the addresses that its hash and their places give, and all other assets
/// are left alone. Where outputs share an address, the last of them is found there.
pub proof fn law_transfer_makes(
    ledger: Ledger,
    hash: H256,
    burns: Vec<AssetTransferInput>,
    inputs: Vec<AssetTransferInput>,
    outputs: Vec<AssetTransferOutput>,
    orders: Vec<OrderOnTransfer>,
    sender: Address,
    shard_users: Seq<Address>,
    approvers: Seq<Address>,
    outcomes: Seq<ScriptOutcome>,
)
    ensures
        ({
            let spent = inputs@ + burns@;
            applied(
                ledger,
                InnerTransaction::General(
                    Transaction::AssetTransfer { hash, burns, inputs, outputs, orders },
                ),
                sender,
                shard_users,
                approvers,
                outcomes,
            ) matches Ok(after) ==> {
                &&& forall|a: H256| #[trigger] after.scheme(a) == ledger.scheme(a)
                &&& forall|a: H256|
                    (forall|i: int|
                        0 <= i < outputs@.len() ==> #[trigger] asset_address(
                            hash,
                            i,
                            ledger.shard_id,
                        ) != a) ==> #[trigger] after.asset(a) == if named_before(
                        spent,
                        ledger.shard_id,
                        spent.len() as int,
                        a,
                    ) {
                        Ok(None)
                    } else {
                        ledger.asset(a)
                    }
                &&& forall|i: int|
                    0 <= i < outputs@.len() && (forall|j: int|
                        i < j < outputs@.len() ==> #[trigger] asset_address(
                            hash,
                            j,
                            ledger.shard_id,
                        ) != asset_address(hash, i, ledger.shard_id)) ==> (after.asset(
                        #[trigger] asset_address(hash, i, ledger.shard_id),
                    ) matches Ok(Some(asset)) && is_made_by(
                        asset,
                        outputs@[i],
                        keeping_order(orders@, i),
                    ))
            }
        }),
{
    let spent = inputs@ + burns@;
    law_transfer(
        ledger,
        hash,
        burns,
        inputs,
        outputs,
        orders,
        sender,
        shard_users,
        approvers,
        outcomes,
    );
    if let Ok(after) = applied(
        ledger,
        InnerTransaction::General(
            Transaction::AssetTransfer { hash, burns, inputs, outputs, orders },
        ),
        sender,
        shard_users,
        approvers,
        outcomes,
    ) {
        assert forall|a: H256| spends(ledger, spent, 0, a) == named_before(
            spent,
            ledger.shard_id,
            spent.len() as int,
            a,
        ) by {
            if spends(ledger, spent, 0, a) {
                let i = choose|i: int|
                    0 <= i < spent.len() && #[trigger] ledger.spent(spent[i]) == a;
                assert(named(spent[i], ledger.shard_id) == a);
            }
            if named_before(spent, ledger.shard_id, spent.len() as int, a) {
                let i = choose|i: int|
                    0 <= i < spent.len() && named(#[trigger] spent[i], ledger.shard_id) == a;
                assert(ledger.spent(spent[i]) == a);
            }
        }
        assert forall|a: H256|
            (forall|i: int|
                0 <= i < outputs@.len() ==> #[trigger] asset_address(hash, i, ledger.shard_id)
                    != a) implies #[trigger] after.asset(a) == if named_before(
            spent,
            ledger.shard_id,
            spent.len() as int,
            a,
        ) {
            Ok(None)
        } else {
            ledger.asset(a)
        } by {
            assert(avoids(hash, ledger.shard_id, 0, outputs@.len() as int, a));
            assert(spends(ledger, spent, 0, a) == named_before(
                spent,
                ledger.shard_id,
                spent.len() as int,
                a,
            ));
        }
        assert forall|i: int|
            0 <= i < outputs@.len() && (forall|j: int|
                i < j < outputs@.len() ==> #[trigger] asset_address(hash, j, ledger.shard_id)
                    != asset_address(hash, i, ledger.shard_id)) implies (after.asset(
            #[trigger] asset_address(hash, i, ledger.shard_id),
        ) matches Ok(Some(asset)) && is_made_by(asset, outputs@[i], keeping_order(orders@, i))) by {
            lemma_last_to_keep(orders@, orders@.len() as int, i);
            assert(avoids(
                hash,
                ledger.shard_id,
                i + 1,
                outputs@.len() as int,
                asset_address(hash, i, ledger.shard_id),
            ));
        }
    }
}

/// An asset is what an output says, under what is left of an order.
pub open spec fn is_made_by(
    asset: AssetView,
    output: AssetTransferOutput,
    order_hash: Option<H256>,
) -> bool {
    &&& asset.asset_type == output.asset_type
    &&& asset.amount == output.amount
    &&& asset.lock_script_hash == output.lock_script_hash
    &&& asset.order_hash == order_hash
    &&& asset.parameters.len() == output.parameters@.len()
    &&& forall|p: int|
        0 <= p < asset.parameters.len() ==> #[trigger] asset.parameters[p]
            == output.parameters@[p]@
}

/// The scheme of an input is there and has no administrator.
pub open spec fn is_unadministered(ledger: Ledger, input: AssetTransferInput) -> bool {
    ledger.scheme(input.prev_out.asset_type) matches Ok(Some(scheme))
        && scheme.administrator is None
}

/// Input `k` can go into a composition, once those before it have.
pub open spec fn can_join(
    ledger: Ledger,
    inputs: Seq<AssetTransferInput>,
    sender: Address,
    approvers: Seq<Address>,
    outcomes: Seq<ScriptOutcome>,
    k: int,
) -> bool {
    &&& is_spendable(ledger, inputs, k, sender, approvers)
    &&& is_unlocked(ledger, inputs[k], None, false, sender, approvers, outcomes[k])
    &&& is_unadministered(ledger, inputs[k])
}

/// Why an input that cannot go into a composition stops the work.
pub open spec fn is_join_stop(
    stop: Stop,
    ledger: Ledger,
    inputs: Seq<AssetTransferInput>,
    sender: Address,
    approvers: Seq<Address>,
    outcomes: Seq<ScriptOutcome>,
    k: int,
) -> bool {
    if !is_spendable(ledger, inputs, k, sender, approvers) {
        is_input_stop(stop, ledger, inputs[k], held(ledger, inputs, k), sender, approvers)
    } else if !is_unlocked(ledger, inputs[k], None, false, sender, approvers, outcomes[k]) {
        is_script_stop(stop, ledger, inputs[k], false, outcomes[k])
    } else {
        stop == refused(TransactionError::CannotComposeCentralizedAsset)
    }
}

proof fn lemma_gather_each(
    ledger: Ledger,
    now: Gathered,
    inputs: Seq<AssetTransferInput>,
    sender: Address,
    approvers: Seq<Address>,
    outcomes: Seq<ScriptOutcome>,
    k: int,
)
    requires
        0 <= k <= inputs.len(),
        is_without(ledger, now.ledger, inputs, k),
    ensures
        ({
            let result = gather(now, inputs, sender, approvers, outcomes, k);
            let sum = tally(claimed(inputs), now.sum, k);
            let all = forall|i: int|
                k <= i < inputs.len() ==> #[trigger] can_join(
                    ledger,
                    inputs,
                    sender,
                    approvers,
                    outcomes,
                    i,
                );
            &&& result matches Ok(end) ==> is_without(
                ledger,
                end.ledger,
                inputs,
                inputs.len() as int,
            ) && sum == Some(end.sum)
            &&& result is Ok <==> all && sum is Some
            &&& all && sum is None ==> result == Err::<Gathered, _>(Stop::OutOfDomain)
            &&& sum is Some ==> forall|j: int|
                k <= j < inputs.len() && !(#[trigger] can_join(
                    ledger,
                    inputs,
                    sender,
                    approvers,
                    outcomes,
                    j,
                )) && (forall|i: int|
                    k <= i < j ==> #[trigger] can_join(
                        ledger,
                        inputs,
                        sender,
                        approvers,
                        outcomes,
                        i,
                    )) ==> (result matches Err(stop) && is_join_stop(
                    stop,
                    ledger,
                    inputs,
                    sender,
                    approvers,
                    outcomes,
                    j,
                ))
        }),
    decreases inputs.len() - k,
{
    if k < inputs.len() {
        let here = now.ledger;
        let input = inputs[k];
        let asset_type = input.prev_out.asset_type;
        let amount = input.prev_out.amount;
        lemma_input_asset(here, input, sender, approvers);
        lemma_script_check(here, input, None, false, sender, approvers, outcomes[k]);
        lemma_without_next(ledger, here, inputs, k);
        assert(here.spent(input) == named(input, here.shard_id));
        assert(here.scheme(asset_type) == ledger.scheme(asset_type));
        assert(claimed(inputs)[k] == (Asset { asset_type, amount }));
        if input_asset(here, input, sender, approvers) is Ok {
            assert(held(ledger, inputs, k) == ledger.asset(named(input, ledger.shard_id)));
            assert(is_spendable(ledger, inputs, k, sender, approvers));
            if can_join(ledger, inputs, sender, approvers, outcomes, k) && amount_in(
                now.sum,
                asset_type,
            ) + amount <= u64::MAX {
                lemma_gather_each(
                    ledger,
                    Gathered {
                        ledger: here.with_asset(named(input, here.shard_id), None),
                        sum: added(now.sum, asset_type, amount),
                    },
                    inputs,
                    sender,
                    approvers,
                    outcomes,
                    k + 1,
                );
            }
        } else {
            assert(!is_spendable(ledger, inputs, k, sender, approvers));
        }
        assert(can_join(ledger, inputs, sender, approvers, outcomes, k) ==> gather(
            now,
            inputs,
            sender,
            approvers,
            outcomes,
            k,
        ) == (if amount_in(now.sum, asset_type) + amount > u64::MAX {
            Err(Stop::OutOfDomain)
        } else {
            gather(
                Gathered {
                    ledger: here.with_asset(named(input, here.shard_id), None),
                    sum: added(now.sum, asset_type, amount),
                },
                inputs,
                sender,
                approvers,
                outcomes,
                k + 1,
            )
        }));
    }
}

/// A composition succeeds exactly where each of its inputs can go into it, their amounts add up to
/// amounts, its sender may mint, its scheme is not there yet, and the address of what it makes can
/// be read. Where an input cannot go into it, the first such input says why.
pub proof fn law_compose_comes_to(
    ledger: Ledger,
    hash: H256,
    metadata: String,
    approver: Option<Address>,
    administrator: Option<Address>,
    inputs: Vec<AssetTransferInput>,
    output: AssetMintOutput,
    sender: Address,
    shard_users: Seq<Address>,
    approvers: Seq<Address>,
    outcomes: Seq<ScriptOutcome>,
)
    ensures
        ({
            let result = applied(
                ledger,
                InnerTransaction::General(
                    Transaction::AssetCompose {
                        hash,
                        metadata,
                        approver,
                        administrator,
                        inputs,
                        output,
                    },
                ),
                sender,
                shard_users,
                approvers,
                outcomes,
            );
            let scheme_read = ledger.scheme(scheme_address(hash, ledger.shard_id));
            let asset_read = ledger.asset(asset_address(hash, 0, ledger.shard_id));
            let may_mint = shard_users.len() == 0 || shard_users.contains(sender);
            let all_join = forall|i: int|
                0 <= i < inputs@.len() ==> #[trigger] can_join(
                    ledger,
                    inputs@,
                    sender,
                    approvers,
                    outcomes,
                    i,
                );
            let sums = forall|t: H256| #[trigger] total(claimed(inputs@), t) <= u64::MAX;
            &&& result is Ok <==> all_join && sums && may_mint && scheme_read == Ok::<
                _,
                TrieError,
            >(None::<SchemeView>) && asset_read is Ok
            &&& forall|j: int|
                sums && 0 <= j < inputs@.len() && !(#[trigger] can_join(
                    ledger,
                    inputs@,
                    sender,
                    approvers,
                    outcomes,
                    j,
                )) && (forall|i: int|
                    0 <= i < j ==> #[trigger] can_join(
                        ledger,
                        inputs@,
                        sender,
                        approvers,
                        outcomes,
                        i,
                    )) ==> (result matches Err(stop) && is_join_stop(
                    stop,
                    ledger,
                    inputs@,
                    sender,
                    approvers,
                    outcomes,
                    j,
                ))
            &&& all_join && !sums ==> result == Err::<Ledger, _>(Stop::OutOfDomain)
            &&& all_join && sums && !may_mint ==> result == Err::<Ledger, _>(
                refused(TransactionError::InsufficientPermission),
            )
            &&& all_join && sums && may_mint ==> match scheme_read {
                Err(error) => result == Err::<Ledger, _>(unread(error)),
                Ok(Some(_)) => result == Err::<Ledger, _>(
                    refused(TransactionError::AssetSchemeDuplicated(hash)),
                ),
                Ok(None) => asset_read matches Err(error) ==> result == Err::<Ledger, _>(
                    unread(error),
                ),
            }
        }),
{
    let start = Gathered { ledger, sum: Seq::empty() };
    assert(is_without(ledger, ledger, inputs@, 0));
    lemma_gather_each(ledger, start, inputs@, sender, approvers, outcomes, 0);
    law_tally(claimed(inputs@));
    if let Ok(end) = gather(start, inputs@, sender, approvers, outcomes, 0) {
        assert forall|i: int| 0 <= i < inputs@.len() implies #[trigger] is_spendable(
            ledger,
            inputs@,
            i,
            sender,
            approvers,
        ) by {
            assert(can_join(ledger, inputs@, sender, approvers, outcomes, i));
        }
        lemma_after_spending(ledger, end.ledger, inputs@, sender, approvers);
        let scheme_at = scheme_address(hash, ledger.shard_id);
        assert(end.ledger.scheme(scheme_at) == ledger.scheme(scheme_at));
        let asset_at = asset_address(hash, 0, ledger.shard_id);
        assert(end.ledger.asset(asset_at) is Ok <==> ledger.asset(asset_at) is Ok);
    }
}

/// Where a decomposition succeeds, its input is unlocked: by the administrator of what was
/// composed, or by a lock script with the hash that the composed asset names and an outcome that
/// unlocks it. Where the scripts had to be run, no other outcome will do.
pub proof fn law_decompose_checks_its_scripts(
    ledger: Ledger,
    hash: H256,
    input: AssetTransferInput,
    outputs: Vec<AssetTransferOutput>,
    sender: Address,
    shard_users: Seq<Address>,
    approvers: Seq<Address>,
    outcomes: Seq<ScriptOutcome>,
)
    ensures
        ({
            let transaction = InnerTransaction::General(
                Transaction::AssetDecompose { hash, input, outputs },
            );
            let result = applied(ledger, transaction, sender, shard_users, approvers, outcomes);
            &&& result is Ok ==> is_unlocked(
                ledger,
                input,
                None,
                false,
                sender,
                approvers,
                outcomes[0],
            )
            &&& asked(ledger, transaction, sender, approvers, 0) is Some
                && !(outcomes[0] is Unlocked) ==> result is Err
        }),
{
    let transaction = InnerTransaction::General(
        Transaction::AssetDecompose { hash, input, outputs },
    );
    lemma_script_check(ledger, input, None, false, sender, approvers, outcomes[0]);
    assert(spendings(transaction)[0].input == input);
}

/// A decomposition succeeds exactly where the scheme of its input is there with a pool, its outputs
/// make up that pool, its input is what it claims and unlocked, and the addresses of its outputs
/// can be read. Where it does not, the first of these that fails says why.
pub proof fn law_decompose_comes_to(
    ledger: Ledger,
    hash: H256,
    input: AssetTransferInput,
    outputs: Vec<AssetTransferOutput>,
    sender: Address,
    shard_users: Seq<Address>,
    approvers: Seq<Address>,
    outcomes: Seq<ScriptOutcome>,
)
    ensures
        ({
            let result = applied(
                ledger,
                InnerTransaction::General(Transaction::AssetDecompose { hash, input, outputs }),
                sender,
                shard_users,
                approvers,
                outcomes,
            );
            let asset_type = input.prev_out.asset_type;
            let kept = ledger.asset(named(input, ledger.shard_id));
            let presentable = is_presentable(ledger, input, kept, sender, approvers);
            let opened = is_unlocked(
                ledger,
                input,
                None,
                false,
                sender,
                approvers,
                outcomes[0],
            );
            let sums = forall|t: H256| #[trigger] output_sum(outputs@, t) <= u64::MAX;
            let all_readable = forall|i: int|
                0 <= i < outputs@.len() ==> ledger.asset(
                    #[trigger] asset_address(hash, i, ledger.shard_id),
                ) is Ok;
            if !has_scheme_form(asset_type) {
                result == Err::<Ledger, _>(
                    refused(TransactionError::AssetSchemeNotFound(asset_type)),
                )
            } else {
                match ledger.scheme(asset_type) {
                    Err(error) => result == Err::<Ledger, _>(unread(error)),
                    Ok(None) => result == Err::<Ledger, _>(
                        refused(TransactionError::AssetSchemeNotFound(asset_type)),
                    ),
                    Ok(Some(scheme)) => {
                        &&& scheme.pool.len() == 0 ==> result == Err::<Ledger, _>(
                            refused(
                                TransactionError::InvalidDecomposedInput {
                                    address: asset_type,
                                    got: 0,
                                },
                            ),
                        )
                        &&& scheme.pool.len() > 0 && !sums ==> result == Err::<Ledger, _>(
                            Stop::OutOfDomain,
                        )
                        &&& result is Ok ==> distinct(scheme.pool)
                        &&& distinct(scheme.pool) && scheme.pool.len() > 0 && sums ==> {
                            &&& result is Ok <==> make_up(outputs@, scheme.pool) && presentable
                                && opened && all_readable
                            &&& forall|j: int|
                                0 <= j < scheme.pool.len() && #[trigger] misses(
                                    outputs@,
                                    scheme.pool,
                                    j,
                                ) && (forall|i: int|
                                    0 <= i < j ==> !(#[trigger] misses(outputs@, scheme.pool, i)))
                                    ==> result == Err::<Ledger, _>(
                                    refused(
                                        TransactionError::InvalidDecomposedOutput {
                                            address: scheme.pool[j].asset_type,
                                            expected: scheme.pool[j].amount,
                                            got: output_sum(
                                                outputs@,
                                                scheme.pool[j].asset_type,
                                            ) as u64,
                                        },
                                    ),
                                )
                            &&& !make_up(outputs@, scheme.pool) && (forall|j: int|
                                0 <= j < scheme.pool.len() ==> !(#[trigger] misses(
                                    outputs@,
                                    scheme.pool,
                                    j,
                                ))) ==> (result matches Err(
                                Stop::Error(
                                    StateError::Transaction(
                                        TransactionError::InvalidDecomposedOutput {
                                            address,
                                            expected,
                                            got,
                                        },
                                    ),
                                ),
                            ) && !occurs(scheme.pool, address) && has_output(outputs@, address)
                                && expected == 0 && got == output_sum(outputs@, address))
                            &&& make_up(outputs@, scheme.pool) && !presentable ==> (
                            result matches Err(stop) && is_input_stop(
                                stop,
                                ledger,
                                input,
                                kept,
                                sender,
                                approvers,
                            ))
                            &&& make_up(outputs@, scheme.pool) && presentable && !opened ==> (
                            result matches Err(stop) && is_script_stop(
                                stop,
                                ledger,
                                input,
                                false,
                                outcomes[0],
                            ))
                            &&& make_up(outputs@, scheme.pool) && presentable && opened
                                && !all_readable ==> (result matches Err(
                                Stop::Error(StateError::Trie(error)),
                            ) && exists|j: int|
                                0 <= j < outputs@.len() && ledger.asset(
                                    #[trigger] asset_address(hash, j, ledger.shard_id),
                                ) == Err::<Option<AssetView>, _>(error) && (forall|i: int|
                                    0 <= i < j ==> ledger.asset(
                                        #[trigger] asset_address(hash, i, ledger.shard_id),
                                    ) is Ok))
                        }
                    },
                }
            }
        }),
{
    let asset_type = input.prev_out.asset_type;
    let at = named(input, ledger.shard_id);
    assert(ledger.spent(input) == at);
    lemma_input_asset(ledger, input, sender, approvers);
    lemma_script_check(ledger, input, None, false, sender, approvers, outcomes[0]);
    assert forall|t: H256| #[trigger] total(made(outputs@), t) == output_sum(outputs@, t) by {
        law_outputs_make_what_they_say(outputs@, t);
    }
    law_tally(made(outputs@));
    let sums = forall|t: H256| #[trigger] output_sum(outputs@, t) <= u64::MAX;
    if sums {
        assert forall|t: H256| #[trigger] total(made(outputs@), t) <= u64::MAX by {
            assert(output_sum(outputs@, t) <= u64::MAX);
        }
    } else {
        let t = choose|t: H256| !(#[trigger] output_sum(outputs@, t) <= u64::MAX);
        assert(total(made(outputs@), t) > u64::MAX);
    }
    if let Ok(Some(scheme)) = ledger.scheme(asset_type) {
        law_no_match_for_repeated_types(scheme.pool, outputs@);
        if distinct(scheme.pool) && sums {
            law_pool_mismatch(scheme.pool, outputs@);
            if is_presentable(ledger, input, ledger.asset(at), sender, approvers) {
                let taken = ledger.with_asset(at, None).with_scheme(asset_type, None);
                let tags = no_order_hashes(outputs@.len());
                lemma_produce_each(taken, hash, outputs@, tags, 0);
                assert forall|i: int| 0 <= i < outputs@.len() implies (taken.asset(
                    #[trigger] asset_address(hash, i, ledger.shard_id),
                ) is Ok <==> ledger.asset(asset_address(hash, i, ledger.shard_id)) is Ok) && (
                taken.asset(asset_address(hash, i, ledger.shard_id)) is Err ==> taken.asset(
                    asset_address(hash, i, ledger.shard_id),
                ) == ledger.asset(asset_address(hash, i, ledger.shard_id))) by {}
                if produce(taken, hash, outputs@, tags, 0) is Err {
                    let j = lemma_find_unreadable(taken, hash, outputs@, tags, 0);
                    assert(ledger.asset(asset_address(hash, j, ledger.shard_id)) is Err);
                }
            }
        }
    }
}

/// A decomposition that succeeds takes the composed asset and its scheme away, and puts what its
/// outputs say, under no order, at the addresses that its hash and their places give. All else is
/// left alone. Where outputs share an address, the last of them is found there.
pub proof fn law_decompose_makes(
    ledger: Ledger,
    hash: H256,
    input: AssetTransferInput,
    outputs: Vec<AssetTransferOutput>,
    sender: Address,
    shard_users: Seq<Address>,
    approvers: Seq<Address>,
    outcomes: Seq<ScriptOutcome>,
)
    ensures
        applied(
            ledger,
            InnerTransaction::General(Transaction::AssetDecompose { hash, input, outputs }),
            sender,
            shard_users,
            approvers,
            outcomes,
        ) matches Ok(after) ==> {
            &&& forall|a: H256| #[trigger]
                after.scheme(a) == if a == input.prev_out.asset_type {
                    Ok(None)
                } else {
                    ledger.scheme(a)
                }
            &&& forall|a: H256|
                (forall|i: int|
                    0 <= i < outputs@.len() ==> #[trigger] asset_address(hash, i, ledger.shard_id)
                        != a) ==> #[trigger] after.asset(a) == if a == named(
                    input,
                    ledger.shard_id,
                ) {
                    Ok(None)
                } else {
                    ledger.asset(a)
                }
            &&& forall|i: int|
                0 <= i < outputs@.len() && (forall|j: int|
                    i < j < outputs@.len() ==> #[trigger] asset_address(hash, j, ledger.shard_id)
                        != asset_address(hash, i, ledger.shard_id)) ==> (after.asset(
                    #[trigger] asset_address(hash, i, ledger.shard_id),
                ) matches Ok(Some(asset)) && is_made_by(asset, outputs@[i], None))
        },
{
    law_decompose(ledger, hash, input, outputs, sender, shard_users, approvers, outcomes);
    if let Ok(after) = applied(
        ledger,
        InnerTransaction::General(Transaction::AssetDecompose { hash, input, outputs }),
        sender,
        shard_users,
        approvers,
        outcomes,
    ) {
        assert forall|a: H256|
            (forall|i: int|
                0 <= i < outputs@.len() ==> #[trigger] asset_address(hash, i, ledger.shard_id)
                    != a) implies #[trigger] after.asset(a) == if a == named(
            input,
            ledger.shard_id,
        ) {
            Ok(None)
        } else {
            ledger.asset(a)
        } by {
            assert(avoids(hash, ledger.shard_id, 0, outputs@.len() as int, a));
        }
        assert forall|i: int|
            0 <= i < outputs@.len() && (forall|j: int|
                i < j < outputs@.len() ==> #[trigger] asset_address(hash, j, ledger.shard_id)
                    != asset_address(hash, i, ledger.shard_id)) implies (after.asset(
            #[trigger] asset_address(hash, i, ledger.shard_id),
        ) matches Ok(Some(asset)) && is_made_by(asset, outputs@[i], None)) by {
            assert(avoids(
                hash,
                ledger.shard_id,
                i + 1,
                outputs@.len() as int,
                asset_address(hash, i, ledger.shard_id),
            ));
        }
    }
}

/// Unwrapping succeeds exactly where its burn is unlocked and is what it claims, by the consent of
/// the sender alone. It then takes that asset away and nothing else. Otherwise the first of the two
/// that fails says why.
pub proof fn law_unwrap_comes_to(
    ledger: Ledger,
    hash: H256,
    burn: AssetTransferInput,
    sender: Address,
    shard_users: Seq<Address>,
    approvers: Seq<Address>,
    outcomes: Seq<ScriptOutcome>,
)
    ensures
        ({
            let result = applied(
                ledger,
                InnerTransaction::General(Transaction::AssetUnwrapCCC { hash, burn }),
                sender,
                shard_users,
                approvers,
                outcomes,
            );
            let at = named(burn, ledger.shard_id);
            let nobody = Seq::<Address>::empty();
            let opened = is_unlocked(ledger, burn, None, true, sender, nobody, outcomes[0]);
            let presentable = is_presentable(ledger, burn, ledger.asset(at), sender, nobody);
            &&& result is Ok <==> opened && presentable
            &&& result matches Ok(after) ==> {
                &&& forall|a: H256| #[trigger] after.scheme(a) == ledger.scheme(a)
                &&& forall|a: H256| #[trigger]
                    after.asset(a) == if a == at {
                        Ok(None)
                    } else {
                        ledger.asset(a)
                    }
            }
            &&& !opened ==> (result matches Err(stop) && is_script_stop(
                stop,
                ledger,
                burn,
                true,
                outcomes[0],
            ))
            &&& opened && !presentable ==> (result matches Err(stop) && is_input_stop(
                stop,
                ledger,
                burn,
                ledger.asset(at),
                sender,
                nobody,
            ))
        }),
{
    let nobody = Seq::<Address>::empty();
    lemma_script_check(ledger, burn, None, true, sender, nobody, outcomes[0]);
    lemma_input_asset(ledger, burn, sender, nobody);
    assert(ledger.spent(burn) == named(burn, ledger.shard_id));
}

/// A change of a scheme succeeds exactly where the administrator of the scheme sent it or is among
/// the approvers. Then the scheme has the metadata, the approver and the administrator of the
/// change, and its amount and pool as before; nothing else changes. Otherwise it is refused, or the
/// scheme could not be read.
pub proof fn law_change_comes_to(
    ledger: Ledger,
    hash: H256,
    asset_type: H256,
    metadata: String,
    approver: Option<Address>,
    administrator: Option<Address>,
    sender: Address,
    shard_users: Seq<Address>,
    approvers: Seq<Address>,
    outcomes: Seq<ScriptOutcome>,
)
    ensures
        ({
            let result = applied(
                ledger,
                InnerTransaction::General(
                    Transaction::AssetSchemeChange {
                        hash,
                        asset_type,
                        metadata,
                        approver,
                        administrator,
                    },
                ),
                sender,
                shard_users,
                approvers,
                outcomes,
            );
            match ledger.scheme(asset_type) {
                Ok(Some(scheme)) if has_scheme_form(asset_type) => {
                    let current = scheme.administrator;
                    if current is Some && (sender == current->0 || approvers.contains(
                        current->0,
                    )) {
                        &&& result matches Ok(after) && {
                            &&& after.scheme(asset_type) matches Ok(Some(changed)) && {
                                &&& changed.metadata == metadata@
                                &&& changed.approver == approver
                                &&& changed.administrator == administrator
                                &&& changed.amount == scheme.amount
                                &&& changed.pool == scheme.pool
                            }
                            &&& forall|a: H256|
                                a != asset_type ==> #[trigger] after.scheme(a) == ledger.scheme(a)
                            &&& forall|a: H256| #[trigger] after.asset(a) == ledger.asset(a)
                        }
                    } else {
                        result == Err::<Ledger, _>(
                            refused(TransactionError::InsufficientPermission),
                        )
                    }
                },
                Err(error) if has_scheme_form(asset_type) => result == Err::<Ledger, _>(
                    unread(error),
                ),
                _ => result == Err::<Ledger, _>(
                    refused(TransactionError::AssetSchemeNotFound(asset_type)),
                ),
            }
        }),
{
}

/// A mint is refused to who is no user of a shard that has users, and where its scheme is there
/// already. Otherwise it succeeds, unless the shard cannot be read. It then leaves a scheme with
/// what it asks for and no pool, all the assets of that scheme under the lock that it asks for, and
/// all else alone.
pub proof fn law_mint_comes_to(
    ledger: Ledger,
    hash: H256,
    metadata: String,
    approver: Option<Address>,
    administrator: Option<Address>,
    output: AssetMintOutput,
    sender: Address,
    shard_users: Seq<Address>,
    approvers: Seq<Address>,
    outcomes: Seq<ScriptOutcome>,
)
    ensures
        ({
            let result = applied(
                ledger,
                InnerTransaction::General(
                    Transaction::AssetMint { hash, metadata, approver, administrator, output },
                ),
                sender,
                shard_users,
                approvers,
                outcomes,
            );
            let scheme_at = scheme_address(hash, ledger.shard_id);
            let asset_at = asset_address(hash, 0, ledger.shard_id);
            if shard_users.len() > 0 && !shard_users.contains(sender) {
                result == Err::<Ledger, _>(refused(TransactionError::InsufficientPermission))
            } else {
                match (ledger.scheme(scheme_at), ledger.asset(asset_at)) {
                    (Err(error), _) => result == Err::<Ledger, _>(unread(error)),
                    (Ok(Some(_)), _) => result == Err::<Ledger, _>(
                        refused(TransactionError::AssetSchemeDuplicated(hash)),
                    ),
                    (Ok(None), Err(error)) => result == Err::<Ledger, _>(unread(error)),
                    (Ok(None), Ok(_)) => result matches Ok(after) && {
                        &&& is_minted(
                            after,
                            scheme_at,
                            asset_at,
                            metadata@,
                            approver,
                            administrator,
                            output,
                        )
                        &&& after.scheme(scheme_at) matches Ok(Some(scheme)) && scheme.pool.len()
                            == 0
                        &&& forall|a: H256|
                            a != scheme_at ==> #[trigger] after.scheme(a) == ledger.scheme(a)
                        &&& forall|a: H256|
                            a != asset_at ==> #[trigger] after.asset(a) == ledger.asset(a)
                    },
                }
            }
        }),
{
}

/// A scheme and all of its assets are there as a mint or a composition asks for them. Without an
/// amount there is as much as there can be.
pub open spec fn is_minted(
    ledger: Ledger,
    scheme_at: H256,
    asset_at: H256,
    metadata: Seq<char>,
    approver: Option<Address>,
    administrator: Option<Address>,
    output: AssetMintOutput,
) -> bool {
    let amount = if output.amount is Some {
        output.amount->0
    } else {
        0xffff_ffff_ffff_ffffu64
    };
    match (ledger.scheme(scheme_at), ledger.asset(asset_at)) {
        (Ok(Some(scheme)), Ok(Some(asset))) => {
            &&& scheme.metadata == metadata
            &&& scheme.amount == amount
            &&& scheme.approver == approver
            &&& scheme.administrator == administrator
            &&& asset.asset_type == scheme_at
            &&& asset.amount == amount
            &&& asset.lock_script_hash == output.lock_script_hash
            &&& asset.order_hash is None
            &&& asset.parameters.len() == output.parameters@.len()
            &&& forall|p: int|
                0 <= p < asset.parameters.len() ==> #[trigger] asset.parameters[p]
                    == output.parameters@[p]@
        },
        _ => false,
    }
}

/// A composition that succeeds takes away what its inputs name, and mints a scheme whose pool holds
/// as much of each type as they claim, with all the assets of that scheme. All else is left alone.
pub proof fn law_compose_makes(
    ledger: Ledger,
    hash: H256,
    metadata: String,
    approver: Option<Address>,
    administrator: Option<Address>,
    inputs: Vec<AssetTransferInput>,
    output: AssetMintOutput,
    sender: Address,
    shard_users: Seq<Address>,
    approvers: Seq<Address>,
    outcomes: Seq<ScriptOutcome>,
)
    ensures
        ({
            let scheme_at = scheme_address(hash, ledger.shard_id);
            let asset_at = asset_address(hash, 0, ledger.shard_id);
            applied(
                ledger,
                InnerTransaction::General(
                    Transaction::AssetCompose {
                        hash,
                        metadata,
                        approver,
                        administrator,
                        inputs,
                        output,
                    },
                ),
                sender,
                shard_users,
                approvers,
                outcomes,
            ) matches Ok(after) ==> {
                &&& is_minted(
                    after,
                    scheme_at,
                    asset_at,
                    metadata@,
                    approver,
                    administrator,
                    output,
                )
                &&& after.scheme(scheme_at) matches Ok(Some(scheme)) && distinct(scheme.pool) && (
                forall|t: H256| #[trigger] total(scheme.pool, t) == total(claimed(inputs@), t)) && (
                forall|t: H256| #[trigger] occurs(scheme.pool, t) == occurs(claimed(inputs@), t))
                &&& forall|a: H256|
                    a != scheme_at ==> #[trigger] after.scheme(a) == ledger.scheme(a)
                &&& forall|a: H256|
                    a != asset_at ==> #[trigger] after.asset(a) == if named_before(
                        inputs@,
                        ledger.shard_id,
                        inputs@.len() as int,
                        a,
                    ) {
                        Ok(None)
                    } else {
                        ledger.asset(a)
                    }
            }
        }),
{
    let asset_at = asset_address(hash, 0, ledger.shard_id);
    law_compose(
        ledger,
        hash,
        metadata,
        approver,
        administrator,
        inputs,
        output,
        sender,
        shard_users,
        approvers,
        outcomes,
    );
    if let Ok(after) = applied(
        ledger,
        InnerTransaction::General(
            Transaction::AssetCompose { hash, metadata, approver, administrator, inputs, output },
        ),
        sender,
        shard_users,
        approvers,
        outcomes,
    ) {
        assert forall|a: H256| a != asset_at implies #[trigger] after.asset(a) == if named_before(
            inputs@,
            ledger.shard_id,
            inputs@.len() as int,
            a,
        ) {
            Ok(None)
        } else {
            ledger.asset(a)
        } by {
            if spends(ledger, inputs@, 0, a) {
                let i = choose|i: int|
                    0 <= i < inputs@.len() && #[trigger] ledger.spent(inputs@[i]) == a;
                assert(named(inputs@[i], ledger.shard_id) == a);
            }
            if named_before(inputs@, ledger.shard_id, inputs@.len() as int, a) {
                let i = choose|i: int|
                    0 <= i < inputs@.len() && named(#[trigger] inputs@[i], ledger.shard_id) == a;
                assert(ledger.spent(inputs@[i]) == a);
            }
        }
    }
}

/// Wrapping fails only where the shard cannot be read. It leaves an asset of the amount wrapped
/// under the lock that it asks for, of the type of wrapped native coin. Where that type has no
/// scheme yet, it gets one, with as much as there can be, nobody in charge and no pool. All else is
/// left alone.
pub proof fn law_wrap_comes_to(
    ledger: Ledger,
    parcel_hash: H256,
    output: AssetWrapCCCOutput,
    sender: Address,
    shard_users: Seq<Address>,
    approvers: Seq<Address>,
    outcomes: Seq<ScriptOutcome>,
)
    ensures
        ({
            let result = applied(
                ledger,
                InnerTransaction::AssetWrapCCC { parcel_hash, output },
                sender,
                shard_users,
                approvers,
                outcomes,
            );
            let scheme_at = zero_suffix_address(ledger.shard_id);
            let asset_at = asset_address(parcel_hash, 0, ledger.shard_id);
            match (ledger.scheme(scheme_at), ledger.asset(asset_at)) {
                (Err(error), _) => result == Err::<Ledger, _>(unread(error)),
                (Ok(_), Err(error)) => result == Err::<Ledger, _>(unread(error)),
                (Ok(before), Ok(_)) => result matches Ok(after) && {
                    &&& after.asset(asset_at) matches Ok(Some(asset)) && {
                        &&& asset.asset_type == scheme_at
                        &&& asset.amount == output.amount
                        &&& asset.lock_script_hash == output.lock_script_hash
                        &&& asset.order_hash is None
                        &&& asset.parameters.len() == output.parameters@.len()
                        &&& forall|p: int|
                            0 <= p < asset.parameters.len() ==> #[trigger] asset.parameters[p]
                                == output.parameters@[p]@
                    }
                    &&& after.scheme(scheme_at) matches Ok(Some(scheme)) && if before is Some {
                        scheme == before->0
                    } else {
                        &&& scheme.amount == 0xffff_ffff_ffff_ffffu64
                        &&& scheme.approver is None
                        &&& scheme.administrator is None
                        &&& scheme.pool.len() == 0
                        &&& describes_wrapped_coin(scheme.metadata, ledger.shard_id)
                    }
                    &&& forall|a: H256|
                        a != scheme_at ==> #[trigger] after.scheme(a) == ledger.scheme(a)
                    &&& forall|a: H256|
                        a != asset_at ==> #[trigger] after.asset(a) == ledger.asset(a)
                },
            }
        }),
{
    law_wrapped_metadata(ledger.shard_id);
}

} // verus!
