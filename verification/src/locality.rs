//! What a transaction reads and writes, and what of the scripts it rests on.

use crate::address::{
    asset_address, scheme_address, zero_suffix_address, AssetSchemeAddress, OwnedAssetAddress,
};
use crate::error::Stop;
use crate::hash::{Address, ShardId, H256};
use crate::laws::{
    avoids, law_compose, law_decompose, law_mint, law_scheme_change, law_transfer, law_unwrap,
    law_wrap, spends,
};
use crate::ledger::{
    all_below, applied, asked, consume, effective_approvers, gather, input_asset, inputs_in_range,
    no_order_hashes, orders_check, origin_count, output_asset, output_order_hashes, produce,
    script_check, script_need, scripts_check, spendings, Gathered, Ledger, Spending,
};
use crate::pool::added;
use crate::script::{unlocked, ScriptOutcome};
use crate::transaction::{
    hash_of, AssetTransferInput, AssetTransferOutput, InnerTransaction, OrderOnTransfer,
    Transaction,
};
use vstd::prelude::*;

verus! {

/// The scripts of a transfer rest on those outcomes only that are asked for.
proof fn lemma_scripts_check_outcomes(
    ledger: Ledger,
    spendings: Seq<Spending>,
    sender: Address,
    approvers: Seq<Address>,
    one: Seq<ScriptOutcome>,
    other: Seq<ScriptOutcome>,
    k: int,
)
    requires
        0 <= k <= spendings.len(),
        forall|i: int|
            0 <= i < spendings.len() ==> (script_need(
                ledger,
                (#[trigger] spendings[i]).input,
                spendings[i].order,
                spendings[i].burn,
                sender,
                approvers,
            ) matches Ok(Some(_)) ==> one[i] == other[i]),
    ensures
        scripts_check(ledger, spendings, sender, approvers, one, k) == scripts_check(
            ledger,
            spendings,
            sender,
            approvers,
            other,
            k,
        ),
    decreases spendings.len() - k,
{
    if k < spendings.len() {
        assert(spendings[k] == spendings[k]);
        lemma_scripts_check_outcomes(ledger, spendings, sender, approvers, one, other, k + 1);
    }
}

/// `later` is `ledger` with some assets taken away.
spec fn is_thinned(ledger: Ledger, later: Ledger) -> bool {
    &&& later.shard_id == ledger.shard_id
    &&& later.trie == ledger.trie
    &&& later.overlay.schemes == ledger.overlay.schemes
    &&& forall|a: H256| #[trigger]
        later.asset(a) == ledger.asset(a) || later.asset(a) matches Ok(None)
}

/// The scripts of a composition rest on those outcomes only that are asked for.
proof fn lemma_gather_outcomes(
    ledger: Ledger,
    gathered: Gathered,
    inputs: Seq<AssetTransferInput>,
    sender: Address,
    approvers: Seq<Address>,
    one: Seq<ScriptOutcome>,
    other: Seq<ScriptOutcome>,
    k: int,
)
    requires
        0 <= k <= inputs.len(),
        is_thinned(ledger, gathered.ledger),
        forall|i: int|
            0 <= i < inputs.len() ==> (script_need(
                ledger,
                #[trigger] inputs[i],
                None,
                false,
                sender,
                approvers,
            ) matches Ok(Some(_)) ==> one[i] == other[i]),
    ensures
        gather(gathered, inputs, sender, approvers, one, k) == gather(
            gathered,
            inputs,
            sender,
            approvers,
            other,
            k,
        ),
    decreases inputs.len() - k,
{
    if k < inputs.len() {
        let now = gathered.ledger;
        let input = inputs[k];
        if input_asset(now, input, sender, approvers) is Ok {
            assert(now.asset(now.spent(input)) == ledger.asset(now.spent(input)));
            let next = Gathered {
                ledger: now.with_asset(now.spent(input), None),
                sum: added(gathered.sum, input.prev_out.asset_type, input.prev_out.amount),
            };
            assert forall|a: H256| #[trigger]
                next.ledger.asset(a) == ledger.asset(a) || next.ledger.asset(a) matches Ok(None) by {
                assert(now.asset(a) == ledger.asset(a) || now.asset(a) matches Ok(None));
            }
            lemma_gather_outcomes(
                ledger,
                next,
                inputs,
                sender,
                approvers,
                one,
                other,
                k + 1,
            );
        }
    }
}

/// What a transaction makes of a ledger rests on the outcomes of those scripts only that have to
/// be run. The others may hold anything.
pub proof fn law_only_asked_outcomes_count(
    ledger: Ledger,
    transaction: InnerTransaction,
    sender: Address,
    shard_users: Seq<Address>,
    approvers: Seq<Address>,
    one: Seq<ScriptOutcome>,
    other: Seq<ScriptOutcome>,
)
    requires
        forall|k: int|
            0 <= k < spendings(transaction).len() ==> (#[trigger] asked(
                ledger,
                transaction,
                sender,
                approvers,
                k,
            ) is Some ==> one[k] == other[k]),
    ensures
        applied(ledger, transaction, sender, shard_users, approvers, one) == applied(
            ledger,
            transaction,
            sender,
            shard_users,
            approvers,
            other,
        ),
{
    let all = spendings(transaction);
    match transaction {
        InnerTransaction::General(
            Transaction::AssetTransfer { burns, inputs, orders, .. },
        ) => {
            if inputs_in_range(orders@, inputs@.len()) {
                assert forall|i: int| 0 <= i < all.len() implies (script_need(
                    ledger,
                    (#[trigger] all[i]).input,
                    all[i].order,
                    all[i].burn,
                    sender,
                    approvers,
                ) matches Ok(Some(_)) ==> one[i] == other[i]) by {
                    assert(asked(ledger, transaction, sender, approvers, i) is Some ==> one[i]
                        == other[i]);
                }
                lemma_scripts_check_outcomes(ledger, all, sender, approvers, one, other, 0);
            }
        },
        InnerTransaction::General(Transaction::AssetCompose { inputs, .. }) => {
            assert forall|i: int| 0 <= i < inputs@.len() implies (script_need(
                ledger,
                #[trigger] inputs@[i],
                None,
                false,
                sender,
                approvers,
            ) matches Ok(Some(_)) ==> one[i] == other[i]) by {
                assert(asked(ledger, transaction, sender, approvers, i) is Some ==> one[i]
                    == other[i]);
                assert(all[i].input == inputs@[i]);
            }
            lemma_gather_outcomes(
                ledger,
                Gathered { ledger, sum: Seq::empty() },
                inputs@,
                sender,
                approvers,
                one,
                other,
                0,
            );
        },
        InnerTransaction::General(Transaction::AssetDecompose { input, .. }) => {
            assert(all[0].input == input);
            assert(asked(ledger, transaction, sender, approvers, 0) is Some ==> one[0] == other[0]);
        },
        InnerTransaction::General(Transaction::AssetUnwrapCCC { burn, .. }) => {
            assert(all[0].input == burn);
            assert(asked(ledger, transaction, sender, approvers, 0) is Some ==> one[0] == other[0]);
        },
        _ => {},
    }
}

proof fn lemma_scripts_check_stops(
    ledger: Ledger,
    spendings: Seq<Spending>,
    sender: Address,
    approvers: Seq<Address>,
    one: Seq<ScriptOutcome>,
    other: Seq<ScriptOutcome>,
    last: int,
    k: int,
)
    requires
        0 <= k <= last < spendings.len(),
        forall|i: int| 0 <= i <= last ==> one[i] == #[trigger] other[i],
        script_check(
            ledger,
            spendings[last].input,
            spendings[last].order,
            spendings[last].burn,
            sender,
            approvers,
            one[last],
        ) is Err,
    ensures
        scripts_check(ledger, spendings, sender, approvers, one, k) == scripts_check(
            ledger,
            spendings,
            sender,
            approvers,
            other,
            k,
        ),
    decreases last - k,
{
    assert(one[k] == other[k]);
    if k < last {
        lemma_scripts_check_stops(
            ledger,
            spendings,
            sender,
            approvers,
            one,
            other,
            last,
            k + 1,
        );
    }
}

proof fn lemma_gather_stops(
    ledger: Ledger,
    gathered: Gathered,
    inputs: Seq<AssetTransferInput>,
    sender: Address,
    approvers: Seq<Address>,
    one: Seq<ScriptOutcome>,
    other: Seq<ScriptOutcome>,
    last: int,
    k: int,
)
    requires
        0 <= k <= last < inputs.len(),
        is_thinned(ledger, gathered.ledger),
        forall|i: int| 0 <= i <= last ==> one[i] == #[trigger] other[i],
        script_check(ledger, inputs[last], None, false, sender, approvers, one[last]) is Err,
    ensures
        gather(gathered, inputs, sender, approvers, one, k) == gather(
            gathered,
            inputs,
            sender,
            approvers,
            other,
            k,
        ),
    decreases last - k,
{
    let now = gathered.ledger;
    let input = inputs[k];
    assert(one[k] == other[k]);
    if input_asset(now, input, sender, approvers) is Ok {
        assert(now.asset(now.spent(input)) == ledger.asset(now.spent(input)));
        if k < last {
            let next = Gathered {
                ledger: now.with_asset(now.spent(input), None),
                sum: added(gathered.sum, input.prev_out.asset_type, input.prev_out.amount),
            };
            assert forall|a: H256| #[trigger]
                next.ledger.asset(a) == ledger.asset(a) || next.ledger.asset(a) matches Ok(
                None,
            ) by {
                assert(now.asset(a) == ledger.asset(a) || now.asset(a) matches Ok(None));
            }
            lemma_gather_stops(
                ledger,
                next,
                inputs,
                sender,
                approvers,
                one,
                other,
                last,
                k + 1,
            );
        }
    }
}

/// Once an outcome that is asked for does not let its input be spent, the outcomes after it may
/// hold anything. So the machine can stop there.
pub proof fn law_first_failure_decides(
    ledger: Ledger,
    transaction: InnerTransaction,
    sender: Address,
    shard_users: Seq<Address>,
    approvers: Seq<Address>,
    one: Seq<ScriptOutcome>,
    other: Seq<ScriptOutcome>,
    last: int,
)
    requires
        0 <= last < spendings(transaction).len(),
        forall|i: int| 0 <= i <= last ==> one[i] == #[trigger] other[i],
        asked(ledger, transaction, sender, approvers, last) is Some,
        unlocked(
            ledger.spent(spendings(transaction)[last].input),
            one[last],
            spendings(transaction)[last].burn,
        ) is Err,
    ensures
        applied(ledger, transaction, sender, shard_users, approvers, one) == applied(
            ledger,
            transaction,
            sender,
            shard_users,
            approvers,
            other,
        ),
{
    let all = spendings(transaction);
    match transaction {
        InnerTransaction::General(Transaction::AssetTransfer { .. }) => {
            lemma_scripts_check_stops(ledger, all, sender, approvers, one, other, last, 0);
        },
        InnerTransaction::General(Transaction::AssetCompose { inputs, .. }) => {
            assert(all[last].input == inputs@[last]);
            lemma_gather_stops(
                ledger,
                Gathered { ledger, sum: Seq::empty() },
                inputs@,
                sender,
                approvers,
                one,
                other,
                last,
                0,
            );
        },
        _ => {
            assert(one[0] == other[0]);
        },
    }
}

/// How many assets a transaction makes.
pub open spec fn made_count(transaction: InnerTransaction) -> nat {
    match transaction {
        InnerTransaction::General(Transaction::AssetMint { .. }) => 1,
        InnerTransaction::General(Transaction::AssetTransfer { outputs, .. }) => outputs@.len(),
        InnerTransaction::General(Transaction::AssetSchemeChange { .. }) => 0,
        InnerTransaction::General(Transaction::AssetCompose { .. }) => 1,
        InnerTransaction::General(Transaction::AssetDecompose { outputs, .. }) => outputs@.len(),
        InnerTransaction::General(Transaction::AssetUnwrapCCC { .. }) => 0,
        InnerTransaction::AssetWrapCCC { .. } => 1,
    }
}

/// The scheme that a transaction is about, besides those of what it spends.
pub open spec fn own_scheme(transaction: InnerTransaction, shard_id: ShardId) -> Option<H256> {
    match transaction {
        InnerTransaction::General(Transaction::AssetMint { hash, .. }) => Some(
            scheme_address(hash, shard_id),
        ),
        InnerTransaction::General(Transaction::AssetSchemeChange { asset_type, .. }) => Some(
            asset_type,
        ),
        InnerTransaction::General(Transaction::AssetCompose { hash, .. }) => Some(
            scheme_address(hash, shard_id),
        ),
        InnerTransaction::AssetWrapCCC { .. } => Some(zero_suffix_address(shard_id)),
        _ => None,
    }
}

/// A transaction has to do with the scheme at `address`.
pub open spec fn touches_scheme(
    transaction: InnerTransaction,
    shard_id: ShardId,
    address: H256,
) -> bool {
    ||| own_scheme(transaction, shard_id) == Some(address)
    ||| exists|i: int|
        0 <= i < spendings(transaction).len() && (#[trigger] spendings(
            transaction,
        )[i]).input.prev_out.asset_type == address
}

/// A transaction has to do with the asset at `address`.
pub open spec fn touches_asset(
    transaction: InnerTransaction,
    shard_id: ShardId,
    address: H256,
) -> bool {
    ||| exists|i: int|
        0 <= i < spendings(transaction).len() && spent_at(
            (#[trigger] spendings(transaction)[i]).input,
            shard_id,
        ) == address
    ||| exists|i: int|
        0 <= i < made_count(transaction) && #[trigger] asset_address(
            hash_of(transaction),
            i,
            shard_id,
        ) == address
}

/// The address of the asset that an input spends.
pub open spec fn spent_at(input: AssetTransferInput, shard_id: ShardId) -> H256 {
    asset_address(input.prev_out.transaction_hash, input.prev_out.index as int, shard_id)
}

/// Two ledgers with the same changes, whose tries have the same leaves where `schemes` and
/// `assets` hold.
pub open spec fn alike(
    one: Ledger,
    other: Ledger,
    schemes: spec_fn(H256) -> bool,
    assets: spec_fn(H256) -> bool,
) -> bool {
    &&& one.shard_id == other.shard_id
    &&& one.overlay == other.overlay
    &&& forall|a: H256| schemes(a) ==> #[trigger] one.trie.scheme(a) == other.trie.scheme(a)
    &&& forall|a: H256| assets(a) ==> #[trigger] one.trie.asset(a) == other.trie.asset(a)
}

/// Two steps came to the same: they stopped for the same reason, or made the same changes.
pub open spec fn same_end(one: Result<Ledger, Stop>, other: Result<Ledger, Stop>) -> bool {
    match (one, other) {
        (Ok(l), Ok(m)) => l.overlay == m.overlay,
        (Err(s), Err(t)) => s == t,
        _ => false,
    }
}

/// `schemes` and `assets` hold of what the inputs name.
spec fn covers(
    inputs: Seq<AssetTransferInput>,
    shard_id: ShardId,
    schemes: spec_fn(H256) -> bool,
    assets: spec_fn(H256) -> bool,
) -> bool {
    forall|i: int|
        0 <= i < inputs.len() ==> schemes((#[trigger] inputs[i]).prev_out.asset_type) && assets(
            spent_at(inputs[i], shard_id),
        )
}

proof fn lemma_alike_input(
    one: Ledger,
    other: Ledger,
    schemes: spec_fn(H256) -> bool,
    assets: spec_fn(H256) -> bool,
    input: AssetTransferInput,
    order: Option<H256>,
    burn: bool,
    sender: Address,
    approvers: Seq<Address>,
)
    requires
        alike(one, other, schemes, assets),
        schemes(input.prev_out.asset_type),
        assets(spent_at(input, one.shard_id)),
    ensures
        one.spent(input) == other.spent(input),
        one.asset(one.spent(input)) == other.asset(one.spent(input)),
        one.scheme(input.prev_out.asset_type) == other.scheme(input.prev_out.asset_type),
        input_asset(one, input, sender, approvers) == input_asset(other, input, sender, approvers),
        script_need(one, input, order, burn, sender, approvers) == script_need(
            other,
            input,
            order,
            burn,
            sender,
            approvers,
        ),
{
    assert(one.trie.asset(one.spent(input)) == other.trie.asset(one.spent(input)));
    assert(one.trie.scheme(input.prev_out.asset_type) == other.trie.scheme(
        input.prev_out.asset_type,
    ));
}

proof fn lemma_alike_scripts(
    one: Ledger,
    other: Ledger,
    schemes: spec_fn(H256) -> bool,
    assets: spec_fn(H256) -> bool,
    all: Seq<Spending>,
    sender: Address,
    approvers: Seq<Address>,
    outcomes: Seq<ScriptOutcome>,
    k: int,
)
    requires
        alike(one, other, schemes, assets),
        forall|i: int|
            0 <= i < all.len() ==> schemes((#[trigger] all[i]).input.prev_out.asset_type) && assets(
                spent_at(all[i].input, one.shard_id),
            ),
        0 <= k <= all.len(),
    ensures
        scripts_check(one, all, sender, approvers, outcomes, k) == scripts_check(
            other,
            all,
            sender,
            approvers,
            outcomes,
            k,
        ),
    decreases all.len() - k,
{
    if k < all.len() {
        assert(schemes(all[k].input.prev_out.asset_type));
        lemma_alike_input(
            one,
            other,
            schemes,
            assets,
            all[k].input,
            all[k].order,
            all[k].burn,
            sender,
            approvers,
        );
        lemma_alike_scripts(
            one,
            other,
            schemes,
            assets,
            all,
            sender,
            approvers,
            outcomes,
            k + 1,
        );
    }
}

proof fn lemma_alike_origin_count(
    one: Ledger,
    other: Ledger,
    schemes: spec_fn(H256) -> bool,
    assets: spec_fn(H256) -> bool,
    order_tx: OrderOnTransfer,
    inputs: Seq<AssetTransferInput>,
    count: int,
    k: int,
)
    requires
        alike(one, other, schemes, assets),
        covers(inputs, one.shard_id, schemes, assets),
        all_below(order_tx.input_indices@, inputs.len()),
        0 <= k,
    ensures
        origin_count(one, order_tx, inputs, count, k) == origin_count(
            other,
            order_tx,
            inputs,
            count,
            k,
        ),
    decreases order_tx.input_indices@.len() - k,
{
    if k < order_tx.input_indices@.len() {
        let at = order_tx.input_indices@[k];
        assert(schemes(inputs[at as int].prev_out.asset_type));
        let address = one.spent(inputs[at as int]);
        assert(one.trie.asset(address) == other.trie.asset(address));
        lemma_alike_origin_count(one, other, schemes, assets, order_tx, inputs, count, k + 1);
        lemma_alike_origin_count(one, other, schemes, assets, order_tx, inputs, count + 1, k + 1);
    }
}

proof fn lemma_alike_orders(
    one: Ledger,
    other: Ledger,
    schemes: spec_fn(H256) -> bool,
    assets: spec_fn(H256) -> bool,
    orders: Seq<OrderOnTransfer>,
    inputs: Seq<AssetTransferInput>,
    k: int,
)
    requires
        alike(one, other, schemes, assets),
        covers(inputs, one.shard_id, schemes, assets),
        inputs_in_range(orders, inputs.len()),
        0 <= k,
    ensures
        orders_check(one, orders, inputs, k) == orders_check(other, orders, inputs, k),
    decreases orders.len() - k,
{
    if k < orders.len() {
        lemma_alike_origin_count(one, other, schemes, assets, orders[k], inputs, 0, 0);
        lemma_alike_orders(one, other, schemes, assets, orders, inputs, k + 1);
    }
}

proof fn lemma_alike_consume(
    one: Ledger,
    other: Ledger,
    schemes: spec_fn(H256) -> bool,
    assets: spec_fn(H256) -> bool,
    inputs: Seq<AssetTransferInput>,
    sender: Address,
    approvers: Seq<Address>,
    k: int,
)
    requires
        alike(one, other, schemes, assets),
        covers(inputs, one.shard_id, schemes, assets),
        0 <= k <= inputs.len(),
    ensures
        match (
            consume(one, inputs, sender, approvers, k),
            consume(other, inputs, sender, approvers, k),
        ) {
            (Ok(l), Ok(m)) => alike(l, m, schemes, assets) && l.shard_id == one.shard_id,
            (Err(s), Err(t)) => s == t,
            _ => false,
        },
    decreases inputs.len() - k,
{
    if k < inputs.len() {
        assert(schemes(inputs[k].prev_out.asset_type));
        lemma_alike_input(
            one,
            other,
            schemes,
            assets,
            inputs[k],
            None,
            false,
            sender,
            approvers,
        );
        lemma_alike_consume(
            one.with_asset(one.spent(inputs[k]), None),
            other.with_asset(other.spent(inputs[k]), None),
            schemes,
            assets,
            inputs,
            sender,
            approvers,
            k + 1,
        );
    }
}

proof fn lemma_alike_produce(
    one: Ledger,
    other: Ledger,
    schemes: spec_fn(H256) -> bool,
    assets: spec_fn(H256) -> bool,
    hash: H256,
    outputs: Seq<AssetTransferOutput>,
    order_hashes: Seq<Option<H256>>,
    k: int,
)
    requires
        alike(one, other, schemes, assets),
        forall|i: int|
            0 <= i < outputs.len() ==> assets(#[trigger] asset_address(hash, i, one.shard_id)),
        0 <= k <= outputs.len(),
    ensures
        same_end(
            produce(one, hash, outputs, order_hashes, k),
            produce(other, hash, outputs, order_hashes, k),
        ),
    decreases outputs.len() - k,
{
    if k < outputs.len() {
        let address = asset_address(hash, k, one.shard_id);
        assert(assets(address));
        assert(one.trie.asset(address) == other.trie.asset(address));
        let made = Some(output_asset(outputs[k], order_hashes[k]));
        lemma_alike_produce(
            one.with_asset(address, made),
            other.with_asset(address, made),
            schemes,
            assets,
            hash,
            outputs,
            order_hashes,
            k + 1,
        );
    }
}

proof fn lemma_alike_gather(
    one: Gathered,
    other: Gathered,
    schemes: spec_fn(H256) -> bool,
    assets: spec_fn(H256) -> bool,
    inputs: Seq<AssetTransferInput>,
    sender: Address,
    approvers: Seq<Address>,
    outcomes: Seq<ScriptOutcome>,
    k: int,
)
    requires
        alike(one.ledger, other.ledger, schemes, assets),
        one.sum == other.sum,
        covers(inputs, one.ledger.shard_id, schemes, assets),
        0 <= k <= inputs.len(),
    ensures
        match (
            gather(one, inputs, sender, approvers, outcomes, k),
            gather(other, inputs, sender, approvers, outcomes, k),
        ) {
            (Ok(g), Ok(h)) => {
                &&& alike(g.ledger, h.ledger, schemes, assets)
                &&& g.ledger.shard_id == one.ledger.shard_id
                &&& g.sum == h.sum
            },
            (Err(s), Err(t)) => s == t,
            _ => false,
        },
    decreases inputs.len() - k,
{
    if k < inputs.len() {
        assert(schemes(inputs[k].prev_out.asset_type));
        lemma_alike_input(
            one.ledger,
            other.ledger,
            schemes,
            assets,
            inputs[k],
            None,
            false,
            sender,
            approvers,
        );
        let sum = added(one.sum, inputs[k].prev_out.asset_type, inputs[k].prev_out.amount);
        lemma_alike_gather(
            Gathered {
                ledger: one.ledger.with_asset(one.ledger.spent(inputs[k]), None),
                sum,
            },
            Gathered {
                ledger: other.ledger.with_asset(other.ledger.spent(inputs[k]), None),
                sum,
            },
            schemes,
            assets,
            inputs,
            sender,
            approvers,
            outcomes,
            k + 1,
        );
    }
}

/// What a transaction comes to, and what has to be run for it, rests on the leaves of the trie only
/// that it has to do with. So a trie that was read at those addresses does in place of the whole
/// trie.
pub proof fn law_only_touched_leaves_count(
    one: Ledger,
    other: Ledger,
    transaction: InnerTransaction,
    sender: Address,
    shard_users: Seq<Address>,
    approvers: Seq<Address>,
    outcomes: Seq<ScriptOutcome>,
)
    requires
        one.shard_id == other.shard_id,
        one.overlay == other.overlay,
        forall|a: H256|
            touches_scheme(transaction, one.shard_id, a) ==> #[trigger] one.trie.scheme(a)
                == other.trie.scheme(a),
        forall|a: H256|
            touches_asset(transaction, one.shard_id, a) ==> #[trigger] one.trie.asset(a)
                == other.trie.asset(a),
    ensures
        same_end(
            applied(one, transaction, sender, shard_users, approvers, outcomes),
            applied(other, transaction, sender, shard_users, approvers, outcomes),
        ),
        forall|k: int|
            0 <= k < spendings(transaction).len() ==> #[trigger] asked(
                one,
                transaction,
                sender,
                approvers,
                k,
            ) == asked(other, transaction, sender, approvers, k),
{
    let shard_id = one.shard_id;
    let schemes = |a: H256| touches_scheme(transaction, shard_id, a);
    let assets = |a: H256| touches_asset(transaction, shard_id, a);
    let all = spendings(transaction);
    assert(alike(one, other, schemes, assets));
    assert forall|i: int| 0 <= i < all.len() implies schemes(
        (#[trigger] all[i]).input.prev_out.asset_type,
    ) && assets(spent_at(all[i].input, shard_id)) by {}
    assert forall|i: int| 0 <= i < made_count(transaction) implies assets(
        #[trigger] asset_address(hash_of(transaction), i, shard_id),
    ) by {}
    assert forall|k: int| 0 <= k < all.len() implies #[trigger] asked(
        one,
        transaction,
        sender,
        approvers,
        k,
    ) == asked(other, transaction, sender, approvers, k) by {
        assert(schemes(all[k].input.prev_out.asset_type));
        lemma_alike_input(
            one,
            other,
            schemes,
            assets,
            all[k].input,
            all[k].order,
            all[k].burn,
            sender,
            effective_approvers(transaction, approvers),
        );
    }
    if let Some(own) = own_scheme(transaction, shard_id) {
        assert(schemes(own));
        assert(one.trie.scheme(own) == other.trie.scheme(own));
    }
    if made_count(transaction) > 0 {
        let first = asset_address(hash_of(transaction), 0, shard_id);
        assert(assets(first));
        assert(one.trie.asset(first) == other.trie.asset(first));
    }
    match transaction {
        InnerTransaction::General(
            Transaction::AssetTransfer { hash, burns, inputs, outputs, orders },
        ) => {
            let spent = inputs@ + burns@;
            assert forall|i: int| 0 <= i < spent.len() implies schemes(
                (#[trigger] spent[i]).prev_out.asset_type,
            ) && assets(spent_at(spent[i], shard_id)) by {
                assert(all[i].input == spent[i]);
            }
            assert forall|i: int| 0 <= i < inputs@.len() implies schemes(
                (#[trigger] inputs@[i]).prev_out.asset_type,
            ) && assets(spent_at(inputs@[i], shard_id)) by {
                assert(spent[i] == inputs@[i]);
            }
            if inputs_in_range(orders@, inputs@.len()) {
                lemma_alike_scripts(
                    one,
                    other,
                    schemes,
                    assets,
                    all,
                    sender,
                    approvers,
                    outcomes,
                    0,
                );
                lemma_alike_orders(one, other, schemes, assets, orders@, inputs@, 0);
                lemma_alike_consume(
                    one,
                    other,
                    schemes,
                    assets,
                    spent,
                    sender,
                    approvers,
                    0,
                );
                if let (Ok(l), Ok(m)) = (
                    consume(one, spent, sender, approvers, 0),
                    consume(other, spent, sender, approvers, 0),
                ) {
                    lemma_alike_produce(
                        l,
                        m,
                        schemes,
                        assets,
                        hash,
                        outputs@,
                        output_order_hashes(orders@, outputs@.len()),
                        0,
                    );
                }
            }
        },
        InnerTransaction::General(Transaction::AssetCompose { inputs, .. }) => {
            assert forall|i: int| 0 <= i < inputs@.len() implies schemes(
                (#[trigger] inputs@[i]).prev_out.asset_type,
            ) && assets(spent_at(inputs@[i], shard_id)) by {
                assert(all[i].input == inputs@[i]);
            }
            let start = Gathered { ledger: one, sum: Seq::empty() };
            let other_start = Gathered { ledger: other, sum: Seq::empty() };
            lemma_alike_gather(
                start,
                other_start,
                schemes,
                assets,
                inputs@,
                sender,
                approvers,
                outcomes,
                0,
            );
            if let (Ok(g), Ok(h)) = (
                gather(start, inputs@, sender, approvers, outcomes, 0),
                gather(other_start, inputs@, sender, approvers, outcomes, 0),
            ) {
                let own = own_scheme(transaction, shard_id)->0;
                let first = asset_address(hash_of(transaction), 0, shard_id);
                assert(g.ledger.trie.scheme(own) == h.ledger.trie.scheme(own));
                assert(g.ledger.trie.asset(first) == h.ledger.trie.asset(first));
            }
        },
        InnerTransaction::General(Transaction::AssetDecompose { hash, input, outputs }) => {
            assert(all[0].input == input);
            lemma_alike_input(
                one,
                other,
                schemes,
                assets,
                input,
                None,
                false,
                sender,
                approvers,
            );
            let asset_type = input.prev_out.asset_type;
            lemma_alike_produce(
                one.with_asset(one.spent(input), None).with_scheme(asset_type, None),
                other.with_asset(other.spent(input), None).with_scheme(asset_type, None),
                schemes,
                assets,
                hash,
                outputs@,
                no_order_hashes(outputs@.len()),
                0,
            );
        },
        InnerTransaction::General(Transaction::AssetUnwrapCCC { burn, .. }) => {
            assert(all[0].input == burn);
            lemma_alike_input(
                one,
                other,
                schemes,
                assets,
                burn,
                None,
                true,
                sender,
                Seq::empty(),
            );
        },
        _ => {},
    }
}

/// The addresses of the schemes that a transaction has to do with.
pub open spec fn touched_schemes_of(transaction: InnerTransaction, shard_id: ShardId) -> Seq<H256> {
    spendings(transaction).map_values(|s: Spending| s.input.prev_out.asset_type) + match own_scheme(
        transaction,
        shard_id,
    ) {
        Some(own) => seq![own],
        None => Seq::empty(),
    }
}

/// The addresses of the assets that a transaction has to do with.
pub open spec fn touched_assets_of(transaction: InnerTransaction, shard_id: ShardId) -> Seq<H256> {
    spendings(transaction).map_values(|s: Spending| spent_at(s.input, shard_id)) + Seq::new(
        made_count(transaction),
        |i: int| asset_address(hash_of(transaction), i, shard_id),
    )
}

/// The two lists hold exactly the addresses that a transaction has to do with.
pub proof fn law_touched_lists(transaction: InnerTransaction, shard_id: ShardId, address: H256)
    ensures
        touched_schemes_of(transaction, shard_id).contains(address) <==> touches_scheme(
            transaction,
            shard_id,
            address,
        ),
        touched_assets_of(transaction, shard_id).contains(address) <==> touches_asset(
            transaction,
            shard_id,
            address,
        ),
{
    let all = spendings(transaction);
    let schemes = touched_schemes_of(transaction, shard_id);
    let assets = touched_assets_of(transaction, shard_id);
    if schemes.contains(address) {
        let i = choose|i: int| 0 <= i < schemes.len() && schemes[i] == address;
        if i < all.len() {
            assert(all[i].input.prev_out.asset_type == address);
        }
    }
    if own_scheme(transaction, shard_id) == Some(address) {
        assert(schemes[all.len() as int] == address);
    }
    assert forall|i: int|
        0 <= i < all.len() && (#[trigger] all[i]).input.prev_out.asset_type
            == address implies schemes.contains(address) by {
        assert(schemes[i] == address);
    }
    if assets.contains(address) {
        let i = choose|i: int| 0 <= i < assets.len() && assets[i] == address;
        if i < all.len() {
            assert(spent_at(all[i].input, shard_id) == address);
        } else {
            assert(asset_address(hash_of(transaction), i - all.len(), shard_id) == address);
        }
    }
    assert forall|i: int|
        0 <= i < all.len() && spent_at((#[trigger] all[i]).input, shard_id)
            == address implies assets.contains(address) by {
        assert(assets[i] == address);
    }
    assert forall|i: int|
        0 <= i < made_count(transaction) && #[trigger] asset_address(hash_of(transaction), i, shard_id)
            == address implies assets.contains(address) by {
        assert(assets[all.len() + i] == address);
    }
}

/// Appends the types that inputs claim.
fn push_types(list: &mut Vec<H256>, inputs: &Vec<AssetTransferInput>)
    ensures
        final(list)@ == old(list)@ + inputs@.map_values(
            |input: AssetTransferInput| input.prev_out.asset_type,
        ),
{
    let ghost types = inputs@.map_values(|input: AssetTransferInput| input.prev_out.asset_type);
    let mut i: usize = 0;
    while i < inputs.len()
        invariant
            types == inputs@.map_values(|input: AssetTransferInput| input.prev_out.asset_type),
            i <= inputs@.len(),
            list@ == old(list)@ + types.take(i as int),
        decreases inputs@.len() - i,
    {
        list.push(inputs[i].prev_out.asset_type);
        i += 1;
        assert(types.take(i as int) =~= types.take(i - 1).push(types[i - 1]));
    }
    assert(types.take(i as int) =~= types);
}

/// Appends the addresses of the assets that inputs spend.
fn push_spent(list: &mut Vec<H256>, inputs: &Vec<AssetTransferInput>, shard_id: ShardId)
    ensures
        final(list)@ == old(list)@ + inputs@.map_values(
            |input: AssetTransferInput| spent_at(input, shard_id),
        ),
{
    let ghost spent = inputs@.map_values(|input: AssetTransferInput| spent_at(input, shard_id));
    let mut i: usize = 0;
    while i < inputs.len()
        invariant
            spent == inputs@.map_values(|input: AssetTransferInput| spent_at(input, shard_id)),
            i <= inputs@.len(),
            list@ == old(list)@ + spent.take(i as int),
        decreases inputs@.len() - i,
    {
        let out = &inputs[i].prev_out;
        list.push(OwnedAssetAddress::new(out.transaction_hash, out.index, shard_id).hash());
        i += 1;
        assert(spent.take(i as int) =~= spent.take(i - 1).push(spent[i - 1]));
    }
    assert(spent.take(i as int) =~= spent);
}

/// Appends the addresses of the first `count` assets that a transaction makes.
fn push_made(list: &mut Vec<H256>, hash: H256, count: usize, shard_id: ShardId)
    ensures
        final(list)@ == old(list)@ + Seq::new(
            count as nat,
            |i: int| asset_address(hash, i, shard_id),
        ),
{
    let mut i: usize = 0;
    assert(list@ =~= old(list)@ + Seq::new(0, |j: int| asset_address(hash, j, shard_id)));
    while i < count
        invariant
            i <= count,
            list@ == old(list)@ + Seq::new(i as nat, |j: int| asset_address(hash, j, shard_id)),
        decreases count - i,
    {
        list.push(OwnedAssetAddress::new(hash, i, shard_id).hash());
        i += 1;
        assert(list@ =~= old(list)@ + Seq::new(
            i as nat,
            |j: int| asset_address(hash, j, shard_id),
        ));
    }
}

/// Lists the addresses of the schemes that a transaction has to do with.
pub fn touched_schemes(transaction: &InnerTransaction, shard_id: ShardId) -> (list: Vec<H256>)
    ensures
        list@ == touched_schemes_of(*transaction, shard_id),
{
    let mut list: Vec<H256> = Vec::new();
    match transaction {
        InnerTransaction::General(transaction) => match transaction {
            Transaction::AssetMint { hash, .. } => {
                list.push(AssetSchemeAddress::new(*hash, shard_id).hash());
            },
            Transaction::AssetTransfer { burns, inputs, .. } => {
                push_types(&mut list, inputs);
                push_types(&mut list, burns);
            },
            Transaction::AssetSchemeChange { asset_type, .. } => {
                list.push(*asset_type);
            },
            Transaction::AssetCompose { hash, inputs, .. } => {
                push_types(&mut list, inputs);
                list.push(AssetSchemeAddress::new(*hash, shard_id).hash());
            },
            Transaction::AssetDecompose { input, .. } => {
                list.push(input.prev_out.asset_type);
            },
            Transaction::AssetUnwrapCCC { burn, .. } => {
                list.push(burn.prev_out.asset_type);
            },
        },
        InnerTransaction::AssetWrapCCC { .. } => {
            list.push(AssetSchemeAddress::new_with_zero_suffix(shard_id).hash());
        },
    }
    assert(list@ =~= touched_schemes_of(*transaction, shard_id));
    list
}

/// Lists the addresses of the assets that a transaction has to do with.
pub fn touched_assets(transaction: &InnerTransaction, shard_id: ShardId) -> (list: Vec<H256>)
    ensures
        list@ == touched_assets_of(*transaction, shard_id),
{
    let mut list: Vec<H256> = Vec::new();
    match transaction {
        InnerTransaction::General(transaction) => match transaction {
            Transaction::AssetMint { hash, .. } => {
                push_made(&mut list, *hash, 1, shard_id);
            },
            Transaction::AssetTransfer { hash, burns, inputs, outputs, .. } => {
                push_spent(&mut list, inputs, shard_id);
                push_spent(&mut list, burns, shard_id);
                push_made(&mut list, *hash, outputs.len(), shard_id);
            },
            Transaction::AssetSchemeChange { .. } => {},
            Transaction::AssetCompose { hash, inputs, .. } => {
                push_spent(&mut list, inputs, shard_id);
                push_made(&mut list, *hash, 1, shard_id);
            },
            Transaction::AssetDecompose { hash, input, outputs } => {
                let out = &input.prev_out;
                list.push(OwnedAssetAddress::new(out.transaction_hash, out.index, shard_id).hash());
                push_made(&mut list, *hash, outputs.len(), shard_id);
            },
            Transaction::AssetUnwrapCCC { burn, .. } => {
                let out = &burn.prev_out;
                list.push(OwnedAssetAddress::new(out.transaction_hash, out.index, shard_id).hash());
            },
        },
        InnerTransaction::AssetWrapCCC { parcel_hash, .. } => {
            push_made(&mut list, *parcel_hash, 1, shard_id);
        },
    }
    assert(list@ =~= touched_assets_of(*transaction, shard_id));
    list
}

/// A transaction that succeeds leaves every scheme and every asset alone that it has nothing to do
/// with.
pub proof fn law_untouched_stay(
    ledger: Ledger,
    transaction: InnerTransaction,
    sender: Address,
    shard_users: Seq<Address>,
    approvers: Seq<Address>,
    outcomes: Seq<ScriptOutcome>,
)
    ensures
        applied(ledger, transaction, sender, shard_users, approvers, outcomes) matches Ok(after)
            ==> {
            &&& forall|a: H256|
                !touches_scheme(transaction, ledger.shard_id, a) ==> #[trigger] after.scheme(a)
                    == ledger.scheme(a)
            &&& forall|a: H256|
                !touches_asset(transaction, ledger.shard_id, a) ==> #[trigger] after.asset(a)
                    == ledger.asset(a)
        },
{
    let all = spendings(transaction);
    let own_hash = hash_of(transaction);
    let count = made_count(transaction);
    if let Ok(after) = applied(ledger, transaction, sender, shard_users, approvers, outcomes) {
        assert forall|a: H256|
            !touches_asset(transaction, ledger.shard_id, a) implies avoids(
            own_hash,
            ledger.shard_id,
            0,
            count as int,
            a,
        ) by {}
        match transaction {
            InnerTransaction::General(general) => match general {
                Transaction::AssetMint { hash, metadata, approver, administrator, output } => {
                    law_mint(
                        ledger,
                        hash,
                        metadata,
                        approver,
                        administrator,
                        output,
                        sender,
                        shard_users,
                        approvers,
                        outcomes,
                    );
                },
                Transaction::AssetTransfer { hash, burns, inputs, outputs, orders } => {
                    law_transfer(
                        ledger,
                        hash,
                        burns,
                        inputs,
                        outputs,
                        orders,
                        sender,
                        shard_users,
                        approvers,
                        outcomes,
                    );
                    let spent = inputs@ + burns@;
                    assert forall|a: H256|
                        !touches_asset(
                            transaction,
                            ledger.shard_id,
                            a,
                        ) implies #[trigger] after.asset(a) == ledger.asset(a) by {
                        assert(avoids(hash, ledger.shard_id, 0, count as int, a));
                        if spends(ledger, spent, 0, a) {
                            let i = choose|i: int|
                                0 <= i < spent.len() && #[trigger] ledger.spent(spent[i]) == a;
                            assert(all[i].input == spent[i]);
                        }
                    }
                },
                Transaction::AssetSchemeChange {
                    hash,
                    asset_type,
                    metadata,
                    approver,
                    administrator,
                } => {
                    law_scheme_change(
                        ledger,
                        hash,
                        asset_type,
                        metadata,
                        approver,
                        administrator,
                        sender,
                        shard_users,
                        approvers,
                        outcomes,
                    );
                },
                Transaction::AssetCompose {
                    hash,
                    metadata,
                    approver,
                    administrator,
                    inputs,
                    output,
                } => {
                    law_compose(
                        ledger,
                        hash,
                        metadata,
                        approver,
                        administrator,
                        inputs,
                        output,
                        sender,
                        shard_users,
                        approvers,
                        outcomes,
                    );
                    assert forall|a: H256|
                        !touches_asset(
                            transaction,
                            ledger.shard_id,
                            a,
                        ) implies #[trigger] after.asset(a) == ledger.asset(a) by {
                        assert(asset_address(hash, 0, ledger.shard_id) != a);
                        if spends(ledger, inputs@, 0, a) {
                            let i = choose|i: int|
                                0 <= i < inputs@.len() && #[trigger] ledger.spent(inputs@[i]) == a;
                            assert(all[i].input == inputs@[i]);
                        }
                    }
                },
                Transaction::AssetDecompose { hash, input, outputs } => {
                    law_decompose(
                        ledger,
                        hash,
                        input,
                        outputs,
                        sender,
                        shard_users,
                        approvers,
                        outcomes,
                    );
                    assert(all[0].input == input);
                    assert forall|a: H256|
                        !touches_asset(
                            transaction,
                            ledger.shard_id,
                            a,
                        ) implies #[trigger] after.asset(a) == ledger.asset(a) by {
                        assert(avoids(hash, ledger.shard_id, 0, count as int, a));
                    }
                },
                Transaction::AssetUnwrapCCC { hash, burn } => {
                    law_unwrap(
                        ledger,
                        hash,
                        burn,
                        sender,
                        shard_users,
                        approvers,
                        outcomes,
                    );
                    assert(all[0].input == burn);
                },
            },
            InnerTransaction::AssetWrapCCC { parcel_hash, output } => {
                law_wrap(
                    ledger,
                    parcel_hash,
                    output,
                    sender,
                    shard_users,
                    approvers,
                    outcomes,
                );
            },
        }
    }
}

} // verus!
