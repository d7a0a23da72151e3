//! What holds of the transactions of a shard, whatever they are.

use crate::address::{
    asset_address, is_scheme_hash, scheme_address, stamped, zero_suffix_address, ASSET_PREFIX,
    SCHEME_PREFIX,
};
use crate::cache::CacheView;
use crate::conservation::{
    claimed, distinct, law_compose_keeps_amounts, law_decompose_matches_pool,
    law_pool_gives_back_inputs, law_tally, occurs, total,
};
use crate::error::{refusal, Stop, TransactionError, TrieError};
use crate::hash::{script_hash_of, Address, ShardId, H256};
use crate::item::{byte_strings, Asset, AssetView, SchemeView};
use crate::ledger::{
    applied, compose_leaves, consume, gather, gather_leaves, input_asset, is_composable,
    lemma_produce_succeeds, mint, minted_amount, no_order_hashes, order_of_output, orders_check,
    origin_count, output_asset, output_order_hashes, produce, script_check, script_need,
    wrapped_scheme, Gathered, Ledger,
};
use crate::pool::{added, amount_in, made};
use crate::script::{ScriptOutcome, ScriptRunView};
use crate::shard_level::{ReadOnlyShardLevelState, ShardLevelState};
use crate::traits::ShardStateView;
use crate::transaction::{
    AssetMintOutput, AssetTransferInput, AssetTransferOutput, AssetWrapCCCOutput,
    InnerTransaction, OrderOnTransfer, Transaction,
};
use vstd::prelude::*;

verus! {

/// A cache that goes back to a checkpoint is as it was when the checkpoint was set, whatever was
/// changed since.
pub proof fn law_revert_undoes_changes(before: CacheView, after: CacheView)
    requires
        after.saved == before.checkpointed().saved,
    ensures
        after.reverted() == before,
{
    assert(after.saved.drop_last() =~= before.saved);
}

/// A cache that gives a checkpoint up keeps what was changed since, and the checkpoints before.
pub proof fn law_discard_keeps_changes(before: CacheView, after: CacheView)
    requires
        after.saved == before.checkpointed().saved,
    ensures
        after.discarded() == (CacheView { current: after.current, saved: before.saved }),
{
    assert(after.saved.drop_last() =~= before.saved);
}

/// Changes to schemes and assets leave the checkpoints alone.
pub proof fn law_changes_keep_checkpoints(
    cache: CacheView,
    address: H256,
    scheme: Option<SchemeView>,
    asset: Option<AssetView>,
)
    ensures
        cache.with_scheme(address, scheme).saved == cache.saved,
        cache.with_asset(address, asset).saved == cache.saved,
{
}

/// The address of a scheme has the form of one, and names its shard. The address of an asset
/// never has that form.
pub proof fn law_addresses_are_told_apart(hash: H256, index: int, shard_id: ShardId)
    ensures
        is_scheme_hash(scheme_address(hash, shard_id)),
        is_scheme_hash(zero_suffix_address(shard_id)),
        !is_scheme_hash(asset_address(hash, index, shard_id)),
        asset_address(hash, index, shard_id).0[0] == ASSET_PREFIX,
        scheme_address(hash, shard_id).0[0] == SCHEME_PREFIX,
        scheme_address(hash, shard_id).0[2] * 256 + scheme_address(hash, shard_id).0[3] == shard_id,
        asset_address(hash, index, shard_id).0[2] * 256 + asset_address(hash, index, shard_id).0[3]
            == shard_id,
{
    reveal(stamped);
}

/// Some input spends the asset at `address`.
pub open spec fn spends(
    ledger: Ledger,
    inputs: Seq<AssetTransferInput>,
    from: int,
    address: H256,
) -> bool {
    exists|i: int| from <= i < inputs.len() && #[trigger] ledger.spent(inputs[i]) == address
}

/// No output from `from` on is put at `address`.
pub open spec fn avoids(
    hash: H256,
    shard_id: ShardId,
    from: int,
    count: int,
    address: H256,
) -> bool {
    forall|i: int| from <= i < count ==> #[trigger] asset_address(hash, i, shard_id) != address
}

/// The asset that an input names is there, of the type and the amount that the input claims.
pub open spec fn is_as_claimed(ledger: Ledger, input: AssetTransferInput) -> bool {
    match ledger.asset(ledger.spent(input)) {
        Ok(Some(asset)) => asset.amount == input.prev_out.amount && asset.asset_type
            == input.prev_out.asset_type,
        _ => false,
    }
}

/// `after` is `before` with the assets of all inputs from `from` on taken away. Each was there as
/// its input claims, and none is named twice.
pub open spec fn is_spent(
    before: Ledger,
    after: Ledger,
    inputs: Seq<AssetTransferInput>,
    from: int,
) -> bool {
    &&& after.shard_id == before.shard_id
    &&& after.trie == before.trie
    &&& after.overlay.schemes == before.overlay.schemes
    &&& forall|a: H256| #[trigger]
        after.asset(a) == if spends(before, inputs, from, a) {
            Ok(None)
        } else {
            before.asset(a)
        }
    &&& forall|i: int| from <= i < inputs.len() ==> #[trigger] is_as_claimed(before, inputs[i])
    &&& forall|i: int, j: int|
        from <= i < j < inputs.len() ==> #[trigger] before.spent(inputs[i])
            != #[trigger] before.spent(inputs[j])
}

/// One more spent input in front.
proof fn lemma_spend_one(
    before: Ledger,
    after: Ledger,
    inputs: Seq<AssetTransferInput>,
    k: int,
)
    requires
        0 <= k < inputs.len(),
        is_as_claimed(before, inputs[k]),
        is_spent(before.with_asset(before.spent(inputs[k]), None), after, inputs, k + 1),
    ensures
        is_spent(before, after, inputs, k),
{
    let address = before.spent(inputs[k]);
    let middle = before.with_asset(address, None);
    assert forall|i: int| k <= i < inputs.len() implies #[trigger] is_as_claimed(
        before,
        inputs[i],
    ) by {
        if i > k {
            assert(is_as_claimed(middle, inputs[i]));
        }
    }
    assert forall|i: int, j: int| k <= i < j < inputs.len() implies #[trigger] before.spent(
        inputs[i],
    ) != #[trigger] before.spent(inputs[j]) by {
        assert(is_as_claimed(middle, inputs[j]));
        if i > k {
            assert(middle.spent(inputs[i]) == before.spent(inputs[i]));
            assert(middle.spent(inputs[j]) == before.spent(inputs[j]));
        }
    }
    assert forall|a: H256| #[trigger]
        after.asset(a) == if spends(before, inputs, k, a) {
            Ok(None)
        } else {
            before.asset(a)
        } by {
        if spends(middle, inputs, k + 1, a) {
            let i = choose|i: int|
                k + 1 <= i < inputs.len() && #[trigger] middle.spent(inputs[i]) == a;
            assert(before.spent(inputs[i]) == a);
        } else {
            if spends(before, inputs, k, a) {
                let i = choose|i: int|
                    k <= i < inputs.len() && #[trigger] before.spent(inputs[i]) == a;
                if i > k {
                    assert(middle.spent(inputs[i]) == a);
                }
            }
            assert(a == address ==> spends(before, inputs, k, a));
        }
    }
}

proof fn lemma_consume(
    ledger: Ledger,
    inputs: Seq<AssetTransferInput>,
    sender: Address,
    approvers: Seq<Address>,
    k: int,
)
    requires
        0 <= k <= inputs.len(),
    ensures
        consume(ledger, inputs, sender, approvers, k) matches Ok(after) ==> is_spent(
            ledger,
            after,
            inputs,
            k,
        ),
    decreases inputs.len() - k,
{
    if k < inputs.len() {
        if let Ok(after) = consume(ledger, inputs, sender, approvers, k) {
            lemma_consume(
                ledger.with_asset(ledger.spent(inputs[k]), None),
                inputs,
                sender,
                approvers,
                k + 1,
            );
            lemma_spend_one(ledger, after, inputs, k);
        }
    }
}

proof fn lemma_gather_spends(
    gathered: Gathered,
    inputs: Seq<AssetTransferInput>,
    sender: Address,
    approvers: Seq<Address>,
    outcomes: Seq<ScriptOutcome>,
    k: int,
)
    requires
        0 <= k <= inputs.len(),
    ensures
        gather(gathered, inputs, sender, approvers, outcomes, k) matches Ok(after) ==> is_spent(
            gathered.ledger,
            after.ledger,
            inputs,
            k,
        ),
    decreases inputs.len() - k,
{
    if k < inputs.len() {
        if let Ok(after) = gather(gathered, inputs, sender, approvers, outcomes, k) {
            let ledger = gathered.ledger;
            lemma_gather_spends(
                Gathered {
                    ledger: ledger.with_asset(ledger.spent(inputs[k]), None),
                    sum: added(
                        gathered.sum,
                        inputs[k].prev_out.asset_type,
                        inputs[k].prev_out.amount,
                    ),
                },
                inputs,
                sender,
                approvers,
                outcomes,
                k + 1,
            );
            lemma_spend_one(ledger, after.ledger, inputs, k);
        }
    }
}

proof fn lemma_produce(
    ledger: Ledger,
    hash: H256,
    outputs: Seq<AssetTransferOutput>,
    order_hashes: Seq<Option<H256>>,
    k: int,
)
    requires
        0 <= k <= outputs.len(),
    ensures
        produce(ledger, hash, outputs, order_hashes, k) matches Ok(after) ==> {
            &&& after.shard_id == ledger.shard_id
            &&& after.trie == ledger.trie
            &&& after.overlay.schemes == ledger.overlay.schemes
            &&& forall|a: H256|
                avoids(hash, ledger.shard_id, k, outputs.len() as int, a)
                    ==> #[trigger] after.asset(a) == ledger.asset(a)
            &&& forall|i: int|
                k <= i < outputs.len() && avoids(
                    hash,
                    ledger.shard_id,
                    i + 1,
                    outputs.len() as int,
                    asset_address(hash, i, ledger.shard_id),
                ) ==> after.asset(#[trigger] asset_address(hash, i, ledger.shard_id)) == Ok::<
                    _,
                    TrieError,
                >(Some(output_asset(outputs[i], order_hashes[i])))
        },
    decreases outputs.len() - k,
{
    if k < outputs.len() {
        if let Ok(after) = produce(ledger, hash, outputs, order_hashes, k) {
            let address = asset_address(hash, k, ledger.shard_id);
            let next = ledger.with_asset(address, Some(output_asset(outputs[k], order_hashes[k])));
            lemma_produce(next, hash, outputs, order_hashes, k + 1);
            assert forall|a: H256|
                avoids(hash, ledger.shard_id, k, outputs.len() as int, a) implies #[trigger] after.asset(
                a,
            ) == ledger.asset(a) by {
                assert(asset_address(hash, k, ledger.shard_id) != a);
                assert(avoids(hash, next.shard_id, k + 1, outputs.len() as int, a));
            }
            assert forall|i: int|
                k <= i < outputs.len() && avoids(
                    hash,
                    ledger.shard_id,
                    i + 1,
                    outputs.len() as int,
                    asset_address(hash, i, ledger.shard_id),
                ) implies after.asset(#[trigger] asset_address(hash, i, ledger.shard_id)) == Ok::<
                _,
                TrieError,
            >(Some(output_asset(outputs[i], order_hashes[i]))) by {
                if i == k {
                    assert(after.asset(address) == next.asset(address));
                }
            }
        }
    }
}

/// A mint succeeds exactly where its sender may mint, its scheme is not there yet, and the shard
/// can be read. It makes a scheme and all the assets of that scheme, as much as it says or as much
/// as there can be, and leaves everything else alone.
pub proof fn law_mint(
    ledger: Ledger,
    hash: H256,
    metadata: String,
    approver: Option<Address>,
    administrator: Option<Address>,
    output: AssetMintOutput,
    sender: Address,
    shard_users: Seq<Address>,
    approvers: Seq<Address>,
    outcomes: Seq<ScriptOutcome>,
)
    ensures
        ({
            let transaction = InnerTransaction::General(
                Transaction::AssetMint { hash, metadata, approver, administrator, output },
            );
            let result = applied(ledger, transaction, sender, shard_users, approvers, outcomes);
            let scheme_at = scheme_address(hash, ledger.shard_id);
            let asset_at = asset_address(hash, 0, ledger.shard_id);
            let amount = match output.amount {
                Some(n) => n,
                None => u64::MAX,
            };
            &&& result is Ok <==> {
                &&& shard_users.len() == 0 || shard_users.contains(sender)
                &&& ledger.scheme(scheme_at) == Ok::<_, TrieError>(None::<SchemeView>)
                &&& ledger.asset(asset_at) is Ok
            }
            &&& result matches Ok(after) ==> {
                &&& after.scheme(scheme_at) == Ok::<_, TrieError>(
                    Some(
                        SchemeView {
                            metadata: metadata@,
                            amount,
                            approver,
                            administrator,
                            pool: Seq::empty(),
                        },
                    ),
                )
                &&& after.asset(asset_at) == Ok::<_, TrieError>(
                    Some(
                        AssetView {
                            asset_type: scheme_at,
                            amount,
                            lock_script_hash: output.lock_script_hash,
                            parameters: byte_strings(output.parameters@),
                            order_hash: None,
                        },
                    ),
                )
                &&& forall|a: H256| a != scheme_at ==> #[trigger] after.scheme(a) == ledger.scheme(a)
                &&& forall|a: H256| a != asset_at ==> #[trigger] after.asset(a) == ledger.asset(a)
            }
        }),
{
}

/// Nothing can be minted twice: once a mint or a composition has made a scheme, a mint with the
/// same hash is refused, whatever it asks for.
pub proof fn law_mint_only_once(
    ledger: Ledger,
    first: Transaction,
    sender: Address,
    shard_users: Seq<Address>,
    approvers: Seq<Address>,
    outcomes: Seq<ScriptOutcome>,
    hash: H256,
    again: Transaction,
    sender_again: Address,
    users_again: Seq<Address>,
    approvers_again: Seq<Address>,
    outcomes_again: Seq<ScriptOutcome>,
)
    requires
        match first {
            Transaction::AssetMint { hash: h, .. } => h == hash,
            Transaction::AssetCompose { hash: h, .. } => h == hash,
            _ => false,
        },
        again matches Transaction::AssetMint { hash: h, .. } && h == hash,
        users_again.len() == 0 || users_again.contains(sender_again),
    ensures
        applied(
            ledger,
            InnerTransaction::General(first),
            sender,
            shard_users,
            approvers,
            outcomes,
        ) matches Ok(after) ==> applied(
            after,
            InnerTransaction::General(again),
            sender_again,
            users_again,
            approvers_again,
            outcomes_again,
        ) == Err::<Ledger, _>(refusal(TransactionError::AssetSchemeDuplicated(hash))),
{
    if let Transaction::AssetCompose { inputs, .. } = first {
        lemma_gather_spends(
            Gathered { ledger, sum: Seq::empty() },
            inputs@,
            sender,
            approvers,
            outcomes,
            0,
        );
    }
}

/// A user who is not among the users of a shard that has some can neither mint nor compose there.
pub proof fn law_only_users_mint(
    ledger: Ledger,
    transaction: Transaction,
    sender: Address,
    shard_users: Seq<Address>,
    approvers: Seq<Address>,
    outcomes: Seq<ScriptOutcome>,
)
    requires
        shard_users.len() > 0,
        !shard_users.contains(sender),
        transaction is AssetMint || transaction is AssetCompose,
    ensures
        applied(
            ledger,
            InnerTransaction::General(transaction),
            sender,
            shard_users,
            approvers,
            outcomes,
        ) is Err,
        transaction is AssetMint ==> applied(
            ledger,
            InnerTransaction::General(transaction),
            sender,
            shard_users,
            approvers,
            outcomes,
        ) == Err::<Ledger, _>(refusal(TransactionError::InsufficientPermission)),
{
}

/// A change of a scheme succeeds exactly where its administrator consents. The amount and the
/// pool of the scheme stay, and so do all other schemes and all assets.
pub proof fn law_scheme_change(
    ledger: Ledger,
    hash: H256,
    asset_type: H256,
    metadata: String,
    approver: Option<Address>,
    administrator: Option<Address>,
    sender: Address,
    shard_users: Seq<Address>,
    approvers: Seq<Address>,
    outcomes: Seq<ScriptOutcome>,
)
    ensures
        ({
            let transaction = InnerTransaction::General(
                Transaction::AssetSchemeChange { hash, asset_type, metadata, approver, administrator },
            );
            let result = applied(ledger, transaction, sender, shard_users, approvers, outcomes);
            &&& result is Ok <==> is_scheme_hash(asset_type) && match ledger.scheme(asset_type) {
                Ok(Some(scheme)) => scheme.administrator is Some && (sender
                    == scheme.administrator->0 || approvers.contains(scheme.administrator->0)),
                _ => false,
            }
            &&& result matches Ok(after) ==> {
                &&& ledger.scheme(asset_type) matches Ok(Some(scheme)) && after.scheme(asset_type)
                    == Ok::<_, TrieError>(
                    Some(
                        SchemeView {
                            metadata: metadata@,
                            amount: scheme.amount,
                            approver,
                            administrator,
                            pool: scheme.pool,
                        },
                    ),
                )
                &&& forall|a: H256| a != asset_type ==> #[trigger] after.scheme(a) == ledger.scheme(a)
                &&& forall|a: H256| #[trigger] after.asset(a) == ledger.asset(a)
            }
        }),
{
}

/// The administrator of a centralized asset needs no scripts to move it or to burn it.
pub proof fn law_administrator_needs_no_scripts(
    ledger: Ledger,
    input: AssetTransferInput,
    order: Option<H256>,
    burn: bool,
    sender: Address,
    approvers: Seq<Address>,
    outcome: ScriptOutcome,
    scheme: SchemeView,
    asset: AssetView,
)
    requires
        is_scheme_hash(input.prev_out.asset_type),
        ledger.asset(ledger.spent(input)) == Ok::<_, TrieError>(Some(asset)),
        ledger.scheme(input.prev_out.asset_type) == Ok::<_, TrieError>(Some(scheme)),
        scheme.administrator is Some,
        (sender == scheme.administrator->0 || approvers.contains(scheme.administrator->0)),
    ensures
        script_need(ledger, input, order, burn, sender, approvers) == Ok::<_, Stop>(
            None::<ScriptRunView>,
        ),
        script_check(ledger, input, order, burn, sender, approvers, outcome) == Ok::<(), Stop>(()),
{
}

/// Nobody but the administrator can burn a centralized asset, whatever its scripts say.
pub proof fn law_only_administrator_burns(
    ledger: Ledger,
    input: AssetTransferInput,
    order: Option<H256>,
    sender: Address,
    approvers: Seq<Address>,
    outcome: ScriptOutcome,
    scheme: SchemeView,
    asset: AssetView,
)
    requires
        is_scheme_hash(input.prev_out.asset_type),
        ledger.asset(ledger.spent(input)) == Ok::<_, TrieError>(Some(asset)),
        ledger.scheme(input.prev_out.asset_type) == Ok::<_, TrieError>(Some(scheme)),
        scheme.administrator is Some,
        !(sender == scheme.administrator->0 || approvers.contains(scheme.administrator->0)),
    ensures
        script_check(ledger, input, order, true, sender, approvers, outcome) == Err::<(), _>(
            refusal(TransactionError::CannotBurnCentralizedAsset),
        ),
{
}

/// An asset under an order moves without scripts when the order pays with it.
pub proof fn law_order_moves_its_assets(
    ledger: Ledger,
    input: AssetTransferInput,
    order: H256,
    sender: Address,
    approvers: Seq<Address>,
    outcome: ScriptOutcome,
    scheme: SchemeView,
    asset: AssetView,
)
    requires
        is_scheme_hash(input.prev_out.asset_type),
        ledger.asset(ledger.spent(input)) == Ok::<_, TrieError>(Some(asset)),
        ledger.scheme(input.prev_out.asset_type) == Ok::<_, TrieError>(Some(scheme)),
        asset.order_hash == Some(order),
    ensures
        script_check(ledger, input, Some(order), false, sender, approvers, outcome) == Ok::<
            (),
            Stop,
        >(()),
{
}

/// The approver of the scheme of an input, if it has one, consents.
pub open spec fn is_approved(
    ledger: Ledger,
    input: AssetTransferInput,
    sender: Address,
    approvers: Seq<Address>,
) -> bool {
    match ledger.scheme(input.prev_out.asset_type) {
        Ok(Some(scheme)) => scheme.approver is Some ==> (sender == scheme.approver->0
            || approvers.contains(scheme.approver->0)),
        _ => false,
    }
}

proof fn lemma_consume_approved(
    ledger: Ledger,
    inputs: Seq<AssetTransferInput>,
    sender: Address,
    approvers: Seq<Address>,
    k: int,
)
    requires
        0 <= k <= inputs.len(),
        consume(ledger, inputs, sender, approvers, k) is Ok,
    ensures
        forall|i: int|
            k <= i < inputs.len() ==> is_approved(ledger, #[trigger] inputs[i], sender, approvers),
    decreases inputs.len() - k,
{
    if k < inputs.len() {
        let next = ledger.with_asset(ledger.spent(inputs[k]), None);
        lemma_consume_approved(next, inputs, sender, approvers, k + 1);
        assert forall|i: int| k <= i < inputs.len() implies is_approved(
            ledger,
            #[trigger] inputs[i],
            sender,
            approvers,
        ) by {
            if i > k {
                assert(is_approved(next, inputs[i], sender, approvers));
            }
        }
    }
}

/// A transfer that succeeds takes away what its inputs and burns name, each of which was there as
/// claimed, was named once and has the consent of its approver; puts what its outputs say at its
/// own addresses, each under what is left of the last order that names it; and leaves all schemes
/// and all other assets alone. Where two outputs share an address, the later one is found there.
pub proof fn law_transfer(
    ledger: Ledger,
    hash: H256,
    burns: Vec<AssetTransferInput>,
    inputs: Vec<AssetTransferInput>,
    outputs: Vec<AssetTransferOutput>,
    orders: Vec<OrderOnTransfer>,
    sender: Address,
    shard_users: Seq<Address>,
    approvers: Seq<Address>,
    outcomes: Seq<ScriptOutcome>,
)
    ensures
        ({
            let transaction = InnerTransaction::General(
                Transaction::AssetTransfer { hash, burns, inputs, outputs, orders },
            );
            let result = applied(ledger, transaction, sender, shard_users, approvers, outcomes);
            let spent = inputs@ + burns@;
            let count = outputs@.len() as int;
            result matches Ok(after) ==> {
                &&& forall|a: H256| #[trigger] after.scheme(a) == ledger.scheme(a)
                &&& forall|a: H256|
                    avoids(hash, ledger.shard_id, 0, count, a) ==> #[trigger] after.asset(a)
                        == if spends(ledger, spent, 0, a) {
                        Ok(None)
                    } else {
                        ledger.asset(a)
                    }
                &&& forall|i: int|
                    0 <= i < count && avoids(
                        hash,
                        ledger.shard_id,
                        i + 1,
                        count,
                        asset_address(hash, i, ledger.shard_id),
                    ) ==> after.asset(#[trigger] asset_address(hash, i, ledger.shard_id)) == Ok::<
                        _,
                        TrieError,
                    >(
                        Some(
                            output_asset(
                                outputs@[i],
                                order_of_output(orders@, orders@.len() as int, i),
                            ),
                        ),
                    )
                &&& forall|i: int|
                    0 <= i < spent.len() ==> #[trigger] is_as_claimed(ledger, spent[i])
                &&& forall|i: int|
                    0 <= i < spent.len() ==> is_approved(
                        ledger,
                        #[trigger] spent[i],
                        sender,
                        approvers,
                    )
                &&& forall|i: int, j: int|
                    0 <= i < j < spent.len() ==> #[trigger] ledger.spent(spent[i])
                        != #[trigger] ledger.spent(spent[j])
            }
        }),
{
    let transaction = InnerTransaction::General(
        Transaction::AssetTransfer { hash, burns, inputs, outputs, orders },
    );
    let spent = inputs@ + burns@;
    if let Ok(after) = applied(ledger, transaction, sender, shard_users, approvers, outcomes) {
        let middle = consume(ledger, spent, sender, approvers, 0)->Ok_0;
        lemma_consume(ledger, spent, sender, approvers, 0);
        lemma_consume_approved(ledger, spent, sender, approvers, 0);
        lemma_produce(
            middle,
            hash,
            outputs@,
            output_order_hashes(orders@, outputs@.len()),
            0,
        );
    }
}

/// What was spent cannot be spent again: where the asset of an input is not there, nothing that
/// names it succeeds.
pub proof fn law_spent_is_gone(
    ledger: Ledger,
    input: AssetTransferInput,
    order: Option<H256>,
    burn: bool,
    sender: Address,
    approvers: Seq<Address>,
    outcome: ScriptOutcome,
)
    requires
        ledger.asset(ledger.spent(input)) == Ok::<_, TrieError>(None::<AssetView>),
    ensures
        script_check(ledger, input, order, burn, sender, approvers, outcome) == Err::<(), _>(
            refusal(TransactionError::AssetNotFound(ledger.spent(input))),
        ),
        input_asset(ledger, input, sender, approvers) is Err,
{
}

proof fn lemma_orders_check(
    ledger: Ledger,
    orders: Seq<OrderOnTransfer>,
    inputs: Seq<AssetTransferInput>,
    k: int,
)
    requires
        0 <= k <= orders.len(),
        orders_check(ledger, orders, inputs, k) is Ok,
    ensures
        forall|o: int|
            k <= o < orders.len() ==> (origin_count(ledger, #[trigger] orders[o], inputs, 0, 0) matches Ok(
                count,
            ) && (count == 0 || count == orders[o].order.origin_outputs@.len())),
    decreases orders.len() - k,
{
    if k < orders.len() {
        lemma_origin_count(ledger, orders[k], inputs, 0, 0);
        lemma_orders_check(ledger, orders, inputs, k + 1);
    }
}

proof fn lemma_origin_count(
    ledger: Ledger,
    order_tx: OrderOnTransfer,
    inputs: Seq<AssetTransferInput>,
    count: int,
    k: int,
)
    requires
        count >= 0,
    ensures
        origin_count(ledger, order_tx, inputs, count, k) matches Ok(n) ==> n >= 0,
    decreases order_tx.input_indices@.len() - k,
{
    if k < order_tx.input_indices@.len() {
        lemma_origin_count(ledger, order_tx, inputs, count, k + 1);
        lemma_origin_count(ledger, order_tx, inputs, count + 1, k + 1);
    }
}

/// Where a transfer succeeds, each order on it takes all of its origin outputs or none; every
/// other input that it names lies under the order already.
pub proof fn law_orders_take_all_or_none(
    ledger: Ledger,
    hash: H256,
    burns: Vec<AssetTransferInput>,
    inputs: Vec<AssetTransferInput>,
    outputs: Vec<AssetTransferOutput>,
    orders: Vec<OrderOnTransfer>,
    sender: Address,
    shard_users: Seq<Address>,
    approvers: Seq<Address>,
    outcomes: Seq<ScriptOutcome>,
)
    requires
        applied(
            ledger,
            InnerTransaction::General(
                Transaction::AssetTransfer { hash, burns, inputs, outputs, orders },
            ),
            sender,
            shard_users,
            approvers,
            outcomes,
        ) is Ok,
    ensures
        forall|o: int|
            0 <= o < orders@.len() ==> (origin_count(
                ledger,
                #[trigger] orders@[o],
                inputs@,
                0,
                0,
            ) matches Ok(count) && (count == 0 || count == orders@[o].order.origin_outputs@.len())),
{
    lemma_orders_check(ledger, orders@, inputs@, 0);
}

/// The assets of the scheme of an input are not under an administrator.
pub open spec fn is_free(ledger: Ledger, input: AssetTransferInput) -> bool {
    ledger.scheme(input.prev_out.asset_type) matches Ok(Some(scheme)) && scheme.administrator is None
}

proof fn lemma_gather_checked(
    gathered: Gathered,
    inputs: Seq<AssetTransferInput>,
    sender: Address,
    approvers: Seq<Address>,
    outcomes: Seq<ScriptOutcome>,
    k: int,
)
    requires
        0 <= k <= inputs.len(),
        gather(gathered, inputs, sender, approvers, outcomes, k) is Ok,
    ensures
        forall|i: int|
            k <= i < inputs.len() ==> is_approved(
                gathered.ledger,
                #[trigger] inputs[i],
                sender,
                approvers,
            ) && is_free(gathered.ledger, inputs[i]),
    decreases inputs.len() - k,
{
    if k < inputs.len() {
        let ledger = gathered.ledger;
        let next = Gathered {
            ledger: ledger.with_asset(ledger.spent(inputs[k]), None),
            sum: added(
                gathered.sum,
                inputs[k].prev_out.asset_type,
                inputs[k].prev_out.amount,
            ),
        };
        lemma_gather_checked(next, inputs, sender, approvers, outcomes, k + 1);
        assert forall|i: int| k <= i < inputs.len() implies is_approved(
            ledger,
            #[trigger] inputs[i],
            sender,
            approvers,
        ) && is_free(ledger, inputs[i]) by {
            if i > k {
                assert(is_approved(next.ledger, inputs[i], sender, approvers));
                assert(is_free(next.ledger, inputs[i]));
            }
        }
    }
}

proof fn lemma_mint(
    ledger: Ledger,
    hash: H256,
    metadata: Seq<char>,
    approver: Option<Address>,
    administrator: Option<Address>,
    output: AssetMintOutput,
    sender: Address,
    shard_users: Seq<Address>,
    pool: Seq<Asset>,
)
    ensures
        ({
            let scheme_at = scheme_address(hash, ledger.shard_id);
            let asset_at = asset_address(hash, 0, ledger.shard_id);
            let amount = minted_amount(output);
            mint(
                ledger,
                hash,
                metadata,
                approver,
                administrator,
                output,
                sender,
                shard_users,
                pool,
            ) matches Ok(after) ==> {
                &&& ledger.scheme(scheme_at) == Ok::<_, TrieError>(None::<SchemeView>)
                &&& after.scheme(scheme_at) == Ok::<_, TrieError>(
                    Some(SchemeView { metadata, amount, approver, administrator, pool }),
                )
                &&& after.asset(asset_at) == Ok::<_, TrieError>(
                    Some(
                        AssetView {
                            asset_type: scheme_at,
                            amount,
                            lock_script_hash: output.lock_script_hash,
                            parameters: byte_strings(output.parameters@),
                            order_hash: None,
                        },
                    ),
                )
                &&& forall|a: H256| a != scheme_at ==> #[trigger] after.scheme(a) == ledger.scheme(a)
                &&& forall|a: H256| a != asset_at ==> #[trigger] after.asset(a) == ledger.asset(a)
            }
        }),
{
}

/// A composition that succeeds takes away what its inputs name, each of which was there as
/// claimed, was named once, is not under an administrator and has the consent of its approver. It
/// mints a scheme whose pool holds, of each type, as much as the inputs did, and the assets of
/// that scheme, and leaves everything else alone.
#[verifier::spinoff_prover]
pub proof fn law_compose(
    ledger: Ledger,
    hash: H256,
    metadata: String,
    approver: Option<Address>,
    administrator: Option<Address>,
    inputs: Vec<AssetTransferInput>,
    output: AssetMintOutput,
    sender: Address,
    shard_users: Seq<Address>,
    approvers: Seq<Address>,
    outcomes: Seq<ScriptOutcome>,
)
    ensures
        ({
            let transaction = InnerTransaction::General(
                Transaction::AssetCompose {
                    hash,
                    metadata,
                    approver,
                    administrator,
                    inputs,
                    output,
                },
            );
            let result = applied(ledger, transaction, sender, shard_users, approvers, outcomes);
            let scheme_at = scheme_address(hash, ledger.shard_id);
            let asset_at = asset_address(hash, 0, ledger.shard_id);
            result matches Ok(after) ==> {
                &&& ledger.scheme(scheme_at) == Ok::<_, TrieError>(None::<SchemeView>)
                &&& after.scheme(scheme_at) matches Ok(Some(scheme)) && {
                    &&& scheme == SchemeView {
                        metadata: metadata@,
                        amount: minted_amount(output),
                        approver,
                        administrator,
                        pool: scheme.pool,
                    }
                    &&& distinct(scheme.pool)
                    &&& forall|t: H256| #[trigger] total(scheme.pool, t) == total(claimed(inputs@), t)
                    &&& forall|t: H256| #[trigger]
                        occurs(scheme.pool, t) == occurs(claimed(inputs@), t)
                }
                &&& after.asset(asset_at) == Ok::<_, TrieError>(
                    Some(
                        AssetView {
                            asset_type: scheme_at,
                            amount: minted_amount(output),
                            lock_script_hash: output.lock_script_hash,
                            parameters: byte_strings(output.parameters@),
                            order_hash: None,
                        },
                    ),
                )
                &&& forall|a: H256| a != scheme_at ==> #[trigger] after.scheme(a) == ledger.scheme(a)
                &&& forall|a: H256|
                    a != asset_at ==> #[trigger] after.asset(a) == if spends(ledger, inputs@, 0, a) {
                        Ok(None)
                    } else {
                        ledger.asset(a)
                    }
                &&& forall|i: int|
                    0 <= i < inputs@.len() ==> #[trigger] is_as_claimed(ledger, inputs@[i])
                &&& forall|i: int|
                    0 <= i < inputs@.len() ==> is_approved(
                        ledger,
                        #[trigger] inputs@[i],
                        sender,
                        approvers,
                    ) && is_free(ledger, inputs@[i])
                &&& forall|i: int, j: int|
                    0 <= i < j < inputs@.len() ==> #[trigger] ledger.spent(inputs@[i])
                        != #[trigger] ledger.spent(inputs@[j])
            }
        }),
{
    let start = Gathered { ledger, sum: Seq::empty() };
    if let Ok(middle) = gather(start, inputs@, sender, approvers, outcomes, 0) {
        lemma_gather_spends(start, inputs@, sender, approvers, outcomes, 0);
        lemma_gather_checked(start, inputs@, sender, approvers, outcomes, 0);
        law_compose_keeps_amounts(ledger, inputs@, sender, approvers, outcomes);
        lemma_mint(
            middle.ledger,
            hash,
            metadata@,
            approver,
            administrator,
            output,
            sender,
            shard_users,
            middle.sum,
        );
        assert forall|a: H256| #[trigger] middle.ledger.scheme(a) == ledger.scheme(a) by {}
    }
}

/// A decomposition that succeeds takes the composed asset and its scheme away, and puts what its
/// outputs say at its own addresses. The outputs make up exactly the pool of the scheme. All
/// other schemes and assets are left alone.
pub proof fn law_decompose(
    ledger: Ledger,
    hash: H256,
    input: AssetTransferInput,
    outputs: Vec<AssetTransferOutput>,
    sender: Address,
    shard_users: Seq<Address>,
    approvers: Seq<Address>,
    outcomes: Seq<ScriptOutcome>,
)
    ensures
        ({
            let transaction = InnerTransaction::General(
                Transaction::AssetDecompose { hash, input, outputs },
            );
            let result = applied(ledger, transaction, sender, shard_users, approvers, outcomes);
            let asset_type = input.prev_out.asset_type;
            let count = outputs@.len() as int;
            result matches Ok(after) ==> {
                &&& is_as_claimed(ledger, input)
                &&& is_approved(ledger, input, sender, approvers)
                &&& ledger.scheme(asset_type) matches Ok(Some(scheme)) && {
                    &&& scheme.pool.len() > 0
                    &&& distinct(scheme.pool) ==> forall|t: H256|
                        (#[trigger] occurs(scheme.pool, t) <==> occurs(made(outputs@), t)) && total(
                            scheme.pool,
                            t,
                        ) == total(made(outputs@), t)
                }
                &&& after.scheme(asset_type) == Ok::<_, TrieError>(None::<SchemeView>)
                &&& forall|a: H256| a != asset_type ==> #[trigger] after.scheme(a) == ledger.scheme(a)
                &&& forall|a: H256|
                    avoids(hash, ledger.shard_id, 0, count, a) ==> #[trigger] after.asset(a) == if a
                        == ledger.spent(input) {
                        Ok(None)
                    } else {
                        ledger.asset(a)
                    }
                &&& forall|i: int|
                    0 <= i < count && avoids(
                        hash,
                        ledger.shard_id,
                        i + 1,
                        count,
                        asset_address(hash, i, ledger.shard_id),
                    ) ==> after.asset(#[trigger] asset_address(hash, i, ledger.shard_id)) == Ok::<
                        _,
                        TrieError,
                    >(Some(output_asset(outputs@[i], None)))
            }
        }),
{
    let transaction = InnerTransaction::General(
        Transaction::AssetDecompose { hash, input, outputs },
    );
    if let Ok(after) = applied(ledger, transaction, sender, shard_users, approvers, outcomes) {
        let asset_type = input.prev_out.asset_type;
        let scheme = ledger.scheme(asset_type)->Ok_0->0;
        law_tally(made(outputs@));
        if distinct(scheme.pool) {
            law_decompose_matches_pool(scheme.pool, outputs@);
        }
        let middle = ledger.with_asset(ledger.spent(input), None).with_scheme(asset_type, None);
        lemma_produce(middle, hash, outputs@, no_order_hashes(outputs@.len()), 0);
        assert(after.scheme(asset_type) == middle.scheme(asset_type));
        assert forall|a: H256| a != asset_type implies #[trigger] after.scheme(a) == ledger.scheme(
            a,
        ) by {
            assert(after.scheme(a) == middle.scheme(a));
        }
    }
}

/// What was not composed cannot be taken apart.
pub proof fn law_only_composed_is_decomposed(
    ledger: Ledger,
    hash: H256,
    input: AssetTransferInput,
    outputs: Vec<AssetTransferOutput>,
    sender: Address,
    shard_users: Seq<Address>,
    approvers: Seq<Address>,
    outcomes: Seq<ScriptOutcome>,
    scheme: SchemeView,
)
    requires
        is_scheme_hash(input.prev_out.asset_type),
        ledger.scheme(input.prev_out.asset_type) == Ok::<_, TrieError>(Some(scheme)),
        scheme.pool.len() == 0,
    ensures
        applied(
            ledger,
            InnerTransaction::General(Transaction::AssetDecompose { hash, input, outputs }),
            sender,
            shard_users,
            approvers,
            outcomes,
        ) == Err::<Ledger, _>(
            refusal(
                TransactionError::InvalidDecomposedInput {
                    address: input.prev_out.asset_type,
                    got: 0,
                },
            ),
        ),
{
}

/// Wrapping native coin succeeds exactly where the shard can be read. It makes an asset of the
/// amount wrapped, and makes the scheme of such assets the first time only.
pub proof fn law_wrap(
    ledger: Ledger,
    parcel_hash: H256,
    output: AssetWrapCCCOutput,
    sender: Address,
    shard_users: Seq<Address>,
    approvers: Seq<Address>,
    outcomes: Seq<ScriptOutcome>,
)
    ensures
        ({
            let transaction = InnerTransaction::AssetWrapCCC { parcel_hash, output };
            let result = applied(ledger, transaction, sender, shard_users, approvers, outcomes);
            let scheme_at = zero_suffix_address(ledger.shard_id);
            let asset_at = asset_address(parcel_hash, 0, ledger.shard_id);
            &&& result is Ok <==> ledger.scheme(scheme_at) is Ok && ledger.asset(asset_at) is Ok
            &&& result matches Ok(after) ==> {
                &&& after.scheme(scheme_at) == if ledger.scheme(scheme_at) == Ok::<_, TrieError>(
                    None::<SchemeView>,
                ) {
                    Ok(Some(wrapped_scheme(ledger.shard_id)))
                } else {
                    ledger.scheme(scheme_at)
                }
                &&& after.asset(asset_at) == Ok::<_, TrieError>(
                    Some(
                        AssetView {
                            asset_type: scheme_at,
                            amount: output.amount,
                            lock_script_hash: output.lock_script_hash,
                            parameters: byte_strings(output.parameters@),
                            order_hash: None,
                        },
                    ),
                )
                &&& forall|a: H256| a != scheme_at ==> #[trigger] after.scheme(a) == ledger.scheme(a)
                &&& forall|a: H256| a != asset_at ==> #[trigger] after.asset(a) == ledger.asset(a)
            }
        }),
{
}

/// Unwrapping takes one asset away, which was there as claimed, and leaves everything else alone.
pub proof fn law_unwrap(
    ledger: Ledger,
    hash: H256,
    burn: AssetTransferInput,
    sender: Address,
    shard_users: Seq<Address>,
    approvers: Seq<Address>,
    outcomes: Seq<ScriptOutcome>,
)
    ensures
        ({
            let transaction = InnerTransaction::General(Transaction::AssetUnwrapCCC { hash, burn });
            let result = applied(ledger, transaction, sender, shard_users, approvers, outcomes);
            result matches Ok(after) ==> {
                &&& is_as_claimed(ledger, burn)
                &&& after == ledger.with_asset(ledger.spent(burn), None)
            }
        }),
{
}

/// What was wrapped can be unwrapped: right after native coin was wrapped, an input that names it
/// is spent, where its lock script is the one that it was wrapped under, its scripts burn it, and
/// the scheme of wrapped native coin is the one that wrapping makes.
pub proof fn law_unwrap_undoes_wrap(
    ledger: Ledger,
    parcel_hash: H256,
    output: AssetWrapCCCOutput,
    sender: Address,
    shard_users: Seq<Address>,
    approvers: Seq<Address>,
    hash: H256,
    burn: AssetTransferInput,
    outcomes: Seq<ScriptOutcome>,
)
    requires
        burn.prev_out.transaction_hash == parcel_hash,
        burn.prev_out.index == 0,
        burn.prev_out.asset_type == zero_suffix_address(ledger.shard_id),
        burn.prev_out.amount == output.amount,
        script_hash_of(burn.lock_script@) == output.lock_script_hash,
        ledger.scheme(zero_suffix_address(ledger.shard_id)) matches Ok(scheme) && (scheme is Some
            ==> scheme->0 == wrapped_scheme(ledger.shard_id)),
        outcomes.len() == 1,
        outcomes[0] is Burnt,
    ensures
        applied(
            ledger,
            InnerTransaction::AssetWrapCCC { parcel_hash, output },
            sender,
            shard_users,
            approvers,
            Seq::empty(),
        ) matches Ok(after) ==> applied(
            after,
            InnerTransaction::General(Transaction::AssetUnwrapCCC { hash, burn }),
            sender,
            shard_users,
            approvers,
            outcomes,
        ) == Ok::<_, Stop>(
            after.with_asset(asset_address(parcel_hash, 0, ledger.shard_id), None),
        ),
{
    law_addresses_are_told_apart(parcel_hash, 0, ledger.shard_id);
}

/// No pool of a scheme holds a type twice.
pub open spec fn pools_are_distinct(ledger: Ledger) -> bool {
    forall|a: H256|
        (#[trigger] ledger.scheme(a) matches Ok(Some(scheme)) ==> distinct(scheme.pool))
}

/// Transactions keep the pools of all schemes free of types that occur twice.
pub proof fn law_pools_stay_distinct(
    ledger: Ledger,
    transaction: InnerTransaction,
    sender: Address,
    shard_users: Seq<Address>,
    approvers: Seq<Address>,
    outcomes: Seq<ScriptOutcome>,
)
    requires
        pools_are_distinct(ledger),
    ensures
        applied(ledger, transaction, sender, shard_users, approvers, outcomes) matches Ok(after)
            ==> pools_are_distinct(after),
{
    if let Ok(after) = applied(ledger, transaction, sender, shard_users, approvers, outcomes) {
        assert forall|a: H256|
            (#[trigger] after.scheme(a) matches Ok(Some(scheme)) ==> distinct(scheme.pool)) by {
            assert(ledger.scheme(a) matches Ok(Some(scheme)) ==> distinct(scheme.pool));
            match transaction {
                InnerTransaction::General(general) => match general {
                    Transaction::AssetTransfer { hash, burns, inputs, outputs, orders } => {
                        law_transfer(
                            ledger,
                            hash,
                            burns,
                            inputs,
                            outputs,
                            orders,
                            sender,
                            shard_users,
                            approvers,
                            outcomes,
                        );
                    },
                    Transaction::AssetCompose {
                        hash,
                        metadata,
                        approver,
                        administrator,
                        inputs,
                        output,
                    } => {
                        law_compose(
                            ledger,
                            hash,
                            metadata,
                            approver,
                            administrator,
                            inputs,
                            output,
                            sender,
                            shard_users,
                            approvers,
                            outcomes,
                        );
                    },
                    Transaction::AssetDecompose { hash, input, outputs } => {
                        law_decompose(
                            ledger,
                            hash,
                            input,
                            outputs,
                            sender,
                            shard_users,
                            approvers,
                            outcomes,
                        );
                    },
                    Transaction::AssetMint { .. } => {},
                    Transaction::AssetSchemeChange { .. } => {},
                    Transaction::AssetUnwrapCCC { .. } => {},
                },
                InnerTransaction::AssetWrapCCC { .. } => {},
            }
        }
    }
}

/// A composed asset can be taken apart again into what it was composed of. Right after a
/// composition with inputs, a decomposition of all that was composed succeeds where its outputs
/// make as much of each type as the inputs held, its lock script is the one that was asked for and
/// its scripts unlock it, the approver consents, and the shard can be read. All schemes are then
/// as they were before the composition, and so is every asset at an address that is neither that of
/// an input, nor that of an output, nor that where the composed asset lay, which is free again. The
/// outputs lie at their addresses; where two share one, the later is found there.
pub proof fn law_decompose_undoes_compose(
    ledger: Ledger,
    hash: H256,
    metadata: String,
    approver: Option<Address>,
    administrator: Option<Address>,
    inputs: Vec<AssetTransferInput>,
    output: AssetMintOutput,
    sender: Address,
    shard_users: Seq<Address>,
    approvers: Seq<Address>,
    outcomes: Seq<ScriptOutcome>,
    after: Ledger,
    back_hash: H256,
    input: AssetTransferInput,
    outputs: Vec<AssetTransferOutput>,
    back_sender: Address,
    back_users: Seq<Address>,
    back_approvers: Seq<Address>,
    back_outcomes: Seq<ScriptOutcome>,
)
    requires
        inputs@.len() > 0,
        applied(
            ledger,
            InnerTransaction::General(
                Transaction::AssetCompose {
                    hash,
                    metadata,
                    approver,
                    administrator,
                    inputs,
                    output,
                },
            ),
            sender,
            shard_users,
            approvers,
            outcomes,
        ) == Ok::<_, Stop>(after),
        input.prev_out.transaction_hash == hash,
        input.prev_out.index == 0,
        input.prev_out.asset_type == scheme_address(hash, ledger.shard_id),
        input.prev_out.amount == minted_amount(output),
        script_hash_of(input.lock_script@) == output.lock_script_hash,
        back_outcomes.len() == 1,
        back_outcomes[0] is Unlocked,
        approver is Some ==> (back_sender == approver->0 || back_approvers.contains(approver->0)),
        forall|t: H256|
            (#[trigger] occurs(made(outputs@), t) <==> occurs(claimed(inputs@), t)) && total(
                made(outputs@),
                t,
            ) == total(claimed(inputs@), t),
        forall|i: int|
            0 <= i < outputs@.len() ==> after.asset(
                #[trigger] asset_address(back_hash, i, ledger.shard_id),
            ) is Ok,
    ensures
        ({
            let count = outputs@.len() as int;
            let composed_at = asset_address(hash, 0, ledger.shard_id);
            applied(
                after,
                InnerTransaction::General(
                    Transaction::AssetDecompose { hash: back_hash, input, outputs },
                ),
                back_sender,
                back_users,
                back_approvers,
                back_outcomes,
            ) matches Ok(back) && {
                &&& forall|a: H256| #[trigger] back.scheme(a) == ledger.scheme(a)
                &&& forall|a: H256|
                    a != composed_at && !spends(ledger, inputs@, 0, a) && avoids(
                        back_hash,
                        ledger.shard_id,
                        0,
                        count,
                        a,
                    ) ==> #[trigger] back.asset(a) == ledger.asset(a)
                &&& forall|a: H256|
                    (a == composed_at || spends(ledger, inputs@, 0, a)) && avoids(
                        back_hash,
                        ledger.shard_id,
                        0,
                        count,
                        a,
                    ) ==> #[trigger] back.asset(a) == Ok::<_, TrieError>(None::<AssetView>)
                &&& forall|i: int|
                    0 <= i < count && avoids(
                        back_hash,
                        ledger.shard_id,
                        i + 1,
                        count,
                        asset_address(back_hash, i, ledger.shard_id),
                    ) ==> back.asset(#[trigger] asset_address(back_hash, i, ledger.shard_id))
                        == Ok::<_, TrieError>(Some(output_asset(outputs@[i], None)))
                &&& forall|t: H256| #[trigger]
                    total(made(outputs@), t) == total(claimed(inputs@), t)
            }
        }),
{
    let start = Gathered { ledger, sum: Seq::empty() };
    let middle = gather(start, inputs@, sender, approvers, outcomes, 0)->Ok_0;
    let asset_type = scheme_address(hash, ledger.shard_id);
    lemma_gather_spends(start, inputs@, sender, approvers, outcomes, 0);
    lemma_mint(
        middle.ledger,
        hash,
        metadata@,
        approver,
        administrator,
        output,
        sender,
        shard_users,
        middle.sum,
    );
    assert(after.shard_id == ledger.shard_id);
    law_addresses_are_told_apart(hash, 0, ledger.shard_id);
    law_pool_gives_back_inputs(
        ledger,
        inputs@,
        sender,
        approvers,
        outcomes,
        after,
        asset_type,
        outputs@,
    );
    assert(after.spent(input) == asset_address(hash, 0, ledger.shard_id));
    assert(input_asset(after, input, back_sender, back_approvers) is Ok);
    assert(script_check(
        after,
        input,
        None,
        false,
        back_sender,
        back_approvers,
        back_outcomes[0],
    ) is Ok);
    let taken = after.with_asset(after.spent(input), None).with_scheme(asset_type, None);
    assert forall|i: int| 0 <= i < outputs@.len() implies taken.asset(
        #[trigger] asset_address(back_hash, i, taken.shard_id),
    ) is Ok by {
        assert(after.asset(asset_address(back_hash, i, ledger.shard_id)) is Ok);
    }
    lemma_produce_succeeds(taken, back_hash, outputs@, no_order_hashes(outputs@.len()), 0);
    law_decompose(
        after,
        back_hash,
        input,
        outputs,
        back_sender,
        back_users,
        back_approvers,
        back_outcomes,
    );
    let back = produce(taken, back_hash, outputs@, no_order_hashes(outputs@.len()), 0)->Ok_0;
    assert forall|a: H256| #[trigger] back.scheme(a) == ledger.scheme(a) by {
        assert(middle.ledger.scheme(a) == ledger.scheme(a));
        if a != asset_type {
            assert(after.scheme(a) == middle.ledger.scheme(a));
        }
    }
    assert forall|a: H256|
        avoids(
            back_hash,
            ledger.shard_id,
            0,
            outputs@.len() as int,
            a,
        ) implies #[trigger] back.asset(a) == if a == after.spent(input) || spends(
        ledger,
        inputs@,
        0,
        a,
    ) {
        Ok(None)
    } else {
        ledger.asset(a)
    } by {
        if a != after.spent(input) {
            assert(after.asset(a) == middle.ledger.asset(a));
        }
    }
    assert forall|t: H256| #[trigger] total(made(outputs@), t) == total(claimed(inputs@), t) by {
        assert(occurs(made(outputs@), t) <==> occurs(claimed(inputs@), t));
    }
}

/// A read-only state reads what the state that it was made beside reads.
pub proof fn law_read_only_agrees(
    state: ShardLevelState,
    copy: ReadOnlyShardLevelState,
    address: H256,
)
    requires
        state.db@ == copy.db@,
        state.root == copy.root,
        state.cache@.current == copy.cache@.current,
    ensures
        copy.scheme_at(address) == state.scheme_at(address),
        copy.asset_at(address) == state.asset_at(address),
{
}

proof fn lemma_gather_leaves(
    gathered: Gathered,
    inputs: Seq<AssetTransferInput>,
    sender: Address,
    approvers: Seq<Address>,
    outcomes: Seq<ScriptOutcome>,
    k: int,
) -> (n: int)
    requires
        0 <= k <= inputs.len(),
    ensures
        k <= n <= inputs.len(),
        is_spent(
            gathered.ledger,
            gather_leaves(gathered, inputs, sender, approvers, outcomes, k),
            inputs.take(n),
            k,
        ),
    decreases inputs.len() - k,
{
    let ledger = gathered.ledger;
    if k >= inputs.len() || !is_composable(ledger, inputs[k], sender, approvers, outcomes[k]) {
        k
    } else {
        let asset_type = inputs[k].prev_out.asset_type;
        let amount = inputs[k].prev_out.amount;
        let after = gather_leaves(gathered, inputs, sender, approvers, outcomes, k);
        let next = ledger.with_asset(ledger.spent(inputs[k]), None);
        let n = if amount_in(gathered.sum, asset_type) + amount > u64::MAX {
            k + 1
        } else {
            lemma_gather_leaves(
                Gathered { ledger: next, sum: added(gathered.sum, asset_type, amount) },
                inputs,
                sender,
                approvers,
                outcomes,
                k + 1,
            )
        };
        assert(inputs.take(n)[k] == inputs[k]);
        lemma_spend_one(ledger, after, inputs.take(n), k);
        n
    }
}

/// Where the inputs of a composition are not all accepted, the work on it leaves the ledger
/// without the assets of some of the first inputs, each of which was there as claimed, and alters
/// nothing else.
pub proof fn law_stopped_composition(
    ledger: Ledger,
    hash: H256,
    metadata: Seq<char>,
    approver: Option<Address>,
    administrator: Option<Address>,
    inputs: Seq<AssetTransferInput>,
    output: AssetMintOutput,
    sender: Address,
    shard_users: Seq<Address>,
    approvers: Seq<Address>,
    outcomes: Seq<ScriptOutcome>,
)
    requires
        gather(
            Gathered { ledger, sum: Seq::empty() },
            inputs,
            sender,
            approvers,
            outcomes,
            0,
        ) is Err,
    ensures
        exists|n: int|
            0 <= n <= inputs.len() && is_spent(
                ledger,
                compose_leaves(
                    ledger,
                    hash,
                    metadata,
                    approver,
                    administrator,
                    inputs,
                    output,
                    sender,
                    shard_users,
                    approvers,
                    outcomes,
                ),
                #[trigger] inputs.take(n),
                0,
            ),
{
    let n = lemma_gather_leaves(
        Gathered { ledger, sum: Seq::empty() },
        inputs,
        sender,
        approvers,
        outcomes,
        0,
    );
    assert(0 <= n <= inputs.len() && is_spent(
        ledger,
        compose_leaves(
            ledger,
            hash,
            metadata,
            approver,
            administrator,
            inputs,
            output,
            sender,
            shard_users,
            approvers,
            outcomes,
        ),
        inputs.take(n),
        0,
    ));
}

/// Wrapping is the same whoever sends it, and whoever uses the shard or approves. It spends
/// nothing, so no outcome counts either.
pub proof fn law_wrap_is_open_to_all(
    ledger: Ledger,
    parcel_hash: H256,
    output: AssetWrapCCCOutput,
    sender: Address,
    shard_users: Seq<Address>,
    approvers: Seq<Address>,
    outcomes: Seq<ScriptOutcome>,
    other_sender: Address,
    other_users: Seq<Address>,
    other_approvers: Seq<Address>,
    other_outcomes: Seq<ScriptOutcome>,
)
    ensures
        ({
            let transaction = InnerTransaction::AssetWrapCCC { parcel_hash, output };
            applied(ledger, transaction, sender, shard_users, approvers, outcomes) == applied(
                ledger,
                transaction,
                other_sender,
                other_users,
                other_approvers,
                other_outcomes,
            )
        }),
{
}

/// Unwrapping is the same whoever uses the shard and whoever approves.
pub proof fn law_unwrap_asks_its_sender_only(
    ledger: Ledger,
    hash: H256,
    burn: AssetTransferInput,
    sender: Address,
    shard_users: Seq<Address>,
    approvers: Seq<Address>,
    outcomes: Seq<ScriptOutcome>,
    other_users: Seq<Address>,
    other_approvers: Seq<Address>,
)
    ensures
        ({
            let transaction = InnerTransaction::General(Transaction::AssetUnwrapCCC { hash, burn });
            applied(ledger, transaction, sender, shard_users, approvers, outcomes) == applied(
                ledger,
                transaction,
                sender,
                other_users,
                other_approvers,
                outcomes,
            )
        }),
{
}

/// The users of a shard bear on nothing but minting and composing.
pub proof fn law_users_bear_on_minting_only(
    ledger: Ledger,
    transaction: InnerTransaction,
    sender: Address,
    shard_users: Seq<Address>,
    approvers: Seq<Address>,
    outcomes: Seq<ScriptOutcome>,
    other_users: Seq<Address>,
)
    requires
        !(transaction matches InnerTransaction::General(Transaction::AssetMint { .. })),
        !(transaction matches InnerTransaction::General(Transaction::AssetCompose { .. })),
    ensures
        applied(ledger, transaction, sender, shard_users, approvers, outcomes) == applied(
            ledger,
            transaction,
            sender,
            other_users,
            approvers,
            outcomes,
        ),
{
}

/// Minting is the same whoever approves, and whatever comes of scripts.
pub proof fn law_mint_needs_no_approval(
    ledger: Ledger,
    transaction: Transaction,
    sender: Address,
    shard_users: Seq<Address>,
    approvers: Seq<Address>,
    outcomes: Seq<ScriptOutcome>,
    other_approvers: Seq<Address>,
    other_outcomes: Seq<ScriptOutcome>,
)
    requires
        transaction is AssetMint,
    ensures
        applied(
            ledger,
            InnerTransaction::General(transaction),
            sender,
            shard_users,
            approvers,
            outcomes,
        ) == applied(
            ledger,
            InnerTransaction::General(transaction),
            sender,
            shard_users,
            other_approvers,
            other_outcomes,
        ),
{
}

/// A transaction with all that is handed over with it.
pub struct Call {
    pub transaction: InnerTransaction,
    pub sender: Address,
    pub shard_users: Seq<Address>,
    pub approvers: Seq<Address>,
    pub outcomes: Seq<ScriptOutcome>,
}

/// The ledger after a call: changed where it succeeds, and as it was otherwise.
pub open spec fn settled(ledger: Ledger, call: Call) -> Ledger {
    match applied(
        ledger,
        call.transaction,
        call.sender,
        call.shard_users,
        call.approvers,
        call.outcomes,
    ) {
        Ok(after) => after,
        Err(_) => ledger,
    }
}

/// The ledger after calls, one after the other.
pub open spec fn settled_all(ledger: Ledger, calls: Seq<Call>) -> Ledger
    decreases calls.len(),
{
    if calls.len() == 0 {
        ledger
    } else {
        settled(settled_all(ledger, calls.drop_last()), calls.last())
    }
}

/// A call is to take assets of a type apart.
pub open spec fn decomposes(call: Call, asset_type: H256) -> bool {
    call.transaction matches InnerTransaction::General(
        Transaction::AssetDecompose { input, .. },
    ) && input.prev_out.asset_type == asset_type
}

proof fn lemma_released_scheme_stays(
    ledger: Ledger,
    call: Call,
    asset_type: H256,
    scheme: SchemeView,
)
    requires
        ledger.scheme(asset_type) == Ok::<_, TrieError>(Some(scheme)),
        scheme.administrator is None,
        !decomposes(call, asset_type),
    ensures
        settled(ledger, call).scheme(asset_type) == Ok::<_, TrieError>(Some(scheme)),
{
    let Call { transaction, sender, shard_users, approvers, outcomes } = call;
    match transaction {
        InnerTransaction::General(general) => match general {
            Transaction::AssetTransfer { hash, burns, inputs, outputs, orders } => {
                law_transfer(
                    ledger,
                    hash,
                    burns,
                    inputs,
                    outputs,
                    orders,
                    sender,
                    shard_users,
                    approvers,
                    outcomes,
                );
            },
            Transaction::AssetCompose {
                hash,
                metadata,
                approver,
                administrator,
                inputs,
                output,
            } => {
                law_compose(
                    ledger,
                    hash,
                    metadata,
                    approver,
                    administrator,
                    inputs,
                    output,
                    sender,
                    shard_users,
                    approvers,
                    outcomes,
                );
            },
            Transaction::AssetDecompose { hash, input, outputs } => {
                law_decompose(
                    ledger,
                    hash,
                    input,
                    outputs,
                    sender,
                    shard_users,
                    approvers,
                    outcomes,
                );
            },
            Transaction::AssetMint { .. } => {},
            Transaction::AssetSchemeChange { .. } => {},
            Transaction::AssetUnwrapCCC { .. } => {},
        },
        InnerTransaction::AssetWrapCCC { .. } => {},
    }
}

/// Nobody can change a scheme that has no administrator: once it has none, it stays as it is
/// through all calls, and every change of it is refused. Only taking assets of its type apart ends
/// this, for it takes the scheme away.
pub proof fn law_released_scheme_is_final(
    ledger: Ledger,
    asset_type: H256,
    scheme: SchemeView,
    calls: Seq<Call>,
    change: Transaction,
    sender: Address,
    shard_users: Seq<Address>,
    approvers: Seq<Address>,
    outcomes: Seq<ScriptOutcome>,
)
    requires
        is_scheme_hash(asset_type),
        ledger.scheme(asset_type) == Ok::<_, TrieError>(Some(scheme)),
        scheme.administrator is None,
        forall|i: int| 0 <= i < calls.len() ==> !decomposes(#[trigger] calls[i], asset_type),
        change matches Transaction::AssetSchemeChange { asset_type: t, .. } && t == asset_type,
    ensures
        settled_all(ledger, calls).scheme(asset_type) == Ok::<_, TrieError>(Some(scheme)),
        applied(
            settled_all(ledger, calls),
            InnerTransaction::General(change),
            sender,
            shard_users,
            approvers,
            outcomes,
        ) == Err::<Ledger, _>(refusal(TransactionError::InsufficientPermission)),
    decreases calls.len(),
{
    if calls.len() > 0 {
        let front = calls.drop_last();
        assert forall|i: int| 0 <= i < front.len() implies !decomposes(
            #[trigger] front[i],
            asset_type,
        ) by {
            assert(front[i] == calls[i]);
        }
        assert(!decomposes(calls[calls.len() - 1], asset_type));
        law_released_scheme_is_final(
            ledger,
            asset_type,
            scheme,
            front,
            change,
            sender,
            shard_users,
            approvers,
            outcomes,
        );
        lemma_released_scheme_stays(
            settled_all(ledger, front),
            calls.last(),
            asset_type,
            scheme,
        );
    }
}

/// Once a change has left a scheme without an administrator, every later change of it is refused,
/// whatever calls come between that do not take assets of its type apart.
pub proof fn law_release_ends_changes(
    ledger: Ledger,
    hash: H256,
    asset_type: H256,
    metadata: String,
    approver: Option<Address>,
    sender: Address,
    shard_users: Seq<Address>,
    approvers: Seq<Address>,
    outcomes: Seq<ScriptOutcome>,
    calls: Seq<Call>,
    change: Transaction,
    later_sender: Address,
    later_users: Seq<Address>,
    later_approvers: Seq<Address>,
    later_outcomes: Seq<ScriptOutcome>,
)
    requires
        forall|i: int| 0 <= i < calls.len() ==> !decomposes(#[trigger] calls[i], asset_type),
        change matches Transaction::AssetSchemeChange { asset_type: t, .. } && t == asset_type,
    ensures
        applied(
            ledger,
            InnerTransaction::General(
                Transaction::AssetSchemeChange {
                    hash,
                    asset_type,
                    metadata,
                    approver,
                    administrator: None,
                },
            ),
            sender,
            shard_users,
            approvers,
            outcomes,
        ) matches Ok(after) ==> applied(
            settled_all(after, calls),
            InnerTransaction::General(change),
            later_sender,
            later_users,
            later_approvers,
            later_outcomes,
        ) == Err::<Ledger, _>(refusal(TransactionError::InsufficientPermission)),
{
    let release = InnerTransaction::General(
        Transaction::AssetSchemeChange {
            hash,
            asset_type,
            metadata,
            approver,
            administrator: None,
        },
    );
    if let Ok(after) = applied(ledger, release, sender, shard_users, approvers, outcomes) {
        law_released_scheme_is_final(
            after,
            asset_type,
            after.scheme(asset_type)->Ok_0->0,
            calls,
            change,
            later_sender,
            later_users,
            later_approvers,
            later_outcomes,
        );
    }
}

} // verus!
